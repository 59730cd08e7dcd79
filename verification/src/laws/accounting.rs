//! Where the tokens are, and that no call moves the sums except as it
//! says: tokens are minted and burned by the calls that name a reward or
//! a price, and by no other.

use vstd::prelude::*;
use crate::escrow::{approval_settles, approved_by};
use crate::machine::{accepted, lemma_run_keeps_wf, run, step, Call};
use crate::multisig::{approval_executes, approve_tx_effect, distinct, propose_tx_filed};
use crate::state::{amount_weight, escrow_weight, wallet_weight, State};
use crate::totals::{lemma_total_insert, lemma_total_remove, total};
use crate::types::{
    Escrow, Principal, WalletView, BADGE_COST, PROPOSAL_COST, REFERRAL_REWARD,
    SUBSCRIPTION_COST, TICKET_PRICE, VOUCH_REWARD,
};

verus! {

/// By how much the call changes what principals and wallets hold: the
/// rewards it mints, less the prices and deposits it takes. Transfers and
/// the wallet operations move tokens between holders and come to zero, as
/// does every refused call.
pub open spec fn circulating_delta(s: State, call: Call) -> int {
    if !accepted(s, call) {
        0
    } else {
        match call {
            Call::Vouch { signers, voucher, target } => if voucher == target {
                0
            } else {
                VOUCH_REWARD as int
            },
            Call::Stake { signers, user, referrer, now } => if referrer is Some {
                REFERRAL_REWARD as int
            } else {
                0
            },
            Call::BuyBadge { signers, user, badge } => -(BADGE_COST as int),
            Call::DepositCrowdfund { signers, user, amount } => -(amount as int),
            Call::CreateProposal { signers, user } => -(PROPOSAL_COST as int),
            Call::CreateEscrow { signers, buyer, seller, amount } => -(amount as int),
            Call::ApproveEscrow { signers, escrow_id, caller } => if approval_settles(
                s,
                escrow_id,
                caller,
            ) {
                s.escrows[escrow_id].amount as int
            } else {
                0
            },
            Call::Subscribe { signers, user, now } => -(SUBSCRIPTION_COST as int),
            Call::BuyTicket { signers, user } => -(TICKET_PRICE as int),
            Call::RunLottery { signers, draw } => s.pot() as int,
            _ => 0,
        }
    }
}

/// The tokens that the ledger holds for somebody: in open escrows, in the
/// crowdfund and in the lottery's pot.
pub open spec fn held(s: State) -> nat {
    s.escrow_total() + s.crowdfund as nat + s.pot()
}

/// All tokens there are: those in circulation and those held.
pub open spec fn supply(s: State) -> nat {
    s.circulating() + held(s)
}

/// By how much the call changes the supply: what it mints as a reward,
/// less what it burns as a price.
pub open spec fn supply_delta(s: State, call: Call) -> int {
    if !accepted(s, call) {
        0
    } else {
        match call {
            Call::Vouch { signers, voucher, target } => if voucher == target {
                0
            } else {
                VOUCH_REWARD as int
            },
            Call::Stake { signers, user, referrer, now } => if referrer is Some {
                REFERRAL_REWARD as int
            } else {
                0
            },
            Call::BuyBadge { signers, user, badge } => -(BADGE_COST as int),
            Call::CreateProposal { signers, user } => -(PROPOSAL_COST as int),
            Call::Subscribe { signers, user, now } => -(SUBSCRIPTION_COST as int),
            _ => 0,
        }
    }
}

/// Whether the call is a transfer, an escrow operation or a wallet
/// operation.
pub open spec fn is_custody_call(call: Call) -> bool {
    call is TransferBzr || call is CreateEscrow || call is ApproveEscrow || call is CreateWallet
        || call is DepositWallet || call is ProposeTx || call is ApproveTx
}

/// Writing a balance moves the sum of balances by the difference.
pub proof fn lemma_with_balance(s: State, p: Principal, amount: nat)
    requires
        s.balances.dom().finite(),
        amount <= u32::MAX,
    ensures
        s.with_balance(p, amount).balance_total() + s.balance_of(p) == s.balance_total() + amount,
        s.with_balance(p, amount).balances.dom().finite(),
{
    lemma_total_insert(s.balances, amount_weight(), p, amount as u32);
}

/// Crediting a balance adds to the sum of balances.
pub proof fn lemma_credit(s: State, p: Principal, amount: nat)
    requires
        s.balances.dom().finite(),
        s.balance_of(p) + amount <= u32::MAX,
    ensures
        s.credit(p, amount).balance_total() == s.balance_total() + amount,
        s.credit(p, amount).balances.dom().finite(),
{
    lemma_with_balance(s, p, s.balance_of(p) + amount);
}

/// Debiting a balance takes from the sum of balances.
pub proof fn lemma_debit(s: State, p: Principal, amount: nat)
    requires
        s.balances.dom().finite(),
        s.balance_of(p) >= amount,
    ensures
        s.debit(p, amount).balance_total() + amount == s.balance_total(),
        s.debit(p, amount).balances.dom().finite(),
{
    lemma_with_balance(s, p, (s.balance_of(p) - amount) as nat);
}

/// Writing a wallet's balance moves the sum over wallets by the
/// difference.
pub proof fn lemma_wallet_balance(wallets: Map<u32, WalletView>, id: u32, balance: u32)
    requires
        wallets.dom().finite(),
        wallets.contains_key(id),
    ensures
        total(
            wallets.insert(id, WalletView { balance, ..wallets[id] }),
            wallet_weight(),
        ) + wallets[id].balance == total(wallets, wallet_weight()) + balance,
{
    lemma_total_insert(wallets, wallet_weight(), id, WalletView { balance, ..wallets[id] });
}

/// Every call changes what principals and wallets hold by exactly what it
/// mints less what it takes.
pub proof fn law_circulating_changes_by_its_delta(s: State, call: Call)
    requires
        s.wf(),
    ensures
        step(s, call).circulating() == s.circulating() + circulating_delta(s, call),
{
    if accepted(s, call) {
        match call {
            Call::Vouch { signers, voucher, target } => {
                if voucher != target {
                    lemma_credit(s, voucher, VOUCH_REWARD as nat);
                }
            },
            Call::TransferBzr { signers, from, to, amount } => {
                lemma_debit(s, from, amount as nat);
                lemma_credit(s.debit(from, amount as nat), to, amount as nat);
            },
            Call::Stake { signers, user, referrer, now } => {
                if let Some(who) = referrer {
                    lemma_credit(s, who, REFERRAL_REWARD as nat);
                }
            },
            Call::BuyBadge { signers, user, badge } => {
                lemma_debit(s, user, BADGE_COST as nat);
            },
            Call::DepositCrowdfund { signers, user, amount } => {
                lemma_debit(s, user, amount as nat);
            },
            Call::CreateProposal { signers, user } => {
                lemma_debit(s, user, PROPOSAL_COST as nat);
            },
            Call::CreateEscrow { signers, buyer, seller, amount } => {
                lemma_debit(s, buyer, amount as nat);
            },
            Call::ApproveEscrow { signers, escrow_id, caller } => {
                if approval_settles(s, escrow_id, caller) {
                    lemma_credit(
                        s,
                        s.escrows[escrow_id].seller,
                        s.escrows[escrow_id].amount as nat,
                    );
                }
            },
            Call::Subscribe { signers, user, now } => {
                lemma_debit(s, user, SUBSCRIPTION_COST as nat);
            },
            Call::CreateWallet { signers, creator, owners, threshold } => {
                lemma_total_insert(
                    s.wallets,
                    wallet_weight(),
                    (s.wallet_count + 1) as u32,
                    WalletView { owners: distinct(owners), threshold, balance: 0 },
                );
            },
            Call::DepositWallet { signers, user, wallet_id, amount } => {
                lemma_debit(s, user, amount as nat);
                lemma_wallet_balance(
                    s.wallets,
                    wallet_id,
                    (s.wallets[wallet_id].balance + amount) as u32,
                );
            },
            Call::ProposeTx { signers, user, wallet_id, to, amount } => {
                let filed = propose_tx_filed(s, user, wallet_id, to, amount);
                let id = (s.tx_count + 1) as u32;
                if s.wallets[wallet_id].threshold == 1 {
                    lemma_approval_keeps_circulating(filed, user, id);
                }
            },
            Call::ApproveTx { signers, user, tx_id } => {
                lemma_approval_keeps_circulating(s, user, tx_id);
            },
            Call::BuyTicket { signers, user } => {
                lemma_debit(s, user, TICKET_PRICE as nat);
            },
            Call::RunLottery { signers, draw } => {
                lemma_credit(s, s.lottery[draw as int], s.pot());
            },
            _ => {},
        }
    }
}

/// An approval that pays out moves tokens from the wallet to the
/// recipient, and what principals and wallets hold together stays.
pub proof fn lemma_approval_keeps_circulating(s: State, user: Principal, tx_id: u32)
    requires
        s.balances.dom().finite(),
        s.wallets.dom().finite(),
        s.txs.contains_key(tx_id),
        s.wallets.contains_key(s.txs[tx_id].wallet_id),
        approval_executes(s, user, tx_id) ==> s.wallets[s.txs[tx_id].wallet_id].balance
            >= s.txs[tx_id].amount && s.balance_of(s.txs[tx_id].to) + s.txs[tx_id].amount
            <= u32::MAX,
    ensures
        approve_tx_effect(s, user, tx_id).circulating() == s.circulating(),
{
    let t = s.txs[tx_id];
    if approval_executes(s, user, tx_id) {
        lemma_credit(s, t.to, t.amount as nat);
        lemma_wallet_balance(
            s.wallets,
            t.wallet_id,
            (s.wallets[t.wallet_id].balance - t.amount) as u32,
        );
    }
}

/// Every call changes the supply by exactly what it mints as a reward
/// less what it burns as a price: escrows, the crowdfund, the lottery and
/// the wallets only hold what was paid in, and pay out no more.
pub proof fn law_supply_changes_by_its_delta(s: State, call: Call)
    requires
        s.wf(),
    ensures
        supply(step(s, call)) == supply(s) + supply_delta(s, call),
{
    law_circulating_changes_by_its_delta(s, call);
    if accepted(s, call) {
        match call {
            Call::CreateEscrow { signers, buyer, seller, amount } => {
                lemma_total_insert(
                    s.escrows,
                    escrow_weight(),
                    (s.escrow_count + 1) as u32,
                    Escrow { buyer, seller, amount, buyer_ok: false, seller_ok: false },
                );
            },
            Call::ApproveEscrow { signers, escrow_id, caller } => {
                let e = approved_by(s.escrows[escrow_id], caller);
                if approval_settles(s, escrow_id, caller) {
                    lemma_total_remove(s.escrows, escrow_weight(), escrow_id);
                } else {
                    lemma_total_insert(s.escrows, escrow_weight(), escrow_id, e);
                }
            },
            Call::BuyTicket { signers, user } => {
                assert((s.lottery.len() + 1) * TICKET_PRICE == s.lottery.len() * TICKET_PRICE
                    + TICKET_PRICE) by (nonlinear_arith);
            },
            _ => {},
        }
    }
}

/// No sequence of transfers, escrow operations and wallet operations
/// changes what principals, wallets and open escrows hold together.
pub proof fn law_custody_conserves(s: State, calls: Seq<Call>)
    requires
        s.wf(),
        forall|i: int| 0 <= i < calls.len() ==> is_custody_call(#[trigger] calls[i]),
    ensures
        run(s, calls).circulating() + run(s, calls).escrow_total() == s.circulating()
            + s.escrow_total(),
    decreases calls.len(),
{
    if calls.len() > 0 {
        let before = run(s, calls.drop_last());
        let call = calls.last();
        law_custody_conserves(s, calls.drop_last());
        lemma_run_keeps_wf(s, calls.drop_last());
        assert(is_custody_call(calls[calls.len() - 1]));
        law_supply_changes_by_its_delta(before, call);
    }
}

/// No sequence of transfers and wallet operations changes what principals
/// and wallets hold together.
pub proof fn law_transfers_conserve(s: State, calls: Seq<Call>)
    requires
        s.wf(),
        forall|i: int|
            0 <= i < calls.len() ==> is_custody_call(#[trigger] calls[i]) && !(calls[i]
                is CreateEscrow) && !(calls[i] is ApproveEscrow),
    ensures
        run(s, calls).circulating() == s.circulating(),
    decreases calls.len(),
{
    if calls.len() > 0 {
        let before = run(s, calls.drop_last());
        law_transfers_conserve(s, calls.drop_last());
        lemma_run_keeps_wf(s, calls.drop_last());
        assert(is_custody_call(calls[calls.len() - 1]));
        law_circulating_changes_by_its_delta(before, calls.last());
    }
}

/// What the calls mint less what they burn, each call counted in the
/// state in which it is made.
pub open spec fn supply_change(s: State, calls: Seq<Call>) -> int
    decreases calls.len(),
{
    if calls.len() == 0 {
        0
    } else {
        supply_change(s, calls.drop_last()) + supply_delta(
            run(s, calls.drop_last()),
            calls.last(),
        )
    }
}

/// After any sequence of calls the supply is what it was, more what the
/// calls minted as rewards and less what they burned as prices: tokens
/// come from a vouch or a referral, go for a badge, a proposal or a
/// subscription, and are neither made nor lost in any other way.
pub proof fn law_supply_is_accounted_for(s: State, calls: Seq<Call>)
    requires
        s.wf(),
    ensures
        supply(run(s, calls)) == supply(s) + supply_change(s, calls),
    decreases calls.len(),
{
    if calls.len() > 0 {
        law_supply_is_accounted_for(s, calls.drop_last());
        lemma_run_keeps_wf(s, calls.drop_last());
        law_supply_changes_by_its_delta(run(s, calls.drop_last()), calls.last());
    }
}

} // verus!
