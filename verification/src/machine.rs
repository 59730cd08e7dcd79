//! The ledger as a state machine: every call that changes it, as a value,
//! and the state that a call or a sequence of calls leaves behind.

use vstd::prelude::*;
use crate::admin::{admin_result, init_result};
use crate::bonding::{
    force_unbond_effect, force_unbond_result, stake_effect, stake_result, unbonded,
    withdraw_result,
};
use crate::escrow::{
    approve_escrow_effect, approve_escrow_result, create_escrow_effect, create_escrow_result,
};
use crate::governance::{
    create_proposal_effect, create_proposal_result, vote_effect, vote_result,
};
use crate::lottery::{
    buy_ticket_effect, buy_ticket_result, run_lottery_effect, run_lottery_result,
};
use crate::multisig::{
    approve_tx_effect, approve_tx_result, create_wallet_effect, create_wallet_result,
    deposit_wallet_effect, deposit_wallet_result, lemma_approve_tx_wf, lemma_create_wallet_wf,
    lemma_deposit_wallet_wf, lemma_propose_tx_filed_wf, propose_tx_effect, propose_tx_filed,
    propose_tx_result,
};
use crate::registry::{
    buy_badge_effect, buy_badge_result, gated_result, raise_dispute_effect,
    resolve_dispute_effect, resolve_dispute_result, send_message_effect, set_nickname_effect,
};
use crate::reputation::{
    add_trust_effect, add_trust_result, decay_effect, decay_result, vouch_effect, vouch_result,
};
use crate::state::State;
use crate::subscription::{subscribe_effect, subscribe_result};
use crate::symbol::Symbol;
use crate::token::{
    deposit_crowdfund_effect, deposit_crowdfund_result, transfer_bzr_effect,
    transfer_bzr_result,
};
use crate::types::Principal;

verus! {

/// One call of an operation that can change the ledger, with the signers
/// of the call and its arguments.
pub enum Call {
    Init { admin: Principal },
    TransferAdmin { signers: Set<Principal>, new_admin: Principal },
    SetMaintenance { signers: Set<Principal>, active: bool },
    AddTrust { signers: Set<Principal>, user: Principal },
    Vouch { signers: Set<Principal>, voucher: Principal, target: Principal },
    Decay { signers: Set<Principal>, user: Principal },
    TransferBzr { signers: Set<Principal>, from: Principal, to: Principal, amount: u32 },
    Stake { signers: Set<Principal>, user: Principal, referrer: Option<Principal>, now: u64 },
    Withdraw { signers: Set<Principal>, user: Principal, now: u64 },
    ForceUnbond { signers: Set<Principal>, user: Principal },
    BuyBadge { signers: Set<Principal>, user: Principal, badge: Symbol },
    DepositCrowdfund { signers: Set<Principal>, user: Principal, amount: u32 },
    Vote { signers: Set<Principal>, user: Principal, proposal_id: u32, in_favor: bool },
    CreateProposal { signers: Set<Principal>, user: Principal },
    RaiseDispute { signers: Set<Principal>, accuser: Principal, target: Principal },
    ResolveDispute { signers: Set<Principal>, target: Principal },
    SetNickname { signers: Set<Principal>, user: Principal, nickname: Symbol },
    SendMessage { signers: Set<Principal>, from: Principal, to: Principal, text: Seq<char> },
    CreateEscrow { signers: Set<Principal>, buyer: Principal, seller: Principal, amount: u32 },
    ApproveEscrow { signers: Set<Principal>, escrow_id: u32, caller: Principal },
    Subscribe { signers: Set<Principal>, user: Principal, now: u64 },
    CreateWallet {
        signers: Set<Principal>,
        creator: Principal,
        owners: Seq<Principal>,
        threshold: u32,
    },
    DepositWallet { signers: Set<Principal>, user: Principal, wallet_id: u32, amount: u32 },
    ProposeTx {
        signers: Set<Principal>,
        user: Principal,
        wallet_id: u32,
        to: Principal,
        amount: u32,
    },
    ApproveTx { signers: Set<Principal>, user: Principal, tx_id: u32 },
    BuyTicket { signers: Set<Principal>, user: Principal },
    RunLottery { signers: Set<Principal>, draw: u32 },
    TakeEvents,
}

/// Whether the call is accepted in state `s`.
pub open spec fn accepted(s: State, call: Call) -> bool {
    match call {
        Call::Init { admin } => init_result(s) is Ok,
        Call::TransferAdmin { signers, new_admin } => admin_result(s, signers) is Ok,
        Call::SetMaintenance { signers, active } => admin_result(s, signers) is Ok,
        Call::AddTrust { signers, user } => add_trust_result(s, signers, user) is Ok,
        Call::Vouch { signers, voucher, target } => vouch_result(s, signers, voucher, target) is Ok,
        Call::Decay { signers, user } => decay_result(s, signers) is Ok,
        Call::TransferBzr { signers, from, to, amount } => transfer_bzr_result(
            s,
            signers,
            from,
            to,
            amount,
        ) is Ok,
        Call::Stake { signers, user, referrer, now } => stake_result(
            s,
            signers,
            user,
            referrer,
        ) is Ok,
        Call::Withdraw { signers, user, now } => withdraw_result(s, signers, user, now) is Ok,
        Call::ForceUnbond { signers, user } => force_unbond_result(s, signers) is Ok,
        Call::BuyBadge { signers, user, badge } => buy_badge_result(s, signers, user) is Ok,
        Call::DepositCrowdfund { signers, user, amount } => deposit_crowdfund_result(
            s,
            signers,
            user,
            amount,
        ) is Ok,
        Call::Vote { signers, user, proposal_id, in_favor } => vote_result(
            s,
            signers,
            user,
            proposal_id,
            in_favor,
        ) is Ok,
        Call::CreateProposal { signers, user } => create_proposal_result(s, signers, user) is Ok,
        Call::RaiseDispute { signers, accuser, target } => gated_result(s, signers, accuser) is Ok,
        Call::ResolveDispute { signers, target } => resolve_dispute_result(s, signers) is Ok,
        Call::SetNickname { signers, user, nickname } => gated_result(s, signers, user) is Ok,
        Call::SendMessage { signers, from, to, text } => gated_result(s, signers, from) is Ok,
        Call::CreateEscrow { signers, buyer, seller, amount } => create_escrow_result(
            s,
            signers,
            buyer,
            amount,
        ) is Ok,
        Call::ApproveEscrow { signers, escrow_id, caller } => approve_escrow_result(
            s,
            signers,
            escrow_id,
            caller,
        ) is Ok,
        Call::Subscribe { signers, user, now } => subscribe_result(s, signers, user, now) is Ok,
        Call::CreateWallet { signers, creator, owners, threshold } => create_wallet_result(
            s,
            signers,
            creator,
            owners,
            threshold,
        ) is Ok,
        Call::DepositWallet { signers, user, wallet_id, amount } => deposit_wallet_result(
            s,
            signers,
            user,
            wallet_id,
            amount,
        ) is Ok,
        Call::ProposeTx { signers, user, wallet_id, to, amount } => propose_tx_result(
            s,
            signers,
            user,
            wallet_id,
            to,
            amount,
        ) is Ok,
        Call::ApproveTx { signers, user, tx_id } => approve_tx_result(
            s,
            signers,
            user,
            tx_id,
        ) is Ok,
        Call::BuyTicket { signers, user } => buy_ticket_result(s, signers, user) is Ok,
        Call::RunLottery { signers, draw } => run_lottery_result(s, signers, draw) is Ok,
        Call::TakeEvents => true,
    }
}

/// The state that the call makes of `s` where it is accepted.
pub open spec fn effect(s: State, call: Call) -> State {
    match call {
        Call::Init { admin } => State { admin: Some(admin), ..s },
        Call::TransferAdmin { signers, new_admin } => State { admin: Some(new_admin), ..s },
        Call::SetMaintenance { signers, active } => State { maintenance: active, ..s },
        Call::AddTrust { signers, user } => add_trust_effect(s, user),
        Call::Vouch { signers, voucher, target } => vouch_effect(s, voucher, target),
        Call::Decay { signers, user } => decay_effect(s, user),
        Call::TransferBzr { signers, from, to, amount } => transfer_bzr_effect(s, from, to, amount),
        Call::Stake { signers, user, referrer, now } => stake_effect(s, user, referrer, now),
        Call::Withdraw { signers, user, now } => unbonded(s, user),
        Call::ForceUnbond { signers, user } => force_unbond_effect(s, user),
        Call::BuyBadge { signers, user, badge } => buy_badge_effect(s, user, badge),
        Call::DepositCrowdfund { signers, user, amount } => deposit_crowdfund_effect(
            s,
            user,
            amount,
        ),
        Call::Vote { signers, user, proposal_id, in_favor } => vote_effect(
            s,
            user,
            proposal_id,
            in_favor,
        ),
        Call::CreateProposal { signers, user } => create_proposal_effect(s, user),
        Call::RaiseDispute { signers, accuser, target } => raise_dispute_effect(s, accuser, target),
        Call::ResolveDispute { signers, target } => resolve_dispute_effect(s, target),
        Call::SetNickname { signers, user, nickname } => set_nickname_effect(s, user, nickname),
        Call::SendMessage { signers, from, to, text } => send_message_effect(s, from, to, text),
        Call::CreateEscrow { signers, buyer, seller, amount } => create_escrow_effect(
            s,
            buyer,
            seller,
            amount,
        ),
        Call::ApproveEscrow { signers, escrow_id, caller } => approve_escrow_effect(
            s,
            escrow_id,
            caller,
        ),
        Call::Subscribe { signers, user, now } => subscribe_effect(s, user, now),
        Call::CreateWallet { signers, creator, owners, threshold } => create_wallet_effect(
            s,
            owners,
            threshold,
        ),
        Call::DepositWallet { signers, user, wallet_id, amount } => deposit_wallet_effect(
            s,
            user,
            wallet_id,
            amount,
        ),
        Call::ProposeTx { signers, user, wallet_id, to, amount } => propose_tx_effect(
            s,
            user,
            wallet_id,
            to,
            amount,
        ),
        Call::ApproveTx { signers, user, tx_id } => approve_tx_effect(s, user, tx_id),
        Call::BuyTicket { signers, user } => buy_ticket_effect(s, user),
        Call::RunLottery { signers, draw } => run_lottery_effect(s, draw),
        Call::TakeEvents => State { events: Seq::empty(), ..s },
    }
}

/// The state after the call: its effect where it is accepted, `s` itself
/// where it is refused.
pub open spec fn step(s: State, call: Call) -> State {
    if accepted(s, call) {
        effect(s, call)
    } else {
        s
    }
}

/// The state after the calls, made one after the other.
pub open spec fn run(s: State, calls: Seq<Call>) -> State
    decreases calls.len(),
{
    if calls.len() == 0 {
        s
    } else {
        step(run(s, calls.drop_last()), calls.last())
    }
}

/// The states that a ledger can be in: those that some sequence of calls
/// makes of the initial state.
pub open spec fn reachable(s: State) -> bool {
    exists|calls: Seq<Call>| s == run(State::initial(), calls)
}

/// A call keeps the ledger's invariant.
pub proof fn lemma_step_keeps_wf(s: State, call: Call)
    requires
        s.wf(),
    ensures
        step(s, call).wf(),
{
    if accepted(s, call) {
        match call {
            Call::CreateWallet { signers, creator, owners, threshold } => {
                lemma_create_wallet_wf(s, signers, creator, owners, threshold);
            },
            Call::DepositWallet { signers, user, wallet_id, amount } => {
                lemma_deposit_wallet_wf(s, signers, user, wallet_id, amount);
            },
            Call::ProposeTx { signers, user, wallet_id, to, amount } => {
                lemma_propose_tx_filed_wf(s, user, wallet_id, to, amount);
                if s.wallets[wallet_id].threshold == 1 {
                    lemma_approve_tx_wf(
                        propose_tx_filed(s, user, wallet_id, to, amount),
                        signers,
                        user,
                        (s.tx_count + 1) as u32,
                    );
                }
            },
            Call::ApproveTx { signers, user, tx_id } => {
                lemma_approve_tx_wf(s, signers, user, tx_id);
            },
            _ => {},
        }
    }
}

/// A sequence of calls keeps the ledger's invariant.
pub proof fn lemma_run_keeps_wf(s: State, calls: Seq<Call>)
    requires
        s.wf(),
    ensures
        run(s, calls).wf(),
    decreases calls.len(),
{
    if calls.len() > 0 {
        lemma_run_keeps_wf(s, calls.drop_last());
        lemma_step_keeps_wf(run(s, calls.drop_last()), calls.last());
    }
}

/// Every state that a ledger can be in has the invariant: whatever has
/// been called, every escrow, wallet and transaction is under an id that
/// was given out, every wallet has distinct owners and a threshold from 1
/// to their number, and every transaction is approved by distinct owners
/// of its wallet only.
pub proof fn law_reachable_states_are_wf(s: State)
    requires
        reachable(s),
    ensures
        s.wf(),
{
    let calls = choose|calls: Seq<Call>| s == run(State::initial(), calls);
    lemma_run_keeps_wf(State::initial(), calls);
}

} // verus!
