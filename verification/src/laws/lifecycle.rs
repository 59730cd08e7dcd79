//! What is settled stays settled: escrows are paid once, wallet
//! approvals count once, votes are cast once, and scores and balances
//! never go below zero.

use vstd::prelude::*;
use crate::escrow::{approval_settles, approve_escrow_effect, approve_escrow_result};
use crate::governance::{vote_effect, vote_result};
use crate::machine::{accepted, lemma_run_keeps_wf, lemma_step_keeps_wf, run, step, Call};
use crate::multisig::{approval_executes, approvals_after, approve_tx_result};
use crate::state::State;
use crate::subscription::{subscribe_effect, subscribe_result};
use crate::types::{Error, Principal, PERIOD};

verus! {

/// Balances and trust scores are never negative, in any state and for any
/// principal.
pub proof fn law_never_negative(s: State, p: Principal)
    ensures
        s.balance_of(p) >= 0,
        s.trust_of(p) >= 0,
        s.balances.contains_key(p) ==> s.balances[p] >= 0,
        s.trust.contains_key(p) ==> s.trust[p] >= 0,
{
}

/// After any sequence of calls every balance and every score lies between
/// zero and the largest number that its type holds.
pub proof fn law_balances_stay_in_range(s: State, calls: Seq<Call>, p: Principal)
    requires
        s.wf(),
    ensures
        0 <= run(s, calls).balance_of(p) <= u32::MAX,
        0 <= run(s, calls).trust_of(p) <= u32::MAX,
{
}

/// The approval that completes an escrow deletes it and pays the seller
/// the escrow's amount.
pub proof fn law_settlement_pays_and_deletes(
    s: State,
    signers: Set<Principal>,
    escrow_id: u32,
    caller: Principal,
)
    requires
        s.wf(),
        approve_escrow_result(s, signers, escrow_id, caller) is Ok,
        approval_settles(s, escrow_id, caller),
    ensures
        !approve_escrow_effect(s, escrow_id, caller).escrows.contains_key(escrow_id),
        approve_escrow_effect(s, escrow_id, caller).balance_of(s.escrows[escrow_id].seller)
            == s.balance_of(s.escrows[escrow_id].seller) + s.escrows[escrow_id].amount,
        1 <= escrow_id <= approve_escrow_effect(s, escrow_id, caller).escrow_count,
{
}

/// No call brings back an escrow id that has been given out and is no
/// longer open.
pub proof fn lemma_closed_escrow_stays_closed(s: State, escrow_id: u32, call: Call)
    requires
        s.wf(),
        1 <= escrow_id <= s.escrow_count,
        !s.escrows.contains_key(escrow_id),
    ensures
        1 <= escrow_id <= step(s, call).escrow_count,
        !step(s, call).escrows.contains_key(escrow_id),
{
}

/// An escrow id that has been given out and is no longer open is absent
/// after any sequence of calls.
pub proof fn law_closed_escrow_is_gone_for_good(s: State, escrow_id: u32, calls: Seq<Call>)
    requires
        s.wf(),
        1 <= escrow_id <= s.escrow_count,
        !s.escrows.contains_key(escrow_id),
    ensures
        1 <= escrow_id <= run(s, calls).escrow_count,
        !run(s, calls).escrows.contains_key(escrow_id),
    decreases calls.len(),
{
    if calls.len() > 0 {
        law_closed_escrow_is_gone_for_good(s, escrow_id, calls.drop_last());
        lemma_run_keeps_wf(s, calls.drop_last());
        lemma_closed_escrow_stays_closed(run(s, calls.drop_last()), escrow_id, calls.last());
    }
}

/// Escrow settlement is exactly-once. After the approval that settles an
/// escrow, and whatever is called afterwards, a further approval of the
/// same id by anybody is refused and changes nothing; where maintenance
/// is off and the caller has signed, the refusal is `NotFound`.
pub proof fn law_escrow_settles_once(
    s: State,
    signers: Set<Principal>,
    escrow_id: u32,
    caller: Principal,
    calls: Seq<Call>,
    later_signers: Set<Principal>,
    later_caller: Principal,
)
    requires
        s.wf(),
        approve_escrow_result(s, signers, escrow_id, caller) is Ok,
        approval_settles(s, escrow_id, caller),
    ensures
        ({
            let later = run(approve_escrow_effect(s, escrow_id, caller), calls);
            let again = Call::ApproveEscrow {
                signers: later_signers,
                escrow_id,
                caller: later_caller,
            };
            &&& !later.escrows.contains_key(escrow_id)
            &&& approve_escrow_result(later, later_signers, escrow_id, later_caller) is Err
            &&& step(later, again) == later
            &&& !later.maintenance && later_signers.contains(later_caller)
                ==> approve_escrow_result(later, later_signers, escrow_id, later_caller) == Err::<
                (),
                Error,
            >(Error::NotFound)
        }),
{
    let settled = approve_escrow_effect(s, escrow_id, caller);
    let call = Call::ApproveEscrow { signers, escrow_id, caller };
    assert(settled == step(s, call));
    lemma_step_keeps_wf(s, call);
    law_closed_escrow_is_gone_for_good(settled, escrow_id, calls);
}

/// Approving a wallet transaction twice with the same owner leaves the
/// state that approving once leaves.
pub proof fn law_approval_is_idempotent(
    s: State,
    signers: Set<Principal>,
    user: Principal,
    tx_id: u32,
)
    requires
        s.wf(),
    ensures
        ({
            let call = Call::ApproveTx { signers, user, tx_id };
            step(step(s, call), call) == step(s, call)
        }),
{
    let call = Call::ApproveTx { signers, user, tx_id };
    let once = step(s, call);
    if accepted(s, call) {
        let t = s.txs[tx_id];
        let kept = approvals_after(t, user);
        assert(kept.contains(user)) by {
            if !t.approvals.contains(user) {
                assert(kept[t.approvals.len() as int] == user);
            }
        }
        if !approval_executes(s, user, tx_id) {
            assert(once.txs[tx_id].approvals == kept);
            assert(approvals_after(once.txs[tx_id], user) == kept);
            if accepted(once, call) {
                assert(step(once, call).txs =~= once.txs);
                assert(step(once, call) =~= once);
            }
        }
    }
}

/// A wallet transaction is carried out by an approval exactly when the
/// approvals then reach the threshold and the wallet then holds the
/// amount. This is stated of an approval that is let in (maintenance off,
/// signed by an owner, transaction on record and not carried out) and
/// whose payout the recipient's balance can take.
pub proof fn law_execution_condition(
    s: State,
    signers: Set<Principal>,
    user: Principal,
    tx_id: u32,
)
    requires
        s.wf(),
        !s.maintenance,
        signers.contains(user),
        s.txs.contains_key(tx_id),
        !s.txs[tx_id].executed,
        s.wallets[s.txs[tx_id].wallet_id].owners.contains(user),
        s.balance_of(s.txs[tx_id].to) + s.txs[tx_id].amount <= u32::MAX,
    ensures
        ({
            let after = step(s, Call::ApproveTx { signers, user, tx_id });
            let t = s.txs[tx_id];
            let w = s.wallets[t.wallet_id];
            &&& after.txs.contains_key(tx_id)
            &&& after.txs[tx_id].executed <==> approvals_after(t, user).len() >= w.threshold
                && w.balance >= t.amount
            &&& after.txs[tx_id].executed ==> after.wallets[t.wallet_id].balance + t.amount
                == w.balance
            &&& approve_tx_result(s, signers, user, tx_id) is Ok <==> approvals_after(
                t,
                user,
            ).len() < w.threshold || w.balance >= t.amount
        }),
{
    assert(s.tx_ok(s.txs[tx_id]));
}

/// A transaction that has been carried out takes no further approval:
/// the call is refused and changes nothing, and where maintenance is off
/// and the caller has signed, the refusal is `AlreadyExecuted`.
pub proof fn law_executed_is_final(s: State, signers: Set<Principal>, user: Principal, tx_id: u32)
    requires
        s.wf(),
        s.txs.contains_key(tx_id),
        s.txs[tx_id].executed,
    ensures
        approve_tx_result(s, signers, user, tx_id) is Err,
        step(s, Call::ApproveTx { signers, user, tx_id }) == s,
        !s.maintenance && signers.contains(user) ==> approve_tx_result(s, signers, user, tx_id)
            == Err::<(), Error>(Error::AlreadyExecuted),
{
}

/// No call takes a vote off the record.
pub proof fn lemma_vote_stays_on_record(s: State, proposal_id: u32, user: Principal, call: Call)
    requires
        s.voted.contains((proposal_id, user)),
    ensures
        step(s, call).voted.contains((proposal_id, user)),
{
}

/// A vote that is on record is on record after any sequence of calls.
pub proof fn law_votes_are_kept(s: State, proposal_id: u32, user: Principal, calls: Seq<Call>)
    requires
        s.voted.contains((proposal_id, user)),
    ensures
        run(s, calls).voted.contains((proposal_id, user)),
    decreases calls.len(),
{
    if calls.len() > 0 {
        law_votes_are_kept(s, proposal_id, user, calls.drop_last());
        lemma_vote_stays_on_record(run(s, calls.drop_last()), proposal_id, user, calls.last());
    }
}

/// Nobody votes twice. After a vote of `user` on a proposal has been
/// counted, and whatever is called afterwards, a further vote of `user`
/// on that proposal is refused and changes nothing, the tallies least of
/// all; where maintenance is off and `user` has signed, the refusal is
/// `AlreadyVoted`.
pub proof fn law_no_second_vote(
    s: State,
    signers: Set<Principal>,
    user: Principal,
    proposal_id: u32,
    in_favor: bool,
    calls: Seq<Call>,
    later_signers: Set<Principal>,
    later_in_favor: bool,
)
    requires
        vote_result(s, signers, user, proposal_id, in_favor) is Ok,
    ensures
        ({
            let later = run(vote_effect(s, user, proposal_id, in_favor), calls);
            let again = Call::Vote {
                signers: later_signers,
                user,
                proposal_id,
                in_favor: later_in_favor,
            };
            &&& vote_result(later, later_signers, user, proposal_id, later_in_favor) is Err
            &&& step(later, again) == later
            &&& step(later, again).yes_of(proposal_id) == later.yes_of(proposal_id)
            &&& step(later, again).no_of(proposal_id) == later.no_of(proposal_id)
            &&& !later.maintenance && later_signers.contains(user) ==> vote_result(
                later,
                later_signers,
                user,
                proposal_id,
                later_in_favor,
            ) == Err::<(), Error>(Error::AlreadyVoted)
        }),
{
    law_votes_are_kept(vote_effect(s, user, proposal_id, in_favor), proposal_id, user, calls);
}

/// A counted vote adds the voter's balance of that moment to the tally it
/// names and leaves the other tally alone.
pub proof fn law_vote_weighs_the_balance(
    s: State,
    signers: Set<Principal>,
    user: Principal,
    proposal_id: u32,
    in_favor: bool,
)
    requires
        vote_result(s, signers, user, proposal_id, in_favor) is Ok,
    ensures
        ({
            let after = vote_effect(s, user, proposal_id, in_favor);
            &&& in_favor ==> after.yes_of(proposal_id) == s.yes_of(proposal_id) + s.balance_of(user)
                && after.no_of(proposal_id) == s.no_of(proposal_id)
            &&& !in_favor ==> after.no_of(proposal_id) == s.no_of(proposal_id) + s.balance_of(user)
                && after.yes_of(proposal_id) == s.yes_of(proposal_id)
        }),
{
}

/// Renewing a subscription that is still running adds exactly one period
/// to the time that is left; renewing one that has run out gives exactly
/// one period from now.
pub proof fn law_renewal_extends(s: State, signers: Set<Principal>, user: Principal, now: u64)
    requires
        subscribe_result(s, signers, user, now) is Ok,
    ensures
        ({
            let after = subscribe_effect(s, user, now);
            &&& s.expiry_of(user) > now ==> after.expiry_of(user) - now == (s.expiry_of(user) - now)
                + PERIOD
            &&& s.expiry_of(user) <= now ==> after.expiry_of(user) == now + PERIOD
            &&& after.expiry_of(user) > now
            &&& after.expiry_of(user) > s.expiry_of(user)
        }),
{
}

/// Approving an escrow twice with the same party leaves the state that
/// approving once leaves.
pub proof fn law_escrow_approval_is_idempotent(
    s: State,
    signers: Set<Principal>,
    escrow_id: u32,
    caller: Principal,
)
    requires
        s.wf(),
    ensures
        ({
            let call = Call::ApproveEscrow { signers, escrow_id, caller };
            step(step(s, call), call) == step(s, call)
        }),
{
    let call = Call::ApproveEscrow { signers, escrow_id, caller };
    let once = step(s, call);
    if accepted(s, call) && !approval_settles(s, escrow_id, caller) {
        if accepted(once, call) {
            assert(step(once, call).escrows =~= once.escrows);
            assert(step(once, call) =~= once);
        }
    }
}

/// Whether the maintenance flag stops the call: it stops every call but
/// those that set up the ledger, hand over the admin's role, set the flag
/// itself, give back or dissolve a bond, resolve a dispute or collect the
/// events.
pub open spec fn is_gated(call: Call) -> bool {
    !(call is Init || call is TransferAdmin || call is SetMaintenance || call is Withdraw
        || call is ForceUnbond || call is ResolveDispute || call is TakeEvents)
}

/// While the maintenance flag is set, every call that it stops is refused
/// and changes nothing, whoever signed it and whatever its arguments.
pub proof fn law_maintenance_stops(s: State, call: Call)
    requires
        s.maintenance,
        is_gated(call),
    ensures
        !accepted(s, call),
        step(s, call) == s,
{
}

/// No call lowers a counter of ids.
pub proof fn lemma_counters_grow(s: State, call: Call)
    requires
        s.wf(),
    ensures
        step(s, call).escrow_count >= s.escrow_count,
        step(s, call).wallet_count >= s.wallet_count,
        step(s, call).tx_count >= s.tx_count,
        step(s, call).proposal_count >= s.proposal_count,
{
}

/// Ids are given out in rising order: after any sequence of calls every
/// counter of ids is at least what it was, so that a later escrow, wallet,
/// transaction or proposal has a larger id than any earlier one.
pub proof fn law_ids_rise(s: State, calls: Seq<Call>)
    requires
        s.wf(),
    ensures
        run(s, calls).escrow_count >= s.escrow_count,
        run(s, calls).wallet_count >= s.wallet_count,
        run(s, calls).tx_count >= s.tx_count,
        run(s, calls).proposal_count >= s.proposal_count,
    decreases calls.len(),
{
    if calls.len() > 0 {
        law_ids_rise(s, calls.drop_last());
        lemma_run_keeps_wf(s, calls.drop_last());
        lemma_counters_grow(run(s, calls.drop_last()), calls.last());
    }
}

} // verus!
