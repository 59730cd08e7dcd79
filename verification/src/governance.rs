//! Balance-weighted voting: proposals are numbered, and each principal's
//! one vote weighs what the principal holds when it is cast.

use vstd::prelude::*;
use crate::contract::{lemma_pair_key_injective, make_pair_key, TrustContract};
use crate::machine::{step, Call};
use crate::state::{outcome, State};
use crate::types::{Auth, Error, Event, Principal, PROPOSAL_COST};

verus! {

/// The id of the new proposal, or why none is opened.
pub open spec fn create_proposal_result(
    s: State,
    signers: Set<Principal>,
    user: Principal,
) -> Result<u32, Error> {
    if s.maintenance {
        Err(Error::MaintenanceActive)
    } else if !signers.contains(user) {
        Err(Error::Unauthorized)
    } else if s.balance_of(user) < PROPOSAL_COST {
        Err(Error::InsufficientBalance)
    } else if s.proposal_count == u32::MAX {
        Err(Error::Overflow)
    } else {
        Ok((s.proposal_count + 1) as u32)
    }
}

/// The state once the proposal is open: its price is burned and the
/// counter has moved on.
pub open spec fn create_proposal_effect(s: State, user: Principal) -> State {
    let id = (s.proposal_count + 1) as u32;
    State { proposal_count: id, ..s.debit(user, PROPOSAL_COST as nat) }.emit(
        Event::ProposalCreated { user, proposal_id: id },
    )
}

/// Whether a vote is counted, and why not.
pub open spec fn vote_result(
    s: State,
    signers: Set<Principal>,
    user: Principal,
    proposal_id: u32,
    in_favor: bool,
) -> Result<(), Error> {
    if s.maintenance {
        Err(Error::MaintenanceActive)
    } else if !signers.contains(user) {
        Err(Error::Unauthorized)
    } else if s.voted.contains((proposal_id, user)) {
        Err(Error::AlreadyVoted)
    } else if s.balance_of(user) == 0 {
        Err(Error::NoWeight)
    } else if in_favor && s.yes_of(proposal_id) + s.balance_of(user) > u32::MAX {
        Err(Error::Overflow)
    } else if !in_favor && s.no_of(proposal_id) + s.balance_of(user) > u32::MAX {
        Err(Error::Overflow)
    } else {
        Ok(())
    }
}

/// The state once the vote is counted: the voter's balance of this moment
/// is added to one tally, and the vote is on record.
pub open spec fn vote_effect(s: State, user: Principal, proposal_id: u32, in_favor: bool) -> State {
    let weight = s.balance_of(user);
    let counted = if in_favor {
        State { yes: s.yes.insert(proposal_id, (s.yes_of(proposal_id) + weight) as u32), ..s }
    } else {
        State { no: s.no.insert(proposal_id, (s.no_of(proposal_id) + weight) as u32), ..s }
    };
    State { voted: s.voted.insert((proposal_id, user)), ..counted }.emit(
        Event::Voted { user, proposal_id, weight: weight as u32 },
    )
}

impl TrustContract {
    /// Whether `user` has voted on proposal `proposal_id`.
    pub fn has_voted(&self, proposal_id: u32, user: Principal) -> (yes: bool)
        ensures
            yes == self@.voted.contains((proposal_id, user)),
    {
        let key = make_pair_key(proposal_id as u64, user);
        self.voted.contains(&key)
    }

    /// Puts the vote of `user` on proposal `proposal_id` on record.
    fn mark_voted(&mut self, proposal_id: u32, user: Principal)
        ensures
            final(self)@ == (State {
                voted: old(self)@.voted.insert((proposal_id, user)),
                ..old(self)@
            }),
    {
        let key = make_pair_key(proposal_id as u64, user);
        self.voted.insert(key);
        proof {
            assert forall|v: (u32, Principal)|
                self@.voted.contains(v) <==> old(self)@.voted.insert((proposal_id, user)).contains(
                    v,
                ) by {
                lemma_pair_key_injective(v.0 as u64, v.1, proposal_id as u64, user);
            }
            assert(self@ =~= (State {
                voted: old(self)@.voted.insert((proposal_id, user)),
                ..old(self)@
            }));
        }
    }

    /// Opens a proposal for `user`, at the price of 100 tokens, and returns
    /// its id. Ids count up from 1.
    ///
    /// Refused while maintenance is on, without the consent of `user`, when
    /// `user` holds less than the price, and when the ids are used up, in
    /// this order.
    pub fn create_proposal(&mut self, auth: &Auth, user: Principal) -> (r: Result<u32, Error>)
        requires
            old(self).wf(),
        ensures
            final(self).wf(),
            r == create_proposal_result(old(self)@, auth@, user),
            final(self)@ == outcome(r, old(self)@, create_proposal_effect(old(self)@, user)),
            final(self)@ == step(old(self)@, Call::CreateProposal { signers: auth@, user }),
    {
        if self.maintenance {
            return Err(Error::MaintenanceActive);
        }
        if !auth.authorizes(user) {
            return Err(Error::Unauthorized);
        }
        if self.balance(user) < PROPOSAL_COST {
            return Err(Error::InsufficientBalance);
        }
        if self.proposal_count == u32::MAX {
            return Err(Error::Overflow);
        }
        let id: u32 = self.proposal_count + 1;
        self.debit(user, PROPOSAL_COST);
        self.proposal_count = id;
        self.log(Event::ProposalCreated { user, proposal_id: id });
        assert(self@ =~= create_proposal_effect(old(self)@, user));
        Ok(id)
    }

    /// Casts the vote of `user` on proposal `proposal_id`, for or against,
    /// with the weight of the balance that `user` holds now. The proposal
    /// need not have been opened.
    ///
    /// Refused while maintenance is on, without the consent of `user`, with
    /// `AlreadyVoted` when `user` has voted on this proposal before, with
    /// `NoWeight` when `user` holds nothing, and with `Overflow` when the
    /// tally would leave its range; in this order.
    pub fn vote(&mut self, auth: &Auth, user: Principal, proposal_id: u32, in_favor: bool) -> (r:
        Result<(), Error>)
        requires
            old(self).wf(),
        ensures
            final(self).wf(),
            r == vote_result(old(self)@, auth@, user, proposal_id, in_favor),
            final(self)@ == outcome(
                r,
                old(self)@,
                vote_effect(old(self)@, user, proposal_id, in_favor),
            ),
            final(self)@ == step(
                old(self)@,
                Call::Vote { signers: auth@, user, proposal_id, in_favor },
            ),
    {
        if self.maintenance {
            return Err(Error::MaintenanceActive);
        }
        if !auth.authorizes(user) {
            return Err(Error::Unauthorized);
        }
        if self.has_voted(proposal_id, user) {
            return Err(Error::AlreadyVoted);
        }
        let weight: u32 = self.balance(user);
        if weight == 0 {
            return Err(Error::NoWeight);
        }
        let (yes, no) = self.get_proposal_stats(proposal_id);
        if in_favor {
            if yes > u32::MAX - weight {
                return Err(Error::Overflow);
            }
            self.yes.insert(proposal_id, yes + weight);
        } else {
            if no > u32::MAX - weight {
                return Err(Error::Overflow);
            }
            self.no.insert(proposal_id, no + weight);
        }
        self.mark_voted(proposal_id, user);
        self.log(Event::Voted { user, proposal_id, weight });
        assert(self@ =~= vote_effect(old(self)@, user, proposal_id, in_favor));
        Ok(())
    }

    /// The weight cast for and against proposal `proposal_id`, in this
    /// order; `(0, 0)` where nobody has voted.
    pub fn get_proposal_stats(&self, proposal_id: u32) -> (tallies: (u32, u32))
        ensures
            tallies.0 == self@.yes_of(proposal_id),
            tallies.1 == self@.no_of(proposal_id),
    {
        let yes: u32 = match self.yes.get(&proposal_id) {
            Some(v) => *v,
            None => 0,
        };
        let no: u32 = match self.no.get(&proposal_id) {
            Some(v) => *v,
            None => 0,
        };
        (yes, no)
    }
}

} // verus!
