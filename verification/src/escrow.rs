//! Two-party escrow: the buyer's tokens are held by a record until buyer
//! and seller have both approved, then paid to the seller in one step.

use vstd::prelude::*;
use crate::contract::TrustContract;
use crate::machine::{step, Call};
use crate::state::{outcome, State};
use crate::types::{Auth, Error, Escrow, Event, Principal};

verus! {

/// The id of the new escrow, or why none is opened.
pub open spec fn create_escrow_result(
    s: State,
    signers: Set<Principal>,
    buyer: Principal,
    amount: u32,
) -> Result<u32, Error> {
    if s.maintenance {
        Err(Error::MaintenanceActive)
    } else if !signers.contains(buyer) {
        Err(Error::Unauthorized)
    } else if s.balance_of(buyer) < amount {
        Err(Error::InsufficientBalance)
    } else if s.escrow_count == u32::MAX {
        Err(Error::Overflow)
    } else {
        Ok((s.escrow_count + 1) as u32)
    }
}

/// The state once the escrow is open: the amount has left the buyer's
/// balance and is held by the record, which nobody has approved yet.
pub open spec fn create_escrow_effect(
    s: State,
    buyer: Principal,
    seller: Principal,
    amount: u32,
) -> State {
    let id = (s.escrow_count + 1) as u32;
    State {
        escrow_count: id,
        escrows: s.escrows.insert(
            id,
            Escrow { buyer, seller, amount, buyer_ok: false, seller_ok: false },
        ),
        ..s.debit(buyer, amount as nat)
    }.emit(Event::EscrowCreated { buyer, seller, escrow_id: id })
}

/// The record `e` once `caller` has approved: the buyer's flag where the
/// caller is the buyer, else the seller's.
pub open spec fn approved_by(e: Escrow, caller: Principal) -> Escrow {
    if caller == e.buyer {
        Escrow { buyer_ok: true, ..e }
    } else {
        Escrow { seller_ok: true, ..e }
    }
}

/// Whether the approval of `caller` settles escrow `escrow_id`.
pub open spec fn approval_settles(s: State, escrow_id: u32, caller: Principal) -> bool {
    let e = approved_by(s.escrows[escrow_id], caller);
    e.buyer_ok && e.seller_ok
}

/// Whether an approval goes through, and why not.
pub open spec fn approve_escrow_result(
    s: State,
    signers: Set<Principal>,
    escrow_id: u32,
    caller: Principal,
) -> Result<(), Error> {
    if s.maintenance {
        Err(Error::MaintenanceActive)
    } else if !signers.contains(caller) {
        Err(Error::Unauthorized)
    } else if !s.escrows.contains_key(escrow_id) {
        Err(Error::NotFound)
    } else if caller != s.escrows[escrow_id].buyer && caller != s.escrows[escrow_id].seller {
        Err(Error::Unauthorized)
    } else if approval_settles(s, escrow_id, caller) && s.balance_of(s.escrows[escrow_id].seller)
        + s.escrows[escrow_id].amount > u32::MAX {
        Err(Error::Overflow)
    } else {
        Ok(())
    }
}

/// The state after an approval that went through: with both flags set the
/// seller is paid and the record is gone; otherwise the flag is on record.
pub open spec fn approve_escrow_effect(s: State, escrow_id: u32, caller: Principal) -> State {
    let e = approved_by(s.escrows[escrow_id], caller);
    if approval_settles(s, escrow_id, caller) {
        State { escrows: s.escrows.remove(escrow_id), ..s.credit(e.seller, e.amount as nat) }.emit(
            Event::EscrowReleased { escrow_id, amount: e.amount },
        )
    } else {
        State { escrows: s.escrows.insert(escrow_id, e), ..s }
    }
}

impl TrustContract {
    /// Opens an escrow of `amount` tokens from `buyer` for `seller` and
    /// returns its id. Ids count up from 1 and are never used twice. The
    /// amount leaves the buyer's balance at once.
    ///
    /// Refused while maintenance is on, without the consent of `buyer`,
    /// when `buyer` holds less than `amount`, and when the ids are used up,
    /// in this order.
    pub fn create_escrow(
        &mut self,
        auth: &Auth,
        buyer: Principal,
        seller: Principal,
        amount: u32,
    ) -> (r: Result<u32, Error>)
        requires
            old(self).wf(),
        ensures
            final(self).wf(),
            r == create_escrow_result(old(self)@, auth@, buyer, amount),
            final(self)@ == outcome(
                r,
                old(self)@,
                create_escrow_effect(old(self)@, buyer, seller, amount),
            ),
            final(self)@ == step(
                old(self)@,
                Call::CreateEscrow { signers: auth@, buyer, seller, amount },
            ),
    {
        if self.maintenance {
            return Err(Error::MaintenanceActive);
        }
        if !auth.authorizes(buyer) {
            return Err(Error::Unauthorized);
        }
        if self.balance(buyer) < amount {
            return Err(Error::InsufficientBalance);
        }
        if self.escrow_count == u32::MAX {
            return Err(Error::Overflow);
        }
        let id: u32 = self.escrow_count + 1;
        self.debit(buyer, amount);
        self.escrow_count = id;
        self.escrows.insert(
            id,
            Escrow { buyer, seller, amount, buyer_ok: false, seller_ok: false },
        );
        self.log(Event::EscrowCreated { buyer, seller, escrow_id: id });
        assert(self@ =~= create_escrow_effect(old(self)@, buyer, seller, amount));
        Ok(id)
    }

    /// Records the approval of `caller` for escrow `escrow_id`. Once buyer
    /// and seller have both approved, the amount is paid to the seller and
    /// the record is deleted, so that a later approval finds nothing.
    /// Approving twice before the other party has is the same as approving
    /// once. Where buyer and seller are one principal, the approval counts
    /// as the buyer's.
    ///
    /// Refused while maintenance is on, without the consent of `caller`,
    /// with `NotFound` when no such escrow is open, with `Unauthorized`
    /// when `caller` is neither its buyer nor its seller, and, where the
    /// approval settles, with `Overflow` when the seller's balance would
    /// leave its range; in this order.
    pub fn approve_escrow(&mut self, auth: &Auth, escrow_id: u32, caller: Principal) -> (r: Result<
        (),
        Error,
    >)
        requires
            old(self).wf(),
        ensures
            final(self).wf(),
            r == approve_escrow_result(old(self)@, auth@, escrow_id, caller),
            final(self)@ == outcome(
                r,
                old(self)@,
                approve_escrow_effect(old(self)@, escrow_id, caller),
            ),
            final(self)@ == step(
                old(self)@,
                Call::ApproveEscrow { signers: auth@, escrow_id, caller },
            ),
    {
        if self.maintenance {
            return Err(Error::MaintenanceActive);
        }
        if !auth.authorizes(caller) {
            return Err(Error::Unauthorized);
        }
        let mut e: Escrow = match self.escrows.get(&escrow_id) {
            Some(found) => *found,
            None => { return Err(Error::NotFound); },
        };
        if caller == e.buyer {
            e.buyer_ok = true;
        } else if caller == e.seller {
            e.seller_ok = true;
        } else {
            return Err(Error::Unauthorized);
        }
        assert(e == approved_by(old(self)@.escrows[escrow_id], caller));
        if e.buyer_ok && e.seller_ok {
            if self.balance(e.seller) > u32::MAX - e.amount {
                return Err(Error::Overflow);
            }
            self.credit(e.seller, e.amount);
            self.escrows.remove(&escrow_id);
            self.log(Event::EscrowReleased { escrow_id, amount: e.amount });
        } else {
            self.escrows.insert(escrow_id, e);
        }
        assert(self@ =~= approve_escrow_effect(old(self)@, escrow_id, caller));
        Ok(())
    }

    /// The open escrow with id `escrow_id`, if there is one.
    pub fn get_escrow(&self, escrow_id: u32) -> (r: Option<Escrow>)
        ensures
            r == (if self@.escrows.contains_key(escrow_id) {
                Some(self@.escrows[escrow_id])
            } else {
                None
            }),
    {
        match self.escrows.get(&escrow_id) {
            Some(e) => Some(*e),
            None => None,
        }
    }
}

} // verus!
