//! The token ledger: balances, transfers between principals, and the
//! crowdfund that principals pay into.

use vstd::prelude::*;
use crate::contract::TrustContract;
use crate::machine::{step, Call};
use crate::state::{outcome, State};
use crate::types::{Auth, Error, Event, Principal};

verus! {

/// Whether a transfer goes through, and why not.
pub open spec fn transfer_bzr_result(
    s: State,
    signers: Set<Principal>,
    from: Principal,
    to: Principal,
    amount: u32,
) -> Result<(), Error> {
    if s.maintenance {
        Err(Error::MaintenanceActive)
    } else if !signers.contains(from) {
        Err(Error::Unauthorized)
    } else if s.balance_of(from) < amount {
        Err(Error::InsufficientBalance)
    } else if s.debit(from, amount as nat).balance_of(to) + amount > u32::MAX {
        Err(Error::Overflow)
    } else {
        Ok(())
    }
}

/// The state after a transfer that went through.
pub open spec fn transfer_bzr_effect(
    s: State,
    from: Principal,
    to: Principal,
    amount: u32,
) -> State {
    s.debit(from, amount as nat).credit(to, amount as nat).emit(
        Event::Transfer { from, to, amount },
    )
}

/// Whether a payment into the crowdfund goes through, and why not.
pub open spec fn deposit_crowdfund_result(
    s: State,
    signers: Set<Principal>,
    user: Principal,
    amount: u32,
) -> Result<(), Error> {
    if s.maintenance {
        Err(Error::MaintenanceActive)
    } else if !signers.contains(user) {
        Err(Error::Unauthorized)
    } else if s.balance_of(user) < amount {
        Err(Error::InsufficientBalance)
    } else if s.crowdfund + amount > u32::MAX {
        Err(Error::Overflow)
    } else {
        Ok(())
    }
}

/// The state after a payment into the crowdfund.
pub open spec fn deposit_crowdfund_effect(s: State, user: Principal, amount: u32) -> State {
    State { crowdfund: (s.crowdfund + amount) as u32, ..s.debit(user, amount as nat) }.emit(
        Event::Funded { user, amount },
    )
}

impl TrustContract {
    /// Adds `amount` to the balance of `p`.
    pub(crate) fn credit(&mut self, p: Principal, amount: u32)
        requires
            old(self)@.balance_of(p) + amount <= u32::MAX,
        ensures
            final(self)@ == old(self)@.credit(p, amount as nat),
    {
        let held = self.balance(p);
        self.set_balance(p, held + amount);
    }

    /// Takes `amount` off the balance of `p`.
    pub(crate) fn debit(&mut self, p: Principal, amount: u32)
        requires
            old(self)@.balance_of(p) >= amount,
        ensures
            final(self)@ == old(self)@.debit(p, amount as nat),
    {
        let held = self.balance(p);
        self.set_balance(p, held - amount);
    }

    /// Moves `amount` tokens from `from` to `to`.
    ///
    /// Refused while maintenance is on, without the consent of `from`, when
    /// `from` holds less than `amount`, and when the balance of `to` would
    /// leave its range, in this order. A transfer to oneself changes no
    /// balance.
    pub fn transfer_bzr(&mut self, auth: &Auth, from: Principal, to: Principal, amount: u32) -> (r:
        Result<(), Error>)
        requires
            old(self).wf(),
        ensures
            final(self).wf(),
            r == transfer_bzr_result(old(self)@, auth@, from, to, amount),
            final(self)@ == outcome(
                r,
                old(self)@,
                transfer_bzr_effect(old(self)@, from, to, amount),
            ),
            final(self)@ == step(
                old(self)@,
                Call::TransferBzr { signers: auth@, from, to, amount },
            ),
    {
        if self.maintenance {
            return Err(Error::MaintenanceActive);
        }
        if !auth.authorizes(from) {
            return Err(Error::Unauthorized);
        }
        if self.balance(from) < amount {
            return Err(Error::InsufficientBalance);
        }
        if from != to && self.balance(to) > u32::MAX - amount {
            return Err(Error::Overflow);
        }
        self.debit(from, amount);
        self.credit(to, amount);
        self.log(Event::Transfer { from, to, amount });
        Ok(())
    }

    /// The token balance of `user`; 0 for a principal never credited.
    pub fn get_balance(&self, user: Principal) -> (amount: u32)
        ensures
            amount == self@.balance_of(user),
    {
        self.balance(user)
    }

    /// Pays `amount` tokens of `user` into the crowdfund.
    ///
    /// Refused while maintenance is on, without the consent of `user`, when
    /// `user` holds less than `amount`, and when the fund would leave its
    /// range, in this order.
    pub fn deposit_crowdfund(&mut self, auth: &Auth, user: Principal, amount: u32) -> (r: Result<
        (),
        Error,
    >)
        requires
            old(self).wf(),
        ensures
            final(self).wf(),
            r == deposit_crowdfund_result(old(self)@, auth@, user, amount),
            final(self)@ == outcome(
                r,
                old(self)@,
                deposit_crowdfund_effect(old(self)@, user, amount),
            ),
            final(self)@ == step(
                old(self)@,
                Call::DepositCrowdfund { signers: auth@, user, amount },
            ),
    {
        if self.maintenance {
            return Err(Error::MaintenanceActive);
        }
        if !auth.authorizes(user) {
            return Err(Error::Unauthorized);
        }
        if self.balance(user) < amount {
            return Err(Error::InsufficientBalance);
        }
        if self.crowdfund > u32::MAX - amount {
            return Err(Error::Overflow);
        }
        self.debit(user, amount);
        self.crowdfund = self.crowdfund + amount;
        self.log(Event::Funded { user, amount });
        assert(self@ =~= deposit_crowdfund_effect(old(self)@, user, amount));
        Ok(())
    }

    /// What the crowdfund has collected.
    pub fn get_crowdfund_balance(&self) -> (amount: u32)
        ensures
            amount == self@.crowdfund,
    {
        self.crowdfund
    }
}

} // verus!
