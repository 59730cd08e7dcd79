//! Subscriptions: an entitlement that runs for thirty days and is renewed
//! from where it ends, so that no paid time is lost.

use vstd::prelude::*;
use crate::contract::TrustContract;
use crate::machine::{step, Call};
use crate::state::{outcome, State};
use crate::types::{Auth, Error, Event, Principal, PERIOD, SUBSCRIPTION_COST};

verus! {

/// When a subscription bought at `now` runs out: one period after the
/// current expiry where that lies ahead, else one period after `now`.
pub open spec fn renewed_expiry(s: State, user: Principal, now: u64) -> nat {
    if s.expiry_of(user) > now {
        s.expiry_of(user) + PERIOD as nat
    } else {
        now as nat + PERIOD as nat
    }
}

/// Whether a subscription is sold, and why not.
pub open spec fn subscribe_result(
    s: State,
    signers: Set<Principal>,
    user: Principal,
    now: u64,
) -> Result<(), Error> {
    if s.maintenance {
        Err(Error::MaintenanceActive)
    } else if !signers.contains(user) {
        Err(Error::Unauthorized)
    } else if s.balance_of(user) < SUBSCRIPTION_COST {
        Err(Error::InsufficientBalance)
    } else if renewed_expiry(s, user, now) > u64::MAX {
        Err(Error::Overflow)
    } else {
        Ok(())
    }
}

/// The state once the subscription is sold.
pub open spec fn subscribe_effect(s: State, user: Principal, now: u64) -> State {
    let expiry = renewed_expiry(s, user, now) as u64;
    State {
        subscriptions: s.subscriptions.insert(user, expiry),
        ..s.debit(user, SUBSCRIPTION_COST as nat)
    }.emit(Event::Subscribed { user, expiry })
}

impl TrustContract {
    /// When the subscription of `user` runs out; 0 if there never was one.
    pub fn get_expiry(&self, user: Principal) -> (at: u64)
        ensures
            at == self@.expiry_of(user),
    {
        match self.subscriptions.get(&user) {
            Some(v) => *v,
            None => 0,
        }
    }

    /// Sells `user` thirty days of subscription at the price of 50 tokens,
    /// at the instant `now` of the ledger's clock. A subscription that is
    /// still running is extended from where it ends; one that has run out
    /// starts anew at `now`.
    ///
    /// Refused while maintenance is on, without the consent of `user`, when
    /// `user` holds less than the price, and when the new expiry would
    /// leave the clock's range, in this order.
    pub fn subscribe(&mut self, auth: &Auth, user: Principal, now: u64) -> (r: Result<(), Error>)
        requires
            old(self).wf(),
        ensures
            final(self).wf(),
            r == subscribe_result(old(self)@, auth@, user, now),
            final(self)@ == outcome(r, old(self)@, subscribe_effect(old(self)@, user, now)),
            final(self)@ == step(old(self)@, Call::Subscribe { signers: auth@, user, now }),
    {
        if self.maintenance {
            return Err(Error::MaintenanceActive);
        }
        if !auth.authorizes(user) {
            return Err(Error::Unauthorized);
        }
        if self.balance(user) < SUBSCRIPTION_COST {
            return Err(Error::InsufficientBalance);
        }
        let current: u64 = self.get_expiry(user);
        let start: u64 = if current > now {
            current
        } else {
            now
        };
        if start > u64::MAX - PERIOD {
            return Err(Error::Overflow);
        }
        let expiry: u64 = start + PERIOD;
        self.debit(user, SUBSCRIPTION_COST);
        self.subscriptions.insert(user, expiry);
        self.log(Event::Subscribed { user, expiry });
        assert(self@ =~= subscribe_effect(old(self)@, user, now));
        Ok(())
    }

    /// Whether the subscription of `user` is running at the instant `now`:
    /// whether it runs out later than `now`.
    pub fn is_subscribed(&self, user: Principal, now: u64) -> (active: bool)
        ensures
            active == (self@.expiry_of(user) > now),
    {
        self.get_expiry(user) > now
    }
}

} // verus!
