//! Bonds: a principal stakes for thirty days and is trusted ten points
//! more for as long as the bond stands.

use vstd::prelude::*;
use crate::contract::TrustContract;
use crate::reputation::lowered;
use crate::machine::{step, Call};
use crate::state::{outcome, State};
use crate::types::{Auth, Error, Event, Principal, BOND_TRUST, PERIOD, REFERRAL_REWARD};

verus! {

/// Whether a bond is made, and why not.
pub open spec fn stake_result(
    s: State,
    signers: Set<Principal>,
    user: Principal,
    referrer: Option<Principal>,
) -> Result<(), Error> {
    if s.maintenance {
        Err(Error::MaintenanceActive)
    } else if !signers.contains(user) {
        Err(Error::Unauthorized)
    } else if s.trust_of(user) + BOND_TRUST > u32::MAX {
        Err(Error::Overflow)
    } else if referrer matches Some(who) && s.balance_of(who) + REFERRAL_REWARD > u32::MAX {
        Err(Error::Overflow)
    } else {
        Ok(())
    }
}

/// The state once the bond is made at the instant `now`: ten points of
/// trust more, the bond dated `now`, and the referrer paid.
pub open spec fn stake_effect(
    s: State,
    user: Principal,
    referrer: Option<Principal>,
    now: u64,
) -> State {
    let bonded = State {
        bonds: s.bonds.insert(user, now),
        ..s.with_trust(user, s.trust_of(user) + BOND_TRUST as nat)
    };
    match referrer {
        Some(who) => bonded.credit(who, REFERRAL_REWARD as nat).emit(
            Event::Referral { referrer: who, amount: REFERRAL_REWARD },
        ),
        None => bonded,
    }
}

/// The state once the bond of `user` is dissolved: the bond is gone and
/// ten points of trust with it, as far as there are any.
pub open spec fn unbonded(s: State, user: Principal) -> State {
    State { bonds: s.bonds.remove(user), ..s }.with_trust(
        user,
        lowered(s.trust_of(user), BOND_TRUST as nat),
    )
}

/// Whether a bond is given back, and why not.
pub open spec fn withdraw_result(
    s: State,
    signers: Set<Principal>,
    user: Principal,
    now: u64,
) -> Result<(), Error> {
    if !signers.contains(user) {
        Err(Error::Unauthorized)
    } else if !s.bonds.contains_key(user) {
        Err(Error::NotFound)
    } else if now < s.bonds[user] + PERIOD {
        Err(Error::BondLocked)
    } else {
        Ok(())
    }
}

/// Whether the admin may dissolve a bond, and why not.
pub open spec fn force_unbond_result(s: State, signers: Set<Principal>) -> Result<(), Error> {
    if !s.admin_signed(signers) {
        Err(Error::Unauthorized)
    } else {
        Ok(())
    }
}

/// The state after the admin dissolved the bond of `user`, if there was
/// one.
pub open spec fn force_unbond_effect(s: State, user: Principal) -> State {
    if s.bonds.contains_key(user) {
        unbonded(s, user)
    } else {
        s
    }
}

impl TrustContract {
    /// Dissolves the bond of `user`.
    fn unbond(&mut self, user: Principal)
        ensures
            final(self)@ == unbonded(old(self)@, user),
    {
        self.bonds.remove(&user);
        assert(self@ =~= (State { bonds: old(self)@.bonds.remove(user), ..old(self)@ }));
        self.lower_trust(user, BOND_TRUST);
    }

    /// Bonds `user` at the instant `now`: the score rises by ten and the
    /// bond is dated `now`, replacing an earlier date. A referrer is paid
    /// 10 tokens.
    ///
    /// Refused while maintenance is on, without the consent of `user`, and
    /// when the score or the referrer's balance would leave its range, in
    /// this order.
    pub fn stake(
        &mut self,
        auth: &Auth,
        user: Principal,
        referrer: Option<Principal>,
        now: u64,
    ) -> (r: Result<(), Error>)
        requires
            old(self).wf(),
        ensures
            final(self).wf(),
            r == stake_result(old(self)@, auth@, user, referrer),
            final(self)@ == outcome(
                r,
                old(self)@,
                stake_effect(old(self)@, user, referrer, now),
            ),
            final(self)@ == step(old(self)@, Call::Stake { signers: auth@, user, referrer, now }),
    {
        if self.maintenance {
            return Err(Error::MaintenanceActive);
        }
        if !auth.authorizes(user) {
            return Err(Error::Unauthorized);
        }
        let score: u32 = self.trust_score(user);
        if score > u32::MAX - BOND_TRUST {
            return Err(Error::Overflow);
        }
        match referrer {
            Some(who) => {
                if self.balance(who) > u32::MAX - REFERRAL_REWARD {
                    return Err(Error::Overflow);
                }
            },
            None => {},
        }
        self.set_trust(user, score + BOND_TRUST);
        self.bonds.insert(user, now);
        assert(self@ =~= (State {
            bonds: old(self)@.bonds.insert(user, now),
            ..old(self)@.with_trust(user, old(self)@.trust_of(user) + BOND_TRUST as nat)
        }));
        match referrer {
            Some(who) => {
                self.credit(who, REFERRAL_REWARD);
                self.log(Event::Referral { referrer: who, amount: REFERRAL_REWARD });
            },
            None => {},
        }
        Ok(())
    }

    /// Gives `user` the bond back at the instant `now`: the bond is gone
    /// and the score drops by ten, but not below zero.
    ///
    /// Refused without the consent of `user`, with `NotFound` when `user`
    /// is not bonded, and with `BondLocked` when the bond is younger than
    /// thirty days; in this order. Maintenance does not stop it.
    pub fn withdraw(&mut self, auth: &Auth, user: Principal, now: u64) -> (r: Result<(), Error>)
        requires
            old(self).wf(),
        ensures
            final(self).wf(),
            r == withdraw_result(old(self)@, auth@, user, now),
            final(self)@ == outcome(r, old(self)@, unbonded(old(self)@, user)),
            final(self)@ == step(old(self)@, Call::Withdraw { signers: auth@, user, now }),
    {
        if !auth.authorizes(user) {
            return Err(Error::Unauthorized);
        }
        let since: u64 = match self.bonds.get(&user) {
            Some(t) => *t,
            None => { return Err(Error::NotFound); },
        };
        if since > now || now - since < PERIOD {
            return Err(Error::BondLocked);
        }
        self.unbond(user);
        Ok(())
    }

    /// Dissolves the bond of `user` on the admin's word, whatever its age;
    /// where `user` is not bonded nothing changes.
    ///
    /// Refused without the consent of the admin. Maintenance does not stop
    /// it.
    pub fn force_unbond(&mut self, auth: &Auth, user: Principal) -> (r: Result<(), Error>)
        requires
            old(self).wf(),
        ensures
            final(self).wf(),
            r == force_unbond_result(old(self)@, auth@),
            final(self)@ == outcome(r, old(self)@, force_unbond_effect(old(self)@, user)),
            final(self)@ == step(old(self)@, Call::ForceUnbond { signers: auth@, user }),
    {
        if !self.admin_consents(auth) {
            return Err(Error::Unauthorized);
        }
        if self.is_bonded(user) {
            self.unbond(user);
        }
        Ok(())
    }

    /// When `user` bonded; 0 where `user` is not bonded.
    pub fn get_bond_time(&self, user: Principal) -> (since: u64)
        ensures
            since == (if self@.bonds.contains_key(user) {
                self@.bonds[user]
            } else {
                0
            }),
    {
        match self.bonds.get(&user) {
            Some(t) => *t,
            None => 0,
        }
    }

    /// Whether `user` is bonded.
    pub fn is_bonded(&self, user: Principal) -> (bonded: bool)
        ensures
            bonded == self@.bonds.contains_key(user),
    {
        self.bonds.contains_key(&user)
    }
}

} // verus!
