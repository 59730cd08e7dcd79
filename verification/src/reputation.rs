//! The reputation ledger: one trust score per principal, which only a
//! vouch, a bond or the admin's decay can move.

use vstd::prelude::*;
use crate::contract::TrustContract;
use crate::machine::{step, Call};
use crate::state::{outcome, State};
use crate::types::{Auth, Error, Event, Principal, VOUCH_CEILING, VOUCH_REWARD, VOUCH_SHIFT};

verus! {

/// `score` less `by`, but never below zero.
pub open spec fn lowered(score: nat, by: nat) -> nat {
    if score >= by {
        (score - by) as nat
    } else {
        0
    }
}

/// What a vouch makes of the target's `score`: two more, but not past the
/// ceiling of 100. A score that is at or above the ceiling stays.
pub open spec fn lifted(score: nat) -> nat {
    if score >= VOUCH_CEILING {
        score
    } else if score + VOUCH_SHIFT > VOUCH_CEILING {
        VOUCH_CEILING as nat
    } else {
        score + VOUCH_SHIFT as nat
    }
}

/// The new score, or why trust is not added.
pub open spec fn add_trust_result(s: State, signers: Set<Principal>, user: Principal) -> Result<
    u32,
    Error,
> {
    if s.maintenance {
        Err(Error::MaintenanceActive)
    } else if !signers.contains(user) {
        Err(Error::Unauthorized)
    } else if s.trust_of(user) + 1 > u32::MAX {
        Err(Error::Overflow)
    } else {
        Ok((s.trust_of(user) + 1) as u32)
    }
}

/// The state once trust is added.
pub open spec fn add_trust_effect(s: State, user: Principal) -> State {
    s.with_trust(user, s.trust_of(user) + 1)
}

/// Whether a vouch goes through, and why not. Vouching for oneself goes
/// through and does nothing.
pub open spec fn vouch_result(
    s: State,
    signers: Set<Principal>,
    voucher: Principal,
    target: Principal,
) -> Result<(), Error> {
    if s.maintenance {
        Err(Error::MaintenanceActive)
    } else if !signers.contains(voucher) {
        Err(Error::Unauthorized)
    } else if voucher != target && s.balance_of(voucher) + VOUCH_REWARD > u32::MAX {
        Err(Error::Overflow)
    } else {
        Ok(())
    }
}

/// The state after a vouch: two points of trust pass from the voucher to
/// the target, as far as the voucher has them and the target's ceiling
/// lets them in, and the voucher is paid 5 tokens.
pub open spec fn vouch_effect(s: State, voucher: Principal, target: Principal) -> State {
    if voucher == target {
        s
    } else {
        s.with_trust(voucher, lowered(s.trust_of(voucher), VOUCH_SHIFT as nat)).with_trust(
            target,
            lifted(s.trust_of(target)),
        ).credit(voucher, VOUCH_REWARD as nat).emit(Event::Vouch { voucher, target }).emit(
            Event::Mint { to: voucher, amount: VOUCH_REWARD },
        )
    }
}

/// Whether a decay goes through, and why not.
pub open spec fn decay_result(s: State, signers: Set<Principal>) -> Result<(), Error> {
    if s.maintenance {
        Err(Error::MaintenanceActive)
    } else if !s.admin_signed(signers) {
        Err(Error::Unauthorized)
    } else {
        Ok(())
    }
}

/// The state after a decay: one point less, unless the score is zero.
pub open spec fn decay_effect(s: State, user: Principal) -> State {
    if s.trust_of(user) > 0 {
        s.with_trust(user, (s.trust_of(user) - 1) as nat).emit(
            Event::Decayed { user, score: (s.trust_of(user) - 1) as u32 },
        )
    } else {
        s
    }
}

impl TrustContract {
    /// Takes `by` points off the score of `user`, stopping at zero.
    pub(crate) fn lower_trust(&mut self, user: Principal, by: u32)
        ensures
            final(self)@ == old(self)@.with_trust(
                user,
                lowered(old(self)@.trust_of(user), by as nat),
            ),
    {
        let score: u32 = self.trust_score(user);
        if score >= by {
            self.set_trust(user, score - by);
        } else {
            self.set_trust(user, 0);
        }
    }

    /// Adds one point to the trust score of `user` and returns the new
    /// score. There is no ceiling.
    ///
    /// Refused while maintenance is on, without the consent of `user`, and
    /// when the score would leave its range, in this order.
    pub fn add_trust(&mut self, auth: &Auth, user: Principal) -> (r: Result<u32, Error>)
        requires
            old(self).wf(),
        ensures
            final(self).wf(),
            r == add_trust_result(old(self)@, auth@, user),
            final(self)@ == outcome(r, old(self)@, add_trust_effect(old(self)@, user)),
            final(self)@ == step(old(self)@, Call::AddTrust { signers: auth@, user }),
    {
        if self.maintenance {
            return Err(Error::MaintenanceActive);
        }
        if !auth.authorizes(user) {
            return Err(Error::Unauthorized);
        }
        let score: u32 = self.trust_score(user);
        if score == u32::MAX {
            return Err(Error::Overflow);
        }
        self.set_trust(user, score + 1);
        Ok(score + 1)
    }

    /// `voucher` vouches for `target`: the voucher's score drops by two,
    /// but not below zero; the target's score rises by two, but not past
    /// 100; the voucher is paid 5 tokens.
    ///
    /// Vouching for oneself is accepted and changes nothing. Refused while
    /// maintenance is on, without the consent of `voucher`, and when the
    /// voucher's balance would leave its range, in this order.
    pub fn vouch(&mut self, auth: &Auth, voucher: Principal, target: Principal) -> (r: Result<
        (),
        Error,
    >)
        requires
            old(self).wf(),
        ensures
            final(self).wf(),
            r == vouch_result(old(self)@, auth@, voucher, target),
            final(self)@ == outcome(r, old(self)@, vouch_effect(old(self)@, voucher, target)),
            final(self)@ == step(old(self)@, Call::Vouch { signers: auth@, voucher, target }),
    {
        if self.maintenance {
            return Err(Error::MaintenanceActive);
        }
        if !auth.authorizes(voucher) {
            return Err(Error::Unauthorized);
        }
        if voucher == target {
            return Ok(());
        }
        if self.balance(voucher) > u32::MAX - VOUCH_REWARD {
            return Err(Error::Overflow);
        }
        self.lower_trust(voucher, VOUCH_SHIFT);
        let score: u32 = self.trust_score(target);
        if score < VOUCH_CEILING {
            if score > VOUCH_CEILING - VOUCH_SHIFT {
                self.set_trust(target, VOUCH_CEILING);
            } else {
                self.set_trust(target, score + VOUCH_SHIFT);
            }
        } else {
            self.set_trust(target, score);
        }
        self.credit(voucher, VOUCH_REWARD);
        self.log(Event::Vouch { voucher, target });
        self.log(Event::Mint { to: voucher, amount: VOUCH_REWARD });
        Ok(())
    }

    /// Takes one point off the trust score of `user`; a score of zero
    /// stays.
    ///
    /// Refused while maintenance is on and without the consent of the
    /// admin, in this order.
    pub fn decay(&mut self, auth: &Auth, user: Principal) -> (r: Result<(), Error>)
        requires
            old(self).wf(),
        ensures
            final(self).wf(),
            r == decay_result(old(self)@, auth@),
            final(self)@ == outcome(r, old(self)@, decay_effect(old(self)@, user)),
            final(self)@ == step(old(self)@, Call::Decay { signers: auth@, user }),
    {
        if self.maintenance {
            return Err(Error::MaintenanceActive);
        }
        if !self.admin_consents(auth) {
            return Err(Error::Unauthorized);
        }
        let score: u32 = self.trust_score(user);
        if score > 0 {
            self.set_trust(user, score - 1);
            self.log(Event::Decayed { user, score: score - 1 });
        }
        Ok(())
    }

    /// The trust score of `user`; 0 for a principal never scored.
    pub fn get_trust(&self, user: Principal) -> (score: u32)
        ensures
            score == self@.trust_of(user),
    {
        self.trust_score(user)
    }
}

} // verus!
