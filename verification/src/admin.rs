//! The admin and the maintenance flag: one principal who may run the
//! admin-only operations, and one switch that stops the economy.

use vstd::prelude::*;
use crate::contract::TrustContract;
use crate::machine::{step, Call};
use crate::state::{outcome, State};
use crate::types::{Auth, Error, Principal};

verus! {

/// Whether the ledger takes `admin` as its first admin, and why not.
pub open spec fn init_result(s: State) -> Result<(), Error> {
    if s.admin is Some {
        Err(Error::Unauthorized)
    } else {
        Ok(())
    }
}

/// Whether an admin-only setting is changed, and why not.
pub open spec fn admin_result(s: State, signers: Set<Principal>) -> Result<(), Error> {
    if !s.admin_signed(signers) {
        Err(Error::Unauthorized)
    } else {
        Ok(())
    }
}

impl TrustContract {
    /// Whether the admin is among the signers of `auth`. Nobody is while
    /// the ledger has no admin.
    pub(crate) fn admin_consents(&self, auth: &Auth) -> (yes: bool)
        ensures
            yes == self@.admin_signed(auth@),
    {
        match self.admin {
            Some(a) => auth.authorizes(a),
            None => false,
        }
    }

    /// Names the first admin. A ledger is initialised once: where it has an
    /// admin already the call is refused with `Unauthorized`, and only
    /// `transfer_admin` names another.
    pub fn init(&mut self, admin: Principal) -> (r: Result<(), Error>)
        requires
            old(self).wf(),
        ensures
            final(self).wf(),
            r == init_result(old(self)@),
            final(self)@ == outcome(r, old(self)@, State { admin: Some(admin), ..old(self)@ }),
            final(self)@ == step(old(self)@, Call::Init { admin }),
    {
        if self.admin.is_some() {
            return Err(Error::Unauthorized);
        }
        self.admin = Some(admin);
        assert(self@ =~= (State { admin: Some(admin), ..old(self)@ }));
        Ok(())
    }

    /// The admin, or `None` before `init`.
    pub fn get_admin(&self) -> (admin: Option<Principal>)
        ensures
            admin == self@.admin,
    {
        self.admin
    }

    /// Hands the admin's role to `new_admin`. Refused without the consent
    /// of the current admin.
    pub fn transfer_admin(&mut self, auth: &Auth, new_admin: Principal) -> (r: Result<(), Error>)
        requires
            old(self).wf(),
        ensures
            final(self).wf(),
            r == admin_result(old(self)@, auth@),
            final(self)@ == outcome(
                r,
                old(self)@,
                State { admin: Some(new_admin), ..old(self)@ },
            ),
            final(self)@ == step(old(self)@, Call::TransferAdmin { signers: auth@, new_admin }),
    {
        if !self.admin_consents(auth) {
            return Err(Error::Unauthorized);
        }
        self.admin = Some(new_admin);
        assert(self@ =~= (State { admin: Some(new_admin), ..old(self)@ }));
        Ok(())
    }

    /// Sets or clears the maintenance flag. Refused without the consent of
    /// the admin. The flag does not stop this call, so that it can be
    /// cleared again.
    pub fn set_maintenance(&mut self, auth: &Auth, active: bool) -> (r: Result<(), Error>)
        requires
            old(self).wf(),
        ensures
            final(self).wf(),
            r == admin_result(old(self)@, auth@),
            final(self)@ == outcome(r, old(self)@, State { maintenance: active, ..old(self)@ }),
            final(self)@ == step(old(self)@, Call::SetMaintenance { signers: auth@, active }),
    {
        if !self.admin_consents(auth) {
            return Err(Error::Unauthorized);
        }
        self.maintenance = active;
        assert(self@ =~= (State { maintenance: active, ..old(self)@ }));
        Ok(())
    }

    /// Whether the maintenance flag is set.
    pub fn is_maintenance(&self) -> (active: bool)
        ensures
            active == self@.maintenance,
    {
        self.maintenance
    }
}

} // verus!
