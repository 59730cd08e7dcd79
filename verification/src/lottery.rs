//! The lottery: every ticket is one entry in the pool, and a draw pays
//! the whole pool to the holder of the entry drawn.

use vstd::prelude::*;
use crate::contract::TrustContract;
use crate::machine::{step, Call};
use crate::state::{outcome, State};
use crate::types::{copy_principals, Auth, Error, Event, Principal, TICKET_PRICE};

verus! {

/// Whether a ticket is sold, and why not.
pub open spec fn buy_ticket_result(s: State, signers: Set<Principal>, user: Principal) -> Result<
    (),
    Error,
> {
    if s.maintenance {
        Err(Error::MaintenanceActive)
    } else if !signers.contains(user) {
        Err(Error::Unauthorized)
    } else if s.balance_of(user) < TICKET_PRICE {
        Err(Error::InsufficientBalance)
    } else if (s.lottery.len() + 1) * TICKET_PRICE > u32::MAX {
        Err(Error::Overflow)
    } else {
        Ok(())
    }
}

/// The state once the ticket is sold: its price is burned and the buyer
/// has one more entry at the end of the pool.
pub open spec fn buy_ticket_effect(s: State, user: Principal) -> State {
    State { lottery: s.lottery.push(user), ..s.debit(user, TICKET_PRICE as nat) }.emit(
        Event::TicketBought { user, tickets: (s.lottery.len() + 1) as u32 },
    )
}

/// Whether the draw pays out, and why not. `draw` is the index that the
/// random source gave.
pub open spec fn run_lottery_result(s: State, signers: Set<Principal>, draw: u32) -> Result<
    (),
    Error,
> {
    if s.maintenance {
        Err(Error::MaintenanceActive)
    } else if !s.admin_signed(signers) {
        Err(Error::Unauthorized)
    } else if s.lottery.len() == 0 {
        Err(Error::NoParticipants)
    } else if draw >= s.lottery.len() {
        Err(Error::InvalidArgument)
    } else if s.balance_of(s.lottery[draw as int]) + s.pot() > u32::MAX {
        Err(Error::Overflow)
    } else {
        Ok(())
    }
}

/// The state after the draw: the holder of entry `draw` has the whole pot
/// and the pool is empty.
pub open spec fn run_lottery_effect(s: State, draw: u32) -> State {
    let winner = s.lottery[draw as int];
    State { lottery: Seq::empty(), ..s.credit(winner, s.pot()) }.emit(
        Event::LotteryWon { winner, pot: s.pot() as u32 },
    )
}

impl TrustContract {
    /// Sells `user` one lottery ticket at the price of 10 tokens. Each
    /// ticket is one entry in the pool, so a second ticket doubles the
    /// buyer's chance.
    ///
    /// Refused while maintenance is on, without the consent of `user`, when
    /// `user` holds less than the price, and when the pot would leave its
    /// range, in this order.
    pub fn buy_ticket(&mut self, auth: &Auth, user: Principal) -> (r: Result<(), Error>)
        requires
            old(self).wf(),
        ensures
            final(self).wf(),
            r == buy_ticket_result(old(self)@, auth@, user),
            final(self)@ == outcome(r, old(self)@, buy_ticket_effect(old(self)@, user)),
            final(self)@ == step(old(self)@, Call::BuyTicket { signers: auth@, user }),
    {
        if self.maintenance {
            return Err(Error::MaintenanceActive);
        }
        if !auth.authorizes(user) {
            return Err(Error::Unauthorized);
        }
        if self.balance(user) < TICKET_PRICE {
            return Err(Error::InsufficientBalance);
        }
        let sold: u32 = self.get_lottery_info();
        if sold >= u32::MAX / TICKET_PRICE {
            return Err(Error::Overflow);
        }
        self.debit(user, TICKET_PRICE);
        self.lottery.push(user);
        self.log(Event::TicketBought { user, tickets: sold + 1 });
        assert(self@ =~= buy_ticket_effect(old(self)@, user));
        Ok(())
    }

    /// Pays the pot, the price of every ticket in the pool, to the holder
    /// of the entry with index `draw`, and empties the pool. `draw` is to
    /// be drawn uniformly from the indices of the pool, so that every
    /// ticket is as likely to win as any other.
    ///
    /// Refused while maintenance is on, without the consent of the admin,
    /// with `NoParticipants` when the pool is empty, with `InvalidArgument`
    /// when `draw` is no index of the pool, and with `Overflow` when the
    /// winner's balance would leave its range; in this order.
    pub fn run_lottery(&mut self, auth: &Auth, draw: u32) -> (r: Result<(), Error>)
        requires
            old(self).wf(),
        ensures
            final(self).wf(),
            r == run_lottery_result(old(self)@, auth@, draw),
            final(self)@ == outcome(r, old(self)@, run_lottery_effect(old(self)@, draw)),
            final(self)@ == step(old(self)@, Call::RunLottery { signers: auth@, draw }),
    {
        if self.maintenance {
            return Err(Error::MaintenanceActive);
        }
        if !self.admin_consents(auth) {
            return Err(Error::Unauthorized);
        }
        let sold: u32 = self.get_lottery_info();
        if sold == 0 {
            return Err(Error::NoParticipants);
        }
        if draw >= sold {
            return Err(Error::InvalidArgument);
        }
        let winner: Principal = self.lottery[draw as usize];
        let pot: u32 = sold * TICKET_PRICE;
        if self.balance(winner) > u32::MAX - pot {
            return Err(Error::Overflow);
        }
        self.credit(winner, pot);
        self.lottery.clear();
        self.log(Event::LotteryWon { winner, pot });
        assert(self@ =~= run_lottery_effect(old(self)@, draw));
        Ok(())
    }

    /// The pool: the holder of each ticket, in the order in which the
    /// tickets were sold.
    pub fn get_lottery_pool(&self) -> (pool: Vec<Principal>)
        ensures
            pool@ == self@.lottery,
    {
        copy_principals(&self.lottery)
    }

    /// How many tickets are in the pool.
    pub fn get_lottery_info(&self) -> (tickets: u32)
        requires
            self.wf(),
        ensures
            tickets == self@.lottery.len(),
    {
        self.lottery.len() as u32
    }
}

} // verus!
