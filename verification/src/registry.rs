//! The small registries: badges bought with tokens, disputes, nicknames
//! with their directory, and the inboxes.

use vstd::prelude::*;
use crate::contract::{lemma_pair_key_injective, make_pair_key, TrustContract};
use crate::machine::{step, Call};
use crate::state::{outcome, State};
use crate::symbol::{is_short_name, packed_symbol, Symbol};
use crate::types::{
    copy_messages, messages_view, Auth, Error, Event, Message, MessageView, Principal,
    BADGE_COST,
};

verus! {

/// The nickname of a principal who has chosen none: `User`.
pub open spec fn default_nickname() -> Symbol {
    Symbol { code: packed_symbol("User"@) }
}

/// Whether a badge is sold, and why not.
pub open spec fn buy_badge_result(s: State, signers: Set<Principal>, user: Principal) -> Result<
    (),
    Error,
> {
    if s.maintenance {
        Err(Error::MaintenanceActive)
    } else if !signers.contains(user) {
        Err(Error::Unauthorized)
    } else if s.balance_of(user) < BADGE_COST {
        Err(Error::InsufficientBalance)
    } else {
        Ok(())
    }
}

/// The state once the badge is sold.
pub open spec fn buy_badge_effect(s: State, user: Principal, badge: Symbol) -> State {
    State { badges: s.badges.insert((user, badge)), ..s.debit(user, BADGE_COST as nat) }.emit(
        Event::BadgeBought { user, badge, cost: BADGE_COST },
    )
}

/// Whether a call that the maintenance flag stops and that `who` must
/// consent to goes through, and why not.
pub open spec fn gated_result(s: State, signers: Set<Principal>, who: Principal) -> Result<
    (),
    Error,
> {
    if s.maintenance {
        Err(Error::MaintenanceActive)
    } else if !signers.contains(who) {
        Err(Error::Unauthorized)
    } else {
        Ok(())
    }
}

/// The state once `target` is under dispute.
pub open spec fn raise_dispute_effect(s: State, accuser: Principal, target: Principal) -> State {
    State { disputed: s.disputed.insert(target), ..s }.emit(
        Event::DisputeRaised { accuser, target },
    )
}

/// Whether the admin may resolve a dispute, and why not.
pub open spec fn resolve_dispute_result(s: State, signers: Set<Principal>) -> Result<(), Error> {
    if !s.admin_signed(signers) {
        Err(Error::Unauthorized)
    } else {
        Ok(())
    }
}

/// The state once the dispute about `target` is resolved.
pub open spec fn resolve_dispute_effect(s: State, target: Principal) -> State {
    State { disputed: s.disputed.remove(target), ..s }.emit(Event::DisputeResolved { target })
}

/// The state once `user` goes by `nickname`: the name is on record for the
/// user, and the directory sends the name to the user.
pub open spec fn set_nickname_effect(s: State, user: Principal, nickname: Symbol) -> State {
    State {
        nicknames: s.nicknames.insert(user, nickname),
        nickname_owner: s.nickname_owner.insert(nickname, user),
        ..s
    }
}

/// The state once the message is delivered: it is the last in the inbox
/// of `to`.
pub open spec fn send_message_effect(
    s: State,
    from: Principal,
    to: Principal,
    text: Seq<char>,
) -> State {
    State {
        inbox: s.inbox.insert(to, s.inbox_of(to).push(MessageView { sender: from, text })),
        ..s
    }
}

impl TrustContract {
    /// Sells `user` the badge `badge` at the price of 50 tokens. A badge
    /// bought twice is paid twice and owned once.
    ///
    /// Refused while maintenance is on, without the consent of `user`, and
    /// when `user` holds less than the price, in this order.
    pub fn buy_badge(&mut self, auth: &Auth, user: Principal, badge: Symbol) -> (r: Result<
        (),
        Error,
    >)
        requires
            old(self).wf(),
        ensures
            final(self).wf(),
            r == buy_badge_result(old(self)@, auth@, user),
            final(self)@ == outcome(r, old(self)@, buy_badge_effect(old(self)@, user, badge)),
            final(self)@ == step(old(self)@, Call::BuyBadge { signers: auth@, user, badge }),
    {
        if self.maintenance {
            return Err(Error::MaintenanceActive);
        }
        if !auth.authorizes(user) {
            return Err(Error::Unauthorized);
        }
        if self.balance(user) < BADGE_COST {
            return Err(Error::InsufficientBalance);
        }
        self.debit(user, BADGE_COST);
        let ghost paid = self@;
        let key = make_pair_key(user, badge.code);
        self.badges.insert(key);
        proof {
            assert forall|b: (Principal, Symbol)|
                self@.badges.contains(b) <==> paid.badges.insert((user, badge)).contains(b) by {
                lemma_pair_key_injective(b.0, b.1.code, user, badge.code);
            }
            assert(self@ =~= (State { badges: paid.badges.insert((user, badge)), ..paid }));
        }
        self.log(Event::BadgeBought { user, badge, cost: BADGE_COST });
        Ok(())
    }

    /// Whether `user` owns the badge `badge`.
    pub fn has_badge(&self, user: Principal, badge: Symbol) -> (owned: bool)
        ensures
            owned == self@.badges.contains((user, badge)),
    {
        let key = make_pair_key(user, badge.code);
        self.badges.contains(&key)
    }

    /// Puts `target` under dispute on the word of `accuser`.
    ///
    /// Refused while maintenance is on and without the consent of
    /// `accuser`, in this order.
    pub fn raise_dispute(&mut self, auth: &Auth, accuser: Principal, target: Principal) -> (r:
        Result<(), Error>)
        requires
            old(self).wf(),
        ensures
            final(self).wf(),
            r == gated_result(old(self)@, auth@, accuser),
            final(self)@ == outcome(
                r,
                old(self)@,
                raise_dispute_effect(old(self)@, accuser, target),
            ),
            final(self)@ == step(
                old(self)@,
                Call::RaiseDispute { signers: auth@, accuser, target },
            ),
    {
        if self.maintenance {
            return Err(Error::MaintenanceActive);
        }
        if !auth.authorizes(accuser) {
            return Err(Error::Unauthorized);
        }
        self.disputed.insert(target);
        assert(self@ =~= (State { disputed: old(self)@.disputed.insert(target), ..old(self)@ }));
        self.log(Event::DisputeRaised { accuser, target });
        Ok(())
    }

    /// Whether `user` is under dispute.
    pub fn is_disputed(&self, user: Principal) -> (disputed: bool)
        ensures
            disputed == self@.disputed.contains(user),
    {
        self.disputed.contains(&user)
    }

    /// Lifts the dispute about `target`, if there is one.
    ///
    /// Refused without the consent of the admin. Maintenance does not stop
    /// it.
    pub fn resolve_dispute(&mut self, auth: &Auth, target: Principal) -> (r: Result<(), Error>)
        requires
            old(self).wf(),
        ensures
            final(self).wf(),
            r == resolve_dispute_result(old(self)@, auth@),
            final(self)@ == outcome(r, old(self)@, resolve_dispute_effect(old(self)@, target)),
            final(self)@ == step(old(self)@, Call::ResolveDispute { signers: auth@, target }),
    {
        if !self.admin_consents(auth) {
            return Err(Error::Unauthorized);
        }
        self.disputed.remove(&target);
        assert(self@ =~= (State { disputed: old(self)@.disputed.remove(target), ..old(self)@ }));
        self.log(Event::DisputeResolved { target });
        Ok(())
    }

    /// Lets `user` go by `nickname`. The directory then sends the name to
    /// `user`, whoever held it before; an earlier name of `user` stays in
    /// the directory.
    ///
    /// Refused while maintenance is on and without the consent of `user`,
    /// in this order.
    pub fn set_nickname(&mut self, auth: &Auth, user: Principal, nickname: Symbol) -> (r: Result<
        (),
        Error,
    >)
        requires
            old(self).wf(),
        ensures
            final(self).wf(),
            r == gated_result(old(self)@, auth@, user),
            final(self)@ == outcome(
                r,
                old(self)@,
                set_nickname_effect(old(self)@, user, nickname),
            ),
            final(self)@ == step(old(self)@, Call::SetNickname { signers: auth@, user, nickname }),
    {
        if self.maintenance {
            return Err(Error::MaintenanceActive);
        }
        if !auth.authorizes(user) {
            return Err(Error::Unauthorized);
        }
        self.nicknames.insert(user, nickname);
        self.nickname_owner.insert(nickname.code, user);
        assert(self@ =~= set_nickname_effect(old(self)@, user, nickname));
        Ok(())
    }

    /// Whom the directory names for `nickname`.
    pub fn get_address_by_nickname(&self, nickname: Symbol) -> (owner: Option<Principal>)
        ensures
            owner == (if self@.nickname_owner.contains_key(nickname) {
                Some(self@.nickname_owner[nickname])
            } else {
                None
            }),
    {
        match self.nickname_owner.get(&nickname.code) {
            Some(p) => Some(*p),
            None => None,
        }
    }

    /// The nickname of `user`; `User` where none was chosen.
    pub fn get_nickname(&self, user: Principal) -> (nickname: Symbol)
        ensures
            nickname == (if self@.nicknames.contains_key(user) {
                self@.nicknames[user]
            } else {
                default_nickname()
            }),
    {
        match self.nicknames.get(&user) {
            Some(s) => *s,
            None => {
                proof {
                    reveal_strlit("User");
                    assert(is_short_name("User"@));
                }
                Symbol::short("User").unwrap()
            },
        }
    }

    /// Delivers a message from `from` to the inbox of `to`.
    ///
    /// Refused while maintenance is on and without the consent of `from`,
    /// in this order.
    pub fn send_message(&mut self, auth: &Auth, from: Principal, to: Principal, text: String) -> (r:
        Result<(), Error>)
        requires
            old(self).wf(),
        ensures
            final(self).wf(),
            r == gated_result(old(self)@, auth@, from),
            final(self)@ == outcome(
                r,
                old(self)@,
                send_message_effect(old(self)@, from, to, text@),
            ),
            final(self)@ == step(
                old(self)@,
                Call::SendMessage { signers: auth@, from, to, text: text@ },
            ),
    {
        if self.maintenance {
            return Err(Error::MaintenanceActive);
        }
        if !auth.authorizes(from) {
            return Err(Error::Unauthorized);
        }
        let mut messages: Vec<Message> = match self.inbox.remove(&to) {
            Some(v) => v,
            None => Vec::new(),
        };
        let ghost before = messages_view(messages);
        assert(before =~= old(self)@.inbox_of(to));
        messages.push(Message { sender: from, text });
        assert(messages_view(messages) =~= before.push(MessageView { sender: from, text: text@ }));
        self.inbox.insert(to, messages);
        assert(self@ =~= send_message_effect(old(self)@, from, to, text@));
        Ok(())
    }

    /// The messages in the inbox of `user`, oldest first.
    pub fn get_messages(&self, user: Principal) -> (messages: Vec<Message>)
        ensures
            messages_view(messages) == self@.inbox_of(user),
    {
        match self.inbox.get(&user) {
            Some(v) => copy_messages(v),
            None => {
                let empty: Vec<Message> = Vec::new();
                assert(messages_view(empty) =~= Seq::<MessageView>::empty());
                empty
            },
        }
    }
}

} // verus!
