//! The ledger as a mathematical value: what every call reads and what it
//! leaves behind.

use vstd::prelude::*;
use crate::symbol::Symbol;
use crate::totals::total;
use crate::types::{Escrow, Error, Event, MessageView, Principal, TxView, WalletView, TICKET_PRICE};

verus! {

/// The whole state of the economy.
#[verifier::ext_equal]
pub struct State {
    /// Who may run the admin-only operations; `None` until `init`.
    pub admin: Option<Principal>,
    /// The global circuit breaker.
    pub maintenance: bool,
    /// Trust scores; a principal without an entry has score 0.
    pub trust: Map<Principal, u32>,
    /// Token balances; a principal without an entry holds nothing.
    pub balances: Map<Principal, u32>,
    /// When each bonded principal bonded.
    pub bonds: Map<Principal, u64>,
    /// Who owns which badge.
    pub badges: Set<(Principal, Symbol)>,
    /// What the crowdfund has collected.
    pub crowdfund: u32,
    /// How many proposals have been opened.
    pub proposal_count: u32,
    /// Weight cast in favour, by proposal.
    pub yes: Map<u32, u32>,
    /// Weight cast against, by proposal.
    pub no: Map<u32, u32>,
    /// Who has voted on which proposal.
    pub voted: Set<(u32, Principal)>,
    /// Who is under dispute.
    pub disputed: Set<Principal>,
    /// The nickname each principal chose.
    pub nicknames: Map<Principal, Symbol>,
    /// Who last took each nickname.
    pub nickname_owner: Map<Symbol, Principal>,
    /// Messages received, oldest first.
    pub inbox: Map<Principal, Seq<MessageView>>,
    /// How many escrows have been opened.
    pub escrow_count: u32,
    /// The escrows that are still open.
    pub escrows: Map<u32, Escrow>,
    /// When each subscription runs out.
    pub subscriptions: Map<Principal, u64>,
    /// How many wallets have been made.
    pub wallet_count: u32,
    /// The wallets.
    pub wallets: Map<u32, WalletView>,
    /// How many wallet transactions have been proposed.
    pub tx_count: u32,
    /// The wallet transactions.
    pub txs: Map<u32, TxView>,
    /// One entry per lottery ticket sold since the last draw.
    pub lottery: Seq<Principal>,
    /// The events raised and not yet collected, oldest first.
    pub events: Seq<Event>,
}

/// A balance as a number.
pub open spec fn amount_weight() -> spec_fn(u32) -> nat {
    |v: u32| v as nat
}

/// What a wallet holds.
pub open spec fn wallet_weight() -> spec_fn(WalletView) -> nat {
    |w: WalletView| w.balance as nat
}

/// What an escrow holds.
pub open spec fn escrow_weight() -> spec_fn(Escrow) -> nat {
    |e: Escrow| e.amount as nat
}

/// Whether `t` is a transaction of one of `wallets`, approved by distinct
/// owners of it only.
pub open spec fn tx_fits(wallets: Map<u32, WalletView>, t: TxView) -> bool {
    &&& wallets.contains_key(t.wallet_id)
    &&& t.approvals.no_duplicates()
    &&& forall|i: int|
        0 <= i < t.approvals.len() ==> wallets[t.wallet_id].owners.contains(
            #[trigger] t.approvals[i],
        )
}

impl State {
    /// The state of a freshly deployed ledger.
    pub open spec fn initial() -> State {
        State {
            admin: None,
            maintenance: false,
            trust: Map::empty(),
            balances: Map::empty(),
            bonds: Map::empty(),
            badges: Set::empty(),
            crowdfund: 0,
            proposal_count: 0,
            yes: Map::empty(),
            no: Map::empty(),
            voted: Set::empty(),
            disputed: Set::empty(),
            nicknames: Map::empty(),
            nickname_owner: Map::empty(),
            inbox: Map::empty(),
            escrow_count: 0,
            escrows: Map::empty(),
            subscriptions: Map::empty(),
            wallet_count: 0,
            wallets: Map::empty(),
            tx_count: 0,
            txs: Map::empty(),
            lottery: Seq::empty(),
            events: Seq::empty(),
        }
    }

    /// The trust score of `p`.
    pub open spec fn trust_of(self, p: Principal) -> nat {
        if self.trust.contains_key(p) {
            self.trust[p] as nat
        } else {
            0
        }
    }

    /// The token balance of `p`.
    pub open spec fn balance_of(self, p: Principal) -> nat {
        if self.balances.contains_key(p) {
            self.balances[p] as nat
        } else {
            0
        }
    }

    /// The weight cast in favour of proposal `id`.
    pub open spec fn yes_of(self, id: u32) -> nat {
        if self.yes.contains_key(id) {
            self.yes[id] as nat
        } else {
            0
        }
    }

    /// The weight cast against proposal `id`.
    pub open spec fn no_of(self, id: u32) -> nat {
        if self.no.contains_key(id) {
            self.no[id] as nat
        } else {
            0
        }
    }

    /// When the subscription of `p` runs out; 0 if there never was one.
    pub open spec fn expiry_of(self, p: Principal) -> nat {
        if self.subscriptions.contains_key(p) {
            self.subscriptions[p] as nat
        } else {
            0
        }
    }

    /// The messages in the inbox of `p`.
    pub open spec fn inbox_of(self, p: Principal) -> Seq<MessageView> {
        if self.inbox.contains_key(p) {
            self.inbox[p]
        } else {
            Seq::empty()
        }
    }

    /// Whether the admin is among `signers`.
    pub open spec fn admin_signed(self, signers: Set<Principal>) -> bool {
        self.admin matches Some(a) && signers.contains(a)
    }

    /// The same state with the trust score of `p` set to `score`.
    pub open spec fn with_trust(self, p: Principal, score: nat) -> State {
        State { trust: self.trust.insert(p, score as u32), ..self }
    }

    /// The same state with the balance of `p` set to `amount`.
    pub open spec fn with_balance(self, p: Principal, amount: nat) -> State {
        State { balances: self.balances.insert(p, amount as u32), ..self }
    }

    /// The same state after `amount` is added to the balance of `p`.
    pub open spec fn credit(self, p: Principal, amount: nat) -> State {
        self.with_balance(p, self.balance_of(p) + amount)
    }

    /// The same state after `amount` is taken off the balance of `p`.
    pub open spec fn debit(self, p: Principal, amount: nat) -> State {
        self.with_balance(p, (self.balance_of(p) - amount) as nat)
    }

    /// The same state with one more event in the log.
    pub open spec fn emit(self, e: Event) -> State {
        State { events: self.events.push(e), ..self }
    }

    /// All tokens on personal balances.
    pub open spec fn balance_total(self) -> nat {
        total(self.balances, amount_weight())
    }

    /// All tokens pooled in wallets.
    pub open spec fn wallet_total(self) -> nat {
        total(self.wallets, wallet_weight())
    }

    /// All tokens held by open escrows.
    pub open spec fn escrow_total(self) -> nat {
        total(self.escrows, escrow_weight())
    }

    /// The tokens that somebody can spend: personal balances and wallets.
    pub open spec fn circulating(self) -> nat {
        self.balance_total() + self.wallet_total()
    }

    /// What the next draw will pay out.
    pub open spec fn pot(self) -> nat {
        self.lottery.len() * TICKET_PRICE as nat
    }

    /// Whether `w` is a wallet as the engine makes them: distinct owners and
    /// a threshold that they can reach.
    pub open spec fn wallet_ok(w: WalletView) -> bool {
        &&& w.owners.no_duplicates()
        &&& 1 <= w.threshold <= w.owners.len()
    }

    /// Whether `t` is a transaction of one of the wallets, approved by
    /// distinct owners of it only.
    pub open spec fn tx_ok(self, t: TxView) -> bool {
        tx_fits(self.wallets, t)
    }

    /// The invariant of the ledger. `initial()` has it and every call keeps
    /// it.
    pub open spec fn wf(self) -> bool {
        &&& self.balances.dom().finite()
        &&& self.wallets.dom().finite()
        &&& self.escrows.dom().finite()
        &&& forall|id: u32| #[trigger]
            self.escrows.contains_key(id) ==> 1 <= id <= self.escrow_count
        &&& forall|id: u32| #[trigger]
            self.wallets.contains_key(id) ==> 1 <= id <= self.wallet_count && Self::wallet_ok(
                self.wallets[id],
            )
        &&& forall|id: u32| #[trigger]
            self.txs.contains_key(id) ==> 1 <= id <= self.tx_count && self.tx_ok(self.txs[id])
        &&& self.lottery.len() * TICKET_PRICE <= u32::MAX
    }
}

/// What a call leaves behind: `after` where it succeeded, `before` where
/// it was refused.
pub open spec fn outcome<T>(r: Result<T, Error>, before: State, after: State) -> State {
    if r is Ok {
        after
    } else {
        before
    }
}

} // verus!
