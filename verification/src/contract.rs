//! The ledger as it is held in memory, and the small steps that every
//! engine is built from.

use std::collections::{HashMap, HashSet};
use vstd::prelude::*;
use crate::machine::{step, Call};
use crate::state::State;
use crate::symbol::Symbol;
use crate::types::{
    messages_view, Escrow, Event, Message, MultiSigTx, MultiSigWallet, Principal,
};

verus! {

/// The key under which a pair of identifiers is filed: `hi * 2^64 + lo`.
pub open spec fn pair_key(hi: nat, lo: nat) -> nat {
    hi * 0x1_0000_0000_0000_0000 + lo
}

/// Distinct pairs are filed under distinct keys.
pub proof fn lemma_pair_key_injective(a: u64, b: u64, c: u64, d: u64)
    ensures
        pair_key(a as nat, b as nat) == pair_key(c as nat, d as nat) <==> a == c && b == d,
        pair_key(a as nat, b as nat) <= u128::MAX,
{
}

/// Computes `pair_key`.
pub(crate) fn make_pair_key(hi: u64, lo: u64) -> (k: u128)
    ensures
        k == pair_key(hi as nat, lo as nat),
{
    (hi as u128) * 0x1_0000_0000_0000_0000u128 + (lo as u128)
}

/// The ledger: reputation, balances and the records of every engine.
///
/// A call that needs the time or a random draw takes it as an argument,
/// and what a call tells observers is kept in a log until `take_events`
/// collects it.
pub struct TrustContract {
    pub(crate) admin: Option<Principal>,
    pub(crate) maintenance: bool,
    pub(crate) trust: HashMap<u64, u32>,
    pub(crate) balances: HashMap<u64, u32>,
    pub(crate) bonds: HashMap<u64, u64>,
    pub(crate) badges: HashSet<u128>,
    pub(crate) crowdfund: u32,
    pub(crate) proposal_count: u32,
    pub(crate) yes: HashMap<u32, u32>,
    pub(crate) no: HashMap<u32, u32>,
    pub(crate) voted: HashSet<u128>,
    pub(crate) disputed: HashSet<u64>,
    pub(crate) nicknames: HashMap<u64, Symbol>,
    pub(crate) nickname_owner: HashMap<u64, Principal>,
    pub(crate) inbox: HashMap<u64, Vec<Message>>,
    pub(crate) escrow_count: u32,
    pub(crate) escrows: HashMap<u32, Escrow>,
    pub(crate) subscriptions: HashMap<u64, u64>,
    pub(crate) wallet_count: u32,
    pub(crate) wallets: HashMap<u32, MultiSigWallet>,
    pub(crate) tx_count: u32,
    pub(crate) txs: HashMap<u32, MultiSigTx>,
    pub(crate) lottery: Vec<Principal>,
    pub(crate) events: Vec<Event>,
}

impl View for TrustContract {
    type V = State;

    open(crate) spec fn view(&self) -> State {
        State {
            admin: self.admin,
            maintenance: self.maintenance,
            trust: self.trust@,
            balances: self.balances@,
            bonds: self.bonds@,
            badges: Set::new(
                |b: (Principal, Symbol)|
                    self.badges@.contains(pair_key(b.0 as nat, b.1.code as nat) as u128),
            ),
            crowdfund: self.crowdfund,
            proposal_count: self.proposal_count,
            yes: self.yes@,
            no: self.no@,
            voted: Set::new(
                |v: (u32, Principal)|
                    self.voted@.contains(pair_key(v.0 as nat, v.1 as nat) as u128),
            ),
            disputed: self.disputed@,
            nicknames: self.nicknames@,
            nickname_owner: Map::new(
                |s: Symbol| self.nickname_owner@.contains_key(s.code),
                |s: Symbol| self.nickname_owner@[s.code],
            ),
            inbox: self.inbox@.map_values(|v: Vec<Message>| messages_view(v)),
            escrow_count: self.escrow_count,
            escrows: self.escrows@,
            subscriptions: self.subscriptions@,
            wallet_count: self.wallet_count,
            wallets: self.wallets@.map_values(|w: MultiSigWallet| w@),
            tx_count: self.tx_count,
            txs: self.txs@.map_values(|t: MultiSigTx| t@),
            lottery: self.lottery@,
            events: self.events@,
        }
    }
}

impl TrustContract {
    /// Whether the ledger is one that `new` and the operations can have
    /// made.
    pub open spec fn wf(&self) -> bool {
        self@.wf()
    }

    /// A freshly deployed ledger: no admin, nothing recorded.
    pub fn new() -> (c: TrustContract)
        ensures
            c.wf(),
            c@ == State::initial(),
    {
        let c = TrustContract {
            admin: None,
            maintenance: false,
            trust: HashMap::new(),
            balances: HashMap::new(),
            bonds: HashMap::new(),
            badges: HashSet::new(),
            crowdfund: 0,
            proposal_count: 0,
            yes: HashMap::new(),
            no: HashMap::new(),
            voted: HashSet::new(),
            disputed: HashSet::new(),
            nicknames: HashMap::new(),
            nickname_owner: HashMap::new(),
            inbox: HashMap::new(),
            escrow_count: 0,
            escrows: HashMap::new(),
            subscriptions: HashMap::new(),
            wallet_count: 0,
            wallets: HashMap::new(),
            tx_count: 0,
            txs: HashMap::new(),
            lottery: Vec::new(),
            events: Vec::new(),
        };
        assert(c@ =~= State::initial());
        c
    }

    /// Reads a trust score.
    pub(crate) fn trust_score(&self, p: Principal) -> (score: u32)
        ensures
            score == self@.trust_of(p),
    {
        match self.trust.get(&p) {
            Some(v) => *v,
            None => 0,
        }
    }

    /// Reads a balance.
    pub(crate) fn balance(&self, p: Principal) -> (amount: u32)
        ensures
            amount == self@.balance_of(p),
    {
        match self.balances.get(&p) {
            Some(v) => *v,
            None => 0,
        }
    }

    /// Writes a trust score.
    pub(crate) fn set_trust(&mut self, p: Principal, score: u32)
        ensures
            final(self)@ == old(self)@.with_trust(p, score as nat),
    {
        self.trust.insert(p, score);
        assert(self@ =~= old(self)@.with_trust(p, score as nat));
    }

    /// Writes a balance.
    pub(crate) fn set_balance(&mut self, p: Principal, amount: u32)
        ensures
            final(self)@ == old(self)@.with_balance(p, amount as nat),
    {
        self.balances.insert(p, amount);
        assert(self@ =~= old(self)@.with_balance(p, amount as nat));
    }

    /// Appends an event to the log.
    pub(crate) fn log(&mut self, e: Event)
        ensures
            final(self)@ == old(self)@.emit(e),
    {
        self.events.push(e);
        assert(self@ =~= old(self)@.emit(e));
    }

    /// Hands over the events raised since the last collection and empties
    /// the log.
    pub fn take_events(&mut self) -> (events: Vec<Event>)
        requires
            old(self).wf(),
        ensures
            final(self).wf(),
            events@ == old(self)@.events,
            final(self)@ == (State { events: Seq::empty(), ..old(self)@ }),
            final(self)@ == step(old(self)@, Call::TakeEvents),
    {
        let mut taken: Vec<Event> = Vec::new();
        std::mem::swap(&mut self.events, &mut taken);
        assert(self@ =~= (State { events: Seq::empty(), ..old(self)@ }));
        taken
    }
}

} // verus!
