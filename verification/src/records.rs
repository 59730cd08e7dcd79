//! The ledger as a list of records, as a store that keeps one value per
//! key holds it, and the way back from such a list to a ledger.

use std::collections::{HashMap, HashSet};
use std::hash::Hash;
use vstd::prelude::*;
use vstd::std_specs::hash::obeys_key_model;
use crate::contract::{lemma_pair_key_injective, make_pair_key, pair_key, TrustContract};
use crate::state::{tx_fits, State};
use crate::symbol::Symbol;
use crate::types::{
    all_distinct, copy_messages, copy_principals, has_principal, messages_view, Error, Escrow,
    Message, MessageView, MultiSigTx, MultiSigWallet, Principal, TxView, WalletView,
    TICKET_PRICE,
};

verus! {

/// What a store holds of a ledger: the settings and counters, and for each
/// kind of record the entries by key. Where a list names a key twice, the
/// later entry counts.
pub struct Records {
    pub admin: Option<Principal>,
    pub maintenance: bool,
    pub crowdfund: u32,
    pub proposal_count: u32,
    pub escrow_count: u32,
    pub wallet_count: u32,
    pub tx_count: u32,
    pub trust: Vec<(Principal, u32)>,
    pub balances: Vec<(Principal, u32)>,
    pub bonds: Vec<(Principal, u64)>,
    pub badges: Vec<(Principal, Symbol)>,
    pub yes: Vec<(u32, u32)>,
    pub no: Vec<(u32, u32)>,
    pub voted: Vec<(u32, Principal)>,
    pub disputed: Vec<Principal>,
    pub nicknames: Vec<(Principal, Symbol)>,
    pub nickname_owner: Vec<(Symbol, Principal)>,
    pub inbox: Vec<(Principal, Vec<Message>)>,
    pub escrows: Vec<(u32, Escrow)>,
    pub subscriptions: Vec<(Principal, u64)>,
    pub wallets: Vec<(u32, MultiSigWallet)>,
    pub txs: Vec<(u32, MultiSigTx)>,
    pub lottery: Vec<Principal>,
}

/// The map that a list of entries comes to: each key with the value of
/// its last entry.
pub open spec fn entries_map<K, V>(entries: Seq<(K, V)>) -> Map<K, V>
    decreases entries.len(),
{
    if entries.len() == 0 {
        Map::empty()
    } else {
        entries_map(entries.drop_last()).insert(entries.last().0, entries.last().1)
    }
}

/// Every key of the map has an entry in the list that gives its value.
pub proof fn lemma_entries_map_source<K, V>(entries: Seq<(K, V)>, k: K)
    requires
        entries_map(entries).contains_key(k),
    ensures
        exists|i: int|
            0 <= i < entries.len() && (#[trigger] entries[i]).0 == k && entries[i].1
                == entries_map(entries)[k],
    decreases entries.len(),
{
    if entries.len() > 0 {
        let last = entries.last();
        if last.0 == k {
            assert(entries[entries.len() - 1].0 == k);
        } else {
            lemma_entries_map_source(entries.drop_last(), k);
            let i = choose|i: int|
                0 <= i < entries.drop_last().len() && (#[trigger] entries.drop_last()[i]).0 == k
                    && entries.drop_last()[i].1 == entries_map(entries.drop_last())[k];
            assert(entries[i] == entries.drop_last()[i]);
        }
    }
}

/// The wallet entries as mathematical values.
pub open spec fn wallet_entries(list: Seq<(u32, MultiSigWallet)>) -> Seq<(u32, WalletView)> {
    list.map_values(|e: (u32, MultiSigWallet)| (e.0, e.1@))
}

/// The transaction entries as mathematical values.
pub open spec fn tx_entries(list: Seq<(u32, MultiSigTx)>) -> Seq<(u32, TxView)> {
    list.map_values(|e: (u32, MultiSigTx)| (e.0, e.1@))
}

/// The inbox entries as mathematical values.
pub open spec fn inbox_entries(list: Seq<(Principal, Vec<Message>)>) -> Seq<
    (Principal, Seq<MessageView>),
> {
    list.map_values(|e: (Principal, Vec<Message>)| (e.0, messages_view(e.1)))
}

impl Records {
    /// The records of a freshly deployed ledger: no admin, nothing on
    /// record.
    pub fn new() -> (r: Records)
        ensures
            r.ok(),
            r.state() == State::initial(),
    {
        let r = Records {
            admin: None,
            maintenance: false,
            crowdfund: 0,
            proposal_count: 0,
            escrow_count: 0,
            wallet_count: 0,
            tx_count: 0,
            trust: Vec::new(),
            balances: Vec::new(),
            bonds: Vec::new(),
            badges: Vec::new(),
            yes: Vec::new(),
            no: Vec::new(),
            voted: Vec::new(),
            disputed: Vec::new(),
            nicknames: Vec::new(),
            nickname_owner: Vec::new(),
            inbox: Vec::new(),
            escrows: Vec::new(),
            subscriptions: Vec::new(),
            wallets: Vec::new(),
            txs: Vec::new(),
            lottery: Vec::new(),
        };
        assert(r.state() =~= State::initial());
        r
    }

    /// The state that the records describe, with an empty event log.
    pub open spec fn state(&self) -> State {
        State {
            admin: self.admin,
            maintenance: self.maintenance,
            trust: entries_map(self.trust@),
            balances: entries_map(self.balances@),
            bonds: entries_map(self.bonds@),
            badges: self.badges@.to_set(),
            crowdfund: self.crowdfund,
            proposal_count: self.proposal_count,
            yes: entries_map(self.yes@),
            no: entries_map(self.no@),
            voted: self.voted@.to_set(),
            disputed: self.disputed@.to_set(),
            nicknames: entries_map(self.nicknames@),
            nickname_owner: entries_map(self.nickname_owner@),
            inbox: entries_map(inbox_entries(self.inbox@)),
            escrow_count: self.escrow_count,
            escrows: entries_map(self.escrows@),
            subscriptions: entries_map(self.subscriptions@),
            wallet_count: self.wallet_count,
            wallets: entries_map(wallet_entries(self.wallets@)),
            tx_count: self.tx_count,
            txs: entries_map(tx_entries(self.txs@)),
            lottery: self.lottery@,
            events: Seq::empty(),
        }
    }

    /// Whether the records are those of a ledger: every escrow, wallet and
    /// transaction under an id that its counter has given out, every
    /// wallet with distinct owners and a threshold they can reach, every
    /// transaction of a wallet on record and approved by distinct owners
    /// of it only, and a pot that fits its type.
    pub open spec fn ok(&self) -> bool {
        &&& forall|i: int|
            0 <= i < self.escrows@.len() ==> 1 <= (#[trigger] self.escrows@[i]).0
                <= self.escrow_count
        &&& forall|i: int|
            0 <= i < self.wallets@.len() ==> 1 <= (#[trigger] self.wallets@[i]).0
                <= self.wallet_count && State::wallet_ok(self.wallets@[i].1@)
        &&& forall|i: int|
            0 <= i < self.txs@.len() ==> 1 <= (#[trigger] self.txs@[i]).0 <= self.tx_count
                && self.state().tx_ok(self.txs@[i].1@)
        &&& self.lottery@.len() * TICKET_PRICE <= u32::MAX
    }
}

/// Builds the table of a list of entries.
fn table_of<K: Copy + Eq + Hash, V: Copy>(entries: &Vec<(K, V)>) -> (table: HashMap<K, V>)
    requires
        obeys_key_model::<K>(),
    ensures
        table@ == entries_map(entries@),
{
    let mut table: HashMap<K, V> = HashMap::new();
    let mut i: usize = 0;
    while i < entries.len()
        invariant
            obeys_key_model::<K>(),
            i <= entries.len(),
            table@ == entries_map(entries@.take(i as int)),
        decreases entries.len() - i,
    {
        let e = entries[i];
        proof {
            assert(entries@.take(i + 1).drop_last() =~= entries@.take(i as int));
        }
        table.insert(e.0, e.1);
        i += 1;
    }
    assert(entries@.take(entries.len() as int) =~= entries@);
    table
}

/// Builds the set of a list of principals.
fn set_of(list: &Vec<Principal>) -> (set: HashSet<Principal>)
    ensures
        set@ == list@.to_set(),
{
    let mut set: HashSet<Principal> = HashSet::new();
    let mut i: usize = 0;
    while i < list.len()
        invariant
            i <= list.len(),
            set@ == list@.take(i as int).to_set(),
        decreases list.len() - i,
    {
        set.insert(list[i]);
        proof {
            let before = list@.take(i as int);
            assert(list@.take(i + 1) =~= before.push(list@[i as int]));
            before.lemma_push_to_set_commute(list@[i as int]);
        }
        i += 1;
    }
    assert(list@.take(list.len() as int) =~= list@);
    set
}

/// Files the badges under their keys.
fn badge_keys(list: &Vec<(Principal, Symbol)>) -> (keys: HashSet<u128>)
    ensures
        forall|user: Principal, badge: Symbol|
            keys@.contains(#[trigger] pair_key(user as nat, badge.code as nat) as u128)
                <==> list@.contains((user, badge)),
{
    let mut keys: HashSet<u128> = HashSet::new();
    let mut i: usize = 0;
    while i < list.len()
        invariant
            i <= list.len(),
            forall|user: Principal, badge: Symbol|
                keys@.contains(#[trigger] pair_key(user as nat, badge.code as nat) as u128)
                    <==> list@.take(i as int).contains((user, badge)),
        decreases list.len() - i,
    {
        let e = list[i];
        let ghost before = keys@;
        keys.insert(make_pair_key(e.0, e.1.code));
        proof {
            let seen = list@.take(i as int);
            let next = list@.take(i + 1);
            assert(next =~= seen.push(e));
            assert forall|user: Principal, badge: Symbol|
                keys@.contains(#[trigger] pair_key(user as nat, badge.code as nat) as u128)
                    <==> next.contains((user, badge)) by {
                lemma_pair_key_injective(user, badge.code, e.0, e.1.code);
                if seen.contains((user, badge)) {
                    let j = choose|j: int| 0 <= j < seen.len() && seen[j] == (user, badge);
                    assert(next[j] == (user, badge));
                }
                if next.contains((user, badge)) {
                    let j = choose|j: int| 0 <= j < next.len() && next[j] == (user, badge);
                    if j < seen.len() {
                        assert(seen[j] == (user, badge));
                    }
                }
                if (user, badge) == e {
                    assert(next[i as int] == e);
                }
            }
        }
        i += 1;
    }
    assert(list@.take(list.len() as int) =~= list@);
    keys
}

/// Files the votes under their keys.
fn vote_keys(list: &Vec<(u32, Principal)>) -> (keys: HashSet<u128>)
    ensures
        forall|proposal_id: u32, user: Principal|
            keys@.contains(#[trigger] pair_key(proposal_id as nat, user as nat) as u128)
                <==> list@.contains((proposal_id, user)),
{
    let mut keys: HashSet<u128> = HashSet::new();
    let mut i: usize = 0;
    while i < list.len()
        invariant
            i <= list.len(),
            forall|proposal_id: u32, user: Principal|
                keys@.contains(#[trigger] pair_key(proposal_id as nat, user as nat) as u128)
                    <==> list@.take(i as int).contains((proposal_id, user)),
        decreases list.len() - i,
    {
        let e = list[i];
        keys.insert(make_pair_key(e.0 as u64, e.1));
        proof {
            let seen = list@.take(i as int);
            let next = list@.take(i + 1);
            assert(next =~= seen.push(e));
            assert forall|proposal_id: u32, user: Principal|
                keys@.contains(#[trigger] pair_key(proposal_id as nat, user as nat) as u128)
                    <==> next.contains((proposal_id, user)) by {
                lemma_pair_key_injective(proposal_id as u64, user, e.0 as u64, e.1);
                if seen.contains((proposal_id, user)) {
                    let j = choose|j: int| 0 <= j < seen.len() && seen[j] == (proposal_id, user);
                    assert(next[j] == (proposal_id, user));
                }
                if next.contains((proposal_id, user)) {
                    let j = choose|j: int| 0 <= j < next.len() && next[j] == (proposal_id, user);
                    if j < seen.len() {
                        assert(seen[j] == (proposal_id, user));
                    }
                }
                if (proposal_id, user) == e {
                    assert(next[i as int] == e);
                }
            }
        }
        i += 1;
    }
    assert(list@.take(list.len() as int) =~= list@);
    keys
}

/// Builds the directory from nickname to principal.
fn directory_of(list: &Vec<(Symbol, Principal)>) -> (table: HashMap<u64, Principal>)
    ensures
        forall|s: Symbol|
            table@.contains_key(s.code) <==> #[trigger] entries_map(list@).contains_key(s),
        forall|s: Symbol|
            entries_map(list@).contains_key(s) ==> table@[s.code] == #[trigger] entries_map(
                list@,
            )[s],
{
    let mut table: HashMap<u64, Principal> = HashMap::new();
    let mut i: usize = 0;
    while i < list.len()
        invariant
            i <= list.len(),
            forall|s: Symbol|
                table@.contains_key(s.code) <==> #[trigger] entries_map(
                    list@.take(i as int),
                ).contains_key(s),
            forall|s: Symbol|
                entries_map(list@.take(i as int)).contains_key(s) ==> table@[s.code]
                    == #[trigger] entries_map(list@.take(i as int))[s],
        decreases list.len() - i,
    {
        let e = list[i];
        let ghost before = table@;
        table.insert(e.0.code, e.1);
        proof {
            let seen = entries_map(list@.take(i as int));
            let next = entries_map(list@.take(i + 1));
            assert(list@.take(i + 1).drop_last() =~= list@.take(i as int));
            assert(next == seen.insert(e.0, e.1));
            assert forall|s: Symbol|
                table@.contains_key(s.code) <==> #[trigger] next.contains_key(s) by {
                assert(s.code == e.0.code <==> s == e.0);
                assert(before.contains_key(s.code) <==> seen.contains_key(s));
            }
            assert forall|s: Symbol| next.contains_key(s) implies table@[s.code]
                == #[trigger] next[s] by {
                assert(s.code == e.0.code <==> s == e.0);
                if s != e.0 {
                    assert(seen.contains_key(s));
                    assert(before[s.code] == seen[s]);
                }
            }
        }
        i += 1;
    }
    assert(list@.take(list.len() as int) =~= list@);
    table
}

/// Builds the inboxes.
fn inboxes_of(list: &Vec<(Principal, Vec<Message>)>) -> (table: HashMap<Principal, Vec<Message>>)
    ensures
        table@.map_values(|v: Vec<Message>| messages_view(v)) == entries_map(inbox_entries(list@)),
{
    let mut table: HashMap<Principal, Vec<Message>> = HashMap::new();
    let mut i: usize = 0;
    while i < list.len()
        invariant
            i <= list.len(),
            table@.map_values(|v: Vec<Message>| messages_view(v)) == entries_map(
                inbox_entries(list@.take(i as int)),
            ),
        decreases list.len() - i,
    {
        let e = &list[i];
        let ghost before = table@;
        let messages = copy_messages(&e.1);
        table.insert(e.0, messages);
        proof {
            let seen = inbox_entries(list@.take(i as int));
            let next = inbox_entries(list@.take(i + 1));
            assert(next.drop_last() =~= seen);
            assert(next.last() == (e.0, messages_view(e.1)));
            assert(table@.map_values(|v: Vec<Message>| messages_view(v)) =~= before.map_values(
                |v: Vec<Message>| messages_view(v),
            ).insert(e.0, messages_view(messages)));
        }
        i += 1;
    }
    assert(list@.take(list.len() as int) =~= list@);
    table
}

/// Builds the wallets.
fn wallets_of(list: &Vec<(u32, MultiSigWallet)>) -> (table: HashMap<u32, MultiSigWallet>)
    ensures
        table@.map_values(|w: MultiSigWallet| w@) == entries_map(wallet_entries(list@)),
{
    let mut table: HashMap<u32, MultiSigWallet> = HashMap::new();
    let mut i: usize = 0;
    while i < list.len()
        invariant
            i <= list.len(),
            table@.map_values(|w: MultiSigWallet| w@) == entries_map(
                wallet_entries(list@.take(i as int)),
            ),
        decreases list.len() - i,
    {
        let e = &list[i];
        let ghost before = table@;
        let w = MultiSigWallet {
            owners: copy_principals(&e.1.owners),
            threshold: e.1.threshold,
            balance: e.1.balance,
        };
        table.insert(e.0, w);
        proof {
            let seen = wallet_entries(list@.take(i as int));
            let next = wallet_entries(list@.take(i + 1));
            assert(next.drop_last() =~= seen);
            assert(next.last() == (e.0, e.1@));
            assert(table@.map_values(|w: MultiSigWallet| w@) =~= before.map_values(
                |w: MultiSigWallet| w@,
            ).insert(e.0, e.1@));
        }
        i += 1;
    }
    assert(list@.take(list.len() as int) =~= list@);
    table
}

/// Builds the wallet transactions.
fn txs_of(list: &Vec<(u32, MultiSigTx)>) -> (table: HashMap<u32, MultiSigTx>)
    ensures
        table@.map_values(|t: MultiSigTx| t@) == entries_map(tx_entries(list@)),
{
    let mut table: HashMap<u32, MultiSigTx> = HashMap::new();
    let mut i: usize = 0;
    while i < list.len()
        invariant
            i <= list.len(),
            table@.map_values(|t: MultiSigTx| t@) == entries_map(tx_entries(list@.take(i as int))),
        decreases list.len() - i,
    {
        let e = &list[i];
        let ghost before = table@;
        let t = MultiSigTx {
            wallet_id: e.1.wallet_id,
            to: e.1.to,
            amount: e.1.amount,
            approvals: copy_principals(&e.1.approvals),
            executed: e.1.executed,
        };
        table.insert(e.0, t);
        proof {
            let seen = tx_entries(list@.take(i as int));
            let next = tx_entries(list@.take(i + 1));
            assert(next.drop_last() =~= seen);
            assert(next.last() == (e.0, e.1@));
            assert(table@.map_values(|t: MultiSigTx| t@) =~= before.map_values(
                |t: MultiSigTx| t@,
            ).insert(e.0, e.1@));
        }
        i += 1;
    }
    assert(list@.take(list.len() as int) =~= list@);
    table
}

/// Whether every escrow is filed under an id that has been given out.
fn escrows_in_range(list: &Vec<(u32, Escrow)>, count: u32) -> (ok: bool)
    ensures
        ok == (forall|i: int| 0 <= i < list@.len() ==> 1 <= (#[trigger] list@[i]).0 <= count),
{
    let mut i: usize = 0;
    while i < list.len()
        invariant
            i <= list.len(),
            forall|j: int| 0 <= j < i ==> 1 <= (#[trigger] list@[j]).0 <= count,
        decreases list.len() - i,
    {
        let id: u32 = list[i].0;
        if id < 1 || id > count {
            return false;
        }
        i += 1;
    }
    true
}

/// Whether every wallet is filed under an id that has been given out, has
/// distinct owners and a threshold that they can reach.
fn wallets_in_order(list: &Vec<(u32, MultiSigWallet)>, count: u32) -> (ok: bool)
    ensures
        ok == (forall|i: int|
            0 <= i < list@.len() ==> 1 <= (#[trigger] list@[i]).0 <= count && State::wallet_ok(
                list@[i].1@,
            )),
{
    let mut i: usize = 0;
    while i < list.len()
        invariant
            i <= list.len(),
            forall|j: int|
                0 <= j < i ==> 1 <= (#[trigger] list@[j]).0 <= count && State::wallet_ok(
                    list@[j].1@,
                ),
        decreases list.len() - i,
    {
        let e = &list[i];
        if e.0 < 1 || e.0 > count {
            return false;
        }
        if e.1.threshold < 1 || e.1.threshold as usize > e.1.owners.len() {
            return false;
        }
        if !all_distinct(&e.1.owners) {
            return false;
        }
        i += 1;
    }
    true
}

/// Whether every principal of `approvals` is one of `owners`.
fn all_owners(approvals: &Vec<Principal>, owners: &Vec<Principal>) -> (ok: bool)
    ensures
        ok == (forall|i: int|
            0 <= i < approvals@.len() ==> owners@.contains(#[trigger] approvals@[i])),
{
    let mut i: usize = 0;
    while i < approvals.len()
        invariant
            i <= approvals.len(),
            forall|j: int| 0 <= j < i ==> owners@.contains(#[trigger] approvals@[j]),
        decreases approvals.len() - i,
    {
        if !has_principal(owners, approvals[i]) {
            return false;
        }
        i += 1;
    }
    true
}

/// Whether every transaction is filed under an id that has been given
/// out, belongs to one of `wallets` and is approved by distinct owners of
/// it only.
fn txs_in_order(
    list: &Vec<(u32, MultiSigTx)>,
    count: u32,
    wallets: &HashMap<u32, MultiSigWallet>,
) -> (ok: bool)
    ensures
        ok == (forall|i: int|
            0 <= i < list@.len() ==> 1 <= (#[trigger] list@[i]).0 <= count && tx_fits(
                wallets@.map_values(|w: MultiSigWallet| w@),
                list@[i].1@,
            )),
{
    let mut i: usize = 0;
    while i < list.len()
        invariant
            i <= list.len(),
            forall|j: int|
                0 <= j < i ==> 1 <= (#[trigger] list@[j]).0 <= count && tx_fits(
                    wallets@.map_values(|w: MultiSigWallet| w@),
                    list@[j].1@,
                ),
        decreases list.len() - i,
    {
        let e = &list[i];
        if e.0 < 1 || e.0 > count {
            return false;
        }
        match wallets.get(&e.1.wallet_id) {
            Some(w) => {
                if !all_distinct(&e.1.approvals) {
                    return false;
                }
                if !all_owners(&e.1.approvals, &w.owners) {
                    return false;
                }
            },
            None => {
                return false;
            },
        }
        i += 1;
    }
    true
}

impl TrustContract {
    /// The ledger that the records describe, with an empty event log, or
    /// `InvalidArgument` where the records are not those of a ledger.
    pub fn restore(records: &Records) -> (r: Result<TrustContract, Error>)
        ensures
            r is Ok <==> records.ok(),
            r matches Ok(c) ==> c.wf() && c@ == records.state(),
            r matches Err(e) ==> e == Error::InvalidArgument,
    {
        if records.lottery.len() > (u32::MAX / TICKET_PRICE) as usize {
            return Err(Error::InvalidArgument);
        }
        if !escrows_in_range(&records.escrows, records.escrow_count) {
            return Err(Error::InvalidArgument);
        }
        if !wallets_in_order(&records.wallets, records.wallet_count) {
            return Err(Error::InvalidArgument);
        }
        let wallets = wallets_of(&records.wallets);
        if !txs_in_order(&records.txs, records.tx_count, &wallets) {
            return Err(Error::InvalidArgument);
        }
        let c = TrustContract {
            admin: records.admin,
            maintenance: records.maintenance,
            trust: table_of(&records.trust),
            balances: table_of(&records.balances),
            bonds: table_of(&records.bonds),
            badges: badge_keys(&records.badges),
            crowdfund: records.crowdfund,
            proposal_count: records.proposal_count,
            yes: table_of(&records.yes),
            no: table_of(&records.no),
            voted: vote_keys(&records.voted),
            disputed: set_of(&records.disputed),
            nicknames: table_of(&records.nicknames),
            nickname_owner: directory_of(&records.nickname_owner),
            inbox: inboxes_of(&records.inbox),
            escrow_count: records.escrow_count,
            escrows: table_of(&records.escrows),
            subscriptions: table_of(&records.subscriptions),
            wallet_count: records.wallet_count,
            wallets,
            tx_count: records.tx_count,
            txs: txs_of(&records.txs),
            lottery: copy_principals(&records.lottery),
            events: Vec::new(),
        };
        proof {
            let s = records.state();
            assert(c@.badges =~= s.badges);
            assert(c@.voted =~= s.voted);
            assert(c@.nickname_owner =~= s.nickname_owner);
            assert(c@ =~= s);
            assert forall|id: u32| #[trigger] s.escrows.contains_key(id) implies 1 <= id
                <= s.escrow_count by {
                lemma_entries_map_source(records.escrows@, id);
            }
            assert forall|id: u32| #[trigger] s.wallets.contains_key(id) implies 1 <= id
                <= s.wallet_count && State::wallet_ok(s.wallets[id]) by {
                lemma_entries_map_source(wallet_entries(records.wallets@), id);
                let i = choose|i: int|
                    0 <= i < wallet_entries(records.wallets@).len() && (#[trigger] wallet_entries(
                        records.wallets@,
                    )[i]).0 == id && wallet_entries(records.wallets@)[i].1 == s.wallets[id];
                assert(records.wallets@[i].0 == id);
            }
            assert forall|id: u32| #[trigger] s.txs.contains_key(id) implies 1 <= id <= s.tx_count
                && s.tx_ok(s.txs[id]) by {
                lemma_entries_map_source(tx_entries(records.txs@), id);
                let i = choose|i: int|
                    0 <= i < tx_entries(records.txs@).len() && (#[trigger] tx_entries(
                        records.txs@,
                    )[i]).0 == id && tx_entries(records.txs@)[i].1 == s.txs[id];
                assert(records.txs@[i].0 == id);
            }
            assert(c@.wallets.dom() =~= c.wallets@.dom());
        }
        Ok(c)
    }
}

} // verus!
