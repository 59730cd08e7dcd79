//! Threshold wallets: a pooled balance that pays out once enough of its
//! owners have approved a transaction.

use vstd::prelude::*;
use crate::contract::TrustContract;
use crate::machine::{step, Call};
use crate::state::{outcome, State};
use crate::types::{
    copy_principals, has_principal, Auth, Error, Event, MultiSigTx, MultiSigWallet, Principal,
    TxView, WalletView,
};

verus! {

/// The entries of `list` without repetitions, each where it first occurs.
pub open spec fn distinct(list: Seq<Principal>) -> Seq<Principal>
    decreases list.len(),
{
    if list.len() == 0 {
        Seq::empty()
    } else {
        let head = distinct(list.drop_last());
        if head.contains(list.last()) {
            head
        } else {
            head.push(list.last())
        }
    }
}

/// `distinct` keeps exactly the principals of the list, each once.
pub proof fn lemma_distinct(list: Seq<Principal>)
    ensures
        distinct(list).no_duplicates(),
        distinct(list).len() <= list.len(),
        forall|p: Principal| distinct(list).contains(p) <==> list.contains(p),
    decreases list.len(),
{
    if list.len() > 0 {
        let front = list.drop_last();
        let head = distinct(front);
        lemma_distinct(front);
        assert forall|p: Principal| distinct(list).contains(p) <==> list.contains(p) by {
            if list.contains(p) {
                let i = choose|i: int| 0 <= i < list.len() && list[i] == p;
                if i < front.len() {
                    assert(front[i] == p);
                    assert(front.contains(p));
                    assert(head.contains(p));
                    if !head.contains(list.last()) {
                        let j = choose|j: int| 0 <= j < head.len() && head[j] == p;
                        assert(head.push(list.last())[j] == p);
                    }
                } else {
                    assert(p == list.last());
                    if !head.contains(list.last()) {
                        assert(head.push(list.last())[head.len() as int] == p);
                    }
                }
            }
            if distinct(list).contains(p) {
                let j = choose|j: int| 0 <= j < distinct(list).len() && distinct(list)[j] == p;
                if j < head.len() {
                    assert(head[j] == p);
                    assert(front.contains(p));
                    let i = choose|i: int| 0 <= i < front.len() && front[i] == p;
                    assert(list[i] == p);
                } else {
                    assert(list[list.len() - 1] == p);
                }
            }
        }
    }
}

/// The approvals of `t` once `user` has approved: a set, so a second
/// approval by the same owner adds nothing.
pub open spec fn approvals_after(t: TxView, user: Principal) -> Seq<Principal> {
    if t.approvals.contains(user) {
        t.approvals
    } else {
        t.approvals.push(user)
    }
}

/// The id of the new wallet, or why none is made.
pub open spec fn create_wallet_result(
    s: State,
    signers: Set<Principal>,
    creator: Principal,
    owners: Seq<Principal>,
    threshold: u32,
) -> Result<u32, Error> {
    if s.maintenance {
        Err(Error::MaintenanceActive)
    } else if !signers.contains(creator) {
        Err(Error::Unauthorized)
    } else if threshold < 1 || threshold > distinct(owners).len() {
        Err(Error::InvalidArgument)
    } else if s.wallet_count == u32::MAX {
        Err(Error::Overflow)
    } else {
        Ok((s.wallet_count + 1) as u32)
    }
}

/// The state once the wallet is made: the next id, the owners as a set, an
/// empty balance.
pub open spec fn create_wallet_effect(s: State, owners: Seq<Principal>, threshold: u32) -> State {
    let id = (s.wallet_count + 1) as u32;
    State {
        wallet_count: id,
        wallets: s.wallets.insert(
            id,
            WalletView { owners: distinct(owners), threshold, balance: 0 },
        ),
        ..s
    }
}

/// Whether a deposit goes through, and why not.
pub open spec fn deposit_wallet_result(
    s: State,
    signers: Set<Principal>,
    user: Principal,
    wallet_id: u32,
    amount: u32,
) -> Result<(), Error> {
    if s.maintenance {
        Err(Error::MaintenanceActive)
    } else if !signers.contains(user) {
        Err(Error::Unauthorized)
    } else if s.balance_of(user) < amount {
        Err(Error::InsufficientBalance)
    } else if !s.wallets.contains_key(wallet_id) {
        Err(Error::NotFound)
    } else if s.wallets[wallet_id].balance + amount > u32::MAX {
        Err(Error::Overflow)
    } else {
        Ok(())
    }
}

/// The state after a deposit: the tokens move from the depositor's balance
/// into the wallet.
pub open spec fn deposit_wallet_effect(
    s: State,
    user: Principal,
    wallet_id: u32,
    amount: u32,
) -> State {
    let w = s.wallets[wallet_id];
    State {
        wallets: s.wallets.insert(
            wallet_id,
            WalletView { balance: (w.balance + amount) as u32, ..w },
        ),
        ..s.debit(user, amount as nat)
    }
}

/// Whether an approval goes through, and why not. The threshold is tested
/// on every approval, against the wallet's balance of that moment.
pub open spec fn approve_tx_result(
    s: State,
    signers: Set<Principal>,
    user: Principal,
    tx_id: u32,
) -> Result<(), Error> {
    if s.maintenance {
        Err(Error::MaintenanceActive)
    } else if !signers.contains(user) {
        Err(Error::Unauthorized)
    } else if !s.txs.contains_key(tx_id) {
        Err(Error::NotFound)
    } else if s.txs[tx_id].executed {
        Err(Error::AlreadyExecuted)
    } else if !s.wallets.contains_key(s.txs[tx_id].wallet_id) {
        Err(Error::NotFound)
    } else if !s.wallets[s.txs[tx_id].wallet_id].owners.contains(user) {
        Err(Error::Unauthorized)
    } else if !approval_executes(s, user, tx_id) {
        Ok(())
    } else if s.wallets[s.txs[tx_id].wallet_id].balance < s.txs[tx_id].amount {
        Err(Error::InsufficientBalance)
    } else if s.balance_of(s.txs[tx_id].to) + s.txs[tx_id].amount > u32::MAX {
        Err(Error::Overflow)
    } else {
        Ok(())
    }
}

/// Whether the approval of `user` carries transaction `tx_id` out.
pub open spec fn approval_executes(s: State, user: Principal, tx_id: u32) -> bool {
    approvals_after(s.txs[tx_id], user).len() >= s.wallets[s.txs[tx_id].wallet_id].threshold
}

/// The state after an approval that went through: the approval is on
/// record, and where the threshold is met the wallet has paid.
pub open spec fn approve_tx_effect(s: State, user: Principal, tx_id: u32) -> State {
    let t = s.txs[tx_id];
    let w = s.wallets[t.wallet_id];
    let approvals = approvals_after(t, user);
    if approval_executes(s, user, tx_id) {
        State {
            wallets: s.wallets.insert(
                t.wallet_id,
                WalletView { balance: (w.balance - t.amount) as u32, ..w },
            ),
            txs: s.txs.insert(tx_id, TxView { approvals, executed: true, ..t }),
            ..s.credit(t.to, t.amount as nat)
        }.emit(Event::WalletPaid { wallet_id: t.wallet_id, amount: t.amount })
    } else {
        State { txs: s.txs.insert(tx_id, TxView { approvals, ..t }), ..s }
    }
}

/// The state once a proposal is on record with its proposer's approval,
/// before the threshold is looked at.
pub open spec fn propose_tx_filed(
    s: State,
    user: Principal,
    wallet_id: u32,
    to: Principal,
    amount: u32,
) -> State {
    let id = (s.tx_count + 1) as u32;
    State {
        tx_count: id,
        txs: s.txs.insert(
            id,
            TxView { wallet_id, to, amount, approvals: seq![user], executed: false },
        ),
        ..s
    }
}

/// The id of the new transaction, or why none is made. On a wallet with
/// threshold 1 the proposal is also the deciding approval, and fails where
/// that approval would.
pub open spec fn propose_tx_result(
    s: State,
    signers: Set<Principal>,
    user: Principal,
    wallet_id: u32,
    to: Principal,
    amount: u32,
) -> Result<u32, Error> {
    let id = (s.tx_count + 1) as u32;
    if s.maintenance {
        Err(Error::MaintenanceActive)
    } else if !signers.contains(user) {
        Err(Error::Unauthorized)
    } else if !s.wallets.contains_key(wallet_id) {
        Err(Error::NotFound)
    } else if !s.wallets[wallet_id].owners.contains(user) {
        Err(Error::Unauthorized)
    } else if s.tx_count == u32::MAX {
        Err(Error::Overflow)
    } else if s.wallets[wallet_id].threshold == 1 {
        let filed = propose_tx_filed(s, user, wallet_id, to, amount);
        match approve_tx_result(filed, signers, user, id) {
            Ok(_) => Ok(id),
            Err(e) => Err(e),
        }
    } else {
        Ok(id)
    }
}

/// The state after a proposal that went through.
pub open spec fn propose_tx_effect(
    s: State,
    user: Principal,
    wallet_id: u32,
    to: Principal,
    amount: u32,
) -> State {
    let filed = propose_tx_filed(s, user, wallet_id, to, amount);
    if s.wallets[wallet_id].threshold == 1 {
        approve_tx_effect(filed, user, (s.tx_count + 1) as u32)
    } else {
        filed
    }
}

/// Making a wallet keeps the ledger's invariant.
pub proof fn lemma_create_wallet_wf(
    s: State,
    signers: Set<Principal>,
    creator: Principal,
    owners: Seq<Principal>,
    threshold: u32,
)
    requires
        s.wf(),
        create_wallet_result(s, signers, creator, owners, threshold) is Ok,
    ensures
        create_wallet_effect(s, owners, threshold).wf(),
{
    lemma_distinct(owners);
    let after = create_wallet_effect(s, owners, threshold);
    assert forall|id: u32| #[trigger] after.txs.contains_key(id) implies 1 <= id <= after.tx_count
        && after.tx_ok(after.txs[id]) by {
        assert(s.tx_ok(s.txs[id]));
    }
}

/// A deposit keeps the ledger's invariant.
pub proof fn lemma_deposit_wallet_wf(
    s: State,
    signers: Set<Principal>,
    user: Principal,
    wallet_id: u32,
    amount: u32,
)
    requires
        s.wf(),
        deposit_wallet_result(s, signers, user, wallet_id, amount) is Ok,
    ensures
        deposit_wallet_effect(s, user, wallet_id, amount).wf(),
{
    let after = deposit_wallet_effect(s, user, wallet_id, amount);
    assert forall|id: u32| #[trigger] after.txs.contains_key(id) implies 1 <= id <= after.tx_count
        && after.tx_ok(after.txs[id]) by {
        assert(s.tx_ok(s.txs[id]));
    }
}

/// Filing a proposal keeps the ledger's invariant.
pub proof fn lemma_propose_tx_filed_wf(
    s: State,
    user: Principal,
    wallet_id: u32,
    to: Principal,
    amount: u32,
)
    requires
        s.wf(),
        s.wallets.contains_key(wallet_id),
        s.wallets[wallet_id].owners.contains(user),
        s.tx_count < u32::MAX,
    ensures
        propose_tx_filed(s, user, wallet_id, to, amount).wf(),
{
    let after = propose_tx_filed(s, user, wallet_id, to, amount);
    assert forall|id: u32| #[trigger] after.txs.contains_key(id) implies 1 <= id <= after.tx_count
        && after.tx_ok(after.txs[id]) by {
        if id != after.tx_count {
            assert(s.txs.contains_key(id));
            assert(s.tx_ok(s.txs[id]));
        }
    }
}

/// An approval keeps the ledger's invariant.
pub proof fn lemma_approve_tx_wf(s: State, signers: Set<Principal>, user: Principal, tx_id: u32)
    requires
        s.wf(),
        approve_tx_result(s, signers, user, tx_id) is Ok,
    ensures
        approve_tx_effect(s, user, tx_id).wf(),
{
    let after = approve_tx_effect(s, user, tx_id);
    let t = s.txs[tx_id];
    let approvals = approvals_after(t, user);
    assert(s.tx_ok(t));
    assert forall|id: u32| #[trigger] after.txs.contains_key(id) implies 1 <= id <= after.tx_count
        && after.tx_ok(after.txs[id]) by {
        assert(s.txs.contains_key(id));
        assert(s.tx_ok(s.txs[id]));
        if id == tx_id {
            assert(after.txs[id].approvals == approvals);
            let owners = s.wallets[t.wallet_id].owners;
            assert forall|i: int| 0 <= i < approvals.len() implies owners.contains(
                #[trigger] approvals[i],
            ) by {
                if i < t.approvals.len() {
                    assert(approvals[i] == t.approvals[i]);
                }
            }
        }
    }
}

/// A principal list without repetitions, in the order of first occurrence.
fn distinct_principals(list: &Vec<Principal>) -> (kept: Vec<Principal>)
    ensures
        kept@ == distinct(list@),
{
    let mut kept: Vec<Principal> = Vec::new();
    let mut i: usize = 0;
    while i < list.len()
        invariant
            i <= list.len(),
            kept@ == distinct(list@.take(i as int)),
        decreases list.len() - i,
    {
        let p = list[i];
        proof {
            let next = list@.take(i + 1);
            assert(next.drop_last() =~= list@.take(i as int));
            assert(next.last() == p);
        }
        if !has_principal(&kept, p) {
            kept.push(p);
        }
        i += 1;
    }
    assert(list@.take(list.len() as int) =~= list@);
    kept
}

impl TrustContract {
    /// Makes a wallet owned by `owners`, which pays out once `threshold` of
    /// them approve, and returns its id. Ids count up from 1.
    ///
    /// Owners are a set: a principal named twice counts once. Refused while
    /// maintenance is on, without the consent of `creator`, with
    /// `InvalidArgument` unless `1 <= threshold <=` the number of distinct
    /// owners, and when the ids are used up, in this order. The creator
    /// need not be an owner.
    pub fn create_wallet(
        &mut self,
        auth: &Auth,
        creator: Principal,
        owners: Vec<Principal>,
        threshold: u32,
    ) -> (r: Result<u32, Error>)
        requires
            old(self).wf(),
        ensures
            final(self).wf(),
            r == create_wallet_result(old(self)@, auth@, creator, owners@, threshold),
            final(self)@ == outcome(
                r,
                old(self)@,
                create_wallet_effect(old(self)@, owners@, threshold),
            ),
            final(self)@ == step(
                old(self)@,
                Call::CreateWallet { signers: auth@, creator, owners: owners@, threshold },
            ),
    {
        if self.maintenance {
            return Err(Error::MaintenanceActive);
        }
        if !auth.authorizes(creator) {
            return Err(Error::Unauthorized);
        }
        let members = distinct_principals(&owners);
        if threshold < 1 || threshold as usize > members.len() {
            return Err(Error::InvalidArgument);
        }
        if self.wallet_count == u32::MAX {
            return Err(Error::Overflow);
        }
        let id: u32 = self.wallet_count + 1;
        self.wallet_count = id;
        self.wallets.insert(id, MultiSigWallet { owners: members, threshold, balance: 0 });
        proof {
            assert(self@ =~= create_wallet_effect(old(self)@, owners@, threshold));
            lemma_create_wallet_wf(old(self)@, auth@, creator, owners@, threshold);
        }
        Ok(id)
    }

    /// Moves `amount` tokens of `user` into wallet `wallet_id`.
    ///
    /// Refused while maintenance is on, without the consent of `user`, when
    /// `user` holds less than `amount`, when there is no such wallet, and
    /// when the wallet's balance would leave its range, in this order.
    pub fn deposit_wallet(
        &mut self,
        auth: &Auth,
        user: Principal,
        wallet_id: u32,
        amount: u32,
    ) -> (r: Result<(), Error>)
        requires
            old(self).wf(),
        ensures
            final(self).wf(),
            r == deposit_wallet_result(old(self)@, auth@, user, wallet_id, amount),
            final(self)@ == outcome(
                r,
                old(self)@,
                deposit_wallet_effect(old(self)@, user, wallet_id, amount),
            ),
            final(self)@ == step(
                old(self)@,
                Call::DepositWallet { signers: auth@, user, wallet_id, amount },
            ),
    {
        if self.maintenance {
            return Err(Error::MaintenanceActive);
        }
        if !auth.authorizes(user) {
            return Err(Error::Unauthorized);
        }
        if self.balance(user) < amount {
            return Err(Error::InsufficientBalance);
        }
        let held: u32 = match self.wallets.get(&wallet_id) {
            Some(w) => w.balance,
            None => { return Err(Error::NotFound); },
        };
        if held > u32::MAX - amount {
            return Err(Error::Overflow);
        }
        self.debit(user, amount);
        self.set_wallet_balance(wallet_id, held + amount);
        proof {
            assert(self@ =~= deposit_wallet_effect(old(self)@, user, wallet_id, amount));
            lemma_deposit_wallet_wf(old(self)@, auth@, user, wallet_id, amount);
        }
        Ok(())
    }

    /// Writes the balance of an existing wallet.
    fn set_wallet_balance(&mut self, wallet_id: u32, balance: u32)
        requires
            old(self)@.wallets.contains_key(wallet_id),
        ensures
            final(self)@ == (State {
                wallets: old(self)@.wallets.insert(
                    wallet_id,
                    WalletView { balance, ..old(self)@.wallets[wallet_id] },
                ),
                ..old(self)@
            }),
    {
        let taken = self.wallets.remove(&wallet_id);
        match taken {
            Some(w) => {
                let mut w = w;
                w.balance = balance;
                self.wallets.insert(wallet_id, w);
            },
            None => {},
        }
        assert(self@ =~= (State {
            wallets: old(self)@.wallets.insert(
                wallet_id,
                WalletView { balance, ..old(self)@.wallets[wallet_id] },
            ),
            ..old(self)@
        }));
    }

    /// Writes the approvals and the executed flag of an existing
    /// transaction, adding `user` to the approvals unless already there.
    fn record_approval(&mut self, tx_id: u32, user: Principal, executed: bool)
        requires
            old(self)@.txs.contains_key(tx_id),
        ensures
            final(self)@ == (State {
                txs: old(self)@.txs.insert(
                    tx_id,
                    TxView {
                        approvals: approvals_after(old(self)@.txs[tx_id], user),
                        executed,
                        ..old(self)@.txs[tx_id]
                    },
                ),
                ..old(self)@
            }),
    {
        let taken = self.txs.remove(&tx_id);
        match taken {
            Some(t) => {
                let mut t = t;
                if !has_principal(&t.approvals, user) {
                    t.approvals.push(user);
                }
                t.executed = executed;
                self.txs.insert(tx_id, t);
            },
            None => {},
        }
        assert(self@ =~= (State {
            txs: old(self)@.txs.insert(
                tx_id,
                TxView {
                    approvals: approvals_after(old(self)@.txs[tx_id], user),
                    executed,
                    ..old(self)@.txs[tx_id]
                },
            ),
            ..old(self)@
        }));
    }

    /// Records the approval of `user` for transaction `tx_id` and, where
    /// the approvals now reach the wallet's threshold, pays the amount out
    /// of the wallet to the recipient and marks the transaction executed.
    ///
    /// Refused while maintenance is on, without the consent of `user`, with
    /// `NotFound` when there is no such transaction, with `AlreadyExecuted`
    /// when it has been carried out, with `Unauthorized` when `user` is not
    /// an owner of its wallet, and, where the threshold is met, with
    /// `InsufficientBalance` when the wallet holds less than the amount and
    /// with `Overflow` when the recipient's balance would leave its range;
    /// in this order. A refused approval is not recorded. A repeated
    /// approval by the same owner adds nothing, but the threshold is tested
    /// again.
    pub fn approve_tx(&mut self, auth: &Auth, user: Principal, tx_id: u32) -> (r: Result<(), Error>)
        requires
            old(self).wf(),
        ensures
            final(self).wf(),
            r == approve_tx_result(old(self)@, auth@, user, tx_id),
            final(self)@ == outcome(r, old(self)@, approve_tx_effect(old(self)@, user, tx_id)),
            final(self)@ == step(old(self)@, Call::ApproveTx { signers: auth@, user, tx_id }),
    {
        if self.maintenance {
            return Err(Error::MaintenanceActive);
        }
        if !auth.authorizes(user) {
            return Err(Error::Unauthorized);
        }
        let (wallet_id, to, amount, executed, approved, count) = match self.txs.get(&tx_id) {
            Some(t) => (
                t.wallet_id,
                t.to,
                t.amount,
                t.executed,
                has_principal(&t.approvals, user),
                t.approvals.len(),
            ),
            None => { return Err(Error::NotFound); },
        };
        if executed {
            return Err(Error::AlreadyExecuted);
        }
        let (is_owner, threshold, held) = match self.wallets.get(&wallet_id) {
            Some(w) => (has_principal(&w.owners, user), w.threshold, w.balance),
            None => { return Err(Error::NotFound); },
        };
        if !is_owner {
            return Err(Error::Unauthorized);
        }
        proof {
            assert(old(self)@.tx_ok(old(self)@.txs[tx_id]));
            assert(old(self)@.txs[tx_id].approvals.len() <= usize::MAX);
        }
        let reached: bool = if approved {
            count >= threshold as usize
        } else {
            count >= threshold as usize - 1
        };
        if !reached {
            self.record_approval(tx_id, user, false);
            proof {
                assert(self@ =~= approve_tx_effect(old(self)@, user, tx_id));
                lemma_approve_tx_wf(old(self)@, auth@, user, tx_id);
            }
            return Ok(());
        }
        if held < amount {
            return Err(Error::InsufficientBalance);
        }
        if self.balance(to) > u32::MAX - amount {
            return Err(Error::Overflow);
        }
        self.set_wallet_balance(wallet_id, held - amount);
        self.credit(to, amount);
        self.record_approval(tx_id, user, true);
        self.log(Event::WalletPaid { wallet_id, amount });
        proof {
            assert(self@ =~= approve_tx_effect(old(self)@, user, tx_id));
            lemma_approve_tx_wf(old(self)@, auth@, user, tx_id);
        }
        Ok(())
    }

    /// Files a payout of `amount` from wallet `wallet_id` to `to`, with the
    /// approval of its proposer `user`, and returns the transaction's id.
    /// Ids count up from 1. On a wallet with threshold 1 the payout is
    /// carried out at once, as `approve_tx` would.
    ///
    /// Refused while maintenance is on, without the consent of `user`, with
    /// `NotFound` when there is no such wallet, with `Unauthorized` when
    /// `user` is not one of its owners, with `Overflow` when the ids are
    /// used up, and, on a wallet with threshold 1, where the approval is
    /// refused; in this order. A refused proposal is not filed.
    pub fn propose_tx(
        &mut self,
        auth: &Auth,
        user: Principal,
        wallet_id: u32,
        to: Principal,
        amount: u32,
    ) -> (r: Result<u32, Error>)
        requires
            old(self).wf(),
        ensures
            final(self).wf(),
            r == propose_tx_result(old(self)@, auth@, user, wallet_id, to, amount),
            final(self)@ == outcome(
                r,
                old(self)@,
                propose_tx_effect(old(self)@, user, wallet_id, to, amount),
            ),
            final(self)@ == step(
                old(self)@,
                Call::ProposeTx { signers: auth@, user, wallet_id, to, amount },
            ),
    {
        if self.maintenance {
            return Err(Error::MaintenanceActive);
        }
        if !auth.authorizes(user) {
            return Err(Error::Unauthorized);
        }
        let (is_owner, threshold) = match self.wallets.get(&wallet_id) {
            Some(w) => (has_principal(&w.owners, user), w.threshold),
            None => { return Err(Error::NotFound); },
        };
        if !is_owner {
            return Err(Error::Unauthorized);
        }
        if self.tx_count == u32::MAX {
            return Err(Error::Overflow);
        }
        let id: u32 = self.tx_count + 1;
        let mut approvals: Vec<Principal> = Vec::new();
        approvals.push(user);
        self.tx_count = id;
        self.txs.insert(id, MultiSigTx { wallet_id, to, amount, approvals, executed: false });
        proof {
            assert(approvals@ =~= seq![user]);
            assert(self@ =~= propose_tx_filed(old(self)@, user, wallet_id, to, amount));
            lemma_propose_tx_filed_wf(old(self)@, user, wallet_id, to, amount);
        }
        if threshold == 1 {
            match self.approve_tx(auth, user, id) {
                Ok(_) => {},
                Err(e) => {
                    let ghost filed = self@;
                    self.txs.remove(&id);
                    self.tx_count = id - 1;
                    proof {
                        assert(!old(self)@.txs.contains_key(id));
                        assert(self@.txs =~= filed.txs.remove(id));
                        assert(self@ =~= old(self)@);
                    }
                    return Err(e);
                },
            }
        }
        Ok(id)
    }

    /// The wallet with id `wallet_id`, if there is one.
    pub fn get_wallet(&self, wallet_id: u32) -> (r: Option<MultiSigWallet>)
        ensures
            r is Some <==> self@.wallets.contains_key(wallet_id),
            r matches Some(w) ==> w@ == self@.wallets[wallet_id],
    {
        match self.wallets.get(&wallet_id) {
            Some(w) => Some(
                MultiSigWallet {
                    owners: copy_principals(&w.owners),
                    threshold: w.threshold,
                    balance: w.balance,
                },
            ),
            None => None,
        }
    }

    /// The transaction with id `tx_id`, if there is one.
    pub fn get_tx(&self, tx_id: u32) -> (r: Option<MultiSigTx>)
        ensures
            r is Some <==> self@.txs.contains_key(tx_id),
            r matches Some(t) ==> t@ == self@.txs[tx_id],
    {
        match self.txs.get(&tx_id) {
            Some(t) => Some(
                MultiSigTx {
                    wallet_id: t.wallet_id,
                    to: t.to,
                    amount: t.amount,
                    approvals: copy_principals(&t.approvals),
                    executed: t.executed,
                },
            ),
            None => None,
        }
    }
}

} // verus!
