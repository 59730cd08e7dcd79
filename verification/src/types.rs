//! The plain values that calls take and return: principals, errors, the
//! records of the engines, events and the authorization of a call.

use vstd::prelude::*;
use crate::symbol::Symbol;

verus! {

/// An account, named by the opaque identifier that access control issued.
pub type Principal = u64;

/// Seconds in one day of the logical clock.
pub const DAY_IN_SECONDS: u64 = 86400;

/// How long a subscription runs, and how long a bond stays locked.
pub const PERIOD: u64 = 30 * DAY_IN_SECONDS;

/// What the voucher is paid for a vouch.
pub const VOUCH_REWARD: u32 = 5;

/// What a vouch costs the voucher in trust, and gives the target.
pub const VOUCH_SHIFT: u32 = 2;

/// The score above which a vouch no longer lifts its target.
pub const VOUCH_CEILING: u32 = 100;

/// The trust that a bond is worth.
pub const BOND_TRUST: u32 = 10;

/// What a referrer is paid when the referred account bonds.
pub const REFERRAL_REWARD: u32 = 10;

/// The price of a badge.
pub const BADGE_COST: u32 = 50;

/// The price of opening a proposal.
pub const PROPOSAL_COST: u32 = 100;

/// The price of one subscription period.
pub const SUBSCRIPTION_COST: u32 = 50;

/// The price of one lottery ticket.
pub const TICKET_PRICE: u32 = 10;

/// Why a call was refused. A refused call leaves the state as it was.
#[derive(Clone, Copy, Debug, PartialEq, Eq, Structural)]
pub enum Error {
    /// The principal whose consent the call needs has not given it, or the
    /// caller has no part in the record it names.
    Unauthorized,
    /// The escrow, wallet, transaction or bond that the call names is absent.
    NotFound,
    /// A debit exceeds the funds at hand.
    InsufficientBalance,
    /// An argument is outside what the operation accepts: a threshold that
    /// is zero or more than the owners can reach, a draw that is no index
    /// of the pool, records that are not those of a ledger.
    InvalidArgument,
    /// The transaction has been carried out already.
    AlreadyExecuted,
    /// The principal has voted on this proposal already.
    AlreadyVoted,
    /// The maintenance flag is set.
    MaintenanceActive,
    /// The lottery pool is empty.
    NoParticipants,
    /// The voter holds no tokens.
    NoWeight,
    /// The bond has not been held for the full period yet.
    BondLocked,
    /// A balance, tally, score, counter or instant would leave the range of
    /// its machine type.
    Overflow,
}

impl Error {
    /// The words in which the refusal is told to the caller.
    pub open spec fn message_text(self) -> Seq<char> {
        match self {
            Error::Unauthorized => "Not authorized"@,
            Error::NotFound => "Not found"@,
            Error::InsufficientBalance => "Insufficient BZR"@,
            Error::InvalidArgument => "Invalid argument"@,
            Error::AlreadyExecuted => "Already executed"@,
            Error::AlreadyVoted => "Already voted"@,
            Error::MaintenanceActive => "Maintenance mode active"@,
            Error::NoParticipants => "No participants"@,
            Error::NoWeight => "No BZR to vote"@,
            Error::BondLocked => "Bond is still locked (30 days)"@,
            Error::Overflow => "Arithmetic overflow"@,
        }
    }

    /// The words in which the refusal is told to the caller.
    pub fn message(&self) -> (text: &'static str)
        ensures
            text@ == self.message_text(),
    {
        match self {
            Error::Unauthorized => "Not authorized",
            Error::NotFound => "Not found",
            Error::InsufficientBalance => "Insufficient BZR",
            Error::InvalidArgument => "Invalid argument",
            Error::AlreadyExecuted => "Already executed",
            Error::AlreadyVoted => "Already voted",
            Error::MaintenanceActive => "Maintenance mode active",
            Error::NoParticipants => "No participants",
            Error::NoWeight => "No BZR to vote",
            Error::BondLocked => "Bond is still locked (30 days)",
            Error::Overflow => "Arithmetic overflow",
        }
    }
}

/// A two-party conditional payment. The amount left the buyer's balance
/// when the record was made and is held by the record until both agree.
#[derive(Clone, Copy, Debug, PartialEq, Eq, Structural)]
pub struct Escrow {
    pub buyer: Principal,
    pub seller: Principal,
    pub amount: u32,
    pub buyer_ok: bool,
    pub seller_ok: bool,
}

/// A pooled wallet that pays out once enough of its owners agree.
#[derive(Clone, Debug, PartialEq, Eq)]
pub struct MultiSigWallet {
    pub owners: Vec<Principal>,
    pub threshold: u32,
    pub balance: u32,
}

/// A wallet as a mathematical value.
pub struct WalletView {
    pub owners: Seq<Principal>,
    pub threshold: u32,
    pub balance: u32,
}

impl View for MultiSigWallet {
    type V = WalletView;

    open spec fn view(&self) -> WalletView {
        WalletView { owners: self.owners@, threshold: self.threshold, balance: self.balance }
    }
}

/// A payout that a wallet's owners are asked to approve.
#[derive(Clone, Debug, PartialEq, Eq)]
pub struct MultiSigTx {
    pub wallet_id: u32,
    pub to: Principal,
    pub amount: u32,
    pub approvals: Vec<Principal>,
    pub executed: bool,
}

/// A wallet transaction as a mathematical value.
pub struct TxView {
    pub wallet_id: u32,
    pub to: Principal,
    pub amount: u32,
    pub approvals: Seq<Principal>,
    pub executed: bool,
}

impl View for MultiSigTx {
    type V = TxView;

    open spec fn view(&self) -> TxView {
        TxView {
            wallet_id: self.wallet_id,
            to: self.to,
            amount: self.amount,
            approvals: self.approvals@,
            executed: self.executed,
        }
    }
}

/// A message left in somebody's inbox.
#[derive(Clone, Debug, PartialEq, Eq)]
pub struct Message {
    pub sender: Principal,
    pub text: String,
}

/// A message as a mathematical value.
pub struct MessageView {
    pub sender: Principal,
    pub text: Seq<char>,
}

impl View for Message {
    type V = MessageView;

    open spec fn view(&self) -> MessageView {
        MessageView { sender: self.sender, text: self.text@ }
    }
}

/// The messages of an inbox as mathematical values.
pub open spec fn messages_view(v: Vec<Message>) -> Seq<MessageView> {
    v@.map_values(|m: Message| m@)
}

/// A copy of `list`.
pub fn copy_messages(list: &Vec<Message>) -> (copy: Vec<Message>)
    ensures
        messages_view(copy) == messages_view(*list),
{
    let mut copy: Vec<Message> = Vec::new();
    let mut i: usize = 0;
    while i < list.len()
        invariant
            i <= list.len(),
            copy.len() == i,
            forall|j: int| 0 <= j < i ==> copy@[j]@ == list@[j]@,
        decreases list.len() - i,
    {
        let m = &list[i];
        copy.push(Message { sender: m.sender, text: m.text.clone() });
        i += 1;
    }
    assert(messages_view(copy) =~= messages_view(*list));
    copy
}

/// What a call tells observers outside the ledger. Events are appended to
/// the state's log in the order in which the call raises them.
#[derive(Clone, Copy, Debug, PartialEq, Eq, Structural)]
pub enum Event {
    Vouch { voucher: Principal, target: Principal },
    Mint { to: Principal, amount: u32 },
    Transfer { from: Principal, to: Principal, amount: u32 },
    Referral { referrer: Principal, amount: u32 },
    BadgeBought { user: Principal, badge: Symbol, cost: u32 },
    Funded { user: Principal, amount: u32 },
    Voted { user: Principal, proposal_id: u32, weight: u32 },
    ProposalCreated { user: Principal, proposal_id: u32 },
    DisputeRaised { accuser: Principal, target: Principal },
    DisputeResolved { target: Principal },
    Decayed { user: Principal, score: u32 },
    EscrowCreated { buyer: Principal, seller: Principal, escrow_id: u32 },
    EscrowReleased { escrow_id: u32, amount: u32 },
    Subscribed { user: Principal, expiry: u64 },
    WalletPaid { wallet_id: u32, amount: u32 },
    TicketBought { user: Principal, tickets: u32 },
    LotteryWon { winner: Principal, pot: u32 },
}

/// Whether `p` occurs in `list`.
pub fn has_principal(list: &Vec<Principal>, p: Principal) -> (found: bool)
    ensures
        found == list@.contains(p),
{
    let mut i: usize = 0;
    while i < list.len()
        invariant
            i <= list.len(),
            forall|j: int| 0 <= j < i ==> list@[j] != p,
        decreases list.len() - i,
    {
        if list[i] == p {
            return true;
        }
        i += 1;
    }
    false
}

/// Whether no principal occurs twice in `list`.
pub fn all_distinct(list: &Vec<Principal>) -> (distinct: bool)
    ensures
        distinct == list@.no_duplicates(),
{
    let mut i: usize = 0;
    while i < list.len()
        invariant
            i <= list.len(),
            forall|a: int, b: int| 0 <= a < b < i ==> list@[a] != list@[b],
        decreases list.len() - i,
    {
        let mut j: usize = 0;
        while j < i
            invariant
                j <= i < list.len(),
                forall|a: int| 0 <= a < j ==> list@[a] != list@[i as int],
            decreases i - j,
        {
            if list[j] == list[i] {
                return false;
            }
            j += 1;
        }
        i += 1;
    }
    true
}

/// A copy of `list`.
pub fn copy_principals(list: &Vec<Principal>) -> (copy: Vec<Principal>)
    ensures
        copy@ == list@,
{
    let mut copy: Vec<Principal> = Vec::new();
    let mut i: usize = 0;
    while i < list.len()
        invariant
            i <= list.len(),
            copy@ == list@.take(i as int),
        decreases list.len() - i,
    {
        copy.push(list[i]);
        assert(list@.take(i + 1) =~= list@.take(i as int).push(list@[i as int]));
        i += 1;
    }
    assert(list@.take(list.len() as int) =~= list@);
    copy
}

/// The principals that have proved control of their account for one call.
pub struct Auth {
    signers: Vec<Principal>,
}

impl View for Auth {
    type V = Set<Principal>;

    closed spec fn view(&self) -> Set<Principal> {
        self.signers@.to_set()
    }
}

impl Auth {
    /// Nobody has signed.
    pub fn none() -> (a: Auth)
        ensures
            a@ == Set::<Principal>::empty(),
    {
        let a = Auth { signers: Vec::new() };
        assert(a.signers@.to_set() =~= Set::<Principal>::empty());
        a
    }

    /// `p` alone has signed.
    pub fn signed_by(p: Principal) -> (a: Auth)
        ensures
            a@ == Set::<Principal>::empty().insert(p),
    {
        Auth::none().with(p)
    }

    /// The same signers, and `p`.
    pub fn with(self, p: Principal) -> (a: Auth)
        ensures
            a@ == self@.insert(p),
    {
        let mut signers = self.signers;
        proof {
            signers@.lemma_push_to_set_commute(p);
        }
        signers.push(p);
        Auth { signers }
    }

    /// Whether `p` has signed.
    pub fn authorizes(&self, p: Principal) -> (yes: bool)
        ensures
            yes == self@.contains(p),
    {
        has_principal(&self.signers, p)
    }
}

} // verus!
