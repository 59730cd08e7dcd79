//! A reputation-weighted token economy as one deterministic state machine:
//! trust scores, a fungible ledger, escrow, threshold wallets, a lottery,
//! balance-weighted voting and time-boxed subscriptions.
//!
//! The ledger is a `TrustContract`. Every operation is a method on it that
//! takes the authorization of the call as an `Auth`, and the instant or the
//! random draw where it needs one. An operation either succeeds or is
//! refused with an `Error` and leaves the ledger as it was. What each
//! operation does is stated over the mathematical `State`; `machine` puts
//! the operations together into one transition function, and `laws` proves
//! what holds of every sequence of calls.

pub mod symbol;
pub mod types;
pub mod totals;
pub mod state;
pub mod contract;
pub mod admin;
pub mod reputation;
pub mod bonding;
pub mod token;
pub mod registry;
pub mod governance;
pub mod escrow;
pub mod subscription;
pub mod multisig;
pub mod lottery;
pub mod records;
pub mod machine;
pub mod laws;

pub use contract::TrustContract;
pub use records::Records;
pub use symbol::Symbol;
pub use types::{Auth, Error, Escrow, Event, Message, MultiSigTx, MultiSigWallet, Principal};
