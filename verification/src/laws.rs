//! What holds of the ledger whatever is called, stated over the state
//! machine and proved.

pub mod accounting;
pub mod lifecycle;
