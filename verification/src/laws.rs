//! What holds of the ledger whatever the records are: statements that tie
//! several operations together, each proved from the operations' contracts.

pub mod account;
pub mod client;
pub mod registry;
