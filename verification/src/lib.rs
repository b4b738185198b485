//! A ledger of client accounts driven by a stream of transaction records.
//!
//! Each record is a deposit, a withdrawal, a dispute, a resolve or a
//! chargeback for one client. The library keeps, per client, the funds that
//! are available and the funds that are held, and remembers which
//! transactions may still be disputed.

use vstd::prelude::*;

pub mod bank;
pub mod client;
pub mod error;
pub mod laws;
pub mod money;
pub mod operation;
pub mod query;
pub mod registry;

verus! {

/// The id of a client.
pub type UserId = u16;

/// The id of a transaction.
pub type TxId = u32;

/// Something that owns accounts and takes records for them.
///
/// The trait is open to owners of any kind and promises nothing of its
/// own: what `dispatch` does is stated by each type that has it, as
/// [`client::Client`] does.
pub trait AccountOwner {
    /// Carries out the operation that `query` asks for and returns the
    /// balance that the operation reports, or says why it was refused.
    fn dispatch(&mut self, query: query::Query) -> Result<i64, error::Error>;
}

} // verus!
