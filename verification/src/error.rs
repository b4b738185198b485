//! The ways in which a record can be turned down.

use vstd::prelude::*;

verus! {

/// Why an operation was not carried out.
///
/// `InputArgIsNotProvided` is for the program around the ledger, which
/// finds out at its start whether an input was named. Nothing in the ledger
/// answers with it, nor with `InaccurateQueryType`.
#[derive(Debug)]
pub enum Error {
    /// A dispute, resolve or chargeback names a transaction that the client
    /// never recorded.
    NoTxFound,
    /// A row of the input could not be read as a record.
    CSVConvertFail,
    /// The operation kind of a record is none of the five known ones; holds
    /// the kind as it was given.
    InvalidQueryType(String),
    /// The operation kind is known but does not fit the rest of the record;
    /// holds the kind as it was given.
    InaccurateQueryType(String),
    /// A deposit or withdrawal reuses a transaction id of the same client.
    DuplicatedTx,
    /// No input was named when the program was started.
    InputArgIsNotProvided,
    /// The account was charged back before and takes no further operation.
    AccountIsLocked,
    /// A withdrawal or a dispute asks for more than is available.
    NotEnoughFunds,
    /// A resolve or chargeback names a transaction that is not under dispute.
    NotUnderDispute,
    /// A dispute names a transaction that was disputed before.
    AlreadyDisputed,
}

} // verus!
