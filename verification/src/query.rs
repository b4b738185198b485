//! A record of the input: one operation that one client asks for.

use crate::error::Error;
use crate::operation::{lowercase_of, operation_named, parse_operation};
use crate::{TxId, UserId};
use vstd::prelude::*;

verus! {

/// One record: the kind of operation as the input words it, the client, the
/// transaction, and the amount in ten-thousandths. Only a deposit and a
/// withdrawal have an amount of their own; for the other kinds it is not
/// looked at.
pub struct Query {
    /// The kind of operation, in any mix of upper and lower case.
    pub query_type: String,
    /// The client that the record is for.
    pub user_id: UserId,
    /// The transaction that the record creates or refers to.
    pub tx: TxId,
    /// The amount, in ten-thousandths of one unit of currency.
    pub amount: i64,
}

/// Whether a record of the kind that `query_type` words must bring an
/// amount: it must where the word, whatever its case, names a deposit or a
/// withdrawal.
pub open spec fn needs_amount(query_type: Seq<char>) -> bool {
    match operation_named(lowercase_of(query_type)) {
        Some(op) => op.has_amount(),
        None => false,
    }
}

impl Query {
    /// Puts a record together.
    pub fn new(query_type: String, user_id: UserId, tx: TxId, amount: i64) -> (query: Query)
        ensures
            query == (Query { query_type, user_id, tx, amount }),
    {
        Query { query_type, user_id, tx, amount }
    }

    /// Puts a record together from the fields of a row of the input, in
    /// which the amount may be missing. A deposit and a withdrawal need an
    /// amount: without one the row is refused with `CSVConvertFail`. For
    /// every other kind of row, known or not, a missing amount counts as
    /// zero.
    pub fn from_fields(query_type: String, user_id: UserId, tx: TxId, amount: Option<i64>) -> (r:
        Result<Query, Error>)
        ensures
            r == match amount {
                Some(amount) => Ok::<Query, Error>(Query { query_type, user_id, tx, amount }),
                None => if needs_amount(query_type@) {
                    Err::<Query, Error>(Error::CSVConvertFail)
                } else {
                    Ok::<Query, Error>(Query { query_type, user_id, tx, amount: 0 })
                },
            },
    {
        match amount {
            Some(amount) => Ok(Query { query_type, user_id, tx, amount }),
            None => {
                let needed: bool = match parse_operation(query_type.as_str()) {
                    Some(op) => op.carries_amount(),
                    None => false,
                };
                if needed {
                    Err(Error::CSVConvertFail)
                } else {
                    Ok(Query { query_type, user_id, tx, amount: 0 })
                }
            },
        }
    }

    /// The client that the record is for.
    pub fn user_id(&self) -> (id: UserId)
        ensures
            id == self.user_id,
    {
        self.user_id
    }

    /// The amount of the record, in ten-thousandths.
    pub fn amount(&self) -> (amount: i64)
        ensures
            amount == self.amount,
    {
        self.amount
    }
}

} // verus!
