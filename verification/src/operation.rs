//! The five kinds of operation that a record can ask for, and the words
//! that name them.

use vstd::prelude::*;
use vstd::utf8::{encode_utf8, encode_utf8_decode_utf8};

verus! {

/// The word for a deposit.
pub const QUERY_TYPE_DEPOSIT: &'static str = "deposit";

/// The word for a withdrawal.
pub const QUERY_TYPE_WITHDRAWAL: &'static str = "withdrawal";

/// The word for a dispute.
pub const QUERY_TYPE_DISPUTE: &'static str = "dispute";

/// The word for a resolve.
pub const QUERY_TYPE_RESOLVE: &'static str = "resolve";

/// The word for a chargeback.
pub const QUERY_TYPE_CHARGEBACK: &'static str = "chargeback";

/// What a record asks the ledger to do.
#[derive(Clone, Copy, Debug, PartialEq, Eq, Structural)]
pub enum Operation {
    /// Credit funds to the client.
    Deposit,
    /// Pay funds out to the client.
    Withdrawal,
    /// Freeze the amount of an earlier transaction.
    Dispute,
    /// Release the amount of a disputed transaction.
    Resolve,
    /// Take back the amount of a disputed transaction and lock the account.
    Chargeback,
}

impl Operation {
    /// Whether a record of this kind brings an amount of its own: a deposit
    /// and a withdrawal do, the other kinds take the amount of the
    /// transaction that they refer to.
    pub open spec fn has_amount(self) -> bool {
        self is Deposit || self is Withdrawal
    }

    /// Whether a record of this kind brings an amount of its own.
    #[verifier::when_used_as_spec(has_amount)]
    pub fn carries_amount(self) -> (carries: bool)
        ensures
            carries == self.has_amount(),
    {
        match self {
            Operation::Deposit => true,
            Operation::Withdrawal => true,
            _ => false,
        }
    }
}

/// The operation that the word `token` names, if it names one. The five
/// words are written in lower case; nothing else names an operation.
pub open spec fn operation_named(token: Seq<char>) -> Option<Operation> {
    if token == QUERY_TYPE_DEPOSIT@ {
        Some(Operation::Deposit)
    } else if token == QUERY_TYPE_WITHDRAWAL@ {
        Some(Operation::Withdrawal)
    } else if token == QUERY_TYPE_DISPUTE@ {
        Some(Operation::Dispute)
    } else if token == QUERY_TYPE_RESOLVE@ {
        Some(Operation::Resolve)
    } else if token == QUERY_TYPE_CHARGEBACK@ {
        Some(Operation::Chargeback)
    } else {
        None
    }
}

/// Each of the five words names its own operation.
pub proof fn lemma_words_name_operations()
    ensures
        operation_named(QUERY_TYPE_DEPOSIT@) == Some(Operation::Deposit),
        operation_named(QUERY_TYPE_WITHDRAWAL@) == Some(Operation::Withdrawal),
        operation_named(QUERY_TYPE_DISPUTE@) == Some(Operation::Dispute),
        operation_named(QUERY_TYPE_RESOLVE@) == Some(Operation::Resolve),
        operation_named(QUERY_TYPE_CHARGEBACK@) == Some(Operation::Chargeback),
{
    reveal_strlit("deposit");
    reveal_strlit("withdrawal");
    reveal_strlit("dispute");
    reveal_strlit("resolve");
    reveal_strlit("chargeback");
    assert(QUERY_TYPE_WITHDRAWAL@.len() != QUERY_TYPE_DEPOSIT@.len());
    assert(QUERY_TYPE_DISPUTE@[1] != QUERY_TYPE_DEPOSIT@[1]);
    assert(QUERY_TYPE_DISPUTE@.len() != QUERY_TYPE_WITHDRAWAL@.len());
    assert(QUERY_TYPE_RESOLVE@[0] != QUERY_TYPE_DEPOSIT@[0]);
    assert(QUERY_TYPE_RESOLVE@.len() != QUERY_TYPE_WITHDRAWAL@.len());
    assert(QUERY_TYPE_RESOLVE@[0] != QUERY_TYPE_DISPUTE@[0]);
    assert(QUERY_TYPE_CHARGEBACK@.len() != QUERY_TYPE_DEPOSIT@.len());
    assert(QUERY_TYPE_CHARGEBACK@[0] != QUERY_TYPE_WITHDRAWAL@[0]);
    assert(QUERY_TYPE_CHARGEBACK@.len() != QUERY_TYPE_DISPUTE@.len());
    assert(QUERY_TYPE_CHARGEBACK@.len() != QUERY_TYPE_RESOLVE@.len());
}

/// What `str::to_lowercase` returns for a string of the characters `s`.
pub uninterp spec fn lowercase_of(s: Seq<char>) -> Seq<char>;

/// Calls `str::to_lowercase` of the standard library, which returns the
/// lower-case form of a string as Unicode defines it. Nothing of this is
/// proved here. The result depends on the characters of `s` alone; the
/// contract gives it the name `lowercase_of` and claims nothing more of it.
#[verifier::external_body]
fn lowercase(s: &str) -> (lowered: String)
    ensures
        lowered@ == lowercase_of(s@),
{
    s.to_lowercase()
}

/// Whether two strings hold the same characters. They do where their
/// bytes are the same, as the encoding of a string gives its characters
/// back.
fn same_text(a: &str, b: &str) -> (same: bool)
    ensures
        same == (a@ == b@),
{
    let left: &[u8] = a.as_bytes();
    let right: &[u8] = b.as_bytes();
    proof {
        encode_utf8_decode_utf8(a@);
        encode_utf8_decode_utf8(b@);
    }
    if left.len() != right.len() {
        return false;
    }
    let mut i: usize = 0;
    while i < left.len()
        invariant
            i <= left.len(),
            left.len() == right.len(),
            left@ == encode_utf8(a@),
            right@ == encode_utf8(b@),
            forall|k: int| 0 <= k < i ==> left@[k] == right@[k],
        decreases left.len() - i,
    {
        if left[i] != right[i] {
            return false;
        }
        i += 1;
    }
    assert(left@ =~= right@);
    true
}

/// Reads a word that is in lower case already as an operation.
pub fn classify(token: &str) -> (op: Option<Operation>)
    ensures
        op == operation_named(token@),
{
    if same_text(token, QUERY_TYPE_DEPOSIT) {
        Some(Operation::Deposit)
    } else if same_text(token, QUERY_TYPE_WITHDRAWAL) {
        Some(Operation::Withdrawal)
    } else if same_text(token, QUERY_TYPE_DISPUTE) {
        Some(Operation::Dispute)
    } else if same_text(token, QUERY_TYPE_RESOLVE) {
        Some(Operation::Resolve)
    } else if same_text(token, QUERY_TYPE_CHARGEBACK) {
        Some(Operation::Chargeback)
    } else {
        None
    }
}

/// Reads a word as an operation whatever its case: the word is put in lower
/// case and must then be one of the five that name an operation.
pub fn parse_operation(token: &str) -> (op: Option<Operation>)
    ensures
        op == operation_named(lowercase_of(token@)),
{
    let lowered: String = lowercase(token);
    classify(lowered.as_str())
}

} // verus!
