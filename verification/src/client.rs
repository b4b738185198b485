//! One client: an account and the memory of the transactions that can
//! still be disputed.

use crate::bank::{Account, AccountView};
use crate::error::Error;
use crate::money::{decimal, push_decimal};
use crate::operation::{lowercase_of, operation_named, parse_operation, Operation};
use crate::query::Query;
use crate::{AccountOwner, TxId, UserId};
use std::collections::HashMap;
use vstd::prelude::*;
use vstd::string::StringExecFns;

verus! {

broadcast use vstd::std_specs::hash::group_hash_axioms;

/// The first line of the report: the names of the columns of a client's
/// row.
pub const REPORT_HEADER: &'static str = "client,available,held,total,locked";

/// Where a recorded transaction stands.
#[derive(Clone, Copy, Debug, PartialEq, Eq, Structural)]
pub enum TxState {
    /// Recorded and never disputed.
    Active,
    /// Under dispute: waiting for a resolve or a chargeback.
    Disputed,
    /// Resolved or charged back. Nothing can be done with it any more.
    Retired,
}

/// What a client remembers of one deposit or withdrawal.
#[derive(Clone, Copy, Debug, PartialEq, Eq, Structural)]
pub struct LedgerEntry {
    /// The amount of the deposit or withdrawal.
    pub amount: i64,
    /// Where the transaction stands.
    pub state: TxState,
}

/// A client: its id, its account and its ledger of transactions.
pub struct Client {
    id: UserId,
    account: Account,
    tx_map: HashMap<TxId, LedgerEntry>,
}

/// A client as the contracts see it.
pub struct ClientView {
    /// The client's id.
    pub id: UserId,
    /// The client's funds.
    pub account: AccountView,
    /// The deposits and withdrawals that the client has recorded, by
    /// transaction id.
    pub ledger: Map<TxId, LedgerEntry>,
}

impl ClientView {
    /// A new client: an account with no funds and an empty ledger.
    pub open spec fn opened(id: UserId) -> ClientView {
        ClientView { id, account: AccountView::opened(), ledger: Map::empty() }
    }

    /// The client as a row of the report: its id in decimal, a comma, and
    /// the row of its account.
    pub open spec fn row(self) -> Seq<char> {
        decimal(self.id as nat) + seq![','] + self.account.row()
    }

    /// The ledger with `tx` recorded as a fresh transaction of `amount`.
    pub open spec fn recorded(self, tx: TxId, amount: i64) -> Map<TxId, LedgerEntry> {
        self.ledger.insert(tx, LedgerEntry { amount, state: TxState::Active })
    }

    /// The ledger with `tx` moved to `state`, its amount kept.
    pub open spec fn moved(self, tx: TxId, state: TxState) -> Map<TxId, LedgerEntry> {
        self.ledger.insert(tx, LedgerEntry { amount: self.ledger[tx].amount, state })
    }

    /// The client after a deposit of `amount` under the id `tx`, and the
    /// answer. An id that the ledger holds already is refused and nothing
    /// changes. Otherwise the transaction is recorded, and the account
    /// decides on the deposit.
    pub open spec fn deposit(self, tx: TxId, amount: i64) -> (ClientView, Result<i64, Error>) {
        if self.ledger.contains_key(tx) {
            (self, Err(Error::DuplicatedTx))
        } else {
            let (account, answer) = self.account.deposit(amount);
            (ClientView { account, ledger: self.recorded(tx, amount), ..self }, answer)
        }
    }

    /// The client after a withdrawal of `amount` under the id `tx`, and the
    /// answer. An id that the ledger holds already is refused and nothing
    /// changes. Otherwise the transaction is recorded, and the account
    /// decides on the withdrawal; the record stays even where the account
    /// refuses.
    pub open spec fn withdraw(self, tx: TxId, amount: i64) -> (ClientView, Result<i64, Error>) {
        if self.ledger.contains_key(tx) {
            (self, Err(Error::DuplicatedTx))
        } else {
            let (account, answer) = self.account.withdraw(amount);
            (ClientView { account, ledger: self.recorded(tx, amount), ..self }, answer)
        }
    }

    /// The client after a dispute of the transaction `tx`, and the answer.
    /// An unknown transaction and one that is not active are refused and
    /// nothing changes. Otherwise the transaction becomes disputed, and the
    /// account decides on a dispute over its amount; the transaction stays
    /// disputed even where the account refuses.
    pub open spec fn dispute(self, tx: TxId) -> (ClientView, Result<i64, Error>) {
        if !self.ledger.contains_key(tx) {
            (self, Err(Error::NoTxFound))
        } else if self.ledger[tx].state != TxState::Active {
            (self, Err(Error::AlreadyDisputed))
        } else {
            let (account, answer) = self.account.dispute(self.ledger[tx].amount);
            (ClientView { account, ledger: self.moved(tx, TxState::Disputed), ..self }, answer)
        }
    }

    /// The client after a resolve of the transaction `tx`, and the answer.
    /// An unknown transaction and one that is not disputed are refused and
    /// nothing changes. Otherwise the account decides on a resolve of the
    /// transaction's amount, and where it accepts, the transaction is
    /// retired.
    pub open spec fn resolve(self, tx: TxId) -> (ClientView, Result<i64, Error>) {
        if !self.ledger.contains_key(tx) {
            (self, Err(Error::NoTxFound))
        } else if self.ledger[tx].state != TxState::Disputed {
            (self, Err(Error::NotUnderDispute))
        } else {
            let (account, answer) = self.account.resolve(self.ledger[tx].amount);
            if answer is Ok {
                (ClientView { account, ledger: self.moved(tx, TxState::Retired), ..self }, answer)
            } else {
                (self, answer)
            }
        }
    }

    /// The client after a chargeback of the transaction `tx`, and the
    /// answer. An unknown transaction and one that is not disputed are
    /// refused and nothing changes. Otherwise the account decides on a
    /// chargeback of the transaction's amount, and where it accepts, the
    /// transaction is retired.
    pub open spec fn chargeback(self, tx: TxId) -> (ClientView, Result<i64, Error>) {
        if !self.ledger.contains_key(tx) {
            (self, Err(Error::NoTxFound))
        } else if self.ledger[tx].state != TxState::Disputed {
            (self, Err(Error::NotUnderDispute))
        } else {
            let (account, answer) = self.account.chargeback(self.ledger[tx].amount);
            if answer is Ok {
                (ClientView { account, ledger: self.moved(tx, TxState::Retired), ..self }, answer)
            } else {
                (self, answer)
            }
        }
    }

    /// The client after one operation of the kind `op`, and the answer.
    /// Only a deposit and a withdrawal look at `amount`.
    pub open spec fn perform(self, op: Operation, tx: TxId, amount: i64) -> (
        ClientView,
        Result<i64, Error>,
    ) {
        match op {
            Operation::Deposit => self.deposit(tx, amount),
            Operation::Withdrawal => self.withdraw(tx, amount),
            Operation::Dispute => self.dispute(tx),
            Operation::Resolve => self.resolve(tx),
            Operation::Chargeback => self.chargeback(tx),
        }
    }

    /// The client after the record `query`, and the answer. The kind of
    /// operation is read from the record's word whatever its case. A word
    /// that names no operation is refused with `InvalidQueryType`, which
    /// holds the word as it was given, and nothing changes.
    pub open spec fn dispatch(self, query: Query) -> (ClientView, Result<i64, Error>) {
        match operation_named(lowercase_of(query.query_type@)) {
            Some(op) => self.perform(op, query.tx, query.amount),
            None => (self, Err(Error::InvalidQueryType(query.query_type))),
        }
    }
}

impl View for Client {
    type V = ClientView;

    closed spec fn view(&self) -> ClientView {
        ClientView { id: self.id, account: self.account@, ledger: self.tx_map@ }
    }
}

impl Client {
    /// A new client with the given id, no funds and an empty ledger.
    pub fn new(id: UserId) -> (client: Client)
        ensures
            client@ == ClientView::opened(id),
    {
        Client { id, account: Account::new(), tx_map: HashMap::new() }
    }

    /// The client's id.
    pub fn id(&self) -> (id: UserId)
        ensures
            id == self@.id,
    {
        self.id
    }

    /// The client's account.
    pub fn account(&self) -> (account: &Account)
        ensures
            account@ == self@.account,
    {
        &self.account
    }

    /// What the ledger holds for the transaction `tx`, if anything.
    pub fn entry(&self, tx: TxId) -> (entry: Option<LedgerEntry>)
        ensures
            entry == if self@.ledger.contains_key(tx) {
                Some(self@.ledger[tx])
            } else {
                None
            },
    {
        match self.tx_map.get(&tx) {
            Some(entry) => Some(*entry),
            None => None,
        }
    }

    /// The client as a row of the report, such as `1,2.12,0,2.12,false`.
    pub fn render(&self) -> (row: String)
        ensures
            row@ == self@.row(),
    {
        let mut row: String = String::new();
        push_decimal(&mut row, self.id as u64);
        row.append(",");
        let account: String = self.account.render();
        row.append(account.as_str());
        proof {
            reveal_strlit(",");
            assert(row@ =~= self@.row());
        }
        row
    }

    /// Records the transaction `tx` and adds `amount` to the available
    /// funds; returns what was available before. A `tx` that the ledger
    /// holds already is refused with `DuplicatedTx` before anything changes;
    /// a locked account refuses with `AccountIsLocked` after `tx` was
    /// recorded.
    pub fn deposit(&mut self, tx: TxId, amount: i64) -> (r: Result<i64, Error>)
        ensures
            (final(self)@, r) == old(self)@.deposit(tx, amount),
    {
        if self.tx_map.contains_key(&tx) {
            return Err(Error::DuplicatedTx);
        }
        self.tx_map.insert(tx, LedgerEntry { amount, state: TxState::Active });
        self.account.deposit(amount)
    }

    /// Records the transaction `tx` and takes `amount` out of the available
    /// funds; returns what was available before. A `tx` that the ledger
    /// holds already is refused with `DuplicatedTx` before anything changes;
    /// after `tx` was recorded, a locked account refuses with
    /// `AccountIsLocked` and one with less than `amount` available with
    /// `NotEnoughFunds`.
    pub fn withdraw(&mut self, tx: TxId, amount: i64) -> (r: Result<i64, Error>)
        ensures
            (final(self)@, r) == old(self)@.withdraw(tx, amount),
    {
        if self.tx_map.contains_key(&tx) {
            return Err(Error::DuplicatedTx);
        }
        self.tx_map.insert(tx, LedgerEntry { amount, state: TxState::Active });
        self.account.withdraw(amount)
    }

    /// Puts the transaction `tx` under dispute and moves its amount from the
    /// available to the held funds; returns what was available before. A
    /// `tx` that the ledger does not hold is refused with `NoTxFound`, one
    /// that is not active with `AlreadyDisputed`, both before anything
    /// changes. After `tx` was marked as disputed, a locked account refuses
    /// with `AccountIsLocked` and one with less than the amount available
    /// with `NotEnoughFunds`.
    pub fn dispute(&mut self, tx: TxId) -> (r: Result<i64, Error>)
        ensures
            (final(self)@, r) == old(self)@.dispute(tx),
    {
        let entry: LedgerEntry = match self.tx_map.get(&tx) {
            Some(entry) => *entry,
            None => {
                return Err(Error::NoTxFound);
            },
        };
        match entry.state {
            TxState::Active => {},
            _ => {
                return Err(Error::AlreadyDisputed);
            },
        }
        self.tx_map.insert(tx, LedgerEntry { amount: entry.amount, state: TxState::Disputed });
        self.account.dispute(entry.amount)
    }

    /// Ends the dispute of the transaction `tx` in the client's favour: its
    /// amount moves back from the held to the available funds and the
    /// transaction is retired; returns what was available before. A `tx`
    /// that the ledger does not hold is refused with `NoTxFound`, one that
    /// is not under dispute with `NotUnderDispute`, a locked account with
    /// `AccountIsLocked`; a refused resolve changes nothing.
    pub fn resolve(&mut self, tx: TxId) -> (r: Result<i64, Error>)
        ensures
            (final(self)@, r) == old(self)@.resolve(tx),
    {
        let entry: LedgerEntry = match self.tx_map.get(&tx) {
            Some(entry) => *entry,
            None => {
                return Err(Error::NoTxFound);
            },
        };
        match entry.state {
            TxState::Disputed => {},
            _ => {
                return Err(Error::NotUnderDispute);
            },
        }
        let answer: Result<i64, Error> = self.account.resolve(entry.amount);
        if answer.is_ok() {
            self.tx_map.insert(tx, LedgerEntry { amount: entry.amount, state: TxState::Retired });
        }
        answer
    }

    /// Ends the dispute of the transaction `tx` against the client: the
    /// account is locked, the amount leaves the held funds and the
    /// transaction is retired; returns what is available. A `tx` that the
    /// ledger does not hold is refused with `NoTxFound`, one that is not
    /// under dispute with `NotUnderDispute`, a locked account with
    /// `AccountIsLocked`; a refused chargeback changes nothing.
    pub fn chargeback(&mut self, tx: TxId) -> (r: Result<i64, Error>)
        ensures
            (final(self)@, r) == old(self)@.chargeback(tx),
    {
        let entry: LedgerEntry = match self.tx_map.get(&tx) {
            Some(entry) => *entry,
            None => {
                return Err(Error::NoTxFound);
            },
        };
        match entry.state {
            TxState::Disputed => {},
            _ => {
                return Err(Error::NotUnderDispute);
            },
        }
        let answer: Result<i64, Error> = self.account.chargeback(entry.amount);
        if answer.is_ok() {
            self.tx_map.insert(tx, LedgerEntry { amount: entry.amount, state: TxState::Retired });
        }
        answer
    }

    /// Carries out one operation of the kind `op` on the transaction `tx`.
    /// Only a deposit and a withdrawal look at `amount`; the other kinds
    /// take the amount that the ledger holds for `tx`.
    pub fn perform(&mut self, op: Operation, tx: TxId, amount: i64) -> (r: Result<i64, Error>)
        ensures
            (final(self)@, r) == old(self)@.perform(op, tx, amount),
    {
        match op {
            Operation::Deposit => self.deposit(tx, amount),
            Operation::Withdrawal => self.withdraw(tx, amount),
            Operation::Dispute => self.dispute(tx),
            Operation::Resolve => self.resolve(tx),
            Operation::Chargeback => self.chargeback(tx),
        }
    }
}

impl AccountOwner for Client {
    /// Carries out the record `query` on this client, whichever client the
    /// record names. The word for the kind of operation may be in any case.
    fn dispatch(&mut self, query: Query) -> (r: Result<i64, Error>)
        ensures
            (final(self)@, r) == old(self)@.dispatch(query),
    {
        match parse_operation(query.query_type.as_str()) {
            Some(op) => self.perform(op, query.tx, query.amount()),
            None => Err(Error::InvalidQueryType(query.query_type)),
        }
    }
}

} // verus!
