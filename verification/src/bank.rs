//! One client's funds: what is available, what is held, and whether the
//! account is locked.

use crate::error::Error;
use crate::money::{money_text, push_money, wrap};
use crate::operation::Operation;
use vstd::prelude::*;
use vstd::string::StringExecFns;

verus! {

/// The funds of one client.
///
/// `available` can be withdrawn or disputed, `held` is frozen while a
/// dispute is open. A chargeback locks the account for good: from then on
/// every operation is turned down and nothing changes any more.
///
/// Both balances are counts of ten-thousandths in 64 bits. No operation
/// fails for the size of a balance: a sum or difference that leaves the
/// 64-bit range wraps around, as [`wrap`] says. Amounts are meant to be
/// positive, but every operation is defined, as its contract states, for
/// every amount.
pub struct Account {
    available: i64,
    held: i64,
    locked: bool,
}

/// A flag as the report words it.
pub open spec fn flag_text(flag: bool) -> Seq<char> {
    if flag {
        "true"@
    } else {
        "false"@
    }
}

/// What an account holds, as the contracts see it.
pub struct AccountView {
    /// Funds that the client can withdraw or that can be disputed.
    pub available: i64,
    /// Funds frozen by disputes that are still open.
    pub held: i64,
    /// Whether a chargeback has locked the account.
    pub locked: bool,
}

impl AccountView {
    /// A new account: nothing available, nothing held, not locked.
    pub open spec fn opened() -> AccountView {
        AccountView { available: 0, held: 0, locked: false }
    }

    /// Everything the account holds, available and held together.
    pub open spec fn total(self) -> i64 {
        wrap(self.available + self.held)
    }

    /// The account as a row of the report: the available funds, the held
    /// funds and their total, each in units of currency, and whether the
    /// account is locked, with a comma between one and the next.
    pub open spec fn row(self) -> Seq<char> {
        money_text(self.available) + seq![','] + money_text(self.held) + seq![','] + money_text(
            self.total(),
        ) + seq![','] + flag_text(self.locked)
    }

    /// The account after a deposit of `amount`, and what the deposit
    /// answers: a locked account refuses; otherwise the amount is added to
    /// the available funds and the answer is what was available before.
    pub open spec fn deposit(self, amount: i64) -> (AccountView, Result<i64, Error>) {
        if self.locked {
            (self, Err(Error::AccountIsLocked))
        } else {
            (
                AccountView { available: wrap(self.available + amount), ..self },
                Ok(self.available),
            )
        }
    }

    /// The account after a withdrawal of `amount`, and what the withdrawal
    /// answers: a locked account refuses, then one with less than `amount`
    /// available; otherwise the amount leaves the available funds and the
    /// answer is what was available before.
    pub open spec fn withdraw(self, amount: i64) -> (AccountView, Result<i64, Error>) {
        if self.locked {
            (self, Err(Error::AccountIsLocked))
        } else if self.available < amount {
            (self, Err(Error::NotEnoughFunds))
        } else {
            (
                AccountView { available: wrap(self.available - amount), ..self },
                Ok(self.available),
            )
        }
    }

    /// The account after a dispute over `amount`, and what the dispute
    /// answers: a locked account refuses, then one with less than `amount`
    /// available; otherwise the amount moves from available to held and the
    /// answer is what was available before.
    pub open spec fn dispute(self, amount: i64) -> (AccountView, Result<i64, Error>) {
        if self.locked {
            (self, Err(Error::AccountIsLocked))
        } else if self.available < amount {
            (self, Err(Error::NotEnoughFunds))
        } else {
            (
                AccountView {
                    available: wrap(self.available - amount),
                    held: wrap(self.held + amount),
                    ..self
                },
                Ok(self.available),
            )
        }
    }

    /// The account after a dispute over `amount` is resolved, and what the
    /// resolve answers: a locked account refuses; otherwise the amount moves
    /// back from held to available, whatever is held, and the answer is what
    /// was available before.
    pub open spec fn resolve(self, amount: i64) -> (AccountView, Result<i64, Error>) {
        if self.locked {
            (self, Err(Error::AccountIsLocked))
        } else {
            (
                AccountView {
                    available: wrap(self.available + amount),
                    held: wrap(self.held - amount),
                    ..self
                },
                Ok(self.available),
            )
        }
    }

    /// The account after a chargeback of `amount`, and what the chargeback
    /// answers: a locked account refuses; otherwise the account is locked,
    /// the amount leaves the held funds, and the answer is what is
    /// available, which a chargeback does not change.
    pub open spec fn chargeback(self, amount: i64) -> (AccountView, Result<i64, Error>) {
        if self.locked {
            (self, Err(Error::AccountIsLocked))
        } else {
            (
                AccountView { held: wrap(self.held - amount), locked: true, ..self },
                Ok(self.available),
            )
        }
    }

    /// The account after one operation of the given kind, and its answer.
    pub open spec fn apply(self, op: Operation, amount: i64) -> (AccountView, Result<i64, Error>) {
        match op {
            Operation::Deposit => self.deposit(amount),
            Operation::Withdrawal => self.withdraw(amount),
            Operation::Dispute => self.dispute(amount),
            Operation::Resolve => self.resolve(amount),
            Operation::Chargeback => self.chargeback(amount),
        }
    }
}

impl View for Account {
    type V = AccountView;

    closed spec fn view(&self) -> AccountView {
        AccountView { available: self.available, held: self.held, locked: self.locked }
    }
}

impl Account {
    /// Opens an account with no funds.
    pub fn new() -> (account: Account)
        ensures
            account@ == AccountView::opened(),
    {
        Account { available: 0, held: 0, locked: false }
    }

    /// The funds that can be withdrawn or disputed.
    pub fn available(&self) -> (amount: i64)
        ensures
            amount == self@.available,
    {
        self.available
    }

    /// The funds frozen by open disputes.
    pub fn held(&self) -> (amount: i64)
        ensures
            amount == self@.held,
    {
        self.held
    }

    /// Whether a chargeback has locked the account.
    pub fn locked(&self) -> (locked: bool)
        ensures
            locked == self@.locked,
    {
        self.locked
    }

    /// Available and held funds together, wrapped around where the sum
    /// leaves the 64-bit range.
    pub fn total(&self) -> (amount: i64)
        ensures
            amount == self@.total(),
    {
        self.available.wrapping_add(self.held)
    }

    /// The account as a row of the report, such as `2.12,0,2.12,false`.
    pub fn render(&self) -> (row: String)
        ensures
            row@ == self@.row(),
    {
        let mut row: String = String::new();
        push_money(&mut row, self.available);
        row.append(",");
        push_money(&mut row, self.held);
        row.append(",");
        push_money(&mut row, self.total());
        row.append(",");
        row.append(if self.locked { "true" } else { "false" });
        proof {
            reveal_strlit(",");
            assert(row@ =~= self@.row());
        }
        row
    }

    /// Adds `amount` to the available funds and returns what was available
    /// before. A locked account refuses with `AccountIsLocked`.
    pub fn deposit(&mut self, amount: i64) -> (r: Result<i64, Error>)
        ensures
            (final(self)@, r) == old(self)@.deposit(amount),
    {
        if self.locked {
            return Err(Error::AccountIsLocked);
        }
        let before: i64 = self.available;
        self.available = before.wrapping_add(amount);
        Ok(before)
    }

    /// Takes `amount` out of the available funds and returns what was
    /// available before. A locked account refuses with `AccountIsLocked`,
    /// one with less than `amount` available with `NotEnoughFunds`; a
    /// refused withdrawal changes nothing.
    pub fn withdraw(&mut self, amount: i64) -> (r: Result<i64, Error>)
        ensures
            (final(self)@, r) == old(self)@.withdraw(amount),
    {
        if self.locked {
            return Err(Error::AccountIsLocked);
        }
        if self.available < amount {
            return Err(Error::NotEnoughFunds);
        }
        let before: i64 = self.available;
        self.available = before.wrapping_sub(amount);
        Ok(before)
    }

    /// Moves `amount` from the available to the held funds and returns what
    /// was available before. A locked account refuses with
    /// `AccountIsLocked`, one with less than `amount` available with
    /// `NotEnoughFunds`; a refused dispute changes nothing.
    pub fn dispute(&mut self, amount: i64) -> (r: Result<i64, Error>)
        ensures
            (final(self)@, r) == old(self)@.dispute(amount),
    {
        if self.locked {
            return Err(Error::AccountIsLocked);
        }
        if self.available < amount {
            return Err(Error::NotEnoughFunds);
        }
        let before: i64 = self.available;
        self.held = self.held.wrapping_add(amount);
        self.available = before.wrapping_sub(amount);
        Ok(before)
    }

    /// Moves `amount` back from the held to the available funds and returns
    /// what was available before. Only a locked account refuses, with
    /// `AccountIsLocked`: how much is held is not looked at.
    pub fn resolve(&mut self, amount: i64) -> (r: Result<i64, Error>)
        ensures
            (final(self)@, r) == old(self)@.resolve(amount),
    {
        if self.locked {
            return Err(Error::AccountIsLocked);
        }
        let before: i64 = self.available;
        self.held = self.held.wrapping_sub(amount);
        self.available = before.wrapping_add(amount);
        Ok(before)
    }

    /// Locks the account, takes `amount` out of the held funds and returns
    /// what is available, which stays as it was. An account that is locked
    /// already refuses with `AccountIsLocked`.
    pub fn chargeback(&mut self, amount: i64) -> (r: Result<i64, Error>)
        ensures
            (final(self)@, r) == old(self)@.chargeback(amount),
    {
        if self.locked {
            return Err(Error::AccountIsLocked);
        }
        self.locked = true;
        self.held = self.held.wrapping_sub(amount);
        Ok(self.available)
    }
}

} // verus!
