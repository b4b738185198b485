//! Laws of a single account.

use crate::bank::AccountView;
use crate::error::Error;
use crate::money::{lemma_wrap_of_difference, lemma_wrap_of_sum, lemma_wrap_within_range, wrap};
use crate::operation::Operation;
use vstd::prelude::*;

verus! {

/// The account after the operations of `steps`, applied from first to last.
/// An operation that is refused leaves the account as it is and the next
/// one is applied all the same.
pub open spec fn after_all(account: AccountView, steps: Seq<(Operation, i64)>) -> AccountView
    decreases steps.len(),
{
    if steps.len() == 0 {
        account
    } else {
        after_all(account, steps.drop_last()).apply(steps.last().0, steps.last().1).0
    }
}

/// What one accepted operation adds to the funds of an account as a whole:
/// a deposit its amount, a withdrawal the negative of its amount.
pub open spec fn signed_amount(op: Operation, amount: i64) -> int {
    match op {
        Operation::Deposit => amount as int,
        Operation::Withdrawal => -(amount as int),
        _ => 0,
    }
}

/// The deposits of `steps` minus its withdrawals, counting the operations
/// that `account` accepts when `steps` is applied to it from first to last.
pub open spec fn net_accepted(account: AccountView, steps: Seq<(Operation, i64)>) -> int
    decreases steps.len(),
{
    if steps.len() == 0 {
        0
    } else {
        let before = after_all(account, steps.drop_last());
        let (op, amount) = steps.last();
        net_accepted(account, steps.drop_last()) + if before.apply(op, amount).1 is Ok {
            signed_amount(op, amount)
        } else {
            0
        }
    }
}

/// The deposits of `steps` minus its withdrawals, all of them counted.
pub open spec fn signed_sum(steps: Seq<(Operation, i64)>) -> int
    decreases steps.len(),
{
    if steps.len() == 0 {
        0
    } else {
        signed_sum(steps.drop_last()) + signed_amount(steps.last().0, steps.last().1)
    }
}

/// Whether `account` accepts every operation of `steps` when they are
/// applied to it from first to last.
pub open spec fn all_accepted(account: AccountView, steps: Seq<(Operation, i64)>) -> bool
    decreases steps.len(),
{
    steps.len() == 0 || {
        &&& all_accepted(account, steps.drop_last())
        &&& after_all(account, steps.drop_last()).apply(steps.last().0, steps.last().1).1 is Ok
    }
}

/// Whether `steps` holds deposits and withdrawals only.
pub open spec fn only_transfers(steps: Seq<(Operation, i64)>) -> bool {
    forall|i: int| 0 <= i < steps.len() ==> (#[trigger] steps[i]).0.has_amount()
}

/// Deposits and withdrawals add up: after any sequence of them, the
/// available funds are what they were plus the accepted deposits minus the
/// accepted withdrawals, and the held funds and the lock are untouched. A
/// withdrawal that is refused counts for nothing.
pub proof fn lemma_transfers_add_up(account: AccountView, steps: Seq<(Operation, i64)>)
    requires
        only_transfers(steps),
    ensures
        after_all(account, steps).available == wrap(
            account.available + net_accepted(account, steps),
        ),
        after_all(account, steps).held == account.held,
        after_all(account, steps).locked == account.locked,
    decreases steps.len(),
{
    if steps.len() == 0 {
        lemma_wrap_within_range(account.available as int);
    } else {
        let front = steps.drop_last();
        assert(only_transfers(front)) by {
            assert forall|i: int| 0 <= i < front.len() implies (#[trigger] front[i]).0.has_amount() by {
                assert(front[i] == steps[i]);
            }
        }
        lemma_transfers_add_up(account, front);
        let before = after_all(account, front);
        let net = net_accepted(account, front);
        let (op, amount) = steps.last();
        assert(steps[steps.len() - 1].0.has_amount());
        if before.apply(op, amount).1 is Ok {
            if op is Deposit {
                lemma_wrap_of_sum(account.available + net, amount as int);
            } else {
                lemma_wrap_of_difference(account.available + net, amount as int);
            }
        }
    }
}

/// On a new account, after deposits and withdrawals only, nothing is held,
/// and the available funds are the accepted deposits minus the accepted
/// withdrawals; exactly so, with no wrapping, whenever that sum fits in 64
/// bits.
pub proof fn lemma_new_account_holds_net_transfers(steps: Seq<(Operation, i64)>)
    requires
        only_transfers(steps),
    ensures
        after_all(AccountView::opened(), steps).held == 0,
        !after_all(AccountView::opened(), steps).locked,
        after_all(AccountView::opened(), steps).available == wrap(
            net_accepted(AccountView::opened(), steps),
        ),
        i64::MIN <= net_accepted(AccountView::opened(), steps) <= i64::MAX ==> after_all(
            AccountView::opened(),
            steps,
        ).available == net_accepted(AccountView::opened(), steps),
{
    lemma_transfers_add_up(AccountView::opened(), steps);
}

/// Where every operation is accepted, the accepted deposits minus the
/// accepted withdrawals are all deposits minus all withdrawals.
pub proof fn lemma_all_accepted_counts_all(account: AccountView, steps: Seq<(Operation, i64)>)
    requires
        all_accepted(account, steps),
    ensures
        net_accepted(account, steps) == signed_sum(steps),
    decreases steps.len(),
{
    if steps.len() > 0 {
        lemma_all_accepted_counts_all(account, steps.drop_last());
    }
}

/// On a new account, deposits and withdrawals that are all accepted, and
/// whose sum fits in 64 bits, leave nothing held and make available
/// exactly the deposits minus the withdrawals.
pub proof fn lemma_new_account_holds_signed_sum(steps: Seq<(Operation, i64)>)
    requires
        only_transfers(steps),
        all_accepted(AccountView::opened(), steps),
        i64::MIN <= signed_sum(steps) <= i64::MAX,
    ensures
        after_all(AccountView::opened(), steps).available == signed_sum(steps),
        after_all(AccountView::opened(), steps).held == 0,
{
    lemma_all_accepted_counts_all(AccountView::opened(), steps);
    lemma_new_account_holds_net_transfers(steps);
}

/// A dispute that is accepted and then resolved for the same amount leaves
/// the account exactly as it was before the dispute.
pub proof fn lemma_dispute_then_resolve_restores(account: AccountView, amount: i64)
    requires
        account.dispute(amount).1 is Ok,
    ensures
        account.dispute(amount).0.resolve(amount).0 == account,
        account.dispute(amount).0.resolve(amount).1 == Ok::<i64, Error>(
            account.dispute(amount).0.available,
        ),
{
    lemma_wrap_of_sum(account.available - amount, amount as int);
    lemma_wrap_of_difference(account.held + amount, amount as int);
    lemma_wrap_within_range(account.available as int);
    lemma_wrap_within_range(account.held as int);
}

/// A dispute and a resolve move funds between available and held and leave
/// their total as it was.
pub proof fn lemma_dispute_and_resolve_keep_total(account: AccountView, amount: i64)
    ensures
        account.dispute(amount).0.total() == account.total(),
        account.resolve(amount).0.total() == account.total(),
{
    if account.dispute(amount).1 is Ok {
        lemma_wrap_of_sum(account.available - amount, wrap(account.held + amount) as int);
        lemma_wrap_of_sum(account.available - amount, account.held + amount);
    }
    if account.resolve(amount).1 is Ok {
        lemma_wrap_of_sum(account.available + amount, wrap(account.held - amount) as int);
        lemma_wrap_of_sum(account.available + amount, account.held - amount);
    }
}

/// An accepted deposit raises the total by its amount; an accepted
/// withdrawal and an accepted chargeback lower it by theirs.
pub proof fn lemma_total_follows_funds(account: AccountView, amount: i64)
    ensures
        account.deposit(amount).1 is Ok ==> account.deposit(amount).0.total() == wrap(
            account.total() + amount,
        ),
        account.withdraw(amount).1 is Ok ==> account.withdraw(amount).0.total() == wrap(
            account.total() - amount,
        ),
        account.chargeback(amount).1 is Ok ==> account.chargeback(amount).0.total() == wrap(
            account.total() - amount,
        ),
{
    lemma_wrap_of_sum(account.available + amount, account.held as int);
    lemma_wrap_of_sum(account.available + account.held, amount as int);
    lemma_wrap_of_sum(account.available - amount, account.held as int);
    lemma_wrap_of_difference(account.available + account.held, amount as int);
    lemma_wrap_of_sum(account.available as int, account.held - amount);
}

/// A locked account refuses every operation with `AccountIsLocked` and
/// stays as it is.
pub proof fn lemma_locked_refuses(account: AccountView, op: Operation, amount: i64)
    requires
        account.locked,
    ensures
        account.apply(op, amount) == (account, Err::<i64, Error>(Error::AccountIsLocked)),
{
}

/// No operation unlocks an account.
pub proof fn lemma_lock_stays(account: AccountView, op: Operation, amount: i64)
    requires
        account.locked,
    ensures
        account.apply(op, amount).0.locked,
{
}

/// A lock is for good: whatever operations follow, a locked account never
/// changes again.
pub proof fn lemma_locked_for_good(account: AccountView, steps: Seq<(Operation, i64)>)
    requires
        account.locked,
    ensures
        after_all(account, steps) == account,
    decreases steps.len(),
{
    if steps.len() > 0 {
        lemma_locked_for_good(account, steps.drop_last());
    }
}

/// An accepted dispute followed by a chargeback of the same amount locks
/// the account: what was held before the dispute is held again, the
/// disputed amount is gone from the available funds, and from then on every
/// operation is refused with `AccountIsLocked` and nothing changes any more.
pub proof fn lemma_chargeback_after_dispute_locks(
    account: AccountView,
    amount: i64,
    later: Seq<(Operation, i64)>,
    op: Operation,
    next: i64,
)
    requires
        account.dispute(amount).1 is Ok,
    ensures
        ({
            let charged = account.dispute(amount).0.chargeback(amount);
            let settled = after_all(charged.0, later);
            &&& charged.1 == Ok::<i64, Error>(wrap(account.available - amount))
            &&& charged.0 == AccountView {
                available: wrap(account.available - amount),
                held: account.held,
                locked: true,
            }
            &&& settled == charged.0
            &&& settled.apply(op, next) == (settled, Err::<i64, Error>(Error::AccountIsLocked))
        }),
{
    lemma_wrap_of_difference(account.held + amount, amount as int);
    lemma_wrap_within_range(account.held as int);
    lemma_locked_for_good(account.dispute(amount).0.chargeback(amount).0, later);
}

/// A withdrawal of more than is available is refused with `NotEnoughFunds`
/// and leaves an unlocked account as it was.
pub proof fn lemma_overdrawn_withdrawal_refused(account: AccountView, amount: i64)
    requires
        !account.locked,
        amount > account.available,
    ensures
        account.withdraw(amount) == (account, Err::<i64, Error>(Error::NotEnoughFunds)),
{
}

} // verus!
