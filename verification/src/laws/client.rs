//! Laws of a single client: its account together with its ledger.

use crate::bank::AccountView;
use crate::client::{ClientView, TxState};
use crate::error::Error;
use crate::laws::account::signed_amount;
use crate::money::{lemma_wrap_of_difference, lemma_wrap_of_sum, lemma_wrap_within_range, wrap};
use crate::operation::{lowercase_of, operation_named, Operation};
use crate::query::Query;
use crate::{TxId, UserId};
use vstd::prelude::*;

verus! {

/// The client after the operations of `steps`, each with its transaction
/// and amount, applied from first to last. An operation that is refused
/// changes no more than its contract says and the next one is applied all
/// the same.
pub open spec fn after_all(client: ClientView, steps: Seq<(Operation, TxId, i64)>) -> ClientView
    decreases steps.len(),
{
    if steps.len() == 0 {
        client
    } else {
        after_all(client, steps.drop_last()).perform(
            steps.last().0,
            steps.last().1,
            steps.last().2,
        ).0
    }
}

/// The deposits of `steps` minus its withdrawals, counting the operations
/// that are accepted when `steps` is applied to `client` from first to
/// last.
pub open spec fn net_accepted(client: ClientView, steps: Seq<(Operation, TxId, i64)>) -> int
    decreases steps.len(),
{
    if steps.len() == 0 {
        0
    } else {
        let before = after_all(client, steps.drop_last());
        let (op, tx, amount) = steps.last();
        net_accepted(client, steps.drop_last()) + if before.perform(op, tx, amount).1 is Ok {
            signed_amount(op, amount)
        } else {
            0
        }
    }
}

/// Whether `steps` holds deposits and withdrawals only.
pub open spec fn only_transfers(steps: Seq<(Operation, TxId, i64)>) -> bool {
    forall|i: int| 0 <= i < steps.len() ==> (#[trigger] steps[i]).0.has_amount()
}

/// Where a transaction stands, counted along the one way it can go.
pub open spec fn progress(state: TxState) -> int {
    match state {
        TxState::Active => 0,
        TxState::Disputed => 1,
        TxState::Retired => 2,
    }
}

/// The client after the records of `queries`, handed to it one by one from
/// first to last.
pub open spec fn dispatch_all(client: ClientView, queries: Seq<Query>) -> ClientView
    decreases queries.len(),
{
    if queries.len() == 0 {
        client
    } else {
        dispatch_all(client, queries.drop_last()).dispatch(queries.last()).0
    }
}

/// The operations that the records of `queries` ask for, in their order,
/// without the records whose word names no operation.
pub open spec fn steps_of(queries: Seq<Query>) -> Seq<(Operation, TxId, i64)>
    decreases queries.len(),
{
    if queries.len() == 0 {
        Seq::empty()
    } else {
        let last = queries.last();
        match operation_named(lowercase_of(last.query_type@)) {
            Some(op) => steps_of(queries.drop_last()).push((op, last.tx, last.amount)),
            None => steps_of(queries.drop_last()),
        }
    }
}

/// A record does to a client what the operation that its word names does,
/// and nothing where its word names none.
pub proof fn lemma_dispatch_is_perform_or_nothing(client: ClientView, query: Query)
    ensures
        client.dispatch(query).0 == client || exists|op: Operation|
            client.dispatch(query) == client.perform(op, query.tx, query.amount),
{
    let found = operation_named(lowercase_of(query.query_type@));
    if found is Some {
        assert(client.dispatch(query) == client.perform(found->0, query.tx, query.amount));
    }
}

/// A stream of records does to a client what the operations that it asks
/// for do: what is proved of operations holds of records.
pub proof fn lemma_records_are_steps(client: ClientView, queries: Seq<Query>)
    ensures
        dispatch_all(client, queries) == after_all(client, steps_of(queries)),
    decreases queries.len(),
{
    if queries.len() > 0 {
        let front = queries.drop_last();
        let last = queries.last();
        lemma_records_are_steps(client, front);
        match operation_named(lowercase_of(last.query_type@)) {
            Some(op) => {
                let step = (op, last.tx, last.amount);
                assert(steps_of(queries) == steps_of(front).push(step));
                assert(steps_of(front).push(step).drop_last() =~= steps_of(front));
            },
            None => {},
        }
    }
}

/// No operation changes the id of a client, and so no stream of
/// operations does.
pub proof fn lemma_id_stays(client: ClientView, steps: Seq<(Operation, TxId, i64)>)
    ensures
        after_all(client, steps).id == client.id,
    decreases steps.len(),
{
    if steps.len() > 0 {
        lemma_id_stays(client, steps.drop_last());
    }
}

/// No operation forgets a transaction or changes the amount that was
/// recorded for one, and a transaction only moves forward: from active to
/// disputed to retired.
pub proof fn lemma_ledger_only_grows(
    client: ClientView,
    op: Operation,
    tx: TxId,
    amount: i64,
    known: TxId,
)
    requires
        client.ledger.contains_key(known),
    ensures
        client.perform(op, tx, amount).0.ledger.contains_key(known),
        client.perform(op, tx, amount).0.ledger[known].amount == client.ledger[known].amount,
        progress(client.perform(op, tx, amount).0.ledger[known].state) >= progress(
            client.ledger[known].state,
        ),
{
}

/// What `lemma_ledger_only_grows` says of one operation holds of any
/// number of them.
pub proof fn lemma_ledger_only_grows_over_time(
    client: ClientView,
    steps: Seq<(Operation, TxId, i64)>,
    known: TxId,
)
    requires
        client.ledger.contains_key(known),
    ensures
        after_all(client, steps).ledger.contains_key(known),
        after_all(client, steps).ledger[known].amount == client.ledger[known].amount,
        progress(after_all(client, steps).ledger[known].state) >= progress(
            client.ledger[known].state,
        ),
    decreases steps.len(),
{
    if steps.len() > 0 {
        lemma_ledger_only_grows_over_time(client, steps.drop_last(), known);
        lemma_ledger_only_grows(
            after_all(client, steps.drop_last()),
            steps.last().0,
            steps.last().1,
            steps.last().2,
            known,
        );
    }
}

/// An operation that is refused leaves the funds of the client as they
/// were.
pub proof fn lemma_refused_keeps_funds(client: ClientView, op: Operation, tx: TxId, amount: i64)
    requires
        client.perform(op, tx, amount).1 is Err,
    ensures
        client.perform(op, tx, amount).0.account == client.account,
{
}

/// After a deposit or a withdrawal under the id `tx` the ledger holds `tx`,
/// whether the operation was accepted or not.
pub proof fn lemma_transfer_records_its_id(client: ClientView, op: Operation, tx: TxId, amount: i64)
    requires
        op.has_amount(),
    ensures
        client.perform(op, tx, amount).0.ledger.contains_key(tx),
{
}

/// Only a deposit and a withdrawal record a transaction: a dispute, a
/// resolve and a chargeback refer to one that is recorded and add none.
pub proof fn lemma_only_transfers_record(client: ClientView, op: Operation, tx: TxId, amount: i64)
    requires
        !op.has_amount(),
    ensures
        client.perform(op, tx, amount).0.ledger.dom() == client.ledger.dom(),
{
    assert(client.perform(op, tx, amount).0.ledger.dom() =~= client.ledger.dom());
}

/// A transaction id is used once: after a deposit or a withdrawal under the
/// id `tx`, and whatever operations follow, every further deposit and
/// withdrawal under `tx` is refused with `DuplicatedTx` and changes
/// nothing.
pub proof fn lemma_used_id_is_refused_for_good(
    client: ClientView,
    first: Operation,
    tx: TxId,
    amount: i64,
    later: Seq<(Operation, TxId, i64)>,
    again: i64,
)
    requires
        first.has_amount(),
    ensures
        ({
            let now = after_all(client.perform(first, tx, amount).0, later);
            &&& now.deposit(tx, again) == (now, Err::<i64, Error>(Error::DuplicatedTx))
            &&& now.withdraw(tx, again) == (now, Err::<i64, Error>(Error::DuplicatedTx))
        }),
{
    lemma_transfer_records_its_id(client, first, tx, amount);
    lemma_ledger_only_grows_over_time(client.perform(first, tx, amount).0, later, tx);
}

/// A resolve or a chargeback of a recorded transaction that is not under
/// dispute is refused with `NotUnderDispute` and changes nothing.
pub proof fn lemma_undisputed_is_refused(client: ClientView, tx: TxId)
    requires
        client.ledger.contains_key(tx),
        client.ledger[tx].state != TxState::Disputed,
    ensures
        client.resolve(tx) == (client, Err::<i64, Error>(Error::NotUnderDispute)),
        client.chargeback(tx) == (client, Err::<i64, Error>(Error::NotUnderDispute)),
{
}

/// A resolve or a chargeback that is accepted retires its transaction.
pub proof fn lemma_settled_is_retired(client: ClientView, tx: TxId)
    ensures
        client.resolve(tx).1 is Ok ==> client.resolve(tx).0.ledger.contains_key(tx)
            && client.resolve(tx).0.ledger[tx].state == TxState::Retired,
        client.chargeback(tx).1 is Ok ==> client.chargeback(tx).0.ledger.contains_key(tx)
            && client.chargeback(tx).0.ledger[tx].state == TxState::Retired,
{
}

/// A retired transaction is done with: whatever operations follow, it stays
/// retired, every resolve and chargeback of it is refused with
/// `NotUnderDispute`, every dispute of it with `AlreadyDisputed`, and none
/// of them changes anything.
pub proof fn lemma_retired_for_good(
    client: ClientView,
    tx: TxId,
    later: Seq<(Operation, TxId, i64)>,
)
    requires
        client.ledger.contains_key(tx),
        client.ledger[tx].state == TxState::Retired,
    ensures
        ({
            let now = after_all(client, later);
            &&& now.ledger.contains_key(tx)
            &&& now.ledger[tx].state == TxState::Retired
            &&& now.resolve(tx) == (now, Err::<i64, Error>(Error::NotUnderDispute))
            &&& now.chargeback(tx) == (now, Err::<i64, Error>(Error::NotUnderDispute))
            &&& now.dispute(tx) == (now, Err::<i64, Error>(Error::AlreadyDisputed))
        }),
{
    lemma_ledger_only_grows_over_time(client, later, tx);
}

/// A transaction is resolved at most once: after a resolve that was
/// accepted, and whatever operations follow, a second resolve is refused
/// with `NotUnderDispute`, and so is a chargeback, and a new dispute with
/// `AlreadyDisputed`.
pub proof fn lemma_no_second_resolve(
    client: ClientView,
    tx: TxId,
    later: Seq<(Operation, TxId, i64)>,
)
    requires
        client.resolve(tx).1 is Ok,
    ensures
        ({
            let now = after_all(client.resolve(tx).0, later);
            &&& now.resolve(tx) == (now, Err::<i64, Error>(Error::NotUnderDispute))
            &&& now.chargeback(tx) == (now, Err::<i64, Error>(Error::NotUnderDispute))
            &&& now.dispute(tx) == (now, Err::<i64, Error>(Error::AlreadyDisputed))
        }),
{
    lemma_settled_is_retired(client, tx);
    lemma_retired_for_good(client.resolve(tx).0, tx, later);
}

/// A dispute that is accepted and then resolved leaves the funds of the
/// client exactly as they were before the dispute, and the resolve is
/// accepted.
pub proof fn lemma_dispute_then_resolve_restores(client: ClientView, tx: TxId)
    requires
        client.dispute(tx).1 is Ok,
    ensures
        client.dispute(tx).0.resolve(tx).1 is Ok,
        client.dispute(tx).0.resolve(tx).0.account == client.account,
{
    crate::laws::account::lemma_dispute_then_resolve_restores(
        client.account,
        client.ledger[tx].amount,
    );
}

/// A locked account never changes again, whatever is asked of its client.
pub proof fn lemma_locked_for_good(client: ClientView, steps: Seq<(Operation, TxId, i64)>)
    requires
        client.account.locked,
    ensures
        after_all(client, steps).account == client.account,
    decreases steps.len(),
{
    if steps.len() > 0 {
        lemma_locked_for_good(client, steps.drop_last());
    }
}

/// An accepted dispute followed by a chargeback of the same transaction
/// locks the account: the chargeback is accepted, what was held before the
/// dispute is held again, and the disputed amount is gone from the
/// available funds. From then on the funds never change, and every deposit
/// and withdrawal under a new id is refused with `AccountIsLocked`.
pub proof fn lemma_chargeback_after_dispute_locks(
    client: ClientView,
    tx: TxId,
    later: Seq<(Operation, TxId, i64)>,
    fresh: TxId,
    amount: i64,
)
    requires
        client.dispute(tx).1 is Ok,
    ensures
        ({
            let charged = client.dispute(tx).0.chargeback(tx);
            let now = after_all(charged.0, later);
            &&& charged.1 is Ok
            &&& charged.0.account == AccountView {
                available: wrap(client.account.available - client.ledger[tx].amount),
                held: client.account.held,
                locked: true,
            }
            &&& now.account == charged.0.account
            &&& !now.ledger.contains_key(fresh) ==> {
                &&& now.deposit(fresh, amount).1 == Err::<i64, Error>(Error::AccountIsLocked)
                &&& now.withdraw(fresh, amount).1 == Err::<i64, Error>(Error::AccountIsLocked)
            }
        }),
{
    let spare: Seq<(Operation, i64)> = Seq::empty();
    crate::laws::account::lemma_chargeback_after_dispute_locks(
        client.account,
        client.ledger[tx].amount,
        spare,
        Operation::Deposit,
        amount,
    );
    lemma_locked_for_good(client.dispute(tx).0.chargeback(tx).0, later);
}

/// Deposits and withdrawals add up: after any sequence of them, the
/// available funds of the client are what they were plus the accepted
/// deposits minus the accepted withdrawals, and the held funds and the lock
/// are untouched. A deposit or withdrawal that is refused counts for
/// nothing.
pub proof fn lemma_transfers_add_up(client: ClientView, steps: Seq<(Operation, TxId, i64)>)
    requires
        only_transfers(steps),
    ensures
        after_all(client, steps).account.available == wrap(
            client.account.available + net_accepted(client, steps),
        ),
        after_all(client, steps).account.held == client.account.held,
        after_all(client, steps).account.locked == client.account.locked,
    decreases steps.len(),
{
    if steps.len() == 0 {
        lemma_wrap_within_range(client.account.available as int);
    } else {
        let front = steps.drop_last();
        assert(only_transfers(front)) by {
            assert forall|i: int| 0 <= i < front.len() implies (#[trigger] front[i]).0.has_amount() by {
                assert(front[i] == steps[i]);
            }
        }
        lemma_transfers_add_up(client, front);
        let before = after_all(client, front);
        let net = net_accepted(client, front);
        let (op, tx, amount) = steps.last();
        assert(steps[steps.len() - 1].0.has_amount());
        if before.perform(op, tx, amount).1 is Ok {
            if op is Deposit {
                lemma_wrap_of_sum(client.account.available + net, amount as int);
            } else {
                lemma_wrap_of_difference(client.account.available + net, amount as int);
            }
        }
    }
}

/// For a new client, after deposits and withdrawals only, nothing is held,
/// and the available funds are the accepted deposits minus the accepted
/// withdrawals; exactly so, with no wrapping, whenever that sum fits in 64
/// bits.
pub proof fn lemma_new_client_holds_net_transfers(id: UserId, steps: Seq<(Operation, TxId, i64)>)
    requires
        only_transfers(steps),
    ensures
        ({
            let now = after_all(ClientView::opened(id), steps).account;
            let net = net_accepted(ClientView::opened(id), steps);
            &&& now.held == 0
            &&& !now.locked
            &&& now.available == wrap(net)
            &&& i64::MIN <= net <= i64::MAX ==> now.available == net
        }),
{
    lemma_transfers_add_up(ClientView::opened(id), steps);
}

} // verus!
