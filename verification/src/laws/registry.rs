//! Laws of the registry: how a stream of records bears on the clients.

use crate::laws::client::dispatch_all;
use crate::query::Query;
use crate::registry::RegistryView;
use crate::UserId;
use vstd::prelude::*;

verus! {

/// The test that picks out the records for the client `id`.
pub open spec fn is_for(id: UserId) -> spec_fn(Query) -> bool {
    |query: Query| query.user_id == id
}

/// The records of `queries` that are for the client `id`, in their order.
pub open spec fn records_of(queries: Seq<Query>, id: UserId) -> Seq<Query> {
    queries.filter(is_for(id))
}

/// A record changes the client that it names and no other: that client is
/// in the registry afterwards, and every other id holds what it held
/// before, or nothing where it held nothing.
pub proof fn lemma_handle_touches_one_client(registry: RegistryView, query: Query, other: UserId)
    requires
        other != query.user_id,
    ensures
        registry.handle(query).0.clients.contains_key(query.user_id),
        registry.handle(query).0.clients.contains_key(other) == registry.clients.contains_key(
            other,
        ),
        registry.handle(query).0.client(other) == registry.client(other),
{
}

/// There is one answer for each record.
pub proof fn lemma_one_answer_per_record(registry: RegistryView, queries: Seq<Query>)
    ensures
        registry.process(queries).1.len() == queries.len(),
    decreases queries.len(),
{
    if queries.len() > 0 {
        lemma_one_answer_per_record(registry, queries.drop_last());
    }
}

/// Handling one stream of records and then another is handling the two as
/// one stream.
pub proof fn lemma_process_in_two_parts(
    registry: RegistryView,
    first: Seq<Query>,
    second: Seq<Query>,
)
    ensures
        registry.process(first + second).0 == registry.process(first).0.process(second).0,
        registry.process(first + second).1 == registry.process(first).1 + registry.process(
            first,
        ).0.process(second).1,
    decreases second.len(),
{
    let middle = registry.process(first);
    if second.len() == 0 {
        assert(first + second =~= first);
        assert(middle.1 + middle.0.process(second).1 =~= middle.1);
    } else {
        assert((first + second).drop_last() =~= first + second.drop_last());
        assert((first + second).last() == second.last());
        lemma_process_in_two_parts(registry, first, second.drop_last());
        let answers = middle.0.process(second.drop_last()).1;
        let answer = middle.0.process(second.drop_last()).0.handle(second.last()).1;
        assert((middle.1 + answers).push(answer) =~= middle.1 + answers.push(answer));
    }
}

/// Clients do not bear on one another: after any stream of records, each
/// client is what it becomes when the records that name it, and no others,
/// are handed to it in their order. A client is in the registry afterwards
/// if it was before or if a record named it.
pub proof fn lemma_clients_are_independent(
    registry: RegistryView,
    queries: Seq<Query>,
    id: UserId,
)
    ensures
        registry.process(queries).0.client(id) == dispatch_all(
            registry.client(id),
            records_of(queries, id),
        ),
        registry.process(queries).0.clients.contains_key(id) <==> registry.clients.contains_key(
            id,
        ) || records_of(queries, id).len() > 0,
    decreases queries.len(),
{
    reveal(Seq::filter);
    if queries.len() > 0 {
        let front = queries.drop_last();
        let last = queries.last();
        lemma_clients_are_independent(registry, front, id);
        if last.user_id == id {
            let mine = records_of(front, id);
            assert(records_of(queries, id) == mine.push(last));
            assert(mine.push(last).drop_last() =~= mine);
        } else {
            assert(records_of(queries, id) == records_of(front, id));
        }
    }
}

/// A registry that keeps every client under its own id still does so after
/// any stream of records.
pub proof fn lemma_clients_keep_their_ids(registry: RegistryView, queries: Seq<Query>)
    requires
        registry.well_keyed(),
    ensures
        registry.process(queries).0.well_keyed(),
    decreases queries.len(),
{
    if queries.len() > 0 {
        lemma_clients_keep_their_ids(registry, queries.drop_last());
        let before = registry.process(queries.drop_last()).0;
        let last = queries.last();
        assert(before.client(last.user_id).id == last.user_id);
        assert forall|id: UserId| #[trigger]
            before.handle(last).0.clients.contains_key(id) implies before.handle(
            last,
        ).0.clients[id].id == id by {
            if id != last.user_id {
                assert(before.clients.contains_key(id));
            }
        }
    }
}

/// Starting from no clients, every client is kept under its own id.
pub proof fn lemma_ids_from_the_start(queries: Seq<Query>)
    ensures
        RegistryView::empty().process(queries).0.well_keyed(),
{
    lemma_clients_keep_their_ids(RegistryView::empty(), queries);
}

/// A record that is refused leaves the funds of every client as they were.
pub proof fn lemma_refused_record_keeps_funds(registry: RegistryView, query: Query, id: UserId)
    requires
        registry.handle(query).1 is Err,
    ensures
        registry.handle(query).0.client(id).account == registry.client(id).account,
{
}

} // verus!
