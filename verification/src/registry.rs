//! All clients, by id, and the entry point that takes the records.

use crate::client::{Client, ClientView, REPORT_HEADER};
use crate::error::Error;
use crate::query::Query;
use crate::{AccountOwner, UserId};
use std::collections::hash_map::Entry;
use std::collections::HashMap;
use vstd::prelude::*;
use vstd::std_specs::hash::spec_keys_iter;
use vstd::std_specs::iter::IteratorSpec;

verus! {

broadcast use vstd::std_specs::hash::group_hash_axioms;

/// The clients that have been named by a record so far. A client comes
/// into being, with no funds and an empty ledger, when a record first names
/// its id, and stays for as long as the registry does.
pub struct Registry {
    clients: HashMap<UserId, Client>,
}

/// The registry as the contracts see it.
pub struct RegistryView {
    /// The clients, by id.
    pub clients: Map<UserId, ClientView>,
}

impl RegistryView {
    /// A registry without clients.
    pub open spec fn empty() -> RegistryView {
        RegistryView { clients: Map::empty() }
    }

    /// The client with the given id: the one that the registry holds, or a
    /// new one where it holds none.
    pub open spec fn client(self, id: UserId) -> ClientView {
        if self.clients.contains_key(id) {
            self.clients[id]
        } else {
            ClientView::opened(id)
        }
    }

    /// Whether every client is kept under its own id. A registry without
    /// clients does so, and handling records keeps it so.
    pub open spec fn well_keyed(self) -> bool {
        forall|id: UserId| #[trigger] self.clients.contains_key(id) ==> self.clients[id].id == id
    }

    /// The rows of the clients with the ids of `order`, in that order.
    pub open spec fn rows(self, order: Seq<UserId>) -> Seq<Seq<char>> {
        Seq::new(order.len(), |i: int| self.client(order[i]).row())
    }

    /// Whether `order` holds the id of every client, each once.
    pub open spec fn lists_all(self, order: Seq<UserId>) -> bool {
        order.no_duplicates() && order.to_set() == self.clients.dom()
    }

    /// The registry with `client` under the given id.
    pub open spec fn with(self, id: UserId, client: ClientView) -> RegistryView {
        RegistryView { clients: self.clients.insert(id, client) }
    }

    /// The registry after the record `query`, and the answer: the record
    /// goes to the client that it names, which is created first where the
    /// registry does not hold it. No other client changes.
    pub open spec fn handle(self, query: Query) -> (RegistryView, Result<i64, Error>) {
        let (client, answer) = self.client(query.user_id).dispatch(query);
        (self.with(query.user_id, client), answer)
    }

    /// The registry after the records of `queries`, taken from first to
    /// last, and the answer to each. A record that is refused does not stop
    /// the ones after it.
    pub open spec fn process(self, queries: Seq<Query>) -> (
        RegistryView,
        Seq<Result<i64, Error>>,
    )
        decreases queries.len(),
    {
        if queries.len() == 0 {
            (self, Seq::empty())
        } else {
            let (before, answers) = self.process(queries.drop_last());
            let (after, answer) = before.handle(queries.last());
            (after, answers.push(answer))
        }
    }
}

impl View for Registry {
    type V = RegistryView;

    closed spec fn view(&self) -> RegistryView {
        RegistryView { clients: views(self.clients@) }
    }
}

/// The views of the clients of a map, under the same ids.
spec fn views(clients: Map<UserId, Client>) -> Map<UserId, ClientView> {
    clients.map_values(|client: Client| client@)
}

/// Putting a client into a map of clients puts its view into the map of
/// their views.
proof fn lemma_views_follow_insert(clients: Map<UserId, Client>, id: UserId)
    ensures
        forall|client: Client| #[trigger]
            views(clients.insert(id, client)) == views(clients).insert(id, client@),
{
    assert forall|client: Client| #[trigger]
        views(clients.insert(id, client)) == views(clients).insert(id, client@) by {
        assert(views(clients.insert(id, client)) =~= views(clients).insert(id, client@));
    }
}

impl Registry {
    /// A registry without clients.
    pub fn new() -> (registry: Registry)
        ensures
            registry@ == RegistryView::empty(),
    {
        let registry = Registry { clients: HashMap::new() };
        assert(registry@.clients =~= Map::empty());
        registry
    }

    /// The client with the given id. Where the registry holds none, a new
    /// one with no funds and an empty ledger is put in first. What the
    /// caller does to the client through the reference is what the registry
    /// holds for `id` afterwards; no other client changes.
    pub fn get_or_create(&mut self, id: UserId) -> (client: &mut Client)
        ensures
            client@ == old(self)@.client(id),
            final(self)@ == old(self)@.with(id, final(client)@),
    {
        proof {
            lemma_views_follow_insert(self.clients@, id);
        }
        match self.clients.entry(id) {
            Entry::Occupied(occupied) => occupied.into_mut(),
            Entry::Vacant(vacant) => vacant.insert(Client::new(id)),
        }
    }

    /// The client with the given id, if a record has named it.
    pub fn get(&self, id: UserId) -> (client: Option<&Client>)
        ensures
            match client {
                Some(client) => self@.clients.contains_key(id) && client@ == self@.clients[id],
                None => !self@.clients.contains_key(id),
            },
    {
        self.clients.get(&id)
    }

    /// How many clients the registry holds.
    pub fn len(&self) -> (count: usize)
        ensures
            count == self@.clients.len(),
    {
        proof {
            assert(self@.clients.dom() =~= self.clients@.dom());
        }
        self.clients.len()
    }

    /// The ids of the clients that the registry holds, each once, in no
    /// particular order.
    pub fn ids(&self) -> (ids: Vec<UserId>)
        ensures
            ids@.no_duplicates(),
            ids@.to_set() == self@.clients.dom(),
    {
        let mut ids: Vec<UserId> = Vec::new();
        let ghost order = spec_keys_iter(&self.clients).remaining();
        for id in keys: self.clients.keys()
            invariant
                keys.seq() == order,
                ids@ == order.unref().take(keys.index()),
        {
            ids.push(*id);
            proof {
                assert(order.unref().take(keys.index() + 1) =~= order.unref().take(
                    keys.index(),
                ).push(*id));
            }
        }
        proof {
            let all = order.unref();
            assert(all.take(all.len() as int) =~= all);
            assert(self@.clients.dom() =~= self.clients@.dom());
            assert forall|i: int, j: int|
                0 <= i < all.len() && 0 <= j < all.len() && i != j implies all[i] != all[j] by {
                assert(order[i] != order[j]);
            }
        }
        ids
    }

    /// The report on all clients: the header, then one row for each client.
    /// The rows come in no particular order.
    pub fn report(&self) -> (lines: Vec<String>)
        ensures
            lines@.len() == self@.clients.len() + 1,
            lines@[0]@ == REPORT_HEADER@,
            exists|order: Seq<UserId>|
                self@.lists_all(order) && #[trigger] self@.rows(order) == lines@.skip(1).map_values(
                    |line: String| line@,
                ),
    {
        let ids: Vec<UserId> = self.ids();
        let mut lines: Vec<String> = Vec::new();
        lines.push(REPORT_HEADER.to_owned());
        let mut i: usize = 0;
        while i < ids.len()
            invariant
                i <= ids.len(),
                self@.lists_all(ids@),
                lines@.len() == i + 1,
                lines@[0]@ == REPORT_HEADER@,
                forall|k: int| 0 <= k < i ==> (#[trigger] lines@[k + 1])@ == self@.client(ids@[k]).row(),
            decreases ids.len() - i,
        {
            match self.get(ids[i]) {
                Some(client) => {
                    lines.push(client.render());
                },
                None => {
                    // every id of `ids` is the id of a client
                    assert(ids@.to_set().contains(ids@[i as int]));
                },
            }
            i += 1;
        }
        proof {
            let texts = lines@.skip(1).map_values(|line: String| line@);
            assert(self@.rows(ids@) =~= texts) by {
                assert forall|k: int| 0 <= k < ids@.len() implies self@.rows(ids@)[k] == texts[k] by {
                    assert(lines@.skip(1)[k] == lines@[k + 1]);
                }
            }
            ids@.unique_seq_to_set();
        }
        lines
    }

    /// Hands the record `query` to the client that it names, which is
    /// created first where the registry does not hold it, and returns that
    /// client's answer.
    pub fn handle(&mut self, query: Query) -> (r: Result<i64, Error>)
        ensures
            (final(self)@, r) == old(self)@.handle(query),
    {
        let client = self.get_or_create(query.user_id());
        client.dispatch(query)
    }

    /// Handles the records of `queries` from first to last and returns the
    /// answer to each, in the same order. A record that is refused changes
    /// no more than its answer says, and the records after it are handled
    /// all the same.
    pub fn process(&mut self, queries: Vec<Query>) -> (answers: Vec<Result<i64, Error>>)
        ensures
            (final(self)@, answers@) == old(self)@.process(queries@),
    {
        let mut answers: Vec<Result<i64, Error>> = Vec::new();
        let ghost start = self@;
        let ghost all = queries@;
        for query in records: queries.into_iter()
            invariant
                records.seq() == all,
                (self@, answers@) == start.process(all.take(records.index() as int)),
        {
            proof {
                let done = all.take(records.index() as int);
                let next = all.take(records.index() + 1);
                assert(next.drop_last() =~= done);
                assert(next.last() == query);
            }
            let answer: Result<i64, Error> = self.handle(query);
            answers.push(answer);
        }
        proof {
            assert(all.take(all.len() as int) =~= all);
        }
        answers
    }
}

} // verus!
