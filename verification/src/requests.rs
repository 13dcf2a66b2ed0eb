//! Requests by name.
use vstd::prelude::*;

use crate::goose::GooseRequest;
use crate::goose::RequestView;

verus! {

/// A table of requests in which no name occurs twice.
#[derive(Debug)]
pub struct RequestTable {
    entries: Vec<(String, GooseRequest)>,
}

/// Whether one of `entries` goes by `name`.
spec fn named(entries: Seq<(String, GooseRequest)>, name: Seq<char>) -> bool {
    exists|i: int| 0 <= i < entries.len() && (#[trigger] entries[i]).0@ == name
}

/// The entry that goes by `name`.
spec fn entry(entries: Seq<(String, GooseRequest)>, name: Seq<char>) -> GooseRequest {
    entries[choose|i: int| 0 <= i < entries.len() && (#[trigger] entries[i]).0@ == name].1
}

impl View for RequestTable {
    type V = Map<Seq<char>, RequestView>;

    closed spec fn view(&self) -> Map<Seq<char>, RequestView> {
        Map::new(
            |name: Seq<char>| named(self.entries@, name),
            |name: Seq<char>| entry(self.entries@, name)@,
        )
    }
}

impl RequestTable {
    /// Whether no name occurs twice.
    pub closed spec fn wf(&self) -> bool {
        forall|i: int, j: int|
            0 <= i < j < self.entries@.len() ==> (#[trigger] self.entries@[i]).0@ != (
            #[trigger] self.entries@[j]).0@
    }

    /// The names of the table, in the order in which they were first inserted.
    pub closed spec fn names(&self) -> Seq<Seq<char>> {
        self.entries@.map_values(|e: (String, GooseRequest)| e.0@)
    }

    /// The names are those of the requests in the table, each once.
    pub proof fn lemma_names(&self)
        requires
            self.wf(),
        ensures
            self.names().no_duplicates(),
            forall|name: Seq<char>| #[trigger]
                self@.contains_key(name) <==> self.names().contains(name),
    {
        assert forall|name: Seq<char>| #[trigger]
            self@.contains_key(name) <==> self.names().contains(name) by {
            if self@.contains_key(name) {
                let i = choose|i: int|
                    0 <= i < self.entries@.len() && (#[trigger] self.entries@[i]).0@ == name;
                assert(self.names()[i] == name);
            }
            if self.names().contains(name) {
                let i = choose|i: int| 0 <= i < self.names().len() && self.names()[i] == name;
                assert(self.entries@[i].0@ == name);
            }
        }
    }

    /// What stands at an index is what goes by its name.
    proof fn lemma_at(&self, i: int)
        requires
            self.wf(),
            0 <= i < self.entries@.len(),
        ensures
            self@.contains_key(self.entries@[i].0@),
            self@[self.entries@[i].0@] == self.entries@[i].1@,
    {
        let name = self.entries@[i].0@;
        assert(named(self.entries@, name));
        let j = choose|j: int|
            0 <= j < self.entries@.len() && (#[trigger] self.entries@[j]).0@ == name;
        assert(i == j);
    }

    /// An empty table.
    pub fn new() -> (table: RequestTable)
        ensures
            table.wf(),
            table@ == Map::<Seq<char>, RequestView>::empty(),
            table.names().len() == 0,
    {
        let table = RequestTable { entries: Vec::new() };
        assert(table@ =~= Map::<Seq<char>, RequestView>::empty());
        table
    }

    /// How many requests the table holds.
    pub fn len(&self) -> (len: usize)
        ensures
            len == self.names().len(),
    {
        self.entries.len()
    }

    /// The name and the request at an index.
    pub fn at(&self, i: usize) -> (e: (&String, &GooseRequest))
        requires
            self.wf(),
            i < self.names().len(),
        ensures
            e.0@ == self.names()[i as int],
            self@.contains_key(e.0@),
            self@[e.0@] == e.1@,
    {
        proof {
            self.lemma_at(i as int);
        }
        (&self.entries[i].0, &self.entries[i].1)
    }

    /// Where the request that goes by `name` stands.
    fn position(&self, name: &String) -> (position: Option<usize>)
        ensures
            match position {
                Some(i) => i < self.entries@.len() && self.entries@[i as int].0@ == name@,
                None => !named(self.entries@, name@),
            },
    {
        let mut i: usize = 0;
        while i < self.entries.len()
            invariant
                i <= self.entries@.len(),
                forall|j: int| 0 <= j < i ==> (#[trigger] self.entries@[j]).0@ != name@,
            decreases self.entries@.len() - i,
        {
            if self.entries[i].0 == *name {
                return Some(i);
            }
            i += 1;
        }
        None
    }

    /// The request that goes by `name`.
    pub fn get(&self, name: &String) -> (request: Option<&GooseRequest>)
        requires
            self.wf(),
        ensures
            match request {
                Some(r) => self@.contains_key(name@) && self@[name@] == r@,
                None => !self@.contains_key(name@),
            },
    {
        match self.position(name) {
            Some(i) => {
                proof {
                    self.lemma_at(i as int);
                }
                Some(&self.entries[i].1)
            },
            None => None,
        }
    }

    /// Puts a request under `name`, in place of the one that was there.
    pub fn insert(&mut self, name: String, request: GooseRequest)
        requires
            old(self).wf(),
        ensures
            final(self).wf(),
            final(self)@ == old(self)@.insert(name@, request@),
            final(self).names() == if old(self)@.contains_key(name@) {
                old(self).names()
            } else {
                old(self).names().push(name@)
            },
    {
        let ghost before = *self;
        match self.position(&name) {
            Some(i) => {
                self.entries.set(i, (name, request));
                assert(self.names() =~= before.names());
                proof {
                    lemma_inserted(before, *self, i as int);
                }
            },
            None => {
                self.entries.push((name, request));
                assert(self.names() =~= before.names().push(name@));
                proof {
                    lemma_inserted(before, *self, before.entries@.len() as int);
                }
            },
        }
    }
}

/// A table that differs from `before` only in the request at `k`, whose name may be new.
proof fn lemma_inserted(before: RequestTable, after: RequestTable, k: int)
    requires
        before.wf(),
        after.wf(),
        0 <= k < after.entries@.len(),
        after.entries@.len() == before.entries@.len() || (after.entries@.len()
            == before.entries@.len() + 1 && k == before.entries@.len()),
        forall|i: int|
            0 <= i < before.entries@.len() && i != k ==> after.entries@[i]
                == #[trigger] before.entries@[i],
        k < before.entries@.len() ==> before.entries@[k].0@ == after.entries@[k].0@,
    ensures
        after@ == before@.insert(after.entries@[k].0@, after.entries@[k].1@),
{
    let name = after.entries@[k].0@;
    let goal = before@.insert(name, after.entries@[k].1@);
    after.lemma_at(k);
    assert forall|n: Seq<char>| #[trigger]
        after@.contains_key(n) == goal.contains_key(n) && (after@.contains_key(n) ==> after@[n]
            == goal[n]) by {
        if n != name && before@.contains_key(n) {
            let i = choose|i: int|
                0 <= i < before.entries@.len() && (#[trigger] before.entries@[i]).0@ == n;
            before.lemma_at(i);
            after.lemma_at(i);
        }
        if n != name && after@.contains_key(n) {
            let i = choose|i: int|
                0 <= i < after.entries@.len() && (#[trigger] after.entries@[i]).0@ == n;
            after.lemma_at(i);
            before.lemma_at(i);
        }
    }
    assert(after@ =~= goal);
}

} // verus!
