//! The registry of adapters an application is built with.

use vstd::prelude::*;

use super::AdapterId;
use crate::ordered::{insert_sorted, lemma_sorted_unique, lemma_table_map_at, sorted_keys, table_map};
use crate::table::{find, has_key, key_index, lemma_lookup_at, lookup};
use crate::text::{owned, text_lt};

verus! {

/// Why the registry refused a request.
#[derive(Debug)]
pub enum RegistryError {
    AlreadyRegistered { id: String },
    UnknownAdapter { id: String },
}

/// Adapters keyed by their identifiers, in identifier order.
pub struct AdapterRegistry<A> {
    adapters: Vec<(String, A)>,
}

impl<A> AdapterRegistry<A> {
    /// The adapters by identifier.
    pub closed spec fn map(&self) -> Map<Seq<char>, A> {
        table_map(self.adapters@)
    }

    /// The identifiers ascend.
    pub closed spec fn wf(&self) -> bool {
        sorted_keys(self.adapters@)
    }

    /// An empty registry.
    pub fn new() -> (r: Self)
        ensures
            r.wf(),
            r.map() == Map::<Seq<char>, A>::empty(),
    {
        let r = AdapterRegistry { adapters: Vec::new() };
        assert(r.map() =~= Map::<Seq<char>, A>::empty());
        r
    }

    /// Stores an adapter under `id`. An adapter already registered under `id`
    /// is replaced, and the registration is then reported as a duplicate.
    pub fn register(&mut self, id: AdapterId, adapter: A) -> (r: Result<(), RegistryError>)
        requires
            old(self).wf(),
        ensures
            final(self).wf(),
            final(self).map() == old(self).map().insert(id@, adapter),
            r is Err <==> old(self).map().dom().contains(id@),
            r matches Err(e) ==> e matches RegistryError::AlreadyRegistered { id: x } && x@ == id@,
    {
        let key = owned(id.as_str());
        match find(&self.adapters, key.as_str()) {
            Some(i) => {
                let ghost before = self.adapters@;
                proof {
                    lemma_sorted_unique(before);
                }
                let k = owned(id.as_str());
                self.adapters.set(i, (k, adapter));
                proof {
                    let after = self.adapters@;
                    assert forall|p: int, q: int| 0 <= p < q < after.len() implies text_lt(#[trigger] after[p].0@, #[trigger] after[q].0@) by {
                        assert(after[p].0@ == before[p].0@);
                        assert(after[q].0@ == before[q].0@);
                    }
                    lemma_sorted_unique(after);
                    assert(table_map(after) =~= table_map(before).insert(id@, adapter)) by {
                        assert forall|k2: Seq<char>| #[trigger] has_key(after, k2) <==> has_key(before, k2) by {
                            if has_key(after, k2) {
                                let j = choose|j: int| 0 <= j < after.len() && (#[trigger] after[j]).0@ == k2;
                                assert(before[j].0@ == k2);
                            }
                            if has_key(before, k2) {
                                let j = choose|j: int| 0 <= j < before.len() && (#[trigger] before[j]).0@ == k2;
                                assert(after[j].0@ == k2);
                            }
                        }
                        assert forall|k2: Seq<char>| #[trigger] has_key(after, k2) implies table_map(after)[k2] == table_map(before).insert(id@, adapter)[k2] by {
                            let j = choose|j: int| 0 <= j < after.len() && (#[trigger] after[j]).0@ == k2;
                            lemma_table_map_at(after, j);
                            lemma_table_map_at(before, j);
                        }
                    }
                    lemma_table_map_at(before, i as int);
                }
                Err(RegistryError::AlreadyRegistered { id: key })
            },
            None => {
                insert_sorted(&mut self.adapters, key, adapter);
                Ok(())
            },
        }
    }

    /// The adapter registered under `id`.
    pub fn get(&self, id: &str) -> (r: Result<&A, RegistryError>)
        requires
            self.wf(),
        ensures
            r is Ok <==> self.map().dom().contains(id@),
            r matches Ok(a) ==> *a == self.map()[id@],
    {
        match find(&self.adapters, id) {
            Some(i) => {
                proof {
                    lemma_sorted_unique(self.adapters@);
                    lemma_table_map_at(self.adapters@, i as int);
                }
                Ok(&self.adapters[i].1)
            },
            None => Err(RegistryError::UnknownAdapter { id: owned(id) }),
        }
    }

    /// The registered adapters with their identifiers, in identifier order.
    pub fn iter(&self) -> (r: &Vec<(String, A)>)
        requires
            self.wf(),
        ensures
            sorted_keys(r@),
            table_map(r@) == self.map(),
    {
        &self.adapters
    }
}

/// What a registration does, read back: after `register` of `a` under
/// `id`, `get(id)` finds `a` and every other identifier finds what it found
/// before.
pub proof fn law_registry_read_after_register<A>(before: Map<Seq<char>, A>, after: Map<Seq<char>, A>, id: Seq<char>, a: A, other: Seq<char>)
    requires
        after == before.insert(id, a),
        other != id,
    ensures
        after.dom().contains(id) && after[id] == a,
        after.dom().contains(other) == before.dom().contains(other),
        before.dom().contains(other) ==> after[other] == before[other],
{
}

} // verus!
