//! Facts observed from the current environment, kept apart from the
//! declared configuration. Nothing observes implicitly: a caller collects
//! observations and attaches them to a plan explicitly.

use vstd::prelude::*;

use crate::ordered::{lemma_sorted_unique, lemma_table_map_at, sorted_keys, table_map, insert_sorted};
use crate::table::unique_keys;

verus! {

/// An observed IPv4 or IPv6 address.
#[derive(Clone, Copy, Debug, PartialEq, Eq, Structural)]
pub enum IpAddress {
    V4(u32),
    V6(u128),
}

/// Observed state for one interface.
#[derive(Debug)]
pub struct InterfaceObservation {
    pub addresses: Vec<IpAddress>,
    pub mac_address: Option<String>,
    pub default_route: bool,
}

/// Observed state for one known or candidate host.
#[derive(Debug)]
pub struct HostObservation {
    pub addresses: Vec<IpAddress>,
    pub interfaces: Vec<(String, InterfaceObservation)>,
    pub attributes: Vec<(String, String)>,
}

/// Facts observed from the current environment, by host and by key.
#[derive(Debug)]
pub struct ObservationSet {
    pub hosts: Vec<(String, HostObservation)>,
    pub metadata: Vec<(String, String)>,
}

/// The entries of a table up to position `i + 1` are those up to `i` with
/// entry `i` added.
proof fn lemma_table_map_take<V>(s: Seq<(String, V)>, i: int)
    requires
        unique_keys(s),
        0 <= i < s.len(),
    ensures
        table_map(s.take(i + 1)) == table_map(s.take(i)).insert(s[i].0@, s[i].1),
{
    let a = s.take(i + 1);
    let c = s.take(i);
    assert(unique_keys(a));
    assert(unique_keys(c));
    lemma_table_map_at(a, i);
    assert forall|k: Seq<char>| #[trigger] table_map(a).dom().contains(k) <==> table_map(c).insert(s[i].0@, s[i].1).dom().contains(k) by {
        if table_map(a).dom().contains(k) && k != s[i].0@ {
            let j = choose|j: int| 0 <= j < a.len() && (#[trigger] a[j]).0@ == k;
            assert(c[j] == a[j]);
        }
        if table_map(c).dom().contains(k) {
            let j = choose|j: int| 0 <= j < c.len() && (#[trigger] c[j]).0@ == k;
            assert(a[j] == c[j]);
        }
    }
    assert forall|k: Seq<char>| table_map(a).dom().contains(k) implies #[trigger] table_map(a)[k] == table_map(c).insert(s[i].0@, s[i].1)[k] by {
        if k != s[i].0@ {
            let j = choose|j: int| 0 <= j < a.len() && (#[trigger] a[j]).0@ == k;
            assert(j != i);
            assert(c[j] == a[j]);
            lemma_table_map_at(a, j);
            lemma_table_map_at(c, j);
        }
    }
    assert(table_map(a) =~= table_map(c).insert(s[i].0@, s[i].1));
}

/// Adds the entries of `other` to `t`; an entry of `other` replaces the one
/// of `t` with the same name.
fn merge_table<V>(t: &mut Vec<(String, V)>, other: Vec<(String, V)>)
    requires
        sorted_keys(old(t)@),
        sorted_keys(other@),
    ensures
        sorted_keys(final(t)@),
        table_map(final(t)@) == table_map(old(t)@).union_prefer_right(table_map(other@)),
{
    let ghost start = table_map(t@);
    let ghost all = other@;
    proof {
        lemma_sorted_unique(all);
        assert(table_map(all.take(0)) =~= Map::<Seq<char>, V>::empty());
        assert(start.union_prefer_right(Map::<Seq<char>, V>::empty()) =~= start);
    }
    let mut rest = other;
    let ghost mut done: int = 0;
    while rest.len() > 0
        invariant
            0 <= done <= all.len(),
            unique_keys(all),
            rest@ == all.skip(done),
            sorted_keys(t@),
            table_map(t@) == start.union_prefer_right(table_map(all.take(done))),
        decreases rest@.len(),
    {
        let ghost before = rest@;
        let (k, v) = rest.remove(0);
        proof {
            assert(before[0] == all[done]);
            lemma_table_map_take(all, done);
        }
        let ghost m0 = table_map(t@);
        insert_sorted(t, k, v);
        proof {
            let prev = table_map(all.take(done));
            assert(start.union_prefer_right(prev.insert(all[done].0@, all[done].1)) =~= m0.insert(all[done].0@, all[done].1));
            assert(rest@ =~= all.skip(done + 1));
            done = done + 1;
        }
    }
    assert(all.take(done) =~= all);
}

impl ObservationSet {
    /// Names of hosts and metadata keys ascend.
    pub open spec fn wf(&self) -> bool {
        sorted_keys(self.hosts@) && sorted_keys(self.metadata@)
    }

    /// No observations.
    pub fn empty() -> (r: Self)
        ensures
            r.wf(),
            r.hosts@.len() == 0,
            r.metadata@.len() == 0,
    {
        ObservationSet { hosts: Vec::new(), metadata: Vec::new() }
    }

    /// Adds the observations of `other`; where both observed a host or a
    /// metadata key, `other`'s observation replaces this one's.
    pub fn merge(&mut self, other: Self)
        requires
            old(self).wf(),
            other.wf(),
        ensures
            final(self).wf(),
            table_map(final(self).hosts@) == table_map(old(self).hosts@).union_prefer_right(table_map(other.hosts@)),
            table_map(final(self).metadata@) == table_map(old(self).metadata@).union_prefer_right(table_map(other.metadata@)),
    {
        let ObservationSet { hosts, metadata } = other;
        merge_table(&mut self.hosts, hosts);
        merge_table(&mut self.metadata, metadata);
    }
}

} // verus!
