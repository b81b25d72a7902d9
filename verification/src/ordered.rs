//! Tables kept in ascending name order, read as maps.
//!
//! A sorted map of the configuration (and each map a plan builds) is held as
//! a vector of `(name, entry)` pairs whose names strictly ascend; reading it
//! in vector order is reading it in name order.

use vstd::prelude::*;

use crate::table::{has_key, key_index, lemma_lookup_at, unique_keys};
use crate::text::{
    lemma_text_lt_irreflexive, lemma_text_lt_total, lemma_text_lt_transitive, str_eq, text_less,
    text_lt,
};

verus! {

/// Names strictly ascend.
pub open spec fn sorted_keys<V>(s: Seq<(String, V)>) -> bool {
    forall|i: int, j: int| 0 <= i < j < s.len() ==> text_lt(#[trigger] s[i].0@, #[trigger] s[j].0@)
}

/// The table as a map from names to entries.
pub open spec fn table_map<V>(s: Seq<(String, V)>) -> Map<Seq<char>, V> {
    Map::new(|k: Seq<char>| has_key(s, k), |k: Seq<char>| s[key_index(s, k)].1)
}

/// Ascending names are unique.
pub proof fn lemma_sorted_unique<V>(s: Seq<(String, V)>)
    requires
        sorted_keys(s),
    ensures
        unique_keys(s),
{
    assert forall|i: int, j: int| 0 <= i < s.len() && 0 <= j < s.len() && i != j implies s[i].0@
        != s[j].0@ by {
        if i < j {
            assert(text_lt(s[i].0@, s[j].0@));
            lemma_text_lt_irreflexive(s[i].0@);
        } else {
            assert(text_lt(s[j].0@, s[i].0@));
            lemma_text_lt_irreflexive(s[j].0@);
        }
    }
}

/// The entry at position `i` of a table with unique names is what the map
/// gives for its name.
pub proof fn lemma_table_map_at<V>(s: Seq<(String, V)>, i: int)
    requires
        unique_keys(s),
        0 <= i < s.len(),
    ensures
        table_map(s).dom().contains(s[i].0@),
        table_map(s)[s[i].0@] == s[i].1,
{
    lemma_lookup_at(s, i);
}

/// Sets the entry named `k` to `v`, adding the name in its place if it is new.
pub fn insert_sorted<V>(t: &mut Vec<(String, V)>, k: String, v: V)
    requires
        sorted_keys(old(t)@),
    ensures
        sorted_keys(final(t)@),
        table_map(final(t)@) == table_map(old(t)@).insert(k@, v),
{
    let ghost s = t@;
    let mut i: usize = 0;
    while i < t.len() && text_less(t[i].0.as_str(), k.as_str())
        invariant
            i <= t@.len(),
            t@ == s,
            forall|j: int| 0 <= j < i ==> text_lt(#[trigger] s[j].0@, k@),
        decreases t@.len() - i,
    {
        i = i + 1;
    }
    proof {
        lemma_sorted_unique(s);
    }
    if i < t.len() && str_eq(t[i].0.as_str(), k.as_str()) {
        let ghost kk = k@;
        t.set(i, (k, v));
        proof {
            let n = t@;
            assert(n == s.update(i as int, (n[i as int].0, v)));
            assert(sorted_keys(n)) by {
                assert forall|a: int, b: int| 0 <= a < b < n.len() implies text_lt(
                    #[trigger] n[a].0@,
                    #[trigger] n[b].0@,
                ) by {
                    assert(text_lt(s[a].0@, s[b].0@));
                }
            }
            lemma_sorted_unique(n);
            assert(table_map(n) =~= table_map(s).insert(kk, v)) by {
                assert forall|q: Seq<char>| #[trigger] has_key(n, q) <==> (has_key(s, q) || q
                    == kk) by {
                    if has_key(n, q) {
                        let j = key_index(n, q);
                        assert(s[j].0@ == q);
                    }
                    if has_key(s, q) {
                        let j = key_index(s, q);
                        assert(n[j].0@ == q);
                    }
                    if q == kk {
                        assert(n[i as int].0@ == q);
                    }
                }
                assert forall|q: Seq<char>| #[trigger] table_map(n).dom().contains(q) implies
                    table_map(n)[q] == table_map(s).insert(kk, v)[q] by {
                    let j = key_index(n, q);
                    lemma_lookup_at(n, j);
                    if q != kk {
                        lemma_lookup_at(s, j);
                    }
                }
            }
        }
    } else {
        let ghost kk = k@;
        proof {
            if i < s.len() {
                lemma_text_lt_total(s[i as int].0@, kk);
            }
        }
        t.insert(i, (k, v));
        proof {
            let n = t@;
            assert(n.len() == s.len() + 1);
            assert(forall|j: int| 0 <= j < i ==> n[j] == s[j]);
            assert(forall|j: int| i < j < n.len() ==> n[j] == s[j - 1]);
            assert(n[i as int].0@ == kk);
            assert(sorted_keys(n)) by {
                assert forall|a: int, b: int| 0 <= a < b < n.len() implies text_lt(
                    #[trigger] n[a].0@,
                    #[trigger] n[b].0@,
                ) by {
                    if b < i {
                        assert(text_lt(s[a].0@, s[b].0@));
                    } else if b == i {
                        assert(text_lt(s[a].0@, kk));
                    } else if a == i {
                        if b - 1 > i {
                            assert(text_lt(s[i as int].0@, s[b - 1].0@));
                            lemma_text_lt_transitive(kk, s[i as int].0@, s[b - 1].0@);
                        }
                    } else if a < i {
                        assert(text_lt(s[a].0@, kk));
                        assert(text_lt(s[a].0@, s[b - 1].0@));
                    } else {
                        assert(text_lt(s[a - 1].0@, s[b - 1].0@));
                    }
                }
            }
            lemma_sorted_unique(n);
            assert(!has_key(s, kk)) by {
                if has_key(s, kk) {
                    let j = key_index(s, kk);
                    if j < i {
                        assert(text_lt(s[j].0@, kk));
                        lemma_text_lt_irreflexive(kk);
                    } else if j > i {
                        assert(text_lt(s[i as int].0@, s[j].0@));
                        lemma_text_lt_total(s[i as int].0@, kk);
                    }
                }
            }
            assert(table_map(n) =~= table_map(s).insert(kk, v)) by {
                assert forall|q: Seq<char>| #[trigger] has_key(n, q) <==> (has_key(s, q) || q
                    == kk) by {
                    if has_key(n, q) {
                        let j = key_index(n, q);
                        if j < i {
                            assert(s[j].0@ == q);
                        } else if j > i {
                            assert(s[j - 1].0@ == q);
                        }
                    }
                    if has_key(s, q) {
                        let j = key_index(s, q);
                        if j < i {
                            assert(n[j].0@ == q);
                        } else {
                            assert(n[j + 1].0@ == q);
                        }
                    }
                    if q == kk {
                        assert(n[i as int].0@ == q);
                    }
                }
                assert forall|q: Seq<char>| #[trigger] table_map(n).dom().contains(q) implies
                    table_map(n)[q] == table_map(s).insert(kk, v)[q] by {
                    let j = key_index(n, q);
                    lemma_lookup_at(n, j);
                    if j < i {
                        lemma_lookup_at(s, j);
                    } else if j > i {
                        lemma_lookup_at(s, j - 1);
                    }
                }
            }
        }
    }
}

/// Whether the names of a table strictly ascend.
pub fn keys_ascend<V>(t: &Vec<(String, V)>) -> (r: bool)
    ensures
        r == sorted_keys(t@),
{
    let mut k: usize = 1;
    if t.len() == 0 {
        return true;
    }
    while k < t.len()
        invariant
            1 <= k <= t@.len(),
            forall|i: int, j: int| 0 <= i < j < k ==> text_lt(#[trigger] t@[i].0@, #[trigger] t@[j].0@),
        decreases t@.len() - k,
    {
        if !text_less(t[k - 1].0.as_str(), t[k].0.as_str()) {
            return false;
        }
        proof {
            assert forall|i: int, j: int| 0 <= i < j < k + 1 implies text_lt(#[trigger] t@[i].0@, #[trigger] t@[j].0@) by {
                if j == k && i < k - 1 {
                    lemma_text_lt_transitive(t@[i].0@, t@[k - 1].0@, t@[k as int].0@);
                }
            }
        }
        k = k + 1;
    }
    true
}

/// Whether no two entries of a table share a name.
pub fn keys_unique<V>(t: &Vec<(String, V)>) -> (r: bool)
    ensures
        r == unique_keys(t@),
{
    let mut i: usize = 0;
    while i < t.len()
        invariant
            i <= t@.len(),
            forall|a: int, b: int| 0 <= a < i && 0 <= b < t@.len() && a != b ==> t@[a].0@ != t@[b].0@,
        decreases t@.len() - i,
    {
        let mut j: usize = 0;
        while j < t.len()
            invariant
                i < t@.len(),
                j <= t@.len(),
                forall|a: int, b: int| 0 <= a < i && 0 <= b < t@.len() && a != b ==> t@[a].0@ != t@[b].0@,
                forall|b: int| 0 <= b < j && b != i ==> t@[i as int].0@ != t@[b].0@,
            decreases t@.len() - j,
        {
            if j != i && str_eq(t[i].0.as_str(), t[j].0.as_str()) {
                return false;
            }
            j = j + 1;
        }
        i = i + 1;
    }
    true
}

} // verus!
