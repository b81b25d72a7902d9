//! Name-keyed tables.
//!
//! A configuration table maps names to entries. It is held as a vector of
//! `(name, entry)` pairs in the order in which the configuration lists them
//! (key order when it was read from a sorted map); names are unique.

use vstd::prelude::*;

verus! {

/// No name occurs twice.
pub open spec fn unique_keys<V>(s: Seq<(String, V)>) -> bool {
    forall|i: int, j: int| 0 <= i < s.len() && 0 <= j < s.len() && i != j ==> s[i].0@ != s[j].0@
}

/// Some entry is named `k`.
pub open spec fn has_key<V>(s: Seq<(String, V)>, k: Seq<char>) -> bool {
    exists|i: int| 0 <= i < s.len() && (#[trigger] s[i]).0@ == k
}

/// The position of the entry named `k` (meaningful when `has_key`).
pub open spec fn key_index<V>(s: Seq<(String, V)>, k: Seq<char>) -> int {
    choose|i: int| 0 <= i < s.len() && (#[trigger] s[i]).0@ == k
}

/// The entry named `k`, if any.
pub open spec fn lookup<V>(s: Seq<(String, V)>, k: Seq<char>) -> Option<V> {
    if has_key(s, k) {
        Some(s[key_index(s, k)].1)
    } else {
        None
    }
}

/// In a table with unique names, the entry at a position with name `k` is
/// the entry `lookup` finds.
pub proof fn lemma_lookup_at<V>(s: Seq<(String, V)>, i: int)
    requires
        unique_keys(s),
        0 <= i < s.len(),
    ensures
        has_key(s, s[i].0@),
        key_index(s, s[i].0@) == i,
        lookup(s, s[i].0@) == Some(s[i].1),
{
    let k = s[i].0@;
    assert(has_key(s, k));
    let j = key_index(s, k);
    assert(s[j].0@ == k);
}

/// The position of the entry named `k`.
pub fn find<V>(s: &Vec<(String, V)>, k: &str) -> (r: Option<usize>)
    ensures
        r is None <==> !has_key(s@, k@),
        r matches Some(i) ==> i < s@.len() && s@[i as int].0@ == k@,
        r matches Some(i) ==> unique_keys(s@) ==> key_index(s@, k@) == i && lookup(s@, k@)
            == Some(s@[i as int].1),
{
    let mut i: usize = 0;
    while i < s.len()
        invariant
            i <= s@.len(),
            forall|j: int| 0 <= j < i ==> (#[trigger] s@[j]).0@ != k@,
        decreases s@.len() - i,
    {
        if str_same(&s[i].0, k) {
            proof {
                if unique_keys(s@) {
                    lemma_lookup_at(s@, i as int);
                }
            }
            return Some(i);
        }
        i = i + 1;
    }
    None
}

fn str_same(a: &String, b: &str) -> (r: bool)
    ensures
        r == (a@ == b@),
{
    let t = b.to_owned();
    *a == t
}

/// Whether some entry is named `k`.
pub fn contains_key<V>(s: &Vec<(String, V)>, k: &str) -> (r: bool)
    ensures
        r == has_key(s@, k@),
{
    find(s, k).is_some()
}

} // verus!

verus! {

/// `g` applied to every element, results concatenated in order.
pub open spec fn flat_map<A, B>(s: Seq<A>, g: spec_fn(A) -> Seq<B>) -> Seq<B>
    decreases s.len(),
{
    if s.len() == 0 {
        Seq::<B>::empty()
    } else {
        flat_map(s.drop_last(), g) + g(s.last())
    }
}

pub proof fn lemma_flat_map_step<A, B>(s: Seq<A>, g: spec_fn(A) -> Seq<B>, i: int)
    requires
        0 <= i < s.len(),
    ensures
        flat_map(s.take(i + 1), g) == flat_map(s.take(i), g) + g(s[i]),
{
    assert(s.take(i + 1).drop_last() =~= s.take(i));
    assert(s.take(i + 1).last() == s[i]);
}

/// The flattening of a prefix is a prefix of the flattening.
pub proof fn lemma_flat_map_prefix<A, B>(s: Seq<A>, g: spec_fn(A) -> Seq<B>, i: int)
    requires
        0 <= i <= s.len(),
    ensures
        flat_map(s, g).len() >= flat_map(s.take(i), g).len(),
        flat_map(s, g).take(flat_map(s.take(i), g).len() as int) == flat_map(s.take(i), g),
    decreases s.len() - i,
{
    if i < s.len() {
        lemma_flat_map_prefix(s, g, i + 1);
        lemma_flat_map_step(s, g, i);
        let a = flat_map(s.take(i), g);
        let c = flat_map(s.take(i + 1), g);
        assert(flat_map(s, g).take(a.len() as int) =~= c.take(a.len() as int));
        assert(c.take(a.len() as int) =~= a);
    } else {
        assert(s.take(i) =~= s);
        assert(flat_map(s, g).take(flat_map(s, g).len() as int) =~= flat_map(s, g));
    }
}

/// A repeated element in a prefix is a repeated element of the whole.
pub proof fn lemma_dup_in_prefix<T>(s: Seq<T>, p: Seq<T>)
    requires
        p.len() <= s.len(),
        s.take(p.len() as int) == p,
        !p.no_duplicates(),
    ensures
        !s.no_duplicates(),
{
    let (i, j) = choose|i: int, j: int| 0 <= i < p.len() && 0 <= j < p.len() && i != j && p[i] == p[j];
    assert(s[i] == p[i]);
    assert(s[j] == p[j]);
}

/// Appending an element absent from a duplicate-free sequence keeps it
/// duplicate-free; appending a present one does not.
pub proof fn lemma_push_no_duplicates<T>(s: Seq<T>, x: T)
    requires
        s.no_duplicates(),
    ensures
        s.push(x).no_duplicates() <==> !s.contains(x),
{
    let t = s.push(x);
    if s.contains(x) {
        let k = choose|k: int| 0 <= k < s.len() && s[k] == x;
        assert(t[k] == t[s.len() as int]);
    } else {
        assert forall|p: int, q: int| 0 <= p < t.len() && 0 <= q < t.len() && p != q implies t[p] != t[q] by {
            if p < s.len() && q < s.len() {
                assert(t[p] == s[p]);
                assert(t[q] == s[q]);
            } else if p < s.len() {
                assert(t[p] == s[p]);
            } else {
                assert(t[q] == s[q]);
            }
        }
    }
}

} // verus!

verus! {

/// The texts of a list of strings.
pub open spec fn texts(v: Seq<String>) -> Seq<Seq<char>> {
    v.map_values(|x: String| x@)
}

/// Whether some string of `v` has the text of `s`.
pub fn string_in(v: &Vec<String>, s: &str) -> (r: bool)
    ensures
        r == texts(v@).contains(s@),
{
    let ghost t = texts(v@);
    let mut i: usize = 0;
    while i < v.len()
        invariant
            i <= v@.len(),
            t == texts(v@),
            forall|j: int| 0 <= j < i ==> t[j] != s@,
        decreases v@.len() - i,
    {
        if v[i].as_str().to_owned() == s.to_owned() {
            assert(t[i as int] == s@);
            return true;
        }
        i = i + 1;
    }
    false
}

/// Whether `x` occurs in `v`.
pub fn u32_in(v: &Vec<u32>, x: u32) -> (r: bool)
    ensures
        r == v@.contains(x),
{
    let mut i: usize = 0;
    while i < v.len()
        invariant
            i <= v@.len(),
            forall|j: int| 0 <= j < i ==> v@[j] != x,
        decreases v@.len() - i,
    {
        if v[i] == x {
            return true;
        }
        i = i + 1;
    }
    false
}

/// A copy of a list of strings.
pub fn copy_strings(v: &Vec<String>) -> (r: Vec<String>)
    ensures
        texts(r@) == texts(v@),
{
    let mut out: Vec<String> = Vec::new();
    let mut i: usize = 0;
    while i < v.len()
        invariant
            i <= v@.len(),
            texts(out@) == texts(v@).take(i as int),
        decreases v@.len() - i,
    {
        let ghost before = out@;
        let t = v[i].as_str().to_owned();
        assert(t@ == texts(v@)[i as int]);
        out.push(t);
        assert(texts(out@) =~= texts(before).push(t@));
        assert(texts(out@) =~= texts(v@).take(i + 1));
        i = i + 1;
    }
    assert(texts(v@).take(v@.len() as int) =~= texts(v@));
    out
}

/// The text of an optional string.
pub open spec fn opt_text(o: Option<String>) -> Option<Seq<char>> {
    match o {
        Some(s) => Some(s@),
        None => None,
    }
}

/// A copy of an optional string.
pub fn copy_opt(o: &Option<String>) -> (r: Option<String>)
    ensures
        opt_text(r) == opt_text(*o),
{
    match o {
        Some(s) => Some(s.as_str().to_owned()),
        None => None,
    }
}

/// The outputs of `f` on every element, concatenated in order; `None` as
/// soon as one is `None`.
pub open spec fn opt_concat<A, T>(s: Seq<A>, f: spec_fn(A) -> Option<Seq<T>>) -> Option<Seq<T>>
    decreases s.len(),
{
    if s.len() == 0 {
        Some(Seq::empty())
    } else {
        match (opt_concat(s.drop_last(), f), f(s.last())) {
            (Some(x), Some(y)) => Some(x + y),
            _ => None,
        }
    }
}

/// Element `i` of `s` is the first for which `f` gives `None`.
pub open spec fn first_none<A, T>(s: Seq<A>, f: spec_fn(A) -> Option<Seq<T>>, i: int) -> bool {
    &&& 0 <= i < s.len()
    &&& opt_concat(s.take(i), f) is Some
    &&& f(s[i]) is None
}

/// One more element extends the concatenation.
pub proof fn lemma_opt_concat_step<A, T>(s: Seq<A>, f: spec_fn(A) -> Option<Seq<T>>, i: int)
    requires
        0 <= i < s.len(),
    ensures
        opt_concat(s.take(i + 1), f) == match (opt_concat(s.take(i), f), f(s[i])) {
            (Some(x), Some(y)) => Some(x + y),
            _ => None,
        },
{
    assert(s.take(i + 1).drop_last() =~= s.take(i));
}

/// One `None` makes the whole concatenation `None`.
pub proof fn lemma_opt_concat_none<A, T>(s: Seq<A>, f: spec_fn(A) -> Option<Seq<T>>, i: int)
    requires
        0 <= i < s.len(),
        f(s[i]) is None,
    ensures
        opt_concat(s, f) is None,
{
    lemma_opt_concat_none_prefix(s, f, i, s.len() as int);
    assert(s.take(s.len() as int) =~= s);
}

pub proof fn lemma_opt_concat_none_prefix<A, T>(s: Seq<A>, f: spec_fn(A) -> Option<Seq<T>>, i: int, j: int)
    requires
        0 <= i < j <= s.len(),
        f(s[i]) is None,
    ensures
        opt_concat(s.take(j), f) is None,
    decreases j,
{
    lemma_opt_concat_step(s, f, j - 1);
    if j > i + 1 {
        lemma_opt_concat_none_prefix(s, f, i, j - 1);
    }
}

} // verus!
