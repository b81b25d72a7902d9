//! The manifest of files an adapter rendered: paths relative to the output
//! root, in the order of paths (component by component).

use vstd::prelude::*;

use crate::adapter::{AdapterError, Artifact};
use crate::paths::{join, join_path};
use crate::text::{chars_of, owned, slice_chars, string_from_chars};

verus! {

/// Sort code of a path character: the separator sorts before every other
/// character, so paths compare component by component.
pub open spec fn path_code(c: char) -> int {
    if c == '/' {
        -1
    } else {
        c as int
    }
}

/// `a` sorts strictly before `b` as a path.
pub open spec fn path_lt(a: Seq<char>, b: Seq<char>) -> bool
    decreases a.len(),
{
    if a.len() == 0 {
        b.len() > 0
    } else if b.len() == 0 {
        false
    } else if a[0] == b[0] {
        path_lt(a.skip(1), b.skip(1))
    } else {
        path_code(a[0]) < path_code(b[0])
    }
}

/// `path_lt` is irreflexive.
pub proof fn lemma_path_lt_irreflexive(a: Seq<char>)
    ensures
        !path_lt(a, a),
    decreases a.len(),
{
    if a.len() > 0 {
        lemma_path_lt_irreflexive(a.skip(1));
    }
}

/// `path_lt` is transitive.
pub proof fn lemma_path_lt_transitive(a: Seq<char>, b: Seq<char>, c: Seq<char>)
    requires
        path_lt(a, b),
        path_lt(b, c),
    ensures
        path_lt(a, c),
    decreases a.len(),
{
    if a.len() > 0 && b.len() > 0 && c.len() > 0 && a[0] == b[0] && b[0] == c[0] {
        lemma_path_lt_transitive(a.skip(1), b.skip(1), c.skip(1));
    }
}

/// Of two different paths, exactly one sorts before the other.
pub proof fn lemma_path_lt_total(a: Seq<char>, b: Seq<char>)
    ensures
        a != b ==> (path_lt(a, b) || path_lt(b, a)),
        !(path_lt(a, b) && path_lt(b, a)),
    decreases a.len(),
{
    if a.len() > 0 && b.len() > 0 && a[0] == b[0] {
        lemma_path_lt_total(a.skip(1), b.skip(1));
        if a != b {
            assert(a.skip(1) != b.skip(1)) by {
                if a.skip(1) == b.skip(1) {
                    assert(a =~= seq![a[0]] + a.skip(1));
                    assert(b =~= seq![b[0]] + b.skip(1));
                }
            }
        }
    } else if a.len() == 0 && b.len() == 0 {
        assert(a =~= b);
    } else if a.len() > 0 && b.len() > 0 {
        crate::text::lemma_char_code(a[0]);
        crate::text::lemma_char_code(b[0]);
    }
}

/// Whether `a` sorts strictly before `b` as a path.
pub fn path_less(a: &str, b: &str) -> (r: bool)
    ensures
        r == path_lt(a@, b@),
{
    let x = chars_of(a);
    let y = chars_of(b);
    let mut i: usize = 0;
    assert(x@.skip(0) =~= x@);
    assert(y@.skip(0) =~= y@);
    while i < x.len() && i < y.len() && x[i] == y[i]
        invariant
            i <= x@.len(),
            i <= y@.len(),
            path_lt(a@, b@) == path_lt(x@.skip(i as int), y@.skip(i as int)),
            x@ == a@,
            y@ == b@,
        decreases x@.len() - i,
    {
        assert(x@.skip(i as int).skip(1) =~= x@.skip(i + 1));
        assert(y@.skip(i as int).skip(1) =~= y@.skip(i + 1));
        i = i + 1;
    }
    if i == x.len() {
        i < y.len()
    } else if i == y.len() {
        false
    } else {
        proof {
            crate::text::lemma_char_code(x@[i as int]);
            crate::text::lemma_char_code(y@[i as int]);
        }
        if x[i] == '/' {
            true
        } else if y[i] == '/' {
            false
        } else {
            (x[i] as u32) < (y[i] as u32)
        }
    }
}

/// `path` below `root`, relative to it, or `None` when `path` does not
/// lie below `root`.
pub open spec fn strip_root(root: Seq<char>, path: Seq<char>) -> Option<Seq<char>> {
    let pre = join_path(root, Seq::empty());
    if pre.len() <= path.len() && path.take(pre.len() as int) == pre {
        Some(path.skip(pre.len() as int))
    } else {
        None
    }
}

/// `path` relative to `root`.
pub fn strip_root_exec(root: &str, path: &str) -> (r: Option<String>)
    ensures
        r matches Some(s) ==> strip_root(root@, path@) == Some(s@),
        r is None ==> strip_root(root@, path@) is None,
{
    let pre = join(root, "");
    proof {
        reveal_strlit("");
        assert(""@ =~= Seq::<char>::empty());
    }
    let p = chars_of(pre.as_str());
    let q = chars_of(path);
    if p.len() > q.len() {
        return None;
    }
    let mut i: usize = 0;
    while i < p.len()
        invariant
            i <= p@.len() <= q@.len(),
            p@ == join_path(root@, Seq::empty()),
            q@ == path@,
            forall|j: int| 0 <= j < i ==> p@[j] == q@[j],
        decreases p@.len() - i,
    {
        if p[i] != q[i] {
            assert(q@.take(p@.len() as int)[i as int] != p@[i as int]);
            return None;
        }
        i = i + 1;
    }
    assert(q@.take(p@.len() as int) =~= p@);
    let rest = slice_chars(&q, p.len(), q.len());
    assert(rest@ =~= q@.skip(p@.len() as int));
    Some(string_from_chars(rest.as_slice()))
}

/// The texts of a sequence of strings.
pub open spec fn texts(s: Seq<String>) -> Seq<Seq<char>> {
    s.map_values(|x: String| x@)
}

/// Every path lies below `root`.
pub open spec fn all_under(root: Seq<char>, files: Seq<Seq<char>>) -> bool {
    forall|i: int| 0 <= i < files.len() ==> (#[trigger] strip_root(root, files[i])) is Some
}

/// Each path relative to `root`.
pub open spec fn relative_paths(root: Seq<char>, files: Seq<Seq<char>>) -> Seq<Seq<char>> {
    files.map_values(|p: Seq<char>| strip_root(root, p)->0)
}

/// No path sorts before one that precedes it.
pub open spec fn paths_sorted(s: Seq<Seq<char>>) -> bool {
    forall|i: int, j: int| 0 <= i < j < s.len() ==> !path_lt(#[trigger] s[j], #[trigger] s[i])
}

/// The relative paths of a manifest.
pub open spec fn artifact_paths(v: Seq<Artifact>) -> Seq<Seq<char>> {
    v.map_values(|a: Artifact| a.relative_path@)
}

/// Inserts `x` into a sorted list of paths, after the paths equal to it.
fn insert_path(v: &mut Vec<String>, x: String)
    requires
        paths_sorted(texts(old(v)@)),
    ensures
        paths_sorted(texts(final(v)@)),
        texts(final(v)@).to_multiset() == texts(old(v)@).to_multiset().insert(x@),
{
    let ghost s = texts(v@);
    let mut k: usize = 0;
    while k < v.len() && !path_less(x.as_str(), v[k].as_str())
        invariant
            k <= v@.len(),
            s == texts(v@),
            forall|i: int| 0 <= i < k ==> !path_lt(x@, #[trigger] s[i]),
        decreases v@.len() - k,
    {
        assert(s[k as int] == v@[k as int]@);
        k = k + 1;
    }
    proof {
        if k < v@.len() {
            assert(s[k as int] == v@[k as int]@);
        }
    }
    let ghost xv = x@;
    v.insert(k, x);
    proof {
        let t = texts(v@);
        assert(t =~= s.insert(k as int, xv));
        vstd::seq_lib::to_multiset_insert(s, k as int, xv);
        assert forall|i: int, j: int| 0 <= i < j < t.len() implies !path_lt(#[trigger] t[j], #[trigger] t[i]) by {
            if j < k {
                assert(t[i] == s[i] && t[j] == s[j]);
            } else if j == k {
                assert(t[i] == s[i]);
            } else if i == k {
                assert(t[j] == s[j - 1]);
                if path_lt(s[j - 1], xv) {
                    if j - 1 == k {
                        lemma_path_lt_total(s[k as int], xv);
                    } else {
                        lemma_path_lt_transitive(s[j - 1], xv, s[k as int]);
                    }
                }
            } else if i < k {
                assert(t[i] == s[i] && t[j] == s[j - 1]);
            } else {
                assert(t[i] == s[i - 1] && t[j] == s[j - 1]);
            }
        }
    }
}

/// The manifest of the files found below `root`: each path made relative
/// to `root`, sorted as paths. A path outside `root` is refused.
pub fn collect_artifacts(root: &str, files: Vec<String>) -> (r: Result<Vec<Artifact>, AdapterError>)
    ensures
        r is Ok <==> all_under(root@, texts(files@)),
        r matches Ok(v) ==> paths_sorted(artifact_paths(v@)),
        r matches Ok(v) ==> artifact_paths(v@).to_multiset() == relative_paths(root@, texts(files@)).to_multiset(),
        r matches Err(e) ==> (e matches AdapterError::OutsideRoot { path, root: rt } && rt@ == root@ && strip_root(root@, path@) is None
            && texts(files@).contains(path@)),
{
    let ghost fs = texts(files@);
    let mut rels: Vec<String> = Vec::new();
    let mut i: usize = 0;
    assert(relative_paths(root@, fs.take(0)) =~= Seq::<Seq<char>>::empty());
    assert(texts(rels@) =~= Seq::<Seq<char>>::empty());
    while i < files.len()
        invariant
            i <= files@.len(),
            fs == texts(files@),
            all_under(root@, fs.take(i as int)),
            paths_sorted(texts(rels@)),
            texts(rels@).to_multiset() == relative_paths(root@, fs.take(i as int)).to_multiset(),
        decreases files@.len() - i,
    {
        assert(fs[i as int] == files@[i as int]@);
        match strip_root_exec(root, files[i].as_str()) {
            None => {
                assert(fs.contains(fs[i as int]));
                return Err(AdapterError::OutsideRoot { path: owned(files[i].as_str()), root: owned(root) });
            },
            Some(rel) => {
                let ghost rv = rel@;
                let ghost before = relative_paths(root@, fs.take(i as int));
                insert_path(&mut rels, rel);
                proof {
                    assert(relative_paths(root@, fs.take(i + 1)) =~= before.push(rv));
                    vstd::seq_lib::to_multiset_build(before, rv);
                    assert forall|j: int| 0 <= j < i + 1 implies (#[trigger] strip_root(root@, fs.take(i + 1)[j])) is Some by {
                        if j < i {
                            assert(fs.take(i + 1)[j] == fs.take(i as int)[j]);
                        }
                    }
                }
                i = i + 1;
            },
        }
    }
    assert(fs.take(files@.len() as int) =~= fs);
    let mut out: Vec<Artifact> = Vec::new();
    let mut k: usize = 0;
    while k < rels.len()
        invariant
            k <= rels@.len(),
            artifact_paths(out@) =~= texts(rels@).take(k as int),
        decreases rels@.len() - k,
    {
        let ghost before = out@;
        out.push(Artifact { relative_path: owned(rels[k].as_str()) });
        assert(texts(rels@)[k as int] == rels@[k as int]@);
        assert(artifact_paths(out@) =~= artifact_paths(before).push(rels@[k as int]@));
        k = k + 1;
        assert(artifact_paths(out@) =~= texts(rels@).take(k as int));
    }
    assert(texts(rels@).take(rels@.len() as int) =~= texts(rels@));
    Ok(out)
}

/// Two path lists sorted as paths that hold the same paths are equal.
proof fn lemma_sorted_paths_unique(v1: Seq<Seq<char>>, v2: Seq<Seq<char>>)
    requires
        paths_sorted(v1),
        paths_sorted(v2),
        v1.to_multiset() == v2.to_multiset(),
    ensures
        v1 == v2,
    decreases v1.len(),
{
    vstd::seq_lib::to_multiset_len(v1);
    vstd::seq_lib::to_multiset_len(v2);
    if v1.len() == 0 {
        assert(v1 =~= v2);
        return;
    }
    let a = v1[0];
    let c = v2[0];
    vstd::seq_lib::to_multiset_contains(v1, c);
    vstd::seq_lib::to_multiset_contains(v2, c);
    vstd::seq_lib::to_multiset_contains(v1, a);
    vstd::seq_lib::to_multiset_contains(v2, a);
    assert(v2.contains(c));
    assert(v1.contains(a));
    let k1 = choose|k: int| 0 <= k < v1.len() && v1[k] == c;
    let k2 = choose|k: int| 0 <= k < v2.len() && v2[k] == a;
    if k1 > 0 {
        assert(!path_lt(v1[k1], v1[0]));
    } else {
        lemma_path_lt_irreflexive(c);
    }
    if k2 > 0 {
        assert(!path_lt(v2[k2], v2[0]));
    } else {
        lemma_path_lt_irreflexive(a);
    }
    lemma_path_lt_total(a, c);
    assert(a == c);
    vstd::seq_lib::to_multiset_remove(v1, 0);
    vstd::seq_lib::to_multiset_remove(v2, 0);
    let r1 = v1.remove(0);
    let r2 = v2.remove(0);
    assert forall|i: int, j: int| 0 <= i < j < r1.len() implies !path_lt(#[trigger] r1[j], #[trigger] r1[i]) by {
        assert(r1[i] == v1[i + 1] && r1[j] == v1[j + 1]);
    }
    assert forall|i: int, j: int| 0 <= i < j < r2.len() implies !path_lt(#[trigger] r2[j], #[trigger] r2[i]) by {
        assert(r2[i] == v2[i + 1] && r2[j] == v2[j + 1]);
    }
    lemma_sorted_paths_unique(r1, r2);
    assert(v1 =~= v2) by {
        assert forall|i: int| 0 <= i < v1.len() implies v1[i] == v2[i] by {
            if i > 0 {
                assert(v1[i] == r1[i - 1] && v2[i] == r2[i - 1]);
            }
        }
    }
}

/// Files found in another order have their relative paths in another order.
proof fn lemma_relative_paths_permute(root: Seq<char>, f1: Seq<Seq<char>>, f2: Seq<Seq<char>>)
    requires
        f1.to_multiset() == f2.to_multiset(),
    ensures
        relative_paths(root, f1).to_multiset() == relative_paths(root, f2).to_multiset(),
    decreases f1.len(),
{
    vstd::seq_lib::to_multiset_len(f1);
    vstd::seq_lib::to_multiset_len(f2);
    if f1.len() == 0 {
        assert(relative_paths(root, f1) =~= relative_paths(root, f2));
        return;
    }
    let x = f1[0];
    vstd::seq_lib::to_multiset_contains(f1, x);
    vstd::seq_lib::to_multiset_contains(f2, x);
    assert(f1.contains(x));
    let j = choose|j: int| 0 <= j < f2.len() && f2[j] == x;
    vstd::seq_lib::to_multiset_remove(f1, 0);
    vstd::seq_lib::to_multiset_remove(f2, j);
    let g1 = f1.remove(0);
    let g2 = f2.remove(j);
    lemma_relative_paths_permute(root, g1, g2);
    let y = strip_root(root, x)->0;
    assert(relative_paths(root, f1) =~= relative_paths(root, g1).insert(0, y));
    assert(relative_paths(root, f2) =~= relative_paths(root, g2).insert(j, y));
    vstd::seq_lib::to_multiset_insert(relative_paths(root, g1), 0, y);
    vstd::seq_lib::to_multiset_insert(relative_paths(root, g2), j, y);
}

/// The manifest does not depend on the order in which the files were found:
/// two walks that found the same files give the same manifest.
pub proof fn law_manifest_ignores_walk_order(
    root: Seq<char>,
    files1: Seq<Seq<char>>,
    files2: Seq<Seq<char>>,
    m1: Seq<Artifact>,
    m2: Seq<Artifact>,
)
    requires
        files1.to_multiset() == files2.to_multiset(),
        paths_sorted(artifact_paths(m1)),
        artifact_paths(m1).to_multiset() == relative_paths(root, files1).to_multiset(),
        paths_sorted(artifact_paths(m2)),
        artifact_paths(m2).to_multiset() == relative_paths(root, files2).to_multiset(),
    ensures
        artifact_paths(m1) == artifact_paths(m2),
{
    lemma_relative_paths_permute(root, files1, files2);
    lemma_sorted_paths_unique(artifact_paths(m1), artifact_paths(m2));
}

} // verus!
