//! Authoritative zones, reverse zones and recursion policy of the DNS server.

use vstd::prelude::*;

use crate::model::id::{trim_end_dots, trim_end_dots_exec};
use crate::model::{
    AddressFamily, AddressScope, ConfigBundle, DnsRecord, DnsRecordKind, Ipv6Mode, LogicalNetwork,
    Service,
};
use crate::net::{ipv4_cidr_display, ipv4_cidr_text};
use crate::plan::address::{host_ula, host_ula_of, host_ula_refusal, service_ula, service_ula_of, service_ula_refusal};
use crate::plan::PlanError;
use crate::plan::dns_access::{access_of, derive_dns_access, directly_reachable, dns_host_of, reaches_directly, ResolvedDnsAccess};
use crate::ordered::{insert_sorted, lemma_sorted_unique, lemma_table_map_at, sorted_keys, table_map};
use crate::table::{contains_key, find, has_key, key_index, lookup, texts, unique_keys};
use crate::text::{
    char_from_code, chars_of, concat, owned, decimal, decimal_text, lemma_text_lt_irreflexive, lemma_text_lt_total, lemma_text_lt_transitive,
    push_char, str_eq, text_less, text_lt,
};

verus! {

/// One record of an authoritative zone. Records order as their derived
/// ordering does: by kind (A, AAAA, CNAME, NS), then owner name, then data.
#[derive(Debug)]
pub enum ResolvedRecord {
    A { name: String, address: u32 },
    Aaaa { name: String, address: u128 },
    Cname { name: String, target: String },
    Ns { name: String, target: String },
}

/// A record as plain values.
pub enum RecordView {
    A { name: Seq<char>, address: u32 },
    Aaaa { name: Seq<char>, address: u128 },
    Cname { name: Seq<char>, target: Seq<char> },
    Ns { name: Seq<char>, target: Seq<char> },
}

impl View for ResolvedRecord {
    type V = RecordView;

    open spec fn view(&self) -> RecordView {
        match self {
            ResolvedRecord::A { name, address } => RecordView::A { name: name@, address: *address },
            ResolvedRecord::Aaaa { name, address } => RecordView::Aaaa {
                name: name@,
                address: *address,
            },
            ResolvedRecord::Cname { name, target } => RecordView::Cname {
                name: name@,
                target: target@,
            },
            ResolvedRecord::Ns { name, target } => RecordView::Ns { name: name@, target: target@ },
        }
    }
}

pub open spec fn record_rank(r: RecordView) -> int {
    match r {
        RecordView::A { .. } => 0,
        RecordView::Aaaa { .. } => 1,
        RecordView::Cname { .. } => 2,
        RecordView::Ns { .. } => 3,
    }
}

pub open spec fn record_owner(r: RecordView) -> Seq<char> {
    match r {
        RecordView::A { name, .. } => name,
        RecordView::Aaaa { name, .. } => name,
        RecordView::Cname { name, .. } => name,
        RecordView::Ns { name, .. } => name,
    }
}

/// `a` sorts strictly before `b`: by kind, then owner name, then data.
pub open spec fn record_lt(a: RecordView, b: RecordView) -> bool {
    if record_rank(a) != record_rank(b) {
        record_rank(a) < record_rank(b)
    } else if record_owner(a) != record_owner(b) {
        text_lt(record_owner(a), record_owner(b))
    } else {
        match (a, b) {
            (RecordView::A { address: x, .. }, RecordView::A { address: y, .. }) => x < y,
            (RecordView::Aaaa { address: x, .. }, RecordView::Aaaa { address: y, .. }) => x < y,
            (RecordView::Cname { target: x, .. }, RecordView::Cname { target: y, .. }) => text_lt(
                x,
                y,
            ),
            (RecordView::Ns { target: x, .. }, RecordView::Ns { target: y, .. }) => text_lt(x, y),
            _ => false,
        }
    }
}

/// `record_lt` is a strict total order.
pub proof fn lemma_record_order(a: RecordView, b: RecordView, c: RecordView)
    ensures
        !record_lt(a, a),
        a != b ==> (record_lt(a, b) || record_lt(b, a)),
        !(record_lt(a, b) && record_lt(b, a)),
        record_lt(a, b) && record_lt(b, c) ==> record_lt(a, c),
{
    lemma_text_lt_irreflexive(record_owner(a));
    lemma_text_lt_total(record_owner(a), record_owner(b));
    match a {
        RecordView::Cname { target: x, .. } => lemma_text_lt_irreflexive(x),
        RecordView::Ns { target: x, .. } => lemma_text_lt_irreflexive(x),
        _ => {},
    }
    if record_lt(a, b) && record_lt(b, c) {
        if record_owner(a) != record_owner(b) && record_owner(b) != record_owner(c) && record_rank(a)
            == record_rank(b) && record_rank(b) == record_rank(c) {
            lemma_text_lt_transitive(record_owner(a), record_owner(b), record_owner(c));
        }
    }
    match (a, b) {
        (RecordView::Cname { target: x, .. }, RecordView::Cname { target: y, .. }) => {
            lemma_text_lt_irreflexive(x);
            lemma_text_lt_total(x, y);
        },
        (RecordView::Ns { target: x, .. }, RecordView::Ns { target: y, .. }) => {
            lemma_text_lt_irreflexive(x);
            lemma_text_lt_total(x, y);
        },
        _ => {},
    }
    if record_lt(a, b) && record_lt(b, c) && record_rank(a) == record_rank(c) && record_owner(a)
        == record_owner(b) && record_owner(b) == record_owner(c) {
        match (a, b, c) {
            (
                RecordView::Cname { target: x, .. },
                RecordView::Cname { target: y, .. },
                RecordView::Cname { target: z, .. },
            ) => {
                lemma_text_lt_transitive(x, y, z);
            },
            (
                RecordView::Ns { target: x, .. },
                RecordView::Ns { target: y, .. },
                RecordView::Ns { target: z, .. },
            ) => {
                lemma_text_lt_transitive(x, y, z);
            },
            _ => {},
        }
    }
}

fn record_less(a: &ResolvedRecord, b: &ResolvedRecord) -> (r: bool)
    ensures
        r == record_lt(a@, b@),
{
    let ra: u8 = match a {
        ResolvedRecord::A { .. } => 0,
        ResolvedRecord::Aaaa { .. } => 1,
        ResolvedRecord::Cname { .. } => 2,
        ResolvedRecord::Ns { .. } => 3,
    };
    let rb: u8 = match b {
        ResolvedRecord::A { .. } => 0,
        ResolvedRecord::Aaaa { .. } => 1,
        ResolvedRecord::Cname { .. } => 2,
        ResolvedRecord::Ns { .. } => 3,
    };
    if ra != rb {
        return ra < rb;
    }
    let na = match a {
        ResolvedRecord::A { name, .. } => name,
        ResolvedRecord::Aaaa { name, .. } => name,
        ResolvedRecord::Cname { name, .. } => name,
        ResolvedRecord::Ns { name, .. } => name,
    };
    let nb = match b {
        ResolvedRecord::A { name, .. } => name,
        ResolvedRecord::Aaaa { name, .. } => name,
        ResolvedRecord::Cname { name, .. } => name,
        ResolvedRecord::Ns { name, .. } => name,
    };
    if !str_eq(na.as_str(), nb.as_str()) {
        return text_less(na.as_str(), nb.as_str());
    }
    match (a, b) {
        (ResolvedRecord::A { address: x, .. }, ResolvedRecord::A { address: y, .. }) => *x < *y,
        (ResolvedRecord::Aaaa { address: x, .. }, ResolvedRecord::Aaaa { address: y, .. }) => *x
            < *y,
        (ResolvedRecord::Cname { target: x, .. }, ResolvedRecord::Cname { target: y, .. }) => {
            text_less(x.as_str(), y.as_str())
        },
        (ResolvedRecord::Ns { target: x, .. }, ResolvedRecord::Ns { target: y, .. }) => {
            text_less(x.as_str(), y.as_str())
        },
        _ => false,
    }
}

/// The plain values of a list of records.
pub open spec fn record_views(s: Seq<ResolvedRecord>) -> Seq<RecordView> {
    s.map_values(|r: ResolvedRecord| r@)
}

/// Records strictly ascend.
pub open spec fn records_ascend(s: Seq<RecordView>) -> bool {
    forall|i: int, j: int| 0 <= i < j < s.len() ==> record_lt(#[trigger] s[i], #[trigger] s[j])
}

/// Adds a record to an ascending record set, unless it is already there.
fn insert_record(recs: &mut Vec<ResolvedRecord>, r: ResolvedRecord)
    requires
        records_ascend(record_views(old(recs)@)),
    ensures
        records_ascend(record_views(final(recs)@)),
        forall|v: RecordView| #[trigger]
            record_views(final(recs)@).contains(v) <==> (record_views(old(recs)@).contains(v)
                || v == r@),
{
    let ghost s = record_views(recs@);
    let mut i: usize = 0;
    while i < recs.len() && record_less(&recs[i], &r)
        invariant
            i <= recs@.len(),
            record_views(recs@) == s,
            forall|j: int| 0 <= j < i ==> record_lt(#[trigger] s[j], r@),
        decreases recs@.len() - i,
    {
        i = i + 1;
    }
    if i < recs.len() && !record_less(&r, &recs[i]) {
        proof {
            lemma_record_order(s[i as int], r@, r@);
        }
        assert(s[i as int] == r@);
        assert(s.contains(r@));
        return;
    }
    let ghost rv = r@;
    proof {
        if i < s.len() {
            lemma_record_order(s[i as int], rv, rv);
        }
    }
    recs.insert(i, r);
    proof {
        let n = record_views(recs@);
        assert(n.len() == s.len() + 1);
        assert(forall|j: int| 0 <= j < i ==> n[j] == s[j]);
        assert(forall|j: int| i < j < n.len() ==> n[j] == s[j - 1]);
        assert(n[i as int] == rv);
        assert forall|a: int, b: int| 0 <= a < b < n.len() implies record_lt(
            #[trigger] n[a],
            #[trigger] n[b],
        ) by {
            if b < i {
                assert(record_lt(s[a], s[b]));
            } else if b == i {
                assert(record_lt(s[a], rv));
            } else if a == i {
                if b - 1 > i {
                    assert(record_lt(s[i as int], s[b - 1]));
                    lemma_record_order(rv, s[i as int], s[b - 1]);
                }
            } else if a < i {
                assert(record_lt(s[a], s[b - 1]));
            } else {
                assert(record_lt(s[a - 1], s[b - 1]));
            }
        }
        assert forall|v: RecordView| #[trigger] n.contains(v) <==> (s.contains(v) || v == rv) by {
            if n.contains(v) {
                let p = n.index_of(v);
                if p < i {
                    assert(s[p] == v);
                } else if p > i {
                    assert(s[p - 1] == v);
                }
            }
            if s.contains(v) {
                let p = s.index_of(v);
                if p < i {
                    assert(n[p] == v);
                } else {
                    assert(n[p + 1] == v);
                }
            }
            if v == rv {
                assert(n[i as int] == v);
            }
        }
    }
}

/// `v` as a fully qualified name: with a trailing `.`, added if missing.
pub open spec fn fqdn_of(v: Seq<char>) -> Seq<char> {
    if v.len() > 0 && v.last() == '.' {
        v
    } else {
        v.push('.')
    }
}

/// `value` with a trailing `.`, added if it has none.
pub fn fqdn(value: &str) -> (r: String)
    ensures
        r@ == fqdn_of(value@),
{
    let chars = chars_of(value);
    let mut out = value.to_owned();
    if chars.len() > 0 && chars[chars.len() - 1] == '.' {
        out
    } else {
        push_char(&mut out, '.');
        out
    }
}

/// A zone with its records in ascending order.
#[derive(Debug)]
pub struct ResolvedZone {
    pub name: String,
    pub records: Vec<ResolvedRecord>,
}

/// The names of a list of zones.
pub open spec fn zone_name_set(zs: Seq<ResolvedZone>) -> Set<Seq<char>> {
    Set::new(|z: Seq<char>| exists|i: int| 0 <= i < zs.len() && (#[trigger] zs[i]).name@ == z)
}

/// Record `name`, trailing dots removed, is the zone or lies under it.
pub open spec fn zone_matches(zone: Seq<char>, name: Seq<char>) -> bool {
    let clean = trim_end_dots(name);
    ||| clean == zone
    ||| clean.len() > zone.len() && clean[clean.len() - zone.len() - 1] == '.' && clean.skip(
        clean.len() - zone.len(),
    ) == zone
}

/// `z` is the longest zone of `zs` that `name` belongs to.
pub open spec fn is_best_zone(zs: Set<Seq<char>>, name: Seq<char>, z: Seq<char>) -> bool {
    &&& zs.contains(z)
    &&& zone_matches(z, name)
    &&& forall|y: Seq<char>| zs.contains(y) && #[trigger] zone_matches(y, name) ==> y.len() <= z.len()
}

/// The zone a record named `name` belongs to: the longest one it matches.
pub open spec fn best_zone(zs: Set<Seq<char>>, name: Seq<char>) -> Option<Seq<char>> {
    if exists|z: Seq<char>| is_best_zone(zs, name, z) {
        Some(choose|z: Seq<char>| is_best_zone(zs, name, z))
    } else {
        None
    }
}

/// Two longest matching zones are the same zone.
pub proof fn lemma_best_zone_unique(zs: Set<Seq<char>>, name: Seq<char>, z1: Seq<char>, z2: Seq<char>)
    requires
        is_best_zone(zs, name, z1),
        is_best_zone(zs, name, z2),
    ensures
        z1 == z2,
{
    let c = trim_end_dots(name);
    assert(z1.len() == z2.len());
    if c != z1 && c != z2 {
        assert(z1 =~= z2) by {
            assert forall|k: int| 0 <= k < z1.len() implies z1[k] == z2[k] by {
                assert(c.skip(c.len() - z1.len())[k] == z1[k]);
                assert(c.skip(c.len() - z2.len())[k] == z2[k]);
            }
        }
    }
}

fn zone_matches_exec(zone: &str, clean: &Vec<char>) -> (r: bool)
    ensures
        r == (clean@ == zone@ || (clean@.len() > zone@.len() && clean@[clean@.len() - zone@.len() - 1]
            == '.' && clean@.skip(clean@.len() - zone@.len()) == zone@)),
{
    let z = chars_of(zone);
    if clean.len() < z.len() {
        proof {
            if clean@ == zone@ {
                assert(clean@.len() == z@.len());
            }
        }
        return false;
    }
    let off: usize = clean.len() - z.len();
    let mut k: usize = 0;
    while k < z.len()
        invariant
            z@ == zone@,
            off + z@.len() == clean@.len(),
            clean@.len() == clean.len(),
            k <= z@.len(),
            forall|m: int| 0 <= m < k ==> clean@[off + m] == z@[m],
        decreases z@.len() - k,
    {
        if clean[off + k] != z[k] {
            proof {
                assert(clean@.skip(off as int)[k as int] != z@[k as int]);
                if clean@ == zone@ {
                    assert(off == 0);
                }
            }
            return false;
        }
        k = k + 1;
    }
    assert(clean@.skip(off as int) =~= zone@);
    if off == 0 {
        assert(clean@ =~= zone@);
        true
    } else {
        clean[off - 1] == '.'
    }
}

/// The position of the longest zone that a record named `name` belongs to.
fn matching_zone(zones: &Vec<ResolvedZone>, name: &str) -> (r: Option<usize>)
    ensures
        r is None ==> best_zone(zone_name_set(zones@), name@) is None,
        r matches Some(i) ==> i < zones@.len() && best_zone(zone_name_set(zones@), name@) == Some(
            zones@[i as int].name@,
        ),
{
    let ghost zs = zone_name_set(zones@);
    let chars = chars_of(name);
    let clean = trim_end_dots_exec(&chars);
    let mut best: Option<usize> = None;
    let mut i: usize = 0;
    while i < zones.len()
        invariant
            i <= zones@.len(),
            zs == zone_name_set(zones@),
            clean@ == trim_end_dots(name@),
            best matches Some(b) ==> b < i && zone_matches(zones@[b as int].name@, name@),
            forall|j: int| 0 <= j < i && zone_matches(#[trigger] zones@[j].name@, name@) ==> (
            best matches Some(b) && zones@[j].name@.len() <= zones@[b as int].name@.len()),
        decreases zones@.len() - i,
    {
        if zone_matches_exec(zones[i].name.as_str(), &clean) {
            let replace = match best {
                None => true,
                Some(b) => chars_of(zones[b].name.as_str()).len() <= chars_of(
                    zones[i].name.as_str(),
                ).len(),
            };
            if replace {
                best = Some(i);
            }
        }
        i = i + 1;
    }
    proof {
        match best {
            Some(b) => {
                let z = zones@[b as int].name@;
                assert(zs.contains(z));
                assert forall|y: Seq<char>| zs.contains(y) && #[trigger] zone_matches(y, name@)
                    implies y.len() <= z.len() by {
                    let j = choose|j: int| 0 <= j < zones@.len() && (#[trigger] zones@[j]).name@ == y;
                }
                assert(is_best_zone(zs, name@, z));
                let c = choose|z: Seq<char>| is_best_zone(zs, name@, z);
                lemma_best_zone_unique(zs, name@, z, c);
            },
            None => {
                if exists|z: Seq<char>| is_best_zone(zs, name@, z) {
                    let z = choose|z: Seq<char>| is_best_zone(zs, name@, z);
                    let j = choose|j: int| 0 <= j < zones@.len() && (#[trigger] zones@[j]).name@ == z;
                }
            },
        }
    }
    best
}

/// Octet `k` of an IPv4 address, `0` being the most significant.
pub open spec fn octet(a: u32, k: int) -> u32 {
    (a >> ((24 - 8 * k) as u32)) & 0xffu32
}

/// The reverse zone of an IPv4 address: its first three octets reversed,
/// under `in-addr.arpa`.
pub open spec fn v4_reverse_zone(a: u32) -> Seq<char> {
    decimal(octet(a, 2) as nat) + seq!['.'] + decimal(octet(a, 1) as nat) + seq!['.'] + decimal(
        octet(a, 0) as nat,
    ) + ".in-addr.arpa"@
}

/// The owner name of an IPv4 address inside its reverse zone: its last octet.
pub open spec fn v4_reverse_owner(a: u32) -> Seq<char> {
    decimal(octet(a, 3) as nat)
}

/// Nibble `k` of an IPv6 address, `0` being the most significant.
pub open spec fn nibble(a: u128, k: int) -> u128 {
    (a >> ((124 - 4 * k) as u128)) & 0xfu128
}

/// Lower-case hexadecimal digit.
pub open spec fn hex_char(n: u128) -> char {
    if n < 10 {
        (48 + n) as char
    } else {
        (87 + n) as char
    }
}

/// The reverse zone of an IPv6 address: the nibbles of its `/64` in reverse
/// order, each followed by `.`, then `ip6.arpa`.
pub open spec fn v6_reverse_zone(a: u128) -> Seq<char> {
    Seq::new(32, |j: int| v6_zone_char(a, j)) + "ip6.arpa"@
}

/// Character `j` of the nibble part of an IPv6 reverse zone.
pub open spec fn v6_zone_char(a: u128, j: int) -> char {
    if j % 2 == 0 {
        hex_char(nibble(a, 15 - j / 2))
    } else {
        '.'
    }
}

/// Character `j` of an IPv6 reverse owner name.
pub open spec fn v6_owner_char(a: u128, j: int) -> char {
    if j % 2 == 0 {
        hex_char(nibble(a, 31 - j / 2))
    } else {
        '.'
    }
}

/// The owner name of an IPv6 address inside its reverse zone: the nibbles of
/// its interface identifier in reverse order, separated by `.`.
pub open spec fn v6_reverse_owner(a: u128) -> Seq<char> {
    Seq::new(31, |j: int| v6_owner_char(a, j))
}

fn hex_char_exec(n: u128) -> (r: char)
    requires
        n < 16,
    ensures
        r == hex_char(n),
{
    if n < 10 {
        char_from_code(48 + (n as u32))
    } else {
        char_from_code(87 + (n as u32))
    }
}

fn v4_reverse_names(a: u32) -> (r: (String, String))
    ensures
        r.0@ == v4_reverse_zone(a),
        r.1@ == v4_reverse_owner(a),
{
    let o0: u32 = (a >> 24u32) & 0xffu32;
    let o1: u32 = (a >> 16u32) & 0xffu32;
    let o2: u32 = (a >> 8u32) & 0xffu32;
    let o3: u32 = (a >> 0u32) & 0xffu32;
    let mut zone = decimal_text(o2 as u64);
    push_char(&mut zone, '.');
    let t1 = decimal_text(o1 as u64);
    zone.append(t1.as_str());
    push_char(&mut zone, '.');
    let t0 = decimal_text(o0 as u64);
    zone.append(t0.as_str());
    let zone = concat(zone.as_str(), ".in-addr.arpa");
    let owner = decimal_text(o3 as u64);
    proof {
        assert(zone@ =~= v4_reverse_zone(a));
    }
    (zone, owner)
}

fn v6_reverse_names(a: u128) -> (r: (String, String))
    ensures
        r.0@ == v6_reverse_zone(a),
        r.1@ == v6_reverse_owner(a),
{
    let mut zone = String::new();
    let mut k: u128 = 0;
    while k < 16
        invariant
            k <= 16,
            zone@ == Seq::new(2 * k as nat, |j: int| v6_zone_char(a, j)),
        decreases 16 - k,
    {
        let sh: u128 = 124 - 4 * (15 - k);
        let n: u128 = (a >> sh) & 0xfu128;
        assert(n < 16) by (bit_vector)
            requires
                n == (a >> sh) & 0xfu128,
        ;
        let c = hex_char_exec(n);
        let ghost before = zone@;
        push_char(&mut zone, c);
        push_char(&mut zone, '.');
        proof {
            assert(n == nibble(a, 15 - k as int));
            assert forall|j: int| 0 <= j < 2 * (k + 1) implies #[trigger] zone@[j] == v6_zone_char(a, j) by {
                if j < 2 * k {
                    assert(zone@[j] == before[j]);
                    assert(before[j] == Seq::new(2 * k as nat, |j: int| v6_zone_char(a, j))[j]);
                } else if j == 2 * k {
                    assert(j % 2 == 0 && j / 2 == k);
                    assert(zone@[j] == c);
                    assert(v6_zone_char(a, j) == hex_char(nibble(a, 15 - k as int)));
                } else {
                    assert(j % 2 == 1);
                    assert(zone@[j] == '.');
                }
            }
            assert(zone@ =~= Seq::new(2 * (k + 1) as nat, |j: int| v6_zone_char(a, j)));
        }
        k = k + 1;
    }
    let zone = concat(zone.as_str(), "ip6.arpa");
    let mut owner = String::new();
    let mut k: u128 = 0;
    while k < 16
        invariant
            k <= 16,
            k == 0 ==> owner@.len() == 0,
            k > 0 ==> owner@ == Seq::new((2 * k - 1) as nat, |j: int| v6_owner_char(a, j)),
        decreases 16 - k,
    {
        let ghost before = owner@;
        if k > 0 {
            push_char(&mut owner, '.');
        }
        let sh: u128 = 124 - 4 * (31 - k);
        let n: u128 = (a >> sh) & 0xfu128;
        assert(n < 16) by (bit_vector)
            requires
                n == (a >> sh) & 0xfu128,
        ;
        let c = hex_char_exec(n);
        push_char(&mut owner, c);
        proof {
            assert(n == nibble(a, 31 - k as int));
            assert forall|j: int| 0 <= j < 2 * (k + 1) - 1 implies #[trigger] owner@[j] == v6_owner_char(a, j) by {
                if j < 2 * k - 1 {
                    assert(owner@[j] == before[j]);
                    assert(before[j] == Seq::new((2 * k - 1) as nat, |j: int| v6_owner_char(a, j))[j]);
                } else if j == 2 * k - 1 {
                    assert(j % 2 == 1);
                    assert(owner@[j] == '.');
                } else {
                    assert(j % 2 == 0 && j / 2 == k);
                    assert(owner@[j] == c);
                    assert(v6_owner_char(a, j) == hex_char(nibble(a, 31 - k as int)));
                }
            }
            assert(owner@ =~= Seq::new((2 * (k + 1) - 1) as nat, |j: int| v6_owner_char(a, j)));
        }
        k = k + 1;
    }
    (zone, owner)
}

/// A reverse zone with its `(owner, target)` PTR records in ascending order.
#[derive(Debug)]
pub struct ResolvedReverseZone {
    pub name: String,
    pub records: Vec<(String, String)>,
}

pub open spec fn pair_view(p: (String, String)) -> (Seq<char>, Seq<char>) {
    (p.0@, p.1@)
}

pub open spec fn pair_views(s: Seq<(String, String)>) -> Seq<(Seq<char>, Seq<char>)> {
    s.map_values(|p: (String, String)| pair_view(p))
}

/// `a` sorts at or before `b`: by owner, then target.
pub open spec fn pair_le(a: (Seq<char>, Seq<char>), b: (Seq<char>, Seq<char>)) -> bool {
    text_lt(a.0, b.0) || (a.0 == b.0 && !text_lt(b.1, a.1))
}

pub open spec fn pairs_sorted(s: Seq<(Seq<char>, Seq<char>)>) -> bool {
    forall|i: int, j: int| 0 <= i < j < s.len() ==> pair_le(#[trigger] s[i], #[trigger] s[j])
}

/// `pair_le` is a total preorder.
proof fn lemma_pair_order(a: (Seq<char>, Seq<char>), b: (Seq<char>, Seq<char>), c: (Seq<char>, Seq<char>))
    ensures
        pair_le(a, b) || pair_le(b, a),
        pair_le(a, b) && pair_le(b, c) ==> pair_le(a, c),
{
    lemma_text_lt_total(a.0, b.0);
    lemma_text_lt_total(a.1, b.1);
    lemma_text_lt_irreflexive(a.0);
    lemma_text_lt_irreflexive(b.0);
    if pair_le(a, b) && pair_le(b, c) {
        lemma_text_lt_total(b.0, c.0);
        lemma_text_lt_total(a.0, c.0);
        lemma_text_lt_total(a.1, c.1);
        lemma_text_lt_total(b.1, c.1);
        if text_lt(a.0, b.0) && text_lt(b.0, c.0) {
            lemma_text_lt_transitive(a.0, b.0, c.0);
        }
        if a.0 == b.0 && b.0 == c.0 && text_lt(c.1, a.1) {
            if text_lt(b.1, a.1) {
            } else if a.1 == b.1 {
            } else {
                lemma_text_lt_transitive(c.1, a.1, b.1);
            }
        }
    }
}

fn pair_less_eq(a: &(String, String), b: &(String, String)) -> (r: bool)
    ensures
        r == pair_le(pair_view(*a), pair_view(*b)),
{
    text_less(a.0.as_str(), b.0.as_str()) || (str_eq(a.0.as_str(), b.0.as_str()) && !text_less(
        b.1.as_str(),
        a.1.as_str(),
    ))
}

/// Adds a PTR record after those that sort at or before it.
fn insert_pair(v: &mut Vec<(String, String)>, p: (String, String))
    requires
        pairs_sorted(pair_views(old(v)@)),
    ensures
        pairs_sorted(pair_views(final(v)@)),
        pair_views(final(v)@).to_multiset() == pair_views(old(v)@).to_multiset().insert(
            pair_view(p),
        ),
{
    let ghost s = pair_views(v@);
    let mut i: usize = 0;
    while i < v.len() && pair_less_eq(&v[i], &p)
        invariant
            i <= v@.len(),
            pair_views(v@) == s,
            forall|j: int| 0 <= j < i ==> pair_le(#[trigger] s[j], pair_view(p)),
        decreases v@.len() - i,
    {
        i = i + 1;
    }
    let ghost pv = pair_view(p);
    proof {
        if i < s.len() {
            lemma_pair_order(s[i as int], pv, pv);
        }
    }
    v.insert(i, p);
    proof {
        let n = pair_views(v@);
        assert(n =~= s.insert(i as int, pv));
        broadcast use vstd::seq_lib::to_multiset_insert;

        assert forall|a: int, b: int| 0 <= a < b < n.len() implies pair_le(
            #[trigger] n[a],
            #[trigger] n[b],
        ) by {
            if b < i {
                assert(pair_le(s[a], s[b]));
            } else if b == i {
                assert(pair_le(s[a], pv));
            } else if a == i {
                if b - 1 > i {
                    assert(pair_le(s[i as int], s[b - 1]));
                }
                lemma_pair_order(pv, s[i as int], s[b - 1]);
            } else if a < i {
                assert(pair_le(s[a], s[b - 1]));
            } else {
                assert(pair_le(s[a - 1], s[b - 1]));
            }
        }
    }
}

/// One PTR entry as plain values: `(zone, (owner, target))`.
pub open spec fn entry_view(t: (String, String, String)) -> (Seq<char>, (Seq<char>, Seq<char>)) {
    (t.0@, (t.1@, t.2@))
}

pub open spec fn v4_ptr_entry(p: (u32, Seq<char>)) -> (Seq<char>, (Seq<char>, Seq<char>)) {
    (v4_reverse_zone(p.0), (v4_reverse_owner(p.0), p.1))
}

pub open spec fn v6_ptr_entry(p: (u128, Seq<char>)) -> (Seq<char>, (Seq<char>, Seq<char>)) {
    (v6_reverse_zone(p.0), (v6_reverse_owner(p.0), p.1))
}

pub open spec fn v4_ptr_views(s: Seq<(u32, String)>) -> Seq<(u32, Seq<char>)> {
    s.map_values(|p: (u32, String)| (p.0, p.1@))
}

pub open spec fn v6_ptr_views(s: Seq<(u128, String)>) -> Seq<(u128, Seq<char>)> {
    s.map_values(|p: (u128, String)| (p.0, p.1@))
}

/// The PTR entries of IPv4 and IPv6 addresses with their targets.
pub open spec fn ptr_entries(ptrs: Seq<(u32, Seq<char>)>, ptrs_v6: Seq<(u128, Seq<char>)>) -> Seq<
    (Seq<char>, (Seq<char>, Seq<char>)),
> {
    ptrs.map_values(|p: (u32, Seq<char>)| v4_ptr_entry(p)) + ptrs_v6.map_values(
        |p: (u128, Seq<char>)| v6_ptr_entry(p),
    )
}

/// The `(owner, target)` records of the entries in zone `z`, in order.
pub open spec fn zone_ptrs(e: Seq<(Seq<char>, (Seq<char>, Seq<char>))>, z: Seq<char>) -> Seq<
    (Seq<char>, Seq<char>),
>
    decreases e.len(),
{
    if e.len() == 0 {
        Seq::empty()
    } else if e.last().0 == z {
        zone_ptrs(e.drop_last(), z).push(e.last().1)
    } else {
        zone_ptrs(e.drop_last(), z)
    }
}

/// Some reverse zone is named `z`.
pub open spec fn reverse_zone_listed(out: Seq<ResolvedReverseZone>, z: Seq<char>) -> bool {
    exists|i: int| 0 <= i < out.len() && #[trigger] out[i].name@ == z
}

/// Some entry lies in zone `z`.
pub open spec fn entry_zone(e: Seq<(Seq<char>, (Seq<char>, Seq<char>))>, z: Seq<char>) -> bool {
    exists|k: int| 0 <= k < e.len() && #[trigger] e[k].0 == z
}

/// The reverse zones of a list of PTR entries: one per zone name that an
/// entry has, in ascending name order, each with exactly the records of its
/// entries in ascending order.
pub open spec fn reverse_zones_of(
    out: Seq<ResolvedReverseZone>,
    e: Seq<(Seq<char>, (Seq<char>, Seq<char>))>,
) -> bool {
    &&& forall|i: int, j: int| 0 <= i < j < out.len() ==> text_lt(#[trigger] out[i].name@, #[trigger] out[j].name@)
    &&& forall|z: Seq<char>| #[trigger] reverse_zone_listed(out, z) <==> entry_zone(e, z)
    &&& forall|i: int| 0 <= i < out.len() ==> pairs_sorted(pair_views(#[trigger] out[i].records@))
    &&& forall|i: int| 0 <= i < out.len() ==> pair_views(#[trigger] out[i].records@).to_multiset() == zone_ptrs(e, out[i].name@).to_multiset()
}

/// Groups PTR entries by reverse zone.
fn build_reverse_zones(ptrs: Vec<(u32, String)>, ptrs_v6: Vec<(u128, String)>) -> (r: Vec<
    ResolvedReverseZone,
>)
    ensures
        reverse_zones_of(r@, ptr_entries(v4_ptr_views(ptrs@), v6_ptr_views(ptrs_v6@))),
{
    let ghost e = ptr_entries(v4_ptr_views(ptrs@), v6_ptr_views(ptrs_v6@));
    let mut entries: Vec<(String, String, String)> = Vec::new();
    let mut k: usize = 0;
    while k < ptrs.len()
        invariant
            k <= ptrs@.len(),
            entries@.len() == k,
            forall|m: int| 0 <= m < k ==> entry_view(#[trigger] entries@[m]) == v4_ptr_entry(v4_ptr_views(ptrs@)[m]),
        decreases ptrs@.len() - k,
    {
        let names = v4_reverse_names(ptrs[k].0);
        let target = owned(ptrs[k].1.as_str());
        entries.push((names.0, names.1, target));
        k = k + 1;
    }
    let mut k: usize = 0;
    while k < ptrs_v6.len()
        invariant
            k <= ptrs_v6@.len(),
            entries@.len() == ptrs@.len() + k,
            forall|m: int| 0 <= m < ptrs@.len() ==> entry_view(#[trigger] entries@[m]) == v4_ptr_entry(v4_ptr_views(ptrs@)[m]),
            forall|m: int| ptrs@.len() <= m < ptrs@.len() + k ==> entry_view(#[trigger] entries@[m]) == v6_ptr_entry(v6_ptr_views(ptrs_v6@)[m - ptrs@.len()]),
        decreases ptrs_v6@.len() - k,
    {
        let names = v6_reverse_names(ptrs_v6[k].0);
        let target = owned(ptrs_v6[k].1.as_str());
        entries.push((names.0, names.1, target));
        k = k + 1;
    }
    let ghost ev = entries@.map_values(|t: (String, String, String)| entry_view(t));
    assert(ev =~= e);
    // The distinct zone names, ascending.
    let mut names: Vec<(String, ())> = Vec::new();
    let mut k: usize = 0;
    while k < entries.len()
        invariant
            k <= entries@.len(),
            ev == entries@.map_values(|t: (String, String, String)| entry_view(t)),
            sorted_keys(names@),
            forall|z: Seq<char>| #[trigger] table_map(names@).dom().contains(z) <==> (exists|m: int| 0 <= m < k && #[trigger] ev[m].0 == z),
        decreases entries@.len() - k,
    {
        let name = owned(entries[k].0.as_str());
        insert_sorted(&mut names, name, ());
        proof {
            assert forall|z: Seq<char>| #[trigger] table_map(names@).dom().contains(z) <==> (exists|m: int| 0 <= m < k + 1 && #[trigger] ev[m].0 == z) by {
                if z == ev[k as int].0 {
                    assert(ev[k as int].0 == z);
                }
            }
        }
        k = k + 1;
    }
    proof {
        lemma_sorted_unique(names@);
    }
    let mut out: Vec<ResolvedReverseZone> = Vec::new();
    let mut i: usize = 0;
    while i < names.len()
        invariant
            i <= names@.len(),
            ev == e,
            ev == entries@.map_values(|t: (String, String, String)| entry_view(t)),
            sorted_keys(names@),
            unique_keys(names@),
            out@.len() == i,
            forall|j: int| 0 <= j < i ==> (#[trigger] out@[j]).name@ == names@[j].0@,
            forall|j: int| 0 <= j < i ==> pairs_sorted(pair_views(#[trigger] out@[j].records@)),
            forall|j: int| 0 <= j < i ==> pair_views(#[trigger] out@[j].records@).to_multiset() == zone_ptrs(e, out@[j].name@).to_multiset(),
        decreases names@.len() - i,
    {
        let zone = names[i].0.as_str();
        let mut recs: Vec<(String, String)> = Vec::new();
        let mut m: usize = 0;
        assert(pair_views(recs@) =~= zone_ptrs(ev.take(0), zone@));
        while m < entries.len()
            invariant
                m <= entries@.len(),
                ev == entries@.map_values(|t: (String, String, String)| entry_view(t)),
                pairs_sorted(pair_views(recs@)),
                pair_views(recs@).to_multiset() == zone_ptrs(ev.take(m as int), zone@).to_multiset(),
            decreases entries@.len() - m,
        {
            let ghost before = pair_views(recs@);
            assert(ev.take(m + 1).drop_last() =~= ev.take(m as int));
            if str_eq(entries[m].0.as_str(), zone) {
                let p = (owned(entries[m].1.as_str()), owned(entries[m].2.as_str()));
                insert_pair(&mut recs, p);
                proof {
                    broadcast use vstd::seq_lib::to_multiset_build;

                    assert(zone_ptrs(ev.take(m + 1), zone@) == zone_ptrs(ev.take(m as int), zone@).push(ev[m as int].1));
                }
            } else {
                assert(zone_ptrs(ev.take(m + 1), zone@) == zone_ptrs(ev.take(m as int), zone@));
            }
            m = m + 1;
        }
        assert(ev.take(entries@.len() as int) =~= ev);
        out.push(ResolvedReverseZone { name: owned(zone), records: recs });
        i = i + 1;
    }
    proof {
        assert forall|a: int, b: int| 0 <= a < b < out@.len() implies text_lt(#[trigger] out@[a].name@, #[trigger] out@[b].name@) by {
            assert(text_lt(names@[a].0@, names@[b].0@));
        }
        assert forall|z: Seq<char>| #[trigger] reverse_zone_listed(out@, z) <==> entry_zone(e, z) by {
            if exists|i: int| 0 <= i < out@.len() && #[trigger] out@[i].name@ == z {
                let i = choose|i: int| 0 <= i < out@.len() && #[trigger] out@[i].name@ == z;
                assert(names@[i].0@ == z);
                lemma_table_map_at(names@, i);
                assert(table_map(names@).dom().contains(z));
            }
            if exists|k: int| 0 <= k < e.len() && #[trigger] e[k].0 == z {
                assert(table_map(names@).dom().contains(z));
                let i = key_index(names@, z);
                assert(out@[i].name@ == z);
            }
        }
    }
    out
}

/// The IPv4 address of a host interface at the location.
pub open spec fn host_ipv4_of(b: &ConfigBundle, host: Seq<char>, interface: Seq<char>) -> Option<u32> {
    match lookup(b.location.hosts@, host) {
        None => None,
        Some(lh) => match lookup(lh.interfaces@, interface) {
            None => None,
            Some(i) => i.ipv4,
        },
    }
}

/// The IPv4 address at which a service is reached: its host's address on
/// the ingress interface.
pub open spec fn ingress_ipv4_of(b: &ConfigBundle, s: Service) -> Option<u32> {
    match s.ingress {
        None => None,
        Some(i) => host_ipv4_of(b, s.host@, i.interface@),
    }
}

/// The ULA address at which a service is reached: its host's ULA address on
/// the ingress interface.
pub open spec fn ingress_ula_of(b: &ConfigBundle, s: Service) -> Option<u128> {
    match s.ingress {
        None => None,
        Some(i) => host_ula_of(b, s.host@, i.interface@),
    }
}

/// An A record for `name`, with the name under which it is filed.
pub open spec fn a_of(name: Seq<char>, a: u32) -> (Seq<char>, RecordView) {
    (name, RecordView::A { name: fqdn_of(name), address: a })
}

/// An AAAA record for `name`, with the name under which it is filed.
pub open spec fn aaaa_of(name: Seq<char>, a: u128) -> (Seq<char>, RecordView) {
    (name, RecordView::Aaaa { name: fqdn_of(name), address: a })
}

/// What a configured record yields from its IPv4 and IPv6 addresses, when
/// the families it publishes have one: zone records, then IPv4 and IPv6 PTR
/// entries (those only when `reverse`).
pub open spec fn address_emits(
    r: DnsRecord,
    a4: Option<u32>,
    a6: Option<u128>,
    reverse: bool,
) -> Option<(Seq<(Seq<char>, RecordView)>, Seq<(u32, Seq<char>)>, Seq<(u128, Seq<char>)>)> {
    let fam4 = r.families@.contains(AddressFamily::Ipv4);
    let fam6 = r.families@.contains(AddressFamily::Ipv6);
    if (fam4 && a4 is None) || (fam6 && a6 is None) {
        None
    } else {
        Some(
            (
                (if fam4 {
                    seq![a_of(r.name@, a4->0)]
                } else {
                    Seq::empty()
                }) + (if fam6 {
                    seq![aaaa_of(r.name@, a6->0)]
                } else {
                    Seq::empty()
                }),
                if fam4 && reverse {
                    seq![(a4->0, fqdn_of(r.name@))]
                } else {
                    Seq::empty()
                },
                if fam6 && reverse {
                    seq![(a6->0, fqdn_of(r.name@))]
                } else {
                    Seq::empty()
                },
            ),
        )
    }
}

/// What one configured record contributes, `None` where something it needs
/// is missing.
pub open spec fn record_emits(b: &ConfigBundle, r: DnsRecord) -> Option<
    (Seq<(Seq<char>, RecordView)>, Seq<(u32, Seq<char>)>, Seq<(u128, Seq<char>)>),
> {
    match r.kind {
        DnsRecordKind::Host => match (r.target, r.interface) {
            (Some(t), Some(i)) => address_emits(
                r,
                host_ipv4_of(b, t@, i@),
                host_ula_of(b, t@, i@),
                r.reverse,
            ),
            _ => None,
        },
        DnsRecordKind::Service => match r.target {
            None => None,
            Some(t) => {
                let s = lookup(b.services.services@, t@)->0;
                let ingress = r.address_scope == Some(AddressScope::Ingress);
                let a4 = if ingress {
                    ingress_ipv4_of(b, s)
                } else {
                    match s.address {
                        Some(a) => a.ipv4,
                        None => None,
                    }
                };
                let a6 = if ingress {
                    ingress_ula_of(b, s)
                } else {
                    service_ula_of(b, s)
                };
                address_emits(r, a4, a6, r.reverse)
            },
        },
        DnsRecordKind::Proxy => match r.target {
            None => None,
            Some(t) => {
                let s = lookup(b.services.services@, t@)->0;
                address_emits(r, ingress_ipv4_of(b, s), ingress_ula_of(b, s), false)
            },
        },
        DnsRecordKind::Cname => match r.target {
            None => None,
            Some(t) => Some(
                (
                    seq![
                        (
                            r.name@,
                            RecordView::Cname { name: fqdn_of(r.name@), target: fqdn_of(t@) },
                        ),
                    ],
                    Seq::empty(),
                    Seq::empty(),
                ),
            ),
        },
        DnsRecordKind::SegmentGateway => match r.target {
            None => None,
            Some(t) => {
                let g = lookup(b.location.segments@, t@)->0.ipv4_gateway;
                Some(
                    (
                        seq![a_of(r.name@, g)],
                        if r.reverse {
                            seq![(g, fqdn_of(r.name@))]
                        } else {
                            Seq::empty()
                        },
                        Seq::empty(),
                    ),
                )
            },
        },
    }
}

/// What a list of configured records contributes, in order.
pub open spec fn records_emit(b: &ConfigBundle, rs: Seq<DnsRecord>) -> Option<
    (Seq<(Seq<char>, RecordView)>, Seq<(u32, Seq<char>)>, Seq<(u128, Seq<char>)>),
>
    decreases rs.len(),
{
    if rs.len() == 0 {
        Some((Seq::empty(), Seq::empty(), Seq::empty()))
    } else {
        match (records_emit(b, rs.drop_last()), record_emits(b, rs.last())) {
            (Some(x), Some(y)) => Some((x.0 + y.0, x.1 + y.1, x.2 + y.2)),
            _ => None,
        }
    }
}

/// A web service published through a reverse proxy.
pub open spec fn proxied_web(s: Service) -> bool {
    s.web matches Some(w) && w.access@ == "reverse-proxy"@
}

/// The A records of web services published through a reverse proxy: each
/// at the proxy's ingress address.
pub open spec fn web_emit(b: &ConfigBundle, ss: Seq<(String, Service)>) -> Option<Seq<(Seq<char>, RecordView)>>
    decreases ss.len(),
{
    if ss.len() == 0 {
        Some(Seq::empty())
    } else {
        match web_emit(b, ss.drop_last()) {
            None => None,
            Some(x) => {
                let s = ss.last().1;
                if proxied_web(s) {
                    let w = s.web->0;
                    match ingress_ipv4_of(b, lookup(b.services.services@, w.proxy@)->0) {
                        None => None,
                        Some(a) => Some(x.push(a_of(w.domain@, a))),
                    }
                } else {
                    Some(x)
                }
            },
        }
    }
}

/// The DNS service.
pub open spec fn dns_service_of(b: &ConfigBundle) -> Option<Service> {
    lookup(b.services.services@, b.dns.dns.service@)
}

/// Everything the DNS plan publishes: the zone records (the name server's
/// A record, then those of the configured records, then those of proxied
/// web services) and the IPv4 and IPv6 PTR entries.
pub open spec fn dns_emissions(b: &ConfigBundle) -> Option<
    (Seq<(Seq<char>, RecordView)>, Seq<(u32, Seq<char>)>, Seq<(u128, Seq<char>)>),
> {
    match dns_service_of(b) {
        None => None,
        Some(svc) => {
            if !(svc.address matches Some(a) && a.ipv4 is Some) {
                None
            } else {
                match (ingress_ipv4_of(b, svc), records_emit(b, b.dns.records@), web_emit(b, b.services.services@)) {
                    (Some(ing), Some(recs), Some(web)) => Some(
                        (
                            seq![a_of(b.dns.dns.soa.primary_nameserver@, ing)] + recs.0 + web,
                            recs.1,
                            recs.2,
                        ),
                    ),
                    _ => None,
                }
            }
        },
    }
}

/// The names of the configured zones.
pub open spec fn configured_zones(b: &ConfigBundle) -> Set<Seq<char>> {
    Set::new(|z: Seq<char>| exists|i: int| 0 <= i < b.dns.zones@.len() && (#[trigger] b.dns.zones@[i]).name@ == z)
}

/// The DNS plan resolves: the DNS service has a container IPv4 and an
/// ingress address, every configured record and proxied web service has
/// what it needs, and every published name belongs to a configured zone.
pub open spec fn dns_plan_ok(b: &ConfigBundle) -> bool {
    match dns_emissions(b) {
        None => false,
        Some(t) => all_filed(b, t.0),
    }
}

/// Every published name belongs to a configured zone.
pub open spec fn all_filed(b: &ConfigBundle, em: Seq<(Seq<char>, RecordView)>) -> bool {
    forall|k: int| 0 <= k < em.len() ==> best_zone(configured_zones(b), (#[trigger] em[k]).0) is Some
}

/// The NS record of zone `z`.
pub open spec fn ns_record(b: &ConfigBundle, z: Seq<char>) -> RecordView {
    RecordView::Ns { name: fqdn_of(z), target: fqdn_of(b.dns.dns.soa.primary_nameserver@) }
}

/// Some zone is named `z`.
pub open spec fn zone_listed(out: Seq<ResolvedZone>, z: Seq<char>) -> bool {
    exists|i: int| 0 <= i < out.len() && #[trigger] out[i].name@ == z
}

/// Record `v` is filed in zone `z`: it is the zone's NS record, or a
/// published record whose name belongs to `z`.
pub open spec fn filed_in(b: &ConfigBundle, em: Seq<(Seq<char>, RecordView)>, z: Seq<char>, v: RecordView) -> bool {
    ||| v == ns_record(b, z)
    ||| exists|k: int| 0 <= k < em.len() && best_zone(configured_zones(b), (#[trigger] em[k]).0) == Some(z) && em[k].1 == v
}

/// The authoritative zones: one per configured zone name, in ascending name
/// order, each holding exactly the records filed in it, ascending.
pub open spec fn zones_of(b: &ConfigBundle, out: Seq<ResolvedZone>, em: Seq<(Seq<char>, RecordView)>) -> bool {
    &&& forall|i: int, j: int| 0 <= i < j < out.len() ==> text_lt(#[trigger] out[i].name@, #[trigger] out[j].name@)
    &&& forall|z: Seq<char>| #[trigger] zone_listed(out, z) <==> configured_zones(b).contains(z)
    &&& forall|i: int| 0 <= i < out.len() ==> records_ascend(record_views(#[trigger] out[i].records@))
    &&& forall|i: int, v: RecordView| 0 <= i < out.len() ==> (#[trigger] record_views(out[i].records@).contains(v) <==> filed_in(b, em, out[i].name@, v))
}

/// The warning for a DNS client network that the DNS host does not route
/// directly.
pub open spec fn network_warning(name: Seq<char>, n: LogicalNetwork, host: Seq<char>) -> Seq<char> {
    "network '"@ + name + "' ("@ + (match n.ipv4_cidr {
        Some(c) => ipv4_cidr_display(c),
        None => "no IPv4 CIDR"@,
    }) + ") is excluded from DNS recursion because it is not directly reachable from DNS host '"@ + host + "'"@
}

/// The warnings for DNS client networks that the DNS host does not route
/// directly, in table order.
pub open spec fn network_warnings(nets: Seq<(String, LogicalNetwork)>, host: Seq<char>) -> Seq<Seq<char>>
    decreases nets.len(),
{
    if nets.len() == 0 {
        Seq::empty()
    } else {
        let w = network_warnings(nets.drop_last(), host);
        let n = nets.last();
        if n.1.dns_clients && !directly_reachable(n.1, host) {
            w.push(network_warning(n.0@, n.1, host))
        } else {
            w
        }
    }
}

/// The warning for a location whose IPv6 prefix is router-advertised.
pub open spec fn router_advertised_warning(location: Seq<char>) -> Seq<char> {
    "location '"@ + location + "' uses router-advertised IPv6; the prefix is accepted for recursion but no durable GUA AAAA records are emitted"@
}

/// The warnings of the DNS plan.
pub open spec fn dns_warnings(b: &ConfigBundle) -> Seq<Seq<char>> {
    network_warnings(b.networks.networks@, dns_host_of(b)) + if b.location.ipv6.mode == Ipv6Mode::RouterAdvertised {
        seq![router_advertised_warning(b.location.name@)]
    } else {
        Seq::empty()
    }
}

/// The services and segments that configured record `r` names are present:
/// the target of a service or proxy record among the services, the target of
/// a segment gateway record among the segments.
pub open spec fn record_targets_present(b: &ConfigBundle, r: DnsRecord) -> bool {
    &&& (r.kind == DnsRecordKind::Service || r.kind == DnsRecordKind::Proxy) ==> (r.target matches Some(t) ==> has_key(b.services.services@, t@))
    &&& r.kind == DnsRecordKind::SegmentGateway ==> (r.target matches Some(t) ==> has_key(b.location.segments@, t@))
}

/// Every name the DNS resolution could look up without a fallback is
/// present: the targets of all configured records, and the proxies of all
/// proxied web services.
pub open spec fn dns_targets_present(b: &ConfigBundle) -> bool {
    &&& forall|i: int| 0 <= i < b.dns.records@.len() ==> record_targets_present(b, #[trigger] b.dns.records@[i])
    &&& forall|i: int| 0 <= i < b.services.services@.len() ==> (proxied_web(#[trigger] b.services.services@[i].1) ==> has_key(b.services.services@, b.services.services@[i].1.web->0.proxy@))
}

/// What the DNS plan checks before the configured records: the DNS service
/// has a container IPv4 address and an ingress address, and the name
/// server's name lies in a zone.
pub open spec fn dns_head_ok(b: &ConfigBundle) -> bool {
    &&& dns_service_of(b) matches Some(svc) && svc.address matches Some(a) && a.ipv4 is Some
    &&& ingress_ipv4_of(b, dns_service_of(b)->0) is Some
    &&& filed(b, b.dns.dns.soa.primary_nameserver@)
}

/// What `resolve_dns_plan` needs of a bundle: its shape, and every name that
/// the resolution reaches and looks up without a fallback is present. A
/// configured record is reached when everything before it resolved; a
/// proxied web service when every configured record and every web service
/// before it resolved.
pub open spec fn dns_plan_requires(b: &ConfigBundle) -> bool {
    &&& b.wf()
    &&& dns_head_ok(b) ==> forall|i: int| 0 <= i < b.dns.records@.len() ==> (
        (forall|j: int| 0 <= j < i ==> !record_fails(b, #[trigger] b.dns.records@[j]))
            ==> record_targets_present(b, #[trigger] b.dns.records@[i]))
    &&& (dns_head_ok(b) && forall|j: int| 0 <= j < b.dns.records@.len() ==> !record_fails(b, #[trigger] b.dns.records@[j]))
        ==> forall|k: int| 0 <= k < b.services.services@.len() ==> (
        (forall|j: int| 0 <= j < k ==> !web_fails(b, (#[trigger] b.services.services@[j]).1))
            ==> (proxied_web((#[trigger] b.services.services@[k]).1) ==> has_key(b.services.services@, b.services.services@[k].1.web->0.proxy@)))
}

/// A bundle whose records and proxied web services name only present
/// entries meets what `resolve_dns_plan` needs.
pub proof fn lemma_targets_present_meet_requires(b: &ConfigBundle)
    requires
        b.wf(),
        dns_targets_present(b),
    ensures
        dns_plan_requires(b),
{
}

/// The plain values of published records with the names they are filed under.
pub open spec fn emission_views(s: Seq<(String, ResolvedRecord)>) -> Seq<(Seq<char>, RecordView)> {
    s.map_values(|e: (String, ResolvedRecord)| (e.0@, e.1@))
}

/// What one step contributes: records with their names, IPv4 PTR entries,
/// IPv6 PTR entries.
pub type Emissions = (Vec<(String, ResolvedRecord)>, Vec<(u32, String)>, Vec<(u128, String)>);

pub open spec fn emissions_view(t: Emissions) -> (Seq<(Seq<char>, RecordView)>, Seq<(u32, Seq<char>)>, Seq<(u128, Seq<char>)>) {
    (emission_views(t.0@), v4_ptr_views(t.1@), v6_ptr_views(t.2@))
}

/// Why the IPv4 address of `interface` of `host` is refused: the host is
/// not attached, lacks the interface, or the interface has no IPv4 address.
pub open spec fn host_ipv4_refusal(b: &ConfigBundle, host: Seq<char>, interface: Seq<char>, err: PlanError) -> bool {
    match lookup(b.location.hosts@, host) {
        None => err matches PlanError::HostNotAttached { host: h, location } && h@ == host && location@ == b.location.name@,
        Some(lh) => if lookup(lh.interfaces@, interface) is None {
            err matches PlanError::NoInterface { host: h, interface: i } && h@ == host && i@ == interface
        } else {
            err matches PlanError::InterfaceNoIpv4 { host: h, interface: i } && h@ == host && i@ == interface
        },
    }
}

/// Why the ingress IPv4 address of service `s` is refused: it has no
/// ingress, or its host's address on the ingress interface is refused.
pub open spec fn ingress_ipv4_refusal(b: &ConfigBundle, s: Service, err: PlanError) -> bool {
    match s.ingress {
        None => err matches PlanError::ServiceNoIngress { host } && host@ == s.host@,
        Some(i) => host_ipv4_refusal(b, s.host@, i.interface@, err),
    }
}

/// Why the ingress ULA address of service `s` is refused.
pub open spec fn ingress_ula_refusal(b: &ConfigBundle, s: Service, err: PlanError) -> bool {
    match s.ingress {
        None => err matches PlanError::ServiceNoIngress { host } && host@ == s.host@,
        Some(i) => host_ula_refusal(b, s.host@, i.interface@, err),
    }
}

/// A record named `name` lies in a configured zone.
pub open spec fn filed(b: &ConfigBundle, name: Seq<char>) -> bool {
    best_zone(configured_zones(b), name) is Some
}

/// Configured record `r` cannot be published: an address it needs is
/// missing, or its name lies in no zone.
pub open spec fn record_fails(b: &ConfigBundle, r: DnsRecord) -> bool {
    match record_emits(b, r) {
        None => true,
        Some(t) => !all_filed(b, t.0),
    }
}

/// Why configured record `r` is refused, in the order it is processed: a
/// missing target or interface; its IPv4 address; its name outside every
/// zone once that address is published; its IPv6 address; its name.
pub open spec fn record_refusal(b: &ConfigBundle, r: DnsRecord, err: PlanError) -> bool {
    let fam4 = r.families@.contains(AddressFamily::Ipv4);
    let fam6 = r.families@.contains(AddressFamily::Ipv6);
    let missing = err matches PlanError::RecordTargetMissing { record, kind } && record@ == r.name@ && kind == r.kind;
    let outside = err matches PlanError::RecordOutsideZones { record } && record@ == r.name@;
    let nf = !filed(b, r.name@);
    match r.kind {
        DnsRecordKind::Host => match (r.target, r.interface) {
            (None, _) => missing,
            (Some(_), None) => err matches PlanError::RecordInterfaceMissing { record } && record@ == r.name@,
            (Some(t), Some(i)) => if fam4 && host_ipv4_of(b, t@, i@) is None {
                host_ipv4_refusal(b, t@, i@, err)
            } else if fam4 && nf {
                outside
            } else if fam6 && host_ula_of(b, t@, i@) is None {
                host_ula_refusal(b, t@, i@, err)
            } else {
                outside
            },
        },
        DnsRecordKind::Service => match r.target {
            None => missing,
            Some(t) => {
                let s = lookup(b.services.services@, t@)->0;
                let ingress = r.address_scope == Some(AddressScope::Ingress);
                if fam4 && ingress && ingress_ipv4_of(b, s) is None {
                    ingress_ipv4_refusal(b, s, err)
                } else if fam4 && !ingress && !(s.address matches Some(a) && a.ipv4 is Some) {
                    err matches PlanError::ServiceNoIpv4 { service } && service@ == t@
                } else if fam4 && nf {
                    outside
                } else if fam6 && ingress && ingress_ula_of(b, s) is None {
                    ingress_ula_refusal(b, s, err)
                } else if fam6 && !ingress && service_ula_of(b, s) is None {
                    service_ula_refusal(b, s, err)
                } else {
                    outside
                }
            },
        },
        DnsRecordKind::Proxy => match r.target {
            None => missing,
            Some(t) => {
                let s = lookup(b.services.services@, t@)->0;
                if fam4 && ingress_ipv4_of(b, s) is None {
                    ingress_ipv4_refusal(b, s, err)
                } else if fam4 && nf {
                    outside
                } else if fam6 && ingress_ula_of(b, s) is None {
                    ingress_ula_refusal(b, s, err)
                } else {
                    outside
                }
            },
        },
        _ => match r.target {
            None => missing,
            Some(_) => outside,
        },
    }
}

/// Record `k` of `rs` is the first configured record that is refused.
pub open spec fn first_record_failure(b: &ConfigBundle, rs: Seq<DnsRecord>, k: int) -> bool {
    &&& 0 <= k < rs.len()
    &&& forall|j: int| 0 <= j < k ==> !record_fails(b, #[trigger] rs[j])
    &&& record_fails(b, rs[k])
}

/// Proxied web service `s` cannot be published: its proxy has no ingress
/// address, or its domain lies in no zone.
pub open spec fn web_fails(b: &ConfigBundle, s: Service) -> bool {
    &&& proxied_web(s)
    &&& (ingress_ipv4_of(b, lookup(b.services.services@, s.web->0.proxy@)->0) is None || !filed(b, s.web->0.domain@))
}

/// Service `k` of `ss` is the first proxied web service that is refused.
pub open spec fn first_web_failure(b: &ConfigBundle, ss: Seq<(String, Service)>, k: int) -> bool {
    &&& 0 <= k < ss.len()
    &&& forall|j: int| 0 <= j < k ==> !web_fails(b, (#[trigger] ss[j]).1)
    &&& web_fails(b, ss[k].1)
}

/// Why the DNS plan is refused, at the first failure in the order the plan
/// is built: the DNS service is missing, has no container address, or its
/// ingress address is refused; the name server's name lies in no zone; the
/// first configured record refused; the first proxied web service refused.
pub open spec fn dns_refusal(b: &ConfigBundle, err: PlanError) -> bool {
    let name = b.dns.dns.service@;
    match dns_service_of(b) {
        None => err matches PlanError::DnsServiceMissing { service } && service@ == name,
        Some(svc) => if !(svc.address matches Some(a) && a.ipv4 is Some) {
            err matches PlanError::DnsServiceNoIpv4 { service } && service@ == name
        } else if ingress_ipv4_of(b, svc) is None {
            ingress_ipv4_refusal(b, svc, err)
        } else if !filed(b, b.dns.dns.soa.primary_nameserver@) {
            err matches PlanError::RecordOutsideZones { record } && record@ == b.dns.dns.soa.primary_nameserver@
        } else if exists|k: int| #[trigger] first_record_failure(b, b.dns.records@, k) {
            exists|k: int| #[trigger] first_record_failure(b, b.dns.records@, k) && record_refusal(b, b.dns.records@[k], err)
        } else {
            exists|k: int| #[trigger] first_web_failure(b, b.services.services@, k) && {
                let w = b.services.services@[k].1.web->0;
                let proxy = lookup(b.services.services@, w.proxy@)->0;
                if ingress_ipv4_of(b, proxy) is None {
                    ingress_ipv4_refusal(b, proxy, err)
                } else {
                    err matches PlanError::RecordOutsideZones { record } && record@ == w.domain@
                }
            }
        },
    }
}

/// The IPv4 address of a host interface at the location.
fn resolve_host_ipv4(b: &ConfigBundle, host: &str, interface: &str) -> (r: Result<u32, PlanError>)
    requires
        b.wf(),
    ensures
        r is Ok <==> host_ipv4_of(b, host@, interface@) is Some,
        r matches Ok(a) ==> host_ipv4_of(b, host@, interface@) == Some(a),
        r matches Err(err) ==> host_ipv4_refusal(b, host@, interface@, err),
{
    let hi = match find(&b.location.hosts, host) {
        None => {
            return Err(PlanError::HostNotAttached { host: owned(host), location: owned(b.location.name.as_str()) });
        },
        Some(i) => i,
    };
    let lh = &b.location.hosts[hi].1;
    assert(unique_keys(b.location.hosts@[hi as int].1.interfaces@));
    let ii = match find(&lh.interfaces, interface) {
        None => {
            return Err(PlanError::NoInterface { host: owned(host), interface: owned(interface) });
        },
        Some(i) => i,
    };
    match lh.interfaces[ii].1.ipv4 {
        Some(a) => Ok(a),
        None => Err(PlanError::InterfaceNoIpv4 { host: owned(host), interface: owned(interface) }),
    }
}

/// The IPv4 address at which a service is reached.
fn resolve_service_ingress_ipv4(b: &ConfigBundle, s: &Service) -> (r: Result<u32, PlanError>)
    requires
        b.wf(),
    ensures
        r is Ok <==> ingress_ipv4_of(b, *s) is Some,
        r matches Ok(a) ==> ingress_ipv4_of(b, *s) == Some(a),
        r matches Err(err) ==> ingress_ipv4_refusal(b, *s, err),
{
    match &s.ingress {
        None => Err(PlanError::ServiceNoIngress { host: owned(s.host.as_str()) }),
        Some(i) => resolve_host_ipv4(b, s.host.as_str(), i.interface.as_str()),
    }
}

/// The ULA address at which a service is reached.
fn resolve_service_ingress_ula(b: &ConfigBundle, s: &Service) -> (r: Result<u128, PlanError>)
    requires
        b.wf(),
    ensures
        r is Ok <==> ingress_ula_of(b, *s) is Some,
        r matches Ok(a) ==> ingress_ula_of(b, *s) == Some(a),
        r matches Err(err) ==> ingress_ula_refusal(b, *s, err),
{
    match &s.ingress {
        None => Err(PlanError::ServiceNoIngress { host: owned(s.host.as_str()) }),
        Some(i) => host_ula(b, s.host.as_str(), i.interface.as_str()),
    }
}

fn has_family(families: &Vec<AddressFamily>, f: AddressFamily) -> (r: bool)
    ensures
        r == families@.contains(f),
{
    let mut i: usize = 0;
    while i < families.len()
        invariant
            i <= families@.len(),
            forall|j: int| 0 <= j < i ==> families@[j] != f,
        decreases families@.len() - i,
    {
        if families[i] == f {
            assert(families@[i as int] == f);
            return true;
        }
        i = i + 1;
    }
    false
}

fn a_record(name: &str, address: u32) -> (r: (String, ResolvedRecord))
    ensures
        (r.0@, r.1@) == a_of(name@, address),
{
    (owned(name), ResolvedRecord::A { name: fqdn(name), address })
}

fn aaaa_record(name: &str, address: u128) -> (r: (String, ResolvedRecord))
    ensures
        (r.0@, r.1@) == aaaa_of(name@, address),
{
    (owned(name), ResolvedRecord::Aaaa { name: fqdn(name), address })
}

/// The records and PTR entries of a configured record from its addresses.
fn publish(r: &DnsRecord, a4: Option<u32>, a6: Option<u128>, reverse: bool) -> (t: Emissions)
    requires
        r.families@.contains(AddressFamily::Ipv4) ==> a4 is Some,
        r.families@.contains(AddressFamily::Ipv6) ==> a6 is Some,
    ensures
        address_emits(*r, a4, a6, reverse) == Some(emissions_view(t)),
{
    let fam4 = has_family(&r.families, AddressFamily::Ipv4);
    let fam6 = has_family(&r.families, AddressFamily::Ipv6);
    let mut records: Vec<(String, ResolvedRecord)> = Vec::new();
    let mut p4: Vec<(u32, String)> = Vec::new();
    let mut p6: Vec<(u128, String)> = Vec::new();
    if fam4 {
        let a = match a4 { Some(a) => a, None => 0 };
        records.push(a_record(r.name.as_str(), a));
        if reverse {
            p4.push((a, fqdn(r.name.as_str())));
        }
    }
    if fam6 {
        let a = match a6 { Some(a) => a, None => 0 };
        records.push(aaaa_record(r.name.as_str(), a));
        if reverse {
            p6.push((a, fqdn(r.name.as_str())));
        }
    }
    let t = (records, p4, p6);
    proof {
        let want = address_emits(*r, a4, a6, reverse)->0;
        assert(emission_views(t.0@) =~= want.0);
        assert(v4_ptr_views(t.1@) =~= want.1);
        assert(v6_ptr_views(t.2@) =~= want.2);
    }
    t
}

/// Refuses a record named `name` that lies in no zone.
fn check_filed(zones: &Vec<ResolvedZone>, name: &str) -> (r: Result<(), PlanError>)
    ensures
        r is Ok <==> best_zone(zone_name_set(zones@), name@) is Some,
        r matches Err(e) ==> e matches PlanError::RecordOutsideZones { record } && record@ == name@,
{
    match matching_zone(zones, name) {
        Some(_) => Ok(()),
        None => Err(PlanError::RecordOutsideZones { record: owned(name) }),
    }
}

/// What configured record `i` contributes.
fn record_emissions(b: &ConfigBundle, zones: &Vec<ResolvedZone>, i: usize) -> (r: Result<Emissions, PlanError>)
    requires
        b.wf(),
        i < b.dns.records@.len(),
        record_targets_present(b, b.dns.records@[i as int]),
        zone_name_set(zones@) == configured_zones(b),
    ensures
        r is Ok <==> !record_fails(b, b.dns.records@[i as int]),
        r matches Ok(t) ==> record_emits(b, b.dns.records@[i as int]) == Some(emissions_view(t)),
        r matches Err(err) ==> record_refusal(b, b.dns.records@[i as int], err),
{
    let rec = &b.dns.records[i];
    let fam4 = has_family(&rec.families, AddressFamily::Ipv4);
    let fam6 = has_family(&rec.families, AddressFamily::Ipv6);
    match rec.kind {
        DnsRecordKind::Host => {
            let t = match &rec.target {
                Some(t) => t.as_str(),
                None => {
                    return Err(PlanError::RecordTargetMissing { record: owned(rec.name.as_str()), kind: rec.kind });
                },
            };
            let iface = match &rec.interface {
                Some(x) => x.as_str(),
                None => {
                    return Err(PlanError::RecordInterfaceMissing { record: owned(rec.name.as_str()) });
                },
            };
            let a4 = if fam4 {
                match resolve_host_ipv4(b, t, iface) {
                    Ok(a) => Some(a),
                    Err(e) => {
                        return Err(e);
                    },
                }
            } else {
                None
            };
            if fam4 {
                match check_filed(zones, rec.name.as_str()) {
                    Ok(()) => {},
                    Err(e) => {
                        proof {
                            if record_emits(b, *rec) is Some {
                                assert((record_emits(b, *rec)->0).0[0].0 == rec.name@);
                            }
                        }
                        return Err(e);
                    },
                }
            }
            let a6 = if fam6 {
                match host_ula(b, t, iface) {
                    Ok(a) => Some(a),
                    Err(e) => {
                        return Err(e);
                    },
                }
            } else {
                None
            };
            if fam6 {
                match check_filed(zones, rec.name.as_str()) {
                    Ok(()) => {},
                    Err(e) => {
                        proof {
                            if record_emits(b, *rec) is Some {
                                assert((record_emits(b, *rec)->0).0[0].0 == rec.name@);
                            }
                        }
                        return Err(e);
                    },
                }
            }
            Ok(publish(rec, a4, a6, rec.reverse))
        },
        DnsRecordKind::Service => {
            let t = match &rec.target {
                Some(t) => t.as_str(),
                None => {
                    return Err(PlanError::RecordTargetMissing { record: owned(rec.name.as_str()), kind: rec.kind });
                },
            };
            let si = match find(&b.services.services, t) {
                Some(si) => si,
                None => {
                    return Err(PlanError::RecordTargetMissing { record: owned(rec.name.as_str()), kind: rec.kind });
                },
            };
            let svc = &b.services.services[si].1;
            let ingress = match rec.address_scope {
                Some(AddressScope::Ingress) => true,
                _ => false,
            };
            let a4 = if fam4 {
                if ingress {
                    match resolve_service_ingress_ipv4(b, svc) {
                        Ok(a) => Some(a),
                        Err(e) => {
                            return Err(e);
                        },
                    }
                } else {
                    match &svc.address {
                        Some(a) => match a.ipv4 {
                            Some(x) => Some(x),
                            None => {
                                return Err(PlanError::ServiceNoIpv4 { service: owned(t) });
                            },
                        },
                        None => {
                            return Err(PlanError::ServiceNoIpv4 { service: owned(t) });
                        },
                    }
                }
            } else {
                None
            };
            if fam4 {
                match check_filed(zones, rec.name.as_str()) {
                    Ok(()) => {},
                    Err(e) => {
                        proof {
                            if record_emits(b, *rec) is Some {
                                assert((record_emits(b, *rec)->0).0[0].0 == rec.name@);
                            }
                        }
                        return Err(e);
                    },
                }
            }
            let a6 = if fam6 {
                if ingress {
                    match resolve_service_ingress_ula(b, svc) {
                        Ok(a) => Some(a),
                        Err(e) => {
                            return Err(e);
                        },
                    }
                } else {
                    match service_ula(b, svc) {
                        Ok(a) => Some(a),
                        Err(e) => {
                            return Err(e);
                        },
                    }
                }
            } else {
                None
            };
            if fam6 {
                match check_filed(zones, rec.name.as_str()) {
                    Ok(()) => {},
                    Err(e) => {
                        proof {
                            if record_emits(b, *rec) is Some {
                                assert((record_emits(b, *rec)->0).0[0].0 == rec.name@);
                            }
                        }
                        return Err(e);
                    },
                }
            }
            Ok(publish(rec, a4, a6, rec.reverse))
        },
        DnsRecordKind::Proxy => {
            let t = match &rec.target {
                Some(t) => t.as_str(),
                None => {
                    return Err(PlanError::RecordTargetMissing { record: owned(rec.name.as_str()), kind: rec.kind });
                },
            };
            let si = match find(&b.services.services, t) {
                Some(si) => si,
                None => {
                    return Err(PlanError::RecordTargetMissing { record: owned(rec.name.as_str()), kind: rec.kind });
                },
            };
            let svc = &b.services.services[si].1;
            let a4 = if fam4 {
                match resolve_service_ingress_ipv4(b, svc) {
                    Ok(a) => Some(a),
                    Err(e) => {
                        return Err(e);
                    },
                }
            } else {
                None
            };
            if fam4 {
                match check_filed(zones, rec.name.as_str()) {
                    Ok(()) => {},
                    Err(e) => {
                        proof {
                            if record_emits(b, *rec) is Some {
                                assert((record_emits(b, *rec)->0).0[0].0 == rec.name@);
                            }
                        }
                        return Err(e);
                    },
                }
            }
            let a6 = if fam6 {
                match resolve_service_ingress_ula(b, svc) {
                    Ok(a) => Some(a),
                    Err(e) => {
                        return Err(e);
                    },
                }
            } else {
                None
            };
            if fam6 {
                match check_filed(zones, rec.name.as_str()) {
                    Ok(()) => {},
                    Err(e) => {
                        proof {
                            if record_emits(b, *rec) is Some {
                                assert((record_emits(b, *rec)->0).0[0].0 == rec.name@);
                            }
                        }
                        return Err(e);
                    },
                }
            }
            Ok(publish(rec, a4, a6, false))
        },
        DnsRecordKind::Cname => {
            let t = match &rec.target {
                Some(t) => t.as_str(),
                None => {
                    return Err(PlanError::RecordTargetMissing { record: owned(rec.name.as_str()), kind: rec.kind });
                },
            };
            match check_filed(zones, rec.name.as_str()) {
                Ok(()) => {},
                Err(e) => {
                    proof {
                        assert((record_emits(b, *rec)->0).0[0].0 == rec.name@);
                    }
                    return Err(e);
                },
            }
            let mut records: Vec<(String, ResolvedRecord)> = Vec::new();
            records.push((owned(rec.name.as_str()), ResolvedRecord::Cname { name: fqdn(rec.name.as_str()), target: fqdn(t) }));
            let res: Emissions = (records, Vec::new(), Vec::new());
            proof {
                let want = record_emits(b, *rec)->0;
                assert(emission_views(res.0@) =~= want.0);
                assert(v4_ptr_views(res.1@) =~= want.1);
                assert(v6_ptr_views(res.2@) =~= want.2);
            }
            Ok(res)
        },
        DnsRecordKind::SegmentGateway => {
            let t = match &rec.target {
                Some(t) => t.as_str(),
                None => {
                    return Err(PlanError::RecordTargetMissing { record: owned(rec.name.as_str()), kind: rec.kind });
                },
            };
            let si = match find(&b.location.segments, t) {
                Some(si) => si,
                None => {
                    return Err(PlanError::RecordTargetMissing { record: owned(rec.name.as_str()), kind: rec.kind });
                },
            };
            let g = b.location.segments[si].1.ipv4_gateway;
            match check_filed(zones, rec.name.as_str()) {
                Ok(()) => {},
                Err(e) => {
                    proof {
                        assert((record_emits(b, *rec)->0).0[0].0 == rec.name@);
                    }
                    return Err(e);
                },
            }
            let mut records: Vec<(String, ResolvedRecord)> = Vec::new();
            records.push(a_record(rec.name.as_str(), g));
            let mut p4: Vec<(u32, String)> = Vec::new();
            if rec.reverse {
                p4.push((g, fqdn(rec.name.as_str())));
            }
            let res: Emissions = (records, p4, Vec::new());
            proof {
                let want = record_emits(b, *rec)->0;
                assert(emission_views(res.0@) =~= want.0);
                assert(v4_ptr_views(res.1@) =~= want.1);
                assert(v6_ptr_views(res.2@) =~= want.2);
            }
            Ok(res)
        },
    }
}

/// The resolved DNS server plan of a location.
#[derive(Debug)]
pub struct ResolvedDnsPlan {
    pub location: String,
    pub provider: String,
    pub service: String,
    pub default_ttl: u32,
    pub negative_ttl: u32,
    pub soa_primary_nameserver: String,
    pub soa_responsible_mailbox: String,
    pub soa_refresh: u32,
    pub soa_retry: u32,
    pub soa_expire: u32,
    pub forwarders_ipv4: Vec<u32>,
    pub forwarders_ipv6: Vec<u128>,
    pub container_ipv4: u32,
    pub ingress_ipv4: u32,
    pub access: ResolvedDnsAccess,
    pub zones: Vec<ResolvedZone>,
    pub reverse_zones: Vec<ResolvedReverseZone>,
    pub warnings: Vec<String>,
}

/// `p` is the DNS plan of `b` (whose resolution succeeds).
pub open spec fn dns_plan_of(b: &ConfigBundle, p: ResolvedDnsPlan) -> bool {
    let em = dns_emissions(b)->0;
    let svc = dns_service_of(b)->0;
    &&& p.location@ == b.location.name@
    &&& p.provider@ == b.dns.dns.provider@
    &&& p.service@ == b.dns.dns.service@
    &&& p.default_ttl == b.dns.dns.default_ttl
    &&& p.negative_ttl == b.dns.dns.negative_ttl
    &&& p.soa_primary_nameserver@ == fqdn_of(b.dns.dns.soa.primary_nameserver@)
    &&& p.soa_responsible_mailbox@ == fqdn_of(b.dns.dns.soa.responsible_mailbox@)
    &&& p.soa_refresh == b.dns.dns.soa.refresh
    &&& p.soa_retry == b.dns.dns.soa.retry
    &&& p.soa_expire == b.dns.dns.soa.expire
    &&& p.forwarders_ipv4@ == b.dns.dns.forwarders.ipv4@
    &&& p.forwarders_ipv6@ == b.dns.dns.forwarders.ipv6@
    &&& svc.address->0.ipv4 == Some(p.container_ipv4)
    &&& ingress_ipv4_of(b, svc) == Some(p.ingress_ipv4)
    &&& access_of(b, p.access)
    &&& zones_of(b, p.zones@, em.0)
    &&& reverse_zones_of(p.reverse_zones@, ptr_entries(em.1, em.2))
    &&& texts(p.warnings@) == dns_warnings(b)
}

proof fn lemma_views_append(a: Seq<(String, ResolvedRecord)>, b: Seq<(String, ResolvedRecord)>)
    ensures
        emission_views(a + b) == emission_views(a) + emission_views(b),
{
    assert(emission_views(a + b) =~= emission_views(a) + emission_views(b));
}

proof fn lemma_ptr_views_append(a4: Seq<(u32, String)>, b4: Seq<(u32, String)>, a6: Seq<(u128, String)>, b6: Seq<(u128, String)>)
    ensures
        v4_ptr_views(a4 + b4) == v4_ptr_views(a4) + v4_ptr_views(b4),
        v6_ptr_views(a6 + b6) == v6_ptr_views(a6) + v6_ptr_views(b6),
{
    assert(v4_ptr_views(a4 + b4) =~= v4_ptr_views(a4) + v4_ptr_views(b4));
    assert(v6_ptr_views(a6 + b6) =~= v6_ptr_views(a6) + v6_ptr_views(b6));
}

fn copy_u32s(v: &Vec<u32>) -> (r: Vec<u32>)
    ensures
        r@ == v@,
{
    let mut out: Vec<u32> = Vec::new();
    let mut i: usize = 0;
    while i < v.len()
        invariant
            i <= v@.len(),
            out@ == v@.take(i as int),
        decreases v@.len() - i,
    {
        out.push(v[i]);
        i = i + 1;
        assert(out@ =~= v@.take(i as int));
    }
    assert(v@.take(v@.len() as int) =~= v@);
    out
}

fn copy_u128s(v: &Vec<u128>) -> (r: Vec<u128>)
    ensures
        r@ == v@,
{
    let mut out: Vec<u128> = Vec::new();
    let mut i: usize = 0;
    while i < v.len()
        invariant
            i <= v@.len(),
            out@ == v@.take(i as int),
        decreases v@.len() - i,
    {
        out.push(v[i]);
        i = i + 1;
        assert(out@ =~= v@.take(i as int));
    }
    assert(v@.take(v@.len() as int) =~= v@);
    out
}

/// The warnings of the DNS plan.
fn dns_plan_warnings(b: &ConfigBundle, host: &str) -> (r: Vec<String>)
    requires
        b.wf(),
        host@ == dns_host_of(b),
    ensures
        texts(r@) == dns_warnings(b),
{
    let ghost nets = b.networks.networks@;
    let mut out: Vec<String> = Vec::new();
    let mut i: usize = 0;
    while i < b.networks.networks.len()
        invariant
            b.wf(),
            nets == b.networks.networks@,
            host@ == dns_host_of(b),
            i <= nets.len(),
            texts(out@) == network_warnings(nets.take(i as int), host@),
        decreases nets.len() - i,
    {
        let entry = &b.networks.networks[i];
        let network = &entry.1;
        assert(nets.take(i + 1).drop_last() =~= nets.take(i as int));
        if network.dns_clients && !reaches_directly(network, host) {
            let cidr = match network.ipv4_cidr {
                Some(c) => ipv4_cidr_text(c),
                None => owned("no IPv4 CIDR"),
            };
            let w = concat("network '", entry.0.as_str());
            let w = concat(w.as_str(), "' (");
            let w = concat(w.as_str(), cidr.as_str());
            let w = concat(w.as_str(), ") is excluded from DNS recursion because it is not directly reachable from DNS host '");
            let w = concat(w.as_str(), host);
            let w = concat(w.as_str(), "'");
            let ghost before = out@;
            out.push(w);
            proof {
                assert(texts(out@) =~= texts(before).push(w@));
                assert(w@ == network_warning(nets[i as int].0@, nets[i as int].1, host@));
            }
        }
        i = i + 1;
    }
    assert(nets.take(nets.len() as int) =~= nets);
    if b.location.ipv6.mode == Ipv6Mode::RouterAdvertised {
        let w = concat("location '", b.location.name.as_str());
        let w = concat(w.as_str(), "' uses router-advertised IPv6; the prefix is accepted for recursion but no durable GUA AAAA records are emitted");
        let ghost before = out@;
        out.push(w);
        assert(texts(out@) =~= texts(before).push(w@));
    } else {
        assert(dns_warnings(b) =~= network_warnings(nets, dns_host_of(b)));
    }
    out
}

/// Resolves the DNS server plan of the active location: the server's
/// addresses, the recursion policy, every configured zone with the records
/// filed in it, the reverse zones of the records that ask for them, and the
/// warnings about what recursion leaves out.
pub fn resolve_dns_plan(b: &ConfigBundle) -> (r: Result<ResolvedDnsPlan, PlanError>)
    requires
        dns_plan_requires(b),
    ensures
        r is Ok <==> dns_plan_ok(b),
        r matches Ok(p) ==> dns_plan_of(b, p),
        r matches Err(err) ==> dns_refusal(b, err),
        lookup(b.services.services@, b.dns.dns.service@) is None ==> (r matches Err(PlanError::DnsServiceMissing { service }) && service@ == b.dns.dns.service@),
        lookup(b.services.services@, b.dns.dns.service@) matches Some(s) ==> (!(s.address matches Some(a) && a.ipv4 is Some) ==> (r matches Err(PlanError::DnsServiceNoIpv4 { service }) && service@ == b.dns.dns.service@)),
{
    let si = match find(&b.services.services, b.dns.dns.service.as_str()) {
        Some(si) => si,
        None => {
            return Err(PlanError::DnsServiceMissing { service: owned(b.dns.dns.service.as_str()) });
        },
    };
    let svc = &b.services.services[si].1;
    let container_ipv4 = match &svc.address {
        Some(a) => match a.ipv4 {
            Some(x) => x,
            None => {
                return Err(PlanError::DnsServiceNoIpv4 { service: owned(b.dns.dns.service.as_str()) });
            },
        },
        None => {
            return Err(PlanError::DnsServiceNoIpv4 { service: owned(b.dns.dns.service.as_str()) });
        },
    };
    let ingress_ipv4 = match resolve_service_ingress_ipv4(b, svc) {
        Ok(a) => a,
        Err(e) => {
            return Err(e);
        },
    };
    let access = derive_dns_access(b);
    let ghost cz = configured_zones(b);
    // The configured zone names, ascending, each with its NS record.
    let ghost zc = b.dns.zones@;
    let mut names: Vec<(String, ())> = Vec::new();
    let mut k: usize = 0;
    while k < b.dns.zones.len()
        invariant
            lookup(b.services.services@, b.dns.dns.service@) matches Some(s) && s.address matches Some(a) && a.ipv4 is Some,
            zc == b.dns.zones@,
            k <= zc.len(),
            sorted_keys(names@),
            forall|z: Seq<char>| #[trigger] table_map(names@).dom().contains(z) <==> (exists|m: int| 0 <= m < k && #[trigger] zc[m].name@ == z),
        decreases zc.len() - k,
    {
        insert_sorted(&mut names, owned(b.dns.zones[k].name.as_str()), ());
        proof {
            assert forall|z: Seq<char>| #[trigger] table_map(names@).dom().contains(z) <==> (exists|m: int| 0 <= m < k + 1 && #[trigger] zc[m].name@ == z) by {
                if z == zc[k as int].name@ {
                    assert(zc[k as int].name@ == z);
                }
            }
        }
        k = k + 1;
    }
    proof {
        lemma_sorted_unique(names@);
    }
    let ns_target = fqdn(b.dns.dns.soa.primary_nameserver.as_str());
    let mut zones: Vec<ResolvedZone> = Vec::new();
    let mut j: usize = 0;
    while j < names.len()
        invariant
            lookup(b.services.services@, b.dns.dns.service@) matches Some(s) && s.address matches Some(a) && a.ipv4 is Some,
            j <= names@.len(),
            ns_target@ == fqdn_of(b.dns.dns.soa.primary_nameserver@),
            zones@.len() == j,
            forall|m: int| 0 <= m < j ==> (#[trigger] zones@[m]).name@ == names@[m].0@,
            forall|m: int| 0 <= m < j ==> record_views((#[trigger] zones@[m]).records@) == seq![ns_record(b, names@[m].0@)],
        decreases names@.len() - j,
    {
        let mut recs: Vec<ResolvedRecord> = Vec::new();
        recs.push(ResolvedRecord::Ns { name: fqdn(names[j].0.as_str()), target: owned(ns_target.as_str()) });
        assert(record_views(recs@) =~= seq![ns_record(b, names@[j as int].0@)]);
        zones.push(ResolvedZone { name: owned(names[j].0.as_str()), records: recs });
        j = j + 1;
    }
    proof {
        assert(zone_name_set(zones@) =~= cz) by {
            assert forall|z: Seq<char>| zone_name_set(zones@).contains(z) <==> cz.contains(z) by {
                if zone_name_set(zones@).contains(z) {
                    let m = choose|m: int| 0 <= m < zones@.len() && (#[trigger] zones@[m]).name@ == z;
                    lemma_table_map_at(names@, m);
                    let w = choose|w: int| 0 <= w < zc.len() && #[trigger] zc[w].name@ == z;
                }
                if cz.contains(z) {
                    let w = choose|w: int| 0 <= w < zc.len() && (#[trigger] zc[w]).name@ == z;
                    assert(table_map(names@).dom().contains(z));
                    let m = key_index(names@, z);
                    assert(zones@[m].name@ == z);
                }
            }
        }
    }

    // Everything to publish, in order.
    let mut em: Vec<(String, ResolvedRecord)> = Vec::new();
    let mut p4: Vec<(u32, String)> = Vec::new();
    let mut p6: Vec<(u128, String)> = Vec::new();
    em.push(a_record(b.dns.dns.soa.primary_nameserver.as_str(), ingress_ipv4));
    let ghost head = seq![a_of(b.dns.dns.soa.primary_nameserver@, ingress_ipv4)];
    assert(emission_views(em@) =~= head);
    match check_filed(&zones, b.dns.dns.soa.primary_nameserver.as_str()) {
        Ok(()) => {},
        Err(e) => {
            proof {
                if dns_emissions(b) is Some {
                    assert((dns_emissions(b)->0).0[0] == head[0]);
                }
            }
            return Err(e);
        },
    }
    assert(all_filed(b, head));
    let ghost recs = b.dns.records@;
    let mut i: usize = 0;
    assert(recs.take(0) =~= Seq::<DnsRecord>::empty());
    while i < b.dns.records.len()
        invariant
            lookup(b.services.services@, b.dns.dns.service@) matches Some(s) && s.address matches Some(a) && a.ipv4 is Some,
            dns_plan_requires(b),
            ingress_ipv4_of(b, dns_service_of(b)->0) is Some,
            recs == b.dns.records@,
            i <= recs.len(),
            records_emit(b, recs.take(i as int)) matches Some(t) && emission_views(em@) == head + t.0
                && v4_ptr_views(p4@) == t.1 && v6_ptr_views(p6@) == t.2,
            zone_name_set(zones@) == configured_zones(b),
            filed(b, b.dns.dns.soa.primary_nameserver@),
            head == seq![a_of(b.dns.dns.soa.primary_nameserver@, ingress_ipv4)],
            all_filed(b, emission_views(em@)),
            forall|j: int| 0 <= j < i ==> !record_fails(b, #[trigger] recs[j]),
        decreases recs.len() - i,
    {
        proof {
            assert(dns_head_ok(b));
            assert(record_targets_present(b, recs[i as int]));
        }
        let mut t = match record_emissions(b, &zones, i) {
            Ok(t) => t,
            Err(e) => {
                proof {
                    assert(recs.take(i + 1).drop_last() =~= recs.take(i as int));
                    assert(first_record_failure(b, recs, i as int));
                    lemma_record_failure_refuses(b, i as int);
                }
                return Err(e);
            },
        };
        let ghost prev = records_emit(b, recs.take(i as int))->0;
        let ghost tv = emissions_view(t);
        let ghost (e0, q4, q6) = (em@, p4@, p6@);
        em.append(&mut t.0);
        p4.append(&mut t.1);
        p6.append(&mut t.2);
        proof {
            assert(recs.take(i + 1).drop_last() =~= recs.take(i as int));
            assert(recs.take(i + 1).last() == recs[i as int]);
            lemma_views_append(e0, t.0@);
            lemma_ptr_views_append(q4, t.1@, q6, t.2@);
            assert(head + prev.0 + tv.0 =~= head + (prev.0 + tv.0));
            assert(!record_fails(b, recs[i as int]));
            assert(all_filed(b, emission_views(em@))) by {
                let ev = emission_views(em@);
                assert forall|k: int| 0 <= k < ev.len() implies best_zone(configured_zones(b), (#[trigger] ev[k]).0) is Some by {
                    if k < e0.len() {
                        assert(ev[k] == emission_views(e0)[k]);
                    } else {
                        assert(ev[k] == tv.0[k - e0.len()]);
                    }
                }
            }
        }
        i = i + 1;
    }
    assert(recs.take(recs.len() as int) =~= recs);
    let ghost rec_part = records_emit(b, recs)->0;
    let ghost mid = emission_views(em@);
    let ghost svcs = b.services.services@;
    let mut i: usize = 0;
    assert(svcs.take(0) =~= Seq::<(String, Service)>::empty());
    while i < b.services.services.len()
        invariant
            lookup(b.services.services@, b.dns.dns.service@) matches Some(s) && s.address matches Some(a) && a.ipv4 is Some,
            dns_plan_requires(b),
            ingress_ipv4_of(b, dns_service_of(b)->0) is Some,
            records_emit(b, b.dns.records@) is Some,
            svcs == b.services.services@,
            i <= svcs.len(),
            web_emit(b, svcs.take(i as int)) matches Some(w) && emission_views(em@) == mid + w,
            v4_ptr_views(p4@) == rec_part.1,
            v6_ptr_views(p6@) == rec_part.2,
            zone_name_set(zones@) == configured_zones(b),
            filed(b, b.dns.dns.soa.primary_nameserver@),
            forall|j: int| 0 <= j < b.dns.records@.len() ==> !record_fails(b, #[trigger] b.dns.records@[j]),
            all_filed(b, emission_views(em@)),
            forall|j: int| 0 <= j < i ==> !web_fails(b, (#[trigger] svcs[j]).1),
        decreases svcs.len() - i,
    {
        let s = &b.services.services[i].1;
        assert(svcs.take(i + 1).drop_last() =~= svcs.take(i as int));
        let proxied = match &s.web {
            Some(w) => str_eq(w.access.as_str(), "reverse-proxy"),
            None => false,
        };
        if proxied {
            let w = match &s.web { Some(w) => w, None => { return Err(PlanError::ServiceNoIngress { host: owned(s.host.as_str()) }); } };
            proof {
                assert(dns_head_ok(b));
                assert(proxied_web(svcs[i as int].1));
            }
            let pi = match find(&b.services.services, w.proxy.as_str()) {
                Some(pi) => pi,
                None => {
                    return Err(PlanError::ServiceNoIngress { host: owned(s.host.as_str()) });
                },
            };
            let a = match resolve_service_ingress_ipv4(b, &b.services.services[pi].1) {
                Ok(a) => a,
                Err(e) => {
                    proof {
                        lemma_web_emit_none(b, svcs, i as int);
                        assert(first_web_failure(b, svcs, i as int));
                        lemma_no_record_failure(b);
                    }
                    return Err(e);
                },
            };
            match check_filed(&zones, w.domain.as_str()) {
                Ok(()) => {},
                Err(e) => {
                    proof {
                        assert(first_web_failure(b, svcs, i as int));
                        lemma_no_record_failure(b);
                        lemma_web_failure_refuses(b, i as int);
                    }
                    return Err(e);
                },
            }
            let ghost before = emission_views(em@);
            em.push(a_record(w.domain.as_str(), a));
            assert(emission_views(em@) =~= before.push(a_of(w.domain@, a)));
            assert(all_filed(b, emission_views(em@))) by {
                let ev = emission_views(em@);
                assert forall|k: int| 0 <= k < ev.len() implies best_zone(configured_zones(b), (#[trigger] ev[k]).0) is Some by {
                    if k < before.len() {
                        assert(ev[k] == before[k]);
                    }
                }
            }
        }
        assert(!web_fails(b, svcs[i as int].1));
        i = i + 1;
    }
    assert(svcs.take(svcs.len() as int) =~= svcs);
    let ghost pubs = emission_views(em@);
    assert(dns_emissions(b) == Some((pubs, v4_ptr_views(p4@), v6_ptr_views(p6@))));

    proof {
        assert forall|m: int, v: RecordView| 0 <= m < zones@.len() implies (#[trigger] record_views(zones@[m].records@).contains(v) <==> (v == ns_record(b, zones@[m].name@) || exists|q: int| em@.len() <= q < pubs.len() && best_zone(cz, (#[trigger] pubs[q]).0) == Some(zones@[m].name@) && pubs[q].1 == v)) by {
            if v == ns_record(b, zones@[m].name@) {
                assert(record_views(zones@[m].records@)[0] == v);
            }
        }
    }

    // File every published record in its zone.
    while em.len() > 0
        invariant
            lookup(b.services.services@, b.dns.dns.service@) matches Some(s) && s.address matches Some(a) && a.ipv4 is Some,
            em@.len() <= pubs.len(),
            cz == configured_zones(b),
            dns_emissions(b) matches Some(t) && t.0 == pubs,
            emission_views(em@) == pubs.take(em@.len() as int),
            zones@.len() == names@.len(),
            unique_keys(names@),
            forall|m: int| 0 <= m < zones@.len() ==> (#[trigger] zones@[m]).name@ == names@[m].0@,
            zone_name_set(zones@) == cz,
            forall|m: int| 0 <= m < zones@.len() ==> records_ascend(record_views((#[trigger] zones@[m]).records@)),
            forall|m: int, v: RecordView| 0 <= m < zones@.len() ==> (#[trigger] record_views(zones@[m].records@).contains(v) <==> (v == ns_record(b, zones@[m].name@) || exists|q: int| em@.len() <= q < pubs.len() && best_zone(cz, (#[trigger] pubs[q]).0) == Some(zones@[m].name@) && pubs[q].1 == v)),
            all_filed(b, pubs),
        decreases em@.len(),
    {
        let ghost q = em@.len() - 1;
        let ghost before = zones@;
        assert(pubs.take(em@.len() as int)[q] == pubs[q]);
        let e = match em.pop() {
            Some(e) => e,
            None => {
                return Err(PlanError::RecordOutsideZones { record: owned(b.dns.dns.service.as_str()) });
            },
        };
        assert(emission_views(em@) =~= pubs.take(em@.len() as int));
        assert((e.0@, e.1@) == pubs[q]);
        let idx = match matching_zone(&zones, e.0.as_str()) {
            Some(idx) => idx,
            None => {
                assert(best_zone(configured_zones(b), pubs[q].0) is Some);
                assert(false);
                return Err(PlanError::RecordOutsideZones { record: e.0 });
            },
        };
        let ghost ev = e.1@;
        insert_record(&mut zones[idx].records, e.1);
        proof {
            assert(forall|m: int| 0 <= m < zones@.len() && m != idx ==> zones@[m] == before[m]);
            assert(zones@[idx as int].name@ == before[idx as int].name@);
            assert(zone_name_set(zones@) =~= zone_name_set(before));
            assert forall|m: int, v: RecordView| 0 <= m < zones@.len() implies (#[trigger] record_views(zones@[m].records@).contains(v) <==> (v == ns_record(b, zones@[m].name@) || exists|q2: int| em@.len() <= q2 < pubs.len() && best_zone(cz, (#[trigger] pubs[q2]).0) == Some(zones@[m].name@) && pubs[q2].1 == v)) by {
                if m == idx {
                    if v == ev {
                        assert(best_zone(cz, pubs[q].0) == Some(zones@[m].name@));
                    }
                    if exists|q2: int| em@.len() <= q2 < pubs.len() && best_zone(cz, (#[trigger] pubs[q2]).0) == Some(zones@[m].name@) && pubs[q2].1 == v {
                        let q2 = choose|q2: int| em@.len() <= q2 < pubs.len() && best_zone(cz, (#[trigger] pubs[q2]).0) == Some(zones@[m].name@) && pubs[q2].1 == v;
                        if q2 > q {
                            assert(old_exists_at(pubs, cz, q2, zones@[m].name@, v));
                        }
                    }
                } else {
                    if exists|q2: int| em@.len() <= q2 < pubs.len() && best_zone(cz, (#[trigger] pubs[q2]).0) == Some(zones@[m].name@) && pubs[q2].1 == v {
                        let q2 = choose|q2: int| em@.len() <= q2 < pubs.len() && best_zone(cz, (#[trigger] pubs[q2]).0) == Some(zones@[m].name@) && pubs[q2].1 == v;
                        if q2 == q {
                            assert(names@[m].0@ != names@[idx as int].0@);
                        }
                    }
                }
            }
        }
    }
    let reverse_zones = build_reverse_zones(p4, p6);
    let warnings = dns_plan_warnings(b, svc.host.as_str());
    let plan = ResolvedDnsPlan {
        location: owned(b.location.name.as_str()),
        provider: owned(b.dns.dns.provider.as_str()),
        service: owned(b.dns.dns.service.as_str()),
        default_ttl: b.dns.dns.default_ttl,
        negative_ttl: b.dns.dns.negative_ttl,
        soa_primary_nameserver: fqdn(b.dns.dns.soa.primary_nameserver.as_str()),
        soa_responsible_mailbox: fqdn(b.dns.dns.soa.responsible_mailbox.as_str()),
        soa_refresh: b.dns.dns.soa.refresh,
        soa_retry: b.dns.dns.soa.retry,
        soa_expire: b.dns.dns.soa.expire,
        forwarders_ipv4: copy_u32s(&b.dns.dns.forwarders.ipv4),
        forwarders_ipv6: copy_u128s(&b.dns.dns.forwarders.ipv6),
        container_ipv4,
        ingress_ipv4,
        access,
        zones,
        reverse_zones,
        warnings,
    };
    proof {
        assert(zones_of(b, plan.zones@, pubs)) by {
            assert forall|a: int, c: int| 0 <= a < c < plan.zones@.len() implies text_lt(#[trigger] plan.zones@[a].name@, #[trigger] plan.zones@[c].name@) by {
                assert(sorted_keys(names@));
                assert(text_lt(names@[a].0@, names@[c].0@));
            }
            assert forall|z: Seq<char>| #[trigger] zone_listed(plan.zones@, z) <==> cz.contains(z) by {
                assert(zone_name_set(plan.zones@).contains(z) == cz.contains(z));
            }
        }
    }
    Ok(plan)
}

/// No configured record is refused once every one of them was published.
proof fn lemma_no_record_failure(b: &ConfigBundle)
    requires
        forall|j: int| 0 <= j < b.dns.records@.len() ==> !record_fails(b, #[trigger] b.dns.records@[j]),
    ensures
        !(exists|k: int| #[trigger] first_record_failure(b, b.dns.records@, k)),
{
    if exists|k: int| #[trigger] first_record_failure(b, b.dns.records@, k) {
        let k = choose|k: int| #[trigger] first_record_failure(b, b.dns.records@, k);
        assert(!record_fails(b, b.dns.records@[k]));
    }
}

/// Each record of a list that publishes only filed names publishes, and
/// only filed names.
proof fn lemma_records_emit_filed(b: &ConfigBundle, rs: Seq<DnsRecord>, i: int)
    requires
        0 <= i < rs.len(),
        records_emit(b, rs) is Some,
        all_filed(b, (records_emit(b, rs)->0).0),
    ensures
        !record_fails(b, rs[i]),
    decreases rs.len(),
{
    let p = records_emit(b, rs.drop_last())->0;
    let y = record_emits(b, rs.last())->0;
    let x = records_emit(b, rs)->0;
    assert(x.0 == p.0 + y.0);
    if i == rs.len() - 1 {
        assert forall|k: int| 0 <= k < y.0.len() implies best_zone(configured_zones(b), (#[trigger] y.0[k]).0) is Some by {
            assert(x.0[p.0.len() + k] == y.0[k]);
        }
    } else {
        assert forall|k: int| 0 <= k < p.0.len() implies best_zone(configured_zones(b), (#[trigger] p.0[k]).0) is Some by {
            assert(x.0[k] == p.0[k]);
        }
        lemma_records_emit_filed(b, rs.drop_last(), i);
        assert(rs.drop_last()[i] == rs[i]);
    }
}

/// A refused configured record refuses the plan.
proof fn lemma_record_failure_refuses(b: &ConfigBundle, i: int)
    requires
        0 <= i < b.dns.records@.len(),
        record_fails(b, b.dns.records@[i]),
    ensures
        !dns_plan_ok(b),
{
    if dns_plan_ok(b) {
        let t = dns_emissions(b)->0;
        let svc = dns_service_of(b)->0;
        let ing = ingress_ipv4_of(b, svc)->0;
        let recs = records_emit(b, b.dns.records@)->0;
        let web = web_emit(b, b.services.services@)->0;
        assert(t.0 == seq![a_of(b.dns.dns.soa.primary_nameserver@, ing)] + recs.0 + web);
        assert forall|k: int| 0 <= k < recs.0.len() implies best_zone(configured_zones(b), (#[trigger] recs.0[k]).0) is Some by {
            assert(t.0[1 + k] == recs.0[k]);
        }
        lemma_records_emit_filed(b, b.dns.records@, i);
    }
}

/// Every proxied web service of a list that publishes only filed names has
/// an ingress address for its proxy and a filed domain.
proof fn lemma_web_emit_filed(b: &ConfigBundle, ss: Seq<(String, Service)>, i: int)
    requires
        0 <= i < ss.len(),
        web_emit(b, ss) is Some,
        all_filed(b, web_emit(b, ss)->0),
    ensures
        !web_fails(b, ss[i].1),
    decreases ss.len(),
{
    let p = web_emit(b, ss.drop_last())->0;
    let x = web_emit(b, ss)->0;
    let s = ss.last().1;
    if proxied_web(s) {
        assert(x == p.push(a_of(s.web->0.domain@, ingress_ipv4_of(b, lookup(b.services.services@, s.web->0.proxy@)->0)->0)));
    } else {
        assert(x == p);
    }
    if i == ss.len() - 1 {
        if proxied_web(s) {
            assert(x[p.len() as int].0 == s.web->0.domain@);
        }
    } else {
        assert forall|k: int| 0 <= k < p.len() implies best_zone(configured_zones(b), (#[trigger] p[k]).0) is Some by {
            assert(x[k] == p[k]);
        }
        lemma_web_emit_filed(b, ss.drop_last(), i);
        assert(ss.drop_last()[i] == ss[i]);
    }
}

/// A refused proxied web service refuses the plan.
proof fn lemma_web_failure_refuses(b: &ConfigBundle, i: int)
    requires
        0 <= i < b.services.services@.len(),
        web_fails(b, b.services.services@[i].1),
    ensures
        !dns_plan_ok(b),
{
    if dns_plan_ok(b) {
        let t = dns_emissions(b)->0;
        let svc = dns_service_of(b)->0;
        let ing = ingress_ipv4_of(b, svc)->0;
        let recs = records_emit(b, b.dns.records@)->0;
        let web = web_emit(b, b.services.services@)->0;
        let head = seq![a_of(b.dns.dns.soa.primary_nameserver@, ing)];
        assert(t.0 == head + recs.0 + web);
        assert forall|k: int| 0 <= k < web.len() implies best_zone(configured_zones(b), (#[trigger] web[k]).0) is Some by {
            assert(t.0[1 + recs.0.len() + k] == web[k]);
        }
        lemma_web_emit_filed(b, b.services.services@, i);
    }
}

/// Some published record at position `q` is filed in zone `z` as `v`.
spec fn old_exists_at(all: Seq<(Seq<char>, RecordView)>, cz: Set<Seq<char>>, q: int, z: Seq<char>, v: RecordView) -> bool {
    best_zone(cz, all[q].0) == Some(z) && all[q].1 == v
}

proof fn lemma_web_emit_none(b: &ConfigBundle, ss: Seq<(String, Service)>, i: int)
    requires
        0 <= i < ss.len(),
        proxied_web(ss[i].1),
        ingress_ipv4_of(b, lookup(b.services.services@, ss[i].1.web->0.proxy@)->0) is None,
    ensures
        web_emit(b, ss) is None,
{
    lemma_web_emit_prefix_none(b, ss, i, ss.len() as int);
    assert(ss.take(ss.len() as int) =~= ss);
}

proof fn lemma_web_emit_prefix_none(b: &ConfigBundle, ss: Seq<(String, Service)>, i: int, j: int)
    requires
        0 <= i < j <= ss.len(),
        proxied_web(ss[i].1),
        ingress_ipv4_of(b, lookup(b.services.services@, ss[i].1.web->0.proxy@)->0) is None,
    ensures
        web_emit(b, ss.take(j)) is None,
    decreases j,
{
    assert(ss.take(j).drop_last() =~= ss.take(j - 1));
    if j > i + 1 {
        lemma_web_emit_prefix_none(b, ss, i, j - 1);
    }
}

/// The zone records the DNS plan publishes, with the names they are filed
/// under.
pub open spec fn published(b: &ConfigBundle) -> Seq<(Seq<char>, RecordView)> {
    match dns_emissions(b) {
        Some(t) => t.0,
        None => Seq::empty(),
    }
}

/// Qualifying a name twice is qualifying it once, and a qualified name ends
/// with `.`.
pub proof fn law_fqdn_idempotent(v: Seq<char>)
    ensures
        fqdn_of(fqdn_of(v)) == fqdn_of(v),
        fqdn_of(v).len() > 0 && fqdn_of(v).last() == '.',
{
}

/// Every zone of a resolved DNS plan holds its NS record, and every other
/// record in it was published under a name that belongs to the zone.
pub proof fn law_zone_records_belong_to_zone(b: &ConfigBundle, p: ResolvedDnsPlan)
    requires
        dns_plan_ok(b),
        dns_plan_of(b, p),
    ensures
        forall|i: int| 0 <= i < p.zones@.len() ==> record_views((#[trigger] p.zones@[i]).records@).contains(ns_record(b, p.zones@[i].name@)),
        forall|i: int, v: RecordView| 0 <= i < p.zones@.len() && #[trigger] record_views(p.zones@[i].records@).contains(v) ==> v == ns_record(b, p.zones@[i].name@) || exists|k: int| 0 <= k < published(b).len() && zone_matches(p.zones@[i].name@, (#[trigger] published(b)[k]).0) && published(b)[k].1 == v,
{
    let em = published(b);
    let cz = configured_zones(b);
    assert forall|i: int, v: RecordView| 0 <= i < p.zones@.len() && #[trigger] record_views(p.zones@[i].records@).contains(v) implies v == ns_record(b, p.zones@[i].name@) || exists|k: int| 0 <= k < em.len() && zone_matches(p.zones@[i].name@, (#[trigger] em[k]).0) && em[k].1 == v by {
        if v != ns_record(b, p.zones@[i].name@) {
            assert(filed_in(b, em, p.zones@[i].name@, v));
            let k = choose|k: int| 0 <= k < em.len() && best_zone(cz, (#[trigger] em[k]).0) == Some(p.zones@[i].name@) && em[k].1 == v;
            let z = choose|z: Seq<char>| is_best_zone(cz, em[k].0, z);
            assert(zone_matches(p.zones@[i].name@, em[k].0));
        }
    }
}

/// The configured zones, each named and holding no record.
fn zone_list(b: &ConfigBundle) -> (zones: Vec<ResolvedZone>)
    ensures
        zone_name_set(zones@) == configured_zones(b),
{
    let ghost zc = b.dns.zones@;
    let mut zones: Vec<ResolvedZone> = Vec::new();
    let mut k: usize = 0;
    while k < b.dns.zones.len()
        invariant
            zc == b.dns.zones@,
            k <= zc.len(),
            zones@.len() == k,
            forall|m: int| 0 <= m < k ==> (#[trigger] zones@[m]).name@ == zc[m].name@,
        decreases zc.len() - k,
    {
        zones.push(ResolvedZone { name: owned(b.dns.zones[k].name.as_str()), records: Vec::new() });
        k = k + 1;
    }
    assert(zone_name_set(zones@) =~= configured_zones(b)) by {
        assert forall|z: Seq<char>| zone_name_set(zones@).contains(z) <==> configured_zones(b).contains(z) by {
            if zone_name_set(zones@).contains(z) {
                let m = choose|m: int| 0 <= m < zones@.len() && (#[trigger] zones@[m]).name@ == z;
                assert(zc[m].name@ == z);
            }
            if configured_zones(b).contains(z) {
                let m = choose|m: int| 0 <= m < zc.len() && (#[trigger] zc[m]).name@ == z;
                assert(zones@[m].name@ == z);
            }
        }
    }
    zones
}

/// The services and segments that configured record `i` names are present.
fn record_targets_ok(b: &ConfigBundle, i: usize) -> (r: bool)
    requires
        b.wf(),
        i < b.dns.records@.len(),
    ensures
        r == record_targets_present(b, b.dns.records@[i as int]),
{
    let rec = &b.dns.records[i];
    match &rec.target {
        Some(t) => {
            if rec.kind == DnsRecordKind::Service || rec.kind == DnsRecordKind::Proxy {
                contains_key(&b.services.services, t.as_str())
            } else if rec.kind == DnsRecordKind::SegmentGateway {
                contains_key(&b.location.segments, t.as_str())
            } else {
                true
            }
        },
        None => true,
    }
}

/// Whether `resolve_dns_plan` can run on `b`: `b` has its shape, and the
/// resolution, run up to its first refusal, looks up no missing service or
/// segment.
pub fn dns_plan_runs(b: &ConfigBundle) -> (r: bool)
    ensures
        r == dns_plan_requires(b),
{
    if !b.shape_ok() {
        return false;
    }
    let recs_len = b.dns.records.len();
    let ghost recs = b.dns.records@;
    let ghost svcs = b.services.services@;
    let si = match find(&b.services.services, b.dns.dns.service.as_str()) {
        Some(si) => si,
        None => {
            return true;
        },
    };
    let svc = &b.services.services[si].1;
    let has_v4 = match &svc.address {
        Some(a) => match a.ipv4 {
            Some(_) => true,
            None => false,
        },
        None => false,
    };
    if !has_v4 {
        return true;
    }
    match resolve_service_ingress_ipv4(b, svc) {
        Ok(_) => {},
        Err(_) => {
            return true;
        },
    }
    let zones = zone_list(b);
    match check_filed(&zones, b.dns.dns.soa.primary_nameserver.as_str()) {
        Ok(()) => {},
        Err(_) => {
            return true;
        },
    }
    assert(dns_head_ok(b));
    let mut i: usize = 0;
    while i < recs_len
        invariant
            b.wf(),
            dns_head_ok(b),
            recs == b.dns.records@,
            recs_len == recs.len(),
            zone_name_set(zones@) == configured_zones(b),
            i <= recs.len(),
            forall|j: int| 0 <= j < i ==> record_targets_present(b, #[trigger] recs[j]) && !record_fails(b, recs[j]),
        decreases recs.len() - i,
    {
        if !record_targets_ok(b, i) {
            proof {
                assert forall|j: int| 0 <= j < i implies !record_fails(b, #[trigger] recs[j]) by {
                    assert(record_targets_present(b, recs[j]));
                }
            }
            return false;
        }
        match record_emissions(b, &zones, i) {
            Ok(_) => {},
            Err(_) => {
                proof {
                    assert forall|i2: int| 0 <= i2 < recs.len() implies ((forall|j: int| 0 <= j < i2 ==> !record_fails(b, #[trigger] recs[j])) ==> record_targets_present(b, #[trigger] recs[i2])) by {
                        if i2 > i && (forall|j: int| 0 <= j < i2 ==> !record_fails(b, #[trigger] recs[j])) {
                            assert(!record_fails(b, recs[i as int]));
                        }
                    }
                    assert(!(forall|j: int| 0 <= j < recs.len() ==> !record_fails(b, #[trigger] recs[j]))) by {
                        assert(record_fails(b, recs[i as int]));
                    }
                }
                return true;
            },
        }
        i = i + 1;
    }
    let svcs_len = b.services.services.len();
    let mut k: usize = 0;
    while k < svcs_len
        invariant
            b.wf(),
            dns_head_ok(b),
            recs == b.dns.records@,
            svcs == b.services.services@,
            svcs_len == svcs.len(),
            zone_name_set(zones@) == configured_zones(b),
            k <= svcs.len(),
            forall|j: int| 0 <= j < recs.len() ==> record_targets_present(b, #[trigger] recs[j]) && !record_fails(b, recs[j]),
            forall|j: int| 0 <= j < k ==> !web_fails(b, (#[trigger] svcs[j]).1) && (proxied_web(svcs[j].1) ==> has_key(svcs, svcs[j].1.web->0.proxy@)),
        decreases svcs.len() - k,
    {
        let sv = &b.services.services[k].1;
        let proxied = match &sv.web {
            Some(w) => str_eq(w.access.as_str(), "reverse-proxy"),
            None => false,
        };
        if proxied {
            let w = match &sv.web {
                Some(w) => w,
                None => {
                    return true;
                },
            };
            let pi = match find(&b.services.services, w.proxy.as_str()) {
                Some(pi) => pi,
                None => {
                    proof {
                        assert forall|j: int| 0 <= j < recs.len() implies !record_fails(b, #[trigger] recs[j]) by {
                            assert(record_targets_present(b, recs[j]));
                        }
                        assert forall|j: int| 0 <= j < k implies !web_fails(b, (#[trigger] svcs[j]).1) by {
                            assert(!web_fails(b, svcs[j].1));
                        }
                        assert(proxied_web(svcs[k as int].1));
                    }
                    return false;
                },
            };
            let ingress_ok = match resolve_service_ingress_ipv4(b, &b.services.services[pi].1) {
                Ok(_) => true,
                Err(_) => false,
            };
            let filed_ok = match check_filed(&zones, w.domain.as_str()) {
                Ok(()) => true,
                Err(_) => false,
            };
            if !ingress_ok || !filed_ok {
                proof {
                    assert(web_fails(b, svcs[k as int].1));
                    assert forall|k2: int| 0 <= k2 < svcs.len() implies ((forall|j: int| 0 <= j < k2 ==> !web_fails(b, (#[trigger] svcs[j]).1)) ==> (proxied_web((#[trigger] svcs[k2]).1) ==> has_key(svcs, svcs[k2].1.web->0.proxy@))) by {
                        if k2 > k && (forall|j: int| 0 <= j < k2 ==> !web_fails(b, (#[trigger] svcs[j]).1)) {
                            assert(!web_fails(b, svcs[k as int].1));
                        }
                    }
                }
                return true;
            }
        }
        k = k + 1;
    }
    true
}

/// Whether `b` has its shape and every service and segment that its records
/// and proxied web services name exists; `resolve_dns_plan` can then run.
pub fn dns_plan_inputs_ok(b: &ConfigBundle) -> (r: bool)
    ensures
        r == (b.wf() && dns_targets_present(b)),
        r ==> dns_plan_requires(b),
{
    if !b.shape_ok() {
        return false;
    }
    let mut i: usize = 0;
    while i < b.dns.records.len()
        invariant
            b.wf(),
            i <= b.dns.records@.len(),
            forall|k: int| 0 <= k < i ==> {
                let r = #[trigger] b.dns.records@[k];
                &&& (r.kind == DnsRecordKind::Service || r.kind == DnsRecordKind::Proxy) ==> (r.target matches Some(t) ==> has_key(b.services.services@, t@))
                &&& r.kind == DnsRecordKind::SegmentGateway ==> (r.target matches Some(t) ==> has_key(b.location.segments@, t@))
            },
        decreases b.dns.records@.len() - i,
    {
        let r = &b.dns.records[i];
        let ok = match &r.target {
            Some(t) => {
                if r.kind == DnsRecordKind::Service || r.kind == DnsRecordKind::Proxy {
                    contains_key(&b.services.services, t.as_str())
                } else if r.kind == DnsRecordKind::SegmentGateway {
                    contains_key(&b.location.segments, t.as_str())
                } else {
                    true
                }
            },
            None => true,
        };
        if !ok {
            return false;
        }
        i = i + 1;
    }
    let mut i: usize = 0;
    while i < b.services.services.len()
        invariant
            b.wf(),
            i <= b.services.services@.len(),
            forall|k: int| 0 <= k < i ==> (proxied_web(#[trigger] b.services.services@[k].1) ==> has_key(b.services.services@, b.services.services@[k].1.web->0.proxy@)),
        decreases b.services.services@.len() - i,
    {
        let ok = match &b.services.services[i].1.web {
            Some(w) => !str_eq(w.access.as_str(), "reverse-proxy") || contains_key(&b.services.services, w.proxy.as_str()),
            None => true,
        };
        if !ok {
            return false;
        }
        i = i + 1;
    }
    proof {
        lemma_targets_present_meet_requires(b);
    }
    true
}

/// A segment gateway record publishes an A record for the segment's gateway
/// address under its name and, when it asks for a reverse entry, exactly
/// one PTR entry mapping that address back to its fully qualified name
/// (none otherwise).
pub proof fn law_gateway_record_publishes_ptr(b: &ConfigBundle, r: DnsRecord)
    requires
        r.kind == DnsRecordKind::SegmentGateway,
        r.target is Some,
    ensures
        record_emits(b, r) is Some,
        (record_emits(b, r)->0).0 == seq![(r.name@, RecordView::A { name: fqdn_of(r.name@), address: lookup(b.location.segments@, r.target->0@)->0.ipv4_gateway })],
        r.reverse ==> (record_emits(b, r)->0).1 == seq![(lookup(b.location.segments@, r.target->0@)->0.ipv4_gateway, fqdn_of(r.name@))],
        !r.reverse ==> (record_emits(b, r)->0).1.len() == 0,
        (record_emits(b, r)->0).2.len() == 0,
{
}

} // verus!
