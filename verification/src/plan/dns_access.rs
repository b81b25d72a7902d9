//! The networks a DNS server answers recursive queries for.

use vstd::prelude::*;

use crate::model::{ConfigBundle, Ipv6Mode, LogicalNetwork, RoutingMode, Segment};
use crate::net::{ipv4_network, ipv6_network, v4_network, v6_network, Ipv4Cidr, Ipv6Cidr};
use crate::table::{find, flat_map, lemma_flat_map_step, lookup};
use crate::text::str_eq;

verus! {

/// The IPv4 and IPv6 networks allowed to recurse, each in ascending order of
/// network address, then prefix length.
#[derive(Debug)]
pub struct ResolvedDnsAccess {
    pub ipv4: Vec<Ipv4Cidr>,
    pub ipv6: Vec<Ipv6Cidr>,
}

/// `127.0.0.0/8`.
pub open spec fn loopback_v4() -> Ipv4Cidr {
    Ipv4Cidr { addr: 0x7f00_0000, prefix_len: 8 }
}

/// `::1/128`.
pub open spec fn loopback_v6() -> Ipv6Cidr {
    Ipv6Cidr { addr: 1, prefix_len: 128 }
}

/// `100.64.0.0/10`, the Tailscale IPv4 range.
pub open spec fn tailscale_v4() -> Ipv4Cidr {
    Ipv4Cidr { addr: 0x6440_0000, prefix_len: 10 }
}

/// `fd7a:115c:a1e0::/48`, the Tailscale IPv6 range.
pub open spec fn tailscale_v6() -> Ipv6Cidr {
    Ipv6Cidr { addr: 0xfd7a_115c_a1e0_0000_0000_0000_0000_0000, prefix_len: 48 }
}

/// The host that runs the DNS service.
pub open spec fn dns_host_of(b: &ConfigBundle) -> Seq<char> {
    match lookup(b.services.services@, b.dns.dns.service@) {
        Some(s) => s.host@,
        None => Seq::empty(),
    }
}

/// Routed directly from host `host`.
pub open spec fn directly_reachable(n: LogicalNetwork, host: Seq<char>) -> bool {
    n.routing matches Some(r) && r.mode == RoutingMode::Direct && (r.from matches Some(f) && f@
        == host)
}

/// `c` is the IPv4 range of a DNS client segment of the location.
pub open spec fn segment_v4(b: &ConfigBundle, c: Ipv4Cidr) -> bool {
    exists|i: int|
        0 <= i < b.location.segments@.len() && (#[trigger] b.location.segments@[i]).1.dns_clients
            && b.location.segments@[i].1.ipv4_cidr == c
}

/// `c` is the IPv4 range of a DNS client network that the DNS host routes
/// directly.
pub open spec fn network_v4(b: &ConfigBundle, c: Ipv4Cidr) -> bool {
    exists|i: int|
        0 <= i < b.networks.networks@.len() && (#[trigger] b.networks.networks@[i]).1.dns_clients
            && directly_reachable(b.networks.networks@[i].1, dns_host_of(b))
            && b.networks.networks@[i].1.ipv4_cidr == Some(c)
}

/// `c` is one of the IPv4 networks that may recurse: loopback; each DNS
/// client segment of the location; each DNS client network with an IPv4
/// range that the DNS host routes directly; the Tailscale range.
pub open spec fn v4_access_member(b: &ConfigBundle, c: Ipv4Cidr) -> bool {
    let p = b.dns.dns.recursion;
    ||| c == loopback_v4()
    ||| p.include_location_segments && segment_v4(b, c)
    ||| p.include_docker_networks && network_v4(b, c)
    ||| p.include_tailscale && b.location.tailscale.enabled && c == tailscale_v4()
}

/// `c` is one of the IPv6 networks that may recurse: loopback; the
/// location's prefix unless IPv6 is disabled; the Tailscale range; the ULA
/// root.
pub open spec fn v6_access_member(b: &ConfigBundle, c: Ipv6Cidr) -> bool {
    let p = b.dns.dns.recursion;
    ||| c == loopback_v6()
    ||| p.include_location_segments && b.location.ipv6.mode != Ipv6Mode::Disabled
        && b.location.ipv6.prefix == Some(c)
    ||| p.include_tailscale && b.location.tailscale.enabled && c == tailscale_v6()
    ||| p.include_ula && (b.allocations.ula matches Some(u) && u.prefix == c)
}

/// `a` sorts at or before `b`: by network address, then prefix length.
pub open spec fn v4_key_le(a: Ipv4Cidr, b: Ipv4Cidr) -> bool {
    v4_network(a) < v4_network(b) || (v4_network(a) == v4_network(b) && a.prefix_len
        <= b.prefix_len)
}

/// `a` sorts at or before `b`: by network address, then prefix length.
pub open spec fn v6_key_le(a: Ipv6Cidr, b: Ipv6Cidr) -> bool {
    v6_network(a) < v6_network(b) || (v6_network(a) == v6_network(b) && a.prefix_len
        <= b.prefix_len)
}

pub open spec fn sorted_v4(s: Seq<Ipv4Cidr>) -> bool {
    forall|i: int, j: int| 0 <= i < j < s.len() ==> v4_key_le(#[trigger] s[i], #[trigger] s[j])
}

pub open spec fn sorted_v6(s: Seq<Ipv6Cidr>) -> bool {
    forall|i: int, j: int| 0 <= i < j < s.len() ==> v6_key_le(#[trigger] s[i], #[trigger] s[j])
}

/// `a` and `b` sort as equals: the same network address and prefix length.
pub open spec fn same_key_v4(a: Ipv4Cidr, b: Ipv4Cidr) -> bool {
    v4_network(a) == v4_network(b) && a.prefix_len == b.prefix_len
}

/// `a` and `b` sort as equals: the same network address and prefix length.
pub open spec fn same_key_v6(a: Ipv6Cidr, b: Ipv6Cidr) -> bool {
    v6_network(a) == v6_network(b) && a.prefix_len == b.prefix_len
}

/// `r` keeps the order `items` had among networks that sort as equals.
pub open spec fn stable_v4(items: Seq<Ipv4Cidr>, r: Seq<Ipv4Cidr>) -> bool {
    forall|a: int, c: int| 0 <= a < c < r.len() && same_key_v4(#[trigger] r[a], #[trigger] r[c])
        ==> exists|pa: int, pc: int| 0 <= pa < pc < items.len() && items[pa] == r[a] && items[pc] == r[c]
}

/// `r` keeps the order `items` had among networks that sort as equals.
pub open spec fn stable_v6(items: Seq<Ipv6Cidr>, r: Seq<Ipv6Cidr>) -> bool {
    forall|a: int, c: int| 0 <= a < c < r.len() && same_key_v6(#[trigger] r[a], #[trigger] r[c])
        ==> exists|pa: int, pc: int| 0 <= pa < pc < items.len() && items[pa] == r[a] && items[pc] == r[c]
}

/// `a` occurs in `c` before any occurrence of `x`.
pub open spec fn first_before<T>(c: Seq<T>, a: T, x: T) -> bool {
    exists|p: int| 0 <= p < c.len() && c[p] == a && forall|q: int| 0 <= q <= p ==> c[q] != x
}

/// The entries of `v` come in the order of their first occurrence in `c`.
pub open spec fn in_first_order<T>(v: Seq<T>, c: Seq<T>) -> bool {
    forall|i: int, j: int| 0 <= i < j < v.len() ==> first_before(c, #[trigger] v[i], #[trigger] v[j])
}

/// Among networks that sort as equals, `r` keeps the order of their first
/// occurrence in `c`.
pub open spec fn ties_follow_v4(r: Seq<Ipv4Cidr>, c: Seq<Ipv4Cidr>) -> bool {
    forall|a: int, b: int| 0 <= a < b < r.len() && same_key_v4(#[trigger] r[a], #[trigger] r[b]) ==> first_before(c, r[a], r[b])
}

/// Among networks that sort as equals, `r` keeps the order of their first
/// occurrence in `c`.
pub open spec fn ties_follow_v6(r: Seq<Ipv6Cidr>, c: Seq<Ipv6Cidr>) -> bool {
    forall|a: int, b: int| 0 <= a < b < r.len() && same_key_v6(#[trigger] r[a], #[trigger] r[b]) ==> first_before(c, r[a], r[b])
}

/// The IPv4 ranges of the DNS client segments, in segment order.
pub open spec fn segment_candidates(s: Seq<(String, Segment)>) -> Seq<Ipv4Cidr> {
    flat_map(s, |e: (String, Segment)| if e.1.dns_clients { seq![e.1.ipv4_cidr] } else { Seq::<Ipv4Cidr>::empty() })
}

/// The IPv4 ranges of the DNS client networks routed directly from `host`,
/// in network order.
pub open spec fn network_candidates(s: Seq<(String, LogicalNetwork)>, host: Seq<char>) -> Seq<Ipv4Cidr> {
    flat_map(s, |e: (String, LogicalNetwork)| if e.1.dns_clients && directly_reachable(e.1, host) && e.1.ipv4_cidr is Some {
        seq![e.1.ipv4_cidr->0]
    } else {
        Seq::<Ipv4Cidr>::empty()
    })
}

/// The IPv4 networks allowed to recurse, with repeats, in the order they are
/// considered: loopback, segments, networks, Tailscale.
pub open spec fn v4_candidates(b: &ConfigBundle) -> Seq<Ipv4Cidr> {
    let p = b.dns.dns.recursion;
    seq![loopback_v4()]
        + (if p.include_location_segments { segment_candidates(b.location.segments@) } else { Seq::empty() })
        + (if p.include_docker_networks { network_candidates(b.networks.networks@, dns_host_of(b)) } else { Seq::empty() })
        + (if p.include_tailscale && b.location.tailscale.enabled { seq![tailscale_v4()] } else { Seq::empty() })
}

/// The IPv6 networks allowed to recurse, with repeats, in the order they are
/// considered: loopback, the location prefix, Tailscale, the ULA root.
pub open spec fn v6_candidates(b: &ConfigBundle) -> Seq<Ipv6Cidr> {
    let p = b.dns.dns.recursion;
    seq![loopback_v6()]
        + (if p.include_location_segments && b.location.ipv6.mode != Ipv6Mode::Disabled && b.location.ipv6.prefix is Some {
            seq![b.location.ipv6.prefix->0]
        } else {
            Seq::empty()
        })
        + (if p.include_tailscale && b.location.tailscale.enabled { seq![tailscale_v6()] } else { Seq::empty() })
        + (if p.include_ula && b.allocations.ula is Some { seq![b.allocations.ula->0.prefix] } else { Seq::empty() })
}

proof fn lemma_segment_candidates_step(s: Seq<(String, Segment)>, i: int)
    requires
        0 <= i < s.len(),
    ensures
        segment_candidates(s.take(i + 1)) == segment_candidates(s.take(i)) + if s[i].1.dns_clients {
            seq![s[i].1.ipv4_cidr]
        } else {
            Seq::<Ipv4Cidr>::empty()
        },
{
    lemma_flat_map_step(s, |e: (String, Segment)| if e.1.dns_clients { seq![e.1.ipv4_cidr] } else { Seq::<Ipv4Cidr>::empty() }, i);
}

proof fn lemma_network_candidates_step(s: Seq<(String, LogicalNetwork)>, host: Seq<char>, i: int)
    requires
        0 <= i < s.len(),
    ensures
        network_candidates(s.take(i + 1), host) == network_candidates(s.take(i), host) + if s[i].1.dns_clients
            && directly_reachable(s[i].1, host) && s[i].1.ipv4_cidr is Some {
            seq![s[i].1.ipv4_cidr->0]
        } else {
            Seq::<Ipv4Cidr>::empty()
        },
{
    lemma_flat_map_step(s, |e: (String, LogicalNetwork)| if e.1.dns_clients && directly_reachable(e.1, host) && e.1.ipv4_cidr is Some {
        seq![e.1.ipv4_cidr->0]
    } else {
        Seq::<Ipv4Cidr>::empty()
    }, i);
}

/// Adding `x` to a list with the members of `c`, unless it is there, gives
/// a list with the members of `c` and `x`.
proof fn lemma_same_members_push<T>(v: Seq<T>, w: Seq<T>, c: Seq<T>, x: T)
    requires
        forall|y: T| #[trigger] v.contains(y) <==> c.contains(y),
        w == if v.contains(x) { v } else { v.push(x) },
    ensures
        forall|y: T| #[trigger] w.contains(y) <==> c.push(x).contains(y),
{
    let c2 = c.push(x);
    assert forall|y: T| #[trigger] w.contains(y) <==> c2.contains(y) by {
        if w.contains(y) {
            let k = choose|k: int| 0 <= k < w.len() && w[k] == y;
            if k < v.len() {
                if !v.contains(x) {
                    assert(w[k] == v[k]);
                }
                assert(v[k] == y);
                assert(v.contains(y));
                let m = choose|m: int| 0 <= m < c.len() && c[m] == y;
                assert(c2[m] == y);
            } else {
                assert(c2[c.len() as int] == y);
            }
        }
        if c2.contains(y) {
            let k = choose|k: int| 0 <= k < c2.len() && c2[k] == y;
            if k < c.len() {
                assert(c[k] == y);
                assert(c.contains(y));
                assert(v.contains(y));
                let m = choose|m: int| 0 <= m < v.len() && v[m] == y;
                if !v.contains(x) {
                    assert(w[m] == v[m]);
                }
                assert(w.contains(y));
            } else if v.contains(x) {
                assert(y == x);
            } else {
                assert(w[v.len() as int] == y);
            }
        }
    }
}

/// A stable sort of networks in first-occurrence order keeps that order
/// among networks that sort as equals.
proof fn lemma_ties_follow_v4(items: Seq<Ipv4Cidr>, r: Seq<Ipv4Cidr>, c: Seq<Ipv4Cidr>)
    requires
        stable_v4(items, r),
        in_first_order(items, c),
    ensures
        ties_follow_v4(r, c),
{
    assert forall|a: int, b: int| 0 <= a < b < r.len() && same_key_v4(#[trigger] r[a], #[trigger] r[b]) implies first_before(c, r[a], r[b]) by {
        let (pa, pc) = choose|pa: int, pc: int| 0 <= pa < pc < items.len() && items[pa] == r[a] && items[pc] == r[b];
        assert(first_before(c, items[pa], items[pc]));
    }
}

/// A stable sort of networks in first-occurrence order keeps that order
/// among networks that sort as equals.
proof fn lemma_ties_follow_v6(items: Seq<Ipv6Cidr>, r: Seq<Ipv6Cidr>, c: Seq<Ipv6Cidr>)
    requires
        stable_v6(items, r),
        in_first_order(items, c),
    ensures
        ties_follow_v6(r, c),
{
    assert forall|a: int, b: int| 0 <= a < b < r.len() && same_key_v6(#[trigger] r[a], #[trigger] r[b]) implies first_before(c, r[a], r[b]) by {
        let (pa, pc) = choose|pa: int, pc: int| 0 <= pa < pc < items.len() && items[pa] == r[a] && items[pc] == r[b];
        assert(first_before(c, items[pa], items[pc]));
    }
}

/// Considering one more candidate keeps the order of first occurrences.
proof fn lemma_first_order_push<T>(v: Seq<T>, c: Seq<T>, x: T)
    requires
        in_first_order(v, c),
        forall|y: T| #[trigger] v.contains(y) <==> c.contains(y),
    ensures
        in_first_order(v, c.push(x)),
        !v.contains(x) ==> in_first_order(v.push(x), c.push(x)),
{
    let c2 = c.push(x);
    assert forall|i: int, j: int| 0 <= i < j < v.len() implies first_before(c2, #[trigger] v[i], #[trigger] v[j]) by {
        let p = choose|p: int| 0 <= p < c.len() && c[p] == v[i] && forall|q: int| 0 <= q <= p ==> c[q] != v[j];
        assert(c2[p] == v[i]);
        assert forall|q: int| 0 <= q <= p implies c2[q] != v[j] by {
            assert(c2[q] == c[q]);
        }
    }
    if !v.contains(x) {
        let v2 = v.push(x);
        assert forall|i: int, j: int| 0 <= i < j < v2.len() implies first_before(c2, #[trigger] v2[i], #[trigger] v2[j]) by {
            if j < v.len() {
                assert(v2[i] == v[i] && v2[j] == v[j]);
            } else {
                assert(v.contains(v[i]));
                let p = choose|p: int| 0 <= p < c.len() && c[p] == v[i];
                assert(c2[p] == v2[i]);
                assert forall|q: int| 0 <= q <= p implies c2[q] != v2[j] by {
                    assert(c2[q] == c[q]);
                    assert(c.contains(c[q]));
                }
            }
        }
    }
}

/// What `derive_dns_access` needs of a bundle: its shape, and the DNS
/// service when networks are consulted.
pub open spec fn dns_access_requires(b: &ConfigBundle) -> bool {
    &&& b.wf()
    &&& (b.dns.dns.recursion.enabled && b.dns.dns.recursion.include_docker_networks
        ==> lookup(b.services.services@, b.dns.dns.service@) is Some)
}

/// `a` is the recursion access of `b`: nothing when recursion is disabled;
/// otherwise exactly the allowed networks, each once, in ascending order.
pub open spec fn access_of(b: &ConfigBundle, a: ResolvedDnsAccess) -> bool {
    &&& !b.dns.dns.recursion.enabled ==> a.ipv4@.len() == 0 && a.ipv6@.len() == 0
    &&& b.dns.dns.recursion.enabled ==> {
        &&& forall|c: Ipv4Cidr| #[trigger] a.ipv4@.contains(c) <==> v4_access_member(b, c)
        &&& forall|c: Ipv6Cidr| #[trigger] a.ipv6@.contains(c) <==> v6_access_member(b, c)
        &&& a.ipv4@.no_duplicates()
        &&& a.ipv6@.no_duplicates()
        &&& sorted_v4(a.ipv4@)
        &&& sorted_v6(a.ipv6@)
        &&& ties_follow_v4(a.ipv4@, v4_candidates(b))
        &&& ties_follow_v6(a.ipv6@, v6_candidates(b))
    }
}

fn push_unique_v4(items: &mut Vec<Ipv4Cidr>, item: Ipv4Cidr)
    requires
        old(items)@.no_duplicates(),
    ensures
        final(items)@.no_duplicates(),
        final(items)@ == if old(items)@.contains(item) { old(items)@ } else { old(items)@.push(item) },
        forall|c: Ipv4Cidr| #[trigger]
            final(items)@.contains(c) <==> (old(items)@.contains(c) || c == item),
{
    let mut i: usize = 0;
    while i < items.len()
        invariant
            i <= items@.len(),
            items@.no_duplicates(),
            forall|j: int| 0 <= j < i ==> items@[j] != item,
        decreases items@.len() - i,
    {
        if items[i].addr == item.addr && items[i].prefix_len == item.prefix_len {
            proof {
                assert(items@[i as int] == item);
            }
            return;
        }
        i = i + 1;
    }
    proof {
        assert(!old(items)@.contains(item)) by {
            if old(items)@.contains(item) {
                let k = choose|k: int| 0 <= k < old(items)@.len() && old(items)@[k] == item;
            }
        }
    }
    items.push(item);
    proof {
        assert forall|c: Ipv4Cidr| #[trigger] items@.contains(c) <==> (old(items)@.contains(c)
            || c == item) by {
            if items@.contains(c) {
                let k = items@.index_of(c);
                if k < old(items)@.len() {
                    assert(old(items)@[k] == c);
                }
            }
            if old(items)@.contains(c) {
                let k = old(items)@.index_of(c);
                assert(items@[k] == c);
            }
            if c == item {
                assert(items@[items@.len() - 1] == c);
            }
        }
    }
}

fn push_unique_v6(items: &mut Vec<Ipv6Cidr>, item: Ipv6Cidr)
    requires
        old(items)@.no_duplicates(),
    ensures
        final(items)@.no_duplicates(),
        final(items)@ == if old(items)@.contains(item) { old(items)@ } else { old(items)@.push(item) },
        forall|c: Ipv6Cidr| #[trigger]
            final(items)@.contains(c) <==> (old(items)@.contains(c) || c == item),
{
    let mut i: usize = 0;
    while i < items.len()
        invariant
            i <= items@.len(),
            items@.no_duplicates(),
            forall|j: int| 0 <= j < i ==> items@[j] != item,
        decreases items@.len() - i,
    {
        if items[i].addr == item.addr && items[i].prefix_len == item.prefix_len {
            proof {
                assert(items@[i as int] == item);
            }
            return;
        }
        i = i + 1;
    }
    proof {
        assert(!old(items)@.contains(item)) by {
            if old(items)@.contains(item) {
                let k = choose|k: int| 0 <= k < old(items)@.len() && old(items)@[k] == item;
            }
        }
    }
    items.push(item);
    proof {
        assert forall|c: Ipv6Cidr| #[trigger] items@.contains(c) <==> (old(items)@.contains(c)
            || c == item) by {
            if items@.contains(c) {
                let k = items@.index_of(c);
                if k < old(items)@.len() {
                    assert(old(items)@[k] == c);
                }
            }
            if old(items)@.contains(c) {
                let k = old(items)@.index_of(c);
                assert(items@[k] == c);
            }
            if c == item {
                assert(items@[items@.len() - 1] == c);
            }
        }
    }
}

/// The same networks in ascending order of network address, then prefix
/// length; networks with equal keys keep their order.
fn sort_v4(items: Vec<Ipv4Cidr>) -> (r: Vec<Ipv4Cidr>)
    requires
        items@.no_duplicates(),
        forall|i: int| 0 <= i < items@.len() ==> (#[trigger] items@[i]).wf(),
    ensures
        r@.no_duplicates(),
        forall|c: Ipv4Cidr| #[trigger] r@.contains(c) <==> items@.contains(c),
        sorted_v4(r@),
        stable_v4(items@, r@),
{
    let mut out: Vec<Ipv4Cidr> = Vec::new();
    let mut k: usize = 0;
    while k < items.len()
        invariant
            k <= items@.len(),
            items@.no_duplicates(),
            forall|i: int| 0 <= i < items@.len() ==> (#[trigger] items@[i]).wf(),
            out@.no_duplicates(),
            forall|c: Ipv4Cidr| #[trigger]
                out@.contains(c) <==> exists|m: int| 0 <= m < k && items@[m] == c,
            forall|i: int| 0 <= i < out@.len() ==> (#[trigger] out@[i]).wf(),
            sorted_v4(out@),
            stable_v4(items@.take(k as int), out@),
        decreases items@.len() - k,
    {
        let x = items[k];
        let nx = ipv4_network(x);
        let mut j: usize = 0;
        while j < out.len()
            invariant
                j <= out@.len(),
                nx == v4_network(x),
                forall|i: int| 0 <= i < out@.len() ==> (#[trigger] out@[i]).wf(),
                forall|a: int| 0 <= a < j ==> v4_key_le(#[trigger] out@[a], x),
            ensures
                j <= out@.len(),
                forall|a: int| 0 <= a < j ==> v4_key_le(#[trigger] out@[a], x),
                j < out@.len() ==> !v4_key_le(out@[j as int], x),
            decreases out@.len() - j,
        {
            let no = ipv4_network(out[j]);
            if !(no < nx || (no == nx && out[j].prefix_len <= x.prefix_len)) {
                break;
            }
            j = j + 1;
        }
        proof {
            assert(!out@.contains(x)) by {
                if out@.contains(x) {
                    let m = choose|m: int| 0 <= m < k && items@[m] == x;
                    assert(items@[m] == items@[k as int]);
                }
            }
            if j < out@.len() {
                assert(!v4_key_le(out@[j as int], x));
            }
        }
        let ghost before = out@;
        out.insert(j, x);
        proof {
            let n = out@;
            assert(forall|a: int| 0 <= a < j ==> n[a] == before[a]);
            assert(forall|a: int| j < a < n.len() ==> n[a] == before[a - 1]);
            assert(sorted_v4(n)) by {
                assert forall|a: int, b: int| 0 <= a < b < n.len() implies v4_key_le(
                    #[trigger] n[a],
                    #[trigger] n[b],
                ) by {
                    if b < j {
                        assert(v4_key_le(before[a], before[b]));
                    } else if b == j {
                        assert(v4_key_le(before[a], x));
                    } else if a == j {
                        assert(v4_key_le(before[j as int], before[b - 1]) || b - 1 == j);
                    } else if a < j {
                        assert(v4_key_le(before[a], before[b - 1]));
                    } else {
                        assert(v4_key_le(before[a - 1], before[b - 1]));
                    }
                }
            }
            assert forall|c: Ipv4Cidr| #[trigger] n.contains(c) <==> exists|m: int|
                0 <= m < k + 1 && items@[m] == c by {
                if n.contains(c) {
                    let p = n.index_of(c);
                    if p < j {
                        assert(before[p] == c);
                        assert(before.contains(c));
                    } else if p > j {
                        assert(before[p - 1] == c);
                        assert(before.contains(c));
                    } else {
                        assert(items@[k as int] == c);
                    }
                }
                if exists|m: int| 0 <= m < k + 1 && items@[m] == c {
                    let m = choose|m: int| 0 <= m < k + 1 && items@[m] == c;
                    if m < k {
                        assert(before.contains(c));
                        let p = before.index_of(c);
                        if p < j {
                            assert(n[p] == c);
                        } else {
                            assert(n[p + 1] == c);
                        }
                    } else {
                        assert(n[j as int] == c);
                    }
                }
            }
            assert(stable_v4(items@.take(k + 1), n)) by {
                let t = items@.take(k + 1);
                assert forall|a: int, c: int| 0 <= a < c < n.len() && same_key_v4(#[trigger] n[a], #[trigger] n[c]) implies exists|pa: int, pc: int| 0 <= pa < pc < t.len() && t[pa] == n[a] && t[pc] == n[c] by {
                    if c < j {
                        assert(same_key_v4(before[a], before[c]));
                        let (pa, pc) = choose|pa: int, pc: int| 0 <= pa < pc < k && items@.take(k as int)[pa] == before[a] && items@.take(k as int)[pc] == before[c];
                        assert(t[pa] == n[a] && t[pc] == n[c]);
                    } else if c == j {
                        assert(before.contains(before[a]));
                        let m = choose|m: int| 0 <= m < k && items@[m] == before[a];
                        assert(t[m] == n[a] && t[k as int] == n[c]);
                    } else if a == j {
                        assert(!v4_key_le(before[j as int], x));
                        assert(v4_key_le(before[j as int], before[c - 1]) || c - 1 == j);
                    } else if a < j {
                        assert(same_key_v4(before[a], before[c - 1]));
                        let (pa, pc) = choose|pa: int, pc: int| 0 <= pa < pc < k && items@.take(k as int)[pa] == before[a] && items@.take(k as int)[pc] == before[c - 1];
                        assert(t[pa] == n[a] && t[pc] == n[c]);
                    } else {
                        assert(same_key_v4(before[a - 1], before[c - 1]));
                        let (pa, pc) = choose|pa: int, pc: int| 0 <= pa < pc < k && items@.take(k as int)[pa] == before[a - 1] && items@.take(k as int)[pc] == before[c - 1];
                        assert(t[pa] == n[a] && t[pc] == n[c]);
                    }
                }
            }
            assert(n.no_duplicates()) by {
                assert forall|a: int, b: int| 0 <= a < n.len() && 0 <= b < n.len() && a != b
                    implies n[a] != n[b] by {
                    if a != j && b != j {
                        let pa = if a < j { a } else { a - 1 };
                        let pb = if b < j { b } else { b - 1 };
                        assert(before[pa] != before[pb]);
                    } else if a == j {
                        let pb = if b < j { b } else { b - 1 };
                        assert(before.contains(before[pb]));
                    } else {
                        let pa = if a < j { a } else { a - 1 };
                        assert(before.contains(before[pa]));
                    }
                }
            }
        }
        k = k + 1;
    }
    assert(items@.take(items@.len() as int) =~= items@);
    proof {
        assert forall|c: Ipv4Cidr| #[trigger] out@.contains(c) <==> items@.contains(c) by {
            if items@.contains(c) {
                let m = items@.index_of(c);
                assert(items@[m] == c);
            }
        }
    }
    out
}

/// The same networks in ascending order of network address, then prefix
/// length; networks with equal keys keep their order.
fn sort_v6(items: Vec<Ipv6Cidr>) -> (r: Vec<Ipv6Cidr>)
    requires
        items@.no_duplicates(),
        forall|i: int| 0 <= i < items@.len() ==> (#[trigger] items@[i]).wf(),
    ensures
        r@.no_duplicates(),
        forall|c: Ipv6Cidr| #[trigger] r@.contains(c) <==> items@.contains(c),
        sorted_v6(r@),
        stable_v6(items@, r@),
{
    let mut out: Vec<Ipv6Cidr> = Vec::new();
    let mut k: usize = 0;
    while k < items.len()
        invariant
            k <= items@.len(),
            items@.no_duplicates(),
            forall|i: int| 0 <= i < items@.len() ==> (#[trigger] items@[i]).wf(),
            out@.no_duplicates(),
            forall|c: Ipv6Cidr| #[trigger]
                out@.contains(c) <==> exists|m: int| 0 <= m < k && items@[m] == c,
            forall|i: int| 0 <= i < out@.len() ==> (#[trigger] out@[i]).wf(),
            sorted_v6(out@),
            stable_v6(items@.take(k as int), out@),
        decreases items@.len() - k,
    {
        let x = items[k];
        let nx = ipv6_network(x);
        let mut j: usize = 0;
        while j < out.len()
            invariant
                j <= out@.len(),
                nx == v6_network(x),
                forall|i: int| 0 <= i < out@.len() ==> (#[trigger] out@[i]).wf(),
                forall|a: int| 0 <= a < j ==> v6_key_le(#[trigger] out@[a], x),
            ensures
                j <= out@.len(),
                forall|a: int| 0 <= a < j ==> v6_key_le(#[trigger] out@[a], x),
                j < out@.len() ==> !v6_key_le(out@[j as int], x),
            decreases out@.len() - j,
        {
            let no = ipv6_network(out[j]);
            if !(no < nx || (no == nx && out[j].prefix_len <= x.prefix_len)) {
                break;
            }
            j = j + 1;
        }
        proof {
            assert(!out@.contains(x)) by {
                if out@.contains(x) {
                    let m = choose|m: int| 0 <= m < k && items@[m] == x;
                    assert(items@[m] == items@[k as int]);
                }
            }
            if j < out@.len() {
                assert(!v6_key_le(out@[j as int], x));
            }
        }
        let ghost before = out@;
        out.insert(j, x);
        proof {
            let n = out@;
            assert(forall|a: int| 0 <= a < j ==> n[a] == before[a]);
            assert(forall|a: int| j < a < n.len() ==> n[a] == before[a - 1]);
            assert(sorted_v6(n)) by {
                assert forall|a: int, b: int| 0 <= a < b < n.len() implies v6_key_le(
                    #[trigger] n[a],
                    #[trigger] n[b],
                ) by {
                    if b < j {
                        assert(v6_key_le(before[a], before[b]));
                    } else if b == j {
                        assert(v6_key_le(before[a], x));
                    } else if a == j {
                        assert(v6_key_le(before[j as int], before[b - 1]) || b - 1 == j);
                    } else if a < j {
                        assert(v6_key_le(before[a], before[b - 1]));
                    } else {
                        assert(v6_key_le(before[a - 1], before[b - 1]));
                    }
                }
            }
            assert forall|c: Ipv6Cidr| #[trigger] n.contains(c) <==> exists|m: int|
                0 <= m < k + 1 && items@[m] == c by {
                if n.contains(c) {
                    let p = n.index_of(c);
                    if p < j {
                        assert(before[p] == c);
                        assert(before.contains(c));
                    } else if p > j {
                        assert(before[p - 1] == c);
                        assert(before.contains(c));
                    } else {
                        assert(items@[k as int] == c);
                    }
                }
                if exists|m: int| 0 <= m < k + 1 && items@[m] == c {
                    let m = choose|m: int| 0 <= m < k + 1 && items@[m] == c;
                    if m < k {
                        assert(before.contains(c));
                        let p = before.index_of(c);
                        if p < j {
                            assert(n[p] == c);
                        } else {
                            assert(n[p + 1] == c);
                        }
                    } else {
                        assert(n[j as int] == c);
                    }
                }
            }
            assert(stable_v6(items@.take(k + 1), n)) by {
                let t = items@.take(k + 1);
                assert forall|a: int, c: int| 0 <= a < c < n.len() && same_key_v6(#[trigger] n[a], #[trigger] n[c]) implies exists|pa: int, pc: int| 0 <= pa < pc < t.len() && t[pa] == n[a] && t[pc] == n[c] by {
                    if c < j {
                        assert(same_key_v6(before[a], before[c]));
                        let (pa, pc) = choose|pa: int, pc: int| 0 <= pa < pc < k && items@.take(k as int)[pa] == before[a] && items@.take(k as int)[pc] == before[c];
                        assert(t[pa] == n[a] && t[pc] == n[c]);
                    } else if c == j {
                        assert(before.contains(before[a]));
                        let m = choose|m: int| 0 <= m < k && items@[m] == before[a];
                        assert(t[m] == n[a] && t[k as int] == n[c]);
                    } else if a == j {
                        assert(!v6_key_le(before[j as int], x));
                        assert(v6_key_le(before[j as int], before[c - 1]) || c - 1 == j);
                    } else if a < j {
                        assert(same_key_v6(before[a], before[c - 1]));
                        let (pa, pc) = choose|pa: int, pc: int| 0 <= pa < pc < k && items@.take(k as int)[pa] == before[a] && items@.take(k as int)[pc] == before[c - 1];
                        assert(t[pa] == n[a] && t[pc] == n[c]);
                    } else {
                        assert(same_key_v6(before[a - 1], before[c - 1]));
                        let (pa, pc) = choose|pa: int, pc: int| 0 <= pa < pc < k && items@.take(k as int)[pa] == before[a - 1] && items@.take(k as int)[pc] == before[c - 1];
                        assert(t[pa] == n[a] && t[pc] == n[c]);
                    }
                }
            }
            assert(n.no_duplicates()) by {
                assert forall|a: int, b: int| 0 <= a < n.len() && 0 <= b < n.len() && a != b
                    implies n[a] != n[b] by {
                    if a != j && b != j {
                        let pa = if a < j { a } else { a - 1 };
                        let pb = if b < j { b } else { b - 1 };
                        assert(before[pa] != before[pb]);
                    } else if a == j {
                        let pb = if b < j { b } else { b - 1 };
                        assert(before.contains(before[pb]));
                    } else {
                        let pa = if a < j { a } else { a - 1 };
                        assert(before.contains(before[pa]));
                    }
                }
            }
        }
        k = k + 1;
    }
    assert(items@.take(items@.len() as int) =~= items@);
    proof {
        assert forall|c: Ipv6Cidr| #[trigger] out@.contains(c) <==> items@.contains(c) by {
            if items@.contains(c) {
                let m = items@.index_of(c);
                assert(items@[m] == c);
            }
        }
    }
    out
}

pub fn reaches_directly(n: &LogicalNetwork, host: &str) -> (r: bool)
    ensures
        r == directly_reachable(*n, host@),
{
    match &n.routing {
        Some(routing) => routing.mode == RoutingMode::Direct && match &routing.from {
            Some(from) => str_eq(from.as_str(), host),
            None => false,
        },
        None => false,
    }
}

/// The networks allowed to recurse through the DNS server, under the
/// location's recursion policy. With recursion disabled there are none;
/// otherwise each list holds each allowed network once, in ascending order of
/// network address, then prefix length.
pub fn derive_dns_access(b: &ConfigBundle) -> (r: ResolvedDnsAccess)
    requires
        dns_access_requires(b),
    ensures
        access_of(b, r),
{
    let p = &b.dns.dns.recursion;
    if !p.enabled {
        return ResolvedDnsAccess { ipv4: Vec::new(), ipv6: Vec::new() };
    }
    let mut v4: Vec<Ipv4Cidr> = Vec::new();
    let mut v6: Vec<Ipv6Cidr> = Vec::new();
    v4.push(Ipv4Cidr { addr: 0x7f00_0000, prefix_len: 8 });
    v6.push(Ipv6Cidr { addr: 1, prefix_len: 128 });
    let ghost mut c4: Seq<Ipv4Cidr> = seq![loopback_v4()];
    let ghost mut c6: Seq<Ipv6Cidr> = seq![loopback_v6()];
    assert(v4@ =~= c4);
    assert(v6@ =~= c6);
    proof {
        assert forall|c: Ipv4Cidr| #[trigger] v4@.contains(c) <==> c == loopback_v4() by {
            if c == loopback_v4() {
                assert(v4@[0] == c);
            }
        }
        assert forall|c: Ipv6Cidr| #[trigger] v6@.contains(c) <==> c == loopback_v6() by {
            if c == loopback_v6() {
                assert(v6@[0] == c);
            }
        }
    }
    let ghost segs = b.location.segments@;
    let ghost nets = b.networks.networks@;
    if p.include_location_segments {
        let mut i: usize = 0;
        while i < b.location.segments.len()
            invariant
                b.wf(),
                segs == b.location.segments@,
                i <= segs.len(),
                v4@.no_duplicates(),
                forall|c: Ipv4Cidr| #[trigger]
                    v4@.contains(c) <==> (c == loopback_v4() || exists|j: int|
                        0 <= j < i && (#[trigger] segs[j]).1.dns_clients && segs[j].1.ipv4_cidr
                            == c),
                c4 == seq![loopback_v4()] + segment_candidates(segs.take(i as int)),
                in_first_order(v4@, c4),
                forall|y: Ipv4Cidr| #[trigger] v4@.contains(y) <==> c4.contains(y),
            decreases segs.len() - i,
        {
            let segment = &b.location.segments[i].1;
            let ghost before = v4@;
            if segment.dns_clients {
                push_unique_v4(&mut v4, segment.ipv4_cidr);
            }
            proof {
                lemma_segment_candidates_step(segs, i as int);
                if segment.dns_clients {
                    lemma_first_order_push(before, c4, segment.ipv4_cidr);
                    lemma_same_members_push(before, v4@, c4, segment.ipv4_cidr);
                    c4 = c4.push(segment.ipv4_cidr);
                    assert(c4 =~= seq![loopback_v4()] + segment_candidates(segs.take(i + 1)));
                } else {
                    assert(c4 =~= seq![loopback_v4()] + segment_candidates(segs.take(i + 1)));
                }
            }
            proof {
                assert forall|c: Ipv4Cidr| #[trigger] v4@.contains(c) <==> (c == loopback_v4()
                    || exists|j: int|
                    0 <= j < i + 1 && (#[trigger] segs[j]).1.dns_clients && segs[j].1.ipv4_cidr
                        == c) by {
                    if c == segs[i as int].1.ipv4_cidr && segs[i as int].1.dns_clients {
                        assert(segs[i as int].1.dns_clients);
                    }
                }
            }
            i = i + 1;
        }
        assert(segs.take(segs.len() as int) =~= segs);
        match b.location.ipv6.prefix {
            Some(prefix) => {
                if b.location.ipv6.mode != Ipv6Mode::Disabled {
                    let ghost before6 = v6@;
                    push_unique_v6(&mut v6, prefix);
                    proof {
                        lemma_first_order_push(before6, c6, prefix);
                        lemma_same_members_push(before6, v6@, c6, prefix);
                        c6 = c6.push(prefix);
                    }
                }
            },
            None => {},
        }
    }
    assert(forall|c: Ipv4Cidr| #[trigger]
        v4@.contains(c) <==> (c == loopback_v4() || (p.include_location_segments && segment_v4(b, c))));
    assert(c4 =~= seq![loopback_v4()] + (if p.include_location_segments { segment_candidates(segs) } else { Seq::empty() }));
    assert(c6 =~= seq![loopback_v6()] + (if p.include_location_segments && b.location.ipv6.mode != Ipv6Mode::Disabled && b.location.ipv6.prefix is Some {
            seq![b.location.ipv6.prefix->0]
        } else {
            Seq::empty()
        }));
    let ghost c4_segments = c4;
    let ghost after_segments = v4@;
    if p.include_docker_networks {
        let k = find(&b.services.services, b.dns.dns.service.as_str());
        let index = match k {
            Some(index) => index,
            None => {
                return ResolvedDnsAccess { ipv4: v4, ipv6: v6 };
            },
        };
        let host = b.services.services[index].1.host.as_str();
        let mut i: usize = 0;
        while i < b.networks.networks.len()
            invariant
                b.wf(),
                nets == b.networks.networks@,
                host@ == dns_host_of(b),
                i <= nets.len(),
                v4@.no_duplicates(),
                forall|c: Ipv4Cidr| #[trigger]
                    v4@.contains(c) <==> (after_segments.contains(c) || exists|j: int|
                        0 <= j < i && (#[trigger] nets[j]).1.dns_clients && directly_reachable(
                            nets[j].1,
                            dns_host_of(b),
                        ) && nets[j].1.ipv4_cidr == Some(c)),
                c4 == c4_segments + network_candidates(nets.take(i as int), dns_host_of(b)),
                in_first_order(v4@, c4),
                forall|y: Ipv4Cidr| #[trigger] v4@.contains(y) <==> c4.contains(y),
            decreases nets.len() - i,
        {
            let network = &b.networks.networks[i].1;
            let ghost before = v4@;
            if network.dns_clients && reaches_directly(network, host) {
                match network.ipv4_cidr {
                    Some(cidr) => push_unique_v4(&mut v4, cidr),
                    None => {},
                }
            }
            proof {
                lemma_network_candidates_step(nets, dns_host_of(b), i as int);
                if network.dns_clients && directly_reachable(*network, dns_host_of(b)) && network.ipv4_cidr is Some {
                    let x = network.ipv4_cidr->0;
                    lemma_first_order_push(before, c4, x);
                    lemma_same_members_push(before, v4@, c4, x);
                    c4 = c4.push(x);
                }
                assert(c4 =~= c4_segments + network_candidates(nets.take(i + 1), dns_host_of(b)));
            }
            proof {
                assert forall|c: Ipv4Cidr| #[trigger] v4@.contains(c) <==> (after_segments.contains(
                    c,
                ) || exists|j: int|
                    0 <= j < i + 1 && (#[trigger] nets[j]).1.dns_clients && directly_reachable(
                        nets[j].1,
                        dns_host_of(b),
                    ) && nets[j].1.ipv4_cidr == Some(c)) by {
                    if nets[i as int].1.ipv4_cidr == Some(c) && nets[i as int].1.dns_clients {
                        assert(nets[i as int].1.dns_clients);
                    }
                }
            }
            i = i + 1;
        }
        assert(nets.take(nets.len() as int) =~= nets);
    }
    assert(forall|c: Ipv4Cidr| #[trigger]
        v4@.contains(c) <==> (after_segments.contains(c) || (p.include_docker_networks
            && network_v4(b, c))));
    assert(c4 =~= c4_segments + (if p.include_docker_networks { network_candidates(nets, dns_host_of(b)) } else { Seq::empty() }));
    let ghost after_networks = v4@;
    let ghost c4_networks = c4;
    let ghost c6_segments = c6;
    if p.include_tailscale && b.location.tailscale.enabled {
        let ghost (b4, b6) = (v4@, v6@);
        push_unique_v4(&mut v4, Ipv4Cidr { addr: 0x6440_0000, prefix_len: 10 });
        push_unique_v6(
            &mut v6,
            Ipv6Cidr { addr: 0xfd7a_115c_a1e0_0000_0000_0000_0000_0000, prefix_len: 48 },
        );
        proof {
            lemma_first_order_push(b4, c4, tailscale_v4());
            lemma_same_members_push(b4, v4@, c4, tailscale_v4());
            c4 = c4.push(tailscale_v4());
            lemma_first_order_push(b6, c6, tailscale_v6());
            lemma_same_members_push(b6, v6@, c6, tailscale_v6());
            c6 = c6.push(tailscale_v6());
        }
    }
    assert(c4 =~= c4_networks + (if p.include_tailscale && b.location.tailscale.enabled { seq![tailscale_v4()] } else { Seq::empty() }));
    assert(c4 =~= v4_candidates(b));
    let ghost c6_tailscale = c6;
    if p.include_ula {
        match &b.allocations.ula {
            Some(ula) => {
                let ghost b6 = v6@;
                push_unique_v6(&mut v6, ula.prefix);
                proof {
                    lemma_first_order_push(b6, c6, ula.prefix);
                    lemma_same_members_push(b6, v6@, c6, ula.prefix);
                    c6 = c6.push(ula.prefix);
                }
            },
            None => {},
        }
    }
    assert(c6 =~= v6_candidates(b));
    assert(forall|c: Ipv4Cidr| #[trigger] v4@.contains(c) <==> v4_access_member(b, c));
    proof {
        assert forall|i: int| 0 <= i < v4@.len() implies (#[trigger] v4@[i]).wf() by {
            assert(v4@.contains(v4@[i]));
            let c = v4@[i];
            if segment_v4(b, c) {
                let j = choose|j: int|
                    0 <= j < segs.len() && (#[trigger] segs[j]).1.dns_clients
                        && segs[j].1.ipv4_cidr == c;
            }
            if network_v4(b, c) {
                let j = choose|j: int|
                    0 <= j < nets.len() && (#[trigger] nets[j]).1.dns_clients
                        && directly_reachable(nets[j].1, dns_host_of(b))
                        && nets[j].1.ipv4_cidr == Some(c);
            }
        }
        assert forall|i: int| 0 <= i < v6@.len() implies (#[trigger] v6@[i]).wf() by {
            assert(v6@.contains(v6@[i]));
        }
    }
    let ghost (u4, u6) = (v4@, v6@);
    let ipv4 = sort_v4(v4);
    let ipv6 = sort_v6(v6);
    proof {
        lemma_ties_follow_v4(u4, ipv4@, c4);
        lemma_ties_follow_v6(u6, ipv6@, c6);
    }
    ResolvedDnsAccess { ipv4, ipv6 }
}

/// With recursion enabled, loopback may always recurse and no network is
/// listed twice.
pub proof fn law_recursion_includes_loopback(b: &ConfigBundle, a: ResolvedDnsAccess)
    requires
        access_of(b, a),
        b.dns.dns.recursion.enabled,
    ensures
        a.ipv4@.contains(loopback_v4()),
        a.ipv6@.contains(loopback_v6()),
        a.ipv4@.no_duplicates(),
        a.ipv6@.no_duplicates(),
{
    assert(v4_access_member(b, loopback_v4()));
    assert(v6_access_member(b, loopback_v6()));
}

/// Whether `derive_dns_access` can run on `b` (see `dns_access_requires`).
pub fn dns_access_inputs_ok(b: &ConfigBundle) -> (r: bool)
    ensures
        r == dns_access_requires(b),
{
    if !b.shape_ok() {
        return false;
    }
    let p = &b.dns.dns.recursion;
    if p.enabled && p.include_docker_networks {
        find(&b.services.services, b.dns.dns.service.as_str()).is_some()
    } else {
        true
    }
}

} // verus!
