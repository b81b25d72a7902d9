//! The virtual machines and containers of the location.

use vstd::prelude::*;

use crate::model::{ConfigBundle, Guest, GuestAddressMode, GuestKind, GuestPciDevice, GuestVirtioFs};
use crate::net::{ipv4_contains, v4_contains};
use crate::plan::PlanError;
use crate::table::{contains_key, copy_opt, find, has_key, lookup, opt_text, unique_keys};
use crate::text::{lemma_text_lt_irreflexive, lemma_text_lt_total, lemma_text_lt_transitive, owned, str_eq, text_less, text_lt};

verus! {

#[derive(Debug)]
pub struct ResolvedGuest {
    pub name: String,
    pub kind: GuestKind,
    pub host: String,
    pub vmid: u32,
    pub mac: String,
    pub interface: String,
    pub bridge: String,
    pub ipv4: u32,
    pub address_mode: GuestAddressMode,
    pub onboot: bool,
    pub startup: Option<String>,
    pub pci_devices: Vec<GuestPciDevice>,
    pub virtiofs: Vec<GuestVirtioFs>,
}

/// The guests of the location, ordered by parent host, VM ID and name.
#[derive(Debug)]
pub struct ResolvedGuestPlan {
    pub location: String,
    pub guests: Vec<ResolvedGuest>,
}

/// A resolved guest as plain values.
pub struct GuestView {
    pub name: Seq<char>,
    pub kind: GuestKind,
    pub host: Seq<char>,
    pub vmid: u32,
    pub mac: Seq<char>,
    pub interface: Seq<char>,
    pub bridge: Seq<char>,
    pub ipv4: u32,
    pub address_mode: GuestAddressMode,
    pub onboot: bool,
    pub startup: Option<Seq<char>>,
    pub pci_devices: Seq<(u8, Seq<char>)>,
    pub virtiofs: Seq<(u8, Seq<char>, bool)>,
}

pub open spec fn pci_views(s: Seq<GuestPciDevice>) -> Seq<(u8, Seq<char>)> {
    s.map_values(|d: GuestPciDevice| (d.slot, d.device@))
}

pub open spec fn virtiofs_views(s: Seq<GuestVirtioFs>) -> Seq<(u8, Seq<char>, bool)> {
    s.map_values(|d: GuestVirtioFs| (d.slot, d.directory@, d.expose_acl))
}

pub open spec fn guest_view(g: ResolvedGuest) -> GuestView {
    GuestView {
        name: g.name@,
        kind: g.kind,
        host: g.host@,
        vmid: g.vmid,
        mac: g.mac@,
        interface: g.interface@,
        bridge: g.bridge@,
        ipv4: g.ipv4,
        address_mode: g.address_mode,
        onboot: g.onboot,
        startup: opt_text(g.startup),
        pci_devices: pci_views(g.pci_devices@),
        virtiofs: virtiofs_views(g.virtiofs@),
    }
}

pub open spec fn guest_views(s: Seq<ResolvedGuest>) -> Seq<GuestView> {
    s.map_values(|g: ResolvedGuest| guest_view(g))
}

/// The view of configured guest `name` as it is resolved.
pub open spec fn configured_view(name: Seq<char>, g: Guest) -> GuestView {
    GuestView {
        name,
        kind: g.kind,
        host: g.host@,
        vmid: g.vmid,
        mac: g.mac@,
        interface: g.interface@,
        bridge: g.bridge@,
        ipv4: g.ipv4,
        address_mode: g.address_mode,
        onboot: g.onboot,
        startup: opt_text(g.startup),
        pci_devices: pci_views(g.pci_devices@),
        virtiofs: virtiofs_views(g.virtiofs@),
    }
}

/// `a` sorts strictly before `b`: by parent host, then VM ID, then name.
pub open spec fn guest_lt(a: GuestView, b: GuestView) -> bool {
    if a.host != b.host {
        text_lt(a.host, b.host)
    } else if a.vmid != b.vmid {
        a.vmid < b.vmid
    } else {
        text_lt(a.name, b.name)
    }
}

/// Guests strictly ascend.
pub open spec fn guests_ascend(s: Seq<GuestView>) -> bool {
    forall|i: int, j: int| 0 <= i < j < s.len() ==> guest_lt(#[trigger] s[i], #[trigger] s[j])
}

proof fn lemma_guest_order(a: GuestView, b: GuestView, c: GuestView)
    ensures
        !guest_lt(a, a),
        (a.host != b.host || a.vmid != b.vmid || a.name != b.name) ==> (guest_lt(a, b) || guest_lt(b, a)),
        guest_lt(a, b) && guest_lt(b, c) ==> guest_lt(a, c),
{
    lemma_text_lt_irreflexive(a.host);
    lemma_text_lt_irreflexive(a.name);
    lemma_text_lt_total(a.host, b.host);
    lemma_text_lt_total(a.name, b.name);
    if guest_lt(a, b) && guest_lt(b, c) {
        lemma_text_lt_total(b.host, c.host);
        lemma_text_lt_total(a.host, c.host);
        if a.host != b.host && b.host != c.host {
            lemma_text_lt_transitive(a.host, b.host, c.host);
        }
        if a.host == b.host && b.host == c.host && a.vmid == b.vmid && b.vmid == c.vmid {
            lemma_text_lt_transitive(a.name, b.name, c.name);
        }
    }
}

/// Whether configured guest `e` is resolved: its parent host is enabled.
/// `None` where the parent is unknown, not attached at the location, lacks
/// the guest's interface, or the guest's address lies outside the
/// interface's segment.
pub open spec fn guest_step(b: &ConfigBundle, e: (String, Guest)) -> Option<bool> {
    let g = e.1;
    match lookup(b.inventory.hosts@, g.host@) {
        None => None,
        Some(parent) => if !parent.enabled {
            Some(false)
        } else {
            match lookup(b.location.hosts@, g.host@) {
                None => None,
                Some(lh) => match lookup(lh.interfaces@, g.interface@) {
                    None => None,
                    Some(i) => if v4_contains(lookup(b.location.segments@, i.segment@)->0.ipv4_cidr, g.ipv4) {
                        Some(true)
                    } else {
                        None
                    },
                },
            }
        },
    }
}

/// The guest plan resolves: every guest resolves.
/// Why guest `e` is refused, checked in this order: its parent host is
/// unknown; the parent is enabled but not attached at the location, lacks
/// the guest's interface, or the guest address lies outside that
/// interface's segment.
pub open spec fn guest_refusal(b: &ConfigBundle, e: (String, Guest), err: PlanError) -> bool {
    let g = e.1;
    if lookup(b.inventory.hosts@, g.host@) is None {
        err matches PlanError::GuestUnknownParent { guest, parent } && guest@ == e.0@ && parent@ == g.host@
    } else {
        match lookup(b.location.hosts@, g.host@) {
            None => err matches PlanError::GuestParentNotAttached { host, parent, location }
                && host@ == e.0@ && parent@ == g.host@ && location@ == b.location.name@,
            Some(lh) => match lookup(lh.interfaces@, g.interface@) {
                None => err matches PlanError::GuestInterfaceUnknown { host, parent, interface }
                    && host@ == e.0@ && parent@ == g.host@ && interface@ == g.interface@,
                Some(i) => err matches PlanError::GuestAddressOutside { guest, address, segment, cidr }
                    && guest@ == e.0@ && address == g.ipv4 && segment@ == i.segment@
                    && cidr == lookup(b.location.segments@, i.segment@)->0.ipv4_cidr,
            },
        }
    }
}

pub open spec fn guests_ok(b: &ConfigBundle) -> bool {
    forall|i: int| 0 <= i < b.guests.guests@.len() ==> guest_step(b, #[trigger] b.guests.guests@[i]) is Some
}

/// Guest `i` is in the plan.
pub open spec fn guest_listed(b: &ConfigBundle, i: int) -> bool {
    guest_step(b, b.guests.guests@[i]) == Some(true)
}

/// The segment of the interface that guest `e` attaches to is known,
/// wherever the guest's parent host is attached and has that interface.
pub open spec fn guest_segment_known(b: &ConfigBundle, e: (String, Guest)) -> bool {
    let g = e.1;
    (lookup(b.location.hosts@, g.host@) matches Some(lh) && lookup(lh.interfaces@, g.interface@) matches Some(it))
        ==> has_key(b.location.segments@, lookup(lookup(b.location.hosts@, g.host@)->0.interfaces@, g.interface@)->0.segment@)
}

/// The segment that guest `e` is checked against is looked up: the guest's
/// parent is a known, enabled host, attached at the location with the
/// guest's interface.
pub open spec fn guest_segment_looked_up(b: &ConfigBundle, e: (String, Guest)) -> bool {
    let g = e.1;
    &&& lookup(b.inventory.hosts@, g.host@) matches Some(p) && p.enabled
    &&& lookup(b.location.hosts@, g.host@) matches Some(lh) && lookup(lh.interfaces@, g.interface@) is Some
}

/// What `resolve_guest_plan` needs of a bundle: its shape, and the segment
/// of each guest it reaches, once every guest before resolved, is known
/// where it is looked up.
pub open spec fn guest_plan_requires(b: &ConfigBundle) -> bool {
    &&& b.wf()
    &&& forall|i: int| 0 <= i < b.guests.guests@.len() ==> (
        (forall|j: int| 0 <= j < i ==> guest_step(b, #[trigger] b.guests.guests@[j]) is Some)
            ==> (guest_segment_looked_up(b, #[trigger] b.guests.guests@[i]) ==> guest_segment_known(b, b.guests.guests@[i])))
}

/// A bundle in which the segment of every guest's interface is known meets
/// what `resolve_guest_plan` needs.
pub proof fn lemma_guest_segments_meet_requires(b: &ConfigBundle)
    requires
        b.wf(),
        forall|i: int| 0 <= i < b.guests.guests@.len() ==> guest_segment_known(b, #[trigger] b.guests.guests@[i]),
    ensures
        guest_plan_requires(b),
{
}

fn copy_pci(s: &Vec<GuestPciDevice>) -> (r: Vec<GuestPciDevice>)
    ensures
        pci_views(r@) == pci_views(s@),
{
    let mut out: Vec<GuestPciDevice> = Vec::new();
    let mut i: usize = 0;
    while i < s.len()
        invariant
            i <= s@.len(),
            pci_views(out@) == pci_views(s@).take(i as int),
        decreases s@.len() - i,
    {
        let ghost before = out@;
        out.push(GuestPciDevice { slot: s[i].slot, device: owned(s[i].device.as_str()) });
        assert(pci_views(out@) =~= pci_views(before).push((s@[i as int].slot, s@[i as int].device@)));
        i = i + 1;
        assert(pci_views(out@) =~= pci_views(s@).take(i as int));
    }
    assert(pci_views(s@).take(s@.len() as int) =~= pci_views(s@));
    out
}

fn copy_virtiofs(s: &Vec<GuestVirtioFs>) -> (r: Vec<GuestVirtioFs>)
    ensures
        virtiofs_views(r@) == virtiofs_views(s@),
{
    let mut out: Vec<GuestVirtioFs> = Vec::new();
    let mut i: usize = 0;
    while i < s.len()
        invariant
            i <= s@.len(),
            virtiofs_views(out@) == virtiofs_views(s@).take(i as int),
        decreases s@.len() - i,
    {
        let ghost before = out@;
        out.push(GuestVirtioFs { slot: s[i].slot, directory: owned(s[i].directory.as_str()), expose_acl: s[i].expose_acl });
        assert(virtiofs_views(out@) =~= virtiofs_views(before).push((s@[i as int].slot, s@[i as int].directory@, s@[i as int].expose_acl)));
        i = i + 1;
        assert(virtiofs_views(out@) =~= virtiofs_views(s@).take(i as int));
    }
    assert(virtiofs_views(s@).take(s@.len() as int) =~= virtiofs_views(s@));
    out
}

fn guest_less(a: &ResolvedGuest, b: &ResolvedGuest) -> (r: bool)
    ensures
        r == guest_lt(guest_view(*a), guest_view(*b)),
{
    if !str_eq(a.host.as_str(), b.host.as_str()) {
        text_less(a.host.as_str(), b.host.as_str())
    } else if a.vmid != b.vmid {
        a.vmid < b.vmid
    } else {
        text_less(a.name.as_str(), b.name.as_str())
    }
}

/// Adds a guest at its place in an ascending list.
fn insert_guest(v: &mut Vec<ResolvedGuest>, g: ResolvedGuest)
    requires
        guests_ascend(guest_views(old(v)@)),
        forall|i: int| 0 <= i < old(v)@.len() ==> (#[trigger] old(v)@[i]).name@ != g.name@,
    ensures
        guests_ascend(guest_views(final(v)@)),
        forall|x: GuestView| #[trigger] guest_views(final(v)@).contains(x) <==> (guest_views(old(v)@).contains(x) || x == guest_view(g)),
        forall|i: int| 0 <= i < final(v)@.len() ==> (#[trigger] final(v)@[i]).name@ == g.name@ || exists|j: int| 0 <= j < old(v)@.len() && old(v)@[j].name@ == final(v)@[i].name@,
{
    let ghost s = guest_views(v@);
    let ghost names = v@;
    let mut i: usize = 0;
    while i < v.len() && guest_less(&v[i], &g)
        invariant
            i <= v@.len(),
            guest_views(v@) == s,
            v@ == names,
            forall|j: int| 0 <= j < i ==> guest_lt(#[trigger] s[j], guest_view(g)),
        decreases v@.len() - i,
    {
        i = i + 1;
    }
    let ghost gv = guest_view(g);
    proof {
        if i < s.len() {
            assert(s[i as int].name != gv.name);
            lemma_guest_order(s[i as int], gv, gv);
        }
    }
    v.insert(i, g);
    proof {
        let n = guest_views(v@);
        assert(n =~= s.insert(i as int, gv));
        assert forall|a: int, c: int| 0 <= a < c < n.len() implies guest_lt(#[trigger] n[a], #[trigger] n[c]) by {
            if c < i {
                assert(guest_lt(s[a], s[c]));
            } else if c == i {
                assert(guest_lt(s[a], gv));
            } else if a == i {
                if c - 1 > i {
                    assert(guest_lt(s[i as int], s[c - 1]));
                    lemma_guest_order(gv, s[i as int], s[c - 1]);
                }
            } else if a < i {
                assert(guest_lt(s[a], s[c - 1]));
            } else {
                assert(guest_lt(s[a - 1], s[c - 1]));
            }
        }
        assert forall|x: GuestView| #[trigger] n.contains(x) <==> (s.contains(x) || x == gv) by {
            if n.contains(x) {
                let p = n.index_of(x);
                if p < i {
                    assert(s[p] == x);
                } else if p > i {
                    assert(s[p - 1] == x);
                }
            }
            if s.contains(x) {
                let p = s.index_of(x);
                if p < i {
                    assert(n[p] == x);
                } else {
                    assert(n[p + 1] == x);
                }
            }
            if x == gv {
                assert(n[i as int] == x);
            }
        }
        assert forall|a: int| 0 <= a < v@.len() implies (#[trigger] v@[a]).name@ == gv.name || exists|j: int| 0 <= j < names.len() && names[j].name@ == v@[a].name@ by {
            if a < i {
                assert(names[a].name@ == v@[a].name@);
            } else if a > i {
                assert(names[a - 1].name@ == v@[a].name@);
            }
        }
    }
}

/// Why the guest plan is refused: its first guest refused.
pub open spec fn guest_plan_refusal(b: &ConfigBundle, err: PlanError) -> bool {
    exists|k: int| 0 <= k < b.guests.guests@.len()
        && guest_step(b, #[trigger] b.guests.guests@[k]) is None
        && (forall|k2: int| 0 <= k2 < k ==> guest_step(b, #[trigger] b.guests.guests@[k2]) is Some)
        && guest_refusal(b, b.guests.guests@[k], err)
}

/// Resolves the guests whose parent host is enabled, ordered by parent host,
/// VM ID and name, checking that each parent is attached with the guest's
/// interface and that each address lies in that interface's segment.
#[verifier::loop_isolation(false)]
pub fn resolve_guest_plan(b: &ConfigBundle) -> (r: Result<ResolvedGuestPlan, PlanError>)
    requires
        guest_plan_requires(b),
    ensures
        r is Ok <==> guests_ok(b),
        r matches Err(err) ==> guest_plan_refusal(b, err),
        r matches Err(err) ==> exists|k: int| 0 <= k < b.guests.guests@.len()
            && guest_step(b, #[trigger] b.guests.guests@[k]) is None
            && (forall|k2: int| 0 <= k2 < k ==> guest_step(b, #[trigger] b.guests.guests@[k2]) is Some)
            && guest_refusal(b, b.guests.guests@[k], err),
        r matches Ok(p) ==> {
            &&& p.location@ == b.location.name@
            &&& guests_ascend(guest_views(p.guests@))
            &&& forall|x: GuestView| #[trigger] guest_views(p.guests@).contains(x) <==> exists|i: int| 0 <= i < b.guests.guests@.len() && guest_listed(b, i) && x == configured_view(b.guests.guests@[i].0@, b.guests.guests@[i].1)
        },
{
    let ghost gs = b.guests.guests@;
    let mut out: Vec<ResolvedGuest> = Vec::new();
    let mut i: usize = 0;
    while i < b.guests.guests.len()
        invariant
            i <= gs.len(),
            guests_ascend(guest_views(out@)),
            forall|k: int| 0 <= k < i ==> guest_step(b, #[trigger] gs[k]) is Some,
            forall|x: GuestView| #[trigger] guest_views(out@).contains(x) <==> exists|k: int| 0 <= k < i && guest_listed(b, k) && x == configured_view(gs[k].0@, gs[k].1),
            forall|a: int| 0 <= a < out@.len() ==> exists|k: int| 0 <= k < i && (#[trigger] out@[a]).name@ == gs[k].0@,
        decreases gs.len() - i,
    {
        let name = b.guests.guests[i].0.as_str();
        let g = &b.guests.guests[i].1;
        let pi = match find(&b.inventory.hosts, g.host.as_str()) {
            None => {
                return Err(PlanError::GuestUnknownParent { guest: owned(name), parent: owned(g.host.as_str()) });
            },
            Some(pi) => pi,
        };
        if b.inventory.hosts[pi].1.enabled {
            let li = match find(&b.location.hosts, g.host.as_str()) {
                None => {
                    return Err(PlanError::GuestParentNotAttached { host: owned(name), parent: owned(g.host.as_str()), location: owned(b.location.name.as_str()) });
                },
                Some(li) => li,
            };
            assert(unique_keys(b.location.hosts@[li as int].1.interfaces@));
            let ii = match find(&b.location.hosts[li].1.interfaces, g.interface.as_str()) {
                None => {
                    return Err(PlanError::GuestInterfaceUnknown { host: owned(name), parent: owned(g.host.as_str()), interface: owned(g.interface.as_str()) });
                },
                Some(ii) => ii,
            };
            let segment_name = b.location.hosts[li].1.interfaces[ii].1.segment.as_str();
            let si = match find(&b.location.segments, segment_name) {
                None => {
                    return Err(PlanError::GuestSegmentUnknown { host: owned(name), segment: owned(segment_name) });
                },
                Some(si) => si,
            };
            if !ipv4_contains(b.location.segments[si].1.ipv4_cidr, g.ipv4) {
                return Err(PlanError::GuestAddressOutside { guest: owned(name), address: g.ipv4, segment: owned(segment_name), cidr: b.location.segments[si].1.ipv4_cidr });
            }
            let rg = ResolvedGuest {
                name: owned(name),
                kind: g.kind,
                host: owned(g.host.as_str()),
                vmid: g.vmid,
                mac: owned(g.mac.as_str()),
                interface: owned(g.interface.as_str()),
                bridge: owned(g.bridge.as_str()),
                ipv4: g.ipv4,
                address_mode: g.address_mode,
                onboot: g.onboot,
                startup: copy_opt(&g.startup),
                pci_devices: copy_pci(&g.pci_devices),
                virtiofs: copy_virtiofs(&g.virtiofs),
            };
            proof {
                assert forall|a: int| 0 <= a < out@.len() implies (#[trigger] out@[a]).name@ != rg.name@ by {
                    let k = choose|k: int| 0 <= k < i && (#[trigger] out@[a]).name@ == gs[k].0@;
                    assert(gs[k].0@ != gs[i as int].0@);
                }
            }
            let ghost before = out@;
            insert_guest(&mut out, rg);
            proof {
                assert(guest_listed(b, i as int));
                assert forall|x: GuestView| #[trigger] guest_views(out@).contains(x) <==> exists|k: int| 0 <= k < i + 1 && guest_listed(b, k) && x == configured_view(gs[k].0@, gs[k].1) by {
                    if x == guest_view(rg) {
                        assert(x == configured_view(gs[i as int].0@, gs[i as int].1));
                    }
                    if exists|k: int| 0 <= k < i + 1 && guest_listed(b, k) && x == configured_view(gs[k].0@, gs[k].1) {
                        let k = choose|k: int| 0 <= k < i + 1 && guest_listed(b, k) && x == configured_view(gs[k].0@, gs[k].1);
                        if k == i {
                            assert(x == guest_view(rg));
                        }
                    }
                }
                assert forall|a: int| 0 <= a < out@.len() implies exists|k: int| 0 <= k < i + 1 && (#[trigger] out@[a]).name@ == gs[k].0@ by {
                    if out@[a].name@ != rg.name@ {
                        let j = choose|j: int| 0 <= j < before.len() && before[j].name@ == out@[a].name@;
                        let k = choose|k: int| 0 <= k < i && (#[trigger] before[j]).name@ == gs[k].0@;
                    }
                }
            }
        } else {
            proof {
                assert forall|x: GuestView| #[trigger] guest_views(out@).contains(x) <==> exists|k: int| 0 <= k < i + 1 && guest_listed(b, k) && x == configured_view(gs[k].0@, gs[k].1) by {
                    if exists|k: int| 0 <= k < i + 1 && guest_listed(b, k) && x == configured_view(gs[k].0@, gs[k].1) {
                        let k = choose|k: int| 0 <= k < i + 1 && guest_listed(b, k) && x == configured_view(gs[k].0@, gs[k].1);
                        assert(k != i);
                    }
                }
            }
        }
        i = i + 1;
    }
    Ok(ResolvedGuestPlan { location: owned(b.location.name.as_str()), guests: out })
}

/// Whether guest `i` resolves, given that its segment is known where it is
/// looked up.
fn guest_resolves(b: &ConfigBundle, i: usize) -> (r: bool)
    requires
        b.wf(),
        i < b.guests.guests@.len(),
        guest_segment_looked_up(b, b.guests.guests@[i as int]) ==> guest_segment_known(b, b.guests.guests@[i as int]),
    ensures
        r == (guest_step(b, b.guests.guests@[i as int]) is Some),
{
    let g = &b.guests.guests[i].1;
    let pi = match find(&b.inventory.hosts, g.host.as_str()) {
        None => {
            return false;
        },
        Some(pi) => pi,
    };
    if !b.inventory.hosts[pi].1.enabled {
        return true;
    }
    let li = match find(&b.location.hosts, g.host.as_str()) {
        None => {
            return false;
        },
        Some(li) => li,
    };
    assert(unique_keys(b.location.hosts@[li as int].1.interfaces@));
    let ii = match find(&b.location.hosts[li].1.interfaces, g.interface.as_str()) {
        None => {
            return false;
        },
        Some(ii) => ii,
    };
    let si = match find(&b.location.segments, b.location.hosts[li].1.interfaces[ii].1.segment.as_str()) {
        None => {
            return false;
        },
        Some(si) => si,
    };
    ipv4_contains(b.location.segments[si].1.ipv4_cidr, g.ipv4)
}

/// Whether `resolve_guest_plan` can run on `b`: `b` has its shape, and the
/// resolution, run up to its first refusal, looks up no unknown segment.
pub fn guest_plan_inputs_ok(b: &ConfigBundle) -> (r: bool)
    ensures
        r == guest_plan_requires(b),
{
    if !b.shape_ok() {
        return false;
    }
    let ghost gs = b.guests.guests@;
    let n = b.guests.guests.len();
    let mut i: usize = 0;
    while i < n
        invariant
            b.wf(),
            gs == b.guests.guests@,
            n == gs.len(),
            i <= gs.len(),
            forall|k: int| 0 <= k < i ==> guest_step(b, #[trigger] gs[k]) is Some && (guest_segment_looked_up(b, gs[k]) ==> guest_segment_known(b, gs[k])),
        decreases gs.len() - i,
    {
        let g = &b.guests.guests[i].1;
        let ok = match find(&b.location.hosts, g.host.as_str()) {
            None => true,
            Some(h) => {
                let ifs = &b.location.hosts[h].1.interfaces;
                assert(unique_keys(b.location.hosts@[h as int].1.interfaces@));
                match find(ifs, g.interface.as_str()) {
                    None => true,
                    Some(j) => contains_key(&b.location.segments, ifs[j].1.segment.as_str()),
                }
            },
        };
        let looked_up = match find(&b.inventory.hosts, g.host.as_str()) {
            None => false,
            Some(pi) => b.inventory.hosts[pi].1.enabled,
        };
        if !ok && looked_up {
            proof {
                assert(guest_segment_looked_up(b, gs[i as int]));
                assert forall|j: int| 0 <= j < i implies guest_step(b, #[trigger] gs[j]) is Some by {
                    assert(guest_step(b, gs[j]) is Some);
                }
            }
            return false;
        }
        if !guest_resolves(b, i) {
            proof {
                assert forall|i2: int| 0 <= i2 < gs.len() implies ((forall|j: int| 0 <= j < i2 ==> guest_step(b, #[trigger] gs[j]) is Some) ==> (guest_segment_looked_up(b, #[trigger] gs[i2]) ==> guest_segment_known(b, gs[i2]))) by {
                    if i2 > i && (forall|j: int| 0 <= j < i2 ==> guest_step(b, #[trigger] gs[j]) is Some) {
                        assert(guest_step(b, gs[i as int]) is Some);
                    }
                }
            }
            return true;
        }
        i = i + 1;
    }
    true
}

} // verus!
