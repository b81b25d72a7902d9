//! The environment variables a host's services are started with.

use vstd::prelude::*;

use crate::model::{ConfigBundle, LocationInterface, LogicalNetwork, Service, TailscaleRouterSettings};
use crate::net::{
    ipv4_cidr_display, ipv4_cidr_text, ipv4_display, ipv4_text, ipv6_cidr_display, ipv6_cidr_text,
    ipv6_display, ipv6_network, ipv6_text, v6_network,
};
use crate::ordered::{insert_sorted, sorted_keys, table_map};
use crate::paths::{join, join_path, NetweftPaths};
use crate::plan::address::{
    host_ula, host_ula_of, host_ula_refusal, network_ula, network_ula_of, network_ula_refusal, service_ula, service_ula_of,
    service_ula_refusal,
};
use crate::plan::PlanError;
use crate::table::{
    contains_key, find, first_none, has_key, lemma_opt_concat_none, lemma_opt_concat_step, lookup, opt_concat, texts, unique_keys,
};
use crate::text::{
    chars_of, concat, slice_chars, string_from_chars, is_ascii_alnum, is_ascii_alnum_exec, owned, push_char, str_eq, upper_char,
    upper_char_exec,
};

verus! {

/// One variable: name and value.
pub type EnvEntry = (Seq<char>, Seq<char>);

/// The environment of one host at the location, in name order.
#[derive(Debug)]
pub struct ResolvedEnvPlan {
    pub location: String,
    pub host: String,
    pub variables: Vec<(String, String)>,
}

/// ASCII letters upper-cased, digits kept, everything else `_`.
pub open spec fn env_char(c: char) -> char {
    if is_ascii_alnum(c) {
        upper_char(c)
    } else {
        '_'
    }
}

/// A name turned into an environment variable name.
pub open spec fn env_key_of(s: Seq<char>) -> Seq<char> {
    s.map_values(|c: char| env_char(c))
}

/// The variables set by a list of assignments, later ones winning.
pub open spec fn entries_map(s: Seq<EnvEntry>) -> Map<Seq<char>, Seq<char>>
    decreases s.len(),
{
    if s.len() == 0 {
        Map::empty()
    } else {
        entries_map(s.drop_last()).insert(s.last().0, s.last().1)
    }
}

/// The variables of one location interface of a host: its IPv4 and ULA
/// address, and for the `lan` interface also the host's LAN ones.
pub open spec fn interface_step(b: &ConfigBundle, host: Seq<char>, hk: Seq<char>, e: (String, LocationInterface)) -> Option<Seq<EnvEntry>> {
    let n = e.0@;
    let i = e.1;
    let key = hk + "_"@ + env_key_of(n);
    let lan = n == "lan"@;
    let e4 = match i.ipv4 {
        Some(a) => seq![(key + "_IPV4"@, ipv4_display(a))] + if lan {
            seq![(hk + "_LAN_IPV4"@, ipv4_display(a))]
        } else {
            Seq::empty()
        },
        None => Seq::empty(),
    };
    if i.ula_interface_id is Some {
        match host_ula_of(b, host, n) {
            None => None,
            Some(a) => Some(e4 + seq![(key + "_IPV6"@, ipv6_display(a))] + if lan {
                seq![(hk + "_LAN_IPV6"@, ipv6_display(a))]
            } else {
                Seq::empty()
            }),
        }
    } else {
        Some(e4)
    }
}

/// The variables of one network, when `host` owns it: IPv4 subnet and
/// gateway, and the ULA subnet with its first address as gateway.
pub open spec fn network_step(b: &ConfigBundle, host: Seq<char>, e: (String, LogicalNetwork)) -> Option<Seq<EnvEntry>> {
    let name = e.0@;
    let n = e.1;
    if !(n.owner matches Some(o) && o@ == host) {
        Some(Seq::empty())
    } else {
        let key = env_key_of(match n.docker_name {
            Some(d) => d@,
            None => name,
        });
        let c4 = match n.ipv4_cidr {
            Some(c) => seq![(key + "_IPV4_SUBNET"@, ipv4_cidr_display(c))],
            None => Seq::empty(),
        };
        let g4 = match n.ipv4_gateway {
            Some(g) => seq![(key + "_IPV4_GATEWAY"@, ipv4_display(g))],
            None => Seq::empty(),
        };
        if n.ula_enabled {
            match network_ula_of(b, name) {
                None => None,
                Some(sub) => Some(c4 + g4 + seq![
                    (key + "_IPV6_SUBNET"@, ipv6_cidr_display(sub)),
                    (key + "_IPV6_GATEWAY"@, ipv6_display((v6_network(sub) + 1) as u128)),
                ]),
            }
        } else {
            Some(c4 + g4)
        }
    }
}

/// The variables of one service, when it is enabled on `host`: its IPv4
/// and ULA address.
pub open spec fn service_step(b: &ConfigBundle, host: Seq<char>, e: (String, Service)) -> Option<Seq<EnvEntry>> {
    let s = e.1;
    if !(s.enabled && s.host@ == host) {
        Some(Seq::empty())
    } else {
        let key = env_key_of(e.0@);
        let a4 = match s.address {
            Some(a) => match a.ipv4 {
                Some(v) => seq![(key + "_IPV4"@, ipv4_display(v))],
                None => Seq::empty(),
            },
            None => Seq::empty(),
        };
        if s.address matches Some(a) && a.ipv6_interface_id is Some {
            match service_ula_of(b, s) {
                None => None,
                Some(u) => Some(a4 + seq![(key + "_IPV6"@, ipv6_display(u))]),
            }
        } else {
            Some(a4)
        }
    }
}

/// `s` begins with `p`.
pub open spec fn has_prefix(s: Seq<char>, p: Seq<char>) -> bool {
    s.len() >= p.len() && s.take(p.len() as int) == p
}

/// The `/128` route of a host's ULA address on one interface, when the
/// interface is on segment `seg` and has a ULA interface ID.
pub open spec fn segment_route_step(b: &ConfigBundle, host: Seq<char>, seg: Seq<char>, e: (String, LocationInterface)) -> Option<Seq<Seq<char>>> {
    if e.1.segment@ == seg && e.1.ula_interface_id is Some {
        match host_ula_of(b, host, e.0@) {
            None => None,
            Some(a) => Some(seq![ipv6_display(a) + "/128"@]),
        }
    } else {
        Some(Seq::empty())
    }
}

/// The routes of one advertised entry: for `segment:NAME`, the segment's
/// IPv4 range and the host's ULA addresses on it; for `network:NAME`, the
/// network's IPv4 range and ULA subnet; nothing for anything else.
pub open spec fn route_step(b: &ConfigBundle, host: Seq<char>, ifs: Seq<(String, LocationInterface)>, adv: String) -> Option<Seq<Seq<char>>> {
    let a = adv@;
    if has_prefix(a, "segment:"@) {
        let seg = a.skip(8);
        match opt_concat(ifs, |e: (String, LocationInterface)| segment_route_step(b, host, seg, e)) {
            None => None,
            Some(h) => Some(seq![ipv4_cidr_display(lookup(b.location.segments@, seg)->0.ipv4_cidr)] + h),
        }
    } else if has_prefix(a, "network:"@) {
        let net = a.skip(8);
        let n = lookup(b.networks.networks@, net)->0;
        let c = match n.ipv4_cidr {
            Some(c) => seq![ipv4_cidr_display(c)],
            None => Seq::empty(),
        };
        if n.ula_enabled {
            match network_ula_of(b, net) {
                None => None,
                Some(sub) => Some(c + seq![ipv6_cidr_display(sub)]),
            }
        } else {
            Some(c)
        }
    } else {
        Some(Seq::empty())
    }
}

/// Why advertised entry `adv` of a router on `host` is refused: for a
/// segment, the host's first ULA address on it that is refused; for a
/// network, its ULA subnet.
pub open spec fn route_refusal(b: &ConfigBundle, host: Seq<char>, ifs: Seq<(String, LocationInterface)>, adv: String, err: PlanError) -> bool {
    let a = adv@;
    if has_prefix(a, "segment:"@) {
        exists|k: int| #![trigger ifs[k]] first_none(ifs, |e: (String, LocationInterface)| segment_route_step(b, host, a.skip(8), e), k)
            && host_ula_refusal(b, host, ifs[k].0@, err)
    } else {
        network_ula_refusal(b, a.skip(8), err)
    }
}

/// Texts joined with `,`.
pub open spec fn join_comma(rs: Seq<Seq<char>>) -> Seq<char>
    decreases rs.len(),
{
    if rs.len() == 0 {
        Seq::empty()
    } else if rs.len() == 1 {
        rs[0]
    } else {
        join_comma(rs.drop_last()) + ","@ + rs.last()
    }
}

/// The assignments that make up the environment of `host`, in order; `None`
/// where the host is unknown or not attached, or an address it needs cannot
/// be derived.
pub open spec fn env_entries(b: &ConfigBundle, paths: &NetweftPaths, host: Seq<char>) -> Option<Seq<EnvEntry>> {
    match (lookup(b.inventory.hosts@, host), lookup(b.location.hosts@, host)) {
        (Some(ih), Some(lh)) => {
            let loc = b.location.name@;
            let root = join_path(paths.generated_dir@, loc);
            let hk = env_key_of(host);
            let base = seq![
                ("NETWEFT_LOCATION"@, loc),
                ("NETWEFT_GENERATED_ROOT"@, root),
                ("NETWEFT_BIND_CONFIG_DIR"@, join_path(root, "bind"@)),
            ] + match ih.runtime_root {
                Some(rr) => seq![(hk + "_RUNTIME"@, rr@), ("TAILSCALE_STATE_DIR"@, rr@ + "/tailscale/state"@)],
                None => Seq::empty(),
            } + seq![("TAILSCALE_HOSTNAME"@, host)];
            match (
                opt_concat(lh.interfaces@, |e: (String, LocationInterface)| interface_step(b, host, hk, e)),
                opt_concat(b.networks.networks@, |e: (String, LogicalNetwork)| network_step(b, host, e)),
                opt_concat(b.services.services@, |e: (String, Service)| service_step(b, host, e)),
            ) {
                (Some(i), Some(n), Some(s)) => {
                    let e = base + i + n + s;
                    match lookup(b.location.tailscale.routers@, host) {
                        None => Some(e),
                        Some(r) => match opt_concat(r.advertise@, |a: String| route_step(b, host, lh.interfaces@, a)) {
                            None => None,
                            Some(rs) => Some(e.push(("TS_ADVERTISE_ROUTES"@, join_comma(rs)))),
                        },
                    }
                },
                _ => None,
            }
        },
        _ => None,
    }
}

/// A name-ordered list of variables holds exactly the variables the
/// assignments set.
pub open spec fn vars_match(vars: Seq<(String, String)>, es: Seq<EnvEntry>) -> bool {
    &&& sorted_keys(vars)
    &&& table_map(vars).dom() == entries_map(es).dom()
    &&& forall|k: Seq<char>| #[trigger] table_map(vars).dom().contains(k) ==> table_map(vars)[k]@ == entries_map(es)[k]
}

/// The segment or network that advertised entry `a` names is present.
pub open spec fn advertised_target_present(b: &ConfigBundle, a: Seq<char>) -> bool {
    &&& has_prefix(a, "segment:"@) ==> has_key(b.location.segments@, a.skip(8))
    &&& (!has_prefix(a, "segment:"@) && has_prefix(a, "network:"@)) ==> has_key(b.networks.networks@, a.skip(8))
}

/// The environment of `host` reaches its advertised routes: the host is
/// known and attached, and the variables of its interfaces, of the networks
/// and of the services resolve.
pub open spec fn env_routes_reached(b: &ConfigBundle, host: Seq<char>) -> bool {
    match (lookup(b.inventory.hosts@, host), lookup(b.location.hosts@, host)) {
        (Some(ih), Some(lh)) => {
            let hk = env_key_of(host);
            &&& opt_concat(lh.interfaces@, |e: (String, LocationInterface)| interface_step(b, host, hk, e)) is Some
            &&& opt_concat(b.networks.networks@, |e: (String, LogicalNetwork)| network_step(b, host, e)) is Some
            &&& opt_concat(b.services.services@, |e: (String, Service)| service_step(b, host, e)) is Some
        },
        _ => false,
    }
}

/// What `resolve_env_plan` needs of a bundle: its shape, and, once the
/// resolution reaches the routes `host` advertises over Tailscale, the
/// segment or network each advertised entry names is present when every
/// entry before it resolved.
pub open spec fn env_plan_requires(b: &ConfigBundle, host: Seq<char>) -> bool {
    &&& b.wf()
    &&& env_routes_reached(b, host) ==> (lookup(b.location.tailscale.routers@, host) matches Some(r) ==> forall|i: int| 0 <= i < r.advertise@.len() ==> (
        (forall|j: int| 0 <= j < i ==> route_step(b, host, lookup(b.location.hosts@, host)->0.interfaces@, #[trigger] r.advertise@[j]) is Some)
            ==> advertised_target_present(b, (#[trigger] r.advertise@[i])@)))
}

/// A name turned into an environment variable name: ASCII letters
/// upper-cased, digits kept, everything else `_`.
pub fn env_key(value: &str) -> (r: String)
    ensures
        r@ == env_key_of(value@),
{
    let chars = chars_of(value);
    let mut out = String::new();
    let mut i: usize = 0;
    while i < chars.len()
        invariant
            i <= chars@.len(),
            chars@ == value@,
            out@ == env_key_of(value@).take(i as int),
        decreases chars@.len() - i,
    {
        let c = chars[i];
        let d = if is_ascii_alnum_exec(c) { upper_char_exec(c) } else { '_' };
        push_char(&mut out, d);
        i = i + 1;
        assert(out@ =~= env_key_of(value@).take(i as int));
    }
    assert(env_key_of(value@).take(chars@.len() as int) =~= env_key_of(value@));
    out
}

pub open spec fn pair_texts(v: Seq<(String, String)>) -> Seq<EnvEntry> {
    v.map_values(|p: (String, String)| (p.0@, p.1@))
}

/// Sets one variable.
fn put(vars: &mut Vec<(String, String)>, k: String, v: String, Ghost(es): Ghost<Seq<EnvEntry>>)
    requires
        vars_match(old(vars)@, es),
    ensures
        vars_match(final(vars)@, es.push((k@, v@))),
{
    let ghost kv = (k@, v@);
    let ghost vs = v;
    insert_sorted(vars, k, v);
    proof {
        let n = es.push(kv);
        assert(n.drop_last() =~= es);
        assert(entries_map(n) == entries_map(es).insert(kv.0, kv.1));
        assert(table_map(vars@).dom() =~= entries_map(n).dom());
    }
}

/// Sets several variables in order.
fn put_all(vars: &mut Vec<(String, String)>, t: Vec<(String, String)>, Ghost(es): Ghost<Seq<EnvEntry>>)
    requires
        vars_match(old(vars)@, es),
    ensures
        vars_match(final(vars)@, es + pair_texts(t@)),
{
    let ghost all = pair_texts(t@);
    let mut t = t;
    let ghost mut done: Seq<EnvEntry> = Seq::empty();
    assert(all.skip(0) =~= all);
    while t.len() > 0
        invariant
            vars_match(vars@, es + done),
            pair_texts(t@) == all.skip(done.len() as int),
            done == all.take(done.len() as int),
            done.len() <= all.len(),
        decreases t@.len(),
    {
        let ghost before = t@;
        let ghost d0 = done.len() as int;
        let x = t.remove(0);
        assert(t@ == before.remove(0));
        let ghost kv = (x.0@, x.1@);
        proof {
            assert(pair_texts(before).len() == before.len());
            assert(pair_texts(before)[0] == kv);
            assert(all.skip(done.len() as int).len() > 0);
            assert(all.skip(done.len() as int)[0] == all[done.len() as int]);
            assert(kv == all[done.len() as int]);
        }
        put(vars, x.0, x.1, Ghost(es + done));
        proof {
            assert((es + done).push(kv) =~= es + done.push(kv));
            done = done.push(kv);
            assert(done =~= all.take(done.len() as int));
            assert forall|j: int| 0 <= j < t@.len() implies pair_texts(t@)[j] == all.skip(done.len() as int)[j] by {
                assert(t@[j] == before[j + 1]);
                assert(pair_texts(before)[j + 1] == all.skip(d0)[j + 1]);
            }
            assert(pair_texts(t@) =~= all.skip(done.len() as int));
        }
    }
    assert(done =~= all);
}

fn entry(k: String, v: String) -> (r: (String, String))
    ensures
        r.0@ == k@,
        r.1@ == v@,
{
    (k, v)
}

/// The variables of one location interface of a host.
fn interface_vars(b: &ConfigBundle, host: &str, hk: &str, e: &(String, LocationInterface)) -> (r: Result<Vec<(String, String)>, PlanError>)
    requires
        b.wf(),
    ensures
        r is Ok <==> interface_step(b, host@, hk@, *e) is Some,
        r matches Ok(v) ==> interface_step(b, host@, hk@, *e) == Some(pair_texts(v@)),
        r matches Err(err) ==> host_ula_refusal(b, host@, e.0@, err),
{
    let name = e.0.as_str();
    let i = &e.1;
    let key = concat(hk, "_");
    let key = concat(key.as_str(), env_key(name).as_str());
    let lan = str_eq(name, "lan");
    let mut out: Vec<(String, String)> = Vec::new();
    match i.ipv4 {
        Some(a) => {
            out.push(entry(concat(key.as_str(), "_IPV4"), ipv4_text(a)));
            if lan {
                out.push(entry(concat(hk, "_LAN_IPV4"), ipv4_text(a)));
            }
        },
        None => {},
    }
    let ghost e4 = pair_texts(out@);
    match &i.ula_interface_id {
        Some(_) => {
            let a = host_ula(b, host, name)?;
            out.push(entry(concat(key.as_str(), "_IPV6"), ipv6_text(a)));
            if lan {
                out.push(entry(concat(hk, "_LAN_IPV6"), ipv6_text(a)));
            }
        },
        None => {},
    }
    proof {
        let want = interface_step(b, host@, hk@, *e)->0;
        assert(pair_texts(out@) =~= want);
    }
    Ok(out)
}

/// The variables of one network, when `host` owns it.
fn network_vars(b: &ConfigBundle, host: &str, e: &(String, LogicalNetwork)) -> (r: Result<Vec<(String, String)>, PlanError>)
    requires
        b.wf(),
        e.1.ipv4_cidr matches Some(c) ==> c.wf(),
    ensures
        r is Ok <==> network_step(b, host@, *e) is Some,
        r matches Ok(v) ==> network_step(b, host@, *e) == Some(pair_texts(v@)),
        r matches Err(err) ==> network_ula_refusal(b, e.0@, err),
{
    let n = &e.1;
    let owned_here = match &n.owner {
        Some(o) => str_eq(o.as_str(), host),
        None => false,
    };
    let mut out: Vec<(String, String)> = Vec::new();
    if !owned_here {
        assert(pair_texts(out@) =~= Seq::<EnvEntry>::empty());
        return Ok(out);
    }
    let key = match &n.docker_name {
        Some(d) => env_key(d.as_str()),
        None => env_key(e.0.as_str()),
    };
    match n.ipv4_cidr {
        Some(c) => {
            out.push(entry(concat(key.as_str(), "_IPV4_SUBNET"), ipv4_cidr_text(c)));
        },
        None => {},
    }
    match n.ipv4_gateway {
        Some(g) => {
            out.push(entry(concat(key.as_str(), "_IPV4_GATEWAY"), ipv4_text(g)));
        },
        None => {},
    }
    if n.ula_enabled {
        let sub = network_ula(b, e.0.as_str())?;
        out.push(entry(concat(key.as_str(), "_IPV6_SUBNET"), ipv6_cidr_text(sub)));
        let net = ipv6_network(sub);
        assert(sub.prefix_len == 64);
        assert(net == sub.addr & ((0xffff_ffff_ffff_ffff_ffff_ffff_ffff_ffffu128 << 64u128) as u128));
        let addr = sub.addr;
        assert((addr & ((0xffff_ffff_ffff_ffff_ffff_ffff_ffff_ffffu128 << 64u128) as u128)) < 0xffff_ffff_ffff_ffff_ffff_ffff_ffff_ffffu128) by (bit_vector);
        out.push(entry(concat(key.as_str(), "_IPV6_GATEWAY"), ipv6_text(net + 1)));
    }
    proof {
        let want = network_step(b, host@, *e)->0;
        assert(pair_texts(out@) =~= want);
    }
    Ok(out)
}

/// The variables of one service, when it is enabled on `host`.
fn service_vars(b: &ConfigBundle, host: &str, e: &(String, Service)) -> (r: Result<Vec<(String, String)>, PlanError>)
    requires
        b.wf(),
    ensures
        r is Ok <==> service_step(b, host@, *e) is Some,
        r matches Ok(v) ==> service_step(b, host@, *e) == Some(pair_texts(v@)),
        r matches Err(err) ==> service_ula_refusal(b, e.1, err),
{
    let s = &e.1;
    let mut out: Vec<(String, String)> = Vec::new();
    if !(s.enabled && str_eq(s.host.as_str(), host)) {
        assert(pair_texts(out@) =~= Seq::<EnvEntry>::empty());
        return Ok(out);
    }
    let key = env_key(e.0.as_str());
    let has_iid = match &s.address {
        Some(a) => {
            match a.ipv4 {
                Some(v) => {
                    out.push(entry(concat(key.as_str(), "_IPV4"), ipv4_text(v)));
                },
                None => {},
            }
            a.ipv6_interface_id.is_some()
        },
        None => false,
    };
    if has_iid {
        let u = service_ula(b, s)?;
        out.push(entry(concat(key.as_str(), "_IPV6"), ipv6_text(u)));
    }
    proof {
        let want = service_step(b, host@, *e)->0;
        assert(pair_texts(out@) =~= want);
    }
    Ok(out)
}

/// `s` without its prefix `p`, if it begins with it.
pub fn strip_prefix_text(s: &str, p: &str) -> (r: Option<String>)
    ensures
        r is Some <==> has_prefix(s@, p@),
        r matches Some(t) ==> t@ == s@.skip(p@.len() as int),
{
    let sc = chars_of(s);
    let pc = chars_of(p);
    if sc.len() < pc.len() {
        return None;
    }
    let mut i: usize = 0;
    while i < pc.len()
        invariant
            sc@ == s@,
            pc@ == p@,
            pc@.len() <= sc@.len(),
            i <= pc@.len(),
            forall|j: int| 0 <= j < i ==> sc@[j] == pc@[j],
        decreases pc@.len() - i,
    {
        if sc[i] != pc[i] {
            proof {
                if has_prefix(s@, p@) {
                    assert(s@.take(p@.len() as int)[i as int] == p@[i as int]);
                }
            }
            return None;
        }
        i = i + 1;
    }
    assert(s@.take(p@.len() as int) =~= p@);
    let rest = slice_chars(&sc, pc.len(), sc.len());
    let t = string_from_chars(rest.as_slice());
    assert(t@ =~= s@.skip(p@.len() as int));
    Some(t)
}

/// The `/128` routes of a host's ULA addresses on segment `seg`.
fn segment_routes(b: &ConfigBundle, host: &str, seg: &str, ifs: &Vec<(String, LocationInterface)>) -> (r: Result<Vec<String>, PlanError>)
    requires
        b.wf(),
    ensures
        r is Ok <==> opt_concat(ifs@, |e: (String, LocationInterface)| segment_route_step(b, host@, seg@, e)) is Some,
        r matches Ok(v) ==> opt_concat(ifs@, |e: (String, LocationInterface)| segment_route_step(b, host@, seg@, e)) == Some(texts(v@)),
        r matches Err(err) ==> exists|k: int| #![trigger ifs@[k]] first_none(ifs@, |e: (String, LocationInterface)| segment_route_step(b, host@, seg@, e), k)
            && host_ula_refusal(b, host@, ifs@[k].0@, err),
{
    let ghost f = |e: (String, LocationInterface)| segment_route_step(b, host@, seg@, e);
    let mut out: Vec<String> = Vec::new();
    let mut i: usize = 0;
    assert(ifs@.take(0) =~= Seq::<(String, LocationInterface)>::empty());
    while i < ifs.len()
        invariant
            b.wf(),
            i <= ifs@.len(),
            f == (|e: (String, LocationInterface)| segment_route_step(b, host@, seg@, e)),
            opt_concat(ifs@.take(i as int), f) == Some(texts(out@)),
        decreases ifs@.len() - i,
    {
        proof {
            lemma_opt_concat_step(ifs@, f, i as int);
        }
        let e = &ifs[i];
        let ghost before = texts(out@);
        if str_eq(e.1.segment.as_str(), seg) && e.1.ula_interface_id.is_some() {
            let a = match host_ula(b, host, e.0.as_str()) {
                Ok(a) => a,
                Err(err) => {
                    proof {
                        lemma_opt_concat_none(ifs@, f, i as int);
                        assert(first_none(ifs@, f, i as int));
                    }
                    return Err(err);
                },
            };
            let t = concat(ipv6_text(a).as_str(), "/128");
            out.push(t);
            assert(texts(out@) =~= before + seq![ipv6_display(a) + "/128"@]);
        } else {
            assert(texts(out@) =~= before + Seq::<Seq<char>>::empty());
        }
        i = i + 1;
    }
    assert(ifs@.take(ifs@.len() as int) =~= ifs@);
    Ok(out)
}

/// The routes a Tailscale router on `host` advertises.
#[verifier::spinoff_prover]
#[verifier::rlimit(40)]
fn advertised_routes(b: &ConfigBundle, host: &str, ifs: &Vec<(String, LocationInterface)>, adv: &Vec<String>) -> (r: Result<Vec<String>, PlanError>)
    requires
        b.wf(),
        forall|i: int| 0 <= i < adv@.len() ==> (
            (forall|j: int| 0 <= j < i ==> route_step(b, host@, ifs@, #[trigger] adv@[j]) is Some)
                ==> advertised_target_present(b, (#[trigger] adv@[i])@)),
    ensures
        r is Ok <==> opt_concat(adv@, |a: String| route_step(b, host@, ifs@, a)) is Some,
        r matches Ok(v) ==> opt_concat(adv@, |a: String| route_step(b, host@, ifs@, a)) == Some(texts(v@)),
        r matches Err(err) ==> exists|k: int| #![trigger adv@[k]] first_none(adv@, |a: String| route_step(b, host@, ifs@, a), k)
            && route_refusal(b, host@, ifs@, adv@[k], err),
{
    proof {
        reveal_strlit("segment:");
        reveal_strlit("network:");
    }
    let ghost f = |a: String| route_step(b, host@, ifs@, a);
    let mut out: Vec<String> = Vec::new();
    let mut i: usize = 0;
    assert(adv@.take(0) =~= Seq::<String>::empty());
    while i < adv.len()
        invariant
            b.wf(),
            "segment:"@.len() == 8,
            "network:"@.len() == 8,
            forall|i: int| 0 <= i < adv@.len() ==> (
                (forall|j: int| 0 <= j < i ==> route_step(b, host@, ifs@, #[trigger] adv@[j]) is Some)
                    ==> advertised_target_present(b, (#[trigger] adv@[i])@)),
            i <= adv@.len(),
            forall|j: int| 0 <= j < i ==> route_step(b, host@, ifs@, #[trigger] adv@[j]) is Some,
            f == (|a: String| route_step(b, host@, ifs@, a)),
            opt_concat(adv@.take(i as int), f) == Some(texts(out@)),
        decreases adv@.len() - i,
    {
        proof {
            lemma_opt_concat_step(adv@, f, i as int);
        }
        let a = adv[i].as_str();
        assert(advertised_target_present(b, adv@[i as int]@));
        let ghost before = texts(out@);
        match strip_prefix_text(a, "segment:") {
            Some(seg) => {
                let si = match find(&b.location.segments, seg.as_str()) {
                    Some(si) => si,
                    None => {
                        return Err(PlanError::NoUlaForSegment { segment: seg });
                    },
                };
                let cidr = ipv4_cidr_text(b.location.segments[si].1.ipv4_cidr);
                let mut hr = match segment_routes(b, host, seg.as_str(), ifs) {
                    Ok(hr) => hr,
                    Err(err) => {
                        proof {
                            lemma_opt_concat_none(adv@, f, i as int);
                            assert(first_none(adv@, f, i as int));
                        }
                        return Err(err);
                    },
                };
                let ghost hv = texts(hr@);
                out.push(cidr);
                out.append(&mut hr);
                assert(texts(out@) =~= before + (seq![ipv4_cidr_display(lookup(b.location.segments@, seg@)->0.ipv4_cidr)] + hv));
            },
            None => match strip_prefix_text(a, "network:") {
                Some(net) => {
                    let ni = match find(&b.networks.networks, net.as_str()) {
                        Some(ni) => ni,
                        None => {
                            return Err(PlanError::NoUlaForNetwork { network: net });
                        },
                    };
                    let n = &b.networks.networks[ni].1;
                    match n.ipv4_cidr {
                        Some(c) => {
                            out.push(ipv4_cidr_text(c));
                        },
                        None => {},
                    }
                    if n.ula_enabled {
                        let sub = match network_ula(b, net.as_str()) {
                            Ok(sub) => sub,
                            Err(err) => {
                                proof {
                                    lemma_opt_concat_none(adv@, f, i as int);
                                    assert(first_none(adv@, f, i as int));
                                }
                                return Err(err);
                            },
                        };
                        out.push(ipv6_cidr_text(sub));
                    }
                    proof {
                        let want = route_step(b, host@, ifs@, adv@[i as int])->0;
                        assert(texts(out@) =~= before + want);
                    }
                },
                None => {
                    assert(texts(out@) =~= before + Seq::<Seq<char>>::empty());
                },
            },
        }
        assert(route_step(b, host@, ifs@, adv@[i as int]) is Some);
        i = i + 1;
    }
    assert(adv@.take(adv@.len() as int) =~= adv@);
    Ok(out)
}

/// Texts joined with `,`.
fn join_routes(rs: &Vec<String>) -> (r: String)
    ensures
        r@ == join_comma(texts(rs@)),
{
    let mut out = String::new();
    let mut i: usize = 0;
    while i < rs.len()
        invariant
            i <= rs@.len(),
            out@ == join_comma(texts(rs@).take(i as int)),
        decreases rs@.len() - i,
    {
        let ghost t = texts(rs@).take(i + 1);
        assert(t.drop_last() =~= texts(rs@).take(i as int));
        if i > 0 {
            out = concat(out.as_str(), ",");
        } else {
            assert(texts(rs@).take(0) =~= Seq::<Seq<char>>::empty());
        }
        out = concat(out.as_str(), rs[i].as_str());
        proof {
            if i == 0 {
                assert(out@ =~= t[0]);
            }
        }
        i = i + 1;
    }
    assert(texts(rs@).take(rs@.len() as int) =~= texts(rs@));
    out
}

/// Why the environment of `host` is refused, checked in this order: the
/// host is unknown or not attached; then the first address refused among
/// its interfaces, the networks it owns, the services it runs and the
/// routes it advertises.
pub open spec fn env_refusal(b: &ConfigBundle, host: Seq<char>, err: PlanError) -> bool {
    let hk = env_key_of(host);
    match (lookup(b.inventory.hosts@, host), lookup(b.location.hosts@, host)) {
        (None, _) => err matches PlanError::UnknownHost { host: h } && h@ == host,
        (_, None) => err matches PlanError::HostNotAttached { host: h, location } && h@ == host && location@ == b.location.name@,
        (Some(ih), Some(lh)) => if opt_concat(lh.interfaces@, |e: (String, LocationInterface)| interface_step(b, host, hk, e)) is None {
            exists|k: int| #![trigger lh.interfaces@[k]] first_none(lh.interfaces@, |e: (String, LocationInterface)| interface_step(b, host, hk, e), k)
                && host_ula_refusal(b, host, lh.interfaces@[k].0@, err)
        } else if opt_concat(b.networks.networks@, |e: (String, LogicalNetwork)| network_step(b, host, e)) is None {
            exists|k: int| #![trigger b.networks.networks@[k]] first_none(b.networks.networks@, |e: (String, LogicalNetwork)| network_step(b, host, e), k)
                && network_ula_refusal(b, b.networks.networks@[k].0@, err)
        } else if opt_concat(b.services.services@, |e: (String, Service)| service_step(b, host, e)) is None {
            exists|k: int| #![trigger b.services.services@[k]] first_none(b.services.services@, |e: (String, Service)| service_step(b, host, e), k)
                && service_ula_refusal(b, b.services.services@[k].1, err)
        } else {
            let adv = lookup(b.location.tailscale.routers@, host)->0.advertise@;
            exists|k: int| #![trigger adv[k]] first_none(adv, |a: String| route_step(b, host, lh.interfaces@, a), k)
                && route_refusal(b, host, lh.interfaces@, adv[k], err)
        },
    }
}

/// Resolves the environment of `host` at the location: location and
/// generated paths, the host's runtime directory and addresses, the subnets
/// of the networks it owns, the addresses of the services it runs, and the
/// routes it advertises over Tailscale.
#[verifier::spinoff_prover]
#[verifier::rlimit(30)]
pub fn resolve_env_plan(b: &ConfigBundle, paths: &NetweftPaths, host: &str) -> (r: Result<ResolvedEnvPlan, PlanError>)
    requires
        env_plan_requires(b, host@),
    ensures
        r is Ok <==> env_entries(b, paths, host@) is Some,
        r matches Ok(p) ==> p.location@ == b.location.name@ && p.host@ == host@ && vars_match(
            p.variables@,
            env_entries(b, paths, host@)->0,
        ),
        !has_key(b.inventory.hosts@, host@) ==> (r matches Err(PlanError::UnknownHost { host: h }) && h@ == host@),
        has_key(b.inventory.hosts@, host@) && !has_key(b.location.hosts@, host@) ==> (r matches Err(PlanError::HostNotAttached { host: h, .. }) && h@ == host@),
        r matches Err(err) ==> env_refusal(b, host@, err),
{
    let hi = match find(&b.inventory.hosts, host) {
        None => {
            return Err(PlanError::UnknownHost { host: owned(host) });
        },
        Some(hi) => hi,
    };
    let li = match find(&b.location.hosts, host) {
        None => {
            return Err(PlanError::HostNotAttached { host: owned(host), location: owned(b.location.name.as_str()) });
        },
        Some(li) => li,
    };
    let ih = &b.inventory.hosts[hi].1;
    let lh = &b.location.hosts[li].1;
    assert(lookup(b.location.hosts@, host@) == Some(*lh));
    let mut vars: Vec<(String, String)> = Vec::new();
    let ghost mut es: Seq<EnvEntry> = Seq::empty();
    assert(table_map(vars@).dom() =~= entries_map(es).dom());
    let loc = b.location.name.as_str();
    let root = join(paths.generated_dir.as_str(), loc);
    let bind_dir = join(root.as_str(), "bind");
    let ghost kv = ("NETWEFT_LOCATION"@, loc@);
    put(&mut vars, owned("NETWEFT_LOCATION"), owned(loc), Ghost(es));
    proof { es = es.push(kv); }
    let ghost kv = ("NETWEFT_GENERATED_ROOT"@, root@);
    put(&mut vars, owned("NETWEFT_GENERATED_ROOT"), root, Ghost(es));
    proof { es = es.push(kv); }
    let ghost kv = ("NETWEFT_BIND_CONFIG_DIR"@, bind_dir@);
    put(&mut vars, owned("NETWEFT_BIND_CONFIG_DIR"), bind_dir, Ghost(es));
    proof { es = es.push(kv); }
    let hk = env_key(host);
    match &ih.runtime_root {
        Some(rr) => {
            let k = concat(hk.as_str(), "_RUNTIME");
            let ghost kv = (k@, rr@);
            put(&mut vars, k, owned(rr.as_str()), Ghost(es));
            proof { es = es.push(kv); }
            let v = concat(rr.as_str(), "/tailscale/state");
            let ghost kv = ("TAILSCALE_STATE_DIR"@, v@);
            put(&mut vars, owned("TAILSCALE_STATE_DIR"), v, Ghost(es));
            proof { es = es.push(kv); }
        },
        None => {},
    }
    let ghost kv = ("TAILSCALE_HOSTNAME"@, host@);
    put(&mut vars, owned("TAILSCALE_HOSTNAME"), owned(host), Ghost(es));
    proof { es = es.push(kv); }
    let ghost base = es;
    proof {
        let loc_s = b.location.name@;
        let root_s = join_path(paths.generated_dir@, loc_s);
        let hk_s = env_key_of(host@);
        let want = seq![
            ("NETWEFT_LOCATION"@, loc_s),
            ("NETWEFT_GENERATED_ROOT"@, root_s),
            ("NETWEFT_BIND_CONFIG_DIR"@, join_path(root_s, "bind"@)),
        ] + match &ih.runtime_root {
            Some(rr) => seq![(hk_s + "_RUNTIME"@, rr@), ("TAILSCALE_STATE_DIR"@, rr@ + "/tailscale/state"@)],
            None => Seq::empty(),
        } + seq![("TAILSCALE_HOSTNAME"@, host@)];
        assert(base =~= want);
    }

    // Location interfaces.
    let ghost fi = |e: (String, LocationInterface)| interface_step(b, host@, hk@, e);
    let ghost ifs = lh.interfaces@;
    let mut i: usize = 0;
    assert(ifs.take(0) =~= Seq::<(String, LocationInterface)>::empty());
    assert(es =~= base + Seq::<EnvEntry>::empty());
    while i < lh.interfaces.len()
        invariant
            has_key(b.inventory.hosts@, host@) && has_key(b.location.hosts@, host@),
            b.wf(),
            ifs == lh.interfaces@,
            lookup(b.location.hosts@, host@) == Some(*lh),
            lookup(b.inventory.hosts@, host@) is Some,
            hk@ == env_key_of(host@),
            i <= ifs.len(),
            fi == (|e: (String, LocationInterface)| interface_step(b, host@, hk@, e)),
            opt_concat(ifs.take(i as int), fi) matches Some(part) && es == base + part,
            vars_match(vars@, es),
        decreases ifs.len() - i,
    {
        proof {
            lemma_opt_concat_step(ifs, fi, i as int);
        }
        let t = match interface_vars(b, host, hk.as_str(), &lh.interfaces[i]) {
            Ok(t) => t,
            Err(err) => {
                proof {
                    lemma_opt_concat_none(ifs, fi, i as int);
                    assert(first_none(ifs, fi, i as int));
                }
                return Err(err);
            },
        };
        let ghost tv = pair_texts(t@);
        put_all(&mut vars, t, Ghost(es));
        proof {
            let part = opt_concat(ifs.take(i as int), fi)->0;
            assert(base + part + tv =~= base + (part + tv));
            es = es + tv;
        }
        i = i + 1;
    }
    assert(ifs.take(ifs.len() as int) =~= ifs);
    let ghost after_ifs = es;

    // Networks the host owns.
    let ghost fnw = |e: (String, LogicalNetwork)| network_step(b, host@, e);
    let ghost nets = b.networks.networks@;
    let mut i: usize = 0;
    assert(nets.take(0) =~= Seq::<(String, LogicalNetwork)>::empty());
    assert(es =~= after_ifs + Seq::<EnvEntry>::empty());
    while i < b.networks.networks.len()
        invariant
            has_key(b.inventory.hosts@, host@) && has_key(b.location.hosts@, host@),
            b.wf(),
            nets == b.networks.networks@,
            i <= nets.len(),
            fnw == (|e: (String, LogicalNetwork)| network_step(b, host@, e)),
            hk@ == env_key_of(host@),
            ifs == lh.interfaces@,
            lookup(b.location.hosts@, host@) == Some(*lh),
            fi == (|e: (String, LocationInterface)| interface_step(b, host@, hk@, e)),
            opt_concat(ifs, fi) is Some,
            opt_concat(nets.take(i as int), fnw) matches Some(part) && es == after_ifs + part,
            vars_match(vars@, es),
        decreases nets.len() - i,
    {
        proof {
            lemma_opt_concat_step(nets, fnw, i as int);
        }
        let t = match network_vars(b, host, &b.networks.networks[i]) {
            Ok(t) => t,
            Err(err) => {
                proof {
                    lemma_opt_concat_none(nets, fnw, i as int);
                    assert(first_none(nets, fnw, i as int));
                }
                return Err(err);
            },
        };
        let ghost tv = pair_texts(t@);
        put_all(&mut vars, t, Ghost(es));
        proof {
            let part = opt_concat(nets.take(i as int), fnw)->0;
            assert(after_ifs + part + tv =~= after_ifs + (part + tv));
            es = es + tv;
        }
        i = i + 1;
    }
    assert(nets.take(nets.len() as int) =~= nets);
    let ghost after_nets = es;

    // Services enabled on the host.
    let ghost fs = |e: (String, Service)| service_step(b, host@, e);
    let ghost svcs = b.services.services@;
    let mut i: usize = 0;
    assert(svcs.take(0) =~= Seq::<(String, Service)>::empty());
    assert(es =~= after_nets + Seq::<EnvEntry>::empty());
    while i < b.services.services.len()
        invariant
            has_key(b.inventory.hosts@, host@) && has_key(b.location.hosts@, host@),
            b.wf(),
            svcs == b.services.services@,
            i <= svcs.len(),
            fs == (|e: (String, Service)| service_step(b, host@, e)),
            hk@ == env_key_of(host@),
            ifs == lh.interfaces@,
            lookup(b.location.hosts@, host@) == Some(*lh),
            fi == (|e: (String, LocationInterface)| interface_step(b, host@, hk@, e)),
            opt_concat(ifs, fi) is Some,
            fnw == (|e: (String, LogicalNetwork)| network_step(b, host@, e)),
            nets == b.networks.networks@,
            opt_concat(nets, fnw) is Some,
            opt_concat(svcs.take(i as int), fs) matches Some(part) && es == after_nets + part,
            vars_match(vars@, es),
        decreases svcs.len() - i,
    {
        proof {
            lemma_opt_concat_step(svcs, fs, i as int);
        }
        let t = match service_vars(b, host, &b.services.services[i]) {
            Ok(t) => t,
            Err(err) => {
                proof {
                    lemma_opt_concat_none(svcs, fs, i as int);
                    assert(first_none(svcs, fs, i as int));
                }
                return Err(err);
            },
        };
        let ghost tv = pair_texts(t@);
        put_all(&mut vars, t, Ghost(es));
        proof {
            let part = opt_concat(svcs.take(i as int), fs)->0;
            assert(after_nets + part + tv =~= after_nets + (part + tv));
            es = es + tv;
        }
        i = i + 1;
    }
    assert(svcs.take(svcs.len() as int) =~= svcs);

    // Routes advertised over Tailscale.
    match find(&b.location.tailscale.routers, host) {
        Some(ri) => {
            proof {
                assert(env_routes_reached(b, host@));
                assert(lookup(b.location.tailscale.routers@, host@) == Some(b.location.tailscale.routers@[ri as int].1));
            }
            let rs = match advertised_routes(b, host, &lh.interfaces, &b.location.tailscale.routers[ri].1.advertise) {
                Ok(rs) => rs,
                Err(err) => {
                    proof {
                        assert(lookup(b.location.tailscale.routers@, host@) == Some(b.location.tailscale.routers@[ri as int].1));
                    }
                    return Err(err);
                },
            };
            let v = join_routes(&rs);
            let ghost kv = ("TS_ADVERTISE_ROUTES"@, v@);
            put(&mut vars, owned("TS_ADVERTISE_ROUTES"), v, Ghost(es));
            proof { es = es.push(kv); }
        },
        None => {},
    }
    Ok(ResolvedEnvPlan { location: owned(loc), host: owned(host), variables: vars })
}

/// Environment variable names derived from names use only upper-case ASCII
/// letters, digits and `_`, and keep the name's length.
pub proof fn law_env_key_is_shell_name(s: Seq<char>)
    ensures
        env_key_of(s).len() == s.len(),
        forall|i: int| 0 <= i < s.len() ==> {
            let c = #[trigger] env_key_of(s)[i];
            ('A' <= c && c <= 'Z') || ('0' <= c && c <= '9') || c == '_'
        },
{
    assert forall|i: int| 0 <= i < s.len() implies {
        let c = #[trigger] env_key_of(s)[i];
        ('A' <= c && c <= 'Z') || ('0' <= c && c <= '9') || c == '_'
    } by {
        let c = s[i];
        if 'a' <= c && c <= 'z' {
            assert((c as u32) - 32 >= 65 && (c as u32) - 32 <= 90);
        }
    }
}

/// An advertised entry reached with every entry before it resolved, whose
/// segment or network is missing, breaks what `resolve_env_plan` needs.
proof fn lemma_route_missing_refuses(
    b: &ConfigBundle,
    host: Seq<char>,
    rt: TailscaleRouterSettings,
    ifs: Seq<(String, LocationInterface)>,
    adv: Seq<String>,
    i: int,
)
    requires
        env_routes_reached(b, host),
        lookup(b.location.tailscale.routers@, host) == Some(rt),
        lookup(b.location.hosts@, host) matches Some(lh) && lh.interfaces@ == ifs,
        rt.advertise@ == adv,
        0 <= i < adv.len(),
        forall|j: int| 0 <= j < i ==> route_step(b, host, ifs, #[trigger] adv[j]) is Some,
        !advertised_target_present(b, adv[i]@),
    ensures
        !env_plan_requires(b, host),
{
    if env_plan_requires(b, host) {
        let r = lookup(b.location.tailscale.routers@, host)->0;
        assert(r == rt);
        let ifs2 = lookup(b.location.hosts@, host)->0.interfaces@;
        assert(ifs2 == ifs);
        assert forall|j: int| 0 <= j < i implies route_step(b, host, ifs2, #[trigger] r.advertise@[j]) is Some by {
            assert(r.advertise@[j] == adv[j]);
        }
        assert(advertised_target_present(b, r.advertise@[i]@));
        assert(r.advertise@[i] == adv[i]);
    }
}

/// Whether `resolve_env_plan` can run on `b` for `host`: `b` has its shape,
/// and the resolution, run up to its first refusal, looks up no missing
/// segment or network among the routes `host` advertises.
pub fn env_plan_runs(b: &ConfigBundle, host: &str) -> (r: bool)
    ensures
        r == env_plan_requires(b, host@),
{
    proof {
        reveal_strlit("segment:");
        reveal_strlit("network:");
    }
    if !b.shape_ok() {
        return false;
    }
    let hi = match find(&b.inventory.hosts, host) {
        None => {
            return true;
        },
        Some(hi) => hi,
    };
    let li = match find(&b.location.hosts, host) {
        None => {
            return true;
        },
        Some(li) => li,
    };
    let lh = &b.location.hosts[li].1;
    let hk = env_key(host);
    let ghost ifs = lh.interfaces@;
    assert(lookup(b.location.hosts@, host@) == Some(*lh));
    let ghost fi = |e: (String, LocationInterface)| interface_step(b, host@, hk@, e);
    let mut i: usize = 0;
    assert(ifs.take(0) =~= Seq::<(String, LocationInterface)>::empty());
    while i < lh.interfaces.len()
        invariant
            b.wf(),
            ifs == lh.interfaces@,
            lookup(b.location.hosts@, host@) == Some(*lh),
            lookup(b.inventory.hosts@, host@) is Some,
            hk@ == env_key_of(host@),
            i <= ifs.len(),
            fi == (|e: (String, LocationInterface)| interface_step(b, host@, hk@, e)),
            opt_concat(ifs.take(i as int), fi) is Some,
        decreases ifs.len() - i,
    {
        proof {
            lemma_opt_concat_step(ifs, fi, i as int);
        }
        match interface_vars(b, host, hk.as_str(), &lh.interfaces[i]) {
            Ok(_) => {},
            Err(_) => {
                proof {
                    lemma_opt_concat_none(ifs, fi, i as int);
                    assert(!env_routes_reached(b, host@));
                }
                return true;
            },
        }
        i = i + 1;
    }
    assert(ifs.take(ifs.len() as int) =~= ifs);
    let ghost nets = b.networks.networks@;
    let ghost fnw = |e: (String, LogicalNetwork)| network_step(b, host@, e);
    let mut i: usize = 0;
    assert(nets.take(0) =~= Seq::<(String, LogicalNetwork)>::empty());
    while i < b.networks.networks.len()
        invariant
            b.wf(),
            nets == b.networks.networks@,
            i <= nets.len(),
            fnw == (|e: (String, LogicalNetwork)| network_step(b, host@, e)),
            opt_concat(nets.take(i as int), fnw) is Some,
        decreases nets.len() - i,
    {
        proof {
            lemma_opt_concat_step(nets, fnw, i as int);
        }
        match network_vars(b, host, &b.networks.networks[i]) {
            Ok(_) => {},
            Err(_) => {
                proof {
                    lemma_opt_concat_none(nets, fnw, i as int);
                    assert(!env_routes_reached(b, host@));
                }
                return true;
            },
        }
        i = i + 1;
    }
    assert(nets.take(nets.len() as int) =~= nets);
    let ghost svcs = b.services.services@;
    let ghost fs = |e: (String, Service)| service_step(b, host@, e);
    let mut i: usize = 0;
    assert(svcs.take(0) =~= Seq::<(String, Service)>::empty());
    while i < b.services.services.len()
        invariant
            b.wf(),
            svcs == b.services.services@,
            i <= svcs.len(),
            fs == (|e: (String, Service)| service_step(b, host@, e)),
            opt_concat(svcs.take(i as int), fs) is Some,
        decreases svcs.len() - i,
    {
        proof {
            lemma_opt_concat_step(svcs, fs, i as int);
        }
        match service_vars(b, host, &b.services.services[i]) {
            Ok(_) => {},
            Err(_) => {
                proof {
                    lemma_opt_concat_none(svcs, fs, i as int);
                    assert(!env_routes_reached(b, host@));
                }
                return true;
            },
        }
        i = i + 1;
    }
    assert(svcs.take(svcs.len() as int) =~= svcs);
    assert(env_routes_reached(b, host@));
    let k = match find(&b.location.tailscale.routers, host) {
        None => {
            return true;
        },
        Some(k) => k,
    };
    let adv = &b.location.tailscale.routers[k].1.advertise;
    let ghost rt = b.location.tailscale.routers@[k as int].1;
    assert(lookup(b.location.tailscale.routers@, host@) == Some(rt));
    assert(lookup(b.location.hosts@, host@) == Some(*lh));
    let mut i: usize = 0;
    while i < adv.len()
        invariant
            b.wf(),
            "segment:"@.len() == 8,
            "network:"@.len() == 8,
            env_routes_reached(b, host@),
            lookup(b.location.tailscale.routers@, host@) == Some(rt),
            lookup(b.location.hosts@, host@) == Some(*lh),
            ifs == lh.interfaces@,
            rt.advertise@ == adv@,
            i <= adv@.len(),
            forall|j: int| 0 <= j < i ==> route_step(b, host@, ifs, #[trigger] adv@[j]) is Some && advertised_target_present(b, adv@[j]@),
        decreases adv@.len() - i,
    {
        let a = adv[i].as_str();
        let step_ok = match strip_prefix_text(a, "segment:") {
            Some(seg) => {
                if !contains_key(&b.location.segments, seg.as_str()) {
                    proof {
                        assert(!advertised_target_present(b, adv@[i as int]@));
                        lemma_route_missing_refuses(b, host@, rt, ifs, adv@, i as int);
                    }
                    return false;
                }
                match segment_routes(b, host, seg.as_str(), &lh.interfaces) {
                    Ok(_) => true,
                    Err(_) => false,
                }
            },
            None => match strip_prefix_text(a, "network:") {
                Some(net) => {
                    let ni = match find(&b.networks.networks, net.as_str()) {
                        None => {
                            proof {
                                assert(!advertised_target_present(b, adv@[i as int]@));
                                lemma_route_missing_refuses(b, host@, rt, ifs, adv@, i as int);
                            }
                            return false;
                        },
                        Some(ni) => ni,
                    };
                    if b.networks.networks[ni].1.ula_enabled {
                        match network_ula(b, net.as_str()) {
                            Ok(_) => true,
                            Err(_) => false,
                        }
                    } else {
                        true
                    }
                },
                None => true,
            },
        };
        if !step_ok {
            proof {
                assert(route_step(b, host@, ifs, adv@[i as int]) is None);
                assert forall|i2: int| 0 <= i2 < rt.advertise@.len() implies ((forall|j: int| 0 <= j < i2 ==> route_step(b, host@, ifs, #[trigger] rt.advertise@[j]) is Some) ==> advertised_target_present(b, (#[trigger] rt.advertise@[i2])@)) by {
                    assert(rt.advertise@[i2] == adv@[i2]);
                    if i2 > i && (forall|j: int| 0 <= j < i2 ==> route_step(b, host@, ifs, #[trigger] rt.advertise@[j]) is Some) {
                        assert(rt.advertise@[i as int] == adv@[i as int]);
                        assert(route_step(b, host@, ifs, rt.advertise@[i as int]) is Some);
                    }
                }
            }
            return true;
        }
        assert(advertised_target_present(b, adv@[i as int]@));
        assert(route_step(b, host@, ifs, adv@[i as int]) is Some);
        i = i + 1;
    }
    proof {
        assert forall|i2: int| 0 <= i2 < rt.advertise@.len() implies ((forall|j: int| 0 <= j < i2 ==> route_step(b, host@, ifs, #[trigger] rt.advertise@[j]) is Some) ==> advertised_target_present(b, (#[trigger] rt.advertise@[i2])@)) by {
            assert(rt.advertise@[i2] == adv@[i2]);
        }
    }
    true
}

/// Every segment and network that a Tailscale router on `host` advertises
/// by name is present.
pub open spec fn env_targets_present(b: &ConfigBundle, host: Seq<char>) -> bool {
    lookup(b.location.tailscale.routers@, host) matches Some(r) ==> forall|i: int| 0 <= i < r.advertise@.len() ==> advertised_target_present(b, (#[trigger] r.advertise@[i])@)
}

/// A bundle in which every segment and network that `host` advertises is
/// present meets what `resolve_env_plan` needs for `host`.
pub proof fn lemma_env_targets_meet_requires(b: &ConfigBundle, host: Seq<char>)
    requires
        b.wf(),
        env_targets_present(b, host),
    ensures
        env_plan_requires(b, host),
{
}

/// Whether `b` has its shape and every segment and network that `host`
/// advertises as a Tailscale router exists; `resolve_env_plan` can then run
/// for `host`.
#[verifier::loop_isolation(false)]
pub fn env_plan_inputs_ok(b: &ConfigBundle, host: &str) -> (r: bool)
    ensures
        r == (b.wf() && env_targets_present(b, host@)),
        r ==> env_plan_requires(b, host@),
{
    proof {
        reveal_strlit("segment:");
        reveal_strlit("network:");
    }
    if !b.shape_ok() {
        return false;
    }
    let k = match find(&b.location.tailscale.routers, host) {
        None => {
            return true;
        },
        Some(k) => k,
    };
    let adv = &b.location.tailscale.routers[k].1.advertise;
    proof {
        assert(lookup(b.location.tailscale.routers@, host@) == Some(b.location.tailscale.routers@[k as int].1));
    }
    let mut i: usize = 0;
    while i < adv.len()
        invariant
            b.wf(),
            i <= adv@.len(),
            forall|j: int| 0 <= j < i ==> advertised_target_present(b, (#[trigger] adv@[j])@),
        decreases adv@.len() - i,
    {
        let ok = match strip_prefix_text(adv[i].as_str(), "segment:") {
            Some(rest) => contains_key(&b.location.segments, rest.as_str()),
            None => match strip_prefix_text(adv[i].as_str(), "network:") {
                Some(rest) => contains_key(&b.networks.networks, rest.as_str()),
                None => true,
            },
        };
        if !ok {
            proof {
                let rt = b.location.tailscale.routers@[k as int].1;
                assert(rt.advertise@[i as int] == adv@[i as int]);
                assert(!advertised_target_present(b, rt.advertise@[i as int]@));
                assert(lookup(b.location.tailscale.routers@, host@) == Some(rt));
                assert(!env_targets_present(b, host@)) by {
                    if env_targets_present(b, host@) {
                        let r = lookup(b.location.tailscale.routers@, host@)->0;
                        assert(r == rt);
                        assert(0 <= i < r.advertise@.len());
                        assert(advertised_target_present(b, r.advertise@[i as int]@));
                    }
                }
            }
            return false;
        }
        i = i + 1;
    }
    proof {
        let rt = b.location.tailscale.routers@[k as int].1;
        assert forall|j: int| 0 <= j < rt.advertise@.len() implies advertised_target_present(b, (#[trigger] rt.advertise@[j])@) by {
            assert(rt.advertise@[j] == adv@[j]);
        }
    }
    true
}

} // verus!
