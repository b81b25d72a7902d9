//! NFS mounts of a host and the systemd units that mount them.

use vstd::prelude::*;

use crate::model::{ConfigBundle, LocationInterface, NetworkMount, NetworkMountProvider};
use crate::plan::PlanError;
use crate::table::{has_key, key_index, lemma_lookup_at, 
    copy_strings, find, lemma_opt_concat_none, lemma_opt_concat_step, lookup, opt_concat, texts,
    unique_keys,
};
use crate::text::{chars_of, concat, owned, push_char, slice_chars, starts_with_char, str_eq, string_from_chars, first_char_is};

verus! {

/// The first interface address, in table order.
pub open spec fn first_address(ifs: Seq<(String, LocationInterface)>) -> Option<u32>
    decreases ifs.len(),
{
    if ifs.len() == 0 {
        None
    } else {
        match first_address(ifs.drop_last()) {
            Some(a) => Some(a),
            None => ifs.last().1.ipv4,
        }
    }
}

/// The address a host is reached at: its `lan` interface's, else the first
/// interface address it has.
pub open spec fn preferred_ipv4(ifs: Seq<(String, LocationInterface)>) -> Option<u32> {
    match lookup(ifs, "lan"@) {
        Some(i) if i.ipv4 is Some => i.ipv4,
        _ => first_address(ifs),
    }
}

/// The address of a host attached at the location.
pub open spec fn location_host_ipv4_of(b: &ConfigBundle, host: Seq<char>) -> Option<u32> {
    match lookup(b.location.hosts@, host) {
        None => None,
        Some(lh) => preferred_ipv4(lh.interfaces@),
    }
}

/// The preferred address of a list of interfaces.
fn preferred_address(ifs: &Vec<(String, LocationInterface)>) -> (r: Option<u32>)
    requires
        unique_keys(ifs@),
    ensures
        r == preferred_ipv4(ifs@),
{
    match find(ifs, "lan") {
        Some(li) => match ifs[li].1.ipv4 {
            Some(a) => {
                return Some(a);
            },
            None => {},
        },
        None => {},
    }
    let mut i: usize = 0;
    let mut found: Option<u32> = None;
    while i < ifs.len()
        invariant
            i <= ifs@.len(),
            found == first_address(ifs@.take(i as int)),
        decreases ifs@.len() - i,
    {
        assert(ifs@.take(i + 1).drop_last() =~= ifs@.take(i as int));
        if found.is_none() {
            found = ifs[i].1.ipv4;
        }
        i = i + 1;
    }
    assert(ifs@.take(ifs@.len() as int) =~= ifs@);
    found
}

/// `path` is absolute: it begins with `/`.
pub open spec fn is_absolute(path: Seq<char>) -> bool {
    starts_with_char(path, '/')
}

pub open spec fn trim_start_slashes(s: Seq<char>) -> Seq<char>
    decreases s.len(),
{
    if s.len() > 0 && s[0] == '/' {
        trim_start_slashes(s.skip(1))
    } else {
        s
    }
}

pub open spec fn trim_end_slashes(s: Seq<char>) -> Seq<char>
    decreases s.len(),
{
    if s.len() > 0 && s.last() == '/' {
        trim_end_slashes(s.drop_last())
    } else {
        s
    }
}

/// How systemd escapes one character of a mount path: `-` as `\x2d`, `/`
/// as `-`.
pub open spec fn unit_escape(c: char) -> Seq<char> {
    if c == '-' {
        "\\x2d"@
    } else if c == '/' {
        seq!['-']
    } else {
        seq![c]
    }
}

pub open spec fn escape_unit(s: Seq<char>) -> Seq<char>
    decreases s.len(),
{
    if s.len() == 0 {
        Seq::empty()
    } else {
        escape_unit(s.drop_last()) + unit_escape(s.last())
    }
}

/// The systemd mount unit of a path: the path without leading and trailing
/// `/`, escaped, with `.mount`; none for `/` itself.
pub open spec fn mount_unit_of(path: Seq<char>) -> Option<Seq<char>> {
    let t = trim_end_slashes(trim_start_slashes(path));
    if t.len() == 0 {
        None
    } else {
        Some(escape_unit(t) + ".mount"@)
    }
}

/// The systemd mount unit name of a mount path.
pub fn systemd_mount_unit(path: &str) -> (r: Result<String, PlanError>)
    ensures
        r is Ok <==> mount_unit_of(path@) is Some,
        r matches Ok(u) ==> mount_unit_of(path@) == Some(u@),
        r matches Err(e) ==> e is RootMountUnit,
{
    let chars = chars_of(path);
    let mut a: usize = 0;
    assert(chars@.skip(0) =~= chars@);
    while a < chars.len() && chars[a] == '/'
        invariant
            a <= chars@.len(),
            chars@ == path@,
            trim_start_slashes(path@) == trim_start_slashes(chars@.skip(a as int)),
        decreases chars@.len() - a,
    {
        assert(chars@.skip(a as int).skip(1) =~= chars@.skip(a + 1));
        a = a + 1;
    }
    let mut z: usize = chars.len();
    assert(chars@.skip(a as int) =~= chars@.subrange(a as int, z as int));
    while z > a && chars[z - 1] == '/'
        invariant
            a <= z <= chars@.len(),
            chars@ == path@,
            trim_end_slashes(trim_start_slashes(path@)) == trim_end_slashes(chars@.subrange(a as int, z as int)),
        decreases z,
    {
        assert(chars@.subrange(a as int, z as int).drop_last() =~= chars@.subrange(a as int, z - 1));
        z = z - 1;
    }
    let ghost t = chars@.subrange(a as int, z as int);
    assert(trim_end_slashes(trim_start_slashes(path@)) == t);
    if z == a {
        return Err(PlanError::RootMountUnit);
    }
    let mut out = String::new();
    let mut k: usize = a;
    while k < z
        invariant
            a <= k <= z <= chars@.len(),
            t == chars@.subrange(a as int, z as int),
            out@ == escape_unit(chars@.subrange(a as int, k as int)),
        decreases z - k,
    {
        assert(chars@.subrange(a as int, k + 1).drop_last() =~= chars@.subrange(a as int, k as int));
        let c = chars[k];
        if c == '-' {
            out = concat(out.as_str(), "\\x2d");
        } else if c == '/' {
            push_char(&mut out, '-');
        } else {
            push_char(&mut out, c);
        }
        proof {
            assert(out@ =~= escape_unit(chars@.subrange(a as int, k as int)) + unit_escape(c));
        }
        k = k + 1;
    }
    Ok(concat(out.as_str(), ".mount"))
}

#[derive(Debug)]
pub struct ResolvedNetworkMount {
    pub id: String,
    pub host: String,
    pub provider: NetworkMountProvider,
    pub server_host: String,
    pub server_ipv4: u32,
    pub export: String,
    pub mount_path: String,
    pub options: Vec<String>,
    pub required_by: Vec<String>,
    pub unit_name: String,
}

/// The network mounts of one host.
#[derive(Debug)]
pub struct ResolvedNetworkMountPlan {
    pub location: String,
    pub host: String,
    pub mounts: Vec<ResolvedNetworkMount>,
}

/// A resolved mount as plain values.
pub struct MountView {
    pub id: Seq<char>,
    pub host: Seq<char>,
    pub provider: NetworkMountProvider,
    pub server_host: Seq<char>,
    pub server_ipv4: u32,
    pub export: Seq<char>,
    pub mount_path: Seq<char>,
    pub options: Seq<Seq<char>>,
    pub required_by: Seq<Seq<char>>,
    pub unit_name: Seq<char>,
}

pub open spec fn mount_view(m: ResolvedNetworkMount) -> MountView {
    MountView {
        id: m.id@,
        host: m.host@,
        provider: m.provider,
        server_host: m.server_host@,
        server_ipv4: m.server_ipv4,
        export: m.export@,
        mount_path: m.mount_path@,
        options: texts(m.options@),
        required_by: texts(m.required_by@),
        unit_name: m.unit_name@,
    }
}

pub open spec fn mount_views(s: Seq<ResolvedNetworkMount>) -> Seq<MountView> {
    s.map_values(|m: ResolvedNetworkMount| mount_view(m))
}

/// What mount `e` contributes to the plan of `host`: nothing unless it is
/// on `host`; otherwise the mount with its server's address and its unit,
/// `None` where the server has no address at the location, the path is not
/// absolute, or the path is `/`.
pub open spec fn mount_step(b: &ConfigBundle, host: Seq<char>, e: (String, NetworkMount)) -> Option<Seq<MountView>> {
    let m = e.1;
    if m.host@ != host {
        Some(Seq::empty())
    } else {
        match (location_host_ipv4_of(b, m.server_host@), mount_unit_of(m.mount_path@)) {
            (Some(a), Some(u)) => if is_absolute(m.mount_path@) {
                Some(seq![MountView {
                    id: e.0@,
                    host: m.host@,
                    provider: m.provider,
                    server_host: m.server_host@,
                    server_ipv4: a,
                    export: m.export@,
                    mount_path: m.mount_path@,
                    options: texts(m.options@),
                    required_by: texts(m.required_by@),
                    unit_name: u,
                }])
            } else {
                None
            },
            _ => None,
        }
    }
}

/// Why the address of server `server` for `item` is refused: the server is
/// not attached at the location, or has no IPv4 address there.
pub open spec fn server_refusal(b: &ConfigBundle, item: Seq<char>, server: Seq<char>, e: PlanError) -> bool {
    if !has_key(b.location.hosts@, server) {
        e matches PlanError::ServerNotAttached { item: i, server: s, .. } && i@ == item && s@ == server
    } else {
        e matches PlanError::ServerWithoutIpv4 { item: i, server: s } && i@ == item && s@ == server
    }
}

/// Why mount `e` is refused, checked in this order: its server's address,
/// a relative path, and the path `/`.
pub open spec fn mount_refusal(b: &ConfigBundle, e: (String, NetworkMount), err: PlanError) -> bool {
    let m = e.1;
    if location_host_ipv4_of(b, m.server_host@) is None {
        server_refusal(b, e.0@, m.server_host@, err)
    } else if !is_absolute(m.mount_path@) {
        err matches PlanError::RelativeMountPath { item, path } && item@ == e.0@ && path@ == m.mount_path@
    } else {
        err is RootMountUnit
    }
}

/// The address of a host attached at the location.
pub fn resolve_location_host_ipv4(b: &ConfigBundle, host: &str, item: &str) -> (r: Result<u32, PlanError>)
    requires
        b.wf(),
    ensures
        r is Ok <==> location_host_ipv4_of(b, host@) is Some,
        r matches Ok(a) ==> location_host_ipv4_of(b, host@) == Some(a),
        r matches Err(e) ==> server_refusal(b, item@, host@, e),
{
    let hi = match find(&b.location.hosts, host) {
        None => {
            return Err(PlanError::ServerNotAttached { item: owned(item), server: owned(host), location: owned(b.location.name.as_str()) });
        },
        Some(hi) => hi,
    };
    assert(unique_keys(b.location.hosts@[hi as int].1.interfaces@));
    match preferred_address(&b.location.hosts[hi].1.interfaces) {
        Some(a) => Ok(a),
        None => Err(PlanError::ServerWithoutIpv4 { item: owned(item), server: owned(host) }),
    }
}

fn mount_entry(b: &ConfigBundle, host: &str, e: &(String, NetworkMount)) -> (r: Result<Vec<ResolvedNetworkMount>, PlanError>)
    requires
        b.wf(),
    ensures
        r is Ok <==> mount_step(b, host@, *e) is Some,
        r matches Ok(v) ==> mount_step(b, host@, *e) == Some(mount_views(v@)),
        r matches Err(err) ==> mount_refusal(b, *e, err),
{
    let m = &e.1;
    let mut out: Vec<ResolvedNetworkMount> = Vec::new();
    if !str_eq(m.host.as_str(), host) {
        assert(mount_views(out@) =~= Seq::<MountView>::empty());
        return Ok(out);
    }
    let a = resolve_location_host_ipv4(b, m.server_host.as_str(), e.0.as_str())?;
    if !first_char_is(m.mount_path.as_str(), '/') {
        return Err(PlanError::RelativeMountPath { item: owned(e.0.as_str()), path: owned(m.mount_path.as_str()) });
    }
    let unit = systemd_mount_unit(m.mount_path.as_str())?;
    out.push(ResolvedNetworkMount {
        id: owned(e.0.as_str()),
        host: owned(m.host.as_str()),
        provider: m.provider,
        server_host: owned(m.server_host.as_str()),
        server_ipv4: a,
        export: owned(m.export.as_str()),
        mount_path: owned(m.mount_path.as_str()),
        options: copy_strings(&m.options),
        required_by: copy_strings(&m.required_by),
        unit_name: unit,
    });
    proof {
        let want = mount_step(b, host@, *e)->0;
        assert(mount_views(out@) =~= want);
    }
    Ok(out)
}

/// Why the network mount plan of `host` is refused: an unknown host, or its
/// first mount refused.
pub open spec fn mount_plan_refusal(b: &ConfigBundle, host: Seq<char>, err: PlanError) -> bool {
    if lookup(b.inventory.hosts@, host) is None {
        err matches PlanError::UnknownHost { host: h } && h@ == host
    } else {
        exists|i: int| 0 <= i < b.mounts.mounts@.len()
            && opt_concat(b.mounts.mounts@.take(i), |e: (String, NetworkMount)| mount_step(b, host, e)) is Some
            && mount_step(b, host, #[trigger] b.mounts.mounts@[i]) is None && mount_refusal(b, b.mounts.mounts@[i], err)
    }
}

/// Resolves the network mounts of `host_name`, in mount name order, each
/// with its server's address and systemd unit.
pub fn resolve_network_mount_plan(b: &ConfigBundle, host_name: &str) -> (r: Result<ResolvedNetworkMountPlan, PlanError>)
    requires
        b.wf(),
    ensures
        r is Ok <==> (lookup(b.inventory.hosts@, host_name@) is Some && opt_concat(b.mounts.mounts@, |e: (String, NetworkMount)| mount_step(b, host_name@, e)) is Some),
        r matches Ok(p) ==> p.location@ == b.location.name@ && p.host@ == host_name@ && Some(mount_views(p.mounts@)) == opt_concat(b.mounts.mounts@, |e: (String, NetworkMount)| mount_step(b, host_name@, e)),
        lookup(b.inventory.hosts@, host_name@) is None ==> (r matches Err(PlanError::UnknownHost { host }) && host@ == host_name@),
        r matches Err(err) ==> mount_plan_refusal(b, host_name@, err),
        lookup(b.inventory.hosts@, host_name@) is Some ==> (r matches Err(err) ==> exists|i: int| 0 <= i < b.mounts.mounts@.len()
            && opt_concat(b.mounts.mounts@.take(i), |e: (String, NetworkMount)| mount_step(b, host_name@, e)) is Some
            && mount_step(b, host_name@, #[trigger] b.mounts.mounts@[i]) is None && mount_refusal(b, b.mounts.mounts@[i], err)),
{
    if find(&b.inventory.hosts, host_name).is_none() {
        return Err(PlanError::UnknownHost { host: owned(host_name) });
    }
    let ghost f = |e: (String, NetworkMount)| mount_step(b, host_name@, e);
    let ghost ms = b.mounts.mounts@;
    let mut mounts: Vec<ResolvedNetworkMount> = Vec::new();
    let mut i: usize = 0;
    assert(ms.take(0) =~= Seq::<(String, NetworkMount)>::empty());
    while i < b.mounts.mounts.len()
        invariant
            b.wf(),
            ms == b.mounts.mounts@,
            i <= ms.len(),
            f == (|e: (String, NetworkMount)| mount_step(b, host_name@, e)),
            opt_concat(ms.take(i as int), f) == Some(mount_views(mounts@)),
            lookup(b.inventory.hosts@, host_name@) is Some,
        decreases ms.len() - i,
    {
        proof {
            lemma_opt_concat_step(ms, f, i as int);
        }
        let mut t = match mount_entry(b, host_name, &b.mounts.mounts[i]) {
            Ok(t) => t,
            Err(err) => {
                proof {
                    lemma_opt_concat_none(ms, f, i as int);
                    assert(mount_step(b, host_name@, ms[i as int]) is None);
                }
                return Err(err);
            },
        };
        let ghost (x, y) = (mounts@, t@);
        mounts.append(&mut t);
        assert(mount_views(mounts@) =~= mount_views(x) + mount_views(y));
        i = i + 1;
    }
    assert(ms.take(ms.len() as int) =~= ms);
    Ok(ResolvedNetworkMountPlan { location: owned(b.location.name.as_str()), host: owned(host_name), mounts })
}

proof fn lemma_escape_unit_no_slash(s: Seq<char>)
    ensures
        !escape_unit(s).contains('/'),
    decreases s.len(),
{
    if s.len() > 0 {
        lemma_escape_unit_no_slash(s.drop_last());
        let e = escape_unit(s.drop_last());
        let u = unit_escape(s.last());
        reveal_strlit("\\x2d");
        assert(!u.contains('/'));
        assert forall|i: int| 0 <= i < (e + u).len() implies (e + u)[i] != '/' by {
            if i < e.len() {
                assert((e + u)[i] == e[i]);
            } else {
                assert((e + u)[i] == u[i - e.len()]);
            }
        }
    }
}

/// A mount unit name is one file name: it holds no `/`.
pub proof fn law_mount_unit_is_a_file_name(path: Seq<char>)
    requires
        mount_unit_of(path) is Some,
    ensures
        !mount_unit_of(path)->0.contains('/'),
{
    let t = trim_end_slashes(trim_start_slashes(path));
    lemma_escape_unit_no_slash(t);
    reveal_strlit(".mount");
    let e = escape_unit(t);
    let u = ".mount"@;
    assert forall|i: int| 0 <= i < (e + u).len() implies (e + u)[i] != '/' by {
        if i < e.len() {
            assert((e + u)[i] == e[i]);
        } else {
            assert((e + u)[i] == u[i - e.len()]);
        }
    }
}

/// A server's `lan` interface is preferred: when the interface named `lan`
/// has an IPv4 address, that is the server's address, whatever other
/// interfaces it has and in whatever order.
pub proof fn law_lan_address_preferred(ifs: Seq<(String, LocationInterface)>, k: int)
    requires
        unique_keys(ifs),
        0 <= k < ifs.len(),
        ifs[k].0@ == "lan"@,
        ifs[k].1.ipv4 is Some,
    ensures
        preferred_ipv4(ifs) == ifs[k].1.ipv4,
{
    lemma_lookup_at(ifs, k);
}

/// Without an addressed `lan` interface, a server's address is that of the
/// first of its interfaces, in order, that has one.
pub proof fn law_first_address_otherwise(ifs: Seq<(String, LocationInterface)>, k: int)
    requires
        unique_keys(ifs),
        0 <= k < ifs.len(),
        ifs[k].1.ipv4 is Some,
        forall|j: int| 0 <= j < k ==> (#[trigger] ifs[j]).1.ipv4 is None,
        forall|j: int| 0 <= j < ifs.len() && (#[trigger] ifs[j]).0@ == "lan"@ ==> ifs[j].1.ipv4 is None,
    ensures
        preferred_ipv4(ifs) == ifs[k].1.ipv4,
{
    lemma_first_address_at(ifs, k);
    if has_key(ifs, "lan"@) {
        let j = key_index(ifs, "lan"@);
        assert(ifs[j].0@ == "lan"@);
    }
}

proof fn lemma_first_address_none(ifs: Seq<(String, LocationInterface)>)
    requires
        forall|j: int| 0 <= j < ifs.len() ==> (#[trigger] ifs[j]).1.ipv4 is None,
    ensures
        first_address(ifs) is None,
    decreases ifs.len(),
{
    if ifs.len() > 0 {
        lemma_first_address_none(ifs.drop_last());
        assert(ifs.last() == ifs[ifs.len() - 1]);
    }
}

proof fn lemma_first_address_at(ifs: Seq<(String, LocationInterface)>, k: int)
    requires
        0 <= k < ifs.len(),
        ifs[k].1.ipv4 is Some,
        forall|j: int| 0 <= j < k ==> (#[trigger] ifs[j]).1.ipv4 is None,
    ensures
        first_address(ifs) == ifs[k].1.ipv4,
    decreases ifs.len(),
{
    let p = ifs.drop_last();
    if k == ifs.len() - 1 {
        assert forall|j: int| 0 <= j < p.len() implies (#[trigger] p[j]).1.ipv4 is None by {
            assert(p[j] == ifs[j]);
        }
        lemma_first_address_none(p);
    } else {
        assert forall|j: int| 0 <= j < k implies (#[trigger] p[j]).1.ipv4 is None by {
            assert(p[j] == ifs[j]);
        }
        assert(p[k] == ifs[k]);
        lemma_first_address_at(p, k);
    }
}

/// A mount reaches its server at the server's `lan` address: when the server
/// is attached with an addressed interface named `lan`, the resolved mount's
/// server address is that address.
pub proof fn law_mount_server_prefers_lan(b: &ConfigBundle, host: Seq<char>, e: (String, NetworkMount), k: int)
    requires
        b.wf(),
        mount_step(b, host, e) matches Some(v) && v.len() > 0,
        lookup(b.location.hosts@, e.1.server_host@) matches Some(lh)
            && 0 <= k < lh.interfaces@.len() && lh.interfaces@[k].0@ == "lan"@ && lh.interfaces@[k].1.ipv4 is Some,
    ensures
        Some((mount_step(b, host, e)->0)[0].server_ipv4) == (lookup(b.location.hosts@, e.1.server_host@)->0).interfaces@[k].1.ipv4,
{
    let j = key_index(b.location.hosts@, e.1.server_host@);
    assert(unique_keys(b.location.hosts@[j].1.interfaces@));
    law_lan_address_preferred(b.location.hosts@[j].1.interfaces@, k);
}

} // verus!
