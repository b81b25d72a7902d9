//! NFS export permissions a NAS grants to its clients.

use vstd::prelude::*;

use crate::model::{ConfigBundle, NasAccess, NasPermission, NasPermissionProvider, NasSquash};
use crate::net::{ipv4_contains, v4_contains};
use crate::plan::network_mount::{resolve_location_host_ipv4, location_host_ipv4_of, server_refusal};
use crate::plan::PlanError;
use crate::table::{
    contains_key, find, has_key, lemma_opt_concat_none, lemma_opt_concat_step, lookup, opt_concat,
    opt_text, unique_keys,
};
use crate::text::{owned, str_eq};

verus! {

#[derive(Debug)]
pub struct ResolvedNasPermission {
    pub id: String,
    pub nas: String,
    pub nas_ipv4: u32,
    pub provider: NasPermissionProvider,
    pub share: String,
    pub client_host: String,
    pub client_ipv4: u32,
    pub access: NasAccess,
    pub squash: NasSquash,
    pub security: String,
}

/// The NFS permissions of the location, optionally of one NAS.
#[derive(Debug)]
pub struct ResolvedNasPermissionPlan {
    pub location: String,
    pub nas: Option<String>,
    pub permissions: Vec<ResolvedNasPermission>,
}

/// A resolved permission as plain values.
pub struct NasPermissionView {
    pub id: Seq<char>,
    pub nas: Seq<char>,
    pub nas_ipv4: u32,
    pub provider: NasPermissionProvider,
    pub share: Seq<char>,
    pub client_host: Seq<char>,
    pub client_ipv4: u32,
    pub access: NasAccess,
    pub squash: NasSquash,
    pub security: Seq<char>,
}

pub open spec fn permission_view(p: ResolvedNasPermission) -> NasPermissionView {
    NasPermissionView {
        id: p.id@,
        nas: p.nas@,
        nas_ipv4: p.nas_ipv4,
        provider: p.provider,
        share: p.share@,
        client_host: p.client_host@,
        client_ipv4: p.client_ipv4,
        access: p.access,
        squash: p.squash,
        security: p.security@,
    }
}

pub open spec fn permission_views(s: Seq<ResolvedNasPermission>) -> Seq<NasPermissionView> {
    s.map_values(|p: ResolvedNasPermission| permission_view(p))
}

/// The text of an optional filter.
pub open spec fn filter_text(f: Option<&str>) -> Option<Seq<char>> {
    match f {
        Some(n) => Some(n@),
        None => None,
    }
}

/// The address of a NAS client: a host attached at the location, or a guest
/// whose address lies in the segment of its parent's interface.
pub open spec fn client_ipv4_of(b: &ConfigBundle, client: Seq<char>) -> Option<u32> {
    if has_key(b.location.hosts@, client) {
        location_host_ipv4_of(b, client)
    } else {
        match lookup(b.guests.guests@, client) {
            None => None,
            Some(g) => match lookup(b.location.hosts@, g.host@) {
                None => None,
                Some(lh) => match lookup(lh.interfaces@, g.interface@) {
                    None => None,
                    Some(i) => match lookup(b.location.segments@, i.segment@) {
                        None => None,
                        Some(seg) => if v4_contains(seg.ipv4_cidr, g.ipv4) {
                            Some(g.ipv4)
                        } else {
                            None
                        },
                    },
                },
            },
        }
    }
}

/// What permission `e` contributes: nothing when a NAS filter names another
/// NAS; otherwise the permission with the NAS's and client's addresses.
pub open spec fn permission_step(b: &ConfigBundle, filter: Option<Seq<char>>, e: (String, NasPermission)) -> Option<Seq<NasPermissionView>> {
    let p = e.1;
    if filter matches Some(n) && p.nas@ != n {
        Some(Seq::empty())
    } else {
        match (location_host_ipv4_of(b, p.nas@), client_ipv4_of(b, p.client_host@)) {
            (Some(a), Some(c)) => Some(seq![NasPermissionView {
                id: e.0@,
                nas: p.nas@,
                nas_ipv4: a,
                provider: p.provider,
                share: p.share@,
                client_host: p.client_host@,
                client_ipv4: c,
                access: p.access,
                squash: p.squash,
                security: p.security@,
            }]),
            _ => None,
        }
    }
}

/// Why the address of client `client` of permission `id` is refused: as a
/// host attached at the location, by `server_refusal`; otherwise as a guest,
/// checked in this order: unknown, parent not attached, unknown interface,
/// unknown segment, address outside the segment.
pub open spec fn client_refusal(b: &ConfigBundle, id: Seq<char>, client: Seq<char>, e: PlanError) -> bool {
    if has_key(b.location.hosts@, client) {
        server_refusal(b, id, client, e)
    } else {
        match lookup(b.guests.guests@, client) {
            None => e matches PlanError::UnknownNasClient { permission, client: c, .. } && permission@ == id && c@ == client,
            Some(g) => match lookup(b.location.hosts@, g.host@) {
                None => e is GuestParentNotAttached,
                Some(lh) => match lookup(lh.interfaces@, g.interface@) {
                    None => e is GuestInterfaceUnknown,
                    Some(i) => if !has_key(b.location.segments@, i.segment@) {
                        e is GuestSegmentUnknown
                    } else {
                        e is GuestAddressOutside
                    },
                },
            },
        }
    }
}

/// Why permission `e` is refused: the NAS's address, then the client's.
pub open spec fn permission_refusal(b: &ConfigBundle, e: (String, NasPermission), err: PlanError) -> bool {
    let p = e.1;
    if location_host_ipv4_of(b, p.nas@) is None {
        server_refusal(b, e.0@, p.nas@, err)
    } else {
        client_refusal(b, e.0@, p.client_host@, err)
    }
}

/// The address of a NAS client.
fn resolve_client_ipv4(b: &ConfigBundle, client: &str, permission_id: &str) -> (r: Result<u32, PlanError>)
    requires
        b.wf(),
    ensures
        r is Ok <==> client_ipv4_of(b, client@) is Some,
        r matches Ok(a) ==> client_ipv4_of(b, client@) == Some(a),
        r matches Err(e) ==> client_refusal(b, permission_id@, client@, e),
{
    if contains_key(&b.location.hosts, client) {
        return resolve_location_host_ipv4(b, client, permission_id);
    }
    let gi = match find(&b.guests.guests, client) {
        None => {
            return Err(PlanError::UnknownNasClient { permission: owned(permission_id), client: owned(client), location: owned(b.location.name.as_str()) });
        },
        Some(gi) => gi,
    };
    let g = &b.guests.guests[gi].1;
    let li = match find(&b.location.hosts, g.host.as_str()) {
        None => {
            return Err(PlanError::GuestParentNotAttached { host: owned(client), parent: owned(g.host.as_str()), location: owned(b.location.name.as_str()) });
        },
        Some(li) => li,
    };
    assert(unique_keys(b.location.hosts@[li as int].1.interfaces@));
    let ii = match find(&b.location.hosts[li].1.interfaces, g.interface.as_str()) {
        None => {
            return Err(PlanError::GuestInterfaceUnknown { host: owned(client), parent: owned(g.host.as_str()), interface: owned(g.interface.as_str()) });
        },
        Some(ii) => ii,
    };
    let segment_name = b.location.hosts[li].1.interfaces[ii].1.segment.as_str();
    let si = match find(&b.location.segments, segment_name) {
        None => {
            return Err(PlanError::GuestSegmentUnknown { host: owned(client), segment: owned(segment_name) });
        },
        Some(si) => si,
    };
    if !ipv4_contains(b.location.segments[si].1.ipv4_cidr, g.ipv4) {
        return Err(PlanError::GuestAddressOutside { guest: owned(client), address: g.ipv4, segment: owned(segment_name), cidr: b.location.segments[si].1.ipv4_cidr });
    }
    Ok(g.ipv4)
}

fn permission_entry(b: &ConfigBundle, filter: Option<&str>, e: &(String, NasPermission)) -> (r: Result<Vec<ResolvedNasPermission>, PlanError>)
    requires
        b.wf(),
    ensures
        r is Ok <==> permission_step(b, filter_text(filter), *e) is Some,
        r matches Ok(v) ==> permission_step(b, filter_text(filter), *e) == Some(permission_views(v@)),
        r matches Err(err) ==> permission_refusal(b, *e, err),
{
    let p = &e.1;
    let mut out: Vec<ResolvedNasPermission> = Vec::new();
    let skip = match filter {
        Some(n) => !str_eq(p.nas.as_str(), n),
        None => false,
    };
    if skip {
        assert(permission_views(out@) =~= Seq::<NasPermissionView>::empty());
        return Ok(out);
    }
    let a = resolve_location_host_ipv4(b, p.nas.as_str(), e.0.as_str())?;
    let c = resolve_client_ipv4(b, p.client_host.as_str(), e.0.as_str())?;
    out.push(ResolvedNasPermission {
        id: owned(e.0.as_str()),
        nas: owned(p.nas.as_str()),
        nas_ipv4: a,
        provider: p.provider,
        share: owned(p.share.as_str()),
        client_host: owned(p.client_host.as_str()),
        client_ipv4: c,
        access: p.access,
        squash: p.squash,
        security: owned(p.security.as_str()),
    });
    proof {
        let want = permission_step(b, filter_text(filter), *e)->0;
        assert(permission_views(out@) =~= want);
    }
    Ok(out)
}

/// Why the NAS permission plan for `nas` (or all NAS) is refused: an
/// unknown NAS, or its first permission refused.
pub open spec fn nas_plan_refusal(b: &ConfigBundle, nas: Option<Seq<char>>, err: PlanError) -> bool {
    if nas matches Some(n) && !has_key(b.inventory.hosts@, n) {
        err matches PlanError::UnknownNasHost { nas: x } && x@ == nas->0
    } else {
        exists|i: int| 0 <= i < b.nas_permissions.permissions@.len()
            && opt_concat(b.nas_permissions.permissions@.take(i), |e: (String, NasPermission)| permission_step(b, nas, e)) is Some
            && permission_step(b, nas, #[trigger] b.nas_permissions.permissions@[i]) is None
            && permission_refusal(b, b.nas_permissions.permissions@[i], err)
    }
}

/// Resolves the NFS permissions of the location, of one NAS when
/// `nas_filter` names it, in permission name order, each with the NAS's and
/// the client's addresses.
pub fn resolve_nas_permission_plan(b: &ConfigBundle, nas_filter: Option<&str>) -> (r: Result<ResolvedNasPermissionPlan, PlanError>)
    requires
        b.wf(),
    ensures
        r is Ok <==> ((nas_filter matches Some(n) ==> has_key(b.inventory.hosts@, n@)) && opt_concat(b.nas_permissions.permissions@, |e: (String, NasPermission)| permission_step(b, filter_text(nas_filter), e)) is Some),
        r matches Ok(p) ==> p.location@ == b.location.name@ && opt_text(p.nas) == (filter_text(nas_filter)) && Some(permission_views(p.permissions@)) == opt_concat(b.nas_permissions.permissions@, |e: (String, NasPermission)| permission_step(b, filter_text(nas_filter), e)),
        nas_filter matches Some(n) ==> (!has_key(b.inventory.hosts@, n@) ==> (r matches Err(PlanError::UnknownNasHost { nas }) && nas@ == n@)),
        r matches Err(err) ==> nas_plan_refusal(b, filter_text(nas_filter), err),
        (nas_filter matches Some(n) ==> has_key(b.inventory.hosts@, n@)) ==> (r matches Err(err) ==> exists|i: int| 0 <= i < b.nas_permissions.permissions@.len()
            && opt_concat(b.nas_permissions.permissions@.take(i), |e: (String, NasPermission)| permission_step(b, filter_text(nas_filter), e)) is Some
            && permission_step(b, filter_text(nas_filter), #[trigger] b.nas_permissions.permissions@[i]) is None
            && permission_refusal(b, b.nas_permissions.permissions@[i], err)),
{
    match nas_filter {
        Some(n) => {
            if !contains_key(&b.inventory.hosts, n) {
                return Err(PlanError::UnknownNasHost { nas: owned(n) });
            }
        },
        None => {},
    }
    let ghost flt = filter_text(nas_filter);
    let ghost f = |e: (String, NasPermission)| permission_step(b, flt, e);
    let ghost ps = b.nas_permissions.permissions@;
    let mut permissions: Vec<ResolvedNasPermission> = Vec::new();
    let mut i: usize = 0;
    assert(ps.take(0) =~= Seq::<(String, NasPermission)>::empty());
    while i < b.nas_permissions.permissions.len()
        invariant
            b.wf(),
            ps == b.nas_permissions.permissions@,
            i <= ps.len(),
            flt == (filter_text(nas_filter)),
            f == (|e: (String, NasPermission)| permission_step(b, flt, e)),
            opt_concat(ps.take(i as int), f) == Some(permission_views(permissions@)),
            nas_filter matches Some(n) ==> has_key(b.inventory.hosts@, n@),
        decreases ps.len() - i,
    {
        proof {
            lemma_opt_concat_step(ps, f, i as int);
        }
        let mut t = match permission_entry(b, nas_filter, &b.nas_permissions.permissions[i]) {
            Ok(t) => t,
            Err(err) => {
                proof {
                    lemma_opt_concat_none(ps, f, i as int);
                    assert(permission_step(b, flt, ps[i as int]) is None);
                }
                return Err(err);
            },
        };
        let ghost (x, y) = (permissions@, t@);
        permissions.append(&mut t);
        assert(permission_views(permissions@) =~= permission_views(x) + permission_views(y));
        i = i + 1;
    }
    assert(ps.take(ps.len() as int) =~= ps);
    let nas = match nas_filter {
        Some(n) => Some(owned(n)),
        None => None,
    };
    Ok(ResolvedNasPermissionPlan { location: owned(b.location.name.as_str()), nas, permissions })
}

} // verus!
