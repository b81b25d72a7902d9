//! NFS storages a Proxmox hypervisor mounts.

use vstd::prelude::*;

use crate::model::{ConfigBundle, ProxmoxStorage, ProxmoxStorageProvider};
use crate::plan::network_mount::{is_absolute, resolve_location_host_ipv4, location_host_ipv4_of, server_refusal};
use crate::plan::PlanError;
use crate::table::{
    copy_opt, copy_strings, find, lemma_opt_concat_none, lemma_opt_concat_step, lookup, opt_concat,
    opt_text, texts,
};
use crate::text::{first_char_is, owned, str_eq};

verus! {

#[derive(Debug)]
pub struct ResolvedProxmoxStorage {
    pub id: String,
    pub host: String,
    pub storage_id: String,
    pub provider: ProxmoxStorageProvider,
    pub server_host: String,
    pub server_ipv4: u32,
    pub export: String,
    pub mount_path: String,
    pub options: Vec<String>,
    pub content: Vec<String>,
    pub prune_backups: Option<String>,
}

/// The storages of one hypervisor.
#[derive(Debug)]
pub struct ResolvedProxmoxStoragePlan {
    pub location: String,
    pub host: String,
    pub storages: Vec<ResolvedProxmoxStorage>,
}

/// A resolved storage as plain values.
pub struct StorageView {
    pub id: Seq<char>,
    pub host: Seq<char>,
    pub storage_id: Seq<char>,
    pub provider: ProxmoxStorageProvider,
    pub server_host: Seq<char>,
    pub server_ipv4: u32,
    pub export: Seq<char>,
    pub mount_path: Seq<char>,
    pub options: Seq<Seq<char>>,
    pub content: Seq<Seq<char>>,
    pub prune_backups: Option<Seq<char>>,
}

pub open spec fn storage_view(s: ResolvedProxmoxStorage) -> StorageView {
    StorageView {
        id: s.id@,
        host: s.host@,
        storage_id: s.storage_id@,
        provider: s.provider,
        server_host: s.server_host@,
        server_ipv4: s.server_ipv4,
        export: s.export@,
        mount_path: s.mount_path@,
        options: texts(s.options@),
        content: texts(s.content@),
        prune_backups: opt_text(s.prune_backups),
    }
}

pub open spec fn storage_views(s: Seq<ResolvedProxmoxStorage>) -> Seq<StorageView> {
    s.map_values(|x: ResolvedProxmoxStorage| storage_view(x))
}

/// What storage `e` contributes to the plan of `host`: nothing unless it is
/// on `host`; otherwise the storage with its server's address, `None` where
/// the server has no address at the location or the path is not absolute.
pub open spec fn storage_step(b: &ConfigBundle, host: Seq<char>, e: (String, ProxmoxStorage)) -> Option<Seq<StorageView>> {
    let s = e.1;
    if s.host@ != host {
        Some(Seq::empty())
    } else {
        match location_host_ipv4_of(b, s.server_host@) {
            Some(a) => if is_absolute(s.mount_path@) {
                Some(seq![StorageView {
                    id: e.0@,
                    host: s.host@,
                    storage_id: s.storage_id@,
                    provider: s.provider,
                    server_host: s.server_host@,
                    server_ipv4: a,
                    export: s.export@,
                    mount_path: s.mount_path@,
                    options: texts(s.options@),
                    content: texts(s.content@),
                    prune_backups: opt_text(s.prune_backups),
                }])
            } else {
                None
            },
            None => None,
        }
    }
}

/// Why storage `e` is refused, checked in this order: its server's address,
/// then a relative path.
pub open spec fn storage_refusal(b: &ConfigBundle, e: (String, ProxmoxStorage), err: PlanError) -> bool {
    let s = e.1;
    if location_host_ipv4_of(b, s.server_host@) is None {
        server_refusal(b, e.0@, s.server_host@, err)
    } else {
        err matches PlanError::RelativeMountPath { item, path } && item@ == e.0@ && path@ == s.mount_path@
    }
}

fn storage_entry(b: &ConfigBundle, host: &str, e: &(String, ProxmoxStorage)) -> (r: Result<Vec<ResolvedProxmoxStorage>, PlanError>)
    requires
        b.wf(),
    ensures
        r is Ok <==> storage_step(b, host@, *e) is Some,
        r matches Ok(v) ==> storage_step(b, host@, *e) == Some(storage_views(v@)),
        r matches Err(err) ==> storage_refusal(b, *e, err),
{
    let s = &e.1;
    let mut out: Vec<ResolvedProxmoxStorage> = Vec::new();
    if !str_eq(s.host.as_str(), host) {
        assert(storage_views(out@) =~= Seq::<StorageView>::empty());
        return Ok(out);
    }
    let a = resolve_location_host_ipv4(b, s.server_host.as_str(), e.0.as_str())?;
    if !first_char_is(s.mount_path.as_str(), '/') {
        return Err(PlanError::RelativeMountPath { item: owned(e.0.as_str()), path: owned(s.mount_path.as_str()) });
    }
    out.push(ResolvedProxmoxStorage {
        id: owned(e.0.as_str()),
        host: owned(s.host.as_str()),
        storage_id: owned(s.storage_id.as_str()),
        provider: s.provider,
        server_host: owned(s.server_host.as_str()),
        server_ipv4: a,
        export: owned(s.export.as_str()),
        mount_path: owned(s.mount_path.as_str()),
        options: copy_strings(&s.options),
        content: copy_strings(&s.content),
        prune_backups: copy_opt(&s.prune_backups),
    });
    proof {
        let want = storage_step(b, host@, *e)->0;
        assert(storage_views(out@) =~= want);
    }
    Ok(out)
}

/// Why the Proxmox storage plan of `host` is refused: an unknown host, or
/// its first storage refused.
pub open spec fn storage_plan_refusal(b: &ConfigBundle, host: Seq<char>, err: PlanError) -> bool {
    if lookup(b.inventory.hosts@, host) is None {
        err matches PlanError::UnknownHost { host: h } && h@ == host
    } else {
        exists|i: int| 0 <= i < b.proxmox_storages.storages@.len()
            && opt_concat(b.proxmox_storages.storages@.take(i), |e: (String, ProxmoxStorage)| storage_step(b, host, e)) is Some
            && storage_step(b, host, #[trigger] b.proxmox_storages.storages@[i]) is None && storage_refusal(b, b.proxmox_storages.storages@[i], err)
    }
}

/// Resolves the storages of hypervisor `host_name`, in storage name order,
/// each with its server's address.
pub fn resolve_proxmox_storage_plan(b: &ConfigBundle, host_name: &str) -> (r: Result<ResolvedProxmoxStoragePlan, PlanError>)
    requires
        b.wf(),
    ensures
        r is Ok <==> (lookup(b.inventory.hosts@, host_name@) is Some && opt_concat(b.proxmox_storages.storages@, |e: (String, ProxmoxStorage)| storage_step(b, host_name@, e)) is Some),
        r matches Ok(p) ==> p.location@ == b.location.name@ && p.host@ == host_name@ && Some(storage_views(p.storages@)) == opt_concat(b.proxmox_storages.storages@, |e: (String, ProxmoxStorage)| storage_step(b, host_name@, e)),
        lookup(b.inventory.hosts@, host_name@) is None ==> (r matches Err(PlanError::UnknownHost { host }) && host@ == host_name@),
        r matches Err(err) ==> storage_plan_refusal(b, host_name@, err),
        lookup(b.inventory.hosts@, host_name@) is Some ==> (r matches Err(err) ==> exists|i: int| 0 <= i < b.proxmox_storages.storages@.len()
            && opt_concat(b.proxmox_storages.storages@.take(i), |e: (String, ProxmoxStorage)| storage_step(b, host_name@, e)) is Some
            && storage_step(b, host_name@, #[trigger] b.proxmox_storages.storages@[i]) is None && storage_refusal(b, b.proxmox_storages.storages@[i], err)),
{
    if find(&b.inventory.hosts, host_name).is_none() {
        return Err(PlanError::UnknownHost { host: owned(host_name) });
    }
    let ghost f = |e: (String, ProxmoxStorage)| storage_step(b, host_name@, e);
    let ghost ss = b.proxmox_storages.storages@;
    let mut storages: Vec<ResolvedProxmoxStorage> = Vec::new();
    let mut i: usize = 0;
    assert(ss.take(0) =~= Seq::<(String, ProxmoxStorage)>::empty());
    while i < b.proxmox_storages.storages.len()
        invariant
            b.wf(),
            ss == b.proxmox_storages.storages@,
            i <= ss.len(),
            f == (|e: (String, ProxmoxStorage)| storage_step(b, host_name@, e)),
            opt_concat(ss.take(i as int), f) == Some(storage_views(storages@)),
            lookup(b.inventory.hosts@, host_name@) is Some,
        decreases ss.len() - i,
    {
        proof {
            lemma_opt_concat_step(ss, f, i as int);
        }
        let mut t = match storage_entry(b, host_name, &b.proxmox_storages.storages[i]) {
            Ok(t) => t,
            Err(err) => {
                proof {
                    lemma_opt_concat_none(ss, f, i as int);
                    assert(storage_step(b, host_name@, ss[i as int]) is None);
                }
                return Err(err);
            },
        };
        let ghost (x, y) = (storages@, t@);
        storages.append(&mut t);
        assert(storage_views(storages@) =~= storage_views(x) + storage_views(y));
        i = i + 1;
    }
    assert(ss.take(ss.len() as int) =~= ss);
    Ok(ResolvedProxmoxStoragePlan { location: owned(b.location.name.as_str()), host: owned(host_name), storages })
}

} // verus!
