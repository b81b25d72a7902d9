//! What each built-in adapter requires before it renders: the target it
//! needs and the plan it renders from, resolved without error.

use vstd::prelude::*;

use crate::adapter::{AdapterContext, AdapterError};
use crate::adapters::nginx::{one_target_host, proxies_on};
use crate::adapters::proxmox::law_resolved_host_plan_has_one_management_bridge;
use crate::adapters::{
    BindAdapter, CloudflareAdapter, DockerAdapter, EnvironmentAdapter, NasPermissionAdapter,
    NetplanAdapter, NginxAdapter, ProxmoxAdapter, ProxmoxGuestAdapter, ProxmoxSdnAdapter,
    ProxmoxStorageAdapter, SshAdapter, SystemdMountAdapter,
};
use crate::model::{
    ConfigBundle, HostNetworkProvider, HostOsNetworkProvider, NasPermission, NetworkMount,
    ProxmoxStorage, SshTarget,
};
use crate::paths::NetweftPaths;
use crate::plan::cloudflare::{cloudflare_ok, cloudflare_refusal, resolve_cloudflare_plan};
use crate::plan::dns::{dns_plan_ok, dns_plan_requires, dns_refusal, resolve_dns_plan};
use crate::plan::docker::{docker_ok, docker_refusal, resolve_docker_plan};
use crate::plan::env::{env_entries, env_plan_requires, env_refusal, resolve_env_plan};
use crate::plan::guest::{
    configured_view, guest_listed, guest_plan_refusal, guest_plan_requires, guest_views, guests_ok,
    resolve_guest_plan, GuestView,
};
use crate::plan::nas_permission::{filter_text, nas_plan_refusal, permission_step, resolve_nas_permission_plan};
use crate::plan::network_mount::{mount_plan_refusal, mount_step, resolve_network_mount_plan};
use crate::plan::os_network::{os_network_ok, os_network_refusal, resolve_os_network_plan};
use crate::plan::proxmox_sdn::{resolve_proxmox_sdn_plan, sdn_ok, sdn_refusal};
use crate::plan::proxmox_storage::{resolve_proxmox_storage_plan, storage_plan_refusal, storage_step};
use crate::plan::proxy::{proxy_plan_ok, proxy_refusal, proxy_views, resolve_proxy_plan, ProxyView};
use crate::plan::ssh::{resolve_ssh_plan, ssh_plan_refusal, ssh_step};
use crate::plan::host_network::{host_network_ok, host_network_reaches_dns, host_network_refusal};
use crate::table::{has_key, lookup, opt_concat};
use crate::text::{owned, str_eq};

verus! {

/// Every entry with TLS names a certificate.
pub open spec fn certificates_named(s: Seq<ProxyView>) -> bool {
    forall|i: int| 0 <= i < s.len() ==> ((#[trigger] s[i]).tls matches Some(t) ==> t.certificate is Some)
}

/// The proxy entries the Nginx adapter renders can be rendered: those of the
/// target host (or, without one, all entries, which then share one host);
/// at least one; each with TLS naming its certificate.
pub open spec fn nginx_ready(b: &ConfigBundle, target: Option<Seq<char>>) -> bool {
    let all = proxy_views(b, b.services.services@);
    &&& proxy_plan_ok(b)
    &&& match target {
        Some(h) => proxies_on(all, h).len() > 0 && certificates_named(proxies_on(all, h)),
        None => all.len() > 0 && one_target_host(all) && certificates_named(all),
    }
}

/// Some guest of the resolved guest plan runs on `host`.
pub open spec fn guests_on(b: &ConfigBundle, host: Seq<char>) -> bool {
    exists|i: int| 0 <= i < b.guests.guests@.len() && guest_listed(b, i) && (#[trigger] b.guests.guests@[i]).1.host@ == host
}

pub open spec fn nas_plan_ok(b: &ConfigBundle, nas: Seq<char>) -> bool {
    &&& has_key(b.inventory.hosts@, nas)
    &&& opt_concat(b.nas_permissions.permissions@, |e: (String, NasPermission)| permission_step(b, Some(nas), e)) is Some
}

pub open spec fn storage_plan_ok(b: &ConfigBundle, host: Seq<char>) -> bool {
    &&& lookup(b.inventory.hosts@, host) is Some
    &&& opt_concat(b.proxmox_storages.storages@, |e: (String, ProxmoxStorage)| storage_step(b, host, e)) is Some
}

pub open spec fn ssh_plan_ok(b: &ConfigBundle, client: Seq<char>) -> bool {
    lookup(b.ssh.clients@, client) matches Some(c) && opt_concat(b.ssh.targets@, |e: (String, SshTarget)| ssh_step(b, c, e)) is Some
}

pub open spec fn mount_plan_ok(b: &ConfigBundle, host: Seq<char>) -> bool {
    &&& lookup(b.inventory.hosts@, host) is Some
    &&& opt_concat(b.mounts.mounts@, |e: (String, NetworkMount)| mount_step(b, host, e)) is Some
}

fn target_required(adapter: &str) -> (r: AdapterError)
    ensures
        r matches AdapterError::TargetHostRequired { adapter: a } && a@ == adapter@,
{
    AdapterError::TargetHostRequired { adapter: owned(adapter) }
}

impl BindAdapter {
    /// The DNS plan resolves.
    pub fn validate(&self, context: &AdapterContext) -> (r: Result<(), AdapterError>)
        requires
            dns_plan_requires(&context.plan.bundle()),
        ensures
            r is Ok <==> dns_plan_ok(&context.plan.bundle()),
            r matches Err(e) ==> e matches AdapterError::Plan(pe) && dns_refusal(&context.plan.bundle(), pe),
    {
        let b = context.plan.config();
        match resolve_dns_plan(b) {
            Ok(_) => Ok(()),
            Err(e) => Err(AdapterError::Plan(e)),
        }
    }
}

impl CloudflareAdapter {
    /// The Cloudflare plan of the requested tunnel (or the location's) resolves.
    pub fn validate(&self, context: &AdapterContext) -> (r: Result<(), AdapterError>)
        requires
            context.plan.bundle().wf(),
        ensures
            r is Ok <==> cloudflare_ok(&context.plan.bundle(), match context.target_host { Some(t) => Some(t@), None => None }),
            r matches Err(e) ==> e matches AdapterError::Plan(pe) && cloudflare_refusal(&context.plan.bundle(), match context.target_host { Some(t) => Some(t@), None => None }, pe),
    {
        let b = context.plan.config();
        let target = context.target_host;
        match resolve_cloudflare_plan(b, target) {
            Ok(_) => Ok(()),
            Err(e) => Err(AdapterError::Plan(e)),
        }
    }
}

impl DockerAdapter {
    /// A host is given and its Docker plan resolves.
    pub fn validate(&self, context: &AdapterContext) -> (r: Result<(), AdapterError>)
        requires
            context.plan.bundle().wf(),
        ensures
            r is Ok <==> (context.target_host matches Some(h) && docker_ok(&context.plan.bundle(), h@)),
            context.target_host is None ==> r matches Err(AdapterError::TargetHostRequired { .. }),
            context.target_host matches Some(h) ==> (r matches Err(e) ==> e matches AdapterError::Plan(pe) && docker_refusal(&context.plan.bundle(), h@, pe)),
    {
        let b = context.plan.config();
        let target = context.target_host;
        let host = match target {
            None => {
                return Err(target_required("docker"));
            },
            Some(h) => h,
        };
        match resolve_docker_plan(b, host) {
            Ok(_) => Ok(()),
            Err(e) => Err(AdapterError::Plan(e)),
        }
    }
}

impl EnvironmentAdapter {
    /// A host is given and its environment plan resolves.
    pub fn validate(&self, context: &AdapterContext) -> (r: Result<(), AdapterError>)
        requires
            context.plan.bundle().wf(),
            context.target_host matches Some(h) ==> env_plan_requires(&context.plan.bundle(), h@),
        ensures
            r is Ok <==> (context.target_host matches Some(h) && env_entries(&context.plan.bundle(), &context.plan.dirs(), h@) is Some),
            context.target_host is None ==> r matches Err(AdapterError::TargetHostRequired { .. }),
            context.target_host matches Some(h) ==> (r matches Err(e) ==> e matches AdapterError::Plan(pe) && env_refusal(&context.plan.bundle(), h@, pe)),
    {
        let b = context.plan.config();
        let paths = context.plan.paths();
        let target = context.target_host;
        let host = match target {
            None => {
                return Err(target_required("env"));
            },
            Some(h) => h,
        };
        match resolve_env_plan(b, paths, host) {
            Ok(_) => Ok(()),
            Err(e) => Err(AdapterError::Plan(e)),
        }
    }
}

impl NasPermissionAdapter {
    /// A NAS is given and its permission plan resolves.
    pub fn validate(&self, context: &AdapterContext) -> (r: Result<(), AdapterError>)
        requires
            context.plan.bundle().wf(),
        ensures
            r is Ok <==> (context.target_host matches Some(n) && nas_plan_ok(&context.plan.bundle(), n@)),
            context.target_host is None ==> r matches Err(AdapterError::TargetHostRequired { .. }),
            context.target_host matches Some(n) ==> (r matches Err(e) ==> e matches AdapterError::Plan(pe) && nas_plan_refusal(&context.plan.bundle(), Some(n@), pe)),
    {
        let b = context.plan.config();
        let target = context.target_host;
        let nas = match target {
            None => {
                return Err(target_required("synology-nfs-permissions"));
            },
            Some(n) => n,
        };
        assert(filter_text(Some(nas)) == Some(nas@));
        match resolve_nas_permission_plan(b, Some(nas)) {
            Ok(_) => Ok(()),
            Err(e) => Err(AdapterError::Plan(e)),
        }
    }
}

impl NetplanAdapter {
    /// A host is given and its operating-system network plan resolves (with
    /// the Netplan provider, the only one there is).
    pub fn validate(&self, context: &AdapterContext) -> (r: Result<(), AdapterError>)
        requires
            context.plan.bundle().wf(),
        ensures
            r is Ok <==> (context.target_host matches Some(h) && os_network_ok(&context.plan.bundle(), h@)),
            context.target_host is None ==> r matches Err(AdapterError::TargetHostRequired { .. }),
            context.target_host matches Some(h) ==> (r matches Err(e) ==> e matches AdapterError::Plan(pe) && os_network_refusal(&context.plan.bundle(), h@, pe)),
    {
        let b = context.plan.config();
        let target = context.target_host;
        let host = match target {
            None => {
                return Err(target_required("netplan"));
            },
            Some(h) => h,
        };
        match resolve_os_network_plan(b, host) {
            Ok(plan) => match plan.provider {
                HostOsNetworkProvider::Netplan => Ok(()),
            },
            Err(e) => Err(AdapterError::Plan(e)),
        }
    }
}

impl NginxAdapter {
    /// The proxy plan resolves and the entries to render pass the Nginx
    /// checks (see `nginx_ready`).
    pub fn validate(&self, context: &AdapterContext) -> (r: Result<(), AdapterError>)
        requires
            context.plan.bundle().wf(),
        ensures
            r is Ok <==> nginx_ready(&context.plan.bundle(), match context.target_host { Some(h) => Some(h@), None => None }),
            r matches Err(e) ==> if !proxy_plan_ok(&context.plan.bundle()) {
                e matches AdapterError::Plan(pe) && proxy_refusal(&context.plan.bundle(), pe)
            } else {
                let all = proxy_views(&context.plan.bundle(), context.plan.bundle().services.services@);
                match context.target_host {
                    Some(h) => if proxies_on(all, h@).len() == 0 {
                        e matches AdapterError::NoProxiesForHost { host } && host@ == h@
                    } else {
                        e is TlsWithoutCertificate
                    },
                    None => if all.len() == 0 {
                        e is NoProxyEntries
                    } else if !one_target_host(all) {
                        e is MultipleProxyHosts
                    } else {
                        e is TlsWithoutCertificate
                    },
                }
            },
    {
        let b = context.plan.config();
        let target = context.target_host;
        let plan = match resolve_proxy_plan(b) {
            Ok(p) => p,
            Err(e) => {
                return Err(AdapterError::Plan(e));
            },
        };
        let (selected, _host) = crate::adapters::nginx::plan_for_context(plan, target)?;
        crate::adapters::nginx::validate_plan(&selected)
    }
}

impl ProxmoxAdapter {
    /// A host is given, its host network plan resolves, and it uses the
    /// Proxmox ifupdown2 provider.
    pub fn validate(&self, context: &AdapterContext) -> (r: Result<(), AdapterError>)
        requires
            context.plan.bundle().wf(),
            context.target_host matches Some(h) ==> (host_network_reaches_dns(&context.plan.bundle(), h@) ==> dns_plan_requires(&context.plan.bundle())),
        ensures
            context.target_host matches Some(h) ==> (r matches Err(e) ==> if !host_network_ok(&context.plan.bundle(), h@) {
                e matches AdapterError::Plan(pe) && host_network_refusal(&context.plan.bundle(), h@, pe)
            } else {
                e matches AdapterError::NotProxmoxProvider { host } && host@ == h@
            }),
            r is Ok <==> (context.target_host matches Some(h) && host_network_ok(&context.plan.bundle(), h@)
                && lookup(context.plan.bundle().inventory.hosts@, h@)->0.network->0.provider == HostNetworkProvider::ProxmoxIfupdown2),
            context.target_host is None ==> r matches Err(AdapterError::TargetHostRequired { .. }),
    {
        let b = context.plan.config();
        let target = context.target_host;
        let (host, plan) = crate::adapters::proxmox::plan_for_context(b, target)?;
        proof {
            law_resolved_host_plan_has_one_management_bridge(b, host@, plan);
        }
        crate::adapters::proxmox::validate_plan(&plan)
    }
}

impl ProxmoxGuestAdapter {
    /// A host is given, the guest plan resolves, the host is known, and some
    /// guest of the plan runs on it.
    #[verifier::loop_isolation(false)]
    pub fn validate(&self, context: &AdapterContext) -> (r: Result<(), AdapterError>)
        requires
            guest_plan_requires(&context.plan.bundle()),
        ensures
            r is Ok <==> (context.target_host matches Some(h) && guests_ok(&context.plan.bundle()) && has_key(context.plan.bundle().inventory.hosts@, h@) && guests_on(&context.plan.bundle(), h@)),
            context.target_host is None ==> r matches Err(AdapterError::TargetHostRequired { .. }),
            context.target_host matches Some(h) ==> (r matches Err(e) ==> if !guests_ok(&context.plan.bundle()) {
                e matches AdapterError::Plan(pe) && guest_plan_refusal(&context.plan.bundle(), pe)
            } else if !has_key(context.plan.bundle().inventory.hosts@, h@) {
                e matches AdapterError::UnknownProxmoxHost { host } && host@ == h@
            } else {
                e matches AdapterError::NoGuestsOnHost { host } && host@ == h@
            }),
    {
        let b = context.plan.config();
        let target = context.target_host;
        let host = match target {
            None => {
                return Err(target_required("proxmox-guests"));
            },
            Some(h) => h,
        };
        let plan = match resolve_guest_plan(b) {
            Ok(p) => p,
            Err(e) => {
                return Err(AdapterError::Plan(e));
            },
        };
        if !crate::table::contains_key(&b.inventory.hosts, host) {
            return Err(AdapterError::UnknownProxmoxHost { host: owned(host) });
        }
        let ghost views = guest_views(plan.guests@);
        let mut i: usize = 0;
        while i < plan.guests.len()
            invariant
                i <= plan.guests@.len(),
                views == guest_views(plan.guests@),
                forall|x: GuestView| #[trigger] views.contains(x) <==> exists|k: int| 0 <= k < b.guests.guests@.len() && guest_listed(b, k) && x == configured_view(b.guests.guests@[k].0@, b.guests.guests@[k].1),
                forall|j: int| 0 <= j < i ==> (#[trigger] plan.guests@[j]).host@ != host@,
            decreases plan.guests@.len() - i,
        {
            if str_eq(plan.guests[i].host.as_str(), host) {
                proof {
                    let x = views[i as int];
                    assert(views.contains(x));
                    let k = choose|k: int| 0 <= k < b.guests.guests@.len() && guest_listed(b, k) && x == configured_view(b.guests.guests@[k].0@, b.guests.guests@[k].1);
                    assert(b.guests.guests@[k].1.host@ == host@);
                }
                return Ok(());
            }
            i = i + 1;
        }
        proof {
            if guests_on(b, host@) {
                let k = choose|k: int| 0 <= k < b.guests.guests@.len() && guest_listed(b, k) && (#[trigger] b.guests.guests@[k]).1.host@ == host@;
                let x = configured_view(b.guests.guests@[k].0@, b.guests.guests@[k].1);
                assert(views.contains(x));
                let j = choose|j: int| 0 <= j < views.len() && views[j] == x;
                assert(plan.guests@[j].host@ == host@);
            }
        }
        Err(AdapterError::NoGuestsOnHost { host: owned(host) })
    }
}

impl ProxmoxSdnAdapter {
    /// A host is given and its Proxmox SDN plan resolves.
    pub fn validate(&self, context: &AdapterContext) -> (r: Result<(), AdapterError>)
        requires
            context.plan.bundle().wf(),
        ensures
            r is Ok <==> (context.target_host matches Some(h) && sdn_ok(&context.plan.bundle(), h@)),
            context.target_host is None ==> r matches Err(AdapterError::TargetHostRequired { .. }),
            context.target_host matches Some(h) ==> (r matches Err(e) ==> e matches AdapterError::Plan(pe) && sdn_refusal(&context.plan.bundle(), h@, pe)),
    {
        let b = context.plan.config();
        let target = context.target_host;
        let host = match target {
            None => {
                return Err(target_required("proxmox-sdn"));
            },
            Some(h) => h,
        };
        match resolve_proxmox_sdn_plan(b, host) {
            Ok(_) => Ok(()),
            Err(e) => Err(AdapterError::Plan(e)),
        }
    }
}

impl ProxmoxStorageAdapter {
    /// A host is given and its Proxmox storage plan resolves.
    pub fn validate(&self, context: &AdapterContext) -> (r: Result<(), AdapterError>)
        requires
            context.plan.bundle().wf(),
        ensures
            r is Ok <==> (context.target_host matches Some(h) && storage_plan_ok(&context.plan.bundle(), h@)),
            context.target_host is None ==> r matches Err(AdapterError::TargetHostRequired { .. }),
            context.target_host matches Some(h) ==> (r matches Err(e) ==> e matches AdapterError::Plan(pe) && storage_plan_refusal(&context.plan.bundle(), h@, pe)),
    {
        let b = context.plan.config();
        let target = context.target_host;
        let host = match target {
            None => {
                return Err(target_required("proxmox-storage"));
            },
            Some(h) => h,
        };
        match resolve_proxmox_storage_plan(b, host) {
            Ok(_) => Ok(()),
            Err(e) => Err(AdapterError::Plan(e)),
        }
    }
}

impl SshAdapter {
    /// A client is given and its SSH plan resolves.
    pub fn validate(&self, context: &AdapterContext) -> (r: Result<(), AdapterError>)
        requires
            context.plan.bundle().wf(),
        ensures
            r is Ok <==> (context.target_host matches Some(c) && ssh_plan_ok(&context.plan.bundle(), c@)),
            context.target_host is None ==> r matches Err(AdapterError::TargetHostRequired { .. }),
            context.target_host matches Some(c) ==> (r matches Err(e) ==> e matches AdapterError::Plan(pe) && ssh_plan_refusal(&context.plan.bundle(), c@, pe)),
    {
        let b = context.plan.config();
        let target = context.target_host;
        let client = match target {
            None => {
                return Err(target_required("ssh"));
            },
            Some(c) => c,
        };
        match resolve_ssh_plan(b, client) {
            Ok(_) => Ok(()),
            Err(e) => Err(AdapterError::Plan(e)),
        }
    }
}

impl SystemdMountAdapter {
    /// A host is given and its network mount plan resolves.
    pub fn validate(&self, context: &AdapterContext) -> (r: Result<(), AdapterError>)
        requires
            context.plan.bundle().wf(),
        ensures
            r is Ok <==> (context.target_host matches Some(h) && mount_plan_ok(&context.plan.bundle(), h@)),
            context.target_host is None ==> r matches Err(AdapterError::TargetHostRequired { .. }),
            context.target_host matches Some(h) ==> (r matches Err(e) ==> e matches AdapterError::Plan(pe) && mount_plan_refusal(&context.plan.bundle(), h@, pe)),
    {
        let b = context.plan.config();
        let target = context.target_host;
        let host = match target {
            None => {
                return Err(target_required("systemd-mounts"));
            },
            Some(h) => h,
        };
        match resolve_network_mount_plan(b, host) {
            Ok(_) => Ok(()),
            Err(e) => Err(AdapterError::Plan(e)),
        }
    }
}

} // verus!
