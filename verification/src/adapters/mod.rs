//! The adapters shipped with Netweft and the checks they make of a plan.

pub mod nginx;
pub mod proxmox;
pub mod validation;

use vstd::prelude::*;

use crate::adapter::registry::{AdapterRegistry, RegistryError};
use crate::adapter::{AdapterId, AdapterMetadata, Capability};
use crate::text::owned;

verus! {

/// The BIND 9 configuration adapter.
#[derive(Debug, Default, Clone, Copy)]
pub struct BindAdapter;

impl BindAdapter {
    pub fn metadata(&self) -> (r: AdapterMetadata)
        ensures
            r.id@ == "bind"@,
            r.name@ == "BIND 9"@,
            r.description@ == "Render authoritative and recursive BIND configuration"@,
            r.capabilities@ == seq![Capability::AuthoritativeDns, Capability::RecursiveDns],
    {
        let mut capabilities: Vec<Capability> = Vec::new();
        capabilities.push(Capability::AuthoritativeDns);
        capabilities.push(Capability::RecursiveDns);
        AdapterMetadata {
            id: AdapterId::new("bind"),
            name: "BIND 9",
            description: "Render authoritative and recursive BIND configuration",
            capabilities,
        }
    }
}

/// The Cloudflare tunnel and DNS adapter.
#[derive(Debug, Default, Clone, Copy)]
pub struct CloudflareAdapter;

impl CloudflareAdapter {
    pub fn metadata(&self) -> (r: AdapterMetadata)
        ensures
            r.id@ == "cloudflare"@,
            r.name@ == "Cloudflare ingress"@,
            r.description@ == "Render location-aware Cloudflare Tunnel and DNS reconciliation"@,
            r.capabilities@ == seq![Capability::ExternalIngress, Capability::CloudflareDns, Capability::CloudflareTunnel],
    {
        let mut capabilities: Vec<Capability> = Vec::new();
        capabilities.push(Capability::ExternalIngress);
        capabilities.push(Capability::CloudflareDns);
        capabilities.push(Capability::CloudflareTunnel);
        AdapterMetadata {
            id: AdapterId::new("cloudflare"),
            name: "Cloudflare ingress",
            description: "Render location-aware Cloudflare Tunnel and DNS reconciliation",
            capabilities,
        }
    }
}

/// The Docker networking adapter.
#[derive(Debug, Default, Clone, Copy)]
pub struct DockerAdapter;

impl DockerAdapter {
    pub fn metadata(&self) -> (r: AdapterMetadata)
        ensures
            r.id@ == "docker"@,
            r.name@ == "Docker networking"@,
            r.description@ == "Render Docker daemon and named bridge network reconciliation"@,
            r.capabilities@ == seq![Capability::DockerNetworking],
    {
        let mut capabilities: Vec<Capability> = Vec::new();
        capabilities.push(Capability::DockerNetworking);
        AdapterMetadata {
            id: AdapterId::new("docker"),
            name: "Docker networking",
            description: "Render Docker daemon and named bridge network reconciliation",
            capabilities,
        }
    }
}

/// The host environment adapter.
#[derive(Debug, Default, Clone, Copy)]
pub struct EnvironmentAdapter;

impl EnvironmentAdapter {
    pub fn metadata(&self) -> (r: AdapterMetadata)
        ensures
            r.id@ == "env"@,
            r.name@ == "Host environment"@,
            r.description@ == "Render Compose and shell environment files for a host"@,
            r.capabilities@ == seq![Capability::HostEnvironment],
    {
        let mut capabilities: Vec<Capability> = Vec::new();
        capabilities.push(Capability::HostEnvironment);
        AdapterMetadata {
            id: AdapterId::new("env"),
            name: "Host environment",
            description: "Render Compose and shell environment files for a host",
            capabilities,
        }
    }
}

/// The Synology NFS permission adapter.
#[derive(Debug, Default, Clone, Copy)]
pub struct NasPermissionAdapter;

impl NasPermissionAdapter {
    pub fn metadata(&self) -> (r: AdapterMetadata)
        ensures
            r.id@ == "synology-nfs-permissions"@,
            r.name@ == "Synology NFS permissions"@,
            r.description@ == "Render location-resolved Synology NFS permission action plans"@,
            r.capabilities@ == seq![Capability::NasPermissions],
    {
        let mut capabilities: Vec<Capability> = Vec::new();
        capabilities.push(Capability::NasPermissions);
        AdapterMetadata {
            id: AdapterId::new("synology-nfs-permissions"),
            name: "Synology NFS permissions",
            description: "Render location-resolved Synology NFS permission action plans",
            capabilities,
        }
    }
}

/// The Netplan adapter.
#[derive(Debug, Default, Clone, Copy)]
pub struct NetplanAdapter;

impl NetplanAdapter {
    pub fn metadata(&self) -> (r: AdapterMetadata)
        ensures
            r.id@ == "netplan"@,
            r.name@ == "Netplan"@,
            r.description@ == "Render Ubuntu Netplan configuration with guarded deployment and rollback"@,
            r.capabilities@ == seq![Capability::HostNetworking],
    {
        let mut capabilities: Vec<Capability> = Vec::new();
        capabilities.push(Capability::HostNetworking);
        AdapterMetadata {
            id: AdapterId::new("netplan"),
            name: "Netplan",
            description: "Render Ubuntu Netplan configuration with guarded deployment and rollback",
            capabilities,
        }
    }
}

/// The Nginx reverse-proxy adapter.
#[derive(Debug, Default, Clone, Copy)]
pub struct NginxAdapter;

impl NginxAdapter {
    pub fn metadata(&self) -> (r: AdapterMetadata)
        ensures
            r.id@ == "nginx"@,
            r.name@ == "Nginx"@,
            r.description@ == "Render native Nginx reverse-proxy configuration"@,
            r.capabilities@ == seq![Capability::ReverseProxy, Capability::CertificateIntent],
    {
        let mut capabilities: Vec<Capability> = Vec::new();
        capabilities.push(Capability::ReverseProxy);
        capabilities.push(Capability::CertificateIntent);
        AdapterMetadata {
            id: AdapterId::new("nginx"),
            name: "Nginx",
            description: "Render native Nginx reverse-proxy configuration",
            capabilities,
        }
    }
}

/// The Proxmox host networking adapter.
#[derive(Debug, Default, Clone, Copy)]
pub struct ProxmoxAdapter;

impl ProxmoxAdapter {
    pub fn metadata(&self) -> (r: AdapterMetadata)
        ensures
            r.id@ == "proxmox"@,
            r.name@ == "Proxmox"@,
            r.description@ == "Render Proxmox ifupdown2 host networking"@,
            r.capabilities@ == seq![Capability::HostNetworking],
    {
        let mut capabilities: Vec<Capability> = Vec::new();
        capabilities.push(Capability::HostNetworking);
        AdapterMetadata {
            id: AdapterId::new("proxmox"),
            name: "Proxmox",
            description: "Render Proxmox ifupdown2 host networking",
            capabilities,
        }
    }
}

/// The Proxmox guest adapter.
#[derive(Debug, Default, Clone, Copy)]
pub struct ProxmoxGuestAdapter;

impl ProxmoxGuestAdapter {
    pub fn metadata(&self) -> (r: AdapterMetadata)
        ensures
            r.id@ == "proxmox-guests"@,
            r.name@ == "Proxmox guests"@,
            r.description@ == "Render safe Proxmox VM and LXC reconciliation scripts"@,
            r.capabilities@ == seq![Capability::ProxmoxGuests],
    {
        let mut capabilities: Vec<Capability> = Vec::new();
        capabilities.push(Capability::ProxmoxGuests);
        AdapterMetadata {
            id: AdapterId::new("proxmox-guests"),
            name: "Proxmox guests",
            description: "Render safe Proxmox VM and LXC reconciliation scripts",
            capabilities,
        }
    }
}

/// The Proxmox SDN adapter.
#[derive(Debug, Default, Clone, Copy)]
pub struct ProxmoxSdnAdapter;

impl ProxmoxSdnAdapter {
    pub fn metadata(&self) -> (r: AdapterMetadata)
        ensures
            r.id@ == "proxmox-sdn"@,
            r.name@ == "Proxmox SDN"@,
            r.description@ == "Render Proxmox SDN zone, VNet, and subnet reconciliation"@,
            r.capabilities@ == seq![Capability::ProxmoxSdn],
    {
        let mut capabilities: Vec<Capability> = Vec::new();
        capabilities.push(Capability::ProxmoxSdn);
        AdapterMetadata {
            id: AdapterId::new("proxmox-sdn"),
            name: "Proxmox SDN",
            description: "Render Proxmox SDN zone, VNet, and subnet reconciliation",
            capabilities,
        }
    }
}

/// The Proxmox storage adapter.
#[derive(Debug, Default, Clone, Copy)]
pub struct ProxmoxStorageAdapter;

impl ProxmoxStorageAdapter {
    pub fn metadata(&self) -> (r: AdapterMetadata)
        ensures
            r.id@ == "proxmox-storage"@,
            r.name@ == "Proxmox storage"@,
            r.description@ == "Render identity-resolved Proxmox storage configuration and deployment scripts"@,
            r.capabilities@ == seq![Capability::ProxmoxStorage],
    {
        let mut capabilities: Vec<Capability> = Vec::new();
        capabilities.push(Capability::ProxmoxStorage);
        AdapterMetadata {
            id: AdapterId::new("proxmox-storage"),
            name: "Proxmox storage",
            description: "Render identity-resolved Proxmox storage configuration and deployment scripts",
            capabilities,
        }
    }
}

/// The OpenSSH client adapter.
#[derive(Debug, Default, Clone, Copy)]
pub struct SshAdapter;

impl SshAdapter {
    pub fn metadata(&self) -> (r: AdapterMetadata)
        ensures
            r.id@ == "ssh"@,
            r.name@ == "SSH client"@,
            r.description@ == "Render location-resolved OpenSSH client configuration"@,
            r.capabilities@ == seq![Capability::SshClientConfig],
    {
        let mut capabilities: Vec<Capability> = Vec::new();
        capabilities.push(Capability::SshClientConfig);
        AdapterMetadata {
            id: AdapterId::new("ssh"),
            name: "SSH client",
            description: "Render location-resolved OpenSSH client configuration",
            capabilities,
        }
    }
}

/// The systemd network mount adapter.
#[derive(Debug, Default, Clone, Copy)]
pub struct SystemdMountAdapter;

impl SystemdMountAdapter {
    pub fn metadata(&self) -> (r: AdapterMetadata)
        ensures
            r.id@ == "systemd-mounts"@,
            r.name@ == "systemd network mounts"@,
            r.description@ == "Render systemd network mount units and dependent service drop-ins"@,
            r.capabilities@ == seq![Capability::NetworkMounts],
    {
        let mut capabilities: Vec<Capability> = Vec::new();
        capabilities.push(Capability::NetworkMounts);
        AdapterMetadata {
            id: AdapterId::new("systemd-mounts"),
            name: "systemd network mounts",
            description: "Render systemd network mount units and dependent service drop-ins",
            capabilities,
        }
    }
}

/// One of the adapters shipped with Netweft.
#[derive(Clone, Copy, Debug, PartialEq, Eq, Structural)]
pub enum BuiltinAdapter {
    Bind,
    Cloudflare,
    Docker,
    Environment,
    NasPermission,
    Netplan,
    Nginx,
    Proxmox,
    ProxmoxGuest,
    ProxmoxSdn,
    ProxmoxStorage,
    Ssh,
    SystemdMount,
}

/// The identifier of a built-in adapter.
pub open spec fn builtin_id(a: BuiltinAdapter) -> Seq<char> {
    match a {
        BuiltinAdapter::Bind => "bind"@,
        BuiltinAdapter::Cloudflare => "cloudflare"@,
        BuiltinAdapter::Docker => "docker"@,
        BuiltinAdapter::Environment => "env"@,
        BuiltinAdapter::NasPermission => "synology-nfs-permissions"@,
        BuiltinAdapter::Netplan => "netplan"@,
        BuiltinAdapter::Nginx => "nginx"@,
        BuiltinAdapter::Proxmox => "proxmox"@,
        BuiltinAdapter::ProxmoxGuest => "proxmox-guests"@,
        BuiltinAdapter::ProxmoxSdn => "proxmox-sdn"@,
        BuiltinAdapter::ProxmoxStorage => "proxmox-storage"@,
        BuiltinAdapter::Ssh => "ssh"@,
        BuiltinAdapter::SystemdMount => "systemd-mounts"@,
    }
}

/// The display name of a built-in adapter.
pub open spec fn builtin_name(a: BuiltinAdapter) -> Seq<char> {
    match a {
        BuiltinAdapter::Bind => "BIND 9"@,
        BuiltinAdapter::Cloudflare => "Cloudflare ingress"@,
        BuiltinAdapter::Docker => "Docker networking"@,
        BuiltinAdapter::Environment => "Host environment"@,
        BuiltinAdapter::NasPermission => "Synology NFS permissions"@,
        BuiltinAdapter::Netplan => "Netplan"@,
        BuiltinAdapter::Nginx => "Nginx"@,
        BuiltinAdapter::Proxmox => "Proxmox"@,
        BuiltinAdapter::ProxmoxGuest => "Proxmox guests"@,
        BuiltinAdapter::ProxmoxSdn => "Proxmox SDN"@,
        BuiltinAdapter::ProxmoxStorage => "Proxmox storage"@,
        BuiltinAdapter::Ssh => "SSH client"@,
        BuiltinAdapter::SystemdMount => "systemd network mounts"@,
    }
}

/// What a built-in adapter renders.
pub open spec fn builtin_description(a: BuiltinAdapter) -> Seq<char> {
    match a {
        BuiltinAdapter::Bind => "Render authoritative and recursive BIND configuration"@,
        BuiltinAdapter::Cloudflare => "Render location-aware Cloudflare Tunnel and DNS reconciliation"@,
        BuiltinAdapter::Docker => "Render Docker daemon and named bridge network reconciliation"@,
        BuiltinAdapter::Environment => "Render Compose and shell environment files for a host"@,
        BuiltinAdapter::NasPermission => "Render location-resolved Synology NFS permission action plans"@,
        BuiltinAdapter::Netplan => "Render Ubuntu Netplan configuration with guarded deployment and rollback"@,
        BuiltinAdapter::Nginx => "Render native Nginx reverse-proxy configuration"@,
        BuiltinAdapter::Proxmox => "Render Proxmox ifupdown2 host networking"@,
        BuiltinAdapter::ProxmoxGuest => "Render safe Proxmox VM and LXC reconciliation scripts"@,
        BuiltinAdapter::ProxmoxSdn => "Render Proxmox SDN zone, VNet, and subnet reconciliation"@,
        BuiltinAdapter::ProxmoxStorage => "Render identity-resolved Proxmox storage configuration and deployment scripts"@,
        BuiltinAdapter::Ssh => "Render location-resolved OpenSSH client configuration"@,
        BuiltinAdapter::SystemdMount => "Render systemd network mount units and dependent service drop-ins"@,
    }
}

/// The capabilities of a built-in adapter, in the order it lists them.
pub open spec fn builtin_capabilities(a: BuiltinAdapter) -> Seq<Capability> {
    match a {
        BuiltinAdapter::Bind => seq![Capability::AuthoritativeDns, Capability::RecursiveDns],
        BuiltinAdapter::Cloudflare => seq![Capability::ExternalIngress, Capability::CloudflareDns, Capability::CloudflareTunnel],
        BuiltinAdapter::Docker => seq![Capability::DockerNetworking],
        BuiltinAdapter::Environment => seq![Capability::HostEnvironment],
        BuiltinAdapter::NasPermission => seq![Capability::NasPermissions],
        BuiltinAdapter::Netplan => seq![Capability::HostNetworking],
        BuiltinAdapter::Nginx => seq![Capability::ReverseProxy, Capability::CertificateIntent],
        BuiltinAdapter::Proxmox => seq![Capability::HostNetworking],
        BuiltinAdapter::ProxmoxGuest => seq![Capability::ProxmoxGuests],
        BuiltinAdapter::ProxmoxSdn => seq![Capability::ProxmoxSdn],
        BuiltinAdapter::ProxmoxStorage => seq![Capability::ProxmoxStorage],
        BuiltinAdapter::Ssh => seq![Capability::SshClientConfig],
        BuiltinAdapter::SystemdMount => seq![Capability::NetworkMounts],
    }
}

impl BuiltinAdapter {
    /// The adapter's metadata.
    pub fn metadata(&self) -> (r: AdapterMetadata)
        ensures
            r.id@ == builtin_id(*self),
            r.name@ == builtin_name(*self),
            r.description@ == builtin_description(*self),
            r.capabilities@ == builtin_capabilities(*self),
    {
        match self {
            BuiltinAdapter::Bind => BindAdapter.metadata(),
            BuiltinAdapter::Cloudflare => CloudflareAdapter.metadata(),
            BuiltinAdapter::Docker => DockerAdapter.metadata(),
            BuiltinAdapter::Environment => EnvironmentAdapter.metadata(),
            BuiltinAdapter::NasPermission => NasPermissionAdapter.metadata(),
            BuiltinAdapter::Netplan => NetplanAdapter.metadata(),
            BuiltinAdapter::Nginx => NginxAdapter.metadata(),
            BuiltinAdapter::Proxmox => ProxmoxAdapter.metadata(),
            BuiltinAdapter::ProxmoxGuest => ProxmoxGuestAdapter.metadata(),
            BuiltinAdapter::ProxmoxSdn => ProxmoxSdnAdapter.metadata(),
            BuiltinAdapter::ProxmoxStorage => ProxmoxStorageAdapter.metadata(),
            BuiltinAdapter::Ssh => SshAdapter.metadata(),
            BuiltinAdapter::SystemdMount => SystemdMountAdapter.metadata(),
        }
    }
}

/// The identifiers of the built-in adapters.
pub open spec fn builtin_ids() -> Set<Seq<char>> {
    set!["bind"@] + set!["cloudflare"@] + set!["docker"@] + set!["env"@] + set!["synology-nfs-permissions"@] + set!["netplan"@] + set!["nginx"@] + set!["proxmox"@] + set!["proxmox-guests"@] + set!["proxmox-sdn"@] + set!["proxmox-storage"@] + set!["ssh"@] + set!["systemd-mounts"@]
}

/// The registry of the adapters shipped with Netweft, each under its
/// identifier.
#[verifier::rlimit(60)]
pub fn builtin_registry() -> (r: Result<AdapterRegistry<BuiltinAdapter>, RegistryError>)
    ensures
        r matches Ok(reg) && reg.wf() && reg.map().dom() == builtin_ids() && forall|id: Seq<char>| #[trigger] reg.map().dom().contains(id) ==> builtin_id(reg.map()[id]) == id,
{
    proof {
        reveal_strlit("bind");
        reveal_strlit("cloudflare");
        reveal_strlit("docker");
        reveal_strlit("env");
        reveal_strlit("synology-nfs-permissions");
        reveal_strlit("netplan");
        reveal_strlit("nginx");
        reveal_strlit("proxmox");
        reveal_strlit("proxmox-guests");
        reveal_strlit("proxmox-sdn");
        reveal_strlit("proxmox-storage");
        reveal_strlit("ssh");
        reveal_strlit("systemd-mounts");
        assert("cloudflare"@ != "bind"@) by { assert("cloudflare"@.len() != "bind"@.len()); }
        assert("docker"@ != "bind"@) by { assert("docker"@.len() != "bind"@.len()); }
        assert("docker"@ != "cloudflare"@) by { assert("docker"@.len() != "cloudflare"@.len()); }
        assert("env"@ != "bind"@) by { assert("env"@.len() != "bind"@.len()); }
        assert("env"@ != "cloudflare"@) by { assert("env"@.len() != "cloudflare"@.len()); }
        assert("env"@ != "docker"@) by { assert("env"@.len() != "docker"@.len()); }
        assert("synology-nfs-permissions"@ != "bind"@) by { assert("synology-nfs-permissions"@.len() != "bind"@.len()); }
        assert("synology-nfs-permissions"@ != "cloudflare"@) by { assert("synology-nfs-permissions"@.len() != "cloudflare"@.len()); }
        assert("synology-nfs-permissions"@ != "docker"@) by { assert("synology-nfs-permissions"@.len() != "docker"@.len()); }
        assert("synology-nfs-permissions"@ != "env"@) by { assert("synology-nfs-permissions"@.len() != "env"@.len()); }
        assert("netplan"@ != "bind"@) by { assert("netplan"@.len() != "bind"@.len()); }
        assert("netplan"@ != "cloudflare"@) by { assert("netplan"@.len() != "cloudflare"@.len()); }
        assert("netplan"@ != "docker"@) by { assert("netplan"@.len() != "docker"@.len()); }
        assert("netplan"@ != "env"@) by { assert("netplan"@.len() != "env"@.len()); }
        assert("netplan"@ != "synology-nfs-permissions"@) by { assert("netplan"@.len() != "synology-nfs-permissions"@.len()); }
        assert("nginx"@ != "bind"@) by { assert("nginx"@.len() != "bind"@.len()); }
        assert("nginx"@ != "cloudflare"@) by { assert("nginx"@.len() != "cloudflare"@.len()); }
        assert("nginx"@ != "docker"@) by { assert("nginx"@.len() != "docker"@.len()); }
        assert("nginx"@ != "env"@) by { assert("nginx"@.len() != "env"@.len()); }
        assert("nginx"@ != "synology-nfs-permissions"@) by { assert("nginx"@.len() != "synology-nfs-permissions"@.len()); }
        assert("nginx"@ != "netplan"@) by { assert("nginx"@.len() != "netplan"@.len()); }
        assert("proxmox"@ != "bind"@) by { assert("proxmox"@.len() != "bind"@.len()); }
        assert("proxmox"@ != "cloudflare"@) by { assert("proxmox"@.len() != "cloudflare"@.len()); }
        assert("proxmox"@ != "docker"@) by { assert("proxmox"@.len() != "docker"@.len()); }
        assert("proxmox"@ != "env"@) by { assert("proxmox"@.len() != "env"@.len()); }
        assert("proxmox"@ != "synology-nfs-permissions"@) by { assert("proxmox"@.len() != "synology-nfs-permissions"@.len()); }
        assert("proxmox"@ != "netplan"@) by { assert("proxmox"@[0] != "netplan"@[0]); }
        assert("proxmox"@ != "nginx"@) by { assert("proxmox"@.len() != "nginx"@.len()); }
        assert("proxmox-guests"@ != "bind"@) by { assert("proxmox-guests"@.len() != "bind"@.len()); }
        assert("proxmox-guests"@ != "cloudflare"@) by { assert("proxmox-guests"@.len() != "cloudflare"@.len()); }
        assert("proxmox-guests"@ != "docker"@) by { assert("proxmox-guests"@.len() != "docker"@.len()); }
        assert("proxmox-guests"@ != "env"@) by { assert("proxmox-guests"@.len() != "env"@.len()); }
        assert("proxmox-guests"@ != "synology-nfs-permissions"@) by { assert("proxmox-guests"@.len() != "synology-nfs-permissions"@.len()); }
        assert("proxmox-guests"@ != "netplan"@) by { assert("proxmox-guests"@.len() != "netplan"@.len()); }
        assert("proxmox-guests"@ != "nginx"@) by { assert("proxmox-guests"@.len() != "nginx"@.len()); }
        assert("proxmox-guests"@ != "proxmox"@) by { assert("proxmox-guests"@.len() != "proxmox"@.len()); }
        assert("proxmox-sdn"@ != "bind"@) by { assert("proxmox-sdn"@.len() != "bind"@.len()); }
        assert("proxmox-sdn"@ != "cloudflare"@) by { assert("proxmox-sdn"@.len() != "cloudflare"@.len()); }
        assert("proxmox-sdn"@ != "docker"@) by { assert("proxmox-sdn"@.len() != "docker"@.len()); }
        assert("proxmox-sdn"@ != "env"@) by { assert("proxmox-sdn"@.len() != "env"@.len()); }
        assert("proxmox-sdn"@ != "synology-nfs-permissions"@) by { assert("proxmox-sdn"@.len() != "synology-nfs-permissions"@.len()); }
        assert("proxmox-sdn"@ != "netplan"@) by { assert("proxmox-sdn"@.len() != "netplan"@.len()); }
        assert("proxmox-sdn"@ != "nginx"@) by { assert("proxmox-sdn"@.len() != "nginx"@.len()); }
        assert("proxmox-sdn"@ != "proxmox"@) by { assert("proxmox-sdn"@.len() != "proxmox"@.len()); }
        assert("proxmox-sdn"@ != "proxmox-guests"@) by { assert("proxmox-sdn"@.len() != "proxmox-guests"@.len()); }
        assert("proxmox-storage"@ != "bind"@) by { assert("proxmox-storage"@.len() != "bind"@.len()); }
        assert("proxmox-storage"@ != "cloudflare"@) by { assert("proxmox-storage"@.len() != "cloudflare"@.len()); }
        assert("proxmox-storage"@ != "docker"@) by { assert("proxmox-storage"@.len() != "docker"@.len()); }
        assert("proxmox-storage"@ != "env"@) by { assert("proxmox-storage"@.len() != "env"@.len()); }
        assert("proxmox-storage"@ != "synology-nfs-permissions"@) by { assert("proxmox-storage"@.len() != "synology-nfs-permissions"@.len()); }
        assert("proxmox-storage"@ != "netplan"@) by { assert("proxmox-storage"@.len() != "netplan"@.len()); }
        assert("proxmox-storage"@ != "nginx"@) by { assert("proxmox-storage"@.len() != "nginx"@.len()); }
        assert("proxmox-storage"@ != "proxmox"@) by { assert("proxmox-storage"@.len() != "proxmox"@.len()); }
        assert("proxmox-storage"@ != "proxmox-guests"@) by { assert("proxmox-storage"@.len() != "proxmox-guests"@.len()); }
        assert("proxmox-storage"@ != "proxmox-sdn"@) by { assert("proxmox-storage"@.len() != "proxmox-sdn"@.len()); }
        assert("ssh"@ != "bind"@) by { assert("ssh"@.len() != "bind"@.len()); }
        assert("ssh"@ != "cloudflare"@) by { assert("ssh"@.len() != "cloudflare"@.len()); }
        assert("ssh"@ != "docker"@) by { assert("ssh"@.len() != "docker"@.len()); }
        assert("ssh"@ != "env"@) by { assert("ssh"@[0] != "env"@[0]); }
        assert("ssh"@ != "synology-nfs-permissions"@) by { assert("ssh"@.len() != "synology-nfs-permissions"@.len()); }
        assert("ssh"@ != "netplan"@) by { assert("ssh"@.len() != "netplan"@.len()); }
        assert("ssh"@ != "nginx"@) by { assert("ssh"@.len() != "nginx"@.len()); }
        assert("ssh"@ != "proxmox"@) by { assert("ssh"@.len() != "proxmox"@.len()); }
        assert("ssh"@ != "proxmox-guests"@) by { assert("ssh"@.len() != "proxmox-guests"@.len()); }
        assert("ssh"@ != "proxmox-sdn"@) by { assert("ssh"@.len() != "proxmox-sdn"@.len()); }
        assert("ssh"@ != "proxmox-storage"@) by { assert("ssh"@.len() != "proxmox-storage"@.len()); }
        assert("systemd-mounts"@ != "bind"@) by { assert("systemd-mounts"@.len() != "bind"@.len()); }
        assert("systemd-mounts"@ != "cloudflare"@) by { assert("systemd-mounts"@.len() != "cloudflare"@.len()); }
        assert("systemd-mounts"@ != "docker"@) by { assert("systemd-mounts"@.len() != "docker"@.len()); }
        assert("systemd-mounts"@ != "env"@) by { assert("systemd-mounts"@.len() != "env"@.len()); }
        assert("systemd-mounts"@ != "synology-nfs-permissions"@) by { assert("systemd-mounts"@.len() != "synology-nfs-permissions"@.len()); }
        assert("systemd-mounts"@ != "netplan"@) by { assert("systemd-mounts"@.len() != "netplan"@.len()); }
        assert("systemd-mounts"@ != "nginx"@) by { assert("systemd-mounts"@.len() != "nginx"@.len()); }
        assert("systemd-mounts"@ != "proxmox"@) by { assert("systemd-mounts"@.len() != "proxmox"@.len()); }
        assert("systemd-mounts"@ != "proxmox-guests"@) by { assert("systemd-mounts"@[0] != "proxmox-guests"@[0]); }
        assert("systemd-mounts"@ != "proxmox-sdn"@) by { assert("systemd-mounts"@.len() != "proxmox-sdn"@.len()); }
        assert("systemd-mounts"@ != "proxmox-storage"@) by { assert("systemd-mounts"@.len() != "proxmox-storage"@.len()); }
        assert("systemd-mounts"@ != "ssh"@) by { assert("systemd-mounts"@.len() != "ssh"@.len()); }
    }
    let mut registry: AdapterRegistry<BuiltinAdapter> = AdapterRegistry::new();
    let r = registry.register(AdapterId::new("bind"), BuiltinAdapter::Bind);
    if r.is_err() {
        return Err(RegistryError::AlreadyRegistered { id: owned("bind") });
    }
    let r = registry.register(AdapterId::new("cloudflare"), BuiltinAdapter::Cloudflare);
    if r.is_err() {
        return Err(RegistryError::AlreadyRegistered { id: owned("cloudflare") });
    }
    let r = registry.register(AdapterId::new("docker"), BuiltinAdapter::Docker);
    if r.is_err() {
        return Err(RegistryError::AlreadyRegistered { id: owned("docker") });
    }
    let r = registry.register(AdapterId::new("env"), BuiltinAdapter::Environment);
    if r.is_err() {
        return Err(RegistryError::AlreadyRegistered { id: owned("env") });
    }
    let r = registry.register(AdapterId::new("synology-nfs-permissions"), BuiltinAdapter::NasPermission);
    if r.is_err() {
        return Err(RegistryError::AlreadyRegistered { id: owned("synology-nfs-permissions") });
    }
    let r = registry.register(AdapterId::new("netplan"), BuiltinAdapter::Netplan);
    if r.is_err() {
        return Err(RegistryError::AlreadyRegistered { id: owned("netplan") });
    }
    let r = registry.register(AdapterId::new("nginx"), BuiltinAdapter::Nginx);
    if r.is_err() {
        return Err(RegistryError::AlreadyRegistered { id: owned("nginx") });
    }
    let r = registry.register(AdapterId::new("proxmox"), BuiltinAdapter::Proxmox);
    if r.is_err() {
        return Err(RegistryError::AlreadyRegistered { id: owned("proxmox") });
    }
    let r = registry.register(AdapterId::new("proxmox-guests"), BuiltinAdapter::ProxmoxGuest);
    if r.is_err() {
        return Err(RegistryError::AlreadyRegistered { id: owned("proxmox-guests") });
    }
    let r = registry.register(AdapterId::new("proxmox-sdn"), BuiltinAdapter::ProxmoxSdn);
    if r.is_err() {
        return Err(RegistryError::AlreadyRegistered { id: owned("proxmox-sdn") });
    }
    let r = registry.register(AdapterId::new("proxmox-storage"), BuiltinAdapter::ProxmoxStorage);
    if r.is_err() {
        return Err(RegistryError::AlreadyRegistered { id: owned("proxmox-storage") });
    }
    let r = registry.register(AdapterId::new("ssh"), BuiltinAdapter::Ssh);
    if r.is_err() {
        return Err(RegistryError::AlreadyRegistered { id: owned("ssh") });
    }
    let r = registry.register(AdapterId::new("systemd-mounts"), BuiltinAdapter::SystemdMount);
    if r.is_err() {
        return Err(RegistryError::AlreadyRegistered { id: owned("systemd-mounts") });
    }
    proof {
        assert(registry.map().dom() =~= builtin_ids());
    }
    Ok(registry)
}

} // verus!
