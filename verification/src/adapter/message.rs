//! The messages that report why an adapter cannot work with a plan.

use vstd::prelude::*;

use crate::adapter::AdapterError;
use crate::adapter::registry::RegistryError;
use crate::plan::message::plan_message;
use crate::text::{owned, put, str_eq};

verus! {

/// The message reporting that adapter `a` needs a target, naming the option
/// that gives one.
pub open spec fn target_required_message(a: Seq<char>) -> Seq<char> {
    if a == "docker"@ {
        "Docker adapter requires --host"@
    } else if a == "env"@ {
        "environment adapter requires a target host"@
    } else if a == "synology-nfs-permissions"@ {
        "Synology NFS permission adapter requires --nas"@
    } else if a == "netplan"@ {
        "Netplan adapter requires --host"@
    } else if a == "proxmox"@ {
        "Proxmox adapter requires --host"@
    } else if a == "proxmox-guests"@ {
        "Proxmox guest adapter requires --host"@
    } else if a == "proxmox-sdn"@ {
        "Proxmox SDN adapter requires --host"@
    } else if a == "proxmox-storage"@ {
        "Proxmox storage adapter requires --host"@
    } else if a == "ssh"@ {
        "SSH adapter requires --client"@
    } else if a == "systemd-mounts"@ {
        "systemd mount adapter requires --host"@
    } else {
        a + " adapter requires --host"@
    }
}

fn target_required_text(a: &str) -> (r: String)
    ensures
        r@ == target_required_message(a@),
{
    if str_eq(a, "docker") {
        owned("Docker adapter requires --host")
    } else if str_eq(a, "env") {
        owned("environment adapter requires a target host")
    } else if str_eq(a, "synology-nfs-permissions") {
        owned("Synology NFS permission adapter requires --nas")
    } else if str_eq(a, "netplan") {
        owned("Netplan adapter requires --host")
    } else if str_eq(a, "proxmox") {
        owned("Proxmox adapter requires --host")
    } else if str_eq(a, "proxmox-guests") {
        owned("Proxmox guest adapter requires --host")
    } else if str_eq(a, "proxmox-sdn") {
        owned("Proxmox SDN adapter requires --host")
    } else if str_eq(a, "proxmox-storage") {
        owned("Proxmox storage adapter requires --host")
    } else if str_eq(a, "ssh") {
        owned("SSH adapter requires --client")
    } else if str_eq(a, "systemd-mounts") {
        owned("systemd mount adapter requires --host")
    } else {
        let mut m = owned(a);
        put(&mut m, " adapter requires --host");
        m
    }
}

/// The message reporting `e`, naming what is involved.
pub open spec fn adapter_message(e: AdapterError) -> Seq<char> {
    match e {
        AdapterError::TargetHostRequired { adapter } => target_required_message(adapter@),
        AdapterError::NoProxyEntries => "Nginx adapter has no resolved proxy entries"@,
        AdapterError::MultipleProxyHosts => "Nginx adapter requires --host when proxies target multiple hosts"@,
        AdapterError::NoProxiesForHost { host, .. } => "Nginx adapter has no proxy entries for host '"@ + host@ + "'"@,
        AdapterError::TlsWithoutCertificate { proxy, .. } => "proxy '"@ + proxy@ + "' enables TLS but has no certificate reference for the Nginx adapter"@,
        AdapterError::NotProxmoxProvider { host, .. } => "host '"@ + host@ + "' does not use the proxmox-ifupdown2 provider"@,
        AdapterError::NoBridges { host, .. } => "host '"@ + host@ + "' has no network bridges"@,
        AdapterError::ManagementBridgeCount { host, .. } => "host '"@ + host@ + "' must resolve exactly one management bridge"@,
        AdapterError::OutsideRoot { path, root, .. } => path@ + " is outside "@ + root@,
        AdapterError::UnknownProxmoxHost { host, .. } => "unknown Proxmox host '"@ + host@ + "'"@,
        AdapterError::NoGuestsOnHost { host, .. } => "host '"@ + host@ + "' has no configured Proxmox guests"@,
        AdapterError::Plan(p) => plan_message(p),
    }
}

impl AdapterError {
    /// The message reporting this error.
    pub fn message(&self) -> (r: String)
        ensures
            r@ == adapter_message(*self),
    {
        match self {
            AdapterError::TargetHostRequired { adapter } => target_required_text(adapter.as_str()),
            AdapterError::NoProxyEntries => owned("Nginx adapter has no resolved proxy entries"),
            AdapterError::MultipleProxyHosts => owned("Nginx adapter requires --host when proxies target multiple hosts"),
            AdapterError::NoProxiesForHost { host, .. } => {
                let mut m = owned("Nginx adapter has no proxy entries for host '");
                put(&mut m, host.as_str());
                put(&mut m, "'");
                m
            },
            AdapterError::TlsWithoutCertificate { proxy, .. } => {
                let mut m = owned("proxy '");
                put(&mut m, proxy.as_str());
                put(&mut m, "' enables TLS but has no certificate reference for the Nginx adapter");
                m
            },
            AdapterError::NotProxmoxProvider { host, .. } => {
                let mut m = owned("host '");
                put(&mut m, host.as_str());
                put(&mut m, "' does not use the proxmox-ifupdown2 provider");
                m
            },
            AdapterError::NoBridges { host, .. } => {
                let mut m = owned("host '");
                put(&mut m, host.as_str());
                put(&mut m, "' has no network bridges");
                m
            },
            AdapterError::ManagementBridgeCount { host, .. } => {
                let mut m = owned("host '");
                put(&mut m, host.as_str());
                put(&mut m, "' must resolve exactly one management bridge");
                m
            },
            AdapterError::OutsideRoot { path, root, .. } => {
                let mut m = owned(path.as_str());
                put(&mut m, " is outside ");
                put(&mut m, root.as_str());
                m
            },
            AdapterError::UnknownProxmoxHost { host, .. } => {
                let mut m = owned("unknown Proxmox host '");
                put(&mut m, host.as_str());
                put(&mut m, "'");
                m
            },
            AdapterError::NoGuestsOnHost { host, .. } => {
                let mut m = owned("host '");
                put(&mut m, host.as_str());
                put(&mut m, "' has no configured Proxmox guests");
                m
            },
            AdapterError::Plan(p) => p.message(),
        }
    }
}

/// The message reporting `e`.
pub open spec fn registry_message(e: RegistryError) -> Seq<char> {
    match e {
        RegistryError::AlreadyRegistered { id } => "adapter '"@ + id@ + "' is already registered"@,
        RegistryError::UnknownAdapter { id } => "unknown adapter '"@ + id@ + "'"@,
    }
}

impl RegistryError {
    /// The message reporting this error.
    pub fn message(&self) -> (r: String)
        ensures
            r@ == registry_message(*self),
    {
        match self {
            RegistryError::AlreadyRegistered { id } => {
                let mut m = owned("adapter '");
                put(&mut m, id.as_str());
                put(&mut m, "' is already registered");
                m
            },
            RegistryError::UnknownAdapter { id } => {
                let mut m = owned("unknown adapter '");
                put(&mut m, id.as_str());
                put(&mut m, "'");
                m
            },
        }
    }
}

} // verus!
