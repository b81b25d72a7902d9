use netweft::adapter::registry::AdapterRegistry;
use netweft::adapter::{AdapterId, Capability};
use netweft::adapters::{builtin_registry, BuiltinAdapter};

#[test]
fn registry_exposes_cloudflare_ingress() {
    let metadata = builtin_registry()
        .unwrap()
        .get("cloudflare")
        .unwrap()
        .metadata();
    assert!(metadata.capabilities.contains(&Capability::CloudflareTunnel));
    assert!(metadata.capabilities.contains(&Capability::CloudflareDns));
}

#[test]
fn registry_exposes_nginx_reverse_proxy_capability() {
    let registry = builtin_registry().unwrap();
    let metadata = registry.get("nginx").unwrap().metadata();

    assert_eq!(metadata.id.as_str(), "nginx");
    assert!(metadata.capabilities.contains(&Capability::ReverseProxy));
    assert!(metadata.capabilities.contains(&Capability::CertificateIntent));
}

#[test]
fn registry_exposes_proxmox_host_networking() {
    let registry = builtin_registry().unwrap();
    let metadata = registry.get("proxmox").unwrap().metadata();

    assert_eq!(metadata.id.as_str(), "proxmox");
    assert!(metadata.capabilities.contains(&Capability::HostNetworking));
}

#[test]
fn builtin_registry_lists_every_shipped_adapter_in_id_order() {
    let registry = builtin_registry().unwrap();
    let ids: Vec<&str> = registry.iter().iter().map(|(id, _)| id.as_str()).collect();
    assert_eq!(
        ids,
        vec![
            "bind",
            "cloudflare",
            "docker",
            "env",
            "netplan",
            "nginx",
            "proxmox",
            "proxmox-guests",
            "proxmox-sdn",
            "proxmox-storage",
            "ssh",
            "synology-nfs-permissions",
            "systemd-mounts",
        ]
    );
    assert!(registry
        .get("bind")
        .unwrap()
        .metadata()
        .capabilities
        .contains(&Capability::AuthoritativeDns));
    assert_eq!(*registry.get("env").unwrap(), BuiltinAdapter::Environment);
}

#[test]
fn registry_reports_a_second_adapter_under_one_id() {
    let mut registry: AdapterRegistry<u32> = AdapterRegistry::new();
    assert!(registry.register(AdapterId::new("dns"), 1).is_ok());
    assert!(registry.register(AdapterId::new("dns"), 2).is_err());
    assert_eq!(*registry.get("dns").unwrap(), 2);
    assert!(registry.get("missing").is_err());
}

#[test]
fn registry_entries_describe_themselves() {
    let registry = builtin_registry().unwrap();
    let nginx = registry.get("nginx").unwrap().metadata();
    assert_eq!(nginx.name, "Nginx");
    assert_eq!(nginx.description, "Render native Nginx reverse-proxy configuration");
    assert_eq!(nginx.capabilities, vec![Capability::ReverseProxy, Capability::CertificateIntent]);
    let bind = registry.get("bind").unwrap().metadata();
    assert_eq!(bind.name, "BIND 9");
    assert_eq!(bind.capabilities, vec![Capability::AuthoritativeDns, Capability::RecursiveDns]);
}
