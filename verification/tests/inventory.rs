use netweft::adapter::{AdapterContext, AdapterError};
use netweft::resolve::ResolvedPlan;
use netweft::paths::NetweftPaths;
use netweft::adapters::{NasPermissionAdapter, ProxmoxGuestAdapter, ProxmoxStorageAdapter, SystemdMountAdapter};
use netweft::model::{
    AllocationsFile, CloudflareFile, ConfigBundle, DnsFile, DnsForwarders, DnsSettings, DockerFile,
    Domains, Guest, GuestAddressMode, GuestKind, GuestsFile, Host, HostKind, InventoryFile, Ipv6Mode,
    LocationFile, LocationHost, LocationInterface, LocationIpv6, LocationTailscale, LogicalNetwork,
    NasAccess, NasPermission, NasPermissionProvider, NasPermissionsFile, NasSquash, NetworkKind,
    NetworkMount, NetworkMountProvider, NetworkMountsFile, NetworkRouting, NetworksFile, PathSettings,
    PrefixStability, ProxmoxSdnFile, ProxmoxStorage, ProxmoxStorageProvider, ProxmoxStoragesFile,
    RecursionSettings, RenderSettings, Router, RoutingMode, Segment, SegmentKind, Service,
    ServiceAddress, ServiceKind, ServicesFile, SettingsFile, SoaSettings, SshFile, ValidationSettings,
};
use netweft::net::{ipv4_text, Ipv4Cidr, Ipv6Cidr};
use netweft::plan::guest::{guest_plan_inputs_ok, resolve_guest_plan};
use netweft::plan::nas_permission::resolve_nas_permission_plan;
use netweft::plan::network_mount::resolve_network_mount_plan;
use netweft::plan::proxmox_storage::resolve_proxmox_storage_plan;
use netweft::plan::PlanError;

fn v4(text: &str) -> u32 {
    text.split('.').fold(0u32, |acc, part| (acc << 8) | part.parse::<u32>().unwrap())
}

fn v6(text: &str) -> u128 {
    let groups = |part: &str| -> Vec<u128> {
        if part.is_empty() {
            Vec::new()
        } else {
            part.split(':').map(|g| u128::from_str_radix(g, 16).unwrap()).collect()
        }
    };
    let (head, tail) = match text.split_once("::") {
        Some((h, t)) => (groups(h), groups(t)),
        None => (groups(text), Vec::new()),
    };
    let mut all = head.clone();
    all.extend(std::iter::repeat(0).take(8 - head.len() - tail.len()));
    all.extend(tail);
    all.iter().fold(0u128, |acc, g| (acc << 16) | g)
}

fn net4(text: &str) -> Ipv4Cidr {
    let (a, l) = text.split_once('/').unwrap();
    Ipv4Cidr { addr: v4(a), prefix_len: l.parse().unwrap() }
}

fn net6(text: &str) -> Ipv6Cidr {
    let (a, l) = text.split_once('/').unwrap();
    Ipv6Cidr { addr: v6(a), prefix_len: l.parse().unwrap() }
}

fn s(text: &str) -> String {
    text.to_owned()
}

fn segment(cidr: &str, gateway: &str) -> Segment {
    Segment {
        kind: SegmentKind::Lan,
        ipv4_cidr: net4(cidr),
        ipv4_gateway: v4(gateway),
        vlan_id: None,
        public_ipv6_allocation: None,
        dns_clients: true,
        reverse_dns: true,
    }
}

fn location(mode: Ipv6Mode, prefix: Option<&str>, segments: Vec<(String, Segment)>) -> LocationFile {
    LocationFile {
        schema_version: 1,
        name: s("test"),
        description: None,
        router: Router { kind: s("test"), managed: false, supports_vlans: false },
        ipv6: LocationIpv6 {
            mode,
            prefix: prefix.map(net6),
            subnet_prefix_length: None,
            stability: PrefixStability::Dynamic,
            publish_public_aaaa: false,
        },
        segments,
        hosts: Vec::new(),
        tailscale: LocationTailscale::default(),
        external_ingress: None,
    }
}

fn nexus() -> Host {
    Host {
        kind: HostKind::Physical,
        roles: vec![s("dns")],
        parent: None,
        runtime_root: None,
        ssh_user: None,
        network: None,
        os_network: None,
        enabled: true,
    }
}

fn bundle(location: LocationFile) -> ConfigBundle {
    ConfigBundle {
        settings: SettingsFile {
            schema_version: 1,
            active_location: s("test"),
            paths: PathSettings::default(),
            render: RenderSettings::default(),
            validation: ValidationSettings::default(),
        },
        inventory: InventoryFile {
            schema_version: 1,
            domains: Domains { primary: s("example.test"), additional: Vec::new() },
            hosts: vec![(s("nexus"), nexus())],
        },
        networks: NetworksFile {
            schema_version: 1,
            networks: vec![(
                s("containers"),
                LogicalNetwork {
                    kind: NetworkKind::Docker,
                    owner: Some(s("nexus")),
                    docker_name: None,
                    ipv4_cidr: Some(net4("10.78.0.0/16")),
                    ipv4_gateway: Some(v4("10.78.0.1")),
                    allocation_key: s("containers"),
                    preferred_display_id: None,
                    ula_enabled: false,
                    reverse_dns: false,
                    dns_clients: true,
                    routing: Some(NetworkRouting { from: Some(s("nexus")), mode: RoutingMode::Direct, via: None }),
                },
            )],
        },
        docker: DockerFile::default(),
        ssh: SshFile::default(),
        cloudflare: CloudflareFile::default(),
        services: ServicesFile {
            schema_version: 1,
            certificates: Vec::new(),
            services: vec![(
                s("bind9"),
                Service {
                    kind: ServiceKind::Dns,
                    host: s("nexus"),
                    network: s("containers"),
                    enabled: true,
                    address: Some(ServiceAddress { ipv4: Some(v4("10.78.29.29")), ipv6_interface_id: None }),
                    ports: Vec::new(),
                    runtime: None,
                    ingress: None,
                    ssh: None,
                    web: None,
                },
            )],
        },
        guests: GuestsFile::default(),
        mounts: NetworkMountsFile::default(),
        nas_permissions: NasPermissionsFile::default(),
        proxmox_storages: ProxmoxStoragesFile::default(),
        proxmox_sdn: ProxmoxSdnFile::default(),
        dns: DnsFile {
            schema_version: 1,
            dns: DnsSettings {
                provider: s("bind9"),
                service: s("bind9"),
                default_ttl: 300,
                negative_ttl: 60,
                soa: SoaSettings {
                    primary_nameserver: s("ns1.example.test."),
                    responsible_mailbox: s("admin.example.test."),
                    refresh: 3600,
                    retry: 600,
                    expire: 86400,
                },
                recursion: RecursionSettings::default(),
                forwarders: DnsForwarders { ipv4: vec![v4("1.1.1.1")], ipv6: Vec::new() },
            },
            zones: Vec::new(),
            records: Vec::new(),
        },
        allocations: AllocationsFile { schema_version: 1, ula: None },
        location,
    }
}


fn attached(address: &str) -> LocationHost {
    LocationHost {
        interfaces: vec![(
            s("lan"),
            LocationInterface { segment: s("main"), ipv4: Some(v4(address)), ipv6_mode: None, ula_interface_id: None },
        )],
    }
}

fn guest(host: &str, vmid: u32, address: &str) -> Guest {
    Guest {
        kind: GuestKind::Vm,
        host: s(host),
        vmid,
        mac: format!("02:00:00:00:00:{:02x}", vmid % 256),
        interface: s("lan"),
        bridge: s("vmbr0"),
        ipv4: v4(address),
        address_mode: GuestAddressMode::ReservedDhcp,
        onboot: true,
        startup: None,
        firewall: false,
        pci_devices: Vec::new(),
        virtiofs: Vec::new(),
    }
}

/// A NAS, the container host `nexus` and the Proxmox host `zion` with its
/// guests, the NFS mounts, permissions and storage between them.
fn inventory_bundle() -> ConfigBundle {
    let mut loc = location(Ipv6Mode::Disabled, None, vec![(s("main"), segment("192.168.10.0/24", "192.168.10.1"))]);
    loc.hosts = vec![
        (s("nas"), attached("192.168.10.20")),
        (s("nexus"), attached("192.168.10.10")),
        (s("zion"), attached("192.168.10.30")),
    ];
    let mut b = bundle(loc);
    b.inventory.hosts = vec![(s("nas"), nexus()), (s("nexus"), nexus()), (s("zion"), nexus())];
    b.guests.guests = vec![
        (s("app"), guest("zion", 101, "192.168.10.101")),
        (s("db"), guest("zion", 110, "192.168.10.110")),
        (s("web"), guest("nexus", 100, "192.168.10.100")),
    ];
    b.mounts.mounts = vec![(
        s("media"),
        NetworkMount {
            host: s("nexus"),
            provider: NetworkMountProvider::Nfs,
            server_host: s("nas"),
            export: s("/volume1/media"),
            mount_path: s("/mnt/media-a"),
            options: vec![s("vers=4.1")],
            required_by: vec![s("jellyfin.service")],
        },
    )];
    b.nas_permissions.permissions = vec![(
        s("media-nexus"),
        NasPermission {
            nas: s("nas"),
            provider: NasPermissionProvider::SynologyNfs,
            share: s("media"),
            client_host: s("nexus"),
            access: NasAccess::ReadWrite,
            squash: NasSquash::NoMapping,
            security: s("sys"),
        },
    )];
    b.proxmox_storages.storages = vec![(
        s("backups"),
        ProxmoxStorage {
            host: s("zion"),
            storage_id: s("nas-backups"),
            provider: ProxmoxStorageProvider::Nfs,
            server_host: s("nas"),
            export: s("/volume1/backups"),
            mount_path: s("/mnt/pve/nas-backups"),
            options: Vec::new(),
            content: vec![s("backup")],
            prune_backups: None,
        },
    )];
    b
}

fn validate_with(
    b: &ConfigBundle,
    target: Option<&str>,
    check: impl Fn(&AdapterContext) -> Result<(), AdapterError>,
) -> Result<(), AdapterError> {
    let dirs = NetweftPaths {
        config_dir: "/etc/netweft".to_owned(),
        generated_dir: "/var/lib/netweft/generated".to_owned(),
        state_dir: "/var/lib/netweft/state".to_owned(),
        cache_dir: "/var/cache/netweft".to_owned(),
    };
    let plan = ResolvedPlan::new(b, &dirs);
    let context = AdapterContext::new(&plan);
    match target {
        Some(host) => check(&context.for_host(host)),
        None => check(&context),
    }
}

#[test]
fn guests_are_listed_by_host_then_vmid() {
    let b = inventory_bundle();
    let plan = resolve_guest_plan(&b).unwrap();
    let order: Vec<(&str, u32, &str)> = plan.guests.iter().map(|g| (g.host.as_str(), g.vmid, g.name.as_str())).collect();
    assert_eq!(order, vec![("nexus", 100, "web"), ("zion", 101, "app"), ("zion", 110, "db")]);
    assert_eq!(ipv4_text(plan.guests[0].ipv4), "192.168.10.100");
}

#[test]
fn guests_of_a_disabled_host_are_left_out() {
    let mut b = inventory_bundle();
    b.inventory.hosts[2].1.enabled = false;
    let plan = resolve_guest_plan(&b).unwrap();
    assert_eq!(plan.guests.len(), 1);
    assert_eq!(plan.guests[0].name, "web");
}

#[test]
fn guest_addresses_stay_in_their_segment() {
    let mut b = inventory_bundle();
    b.guests.guests[1].1.ipv4 = v4("10.0.0.5");
    assert!(matches!(resolve_guest_plan(&b), Err(PlanError::GuestAddressOutside { .. })));
}

#[test]
fn proxmox_guest_adapter_needs_guests_on_the_host() {
    let b = inventory_bundle();
    validate_with(&b, Some("zion"), |c| ProxmoxGuestAdapter.validate(c)).unwrap();
    match validate_with(&b, Some("nas"), |c| ProxmoxGuestAdapter.validate(c)) {
        Err(AdapterError::NoGuestsOnHost { host }) => assert_eq!(host, "nas"),
        other => panic!("unexpected: {:?}", other.err()),
    }
    assert!(matches!(validate_with(&b, Some("ghost"), |c| ProxmoxGuestAdapter.validate(c)), Err(AdapterError::UnknownProxmoxHost { .. })));
    assert!(matches!(validate_with(&b, None, |c| ProxmoxGuestAdapter.validate(c)), Err(AdapterError::TargetHostRequired { .. })));
}

#[test]
fn mounts_get_their_server_address_and_unit() {
    let b = inventory_bundle();
    let plan = resolve_network_mount_plan(&b, "nexus").unwrap();
    assert_eq!(plan.mounts.len(), 1);
    let mount = &plan.mounts[0];
    assert_eq!(mount.id, "media");
    assert_eq!(ipv4_text(mount.server_ipv4), "192.168.10.20");
    assert_eq!(mount.unit_name, "mnt-media\\x2da.mount");
    assert_eq!(mount.required_by, vec![s("jellyfin.service")]);
    assert!(resolve_network_mount_plan(&b, "zion").unwrap().mounts.is_empty());
    validate_with(&b, Some("nexus"), |c| SystemdMountAdapter.validate(c)).unwrap();
}

#[test]
fn mounts_need_an_absolute_path() {
    let mut b = inventory_bundle();
    b.mounts.mounts[0].1.mount_path = s("mnt/media");
    assert!(resolve_network_mount_plan(&b, "nexus").is_err());
    let mut b = inventory_bundle();
    b.mounts.mounts[0].1.server_host = s("elsewhere");
    assert!(matches!(resolve_network_mount_plan(&b, "nexus"), Err(PlanError::ServerNotAttached { .. })));
}

#[test]
fn nas_permissions_carry_both_addresses() {
    let b = inventory_bundle();
    let plan = resolve_nas_permission_plan(&b, Some("nas")).unwrap();
    assert_eq!(plan.nas.as_deref(), Some("nas"));
    assert_eq!(plan.permissions.len(), 1);
    let permission = &plan.permissions[0];
    assert_eq!(ipv4_text(permission.nas_ipv4), "192.168.10.20");
    assert_eq!(ipv4_text(permission.client_ipv4), "192.168.10.10");
    assert_eq!(permission.access.dsm_name(), "Read/Write");
    assert_eq!(permission.squash.dsm_name(), "No mapping");
    assert_eq!(permission.squash.as_str(), "none");
    assert!(resolve_nas_permission_plan(&b, Some("nexus")).unwrap().permissions.is_empty());
    assert!(matches!(resolve_nas_permission_plan(&b, Some("ghost")), Err(PlanError::UnknownNasHost { .. })));
    validate_with(&b, Some("nas"), |c| NasPermissionAdapter.validate(c)).unwrap();
}

#[test]
fn guests_can_be_nas_clients() {
    let mut b = inventory_bundle();
    b.nas_permissions.permissions[0].1.client_host = s("db");
    let plan = resolve_nas_permission_plan(&b, None).unwrap();
    assert_eq!(ipv4_text(plan.permissions[0].client_ipv4), "192.168.10.110");
}

#[test]
fn storage_is_planned_for_its_host() {
    let b = inventory_bundle();
    let plan = resolve_proxmox_storage_plan(&b, "zion").unwrap();
    assert_eq!(plan.storages.len(), 1);
    assert_eq!(plan.storages[0].storage_id, "nas-backups");
    assert_eq!(ipv4_text(plan.storages[0].server_ipv4), "192.168.10.20");
    assert!(resolve_proxmox_storage_plan(&b, "nexus").unwrap().storages.is_empty());
    assert!(matches!(resolve_proxmox_storage_plan(&b, "ghost"), Err(PlanError::UnknownHost { .. })));
    validate_with(&b, Some("zion"), |c| ProxmoxStorageAdapter.validate(c)).unwrap();
}

#[test]
fn guest_plan_runs_until_it_would_look_up_an_unknown_segment() {
    let mut b = inventory_bundle();
    assert!(guest_plan_inputs_ok(&b));
    let last = b.guests.guests.len() - 1;
    let parent = b.guests.guests[last].1.host.clone();
    assert!(b.guests.guests[..last].iter().all(|(_, g)| g.host != parent));
    for (name, host) in b.location.hosts.iter_mut() {
        if *name == parent {
            host.interfaces[0].1.segment = s("missing");
        }
    }
    assert!(!guest_plan_inputs_ok(&b));
    b.guests.guests[0].1.ipv4 = v4("10.0.0.5");
    assert!(guest_plan_inputs_ok(&b));
    assert!(matches!(resolve_guest_plan(&b), Err(PlanError::GuestAddressOutside { .. })));
}
