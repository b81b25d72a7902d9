use netweft::model::{
    AllocationsFile, CloudflareFile, ConfigBundle, DnsFile, DnsRecord, DnsRecordKind, DnsVisibility, DnsZone, DnsForwarders, DnsSettings, DockerFile,
    Domains, GuestsFile, Host, HostKind, HostNetworkBridge, HostNetworkConfig, HostNetworkLink,
    HostNetworkLinkKind, HostNetworkProvider, IngressMode, InterfaceIpv6Mode, InventoryFile,
    Ipv6Mode, LocationFile, LocationHost, LocationInterface, LocationIpv6, LocationTailscale,
    LogicalNetwork, NasPermissionsFile, NetworkKind, NetworkMountsFile, NetworkRouting,
    NetworksFile, PathSettings, PrefixStability, ProxmoxSdnFile, ProxmoxStoragesFile,
    RecursionSettings, RenderSettings, Router, RoutingMode, Segment, SegmentKind, Service,
    ServiceAddress, ServiceIngress, ServiceKind, ServicesFile, SettingsFile, SoaSettings, SshFile,
    ValidationSettings,
};
use netweft::net::{ipv4_text, Ipv4Cidr, Ipv6Cidr};
use netweft::plan::host_network::{resolve_host_network_plan, ResolvedHostIpv6Mode};
use netweft::adapter::{AdapterContext, AdapterError};
use netweft::observe::ObservationSet;
use netweft::resolve::ResolvedPlan;
use netweft::paths::NetweftPaths;
use netweft::adapters::proxmox;
use netweft::adapters::ProxmoxAdapter;
use netweft::plan::dns::dns_plan_inputs_ok;
use netweft::plan::dns_access::dns_access_inputs_ok;
use netweft::plan::env::env_plan_inputs_ok;
use netweft::plan::guest::guest_plan_inputs_ok;
use netweft::plan::PlanError;
use netweft::validate::{validate_bundle, ValidationError};

fn v4(text: &str) -> u32 {
    text.split('.').fold(0u32, |acc, part| (acc << 8) | part.parse::<u32>().unwrap())
}

fn v6(text: &str) -> u128 {
    let groups = |part: &str| -> Vec<u128> {
        if part.is_empty() {
            Vec::new()
        } else {
            part.split(':').map(|g| u128::from_str_radix(g, 16).unwrap()).collect()
        }
    };
    let (head, tail) = match text.split_once("::") {
        Some((h, t)) => (groups(h), groups(t)),
        None => (groups(text), Vec::new()),
    };
    let mut all = head.clone();
    all.extend(std::iter::repeat(0).take(8 - head.len() - tail.len()));
    all.extend(tail);
    all.iter().fold(0u128, |acc, g| (acc << 16) | g)
}

fn net4(text: &str) -> Ipv4Cidr {
    let (a, l) = text.split_once('/').unwrap();
    Ipv4Cidr { addr: v4(a), prefix_len: l.parse().unwrap() }
}

fn net6(text: &str) -> Ipv6Cidr {
    let (a, l) = text.split_once('/').unwrap();
    Ipv6Cidr { addr: v6(a), prefix_len: l.parse().unwrap() }
}

fn s(text: &str) -> String {
    text.to_owned()
}

fn segment(cidr: &str, gateway: &str) -> Segment {
    Segment {
        kind: SegmentKind::Lan,
        ipv4_cidr: net4(cidr),
        ipv4_gateway: v4(gateway),
        vlan_id: None,
        public_ipv6_allocation: None,
        dns_clients: true,
        reverse_dns: true,
    }
}

fn location(mode: Ipv6Mode, prefix: Option<&str>, segments: Vec<(String, Segment)>) -> LocationFile {
    LocationFile {
        schema_version: 1,
        name: s("test"),
        description: None,
        router: Router { kind: s("test"), managed: false, supports_vlans: false },
        ipv6: LocationIpv6 {
            mode,
            prefix: prefix.map(net6),
            subnet_prefix_length: None,
            stability: PrefixStability::Dynamic,
            publish_public_aaaa: false,
        },
        segments,
        hosts: Vec::new(),
        tailscale: LocationTailscale::default(),
        external_ingress: None,
    }
}

fn nexus() -> Host {
    Host {
        kind: HostKind::Physical,
        roles: vec![s("dns")],
        parent: None,
        runtime_root: None,
        ssh_user: None,
        network: None,
        os_network: None,
        enabled: true,
    }
}

fn bundle(location: LocationFile) -> ConfigBundle {
    ConfigBundle {
        settings: SettingsFile {
            schema_version: 1,
            active_location: s("test"),
            paths: PathSettings::default(),
            render: RenderSettings::default(),
            validation: ValidationSettings::default(),
        },
        inventory: InventoryFile {
            schema_version: 1,
            domains: Domains { primary: s("example.test"), additional: Vec::new() },
            hosts: vec![(s("nexus"), nexus())],
        },
        networks: NetworksFile {
            schema_version: 1,
            networks: vec![(
                s("containers"),
                LogicalNetwork {
                    kind: NetworkKind::Docker,
                    owner: Some(s("nexus")),
                    docker_name: None,
                    ipv4_cidr: Some(net4("10.78.0.0/16")),
                    ipv4_gateway: Some(v4("10.78.0.1")),
                    allocation_key: s("containers"),
                    preferred_display_id: None,
                    ula_enabled: false,
                    reverse_dns: false,
                    dns_clients: true,
                    routing: Some(NetworkRouting { from: Some(s("nexus")), mode: RoutingMode::Direct, via: None }),
                },
            )],
        },
        docker: DockerFile::default(),
        ssh: SshFile::default(),
        cloudflare: CloudflareFile::default(),
        services: ServicesFile {
            schema_version: 1,
            certificates: Vec::new(),
            services: vec![(
                s("bind9"),
                Service {
                    kind: ServiceKind::Dns,
                    host: s("nexus"),
                    network: s("containers"),
                    enabled: true,
                    address: Some(ServiceAddress { ipv4: Some(v4("10.78.29.29")), ipv6_interface_id: None }),
                    ports: Vec::new(),
                    runtime: None,
                    ingress: None,
                    ssh: None,
                    web: None,
                },
            )],
        },
        guests: GuestsFile::default(),
        mounts: NetworkMountsFile::default(),
        nas_permissions: NasPermissionsFile::default(),
        proxmox_storages: ProxmoxStoragesFile::default(),
        proxmox_sdn: ProxmoxSdnFile::default(),
        dns: DnsFile {
            schema_version: 1,
            dns: DnsSettings {
                provider: s("bind9"),
                service: s("bind9"),
                default_ttl: 300,
                negative_ttl: 60,
                soa: SoaSettings {
                    primary_nameserver: s("ns1.example.test."),
                    responsible_mailbox: s("admin.example.test."),
                    refresh: 3600,
                    retry: 600,
                    expire: 86400,
                },
                recursion: RecursionSettings::default(),
                forwarders: DnsForwarders { ipv4: vec![v4("1.1.1.1")], ipv6: Vec::new() },
            },
            zones: Vec::new(),
            records: Vec::new(),
        },
        allocations: AllocationsFile { schema_version: 1, ula: None },
        location,
    }
}


fn link(name: &str, kind: HostNetworkLinkKind) -> HostNetworkLink {
    HostNetworkLink { name: s(name), kind }
}

fn bridge(name: &str, ports: Vec<String>, interface: Option<&str>, delay: u32, comment: &str) -> HostNetworkBridge {
    HostNetworkBridge {
        name: s(name),
        ports,
        location_interface: interface.map(s),
        vlan_aware: true,
        allowed_vlans: Some(s("2-4094")),
        stp: false,
        forward_delay: delay,
        comment: Some(s(comment)),
    }
}

/// A Proxmox host `zion` with a full host network profile, a workstation
/// `quasar` without one, and the DNS host `nexus`, at location
/// `shane-xfinity`.
fn zion_bundle() -> ConfigBundle {
    let mut loc = location(
        Ipv6Mode::RouterAdvertised,
        Some("2001:db8:5::/64"),
        vec![(s("main"), segment("10.214.90.0/24", "10.214.90.1"))],
    );
    loc.name = s("shane-xfinity");
    loc.hosts = vec![
        (
            s("nexus"),
            LocationHost {
                interfaces: vec![(
                    s("lan"),
                    LocationInterface { segment: s("main"), ipv4: Some(v4("10.214.90.10")), ipv6_mode: None, ula_interface_id: None },
                )],
            },
        ),
        (
            s("zion"),
            LocationHost {
                interfaces: vec![(
                    s("lan"),
                    LocationInterface {
                        segment: s("main"),
                        ipv4: Some(v4("10.214.90.30")),
                        ipv6_mode: Some(InterfaceIpv6Mode::Slaac),
                        ula_interface_id: None,
                    },
                )],
            },
        ),
    ];
    let mut b = bundle(loc);
    b.settings.active_location = s("shane-xfinity");
    b.inventory.domains.primary = s("suhail.ink");
    b.dns.dns.soa.primary_nameserver = s("ns1.suhail.ink.");
    b.dns.dns.soa.responsible_mailbox = s("admin.suhail.ink.");
    b.dns.zones = vec![DnsZone { name: s("suhail.ink"), visibility: DnsVisibility::Internal, authoritative: true }];
    let mut quasar = nexus();
    quasar.kind = HostKind::Workstation;
    quasar.roles = vec![s("client"), s("development")];
    quasar.ssh_user = Some(s("suhail"));
    let mut zion = nexus();
    zion.roles = vec![s("proxmox")];
    zion.ssh_user = Some(s("root"));
    zion.network = Some(HostNetworkConfig {
        provider: HostNetworkProvider::ProxmoxIfupdown2,
        management_interface: s("lan"),
        preserve_includes: true,
        links: vec![
            link("enp3s0f0np0", HostNetworkLinkKind::Ethernet),
            link("enp3s0f1np1", HostNetworkLinkKind::Ethernet),
            link("enp4s0", HostNetworkLinkKind::Ethernet),
            link("enp5s0", HostNetworkLinkKind::Ethernet),
            link("wlp92s0", HostNetworkLinkKind::Wifi),
        ],
        bridges: vec![
            bridge("vmbr0", vec![s("enp3s0f1np1")], Some("lan"), 2, "Primary"),
            bridge("vmbr1", Vec::new(), None, 0, "VM & CT Network"),
        ],
    });
    b.inventory.hosts = vec![(s("nexus"), nexus()), (s("quasar"), quasar), (s("zion"), zion)];
    b.services.services[0].1.ingress = Some(ServiceIngress { mode: IngressMode::HostPort, interface: s("lan") });
    b
}

fn zion_network(b: &mut ConfigBundle) -> &mut HostNetworkConfig {
    b.inventory.hosts[2].1.network.as_mut().unwrap()
}

fn validate_with(
    b: &ConfigBundle,
    target: Option<&str>,
    check: impl Fn(&AdapterContext) -> Result<(), AdapterError>,
) -> Result<(), AdapterError> {
    let dirs = NetweftPaths {
        config_dir: "/etc/netweft".to_owned(),
        generated_dir: "/var/lib/netweft/generated".to_owned(),
        state_dir: "/var/lib/netweft/state".to_owned(),
        cache_dir: "/var/cache/netweft".to_owned(),
    };
    let plan = ResolvedPlan::new(b, &dirs);
    let context = AdapterContext::new(&plan);
    match target {
        Some(host) => check(&context.for_host(host)),
        None => check(&context),
    }
}

#[test]
fn valid_zion_topology_passes_validation() {
    let b = zion_bundle();
    assert!(b.shape_ok());
    validate_bundle(&b).unwrap();
}

#[test]
fn resolves_zion_host_network_plan() {
    let bundle = zion_bundle();
    let plan = resolve_host_network_plan(&bundle, "zion").unwrap();

    assert_eq!(plan.location, "shane-xfinity");
    assert_eq!(plan.host, "zion");
    assert_eq!(plan.fqdn, "zion.suhail.ink");
    assert_eq!(plan.provider, HostNetworkProvider::ProxmoxIfupdown2);
    assert_eq!(plan.management_interface, "lan");
    assert!(plan.preserve_includes);
    assert_eq!(plan.dns_servers.len(), 1);
    assert_eq!(ipv4_text(plan.dns_servers[0]), "10.214.90.10");
    assert_eq!(plan.search_domains, vec!["suhail.ink".to_owned()]);

    assert_eq!(plan.links.len(), 5);
    assert_eq!(plan.bridges.len(), 2);

    let vmbr0 = plan.bridges.iter().find(|bridge| bridge.name == "vmbr0").unwrap();

    assert_eq!(vmbr0.ports, vec!["enp3s0f1np1"]);
    assert_eq!(vmbr0.location_interface.as_deref(), Some("lan"));
    assert_eq!(vmbr0.segment.as_deref(), Some("main"));
    assert_eq!(vmbr0.ipv4, Some(net4("10.214.90.30/24")));
    assert_eq!(ipv4_text(vmbr0.ipv4_gateway.unwrap()), "10.214.90.1");
    assert_eq!(vmbr0.ipv6_mode, ResolvedHostIpv6Mode::Slaac);
    assert!(vmbr0.vlan_aware);
    assert_eq!(vmbr0.allowed_vlans.as_deref(), Some("2-4094"));
    assert!(!vmbr0.stp);
    assert_eq!(vmbr0.forward_delay, 2);
    assert_eq!(vmbr0.comment.as_deref(), Some("Primary"));

    let vmbr1 = plan.bridges.iter().find(|bridge| bridge.name == "vmbr1").unwrap();

    assert!(vmbr1.ports.is_empty());
    assert!(vmbr1.location_interface.is_none());
    assert!(vmbr1.ipv4.is_none());
    assert!(vmbr1.ipv4_gateway.is_none());
}

#[test]
fn rejects_unknown_bridge_port() {
    let mut b = zion_bundle();
    zion_network(&mut b).bridges[0].ports = vec![s("missing0")];
    let error = validate_bundle(&b).err().unwrap();
    assert!(error.message().contains("unknown link 'missing0'"), "{}", error.message());
    match error {
        ValidationError::BridgeUnknownLink { port, .. } => assert_eq!(port, "missing0"),
        other => panic!("unexpected: {other:?}"),
    }
}

#[test]
fn rejects_duplicate_bridge_link_assignment() {
    let mut b = zion_bundle();
    zion_network(&mut b).bridges[1].ports = vec![s("enp3s0f1np1")];
    let text = validate_bundle(&b).err().unwrap().message();
    assert!(text.contains("assigned to both bridge"), "{text}");
    match validate_bundle(&b) {
        Err(ValidationError::LinkInTwoBridges { link, first_bridge, bridge, .. }) => {
            assert_eq!(link, "enp3s0f1np1");
            assert_eq!(first_bridge, "vmbr0");
            assert_eq!(bridge, "vmbr1");
        }
        other => panic!("unexpected: {:?}", other.err()),
    }
}

#[test]
fn rejects_allowed_vlans_on_non_vlan_aware_bridge() {
    let mut b = zion_bundle();
    zion_network(&mut b).bridges[0].vlan_aware = false;
    let error = validate_bundle(&b).err().unwrap();
    assert!(error.message().contains("defines allowed_vlans but is not VLAN-aware"), "{}", error.message());
    assert!(matches!(error, ValidationError::VlansWithoutVlanAware { .. }));
}

#[test]
fn rejects_invalid_vlan_range() {
    let mut b = zion_bundle();
    zion_network(&mut b).bridges[0].allowed_vlans = Some(s("4095"));
    let text = validate_bundle(&b).err().unwrap().message();
    assert!(text.contains("outside 1-4094"), "{text}");
    match validate_bundle(&b) {
        Err(ValidationError::VlanOutOfRange { vlan, .. }) => assert_eq!(vlan, 4095),
        other => panic!("unexpected: {:?}", other.err()),
    }
}

#[test]
fn rejects_missing_management_bridge() {
    let mut b = zion_bundle();
    zion_network(&mut b).bridges[0].location_interface = Some(s("storage"));
    let error = validate_bundle(&b).err().unwrap();
    let text = error.message();
    assert!(
        text.contains("missing location interface 'storage'") || text.contains("no bridge attached to management interface"),
        "{text}"
    );
    assert!(
        matches!(error, ValidationError::BridgeMissingInterface { .. } | ValidationError::NoManagementBridge { .. }),
        "{error:?}"
    );
}

#[test]
fn rejects_host_address_equal_to_gateway() {
    let mut b = zion_bundle();
    b.location.hosts[1].1.interfaces[0].1.ipv4 = Some(v4("10.214.90.1"));
    let text = validate_bundle(&b).err().unwrap().message();
    assert!(text.contains("conflicts with segment"), "{text}");
    match validate_bundle(&b) {
        Err(ValidationError::AddressIsGateway { segment, .. }) => assert_eq!(segment, "main"),
        other => panic!("unexpected: {:?}", other.err()),
    }
}

#[test]
fn hosts_without_network_profiles_remain_valid() {
    let b = zion_bundle();
    assert!(b.inventory.hosts.iter().any(|(name, host)| name == "quasar" && host.network.is_none()));
    validate_bundle(&b).unwrap();
}

#[test]
fn unsorted_tables_do_not_have_the_loaded_shape() {
    let mut b = zion_bundle();
    b.inventory.hosts.swap(0, 2);
    assert!(!b.shape_ok());
    let mut b = zion_bundle();
    b.location.segments[0].1.ipv4_cidr.prefix_len = 33;
    assert!(!b.shape_ok());
}

#[test]
fn requires_an_explicit_host() {
    let b = zion_bundle();
    match validate_with(&b, None, |c| ProxmoxAdapter.validate(c)) {
        Err(AdapterError::TargetHostRequired { adapter }) => assert_eq!(adapter, "proxmox"),
        other => panic!("unexpected: {:?}", other.err()),
    }
    let error = validate_with(&b, None, |c| ProxmoxAdapter.validate(c)).err().unwrap();
    assert!(error.message().contains("requires --host"), "{}", error.message());
}

#[test]
fn rejects_a_non_proxmox_host() {
    let b = zion_bundle();
    assert!(matches!(
        validate_with(&b, Some("quasar"), |c| ProxmoxAdapter.validate(c)),
        Err(AdapterError::Plan(PlanError::NoHostNetworkProfile { .. }))
    ));
    let error = validate_with(&b, Some("quasar"), |c| ProxmoxAdapter.validate(c)).err().unwrap();
    assert!(error.message().contains("has no host network profile"), "{}", error.message());
}

#[test]
fn proxmox_adapter_accepts_the_resolved_zion_plan() {
    let b = zion_bundle();
    validate_with(&b, Some("zion"), |c| ProxmoxAdapter.validate(c)).unwrap();
    let (host, plan) = proxmox::plan_for_context(&b, Some("zion")).unwrap();
    assert_eq!(host, "zion");
    proxmox::validate_plan(&plan).unwrap();
}

#[test]
fn proxmox_adapter_refuses_another_provider_and_bridge_counts() {
    let b = zion_bundle();
    let (_, mut plan) = proxmox::plan_for_context(&b, Some("zion")).unwrap();
    plan.bridges[1].location_interface = Some(s("lan"));
    assert!(matches!(proxmox::validate_plan(&plan), Err(AdapterError::ManagementBridgeCount { .. })));
    plan.bridges.clear();
    assert!(matches!(proxmox::validate_plan(&plan), Err(AdapterError::NoBridges { .. })));
}

#[test]
fn validated_configuration_meets_every_resolver_input() {
    let b = zion_bundle();
    validate_bundle(&b).unwrap();
    assert!(dns_plan_inputs_ok(&b));
    assert!(dns_access_inputs_ok(&b));
    assert!(guest_plan_inputs_ok(&b));
    assert!(env_plan_inputs_ok(&b, "zion"));
    assert!(env_plan_inputs_ok(&b, "nobody"));
}

#[test]
fn resolver_inputs_catch_missing_references() {
    let mut b = zion_bundle();
    b.dns.dns.service = s("missing");
    assert!(!dns_access_inputs_ok(&b));
    let mut b = zion_bundle();
    b.dns.records.push(DnsRecord {
        name: s("gw.suhail.ink"),
        kind: DnsRecordKind::SegmentGateway,
        target: Some(s("nowhere")),
        interface: None,
        address_scope: None,
        families: Vec::new(),
        reverse: false,
    });
    assert!(!dns_plan_inputs_ok(&b));
}

#[test]
fn resolved_plan_carries_configuration_and_observations() {
    let b = zion_bundle();
    let dirs = NetweftPaths {
        config_dir: s("/etc/netweft"),
        generated_dir: s("/var/lib/netweft/generated"),
        state_dir: s("/var/lib/netweft/state"),
        cache_dir: s("/var/cache/netweft"),
    };
    let plan = ResolvedPlan::new(&b, &dirs);
    assert!(plan.observations().hosts.is_empty());
    assert_eq!(plan.config().location.name, "shane-xfinity");
    assert_eq!(plan.paths().cache_dir, "/var/cache/netweft");
    assert_eq!(plan.dns().unwrap().location, "shane-xfinity");
    assert_eq!(plan.host_environment("zion").unwrap().host, "zion");

    let context = AdapterContext::new(&plan);
    assert!(context.target_host.is_none());
    assert_eq!(context.for_host("zion").target_host, Some("zion"));

    let mut observed = ObservationSet::empty();
    observed.metadata = vec![(s("source"), s("lldp"))];
    let plan = plan.with_observations(observed);
    assert_eq!(plan.observations().metadata.len(), 1);
    assert_eq!(plan.config().location.name, "shane-xfinity");
}
