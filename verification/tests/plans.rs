use netweft::model::{
    HostNetworkBridge, HostNetworkConfig, HostNetworkLink, HostNetworkLinkKind, HostNetworkProvider,
    AddressFamily, AllocationsFile, CloudflareFile, ConfigBundle, DnsFile, DnsForwarders,
    DnsRecord, DnsRecordKind, DnsSettings, DnsVisibility, DnsZone, DockerFile, Domains,
    GuestsFile, Host, HostKind, IngressMode, InterfaceIpv6Mode, InventoryFile, Ipv6Mode,
    LocationFile, LocationHost, LocationInterface, LocationIpv6, LocationTailscale,
    LogicalNetwork, NasPermissionsFile, NetworkKind, NetworkMountsFile, NetworkRouting,
    NetworksFile, PathSettings, PrefixStability, ProxmoxSdnFile, ProxmoxStoragesFile,
    RecursionSettings, RenderSettings, Router, RoutingMode, Segment, SegmentKind, Service,
    ServiceAddress, ServiceIngress, ServiceKind, ServicesFile, SettingsFile, SoaSettings, SshFile,
    TailscaleRouterSettings, TailscaleStrategy, UlaAllocations, ValidationSettings,
};
use netweft::net::{ipv4_text, Ipv4Cidr, Ipv6Cidr};
use netweft::adapter::{AdapterContext, AdapterError};
use netweft::adapters::{BindAdapter, EnvironmentAdapter};
use netweft::paths::NetweftPaths;
use netweft::resolve::ResolvedPlan;
use netweft::plan::dns::{dns_plan_runs, fqdn, resolve_dns_plan, ResolvedRecord};
use netweft::plan::dns_access::derive_dns_access;
use netweft::plan::env::{env_plan_runs, env_key, resolve_env_plan};
use netweft::plan::host_network::resolve_host_network_plan;
use netweft::plan::PlanError;
use netweft::validate::validate_bundle;

fn v4(text: &str) -> u32 {
    text.split('.').fold(0u32, |acc, part| (acc << 8) | part.parse::<u32>().unwrap())
}

fn v6(text: &str) -> u128 {
    let groups = |part: &str| -> Vec<u128> {
        if part.is_empty() {
            Vec::new()
        } else {
            part.split(':').map(|g| u128::from_str_radix(g, 16).unwrap()).collect()
        }
    };
    let (head, tail) = match text.split_once("::") {
        Some((h, t)) => (groups(h), groups(t)),
        None => (groups(text), Vec::new()),
    };
    let mut all = head.clone();
    all.extend(std::iter::repeat(0).take(8 - head.len() - tail.len()));
    all.extend(tail);
    all.iter().fold(0u128, |acc, g| (acc << 16) | g)
}

fn net4(text: &str) -> Ipv4Cidr {
    let (a, l) = text.split_once('/').unwrap();
    Ipv4Cidr { addr: v4(a), prefix_len: l.parse().unwrap() }
}

fn net6(text: &str) -> Ipv6Cidr {
    let (a, l) = text.split_once('/').unwrap();
    Ipv6Cidr { addr: v6(a), prefix_len: l.parse().unwrap() }
}

fn s(text: &str) -> String {
    text.to_owned()
}

fn segment(cidr: &str, gateway: &str) -> Segment {
    Segment {
        kind: SegmentKind::Lan,
        ipv4_cidr: net4(cidr),
        ipv4_gateway: v4(gateway),
        vlan_id: None,
        public_ipv6_allocation: None,
        dns_clients: true,
        reverse_dns: true,
    }
}

fn location(mode: Ipv6Mode, prefix: Option<&str>, segments: Vec<(String, Segment)>) -> LocationFile {
    LocationFile {
        schema_version: 1,
        name: s("test"),
        description: None,
        router: Router { kind: s("test"), managed: false, supports_vlans: false },
        ipv6: LocationIpv6 {
            mode,
            prefix: prefix.map(net6),
            subnet_prefix_length: None,
            stability: PrefixStability::Dynamic,
            publish_public_aaaa: false,
        },
        segments,
        hosts: Vec::new(),
        tailscale: LocationTailscale::default(),
        external_ingress: None,
    }
}

fn nexus() -> Host {
    Host {
        kind: HostKind::Physical,
        roles: vec![s("dns")],
        parent: None,
        runtime_root: None,
        ssh_user: None,
        network: None,
        os_network: None,
        enabled: true,
    }
}

/// The fixture of the DNS access scenarios: one DNS host, one Docker
/// network routed directly from it, and a BIND service on that network.
fn bundle(location: LocationFile) -> ConfigBundle {
    ConfigBundle {
        settings: SettingsFile {
            schema_version: 1,
            active_location: s("test"),
            paths: PathSettings::default(),
            render: RenderSettings::default(),
            validation: ValidationSettings::default(),
        },
        inventory: InventoryFile {
            schema_version: 1,
            domains: Domains { primary: s("example.test"), additional: Vec::new() },
            hosts: vec![(s("nexus"), nexus())],
        },
        networks: NetworksFile {
            schema_version: 1,
            networks: vec![(
                s("containers"),
                LogicalNetwork {
                    kind: NetworkKind::Docker,
                    owner: Some(s("nexus")),
                    docker_name: None,
                    ipv4_cidr: Some(net4("10.78.0.0/16")),
                    ipv4_gateway: Some(v4("10.78.0.1")),
                    allocation_key: s("containers"),
                    preferred_display_id: None,
                    ula_enabled: false,
                    reverse_dns: false,
                    dns_clients: true,
                    routing: Some(NetworkRouting { from: Some(s("nexus")), mode: RoutingMode::Direct, via: None }),
                },
            )],
        },
        docker: DockerFile::default(),
        ssh: SshFile::default(),
        cloudflare: CloudflareFile::default(),
        services: ServicesFile {
            schema_version: 1,
            certificates: Vec::new(),
            services: vec![(
                s("bind9"),
                Service {
                    kind: ServiceKind::Dns,
                    host: s("nexus"),
                    network: s("containers"),
                    enabled: true,
                    address: Some(ServiceAddress { ipv4: Some(v4("10.78.29.29")), ipv6_interface_id: None }),
                    ports: Vec::new(),
                    runtime: None,
                    ingress: None,
                    ssh: None,
                    web: None,
                },
            )],
        },
        guests: GuestsFile::default(),
        mounts: NetworkMountsFile::default(),
        nas_permissions: NasPermissionsFile::default(),
        proxmox_storages: ProxmoxStoragesFile::default(),
        proxmox_sdn: ProxmoxSdnFile::default(),
        dns: DnsFile {
            schema_version: 1,
            dns: DnsSettings {
                provider: s("bind9"),
                service: s("bind9"),
                default_ttl: 300,
                negative_ttl: 60,
                soa: SoaSettings {
                    primary_nameserver: s("ns1.example.test."),
                    responsible_mailbox: s("admin.example.test."),
                    refresh: 3600,
                    retry: 600,
                    expire: 86400,
                },
                recursion: RecursionSettings::default(),
                forwarders: DnsForwarders { ipv4: vec![v4("1.1.1.1")], ipv6: Vec::new() },
            },
            zones: Vec::new(),
            records: Vec::new(),
        },
        allocations: AllocationsFile { schema_version: 1, ula: None },
        location,
    }
}

/// The DNS host attached at the location on `lan`, with the BIND service
/// published on it, a zone, and host records.
fn dns_bundle() -> ConfigBundle {
    let mut loc = location(
        Ipv6Mode::Disabled,
        None,
        vec![(s("main"), segment("192.168.10.0/24", "192.168.10.1"))],
    );
    loc.hosts = vec![(
        s("nexus"),
        LocationHost {
            interfaces: vec![(
                s("lan"),
                LocationInterface { segment: s("main"), ipv4: Some(v4("192.168.10.10")), ipv6_mode: None, ula_interface_id: None },
            )],
        },
    )];
    let mut b = bundle(loc);
    b.services.services[0].1.ingress = Some(ServiceIngress { mode: IngressMode::HostPort, interface: s("lan") });
    b.dns.zones = vec![DnsZone { name: s("example.test"), visibility: DnsVisibility::Internal, authoritative: true }];
    b.dns.records = vec![
        DnsRecord {
            name: s("nexus.example.test"),
            kind: DnsRecordKind::Host,
            target: Some(s("nexus")),
            interface: Some(s("lan")),
            address_scope: None,
            families: vec![AddressFamily::Ipv4],
            reverse: true,
        },
        DnsRecord {
            name: s("gw.example.test"),
            kind: DnsRecordKind::SegmentGateway,
            target: Some(s("main")),
            interface: None,
            address_scope: None,
            families: vec![AddressFamily::Ipv4],
            reverse: false,
        },
        DnsRecord {
            name: s("www.example.test"),
            kind: DnsRecordKind::Cname,
            target: Some(s("nexus.example.test")),
            interface: None,
            address_scope: None,
            families: vec![AddressFamily::Ipv4],
            reverse: false,
        },
    ];
    b
}

#[test]
fn router_advertised_mode_derives_reachable_networks() {
    let mut loc = location(
        Ipv6Mode::RouterAdvertised,
        Some("2001:db8:1::/64"),
        vec![(s("main"), segment("192.168.10.0/24", "192.168.10.1"))],
    );
    loc.tailscale = LocationTailscale {
        enabled: true,
        strategy: Some(TailscaleStrategy::SubnetRouter),
        primary_router: Some(s("nexus")),
        routers: vec![(
            s("nexus"),
            TailscaleRouterSettings {
                enabled: true,
                snat_subnet_routes: true,
                accept_routes: false,
                exit_node: false,
                advertise: vec![s("segment:main"), s("network:containers")],
            },
        )],
    };
    let bundle = bundle(loc);
    validate_bundle(&bundle).unwrap();
    let access = derive_dns_access(&bundle);

    assert!(access.ipv4.contains(&net4("192.168.10.0/24")));
    assert!(access.ipv4.contains(&net4("10.78.0.0/16")));
    assert!(access.ipv4.contains(&net4("100.64.0.0/10")));
    assert!(access.ipv6.contains(&net6("2001:db8:1::/64")));
    assert!(access.ipv6.contains(&net6("fd7a:115c:a1e0::/48")));
}

#[test]
fn disabled_ipv6_adds_no_isp_prefix() {
    let loc = location(Ipv6Mode::Disabled, None, vec![(s("main"), segment("192.168.1.0/24", "192.168.1.1"))]);
    let bundle = bundle(loc);
    validate_bundle(&bundle).unwrap();
    let access = derive_dns_access(&bundle);

    assert!(access.ipv4.contains(&net4("192.168.1.0/24")));
    assert_eq!(access.ipv6, vec![net6("::1/128")]);
}

#[test]
fn delegated_mode_adds_owned_delegation() {
    let mut loc = location(Ipv6Mode::Delegated, Some("2001:db8:1200::/56"), vec![(s("main"), segment("10.0.0.0/24", "10.0.0.1"))]);
    loc.ipv6.subnet_prefix_length = Some(64);
    let bundle = bundle(loc);
    validate_bundle(&bundle).unwrap();
    let access = derive_dns_access(&bundle);

    assert!(access.ipv6.contains(&net6("2001:db8:1200::/56")));
}

#[test]
fn recursion_networks_are_sorted_and_unique() {
    let loc = location(
        Ipv6Mode::Disabled,
        None,
        vec![
            (s("a"), segment("192.168.2.0/24", "192.168.2.1")),
            (s("b"), segment("10.0.0.0/24", "10.0.0.1")),
            (s("c"), segment("10.0.0.0/24", "10.0.0.1")),
        ],
    );
    let access = derive_dns_access(&bundle(loc));
    assert_eq!(access.ipv4, vec![net4("10.0.0.0/24"), net4("10.78.0.0/16"), net4("127.0.0.0/8"), net4("192.168.2.0/24")]);
}

#[test]
fn disabled_recursion_allows_no_network() {
    let mut b = bundle(location(Ipv6Mode::Disabled, None, Vec::new()));
    b.dns.dns.recursion.enabled = false;
    let access = derive_dns_access(&b);
    assert!(access.ipv4.is_empty());
    assert!(access.ipv6.is_empty());
}

#[test]
fn dns_plan_files_records_in_their_zone() {
    let b = dns_bundle();
    let plan = resolve_dns_plan(&b).unwrap();

    assert_eq!(plan.container_ipv4, v4("10.78.29.29"));
    assert_eq!(plan.ingress_ipv4, v4("192.168.10.10"));
    assert_eq!(plan.soa_primary_nameserver, "ns1.example.test.");
    assert_eq!(plan.zones.len(), 1);
    let zone = &plan.zones[0];
    assert_eq!(zone.name, "example.test");
    let rendered: Vec<String> = zone
        .records
        .iter()
        .map(|r| match r {
            ResolvedRecord::A { name, address } => format!("A {name} {address}"),
            ResolvedRecord::Aaaa { name, address } => format!("AAAA {name} {address}"),
            ResolvedRecord::Cname { name, target } => format!("CNAME {name} {target}"),
            ResolvedRecord::Ns { name, target } => format!("NS {name} {target}"),
        })
        .collect();
    assert_eq!(
        rendered,
        vec![
            format!("A gw.example.test. {}", v4("192.168.10.1")),
            format!("A nexus.example.test. {}", v4("192.168.10.10")),
            format!("A ns1.example.test. {}", v4("192.168.10.10")),
            s("CNAME www.example.test. nexus.example.test."),
            s("NS example.test. ns1.example.test."),
        ]
    );
    assert_eq!(plan.reverse_zones.len(), 1);
    assert_eq!(plan.reverse_zones[0].name, "10.168.192.in-addr.arpa");
    assert_eq!(plan.reverse_zones[0].records, vec![(s("10"), s("nexus.example.test."))]);
    assert!(plan.warnings.is_empty());
}

#[test]
fn dns_plan_rejects_names_outside_every_zone() {
    let mut b = dns_bundle();
    b.dns.records[0].name = s("nexus.elsewhere.test");
    assert!(matches!(resolve_dns_plan(&b), Err(PlanError::RecordOutsideZones { .. })));
}

#[test]
fn dns_plan_requires_an_ingress_for_the_dns_service() {
    let b = bundle(location(Ipv6Mode::Disabled, None, Vec::new()));
    assert!(matches!(resolve_dns_plan(&b), Err(PlanError::ServiceNoIngress { .. })));
}

#[test]
fn dns_plan_warns_about_networks_outside_recursion() {
    let mut b = dns_bundle();
    b.networks.networks[0].1.routing = None;
    b.location.ipv6 = LocationIpv6 {
        mode: Ipv6Mode::RouterAdvertised,
        prefix: Some(net6("2001:db8:1::/64")),
        subnet_prefix_length: None,
        stability: PrefixStability::Dynamic,
        publish_public_aaaa: false,
    };
    let plan = resolve_dns_plan(&b).unwrap();
    assert_eq!(
        plan.warnings,
        vec![
            s("network 'containers' (10.78.0.0/16) is excluded from DNS recursion because it is not directly reachable from DNS host 'nexus'"),
            s("location 'test' uses router-advertised IPv6; the prefix is accepted for recursion but no durable GUA AAAA records are emitted"),
        ]
    );
}

#[test]
fn ipv6_records_get_nibble_reverse_zones() {
    let mut b = dns_bundle();
    b.allocations.ula = Some(UlaAllocations {
        prefix: net6("fd12:3456:789a::/48"),
        segments: vec![(s("main"), 0x10)],
        networks: Vec::new(),
    });
    b.location.hosts[0].1.interfaces[0].1.ula_interface_id = Some(s("a"));
    b.dns.records[0].families = vec![AddressFamily::Ipv6];
    let plan = resolve_dns_plan(&b).unwrap();
    let aaaa = plan.zones[0].records.iter().find_map(|r| match r {
        ResolvedRecord::Aaaa { address, .. } => Some(*address),
        _ => None,
    });
    assert_eq!(aaaa.unwrap(), v6("fd12:3456:789a:10::a"));
    assert_eq!(plan.reverse_zones.len(), 1);
    assert_eq!(plan.reverse_zones[0].name, "0.1.0.0.a.9.8.7.6.5.4.3.2.1.d.f.ip6.arpa");
    assert_eq!(plan.reverse_zones[0].records, vec![(s("a.0.0.0.0.0.0.0.0.0.0.0.0.0.0.0"), s("nexus.example.test."))]);
}

#[test]
fn names_are_qualified_once() {
    assert_eq!(fqdn("example.test"), "example.test.");
    assert_eq!(fqdn("example.test."), "example.test.");
}

#[test]
fn environment_names_are_shell_safe() {
    assert_eq!(env_key("zion-lan.1"), "ZION_LAN_1");
    assert_eq!(env_key("Nexus"), "NEXUS");
}

#[test]
fn host_environment_lists_location_and_addresses() {
    let mut b = dns_bundle();
    b.inventory.hosts[0].1.runtime_root = Some(s("/srv/nexus"));
    let paths = NetweftPaths {
        config_dir: s("/etc/netweft"),
        generated_dir: s("/var/lib/netweft/generated"),
        state_dir: s("/var/lib/netweft/state"),
        cache_dir: s("/var/cache/netweft"),
    };
    let plan = resolve_env_plan(&b, &paths, "nexus").unwrap();
    let get = |k: &str| plan.variables.iter().find(|(key, _)| key == k).map(|(_, v)| v.clone());
    assert_eq!(get("NETWEFT_LOCATION").unwrap(), "test");
    assert_eq!(get("NETWEFT_GENERATED_ROOT").unwrap(), "/var/lib/netweft/generated/test");
    assert_eq!(get("NETWEFT_BIND_CONFIG_DIR").unwrap(), "/var/lib/netweft/generated/test/bind");
    assert_eq!(get("NEXUS_RUNTIME").unwrap(), "/srv/nexus");
    assert_eq!(get("TAILSCALE_STATE_DIR").unwrap(), "/srv/nexus/tailscale/state");
    assert_eq!(get("NEXUS_LAN_IPV4").unwrap(), "192.168.10.10");
    assert_eq!(get("CONTAINERS_IPV4_SUBNET").unwrap(), "10.78.0.0/16");
    assert_eq!(get("CONTAINERS_IPV4_GATEWAY").unwrap(), "10.78.0.1");
    assert_eq!(get("BIND9_IPV4").unwrap(), "10.78.29.29");
    let keys: Vec<&String> = plan.variables.iter().map(|(k, _)| k).collect();
    let mut sorted = keys.clone();
    sorted.sort();
    assert_eq!(keys, sorted);
    assert!(resolve_env_plan(&b, &paths, "missing").is_err());
}

#[test]
fn tailscale_routes_cover_segments_and_networks() {
    let mut b = dns_bundle();
    b.allocations.ula = Some(UlaAllocations {
        prefix: net6("fd12:3456:789a::/48"),
        segments: vec![(s("main"), 0x10)],
        networks: vec![(s("containers"), 0x20)],
    });
    b.networks.networks[0].1.ula_enabled = true;
    b.location.hosts[0].1.interfaces[0].1.ula_interface_id = Some(s("a"));
    b.location.tailscale.routers = vec![(
        s("nexus"),
        TailscaleRouterSettings {
            enabled: true,
            snat_subnet_routes: true,
            accept_routes: false,
            exit_node: false,
            advertise: vec![s("segment:main"), s("network:containers")],
        },
    )];
    let paths = NetweftPaths { config_dir: s("c"), generated_dir: s("g/"), state_dir: s("s"), cache_dir: s("k") };
    let plan = resolve_env_plan(&b, &paths, "nexus").unwrap();
    let get = |k: &str| plan.variables.iter().find(|(key, _)| key == k).map(|(_, v)| v.clone());
    assert_eq!(
        get("TS_ADVERTISE_ROUTES").unwrap(),
        "192.168.10.0/24,fd12:3456:789a:10::a/128,10.78.0.0/16,fd12:3456:789a:20::/64"
    );
    assert_eq!(get("CONTAINERS_IPV6_GATEWAY").unwrap(), "fd12:3456:789a:20::1");
    assert_eq!(get("NETWEFT_GENERATED_ROOT").unwrap(), "g/test");
}

#[test]
fn rejects_an_unknown_host() {
    let b = dns_bundle();
    let error = resolve_host_network_plan(&b, "nonexistent").err().unwrap();
    assert!(matches!(error, PlanError::UnknownHost { .. }));
    assert!(error.message().contains("unknown host"), "{}", error.message());
}

#[test]
fn rejects_a_host_without_a_network_profile() {
    let b = dns_bundle();
    let error = resolve_host_network_plan(&b, "nexus").err().unwrap();
    assert!(matches!(error, PlanError::NoHostNetworkProfile { .. }));
    assert!(error.message().contains("has no host network profile"), "{}", error.message());
}

#[test]
fn slaac_needs_ipv6_at_the_location() {
    let mut b = dns_bundle();
    b.inventory.hosts[0].1.network = Some(HostNetworkConfig {
        provider: HostNetworkProvider::ProxmoxIfupdown2,
        management_interface: s("lan"),
        preserve_includes: true,
        links: vec![HostNetworkLink { name: s("eno1"), kind: HostNetworkLinkKind::Ethernet }],
        bridges: vec![HostNetworkBridge {
            name: s("vmbr0"),
            ports: vec![s("eno1")],
            location_interface: Some(s("lan")),
            vlan_aware: true,
            allowed_vlans: Some(s("2-4094")),
            stp: false,
            forward_delay: 0,
            comment: None,
        }],
    });
    let plan = resolve_host_network_plan(&b, "nexus").unwrap();
    assert_eq!(plan.fqdn, "nexus.example.test");
    assert_eq!(plan.dns_servers, vec![v4("192.168.10.10")]);
    assert_eq!(plan.search_domains, vec![s("example.test")]);
    assert_eq!(plan.links[0].kind, "ethernet");
    let bridge = &plan.bridges[0];
    assert_eq!(bridge.ipv4, Some(net4("192.168.10.10/24")));
    assert_eq!(bridge.ipv4_gateway, Some(v4("192.168.10.1")));
    assert_eq!(bridge.segment.as_deref(), Some("main"));

    b.location.hosts[0].1.interfaces[0].1.ipv6_mode = Some(InterfaceIpv6Mode::Slaac);
    assert!(matches!(resolve_host_network_plan(&b, "nexus"), Err(PlanError::SlaacWithoutIpv6 { .. })));
}

#[test]
fn adapters_validate_against_current_configuration() {
    let mut b = dns_bundle();
    b.inventory.hosts[0].1.runtime_root = Some(s("/srv/nexus"));
    validate_bundle(&b).unwrap();
    let paths = NetweftPaths {
        config_dir: s("/etc/netweft"),
        generated_dir: s("/var/lib/netweft/generated"),
        state_dir: s("/var/lib/netweft/state"),
        cache_dir: s("/var/cache/netweft"),
    };
    let plan = ResolvedPlan::new(&b, &paths);
    let context = AdapterContext::new(&plan);
    BindAdapter.validate(&context).unwrap();
    EnvironmentAdapter.validate(&context.for_host("nexus")).unwrap();
    assert!(matches!(
        EnvironmentAdapter.validate(&AdapterContext::new(&plan)),
        Err(AdapterError::TargetHostRequired { .. })
    ));
}

#[test]
fn dns_plan_reports_the_first_refused_record() {
    let mut b = dns_bundle();
    b.dns.records[0].name = s("nexus.elsewhere.test");
    b.dns.records[1] = DnsRecord {
        name: s("late.example.test"),
        kind: DnsRecordKind::Host,
        target: Some(s("nexus")),
        interface: Some(s("wan")),
        address_scope: None,
        families: vec![AddressFamily::Ipv4],
        reverse: false,
    };
    match resolve_dns_plan(&b) {
        Err(PlanError::RecordOutsideZones { record }) => assert_eq!(record, "nexus.elsewhere.test"),
        other => panic!("unexpected {other:?}"),
    }
    b.dns.records[0].name = s("nexus.example.test");
    assert!(matches!(resolve_dns_plan(&b), Err(PlanError::NoInterface { .. })));
}

#[test]
fn dns_plan_checks_the_name_server_before_records() {
    let mut b = dns_bundle();
    b.dns.dns.soa.primary_nameserver = s("ns1.elsewhere.test");
    b.dns.records[0].name = s("nexus.other.test");
    match resolve_dns_plan(&b) {
        Err(PlanError::RecordOutsideZones { record }) => assert_eq!(record, "ns1.elsewhere.test"),
        other => panic!("unexpected {other:?}"),
    }
}

#[test]
fn dns_plan_runs_until_it_would_look_up_a_missing_name() {
    let mut b = dns_bundle();
    assert!(dns_plan_runs(&b));
    b.dns.records.push(DnsRecord {
        name: s("edge.example.test"),
        kind: DnsRecordKind::SegmentGateway,
        target: Some(s("nowhere")),
        interface: None,
        address_scope: None,
        families: vec![AddressFamily::Ipv4],
        reverse: false,
    });
    assert!(!dns_plan_runs(&b));
    b.dns.records[0].name = s("nexus.elsewhere.test");
    assert!(dns_plan_runs(&b));
    assert!(matches!(resolve_dns_plan(&b), Err(PlanError::RecordOutsideZones { .. })));
    b.dns.records[0].name = s("nexus.example.test");
    b.dns.dns.service = s("missing");
    assert!(dns_plan_runs(&b));
    assert!(matches!(resolve_dns_plan(&b), Err(PlanError::DnsServiceMissing { .. })));
}

#[test]
fn environment_runs_until_it_would_look_up_a_missing_route() {
    let mut b = dns_bundle();
    b.location.tailscale.routers = vec![(
        s("nexus"),
        TailscaleRouterSettings {
            enabled: true,
            snat_subnet_routes: true,
            accept_routes: false,
            exit_node: false,
            advertise: vec![s("segment:main"), s("segment:nowhere")],
        },
    )];
    assert!(!env_plan_runs(&b, "nexus"));
    b.location.tailscale.routers[0].1.advertise = vec![s("network:containers"), s("segment:nowhere")];
    assert!(!env_plan_runs(&b, "nexus"));
    b.networks.networks[0].1.ula_enabled = true;
    assert!(env_plan_runs(&b, "nexus"));
    let paths = NetweftPaths { config_dir: s("c"), generated_dir: s("g/"), state_dir: s("s"), cache_dir: s("k") };
    assert!(resolve_env_plan(&b, &paths, "nexus").is_err());
    b.location.tailscale.routers[0].0 = s("ghost");
    b.location.tailscale.routers[0].1.advertise = vec![s("segment:nowhere")];
    assert!(env_plan_runs(&b, "nexus"));
}
