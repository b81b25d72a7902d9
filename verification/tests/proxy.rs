use netweft::adapter::{AdapterContext, AdapterError};
use netweft::resolve::ResolvedPlan;
use netweft::paths::NetweftPaths;
use netweft::adapters::nginx::{plan_for_context, validate_plan};
use netweft::adapters::NginxAdapter;
use netweft::model::{
    AllocationsFile, CertificateReference, CloudflareFile, ConfigBundle, DnsFile, DnsForwarders,
    DnsSettings, DockerFile, Domains, GuestsFile, Host, HostKind, InventoryFile, Ipv6Mode,
    LocationFile, LocationIpv6, LocationTailscale, LogicalNetwork, NasPermissionsFile,
    NetworkKind, NetworkMountsFile, NetworkRouting, NetworksFile, PathSettings, PrefixStability,
    ProxmoxSdnFile, ProxmoxStoragesFile, RecursionSettings, RenderSettings, Router, RoutingMode,
    Segment, SegmentKind, Service, ServiceAddress, ServiceKind, ServicesFile, SettingsFile,
    SoaSettings, SshFile, UpstreamScheme, ValidationSettings, WebService,
};
use netweft::net::{ipv4_text, Ipv4Cidr, Ipv6Cidr};
use netweft::plan::proxy::{resolve_proxy_plan, ListenerProtocol};
use netweft::plan::PlanError;
use netweft::validate::validate_bundle;

fn v4(text: &str) -> u32 {
    text.split('.').fold(0u32, |acc, part| (acc << 8) | part.parse::<u32>().unwrap())
}

fn v6(text: &str) -> u128 {
    let groups = |part: &str| -> Vec<u128> {
        if part.is_empty() {
            Vec::new()
        } else {
            part.split(':').map(|g| u128::from_str_radix(g, 16).unwrap()).collect()
        }
    };
    let (head, tail) = match text.split_once("::") {
        Some((h, t)) => (groups(h), groups(t)),
        None => (groups(text), Vec::new()),
    };
    let mut all = head.clone();
    all.extend(std::iter::repeat(0).take(8 - head.len() - tail.len()));
    all.extend(tail);
    all.iter().fold(0u128, |acc, g| (acc << 16) | g)
}

fn net4(text: &str) -> Ipv4Cidr {
    let (a, l) = text.split_once('/').unwrap();
    Ipv4Cidr { addr: v4(a), prefix_len: l.parse().unwrap() }
}

fn net6(text: &str) -> Ipv6Cidr {
    let (a, l) = text.split_once('/').unwrap();
    Ipv6Cidr { addr: v6(a), prefix_len: l.parse().unwrap() }
}

fn s(text: &str) -> String {
    text.to_owned()
}

fn segment(cidr: &str, gateway: &str) -> Segment {
    Segment {
        kind: SegmentKind::Lan,
        ipv4_cidr: net4(cidr),
        ipv4_gateway: v4(gateway),
        vlan_id: None,
        public_ipv6_allocation: None,
        dns_clients: true,
        reverse_dns: true,
    }
}

fn location(mode: Ipv6Mode, prefix: Option<&str>, segments: Vec<(String, Segment)>) -> LocationFile {
    LocationFile {
        schema_version: 1,
        name: s("test"),
        description: None,
        router: Router { kind: s("test"), managed: false, supports_vlans: false },
        ipv6: LocationIpv6 {
            mode,
            prefix: prefix.map(net6),
            subnet_prefix_length: None,
            stability: PrefixStability::Dynamic,
            publish_public_aaaa: false,
        },
        segments,
        hosts: Vec::new(),
        tailscale: LocationTailscale::default(),
        external_ingress: None,
    }
}

fn nexus() -> Host {
    Host {
        kind: HostKind::Physical,
        roles: vec![s("dns")],
        parent: None,
        runtime_root: None,
        ssh_user: None,
        network: None,
        os_network: None,
        enabled: true,
    }
}

fn bundle(location: LocationFile) -> ConfigBundle {
    ConfigBundle {
        settings: SettingsFile {
            schema_version: 1,
            active_location: s("test"),
            paths: PathSettings::default(),
            render: RenderSettings::default(),
            validation: ValidationSettings::default(),
        },
        inventory: InventoryFile {
            schema_version: 1,
            domains: Domains { primary: s("example.test"), additional: Vec::new() },
            hosts: vec![(s("nexus"), nexus())],
        },
        networks: NetworksFile {
            schema_version: 1,
            networks: vec![(
                s("containers"),
                LogicalNetwork {
                    kind: NetworkKind::Docker,
                    owner: Some(s("nexus")),
                    docker_name: None,
                    ipv4_cidr: Some(net4("10.78.0.0/16")),
                    ipv4_gateway: Some(v4("10.78.0.1")),
                    allocation_key: s("containers"),
                    preferred_display_id: None,
                    ula_enabled: false,
                    reverse_dns: false,
                    dns_clients: true,
                    routing: Some(NetworkRouting { from: Some(s("nexus")), mode: RoutingMode::Direct, via: None }),
                },
            )],
        },
        docker: DockerFile::default(),
        ssh: SshFile::default(),
        cloudflare: CloudflareFile::default(),
        services: ServicesFile {
            schema_version: 1,
            certificates: Vec::new(),
            services: vec![(
                s("bind9"),
                Service {
                    kind: ServiceKind::Dns,
                    host: s("nexus"),
                    network: s("containers"),
                    enabled: true,
                    address: Some(ServiceAddress { ipv4: Some(v4("10.78.29.29")), ipv6_interface_id: None }),
                    ports: Vec::new(),
                    runtime: None,
                    ingress: None,
                    ssh: None,
                    web: None,
                },
            )],
        },
        guests: GuestsFile::default(),
        mounts: NetworkMountsFile::default(),
        nas_permissions: NasPermissionsFile::default(),
        proxmox_storages: ProxmoxStoragesFile::default(),
        proxmox_sdn: ProxmoxSdnFile::default(),
        dns: DnsFile {
            schema_version: 1,
            dns: DnsSettings {
                provider: s("bind9"),
                service: s("bind9"),
                default_ttl: 300,
                negative_ttl: 60,
                soa: SoaSettings {
                    primary_nameserver: s("ns1.example.test."),
                    responsible_mailbox: s("admin.example.test."),
                    refresh: 3600,
                    retry: 600,
                    expire: 86400,
                },
                recursion: RecursionSettings::default(),
                forwarders: DnsForwarders { ipv4: vec![v4("1.1.1.1")], ipv6: Vec::new() },
            },
            zones: Vec::new(),
            records: Vec::new(),
        },
        allocations: AllocationsFile { schema_version: 1, ula: None },
        location,
    }
}


fn web(domain: &str, port: u16, scheme: UpstreamScheme, certificate: Option<&str>, websocket: bool) -> WebService {
    WebService {
        container_port: port,
        domain: s(domain),
        access: s("reverse-proxy"),
        proxy: s("nginx"),
        scheme,
        tls: true,
        certificate: certificate.map(s),
        force_https: true,
        websocket,
    }
}

fn service(kind: ServiceKind, host: &str, network: &str, address: &str, web: Option<WebService>) -> Service {
    Service {
        kind,
        host: s(host),
        network: s(network),
        enabled: true,
        address: Some(ServiceAddress { ipv4: Some(v4(address)), ipv6_interface_id: None }),
        ports: Vec::new(),
        runtime: None,
        ingress: None,
        ssh: None,
        web,
    }
}

/// Jellyfin in a container on `nexus` and DSM on the NAS, both published
/// through the Nginx service on `nexus` under a wildcard certificate.
fn proxy_bundle(certificate: Option<&str>) -> ConfigBundle {
    let loc = location(Ipv6Mode::Disabled, None, vec![(s("main"), segment("10.214.90.0/24", "10.214.90.1"))]);
    let mut b = bundle(loc);
    b.inventory.domains.primary = s("suhail.ink");
    b.inventory.hosts = vec![(s("nas"), nexus()), (s("nexus"), nexus())];
    b.networks.networks[0].1.ipv4_cidr = Some(net4("10.74.0.0/16"));
    b.networks.networks[0].1.ipv4_gateway = Some(v4("10.74.0.1"));
    b.networks.networks.push((
        s("lan"),
        LogicalNetwork {
            kind: NetworkKind::Lan,
            owner: None,
            docker_name: None,
            ipv4_cidr: Some(net4("10.214.90.0/24")),
            ipv4_gateway: Some(v4("10.214.90.1")),
            allocation_key: s("lan"),
            preferred_display_id: None,
            ula_enabled: false,
            reverse_dns: false,
            dns_clients: true,
            routing: None,
        },
    ));
    b.services.certificates = vec![(
        s("wildcard-suhail"),
        CertificateReference {
            domains: vec![s("*.suhail.ink")],
            certificate_path: s("/etc/ssl/suhail/fullchain.pem"),
            private_key_path: s("/etc/ssl/suhail/privkey.pem"),
        },
    )];
    b.services.services = vec![
        (s("bind9"), service(ServiceKind::Dns, "nexus", "containers", "10.74.29.29", None)),
        (
            s("dsm"),
            service(ServiceKind::Web, "nas", "lan", "10.214.90.20", Some(web("dsm.suhail.ink", 5001, UpstreamScheme::Https, certificate, false))),
        ),
        (
            s("jellyfin"),
            service(
                ServiceKind::Web,
                "nexus",
                "containers",
                "10.74.1.10",
                Some(web("jellyfin.suhail.ink", 8096, UpstreamScheme::Http, certificate, true)),
            ),
        ),
        (s("nginx"), service(ServiceKind::ReverseProxy, "nexus", "containers", "10.74.0.80", None)),
    ];
    b
}

fn validate_with(
    b: &ConfigBundle,
    target: Option<&str>,
    check: impl Fn(&AdapterContext) -> Result<(), AdapterError>,
) -> Result<(), AdapterError> {
    let dirs = NetweftPaths {
        config_dir: "/etc/netweft".to_owned(),
        generated_dir: "/var/lib/netweft/generated".to_owned(),
        state_dir: "/var/lib/netweft/state".to_owned(),
        cache_dir: "/var/cache/netweft".to_owned(),
    };
    let plan = ResolvedPlan::new(b, &dirs);
    let context = AdapterContext::new(&plan);
    match target {
        Some(host) => check(&context.for_host(host)),
        None => check(&context),
    }
}

#[test]
fn resolves_container_and_cross_host_proxy_intent() {
    let bundle = proxy_bundle(Some("wildcard-suhail"));
    validate_bundle(&bundle).unwrap();

    let plan = resolve_proxy_plan(&bundle).unwrap();
    assert_eq!(plan.proxies.len(), 2);

    let jellyfin = plan.proxies.iter().find(|proxy| proxy.id.as_str() == "jellyfin").unwrap();
    assert_eq!(jellyfin.target_host.as_str(), "nexus");
    assert_eq!(ipv4_text(jellyfin.upstream.address), "10.74.1.10");
    assert_eq!(jellyfin.upstream.port, 8096);
    assert_eq!(jellyfin.upstream.scheme, UpstreamScheme::Http);
    assert_eq!(jellyfin.listeners[0].protocol, ListenerProtocol::Https);
    assert!(jellyfin.websocket);
    assert_eq!(
        jellyfin.tls.as_ref().unwrap().certificate.as_ref().unwrap().id.as_str(),
        "wildcard-suhail"
    );

    let dsm = plan.proxies.iter().find(|proxy| proxy.id.as_str() == "dsm").unwrap();
    assert_eq!(dsm.target_host.as_str(), "nexus");
    assert_eq!(ipv4_text(dsm.upstream.address), "10.214.90.20");
    assert_eq!(dsm.upstream.port, 5001);
    assert_eq!(dsm.upstream.scheme, UpstreamScheme::Https);
}

#[test]
fn legacy_tls_intent_remains_valid_without_certificate_reference() {
    let bundle = proxy_bundle(None);
    validate_bundle(&bundle).unwrap();
    let plan = resolve_proxy_plan(&bundle).unwrap();
    let jellyfin = plan.proxies.iter().find(|proxy| proxy.id.as_str() == "jellyfin").unwrap();
    assert!(jellyfin.tls.as_ref().unwrap().certificate.is_none());
}

#[test]
fn rejects_tls_rendering_without_a_certificate_reference() {
    let bundle = proxy_bundle(None);
    match validate_with(&bundle, Some("nexus"), |c| NginxAdapter.validate(c)) {
        Err(AdapterError::TlsWithoutCertificate { proxy }) => assert_eq!(proxy, "dsm"),
        other => panic!("unexpected: {:?}", other.err()),
    }
}

#[test]
fn nginx_adapter_accepts_certificates_and_selects_the_target_host() {
    let bundle = proxy_bundle(Some("wildcard-suhail"));
    validate_with(&bundle, Some("nexus"), |c| NginxAdapter.validate(c)).unwrap();
    validate_with(&bundle, None, |c| NginxAdapter.validate(c)).unwrap();
    let plan = resolve_proxy_plan(&bundle).unwrap();
    let (selected, host) = plan_for_context(plan, None).unwrap();
    assert_eq!(host, "nexus");
    assert_eq!(selected.proxies.len(), 2);
    validate_plan(&selected).unwrap();
}

#[test]
fn nginx_adapter_needs_entries_on_the_target_host() {
    let bundle = proxy_bundle(Some("wildcard-suhail"));
    match validate_with(&bundle, Some("zion"), |c| NginxAdapter.validate(c)) {
        Err(AdapterError::NoProxiesForHost { host }) => assert_eq!(host, "zion"),
        other => panic!("unexpected: {:?}", other.err()),
    }
    let mut bundle = proxy_bundle(Some("wildcard-suhail"));
    for (_, service) in bundle.services.services.iter_mut() {
        service.web = None;
    }
    assert!(matches!(validate_with(&bundle, None, |c| NginxAdapter.validate(c)), Err(AdapterError::NoProxyEntries)));
}

#[test]
fn certificate_must_cover_the_proxied_domain() {
    let mut bundle = proxy_bundle(Some("wildcard-suhail"));
    bundle.services.certificates[0].1.domains = vec![s("*.example.org")];
    assert!(matches!(resolve_proxy_plan(&bundle), Err(PlanError::CertificateDoesNotCover { .. })));
}
