use netweft::adapter::{AdapterContext, AdapterError};
use netweft::resolve::ResolvedPlan;
use netweft::paths::NetweftPaths;
use netweft::adapters::{CloudflareAdapter, DockerAdapter, SshAdapter};
use netweft::model::{
    AllocationsFile, CloudflareFile, CloudflareProvider, CloudflareTunnel, ConfigBundle, DnsFile,
    DnsForwarders, DnsSettings, DockerFile, DockerHost, Domains, ExternalIngressMode, GuestsFile,
    Host, HostKind, InventoryFile, Ipv6Mode, LocationExternalIngress, LocationFile, LocationHost,
    LocationInterface, LocationIpv6, LocationTailscale, LogicalNetwork, NasPermissionsFile,
    NetworkKind, NetworkMountsFile, NetworkRouting, NetworksFile, PathSettings, PrefixStability,
    ProxmoxSdnFile, ProxmoxStoragesFile, RecursionSettings, RenderSettings, Router, RoutingMode,
    Segment, SegmentKind, Service, ServiceAddress, ServiceKind, ServicesFile, SettingsFile,
    SoaSettings, SshClient, SshFile, SshIdentity, SshTarget, ValidationSettings,
};
use netweft::net::{ipv4_text, Ipv4Cidr, Ipv6Cidr};
use netweft::plan::cloudflare::resolve_cloudflare_plan;
use netweft::plan::docker::{first_ipv4, first_ipv6, resolve_docker_plan};
use netweft::plan::ssh::resolve_ssh_plan;
use netweft::plan::PlanError;

fn v4(text: &str) -> u32 {
    text.split('.').fold(0u32, |acc, part| (acc << 8) | part.parse::<u32>().unwrap())
}

fn v6(text: &str) -> u128 {
    let groups = |part: &str| -> Vec<u128> {
        if part.is_empty() {
            Vec::new()
        } else {
            part.split(':').map(|g| u128::from_str_radix(g, 16).unwrap()).collect()
        }
    };
    let (head, tail) = match text.split_once("::") {
        Some((h, t)) => (groups(h), groups(t)),
        None => (groups(text), Vec::new()),
    };
    let mut all = head.clone();
    all.extend(std::iter::repeat(0).take(8 - head.len() - tail.len()));
    all.extend(tail);
    all.iter().fold(0u128, |acc, g| (acc << 16) | g)
}

fn net4(text: &str) -> Ipv4Cidr {
    let (a, l) = text.split_once('/').unwrap();
    Ipv4Cidr { addr: v4(a), prefix_len: l.parse().unwrap() }
}

fn net6(text: &str) -> Ipv6Cidr {
    let (a, l) = text.split_once('/').unwrap();
    Ipv6Cidr { addr: v6(a), prefix_len: l.parse().unwrap() }
}

fn s(text: &str) -> String {
    text.to_owned()
}

fn segment(cidr: &str, gateway: &str) -> Segment {
    Segment {
        kind: SegmentKind::Lan,
        ipv4_cidr: net4(cidr),
        ipv4_gateway: v4(gateway),
        vlan_id: None,
        public_ipv6_allocation: None,
        dns_clients: true,
        reverse_dns: true,
    }
}

fn location(mode: Ipv6Mode, prefix: Option<&str>, segments: Vec<(String, Segment)>) -> LocationFile {
    LocationFile {
        schema_version: 1,
        name: s("test"),
        description: None,
        router: Router { kind: s("test"), managed: false, supports_vlans: false },
        ipv6: LocationIpv6 {
            mode,
            prefix: prefix.map(net6),
            subnet_prefix_length: None,
            stability: PrefixStability::Dynamic,
            publish_public_aaaa: false,
        },
        segments,
        hosts: Vec::new(),
        tailscale: LocationTailscale::default(),
        external_ingress: None,
    }
}

fn nexus() -> Host {
    Host {
        kind: HostKind::Physical,
        roles: vec![s("dns")],
        parent: None,
        runtime_root: None,
        ssh_user: None,
        network: None,
        os_network: None,
        enabled: true,
    }
}

fn bundle(location: LocationFile) -> ConfigBundle {
    ConfigBundle {
        settings: SettingsFile {
            schema_version: 1,
            active_location: s("test"),
            paths: PathSettings::default(),
            render: RenderSettings::default(),
            validation: ValidationSettings::default(),
        },
        inventory: InventoryFile {
            schema_version: 1,
            domains: Domains { primary: s("example.test"), additional: Vec::new() },
            hosts: vec![(s("nexus"), nexus())],
        },
        networks: NetworksFile {
            schema_version: 1,
            networks: vec![(
                s("containers"),
                LogicalNetwork {
                    kind: NetworkKind::Docker,
                    owner: Some(s("nexus")),
                    docker_name: None,
                    ipv4_cidr: Some(net4("10.78.0.0/16")),
                    ipv4_gateway: Some(v4("10.78.0.1")),
                    allocation_key: s("containers"),
                    preferred_display_id: None,
                    ula_enabled: false,
                    reverse_dns: false,
                    dns_clients: true,
                    routing: Some(NetworkRouting { from: Some(s("nexus")), mode: RoutingMode::Direct, via: None }),
                },
            )],
        },
        docker: DockerFile::default(),
        ssh: SshFile::default(),
        cloudflare: CloudflareFile::default(),
        services: ServicesFile {
            schema_version: 1,
            certificates: Vec::new(),
            services: vec![(
                s("bind9"),
                Service {
                    kind: ServiceKind::Dns,
                    host: s("nexus"),
                    network: s("containers"),
                    enabled: true,
                    address: Some(ServiceAddress { ipv4: Some(v4("10.78.29.29")), ipv6_interface_id: None }),
                    ports: Vec::new(),
                    runtime: None,
                    ingress: None,
                    ssh: None,
                    web: None,
                },
            )],
        },
        guests: GuestsFile::default(),
        mounts: NetworkMountsFile::default(),
        nas_permissions: NasPermissionsFile::default(),
        proxmox_storages: ProxmoxStoragesFile::default(),
        proxmox_sdn: ProxmoxSdnFile::default(),
        dns: DnsFile {
            schema_version: 1,
            dns: DnsSettings {
                provider: s("bind9"),
                service: s("bind9"),
                default_ttl: 300,
                negative_ttl: 60,
                soa: SoaSettings {
                    primary_nameserver: s("ns1.example.test."),
                    responsible_mailbox: s("admin.example.test."),
                    refresh: 3600,
                    retry: 600,
                    expire: 86400,
                },
                recursion: RecursionSettings::default(),
                forwarders: DnsForwarders { ipv4: vec![v4("1.1.1.1")], ipv6: Vec::new() },
            },
            zones: Vec::new(),
            records: Vec::new(),
        },
        allocations: AllocationsFile { schema_version: 1, ula: None },
        location,
    }
}


/// `nexus` runs Docker with its default bridge and owns the `containers`
/// network; the location publishes through a Cloudflare tunnel that `nexus`
/// connects.
fn service_bundle() -> ConfigBundle {
    let mut loc = location(Ipv6Mode::Disabled, None, vec![(s("main"), segment("192.168.10.0/24", "192.168.10.1"))]);
    loc.hosts = vec![(
        s("nexus"),
        LocationHost {
            interfaces: vec![(
                s("lan"),
                LocationInterface { segment: s("main"), ipv4: Some(v4("192.168.10.10")), ipv6_mode: None, ula_interface_id: None },
            )],
        },
    )];
    loc.external_ingress = Some(LocationExternalIngress {
        mode: ExternalIngressMode::CloudflareTunnel,
        provider: s("suhail"),
        tunnel: Some(s("home")),
        origin_host: None,
        publish_ipv4: false,
        publish_ipv6: false,
    });
    let mut b = bundle(loc);
    b.inventory.hosts[0].1.roles = vec![s("dns"), s("docker")];
    b.docker.hosts = vec![(
        s("nexus"),
        DockerHost {
            bridge_ipv4_cidr: net4("172.17.0.0/16"),
            bridge_ipv6_cidr: net6("fd00:d0c::/64"),
            ipv4_pool_base: net4("172.20.0.0/14"),
            ipv4_pool_size: 24,
            ipv6_pool_base: net6("fd00:d0d::/48"),
            ipv6_pool_size: 64,
            network_migrations: Vec::new(),
        },
    )];
    b.cloudflare.providers = vec![(
        s("suhail"),
        CloudflareProvider {
            zone: s("suhail.ink"),
            zone_id: s("zone-id"),
            account_id: s("account-id"),
            tunnel_api_token_env: s("CLOUDFLARE_API_TOKEN_SUHAIL_INK_TUNNEL"),
            dns_api_token_env: s("CLOUDFLARE_API_TOKEN_SUHAIL_INK_DNS"),
        },
    )];
    b.cloudflare.tunnels = vec![(
        s("home"),
        CloudflareTunnel {
            provider: s("suhail"),
            connector_host: s("nexus"),
            origin: s("https://192.168.10.10"),
            origin_tls_verify: true,
            hostnames: vec![s("media.suhail.ink"), s("dsm.suhail.ink"), s("media.suhail.ink")],
        },
    )];
    b
}

fn validate_with(
    b: &ConfigBundle,
    target: Option<&str>,
    check: impl Fn(&AdapterContext) -> Result<(), AdapterError>,
) -> Result<(), AdapterError> {
    let dirs = NetweftPaths {
        config_dir: "/etc/netweft".to_owned(),
        generated_dir: "/var/lib/netweft/generated".to_owned(),
        state_dir: "/var/lib/netweft/state".to_owned(),
        cache_dir: "/var/cache/netweft".to_owned(),
    };
    let plan = ResolvedPlan::new(b, &dirs);
    let context = AdapterContext::new(&plan);
    match target {
        Some(host) => check(&context.for_host(host)),
        None => check(&context),
    }
}

#[test]
fn docker_gateways_are_the_first_host_addresses() {
    assert_eq!(first_ipv4(net4("172.17.5.9/16")).map(ipv4_text), Some(s("172.17.0.1")));
    assert_eq!(first_ipv6(net6("fd00:d0c::/64")), Some(v6("fd00:d0c::1")));
    assert_eq!(first_ipv4(net4("255.255.255.255/32")), None);
}

#[test]
fn docker_plan_lists_the_networks_the_host_owns() {
    let b = service_bundle();
    let plan = resolve_docker_plan(&b, "nexus").unwrap();
    assert_eq!(plan.host, "nexus");
    assert_eq!(ipv4_text(plan.daemon.bridge_ipv4_gateway), "172.17.0.1");
    assert_eq!(plan.daemon.bridge_ipv6_gateway, v6("fd00:d0c::1"));
    assert_eq!(plan.networks.len(), 1);
    assert_eq!(plan.networks[0].logical_name, "containers");
    assert_eq!(plan.networks[0].docker_name, "containers");
    assert_eq!(ipv4_text(plan.networks[0].ipv4_gateway), "10.78.0.1");
    assert!(plan.networks[0].ipv6_cidr.is_none());
    validate_with(&b, Some("nexus"), |c| DockerAdapter.validate(c)).unwrap();
}

#[test]
fn docker_plan_needs_the_docker_role_and_a_profile() {
    let mut b = service_bundle();
    b.inventory.hosts[0].1.roles = vec![s("dns")];
    assert!(matches!(resolve_docker_plan(&b, "nexus"), Err(PlanError::NotADockerHost { .. })));
    let mut b = service_bundle();
    b.docker.hosts.clear();
    assert!(matches!(resolve_docker_plan(&b, "nexus"), Err(PlanError::NoDockerProfile { .. })));
    assert!(matches!(resolve_docker_plan(&b, "ghost"), Err(PlanError::UnknownHost { .. })));
    assert!(matches!(validate_with(&b, None, |c| DockerAdapter.validate(c)), Err(AdapterError::TargetHostRequired { .. })));
}

#[test]
fn tunnel_hostnames_are_sorted_and_unique() {
    let b = service_bundle();
    let plan = resolve_cloudflare_plan(&b, None).unwrap();
    assert_eq!(plan.tunnel_name, "home");
    assert_eq!(plan.connector_host, "nexus");
    assert_eq!(plan.zone, "suhail.ink");
    assert_eq!(plan.mode, "cloudflare-tunnel");
    assert_eq!(plan.tunnel_api_token_env, "CLOUDFLARE_API_TOKEN_SUHAIL_INK_TUNNEL");
    assert_eq!(plan.hostnames, vec![s("dsm.suhail.ink"), s("media.suhail.ink")]);
    validate_with(&b, None, |c| CloudflareAdapter.validate(c)).unwrap();
}

#[test]
fn tunnel_hostnames_stay_under_the_zone() {
    let mut b = service_bundle();
    b.cloudflare.tunnels[0].1.hostnames.push(s("suhail.ink"));
    assert!(matches!(resolve_cloudflare_plan(&b, None), Err(PlanError::HostnameOutsideZone { .. })));
    let mut b = service_bundle();
    b.cloudflare.tunnels[0].1.hostnames = vec![s("evilsuhail.ink")];
    assert!(matches!(resolve_cloudflare_plan(&b, None), Err(PlanError::HostnameOutsideZone { .. })));
}

#[test]
fn tunnel_selection_follows_the_location() {
    let b = service_bundle();
    assert!(matches!(resolve_cloudflare_plan(&b, Some("other")), Err(PlanError::TunnelNotSelected { .. })));
    let mut b = service_bundle();
    b.location.external_ingress = None;
    assert!(matches!(resolve_cloudflare_plan(&b, None), Err(PlanError::NoExternalIngress { .. })));
    assert!(validate_with(&b, None, |c| CloudflareAdapter.validate(c)).is_err());
}

#[test]
fn ssh_plan_needs_a_known_client() {
    let mut b = service_bundle();
    assert!(matches!(resolve_ssh_plan(&b, "laptop"), Err(PlanError::UnknownSshClient { .. })));
    assert!(matches!(validate_with(&b, None, |c| SshAdapter.validate(c)), Err(AdapterError::TargetHostRequired { .. })));
    b.ssh.clients = vec![(
        s("laptop"),
        SshClient { identities: vec![(s("main"), SshIdentity { file: s("~/.ssh/id_ed25519") })] },
    )];
    b.ssh.targets = vec![(
        s("nexus"),
        SshTarget {
            host: Some(s("nexus")),
            guest: None,
            service: None,
            interface: Some(s("lan")),
            user: s("root"),
            port: 22,
            identity: s("main"),
            forward_agent: false,
        },
    )];
    let plan = resolve_ssh_plan(&b, "laptop").unwrap();
    assert_eq!(plan.client, "laptop");
    assert_eq!(plan.targets.len(), 1);
    validate_with(&b, Some("laptop"), |c| SshAdapter.validate(c)).unwrap();
    b.ssh.targets[0].1.identity = s("other");
    assert!(matches!(resolve_ssh_plan(&b, "laptop"), Err(PlanError::UnknownSshIdentity { .. })));
}
