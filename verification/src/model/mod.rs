//! Typed configuration model.
//!
//! These are the values read from the configuration directory. Name-keyed
//! sections are tables (see `crate::table`); addresses are plain integers and
//! networks are `crate::net` values.

pub mod id;

use vstd::prelude::*;

use crate::net::{Ipv4Cidr, Ipv6Cidr};
use crate::table::unique_keys;
use crate::ordered::{keys_ascend, keys_unique, lemma_sorted_unique, sorted_keys};

verus! {

/// The configuration schema version this build understands.
pub const SCHEMA_VERSION: u32 = 1;

pub struct SettingsFile {
    pub schema_version: u32,
    pub active_location: String,
    pub paths: PathSettings,
    pub render: RenderSettings,
    pub validation: ValidationSettings,
}

pub struct PathSettings {
    pub generated_root: Option<String>,
    pub state_root: Option<String>,
    pub cache_root: Option<String>,
}

impl Default for PathSettings {
    fn default() -> (r: Self)
        ensures
            r.generated_root is None,
            r.state_root is None,
            r.cache_root is None,
    {
        PathSettings { generated_root: None, state_root: None, cache_root: None }
    }
}

pub struct RenderSettings {
    pub atomic: bool,
    pub stable_order: bool,
    pub generated_headers: bool,
}

impl Default for RenderSettings {
    /// Rendering is atomic, ordered and headed unless configured otherwise.
    fn default() -> (r: Self)
        ensures
            r.atomic && r.stable_order && r.generated_headers,
    {
        RenderSettings { atomic: true, stable_order: true, generated_headers: true }
    }
}

pub struct ValidationSettings {
    pub warn_dynamic_ipv6: bool,
    pub warn_dropbox_runtime: bool,
    pub warn_latest_images: bool,
    pub deny_warnings: bool,
}

impl Default for ValidationSettings {
    fn default() -> (r: Self)
        ensures
            !r.warn_dynamic_ipv6 && !r.warn_dropbox_runtime && !r.warn_latest_images
                && !r.deny_warnings,
    {
        ValidationSettings {
            warn_dynamic_ipv6: false,
            warn_dropbox_runtime: false,
            warn_latest_images: false,
            deny_warnings: false,
        }
    }
}

pub struct InventoryFile {
    pub schema_version: u32,
    pub domains: Domains,
    pub hosts: Vec<(String, Host)>,
}

pub struct Domains {
    pub primary: String,
    pub additional: Vec<String>,
}

pub struct Host {
    pub kind: HostKind,
    pub roles: Vec<String>,
    pub parent: Option<String>,
    pub runtime_root: Option<String>,
    pub ssh_user: Option<String>,
    pub network: Option<HostNetworkConfig>,
    pub os_network: Option<HostOsNetworkConfig>,
    pub enabled: bool,
}

/// Stable operating-system network topology attached to a host.
///
/// Addresses and gateways remain location-specific. This structure describes
/// host properties that normally travel with the machine: physical links,
/// bridges, and the operating-system network provider.
pub struct HostNetworkConfig {
    pub provider: HostNetworkProvider,
    pub management_interface: String,
    pub preserve_includes: bool,
    pub links: Vec<HostNetworkLink>,
    pub bridges: Vec<HostNetworkBridge>,
}

#[derive(Clone, Copy, Debug, PartialEq, Eq, Structural)]
pub enum HostNetworkProvider {
    ProxmoxIfupdown2,
}

pub struct HostOsNetworkConfig {
    pub provider: HostOsNetworkProvider,
    pub renderer: HostOsNetworkRenderer,
    pub interface: String,
    pub ipv4_mode: HostOsIpv4Mode,
    pub ipv6_mode: HostOsIpv6Mode,
}

#[derive(Clone, Copy, Debug, PartialEq, Eq, Structural)]
pub enum HostOsNetworkProvider {
    Netplan,
}

impl HostOsNetworkProvider {
    pub fn as_str(self) -> (r: &'static str)
        ensures
            r@ == "netplan"@,
    {
        match self {
            HostOsNetworkProvider::Netplan => "netplan",
        }
    }
}

#[derive(Clone, Copy, Debug, PartialEq, Eq, Structural)]
pub enum HostOsNetworkRenderer {
    Networkd,
}

impl HostOsNetworkRenderer {
    pub fn as_str(self) -> (r: &'static str)
        ensures
            r@ == "networkd"@,
    {
        match self {
            HostOsNetworkRenderer::Networkd => "networkd",
        }
    }
}

#[derive(Clone, Copy, Debug, PartialEq, Eq, Structural)]
pub enum HostOsIpv4Mode {
    Dhcp,
}

impl HostOsIpv4Mode {
    pub fn as_str(self) -> (r: &'static str)
        ensures
            r@ == "dhcp"@,
    {
        match self {
            HostOsIpv4Mode::Dhcp => "dhcp",
        }
    }
}

#[derive(Clone, Copy, Debug, PartialEq, Eq, Structural)]
pub enum HostOsIpv6Mode {
    Disabled,
    RouterAdvertised,
}

impl HostOsIpv6Mode {
    pub fn as_str(self) -> (r: &'static str)
        ensures
            self == HostOsIpv6Mode::Disabled ==> r@ == "disabled"@,
            self == HostOsIpv6Mode::RouterAdvertised ==> r@ == "router-advertised"@,
    {
        match self {
            HostOsIpv6Mode::Disabled => "disabled",
            HostOsIpv6Mode::RouterAdvertised => "router-advertised",
        }
    }
}

pub struct HostNetworkLink {
    pub name: String,
    pub kind: HostNetworkLinkKind,
}

#[derive(Clone, Copy, Debug, PartialEq, Eq, Structural)]
pub enum HostNetworkLinkKind {
    Ethernet,
    Wifi,
}

impl HostNetworkLinkKind {
    /// The lower-case name of the link kind.
    pub fn as_str(self) -> (r: &'static str)
        ensures
            self == HostNetworkLinkKind::Ethernet ==> r@ == "ethernet"@,
            self == HostNetworkLinkKind::Wifi ==> r@ == "wifi"@,
    {
        match self {
            HostNetworkLinkKind::Ethernet => "ethernet",
            HostNetworkLinkKind::Wifi => "wifi",
        }
    }
}

pub struct HostNetworkBridge {
    pub name: String,
    pub ports: Vec<String>,
    pub location_interface: Option<String>,
    pub vlan_aware: bool,
    pub allowed_vlans: Option<String>,
    pub stp: bool,
    pub forward_delay: u32,
    pub comment: Option<String>,
}

#[derive(Clone, Copy, Debug, PartialEq, Eq, Structural)]
pub enum HostKind {
    Physical,
    Vm,
    Laptop,
    Workstation,
    Nas,
}

pub struct NetworksFile {
    pub schema_version: u32,
    pub networks: Vec<(String, LogicalNetwork)>,
}

pub struct SshFile {
    pub schema_version: u32,
    pub clients: Vec<(String, SshClient)>,
    pub targets: Vec<(String, SshTarget)>,
}

impl Default for SshFile {
    fn default() -> (r: Self)
        ensures
            r.schema_version == SCHEMA_VERSION,
            r.clients@.len() == 0,
            r.targets@.len() == 0,
    {
        SshFile { schema_version: SCHEMA_VERSION, clients: Vec::new(), targets: Vec::new() }
    }
}

pub struct SshClient {
    pub identities: Vec<(String, SshIdentity)>,
}

pub struct SshIdentity {
    pub file: String,
}

pub struct SshTarget {
    pub host: Option<String>,
    pub guest: Option<String>,
    pub service: Option<String>,
    pub interface: Option<String>,
    pub user: String,
    pub port: u16,
    pub identity: String,
    pub forward_agent: bool,
}

pub struct CloudflareFile {
    pub schema_version: u32,
    pub providers: Vec<(String, CloudflareProvider)>,
    pub tunnels: Vec<(String, CloudflareTunnel)>,
}

impl Default for CloudflareFile {
    fn default() -> (r: Self)
        ensures
            r.schema_version == 0,
            r.providers@.len() == 0,
            r.tunnels@.len() == 0,
    {
        CloudflareFile { schema_version: 0, providers: Vec::new(), tunnels: Vec::new() }
    }
}

pub struct CloudflareProvider {
    pub zone: String,
    pub zone_id: String,
    pub account_id: String,
    pub tunnel_api_token_env: String,
    pub dns_api_token_env: String,
}

pub struct CloudflareTunnel {
    pub provider: String,
    pub connector_host: String,
    pub origin: String,
    pub origin_tls_verify: bool,
    pub hostnames: Vec<String>,
}

pub struct LocationExternalIngress {
    pub mode: ExternalIngressMode,
    pub provider: String,
    pub tunnel: Option<String>,
    pub origin_host: Option<String>,
    pub publish_ipv4: bool,
    pub publish_ipv6: bool,
}

#[derive(Clone, Copy, Debug, PartialEq, Eq, Structural)]
pub enum ExternalIngressMode {
    CloudflareTunnel,
    CloudflareDirect,
    Disabled,
}

impl ExternalIngressMode {
    pub fn as_str(self) -> (r: &'static str)
        ensures
            self == ExternalIngressMode::CloudflareTunnel ==> r@ == "cloudflare-tunnel"@,
            self == ExternalIngressMode::CloudflareDirect ==> r@ == "cloudflare-direct"@,
            self == ExternalIngressMode::Disabled ==> r@ == "disabled"@,
    {
        match self {
            ExternalIngressMode::CloudflareTunnel => "cloudflare-tunnel",
            ExternalIngressMode::CloudflareDirect => "cloudflare-direct",
            ExternalIngressMode::Disabled => "disabled",
        }
    }
}

pub struct DockerFile {
    pub schema_version: u32,
    pub hosts: Vec<(String, DockerHost)>,
}

impl Default for DockerFile {
    fn default() -> (r: Self)
        ensures
            r.schema_version == 0,
            r.hosts@.len() == 0,
    {
        DockerFile { schema_version: 0, hosts: Vec::new() }
    }
}

pub struct DockerHost {
    pub bridge_ipv4_cidr: Ipv4Cidr,
    pub bridge_ipv6_cidr: Ipv6Cidr,
    pub ipv4_pool_base: Ipv4Cidr,
    pub ipv4_pool_size: u8,
    pub ipv6_pool_base: Ipv6Cidr,
    pub ipv6_pool_size: u8,
    pub network_migrations: Vec<(String, DockerNetworkMigration)>,
}

pub struct DockerNetworkMigration {
    pub previous_ipv6_cidr: Option<Ipv6Cidr>,
}

pub struct ProxmoxSdnFile {
    pub schema_version: u32,
    pub zones: Vec<(String, ProxmoxSdnZone)>,
    pub vnets: Vec<(String, ProxmoxSdnVnet)>,
}

impl Default for ProxmoxSdnFile {
    fn default() -> (r: Self)
        ensures
            r.schema_version == 0,
            r.zones@.len() == 0,
            r.vnets@.len() == 0,
    {
        ProxmoxSdnFile { schema_version: 0, zones: Vec::new(), vnets: Vec::new() }
    }
}

pub struct ProxmoxSdnZone {
    pub host: String,
    pub kind: ProxmoxSdnZoneKind,
    pub ipam: ProxmoxSdnIpam,
    pub dhcp: ProxmoxSdnDhcp,
}

#[derive(Clone, Copy, Debug, PartialEq, Eq, Structural)]
pub enum ProxmoxSdnZoneKind {
    Simple,
}

impl ProxmoxSdnZoneKind {
    pub fn as_str(self) -> (r: &'static str)
        ensures
            r@ == "simple"@,
    {
        match self {
            ProxmoxSdnZoneKind::Simple => "simple",
        }
    }
}

#[derive(Clone, Copy, Debug, PartialEq, Eq, Structural)]
pub enum ProxmoxSdnIpam {
    Pve,
}

impl ProxmoxSdnIpam {
    pub fn as_str(self) -> (r: &'static str)
        ensures
            r@ == "pve"@,
    {
        match self {
            ProxmoxSdnIpam::Pve => "pve",
        }
    }
}

#[derive(Clone, Copy, Debug, PartialEq, Eq, Structural)]
pub enum ProxmoxSdnDhcp {
    Dnsmasq,
}

impl ProxmoxSdnDhcp {
    pub fn as_str(self) -> (r: &'static str)
        ensures
            r@ == "dnsmasq"@,
    {
        match self {
            ProxmoxSdnDhcp::Dnsmasq => "dnsmasq",
        }
    }
}

pub struct ProxmoxSdnVnet {
    pub zone: String,
    pub alias: Option<String>,
    pub subnets: Vec<ProxmoxSdnSubnet>,
}

pub struct ProxmoxSdnSubnet {
    pub cidr: Ipv4Cidr,
    pub gateway: u32,
    pub dhcp_start: u32,
    pub dhcp_end: u32,
    pub snat: bool,
}

pub struct LogicalNetwork {
    pub kind: NetworkKind,
    pub owner: Option<String>,
    pub docker_name: Option<String>,
    pub ipv4_cidr: Option<Ipv4Cidr>,
    pub ipv4_gateway: Option<u32>,
    pub allocation_key: String,
    pub preferred_display_id: Option<u16>,
    pub ula_enabled: bool,
    pub reverse_dns: bool,
    pub dns_clients: bool,
    pub routing: Option<NetworkRouting>,
}

pub struct NetworkRouting {
    pub from: Option<String>,
    pub mode: RoutingMode,
    pub via: Option<String>,
}

#[derive(Clone, Copy, Debug, PartialEq, Eq, Structural)]
pub enum RoutingMode {
    Direct,
    ViaHost,
    HostPrivate,
}

#[derive(Clone, Copy, Debug, PartialEq, Eq, Structural)]
pub enum NetworkKind {
    Lan,
    Docker,
}

pub struct ServicesFile {
    pub schema_version: u32,
    pub certificates: Vec<(String, CertificateReference)>,
    pub services: Vec<(String, Service)>,
}

pub struct CertificateReference {
    pub domains: Vec<String>,
    pub certificate_path: String,
    pub private_key_path: String,
}

pub struct Service {
    pub kind: ServiceKind,
    pub host: String,
    pub network: String,
    pub enabled: bool,
    pub address: Option<ServiceAddress>,
    pub ports: Vec<PortMapping>,
    pub runtime: Option<Vec<(String, String)>>,
    pub ingress: Option<ServiceIngress>,
    pub ssh: Option<SshService>,
    pub web: Option<WebService>,
}

pub struct ServiceIngress {
    pub mode: IngressMode,
    pub interface: String,
}

#[derive(Clone, Copy, Debug, PartialEq, Eq, Structural)]
pub enum IngressMode {
    HostPort,
}

#[derive(Clone, Copy, Debug, PartialEq, Eq, Structural)]
pub enum ServiceKind {
    Dns,
    ReverseProxy,
    DevelopmentContainer,
    Web,
    Database,
    Generic,
}

pub struct ServiceAddress {
    pub ipv4: Option<u32>,
    pub ipv6_interface_id: Option<String>,
}

pub struct PortMapping {
    pub host: u16,
    pub container: u16,
    pub protocol: TransportProtocol,
}

#[derive(Clone, Copy, Debug, PartialEq, Eq, Structural)]
pub enum TransportProtocol {
    Tcp,
    Udp,
}

pub struct SshService {
    pub user: String,
    pub host_port: u16,
    pub container_port: u16,
    pub route: String,
}

pub struct WebService {
    pub container_port: u16,
    pub domain: String,
    pub access: String,
    pub proxy: String,
    pub scheme: UpstreamScheme,
    pub tls: bool,
    pub certificate: Option<String>,
    pub force_https: bool,
    pub websocket: bool,
}

#[derive(Clone, Copy, Debug, PartialEq, Eq, Structural)]
pub enum UpstreamScheme {
    Http,
    Https,
}

impl UpstreamScheme {
    pub fn as_str(self) -> (r: &'static str)
        ensures
            self == UpstreamScheme::Http ==> r@ == "http"@,
            self == UpstreamScheme::Https ==> r@ == "https"@,
    {
        match self {
            UpstreamScheme::Http => "http",
            UpstreamScheme::Https => "https",
        }
    }
}

impl Default for UpstreamScheme {
    /// Upstreams are reached over plain HTTP unless configured otherwise.
    fn default() -> (r: Self)
        ensures
            r == UpstreamScheme::Http,
    {
        UpstreamScheme::Http
    }
}

pub struct DnsFile {
    pub schema_version: u32,
    pub dns: DnsSettings,
    pub zones: Vec<DnsZone>,
    pub records: Vec<DnsRecord>,
}

pub struct DnsSettings {
    pub provider: String,
    pub service: String,
    pub default_ttl: u32,
    pub negative_ttl: u32,
    pub soa: SoaSettings,
    pub recursion: RecursionSettings,
    pub forwarders: DnsForwarders,
}

pub struct SoaSettings {
    pub primary_nameserver: String,
    pub responsible_mailbox: String,
    pub refresh: u32,
    pub retry: u32,
    pub expire: u32,
}

pub struct RecursionSettings {
    pub enabled: bool,
    pub include_location_segments: bool,
    pub include_tailscale: bool,
    pub include_ula: bool,
    pub include_docker_networks: bool,
}

impl Default for RecursionSettings {
    /// Recursion is enabled for every source unless configured otherwise.
    fn default() -> (r: Self)
        ensures
            r.enabled && r.include_location_segments && r.include_tailscale && r.include_ula
                && r.include_docker_networks,
    {
        RecursionSettings {
            enabled: true,
            include_location_segments: true,
            include_tailscale: true,
            include_ula: true,
            include_docker_networks: true,
        }
    }
}

pub struct DnsForwarders {
    pub ipv4: Vec<u32>,
    pub ipv6: Vec<u128>,
}

pub struct DnsZone {
    pub name: String,
    pub visibility: DnsVisibility,
    pub authoritative: bool,
}

#[derive(Clone, Copy, Debug, PartialEq, Eq, Structural)]
pub enum DnsVisibility {
    Internal,
    Public,
    Both,
}

pub struct DnsRecord {
    pub name: String,
    pub kind: DnsRecordKind,
    pub target: Option<String>,
    pub interface: Option<String>,
    pub address_scope: Option<AddressScope>,
    pub families: Vec<AddressFamily>,
    pub reverse: bool,
}

#[derive(Clone, Copy, Debug, PartialEq, Eq, Structural)]
pub enum DnsRecordKind {
    Host,
    Service,
    Proxy,
    Cname,
    SegmentGateway,
}

#[derive(Clone, Copy, Debug, PartialEq, Eq, Structural)]
pub enum AddressScope {
    Container,
    Ingress,
}

#[derive(Clone, Copy, Debug, PartialEq, Eq, Structural)]
pub enum AddressFamily {
    Ipv4,
    Ipv6,
}

pub struct GuestsFile {
    pub schema_version: u32,
    pub guests: Vec<(String, Guest)>,
}

impl Default for GuestsFile {
    fn default() -> (r: Self)
        ensures
            r.schema_version == SCHEMA_VERSION,
            r.guests@.len() == 0,
    {
        GuestsFile { schema_version: SCHEMA_VERSION, guests: Vec::new() }
    }
}

pub struct Guest {
    pub kind: GuestKind,
    pub host: String,
    pub vmid: u32,
    pub mac: String,
    pub interface: String,
    pub bridge: String,
    pub ipv4: u32,
    pub address_mode: GuestAddressMode,
    pub onboot: bool,
    pub startup: Option<String>,
    pub firewall: bool,
    pub pci_devices: Vec<GuestPciDevice>,
    pub virtiofs: Vec<GuestVirtioFs>,
}

#[derive(Clone, Debug, PartialEq, Eq)]
pub struct GuestPciDevice {
    pub slot: u8,
    pub device: String,
}

#[derive(Clone, Debug, PartialEq, Eq)]
pub struct GuestVirtioFs {
    pub slot: u8,
    pub directory: String,
    pub expose_acl: bool,
}

#[derive(Clone, Copy, Debug, PartialEq, Eq, Structural)]
pub enum GuestKind {
    Vm,
    Lxc,
}

#[derive(Clone, Copy, Debug, PartialEq, Eq, Structural)]
pub enum GuestAddressMode {
    ReservedDhcp,
    Static,
}

pub struct NetworkMountsFile {
    pub schema_version: u32,
    pub mounts: Vec<(String, NetworkMount)>,
}

impl Default for NetworkMountsFile {
    fn default() -> (r: Self)
        ensures
            r.schema_version == SCHEMA_VERSION,
            r.mounts@.len() == 0,
    {
        NetworkMountsFile { schema_version: SCHEMA_VERSION, mounts: Vec::new() }
    }
}

pub struct NetworkMount {
    pub host: String,
    pub provider: NetworkMountProvider,
    pub server_host: String,
    pub export: String,
    pub mount_path: String,
    pub options: Vec<String>,
    pub required_by: Vec<String>,
}

#[derive(Clone, Copy, Debug, PartialEq, Eq, Structural)]
pub enum NetworkMountProvider {
    Nfs,
}

pub struct NasPermissionsFile {
    pub schema_version: u32,
    pub permissions: Vec<(String, NasPermission)>,
}

impl Default for NasPermissionsFile {
    fn default() -> (r: Self)
        ensures
            r.schema_version == SCHEMA_VERSION,
            r.permissions@.len() == 0,
    {
        NasPermissionsFile { schema_version: SCHEMA_VERSION, permissions: Vec::new() }
    }
}

pub struct NasPermission {
    pub nas: String,
    pub provider: NasPermissionProvider,
    pub share: String,
    pub client_host: String,
    pub access: NasAccess,
    pub squash: NasSquash,
    pub security: String,
}

#[derive(Clone, Copy, Debug, PartialEq, Eq, Structural)]
pub enum NasPermissionProvider {
    SynologyNfs,
}

#[derive(Clone, Copy, Debug, PartialEq, Eq, Structural)]
pub enum NasAccess {
    ReadOnly,
    ReadWrite,
}

impl NasAccess {
    pub fn as_str(self) -> (r: &'static str)
        ensures
            self == NasAccess::ReadOnly ==> r@ == "read-only"@,
            self == NasAccess::ReadWrite ==> r@ == "read-write"@,
    {
        match self {
            NasAccess::ReadOnly => "read-only",
            NasAccess::ReadWrite => "read-write",
        }
    }

    /// The name Synology DSM shows for the access level.
    pub fn dsm_name(self) -> (r: &'static str)
        ensures
            self == NasAccess::ReadOnly ==> r@ == "Read-Only"@,
            self == NasAccess::ReadWrite ==> r@ == "Read/Write"@,
    {
        match self {
            NasAccess::ReadOnly => "Read-Only",
            NasAccess::ReadWrite => "Read/Write",
        }
    }
}

#[derive(Clone, Copy, Debug, PartialEq, Eq, Structural)]
pub enum NasSquash {
    NoMapping,
    MapRootToAdmin,
    MapAllToAdmin,
    MapAllToGuest,
}

impl NasSquash {
    pub fn as_str(self) -> (r: &'static str)
        ensures
            self == NasSquash::NoMapping ==> r@ == "none"@,
            self == NasSquash::MapRootToAdmin ==> r@ == "map-root-to-admin"@,
            self == NasSquash::MapAllToAdmin ==> r@ == "map-all-to-admin"@,
            self == NasSquash::MapAllToGuest ==> r@ == "map-all-to-guest"@,
    {
        match self {
            NasSquash::NoMapping => "none",
            NasSquash::MapRootToAdmin => "map-root-to-admin",
            NasSquash::MapAllToAdmin => "map-all-to-admin",
            NasSquash::MapAllToGuest => "map-all-to-guest",
        }
    }

    /// The name Synology DSM shows for the squash mode.
    pub fn dsm_name(self) -> (r: &'static str)
        ensures
            self == NasSquash::NoMapping ==> r@ == "No mapping"@,
            self == NasSquash::MapRootToAdmin ==> r@ == "Map root to admin"@,
            self == NasSquash::MapAllToAdmin ==> r@ == "Map all users to admin"@,
            self == NasSquash::MapAllToGuest ==> r@ == "Map all users to guest"@,
    {
        match self {
            NasSquash::NoMapping => "No mapping",
            NasSquash::MapRootToAdmin => "Map root to admin",
            NasSquash::MapAllToAdmin => "Map all users to admin",
            NasSquash::MapAllToGuest => "Map all users to guest",
        }
    }
}

pub struct ProxmoxStoragesFile {
    pub schema_version: u32,
    pub storages: Vec<(String, ProxmoxStorage)>,
}

impl Default for ProxmoxStoragesFile {
    fn default() -> (r: Self)
        ensures
            r.schema_version == SCHEMA_VERSION,
            r.storages@.len() == 0,
    {
        ProxmoxStoragesFile { schema_version: SCHEMA_VERSION, storages: Vec::new() }
    }
}

pub struct ProxmoxStorage {
    pub host: String,
    pub storage_id: String,
    pub provider: ProxmoxStorageProvider,
    pub server_host: String,
    pub export: String,
    pub mount_path: String,
    pub options: Vec<String>,
    pub content: Vec<String>,
    pub prune_backups: Option<String>,
}

#[derive(Clone, Copy, Debug, PartialEq, Eq, Structural)]
pub enum ProxmoxStorageProvider {
    Nfs,
}

pub struct AllocationsFile {
    pub schema_version: u32,
    pub ula: Option<UlaAllocations>,
}

pub struct UlaAllocations {
    pub prefix: Ipv6Cidr,
    pub segments: Vec<(String, u16)>,
    pub networks: Vec<(String, u16)>,
}

pub struct LocationFile {
    pub schema_version: u32,
    pub name: String,
    pub description: Option<String>,
    pub router: Router,
    pub ipv6: LocationIpv6,
    pub segments: Vec<(String, Segment)>,
    pub hosts: Vec<(String, LocationHost)>,
    pub tailscale: LocationTailscale,
    pub external_ingress: Option<LocationExternalIngress>,
}

pub struct Router {
    pub kind: String,
    pub managed: bool,
    pub supports_vlans: bool,
}

pub struct LocationIpv6 {
    pub mode: Ipv6Mode,
    pub prefix: Option<Ipv6Cidr>,
    pub subnet_prefix_length: Option<u8>,
    pub stability: PrefixStability,
    pub publish_public_aaaa: bool,
}

#[derive(Clone, Copy, Debug, PartialEq, Eq, Structural)]
pub enum Ipv6Mode {
    Disabled,
    RouterAdvertised,
    Delegated,
}

impl Ipv6Mode {
    pub fn as_str(self) -> (r: &'static str)
        ensures
            self == Ipv6Mode::Disabled ==> r@ == "disabled"@,
            self == Ipv6Mode::RouterAdvertised ==> r@ == "router-advertised"@,
            self == Ipv6Mode::Delegated ==> r@ == "delegated"@,
    {
        match self {
            Ipv6Mode::Disabled => "disabled",
            Ipv6Mode::RouterAdvertised => "router-advertised",
            Ipv6Mode::Delegated => "delegated",
        }
    }
}

#[derive(Clone, Copy, Debug, PartialEq, Eq, Structural)]
pub enum PrefixStability {
    Dynamic,
    Stable,
}

pub struct Segment {
    pub kind: SegmentKind,
    pub ipv4_cidr: Ipv4Cidr,
    pub ipv4_gateway: u32,
    pub vlan_id: Option<u16>,
    pub public_ipv6_allocation: Option<u32>,
    pub dns_clients: bool,
    pub reverse_dns: bool,
}

#[derive(Clone, Copy, Debug, PartialEq, Eq, Structural)]
pub enum SegmentKind {
    Lan,
    Vlan,
}

pub struct LocationHost {
    pub interfaces: Vec<(String, LocationInterface)>,
}

pub struct LocationInterface {
    pub segment: String,
    pub ipv4: Option<u32>,
    pub ipv6_mode: Option<InterfaceIpv6Mode>,
    pub ula_interface_id: Option<String>,
}

#[derive(Clone, Copy, Debug, PartialEq, Eq, Structural)]
pub enum InterfaceIpv6Mode {
    Slaac,
    Static,
    Disabled,
}

pub struct LocationTailscale {
    pub enabled: bool,
    pub strategy: Option<TailscaleStrategy>,
    pub primary_router: Option<String>,
    pub routers: Vec<(String, TailscaleRouterSettings)>,
}

impl Default for LocationTailscale {
    fn default() -> (r: Self)
        ensures
            !r.enabled,
            r.strategy is None,
            r.primary_router is None,
            r.routers@.len() == 0,
    {
        LocationTailscale { enabled: false, strategy: None, primary_router: None, routers: Vec::new() }
    }
}

#[derive(Clone, Copy, Debug, PartialEq, Eq, Structural)]
pub enum TailscaleStrategy {
    SubnetRouter,
    HaSubnetRouter,
    DirectNodes,
}

pub struct TailscaleRouterSettings {
    pub enabled: bool,
    pub snat_subnet_routes: bool,
    pub accept_routes: bool,
    pub exit_node: bool,
    pub advertise: Vec<String>,
}

/// All configuration files of one location, as loaded.
pub struct ConfigBundle {
    pub settings: SettingsFile,
    pub inventory: InventoryFile,
    pub networks: NetworksFile,
    pub docker: DockerFile,
    pub ssh: SshFile,
    pub cloudflare: CloudflareFile,
    pub services: ServicesFile,
    pub guests: GuestsFile,
    pub mounts: NetworkMountsFile,
    pub nas_permissions: NasPermissionsFile,
    pub proxmox_storages: ProxmoxStoragesFile,
    pub proxmox_sdn: ProxmoxSdnFile,
    pub dns: DnsFile,
    pub allocations: AllocationsFile,
    pub location: LocationFile,
}

impl ConfigBundle {
    /// Every top-level table lists its names in ascending order, as a sorted
    /// map reads them.
    pub closed spec fn names_ascend(&self) -> bool {
        &&& sorted_keys(self.inventory.hosts@)
        &&& sorted_keys(self.networks.networks@)
        &&& sorted_keys(self.docker.hosts@)
        &&& sorted_keys(self.ssh.clients@)
        &&& sorted_keys(self.ssh.targets@)
        &&& sorted_keys(self.cloudflare.providers@)
        &&& sorted_keys(self.cloudflare.tunnels@)
        &&& sorted_keys(self.services.certificates@)
        &&& sorted_keys(self.services.services@)
        &&& sorted_keys(self.guests.guests@)
        &&& sorted_keys(self.mounts.mounts@)
        &&& sorted_keys(self.nas_permissions.permissions@)
        &&& sorted_keys(self.proxmox_storages.storages@)
        &&& sorted_keys(self.proxmox_sdn.zones@)
        &&& sorted_keys(self.proxmox_sdn.vnets@)
        &&& sorted_keys(self.location.segments@)
        &&& sorted_keys(self.location.hosts@)
        &&& sorted_keys(self.location.tailscale.routers@)
    }

    /// The shape every loaded bundle has: names are unique within each table,
    /// top-level tables are in name order, and every network prefix length is
    /// in range.
    pub open spec fn wf(&self) -> bool {
        &&& self.names_ascend()
        &&& unique_keys(self.inventory.hosts@)
        &&& unique_keys(self.networks.networks@)
        &&& unique_keys(self.docker.hosts@)
        &&& unique_keys(self.ssh.clients@)
        &&& unique_keys(self.ssh.targets@)
        &&& unique_keys(self.cloudflare.providers@)
        &&& unique_keys(self.cloudflare.tunnels@)
        &&& unique_keys(self.services.certificates@)
        &&& unique_keys(self.services.services@)
        &&& unique_keys(self.guests.guests@)
        &&& unique_keys(self.mounts.mounts@)
        &&& unique_keys(self.nas_permissions.permissions@)
        &&& unique_keys(self.proxmox_storages.storages@)
        &&& unique_keys(self.proxmox_sdn.zones@)
        &&& unique_keys(self.proxmox_sdn.vnets@)
        &&& unique_keys(self.location.segments@)
        &&& unique_keys(self.location.hosts@)
        &&& unique_keys(self.location.tailscale.routers@)
        &&& (forall|i: int| 0 <= i < self.location.hosts@.len()
            ==> unique_keys(#[trigger] self.location.hosts@[i].1.interfaces@))
        &&& (forall|i: int| 0 <= i < self.ssh.clients@.len()
            ==> unique_keys(#[trigger] self.ssh.clients@[i].1.identities@))
        &&& (forall|i: int| 0 <= i < self.docker.hosts@.len()
            ==> unique_keys(#[trigger] self.docker.hosts@[i].1.network_migrations@))
        &&& (self.allocations.ula matches Some(u) ==> {
            &&& unique_keys(u.segments@)
            &&& unique_keys(u.networks@)
            &&& u.prefix.wf()
        })
        &&& (self.location.ipv6.prefix matches Some(p) ==> p.wf())
        &&& (forall|i: int| 0 <= i < self.location.segments@.len()
            ==> (#[trigger] self.location.segments@[i]).1.ipv4_cidr.wf())
        &&& (forall|i: int| 0 <= i < self.networks.networks@.len()
            ==> ((#[trigger] self.networks.networks@[i]).1.ipv4_cidr matches Some(c) ==> c.wf()))
        &&& (forall|i: int| 0 <= i < self.docker.hosts@.len() ==> {
            let d = (#[trigger] self.docker.hosts@[i]).1;
            d.bridge_ipv4_cidr.wf() && d.bridge_ipv6_cidr.wf() && d.ipv4_pool_base.wf()
                && d.ipv6_pool_base.wf()
        })
        &&& (forall|i: int, j: int| 0 <= i < self.proxmox_sdn.vnets@.len() && 0 <= j < self.proxmox_sdn.vnets@[i].1.subnets@.len()
            ==> (#[trigger] self.proxmox_sdn.vnets@[i].1.subnets@[j]).cidr.wf())
    }
}

impl ConfigBundle {
    /// Whether the bundle has the shape of a loaded configuration (see `wf`).
    pub fn shape_ok(&self) -> (r: bool)
        ensures
            r == self.wf(),
    {
        let ascend = keys_ascend(&self.inventory.hosts) && keys_ascend(&self.networks.networks)
            && keys_ascend(&self.docker.hosts) && keys_ascend(&self.ssh.clients)
            && keys_ascend(&self.ssh.targets) && keys_ascend(&self.cloudflare.providers)
            && keys_ascend(&self.cloudflare.tunnels) && keys_ascend(&self.services.certificates)
            && keys_ascend(&self.services.services) && keys_ascend(&self.guests.guests)
            && keys_ascend(&self.mounts.mounts) && keys_ascend(&self.nas_permissions.permissions)
            && keys_ascend(&self.proxmox_storages.storages) && keys_ascend(&self.proxmox_sdn.zones)
            && keys_ascend(&self.proxmox_sdn.vnets) && keys_ascend(&self.location.segments)
            && keys_ascend(&self.location.hosts) && keys_ascend(&self.location.tailscale.routers);
        if !ascend {
            return false;
        }
        proof {
            lemma_sorted_unique(self.inventory.hosts@);
            lemma_sorted_unique(self.networks.networks@);
            lemma_sorted_unique(self.docker.hosts@);
            lemma_sorted_unique(self.ssh.clients@);
            lemma_sorted_unique(self.ssh.targets@);
            lemma_sorted_unique(self.cloudflare.providers@);
            lemma_sorted_unique(self.cloudflare.tunnels@);
            lemma_sorted_unique(self.services.certificates@);
            lemma_sorted_unique(self.services.services@);
            lemma_sorted_unique(self.guests.guests@);
            lemma_sorted_unique(self.mounts.mounts@);
            lemma_sorted_unique(self.nas_permissions.permissions@);
            lemma_sorted_unique(self.proxmox_storages.storages@);
            lemma_sorted_unique(self.proxmox_sdn.zones@);
            lemma_sorted_unique(self.proxmox_sdn.vnets@);
            lemma_sorted_unique(self.location.segments@);
            lemma_sorted_unique(self.location.hosts@);
            lemma_sorted_unique(self.location.tailscale.routers@);
        }
        let ula_ok = match &self.allocations.ula {
            Some(u) => keys_unique(&u.segments) && keys_unique(&u.networks) && u.prefix.prefix_len <= 128,
            None => true,
        };
        let prefix_ok = match &self.location.ipv6.prefix {
            Some(p) => p.prefix_len <= 128,
            None => true,
        };
        ula_ok && prefix_ok && self.nested_names_ok() && self.prefix_lengths_ok()
    }

    spec fn nested_names_spec(&self) -> bool {
        &&& (forall|i: int| 0 <= i < self.location.hosts@.len()
            ==> unique_keys(#[trigger] self.location.hosts@[i].1.interfaces@))
        &&& (forall|i: int| 0 <= i < self.ssh.clients@.len()
            ==> unique_keys(#[trigger] self.ssh.clients@[i].1.identities@))
        &&& (forall|i: int| 0 <= i < self.docker.hosts@.len()
            ==> unique_keys(#[trigger] self.docker.hosts@[i].1.network_migrations@))
    }

    fn nested_names_ok(&self) -> (r: bool)
        ensures
            r == self.nested_names_spec(),
    {
        let mut i: usize = 0;
        while i < self.location.hosts.len()
            invariant
                i <= self.location.hosts@.len(),
                forall|k: int| 0 <= k < i ==> unique_keys(#[trigger] self.location.hosts@[k].1.interfaces@),
            decreases self.location.hosts@.len() - i,
        {
            if !keys_unique(&self.location.hosts[i].1.interfaces) {
                return false;
            }
            i = i + 1;
        }
        let mut i: usize = 0;
        while i < self.ssh.clients.len()
            invariant
                i <= self.ssh.clients@.len(),
                forall|k: int| 0 <= k < self.location.hosts@.len() ==> unique_keys(#[trigger] self.location.hosts@[k].1.interfaces@),
                forall|k: int| 0 <= k < i ==> unique_keys(#[trigger] self.ssh.clients@[k].1.identities@),
            decreases self.ssh.clients@.len() - i,
        {
            if !keys_unique(&self.ssh.clients[i].1.identities) {
                return false;
            }
            i = i + 1;
        }
        let mut i: usize = 0;
        while i < self.docker.hosts.len()
            invariant
                i <= self.docker.hosts@.len(),
                forall|k: int| 0 <= k < self.location.hosts@.len() ==> unique_keys(#[trigger] self.location.hosts@[k].1.interfaces@),
                forall|k: int| 0 <= k < self.ssh.clients@.len() ==> unique_keys(#[trigger] self.ssh.clients@[k].1.identities@),
                forall|k: int| 0 <= k < i ==> unique_keys(#[trigger] self.docker.hosts@[k].1.network_migrations@),
            decreases self.docker.hosts@.len() - i,
        {
            if !keys_unique(&self.docker.hosts[i].1.network_migrations) {
                return false;
            }
            i = i + 1;
        }
        true
    }

    spec fn prefix_lengths_spec(&self) -> bool {
        &&& (forall|i: int| 0 <= i < self.location.segments@.len()
            ==> (#[trigger] self.location.segments@[i]).1.ipv4_cidr.wf())
        &&& (forall|i: int| 0 <= i < self.networks.networks@.len()
            ==> ((#[trigger] self.networks.networks@[i]).1.ipv4_cidr matches Some(c) ==> c.wf()))
        &&& (forall|i: int| 0 <= i < self.docker.hosts@.len() ==> {
            let d = (#[trigger] self.docker.hosts@[i]).1;
            d.bridge_ipv4_cidr.wf() && d.bridge_ipv6_cidr.wf() && d.ipv4_pool_base.wf()
                && d.ipv6_pool_base.wf()
        })
        &&& (forall|i: int, j: int| 0 <= i < self.proxmox_sdn.vnets@.len() && 0 <= j < self.proxmox_sdn.vnets@[i].1.subnets@.len()
            ==> (#[trigger] self.proxmox_sdn.vnets@[i].1.subnets@[j]).cidr.wf())
    }

    fn prefix_lengths_ok(&self) -> (r: bool)
        ensures
            r == self.prefix_lengths_spec(),
    {
        let mut i: usize = 0;
        while i < self.location.segments.len()
            invariant
                i <= self.location.segments@.len(),
                forall|k: int| 0 <= k < i ==> (#[trigger] self.location.segments@[k]).1.ipv4_cidr.wf(),
            decreases self.location.segments@.len() - i,
        {
            if self.location.segments[i].1.ipv4_cidr.prefix_len > 32 {
                return false;
            }
            i = i + 1;
        }
        let mut i: usize = 0;
        while i < self.networks.networks.len()
            invariant
                i <= self.networks.networks@.len(),
                forall|k: int| 0 <= k < self.location.segments@.len() ==> (#[trigger] self.location.segments@[k]).1.ipv4_cidr.wf(),
                forall|k: int| 0 <= k < i ==> ((#[trigger] self.networks.networks@[k]).1.ipv4_cidr matches Some(c) ==> c.wf()),
            decreases self.networks.networks@.len() - i,
        {
            if let Some(c) = &self.networks.networks[i].1.ipv4_cidr {
                if c.prefix_len > 32 {
                    return false;
                }
            }
            i = i + 1;
        }
        let mut i: usize = 0;
        while i < self.docker.hosts.len()
            invariant
                i <= self.docker.hosts@.len(),
                forall|k: int| 0 <= k < self.location.segments@.len() ==> (#[trigger] self.location.segments@[k]).1.ipv4_cidr.wf(),
                forall|k: int| 0 <= k < self.networks.networks@.len() ==> ((#[trigger] self.networks.networks@[k]).1.ipv4_cidr matches Some(c) ==> c.wf()),
                forall|k: int| 0 <= k < i ==> {
                    let d = (#[trigger] self.docker.hosts@[k]).1;
                    d.bridge_ipv4_cidr.wf() && d.bridge_ipv6_cidr.wf() && d.ipv4_pool_base.wf()
                        && d.ipv6_pool_base.wf()
                },
            decreases self.docker.hosts@.len() - i,
        {
            let d = &self.docker.hosts[i].1;
            if d.bridge_ipv4_cidr.prefix_len > 32 || d.bridge_ipv6_cidr.prefix_len > 128
                || d.ipv4_pool_base.prefix_len > 32 || d.ipv6_pool_base.prefix_len > 128 {
                return false;
            }
            i = i + 1;
        }
        let mut i: usize = 0;
        while i < self.proxmox_sdn.vnets.len()
            invariant
                i <= self.proxmox_sdn.vnets@.len(),
                forall|k: int| 0 <= k < self.location.segments@.len() ==> (#[trigger] self.location.segments@[k]).1.ipv4_cidr.wf(),
                forall|k: int| 0 <= k < self.networks.networks@.len() ==> ((#[trigger] self.networks.networks@[k]).1.ipv4_cidr matches Some(c) ==> c.wf()),
                forall|k: int| 0 <= k < self.docker.hosts@.len() ==> {
                    let d = (#[trigger] self.docker.hosts@[k]).1;
                    d.bridge_ipv4_cidr.wf() && d.bridge_ipv6_cidr.wf() && d.ipv4_pool_base.wf()
                        && d.ipv6_pool_base.wf()
                },
                forall|k: int, j: int| 0 <= k < i && 0 <= j < self.proxmox_sdn.vnets@[k].1.subnets@.len()
                    ==> (#[trigger] self.proxmox_sdn.vnets@[k].1.subnets@[j]).cidr.wf(),
            decreases self.proxmox_sdn.vnets@.len() - i,
        {
            let subnets = &self.proxmox_sdn.vnets[i].1.subnets;
            let mut j: usize = 0;
            while j < subnets.len()
                invariant
                    i < self.proxmox_sdn.vnets@.len(),
                    subnets@ == self.proxmox_sdn.vnets@[i as int].1.subnets@,
                    j <= subnets@.len(),
                    forall|m: int| 0 <= m < j ==> (#[trigger] subnets@[m]).cidr.wf(),
                decreases subnets@.len() - j,
            {
                if subnets[j].cidr.prefix_len > 32 {
                    return false;
                }
                j = j + 1;
            }
            i = i + 1;
        }
        true
    }
}

/// SSH targets use port 22 unless configured otherwise.
pub fn default_ssh_port() -> (r: u16)
    ensures
        r == 22,
{
    22
}

/// Hosts, services, networks and routers are enabled unless configured otherwise.
pub fn default_true() -> (r: bool)
    ensures
        r,
{
    true
}

/// Guests attach to `vmbr0` unless configured otherwise.
pub fn default_guest_bridge() -> (r: String)
    ensures
        r@ == "vmbr0"@,
{
    "vmbr0".to_owned()
}

/// NAS permissions use the `sys` security flavour unless configured otherwise.
pub fn default_nfs_security() -> (r: String)
    ensures
        r@ == "sys"@,
{
    "sys".to_owned()
}

/// DNS records publish IPv4 only unless configured otherwise.
pub fn default_ipv4_families() -> (r: Vec<AddressFamily>)
    ensures
        r@ == seq![AddressFamily::Ipv4],
{
    let mut v = Vec::new();
    v.push(AddressFamily::Ipv4);
    v
}

} // verus!
