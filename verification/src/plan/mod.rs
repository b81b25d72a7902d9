//! Resolvers that turn validated intent into provider-neutral plans.

pub mod address;
pub mod cloudflare;
pub mod dns;
pub mod docker;
pub mod dns_access;
pub mod env;
pub mod guest;
pub mod message;
pub mod host_network;
pub mod nas_permission;
pub mod network_mount;
pub mod os_network;
pub mod proxmox_sdn;
pub mod proxmox_storage;
pub mod proxy;
pub mod ssh;

use vstd::prelude::*;

use crate::model::id::IdError;
use crate::net::Ipv6Cidr;

verus! {

/// Why a plan could not be resolved, with the names involved.
#[derive(Debug)]
pub enum PlanError {
    UnknownHost { host: String },
    HostDisabled { host: String },
    NoOsNetworkProfile { host: String },
    EmptyOsNetworkInterface { host: String },
    NoGuestDeclaration { host: String },
    GuestParentNotAttached { host: String, parent: String, location: String },
    GuestInterfaceUnknown { host: String, parent: String, interface: String },
    GuestSegmentUnknown { host: String, segment: String },
    ExpectedAddressOutside { host: String, address: u32, segment: String, cidr: crate::net::Ipv4Cidr },
    RouterAdvertisedWithoutIpv6 { host: String, location: String },
    // reverse proxies
    UnsupportedWebAccess { service: String, access: String },
    UnknownProxyService { service: String, proxy: String },
    NotAReverseProxy { service: String, proxy: String },
    DisabledProxy { service: String, proxy: String },
    ProxiedServiceNoIpv4 { service: String },
    ZeroUpstreamPort { service: String },
    InvalidProxyDomain { service: String, error: IdError },
    WildcardProxyDomain { service: String },
    UnknownCertificate { service: String, certificate: String },
    InvalidIdentifier { error: IdError },
    CertificateDoesNotCover { certificate: String, domain: String },
    RelativeCertificatePath { certificate: String, path: String },
    TlsSettingsWithoutTls { service: String },
    DuplicateProxyDomain { domain: String },
    // IPv6 ULA derivation
    UlaRootNot48 { root: Ipv6Cidr },
    SubnetNot64 { subnet: Ipv6Cidr },
    InvalidInterfaceId { id: String },
    UlaNotAllocated,
    NoUlaForNetwork { network: String },
    NoUlaForSegment { segment: String },
    ServiceNoAddress,
    ServiceNoInterfaceId,
    HostNotAttached { host: String, location: String },
    NoInterface { host: String, interface: String },
    NoUlaInterfaceId { host: String, interface: String },
    // DNS
    DnsServiceMissing { service: String },
    DnsServiceNoIpv4 { service: String },
    ServiceNoIngress { host: String },
    InterfaceNoIpv4 { host: String, interface: String },
    RecordTargetMissing { record: String, kind: crate::model::DnsRecordKind },
    RecordInterfaceMissing { record: String },
    ServiceNoIpv4 { service: String },
    RecordOutsideZones { record: String },
    // host networks
    NoHostNetworkProfile { host: String },
    InterfaceSegmentUnknown { host: String, interface: String, segment: String },
    SlaacWithoutIpv6 { host: String, interface: String, location: String },
    NoManagementBridge { host: String, interface: String },
    MultipleManagementBridges { host: String, interface: String },
    // external ingress
    NoExternalIngress { location: String },
    ExternalIngressDisabled { location: String },
    CloudflareDirectUnsupported,
    NoTunnelSelected,
    TunnelNotSelected { location: String, selected: String, requested: String },
    UnknownCloudflareProvider { provider: String },
    UnknownCloudflareTunnel { tunnel: String },
    TunnelProviderMismatch { tunnel: String, provider: String, location: String, selected: String },
    UnknownConnectorHost { host: String },
    ConnectorHostDisabled { host: String },
    TunnelWithoutHostnames { tunnel: String },
    HostnameOutsideZone { hostname: String, zone: String },
    // Proxmox SDN
    NoSdnZones { host: String },
    NoSdnVnets { host: String },
    SdnGatewayOutside { vnet: String, gateway: u32, cidr: crate::net::Ipv4Cidr },
    SdnDhcpOutside { vnet: String, start: u32, end: u32, cidr: crate::net::Ipv4Cidr },
    SdnDhcpReversed { vnet: String, start: u32, end: u32 },
    SdnGatewayInDhcp { vnet: String, gateway: u32 },
    // SSH
    UnknownSshClient { client: String },
    SshTargetKinds { alias: String },
    UnknownSshIdentity { alias: String, identity: String, client: String },
    SshUnknownHost { alias: String, host: String },
    SshUnknownGuest { alias: String, guest: String },
    SshUnknownService { alias: String, service: String },
    SshServiceWithoutSsh { alias: String, service: String },
    HostWithoutAddress { host: String, location: String },
    // Docker
    NotADockerHost { host: String },
    NoDockerProfile { host: String },
    DockerNetworkNoIpv4 { network: String },
    DockerNetworkNoGateway { network: String },
    NoGatewayAddress,
    NoDockerNetworks { host: String },
    // mounts and storage
    ServerNotAttached { item: String, server: String, location: String },
    ServerWithoutIpv4 { item: String, server: String },
    RelativeMountPath { item: String, path: String },
    RootMountUnit,
    // guests and NAS permissions
    GuestUnknownParent { guest: String, parent: String },
    GuestAddressOutside { guest: String, address: u32, segment: String, cidr: crate::net::Ipv4Cidr },
    UnknownNasHost { nas: String },
    UnknownNasClient { permission: String, client: String, location: String },
}

} // verus!
