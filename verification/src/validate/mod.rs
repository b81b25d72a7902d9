//! Whole-configuration validation.
//!
//! `validate_bundle` accepts a configuration exactly when every rule below
//! holds; the rules are grouped by the part of the configuration they read.

pub mod addresses;
pub mod host_network;
pub mod inventory;
pub mod message;
pub mod references;
pub mod vlan;

use vstd::prelude::*;

use crate::model::{DnsRecordKind, Ipv6Mode, TransportProtocol};
use crate::model::ConfigBundle;
use crate::net::{Ipv4Cidr, Ipv6Cidr};
use crate::plan::os_network::{os_network_ok, os_network_refusal, resolve_os_network_plan};
use crate::plan::proxy::{proxy_plan_ok, proxy_refusal, resolve_proxy_plan};
use crate::plan::PlanError;
use crate::model::SCHEMA_VERSION;
use crate::plan::dns::{dns_plan_requires, dns_targets_present, lemma_targets_present_meet_requires, proxied_web};
use crate::plan::dns_access::dns_access_requires;
use crate::plan::env::{advertised_target_present, env_plan_requires, has_prefix, lemma_env_targets_meet_requires};
use crate::plan::guest::{guest_plan_requires, guest_segment_known, lemma_guest_segments_meet_requires};
use crate::table::{has_key, key_index, lookup};
use crate::text::{concat, first_index, lemma_first_index, owned};
use addresses::{addresses_ok, addresses_refusal, validate_addresses};
use host_network::{host_networks_ok, host_networks_refusal, validate_host_networks};
use inventory::{
    guests_ok, inventory_refusal, mounts_ok, nas_and_storage_refusal, nas_permissions_ok, storages_ok,
    validate_guest_and_mount_references, validate_storage_and_nas_references,
};
use references::{reference_refusal, references_ok, validate_references};

pub use vlan::{validate_vlan_expression, validate_vlan_id};

verus! {

/// A rule of the configuration that does not hold, with the names involved.
#[derive(Debug)]
pub enum ValidationError {
    // schema and location
    SchemaVersion { file: String, version: u32 },
    Ipv6PrefixWhileDisabled,
    Ipv6PrefixRequired { mode: Ipv6Mode },
    RouterAdvertisedPrefixNot64 { prefix: Ipv6Cidr },
    DelegatedSubnetNot64,
    DelegatedPrefixTooLong { prefix: Ipv6Cidr, subnet_length: u8 },
    RouterAdvertisedPublicAaaa { location: String },
    // references
    UnknownParentHost { host: String, parent: String },
    UnknownNetworkOwner { network: String, owner: String },
    ServiceUnknownHost { service: String, host: String },
    ServiceUnknownNetwork { service: String, network: String },
    ServiceUnknownProxy { service: String, proxy: String },
    LocationUnknownHost { host: String },
    InterfaceUnknownSegment { host: String, interface: String, segment: String },
    DnsUnknownService { service: String },
    DnsRecordMissingTarget { record: String, kind: DnsRecordKind },
    DnsRecordUnknownHost { record: String, host: String },
    DnsHostRecordMissingInterface { record: String },
    DnsRecordUnknownService { record: String, service: String },
    DnsRecordUnknownSegment { record: String, segment: String },
    UlaAllocationUnmatched { key: String },
    // network routing
    DirectRouteWithVia { network: String },
    ViaHostWithoutVia { network: String },
    UnknownGatewayHost { network: String, via: String },
    HostPrivateWithEndpoints { network: String },
    UnknownSourceHost { network: String, from: String },
    // tailscale
    TailscaleDisabledWithRouters,
    TailscaleNoStrategy,
    SubnetRouterNoPrimary,
    PrimaryRouterUnconfigured { router: String },
    HaNeedsTwoRouters,
    TailscaleRouterUnknownHost { router: String },
    InvalidAdvertiseReference { reference: String },
    AdvertisesUnknownSegment { router: String, segment: String },
    AdvertisesUnknownNetwork { router: String, network: String },
    AdvertisedNetworkNoRouting { network: String },
    AdvertisesHostPrivate { network: String },
    NetworkNotRoutedFrom { network: String, router: String },
    UnsupportedAdvertiseReference { reference: String },
    // addresses
    SegmentGatewayOutside { segment: String, gateway: u32, cidr: Ipv4Cidr },
    InterfaceAddressOutside { host: String, interface: String, address: u32, cidr: Ipv4Cidr },
    NetworkGatewayOutside { network: String, gateway: u32, cidr: Ipv4Cidr },
    ServiceNetworkNoCidr { service: String, address: u32, network: String },
    ServiceAddressOutside { service: String, address: u32, network: String, cidr: Ipv4Cidr },
    DuplicateServiceIpv4 { address: u32 },
    DuplicateHostPort { host: String, port: u16, protocol: TransportProtocol },
    // host networks
    HostNetworkNotAttached { host: String, location: String },
    EmptyLinkName { host: String },
    DuplicateLink { host: String, link: String },
    EmptyBridgeName { host: String },
    DuplicateBridge { host: String, bridge: String },
    VlansWithoutVlanAware { host: String, bridge: String },
    EmptyAllowedVlans { host: String, bridge: String },
    InvalidVlanExpression { host: String, bridge: String, expression: String },
    InvalidVlanValue { host: String, bridge: String, item: String },
    VlanOutOfRange { host: String, bridge: String, vlan: u16 },
    DescendingVlanRange { host: String, bridge: String, item: String },
    BridgeUnknownLink { host: String, bridge: String, port: String },
    LinkInTwoBridges { host: String, link: String, first_bridge: String, bridge: String },
    BridgeMissingInterface { host: String, bridge: String, interface: String },
    AddressIsGateway { host: String, interface: String, address: u32, segment: String },
    DuplicateHostIpv4 {
        address: u32,
        other_host: String,
        other_interface: String,
        host: String,
        interface: String,
    },
    SlaacWithoutIpv6 { host: String, interface: String, location: String },
    NoManagementBridge { host: String, interface: String },
    MultipleManagementBridges { host: String, interface: String },
    ManagementInterfaceUndefined { host: String, interface: String, location: String },
    // guests and mounts
    GuestUnknownParent { guest: String, host: String },
    DuplicateVmid { guest: String, vmid: u32, host: String },
    DuplicateMac { guest: String, mac: String },
    DuplicateGuestIpv4 { guest: String, address: u32 },
    NonVmAttachments { guest: String },
    DuplicatePciSlot { guest: String, slot: u8 },
    EmptyPciDevice { guest: String, slot: u8 },
    PciDeviceClaimedTwice { owner: String, guest: String, device: String },
    DuplicateVirtiofsSlot { guest: String, slot: u8 },
    EmptyVirtiofsDirectory { guest: String, slot: u8 },
    MountUnknownHost { mount: String, host: String },
    MountUnknownServer { mount: String, host: String },
    MountPathNotAbsolute { mount: String, path: String },
    // NAS permissions and Proxmox storage
    NasUnknownNas { permission: String, host: String },
    NasUnknownClient { permission: String, host: String },
    NasEmptyShare { permission: String },
    NasEmptySecurity { permission: String },
    StorageUnknownHost { storage: String, host: String },
    StorageUnknownServer { storage: String, host: String },
    StoragePathNotAbsolute { storage: String, path: String },
    StorageExportNotAbsolute { storage: String, export: String },
    StorageNoContent { storage: String },
    DuplicateStorageId { storage: String, storage_id: String, host: String },
    // plans that must resolve
    Plan(PlanError),
}


/// An error of the location's IPv6 settings.
pub open spec fn location_error(e: ValidationError) -> bool {
    e is Ipv6PrefixWhileDisabled
        || e is Ipv6PrefixRequired
        || e is RouterAdvertisedPrefixNot64
        || e is DelegatedSubnetNot64
        || e is DelegatedPrefixTooLong
}

/// An error of a cross-reference, a network route or the Tailscale settings.
pub open spec fn reference_error(e: ValidationError) -> bool {
    e is AdvertisedNetworkNoRouting
        || e is AdvertisesHostPrivate
        || e is AdvertisesUnknownNetwork
        || e is AdvertisesUnknownSegment
        || e is DirectRouteWithVia
        || e is DnsHostRecordMissingInterface
        || e is DnsRecordMissingTarget
        || e is DnsRecordUnknownHost
        || e is DnsRecordUnknownSegment
        || e is DnsRecordUnknownService
        || e is DnsUnknownService
        || e is HaNeedsTwoRouters
        || e is HostPrivateWithEndpoints
        || e is InterfaceUnknownSegment
        || e is InvalidAdvertiseReference
        || e is LocationUnknownHost
        || e is NetworkNotRoutedFrom
        || e is PrimaryRouterUnconfigured
        || e is ServiceUnknownHost
        || e is ServiceUnknownNetwork
        || e is ServiceUnknownProxy
        || e is SubnetRouterNoPrimary
        || e is TailscaleDisabledWithRouters
        || e is TailscaleNoStrategy
        || e is TailscaleRouterUnknownHost
        || e is UlaAllocationUnmatched
        || e is UnknownGatewayHost
        || e is UnknownNetworkOwner
        || e is UnknownParentHost
        || e is UnknownSourceHost
        || e is UnsupportedAdvertiseReference
        || e is ViaHostWithoutVia
}

/// An error of an address or a port.
pub open spec fn address_error(e: ValidationError) -> bool {
    e is DuplicateHostPort
        || e is DuplicateServiceIpv4
        || e is InterfaceAddressOutside
        || e is NetworkGatewayOutside
        || e is SegmentGatewayOutside
        || e is ServiceAddressOutside
        || e is ServiceNetworkNoCidr
}

/// An error of a host network profile or its VLAN lists.
pub open spec fn host_network_error(e: ValidationError) -> bool {
    e is AddressIsGateway
        || e is BridgeMissingInterface
        || e is BridgeUnknownLink
        || e is DuplicateBridge
        || e is DuplicateHostIpv4
        || e is DuplicateLink
        || e is EmptyBridgeName
        || e is EmptyLinkName
        || e is HostNetworkNotAttached
        || e is InterfaceUnknownSegment
        || e is LinkInTwoBridges
        || e is ManagementInterfaceUndefined
        || e is MultipleManagementBridges
        || e is NoManagementBridge
        || e is SlaacWithoutIpv6
        || e is VlansWithoutVlanAware
        || e is DescendingVlanRange
        || e is EmptyAllowedVlans
        || e is InvalidVlanExpression
        || e is InvalidVlanValue
        || e is VlanOutOfRange
}

/// An error of a guest or a network mount.
pub open spec fn inventory_error(e: ValidationError) -> bool {
    e is DuplicateGuestIpv4
        || e is DuplicateMac
        || e is DuplicatePciSlot
        || e is DuplicateVirtiofsSlot
        || e is DuplicateVmid
        || e is EmptyPciDevice
        || e is EmptyVirtiofsDirectory
        || e is GuestUnknownParent
        || e is MountPathNotAbsolute
        || e is MountUnknownHost
        || e is MountUnknownServer
        || e is NonVmAttachments
        || e is PciDeviceClaimedTwice
}

/// An error of a NAS permission or a Proxmox storage.
pub open spec fn storage_error(e: ValidationError) -> bool {
    e is DuplicateStorageId
        || e is NasEmptySecurity
        || e is NasEmptyShare
        || e is NasUnknownClient
        || e is NasUnknownNas
        || e is StorageExportNotAbsolute
        || e is StorageNoContent
        || e is StoragePathNotAbsolute
        || e is StorageUnknownHost
        || e is StorageUnknownServer
}

/// Non-fatal findings of a successful validation.
pub struct ValidationReport {
    pub warnings: Vec<String>,
}

/// Every configuration file uses the schema version this build supports.
pub open spec fn schema_versions_ok(b: &ConfigBundle) -> bool {
    &&& b.settings.schema_version == SCHEMA_VERSION
    &&& b.inventory.schema_version == SCHEMA_VERSION
    &&& b.networks.schema_version == SCHEMA_VERSION
    &&& b.services.schema_version == SCHEMA_VERSION
    &&& b.guests.schema_version == SCHEMA_VERSION
    &&& b.mounts.schema_version == SCHEMA_VERSION
    &&& b.nas_permissions.schema_version == SCHEMA_VERSION
    &&& b.proxmox_storages.schema_version == SCHEMA_VERSION
    &&& b.dns.schema_version == SCHEMA_VERSION
    &&& b.allocations.schema_version == SCHEMA_VERSION
    &&& b.location.schema_version == SCHEMA_VERSION
}

/// The subnet size requested from a delegated prefix (64 unless configured).
pub open spec fn subnet_length(b: &ConfigBundle) -> u8 {
    match b.location.ipv6.subnet_prefix_length {
        Some(n) => n,
        None => 64,
    }
}

/// IPv6 settings of the location: no prefix when disabled; a /64 prefix
/// when router-advertised; when delegated, a prefix no longer than /64 from
/// which /64 subnets are allocated.
pub open spec fn location_ok(b: &ConfigBundle) -> bool {
    match b.location.ipv6.mode {
        Ipv6Mode::Disabled => b.location.ipv6.prefix is None,
        Ipv6Mode::RouterAdvertised => b.location.ipv6.prefix matches Some(p) && p.prefix_len == 64,
        Ipv6Mode::Delegated => b.location.ipv6.prefix matches Some(p) && subnet_length(b) == 64
            && p.prefix_len <= 64,
    }
}

/// Every host with an OS network profile has a resolvable OS network plan.
pub open spec fn os_networks_ok(b: &ConfigBundle) -> bool {
    forall|i: int|
        0 <= i < b.inventory.hosts@.len() ==> (#[trigger] b.inventory.hosts@[i]).1.os_network is Some
            ==> os_network_ok(b, b.inventory.hosts@[i].0@)
}

/// The error for file `file` written with schema version `version`.
pub open spec fn version_refusal(file: Seq<char>, version: u32, e: ValidationError) -> bool {
    e matches ValidationError::SchemaVersion { file: f, version: v } && f@ == file && v == version
}

/// Why the schema versions are refused: the first file, in this order,
/// whose version is not the supported one.
pub open spec fn schema_refusal(b: &ConfigBundle, e: ValidationError) -> bool {
    if b.settings.schema_version != SCHEMA_VERSION {
        version_refusal("netweft.toml"@, b.settings.schema_version, e)
    } else if b.inventory.schema_version != SCHEMA_VERSION {
        version_refusal("inventory.toml"@, b.inventory.schema_version, e)
    } else if b.networks.schema_version != SCHEMA_VERSION {
        version_refusal("networks.toml"@, b.networks.schema_version, e)
    } else if b.services.schema_version != SCHEMA_VERSION {
        version_refusal("services.toml"@, b.services.schema_version, e)
    } else if b.guests.schema_version != SCHEMA_VERSION {
        version_refusal("guests.toml"@, b.guests.schema_version, e)
    } else if b.mounts.schema_version != SCHEMA_VERSION {
        version_refusal("mounts.toml"@, b.mounts.schema_version, e)
    } else if b.nas_permissions.schema_version != SCHEMA_VERSION {
        version_refusal("nas-permissions.toml"@, b.nas_permissions.schema_version, e)
    } else if b.proxmox_storages.schema_version != SCHEMA_VERSION {
        version_refusal("proxmox-storages.toml"@, b.proxmox_storages.schema_version, e)
    } else if b.dns.schema_version != SCHEMA_VERSION {
        version_refusal("dns.toml"@, b.dns.schema_version, e)
    } else if b.allocations.schema_version != SCHEMA_VERSION {
        version_refusal("allocations.toml"@, b.allocations.schema_version, e)
    } else {
        version_refusal("location"@, b.location.schema_version, e)
    }
}

/// Why the location's IPv6 settings are refused: a prefix while disabled;
/// a missing prefix; a router-advertised prefix that is not a `/64`; a
/// delegated subnet size other than 64, or a delegated prefix longer than it.
pub open spec fn location_refusal(b: &ConfigBundle, e: ValidationError) -> bool {
    let mode = b.location.ipv6.mode;
    if mode == Ipv6Mode::Disabled {
        e is Ipv6PrefixWhileDisabled
    } else {
        match b.location.ipv6.prefix {
            None => e matches ValidationError::Ipv6PrefixRequired { mode: m } && m == mode,
            Some(p) => if mode == Ipv6Mode::RouterAdvertised {
                e matches ValidationError::RouterAdvertisedPrefixNot64 { prefix } && prefix == p
            } else if subnet_length(b) != 64 {
                e is DelegatedSubnetNot64
            } else {
                e matches ValidationError::DelegatedPrefixTooLong { prefix, subnet_length: n } && prefix == p && n == subnet_length(b)
            },
        }
    }
}

/// Host `j` is the first host with an OS network profile whose plan is
/// refused.
pub open spec fn first_os_network_failure(b: &ConfigBundle, j: int) -> bool {
    let hs = b.inventory.hosts@;
    &&& 0 <= j < hs.len()
    &&& hs[j].1.os_network is Some
    &&& !os_network_ok(b, hs[j].0@)
    &&& forall|k: int| 0 <= k < j ==> (#[trigger] hs[k]).1.os_network is Some ==> os_network_ok(b, hs[k].0@)
}

/// The error of the OS network checks: the plan refusal of the first host
/// whose plan is refused.
pub open spec fn os_networks_refusal(b: &ConfigBundle, e: ValidationError) -> bool {
    exists|j: int| #[trigger] first_os_network_failure(b, j)
        && (e matches ValidationError::Plan(pe) && os_network_refusal(b, b.inventory.hosts@[j].0@, pe))
}

/// A configuration is valid when all rule groups hold, its proxies resolve,
/// and a router-advertised location does not ask for durable public AAAA records.
pub open spec fn bundle_valid(b: &ConfigBundle) -> bool {
    &&& schema_versions_ok(b)
    &&& location_ok(b)
    &&& references_ok(b)
    &&& addresses_ok(b)
    &&& host_networks_ok(b)
    &&& os_networks_ok(b)
    &&& guests_ok(b)
    &&& mounts_ok(b)
    &&& nas_permissions_ok(b)
    &&& storages_ok(b)
    &&& proxy_plan_ok(b)
    &&& !(b.location.ipv6.mode == Ipv6Mode::RouterAdvertised && b.location.ipv6.publish_public_aaaa)
}

/// Number of segments with a non-zero VLAN ID.
pub open spec fn vlan_segment_count(s: Seq<(String, crate::model::Segment)>) -> nat
    decreases s.len(),
{
    if s.len() == 0 {
        0
    } else {
        vlan_segment_count(s.drop_last()) + match s.last().1.vlan_id {
            Some(v) if v != 0 => 1nat,
            _ => 0nat,
        }
    }
}

pub open spec fn dynamic_prefix_warning(location: Seq<char>) -> Seq<char> {
    "location '"@ + location
        + "' has a dynamic router-advertised IPv6 prefix; Netweft will allow it for recursion but will not treat it as allocatable"@
}

pub open spec fn missing_vlans_warning(router: Seq<char>) -> Seq<char> {
    "router '"@ + router + "' claims VLAN support but the location defines no VLAN segments"@
}

/// The warnings of a valid configuration: a dynamic router-advertised
/// prefix, and a VLAN-capable router without VLAN segments.
pub open spec fn validation_warnings(b: &ConfigBundle) -> Seq<Seq<char>> {
    (if b.location.ipv6.mode == Ipv6Mode::RouterAdvertised && b.location.ipv6.prefix is Some {
        seq![dynamic_prefix_warning(b.location.name@)]
    } else {
        Seq::<Seq<char>>::empty()
    }) + (if b.location.router.supports_vlans && vlan_segment_count(b.location.segments@) == 0 {
        seq![missing_vlans_warning(b.location.router.kind@)]
    } else {
        Seq::<Seq<char>>::empty()
    })
}

fn check_version(file: &str, version: u32) -> (r: Result<(), ValidationError>)
    ensures
        r is Ok <==> version == SCHEMA_VERSION,
        r matches Err(e) ==> version_refusal(file@, version, e),
{
    if version != SCHEMA_VERSION {
        return Err(ValidationError::SchemaVersion { file: owned(file), version });
    }
    Ok(())
}

fn validate_schema_versions(b: &ConfigBundle) -> (r: Result<(), ValidationError>)
    ensures
        r is Ok <==> schema_versions_ok(b),
        r matches Err(e) ==> schema_refusal(b, e),
{
    check_version("netweft.toml", b.settings.schema_version)?;
    check_version("inventory.toml", b.inventory.schema_version)?;
    check_version("networks.toml", b.networks.schema_version)?;
    check_version("services.toml", b.services.schema_version)?;
    check_version("guests.toml", b.guests.schema_version)?;
    check_version("mounts.toml", b.mounts.schema_version)?;
    check_version("nas-permissions.toml", b.nas_permissions.schema_version)?;
    check_version("proxmox-storages.toml", b.proxmox_storages.schema_version)?;
    check_version("dns.toml", b.dns.schema_version)?;
    check_version("allocations.toml", b.allocations.schema_version)?;
    check_version("location", b.location.schema_version)?;
    Ok(())
}

fn validate_location(b: &ConfigBundle) -> (r: Result<(), ValidationError>)
    ensures
        r is Ok <==> location_ok(b),
        r matches Err(e) ==> location_error(e) && location_refusal(b, e),
{
    match b.location.ipv6.mode {
        Ipv6Mode::Disabled => {
            if b.location.ipv6.prefix.is_some() {
                return Err(ValidationError::Ipv6PrefixWhileDisabled);
            }
        },
        Ipv6Mode::RouterAdvertised => {
            let prefix = match b.location.ipv6.prefix {
                None => {
                    return Err(ValidationError::Ipv6PrefixRequired { mode: Ipv6Mode::RouterAdvertised });
                },
                Some(p) => p,
            };
            if prefix.prefix_len != 64 {
                return Err(ValidationError::RouterAdvertisedPrefixNot64 { prefix });
            }
        },
        Ipv6Mode::Delegated => {
            let prefix = match b.location.ipv6.prefix {
                None => {
                    return Err(ValidationError::Ipv6PrefixRequired { mode: Ipv6Mode::Delegated });
                },
                Some(p) => p,
            };
            let subnet = match b.location.ipv6.subnet_prefix_length {
                Some(n) => n,
                None => 64,
            };
            if subnet != 64 {
                return Err(ValidationError::DelegatedSubnetNot64);
            }
            if prefix.prefix_len > subnet {
                return Err(ValidationError::DelegatedPrefixTooLong { prefix, subnet_length: subnet });
            }
        },
    }
    Ok(())
}

fn validate_os_networks(b: &ConfigBundle) -> (r: Result<(), ValidationError>)
    requires
        b.wf(),
    ensures
        r is Ok <==> os_networks_ok(b),
        r matches Err(e) ==> os_networks_refusal(b, e),
{
    let hosts = &b.inventory.hosts;
    let mut i: usize = 0;
    while i < hosts.len()
        invariant
            b.wf(),
            hosts == &b.inventory.hosts,
            i <= hosts@.len(),
            forall|j: int|
                0 <= j < i ==> (#[trigger] hosts@[j]).1.os_network is Some ==> os_network_ok(b, hosts@[j].0@),
        decreases hosts@.len() - i,
    {
        if hosts[i].1.os_network.is_some() {
            match resolve_os_network_plan(b, hosts[i].0.as_str()) {
                Ok(_) => {},
                Err(e) => {
                    proof {
                        assert(first_os_network_failure(b, i as int));
                    }
                    return Err(ValidationError::Plan(e));
                },
            }
        }
        i = i + 1;
    }
    Ok(())
}

/// Validates a whole configuration. It is accepted exactly when every rule
/// holds; the report then carries the warnings of the configuration.
pub fn validate_bundle(b: &ConfigBundle) -> (r: Result<ValidationReport, ValidationError>)
    requires
        b.wf(),
    ensures
        r is Ok <==> bundle_valid(b),
        r matches Ok(report) ==> crate::table::texts(report.warnings@) == validation_warnings(b),
        r matches Err(e) ==> if !schema_versions_ok(b) {
            schema_refusal(b, e)
        } else if !location_ok(b) {
            location_error(e) && location_refusal(b, e)
        } else if !references_ok(b) {
            reference_error(e) && reference_refusal(b, e)
        } else if !addresses_ok(b) {
            address_error(e) && addresses_refusal(b, e)
        } else if !host_networks_ok(b) {
            host_network_error(e) && host_networks_refusal(b, e)
        } else if !os_networks_ok(b) {
            os_networks_refusal(b, e)
        } else if !(guests_ok(b) && mounts_ok(b)) {
            inventory_error(e) && inventory_refusal(b, e)
        } else if !(nas_permissions_ok(b) && storages_ok(b)) {
            storage_error(e) && nas_and_storage_refusal(b, e)
        } else if !proxy_plan_ok(b) {
            e matches ValidationError::Plan(pe) && proxy_refusal(b, pe)
        } else {
            e matches ValidationError::RouterAdvertisedPublicAaaa { location } && location@ == b.location.name@
        },
{
    validate_schema_versions(b)?;
    validate_location(b)?;
    validate_references(b)?;
    validate_addresses(b)?;
    validate_host_networks(b)?;
    validate_os_networks(b)?;
    validate_guest_and_mount_references(b)?;
    validate_storage_and_nas_references(b)?;
    match resolve_proxy_plan(b) {
        Ok(_) => {},
        Err(e) => {
            return Err(ValidationError::Plan(e));
        },
    }
    if b.location.ipv6.mode == Ipv6Mode::RouterAdvertised && b.location.ipv6.publish_public_aaaa {
        return Err(ValidationError::RouterAdvertisedPublicAaaa { location: b.location.name.clone() });
    }
    let mut warnings: Vec<String> = Vec::new();
    if b.location.ipv6.mode == Ipv6Mode::RouterAdvertised && b.location.ipv6.prefix.is_some() {
        let w = concat(
            concat("location '", b.location.name.as_str()).as_str(),
            "' has a dynamic router-advertised IPv6 prefix; Netweft will allow it for recursion but will not treat it as allocatable",
        );
        warnings.push(w);
    }
    if b.location.router.supports_vlans {
        let segments = &b.location.segments;
        let mut count: usize = 0;
        let mut k: usize = 0;
        while k < segments.len()
            invariant
                segments == &b.location.segments,
                k <= segments@.len(),
                count <= k,
                count == vlan_segment_count(segments@.take(k as int)),
            decreases segments@.len() - k,
        {
            proof {
                assert(segments@.take(k + 1).drop_last() =~= segments@.take(k as int));
            }
            let counts = match segments[k].1.vlan_id {
                Some(v) => v != 0,
                None => false,
            };
            if counts {
                count = count + 1;
            }
            k = k + 1;
        }
        proof {
            assert(segments@.take(segments@.len() as int) =~= segments@);
        }
        if count == 0 {
            let w = concat(
                concat("router '", b.location.router.kind.as_str()).as_str(),
                "' claims VLAN support but the location defines no VLAN segments",
            );
            warnings.push(w);
        }
    }
    proof {
        assert(crate::table::texts(warnings@) =~= validation_warnings(b));
    }
    Ok(ValidationReport { warnings })
}

/// A reference `<kind>:<name>` that begins with `prefix` (`<kind>:`) is split
/// at that colon.
proof fn lemma_reference_split(a: Seq<char>, kind: Seq<char>)
    requires
        has_prefix(a, kind + seq![':']),
        forall|j: int| 0 <= j < kind.len() ==> kind[j] != ':',
    ensures
        first_index(a, ':') == kind.len(),
        a.take(kind.len() as int) == kind,
{
    let p = kind + seq![':'];
    assert forall|j: int| 0 <= j < kind.len() implies a[j] != ':' by {
        assert(a.take(p.len() as int)[j] == p[j]);
    }
    assert(a.take(p.len() as int)[kind.len() as int] == p[kind.len() as int]);
    lemma_first_index(a, ':', kind.len() as int);
    assert(a.take(kind.len() as int) =~= kind) by {
        assert forall|j: int| 0 <= j < kind.len() implies a.take(kind.len() as int)[j] == kind[j] by {
            assert(a.take(p.len() as int)[j] == p[j]);
        }
    }
}

/// A configuration that passes validation meets what the resolvers need of
/// it: resolving its DNS plan, its recursion access, its guests and the
/// environment of any host cannot run into a missing reference.
pub proof fn law_valid_bundle_meets_resolver_needs(b: &ConfigBundle, host: Seq<char>)
    requires
        b.wf(),
        bundle_valid(b),
    ensures
        dns_plan_requires(b),
        dns_access_requires(b),
        guest_plan_requires(b),
        env_plan_requires(b, host),
{
    assert(references::records_ok(b));
    assert(references::service_refs_ok(b));
    assert forall|i: int| 0 <= i < b.dns.records@.len() implies {
        let r = #[trigger] b.dns.records@[i];
        &&& (r.kind == DnsRecordKind::Service || r.kind == DnsRecordKind::Proxy) ==> (r.target matches Some(t) ==> has_key(b.services.services@, t@))
        &&& r.kind == DnsRecordKind::SegmentGateway ==> (r.target matches Some(t) ==> has_key(b.location.segments@, t@))
    } by {
        assert(references::record_ok(b, b.dns.records@[i]));
    }
    assert forall|i: int| 0 <= i < b.services.services@.len() implies (proxied_web(#[trigger] b.services.services@[i].1) ==> has_key(b.services.services@, b.services.services@[i].1.web->0.proxy@)) by {
        let s = b.services.services@[i].1;
        assert(has_key(b.inventory.hosts@, s.host@));
    }
    assert(dns_targets_present(b));
    lemma_targets_present_meet_requires(b);
    assert forall|i: int| 0 <= i < b.guests.guests@.len() implies guest_segment_known(b, #[trigger] b.guests.guests@[i]) by {
        let g = b.guests.guests@[i].1;
        if has_key(b.location.hosts@, g.host@) {
            let hi = key_index(b.location.hosts@, g.host@);
            let lh = b.location.hosts@[hi];
            assert(references::location_hosts_ok(b));
            if has_key(lh.1.interfaces@, g.interface@) {
                let ii = key_index(lh.1.interfaces@, g.interface@);
                assert(has_key(b.location.segments@, lh.1.interfaces@[ii].1.segment@));
            }
        }
    }
    lemma_guest_segments_meet_requires(b);
    assert(references::tailscale_ok(b));
    if has_key(b.location.tailscale.routers@, host) {
        let ri = key_index(b.location.tailscale.routers@, host);
        let rt = b.location.tailscale.routers@[ri];
        reveal_strlit("segment:");
        reveal_strlit("network:");
        reveal_strlit("segment");
        reveal_strlit("network");
        assert("segment:"@ =~= "segment"@ + seq![':']);
        assert("network:"@ =~= "network"@ + seq![':']);
        assert(b.location.tailscale.enabled);
        assert forall|j: int| 0 <= j < rt.1.advertise@.len() implies advertised_target_present(b, (#[trigger] rt.1.advertise@[j])@) by {
            let a = rt.1.advertise@[j]@;
            assert(references::advertise_ok(b, rt.0@, a));
            if has_prefix(a, "segment:"@) {
                lemma_reference_split(a, "segment"@);
            } else if has_prefix(a, "network:"@) {
                lemma_reference_split(a, "network"@);
                assert("network"@ != "segment"@) by {
                    assert("network"@[0] != "segment"@[0]);
                }
            }
        }
        assert(lookup(b.location.tailscale.routers@, host) == Some(rt.1));
    }
    lemma_env_targets_meet_requires(b, host);
}

} // verus!
