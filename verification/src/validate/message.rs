//! The messages that report a rule of the configuration that does not hold.

use vstd::prelude::*;

use crate::model::{DnsRecordKind, Ipv6Mode, TransportProtocol};
use crate::net::{ipv4_cidr_display, ipv4_display, ipv6_cidr_display, put_ipv4, put_ipv4_cidr, put_ipv6_cidr};
use crate::plan::message::plan_message;
use crate::text::{decimal, owned, put, put_decimal};
use crate::validate::ValidationError;

verus! {

/// The name of a transport protocol as messages show it.
pub open spec fn transport_name(p: TransportProtocol) -> Seq<char> {
    match p {
        TransportProtocol::Tcp => "Tcp"@,
        TransportProtocol::Udp => "Udp"@,
    }
}

fn transport_name_text(p: TransportProtocol) -> (r: &'static str)
    ensures
        r@ == transport_name(p),
{
    match p {
        TransportProtocol::Tcp => "Tcp",
        TransportProtocol::Udp => "Udp",
    }
}

/// The message reporting `e`, naming what is involved.
pub open spec fn validation_message(e: ValidationError) -> Seq<char> {
    match e {
        ValidationError::SchemaVersion { file, version, .. } => file@ + " uses schema version "@ + decimal(version as nat) + ", but this Netweft build supports version 1"@,
        ValidationError::Ipv6PrefixWhileDisabled => "IPv6 mode is disabled but an IPv6 prefix is configured"@,
        ValidationError::Ipv6PrefixRequired { mode } => if mode == Ipv6Mode::RouterAdvertised {
            "router-advertised IPv6 mode requires prefix"@
        } else {
            "delegated IPv6 mode requires prefix"@
        },
        ValidationError::RouterAdvertisedPrefixNot64 { prefix, .. } => "router-advertised IPv6 prefix must be /64, got "@ + ipv6_cidr_display(prefix),
        ValidationError::DelegatedSubnetNot64 => "Netweft v0.1 only allocates /64 networks from delegated IPv6 prefixes"@,
        ValidationError::DelegatedPrefixTooLong { prefix, subnet_length, .. } => "delegated prefix "@ + ipv6_cidr_display(prefix) + " is longer than the requested /"@ + decimal(subnet_length as nat) + " subnet size"@,
        ValidationError::RouterAdvertisedPublicAaaa { location, .. } => "location '"@ + location@ + "' uses router-advertised IPv6 but requests durable public AAAA records"@,
        ValidationError::UnknownParentHost { host, parent, .. } => "host '"@ + host@ + "' references unknown parent host '"@ + parent@ + "'"@,
        ValidationError::UnknownNetworkOwner { network, owner, .. } => "network '"@ + network@ + "' references unknown owner host '"@ + owner@ + "'"@,
        ValidationError::ServiceUnknownHost { service, host, .. } => "service '"@ + service@ + "' references unknown host '"@ + host@ + "'"@,
        ValidationError::ServiceUnknownNetwork { service, network, .. } => "service '"@ + service@ + "' references unknown network '"@ + network@ + "'"@,
        ValidationError::ServiceUnknownProxy { service, proxy, .. } => "service '"@ + service@ + "' references unknown proxy service '"@ + proxy@ + "'"@,
        ValidationError::LocationUnknownHost { host, .. } => "location references unknown host '"@ + host@ + "'"@,
        ValidationError::InterfaceUnknownSegment { host, interface, segment, .. } => "host '"@ + host@ + "' interface '"@ + interface@ + "' references unknown location segment '"@ + segment@ + "'"@,
        ValidationError::DnsUnknownService { service, .. } => "DNS configuration references unknown service '"@ + service@ + "'"@,
        ValidationError::DnsRecordMissingTarget { record, kind } => match kind {
            DnsRecordKind::Host => "DNS host record '"@ + record@ + "' requires target"@,
            DnsRecordKind::Cname => "DNS CNAME record '"@ + record@ + "' requires target"@,
            DnsRecordKind::SegmentGateway => "DNS gateway record '"@ + record@ + "' requires segment target"@,
            _ => "DNS service record '"@ + record@ + "' requires target"@,
        },
        ValidationError::DnsRecordUnknownHost { record, host, .. } => "DNS record '"@ + record@ + "' references unknown host '"@ + host@ + "'"@,
        ValidationError::DnsHostRecordMissingInterface { record, .. } => "DNS host record '"@ + record@ + "' requires interface"@,
        ValidationError::DnsRecordUnknownService { record, service, .. } => "DNS record '"@ + record@ + "' references unknown service '"@ + service@ + "'"@,
        ValidationError::DnsRecordUnknownSegment { record, segment, .. } => "DNS record '"@ + record@ + "' references unknown segment '"@ + segment@ + "'"@,
        ValidationError::UlaAllocationUnmatched { key, .. } => "ULA allocation '"@ + key@ + "' does not match any network allocation_key"@,
        ValidationError::DirectRouteWithVia { network, .. } => "network '"@ + network@ + "' uses direct routing but also defines 'via'"@,
        ValidationError::ViaHostWithoutVia { network, .. } => "network '"@ + network@ + "' uses via-host routing but does not define 'via'"@,
        ValidationError::UnknownGatewayHost { network, via, .. } => "network '"@ + network@ + "' references unknown gateway host '"@ + via@ + "'"@,
        ValidationError::HostPrivateWithEndpoints { network, .. } => "host-private network '"@ + network@ + "' must not define 'from' or 'via'"@,
        ValidationError::UnknownSourceHost { network, from, .. } => "network '"@ + network@ + "' references unknown source host '"@ + from@ + "'"@,
        ValidationError::TailscaleDisabledWithRouters => "Tailscale is disabled but router settings are present"@,
        ValidationError::TailscaleNoStrategy => "Tailscale is enabled but no strategy is configured"@,
        ValidationError::SubnetRouterNoPrimary => "subnet-router strategy requires primary_router"@,
        ValidationError::PrimaryRouterUnconfigured { router, .. } => "primary Tailscale router '"@ + router@ + "' has no router configuration"@,
        ValidationError::HaNeedsTwoRouters => "ha-subnet-router strategy requires at least two routers"@,
        ValidationError::TailscaleRouterUnknownHost { router, .. } => "Tailscale router '"@ + router@ + "' is not a known host"@,
        ValidationError::InvalidAdvertiseReference { reference, .. } => "invalid advertise reference '"@ + reference@ + "'"@,
        ValidationError::AdvertisesUnknownSegment { router, segment, .. } => "Tailscale router '"@ + router@ + "' advertises unknown segment '"@ + segment@ + "'"@,
        ValidationError::AdvertisesUnknownNetwork { router, network, .. } => "Tailscale router '"@ + router@ + "' advertises unknown network '"@ + network@ + "'"@,
        ValidationError::AdvertisedNetworkNoRouting { network, .. } => "advertised network '"@ + network@ + "' has no routing policy"@,
        ValidationError::AdvertisesHostPrivate { network, .. } => "cannot advertise host-private network '"@ + network@ + "'"@,
        ValidationError::NetworkNotRoutedFrom { network, router, .. } => "network '"@ + network@ + "' is not routed from '"@ + router@ + "'"@,
        ValidationError::UnsupportedAdvertiseReference { reference, .. } => "unsupported advertise reference '"@ + reference@ + "'"@,
        ValidationError::SegmentGatewayOutside { segment, gateway, cidr, .. } => "segment '"@ + segment@ + "' gateway "@ + ipv4_display(gateway) + " is outside "@ + ipv4_cidr_display(cidr),
        ValidationError::InterfaceAddressOutside { host, interface, address, cidr, .. } => "host '"@ + host@ + "' interface '"@ + interface@ + "' address "@ + ipv4_display(address) + " is outside "@ + ipv4_cidr_display(cidr),
        ValidationError::NetworkGatewayOutside { network, gateway, cidr, .. } => "network '"@ + network@ + "' gateway "@ + ipv4_display(gateway) + " is outside "@ + ipv4_cidr_display(cidr),
        ValidationError::ServiceNetworkNoCidr { service, address, network, .. } => "service '"@ + service@ + "' has IPv4 address "@ + ipv4_display(address) + ", but network '"@ + network@ + "' has no IPv4 CIDR"@,
        ValidationError::ServiceAddressOutside { service, address, network, cidr, .. } => "service '"@ + service@ + "' address "@ + ipv4_display(address) + " is outside network '"@ + network@ + "' ("@ + ipv4_cidr_display(cidr) + ")"@,
        ValidationError::DuplicateServiceIpv4 { address, .. } => "duplicate service IPv4 address detected: "@ + ipv4_display(address),
        ValidationError::DuplicateHostPort { port, protocol, host, .. } => "duplicate host port "@ + decimal(port as nat) + "/"@ + transport_name(protocol) + " on host '"@ + host@ + "'"@,
        ValidationError::HostNetworkNotAttached { host, location, .. } => "host '"@ + host@ + "' defines a network profile but is not attached to location '"@ + location@ + "'"@,
        ValidationError::EmptyLinkName { host, .. } => "host '"@ + host@ + "' defines an empty network link name"@,
        ValidationError::DuplicateLink { host, link, .. } => "host '"@ + host@ + "' defines duplicate network link '"@ + link@ + "'"@,
        ValidationError::EmptyBridgeName { host, .. } => "host '"@ + host@ + "' defines an empty bridge name"@,
        ValidationError::DuplicateBridge { host, bridge, .. } => "host '"@ + host@ + "' defines duplicate bridge '"@ + bridge@ + "'"@,
        ValidationError::VlansWithoutVlanAware { host, bridge, .. } => "host '"@ + host@ + "' bridge '"@ + bridge@ + "' defines allowed_vlans but is not VLAN-aware"@,
        ValidationError::EmptyAllowedVlans { host, bridge, .. } => "host '"@ + host@ + "' bridge '"@ + bridge@ + "' has an empty allowed_vlans value"@,
        ValidationError::InvalidVlanExpression { host, bridge, expression, .. } => "host '"@ + host@ + "' bridge '"@ + bridge@ + "' has an invalid VLAN expression '"@ + expression@ + "'"@,
        ValidationError::InvalidVlanValue { host, bridge, item, .. } => "host '"@ + host@ + "' bridge '"@ + bridge@ + "' has invalid VLAN value '"@ + item@ + "'"@,
        ValidationError::VlanOutOfRange { host, bridge, vlan, .. } => "host '"@ + host@ + "' bridge '"@ + bridge@ + "' VLAN "@ + decimal(vlan as nat) + " is outside 1-4094"@,
        ValidationError::DescendingVlanRange { host, bridge, item, .. } => "host '"@ + host@ + "' bridge '"@ + bridge@ + "' has descending VLAN range '"@ + item@ + "'"@,
        ValidationError::BridgeUnknownLink { host, bridge, port, .. } => "host '"@ + host@ + "' bridge '"@ + bridge@ + "' references unknown link '"@ + port@ + "'"@,
        ValidationError::LinkInTwoBridges { host, link, first_bridge, bridge, .. } => "host '"@ + host@ + "' link '"@ + link@ + "' is assigned to both bridge '"@ + first_bridge@ + "' and bridge '"@ + bridge@ + "'"@,
        ValidationError::BridgeMissingInterface { host, bridge, interface, .. } => "host '"@ + host@ + "' bridge '"@ + bridge@ + "' references missing location interface '"@ + interface@ + "'"@,
        ValidationError::AddressIsGateway { host, interface, address, segment, .. } => "host '"@ + host@ + "' interface '"@ + interface@ + "' address "@ + ipv4_display(address) + " conflicts with segment '"@ + segment@ + "' gateway"@,
        ValidationError::DuplicateHostIpv4 { address, other_host, other_interface, host, interface, .. } => "duplicate host IPv4 address "@ + ipv4_display(address) + ": '"@ + other_host@ + "."@ + other_interface@ + "' and '"@ + host@ + "."@ + interface@ + "'"@,
        ValidationError::SlaacWithoutIpv6 { host, interface, location, .. } => "host '"@ + host@ + "' interface '"@ + interface@ + "' requests SLAAC, but location '"@ + location@ + "' disables IPv6"@,
        ValidationError::NoManagementBridge { host, interface, .. } => "host '"@ + host@ + "' has no bridge attached to management interface '"@ + interface@ + "'"@,
        ValidationError::MultipleManagementBridges { host, interface, .. } => "host '"@ + host@ + "' has multiple bridges attached to management interface '"@ + interface@ + "'"@,
        ValidationError::ManagementInterfaceUndefined { host, interface, location, .. } => "host '"@ + host@ + "' management interface '"@ + interface@ + "' is not defined at location '"@ + location@ + "'"@,
        ValidationError::GuestUnknownParent { guest, host, .. } => "guest '"@ + guest@ + "' references unknown parent host '"@ + host@ + "'"@,
        ValidationError::DuplicateVmid { guest, vmid, host, .. } => "guest '"@ + guest@ + "' duplicates VMID "@ + decimal(vmid as nat) + " on host '"@ + host@ + "'"@,
        ValidationError::DuplicateMac { guest, mac, .. } => "guest '"@ + guest@ + "' duplicates MAC '"@ + mac@ + "'"@,
        ValidationError::DuplicateGuestIpv4 { guest, address, .. } => "guest '"@ + guest@ + "' duplicates IPv4 "@ + ipv4_display(address),
        ValidationError::NonVmAttachments { guest, .. } => "guest '"@ + guest@ + "' is not a VM but declares VM-only attachments"@,
        ValidationError::DuplicatePciSlot { guest, slot, .. } => "guest '"@ + guest@ + "' duplicates PCI attachment slot "@ + decimal(slot as nat),
        ValidationError::EmptyPciDevice { guest, slot, .. } => "guest '"@ + guest@ + "' PCI attachment slot "@ + decimal(slot as nat) + " has an empty device"@,
        ValidationError::PciDeviceClaimedTwice { owner, guest, device, .. } => "guests '"@ + owner@ + "' and '"@ + guest@ + "' both claim PCI device '"@ + device@ + "'"@,
        ValidationError::DuplicateVirtiofsSlot { guest, slot, .. } => "guest '"@ + guest@ + "' duplicates VirtioFS attachment slot "@ + decimal(slot as nat),
        ValidationError::EmptyVirtiofsDirectory { guest, slot, .. } => "guest '"@ + guest@ + "' VirtioFS attachment slot "@ + decimal(slot as nat) + " has an empty directory"@,
        ValidationError::MountUnknownHost { mount, host, .. } => "network mount '"@ + mount@ + "' references unknown consumer host '"@ + host@ + "'"@,
        ValidationError::MountUnknownServer { mount, host, .. } => "network mount '"@ + mount@ + "' references unknown server host '"@ + host@ + "'"@,
        ValidationError::MountPathNotAbsolute { mount, path, .. } => "network mount '"@ + mount@ + "' path '"@ + path@ + "' must be absolute"@,
        ValidationError::NasUnknownNas { permission, host, .. } => "NAS permission '"@ + permission@ + "' references unknown NAS host '"@ + host@ + "'"@,
        ValidationError::NasUnknownClient { permission, host, .. } => "NAS permission '"@ + permission@ + "' references unknown client host '"@ + host@ + "'"@,
        ValidationError::NasEmptyShare { permission, .. } => "NAS permission '"@ + permission@ + "' has an empty share name"@,
        ValidationError::NasEmptySecurity { permission, .. } => "NAS permission '"@ + permission@ + "' has empty security mode"@,
        ValidationError::StorageUnknownHost { storage, host, .. } => "Proxmox storage '"@ + storage@ + "' references unknown host '"@ + host@ + "'"@,
        ValidationError::StorageUnknownServer { storage, host, .. } => "Proxmox storage '"@ + storage@ + "' references unknown server host '"@ + host@ + "'"@,
        ValidationError::StoragePathNotAbsolute { storage, path, .. } => "Proxmox storage '"@ + storage@ + "' path '"@ + path@ + "' must be absolute"@,
        ValidationError::StorageExportNotAbsolute { storage, export, .. } => "Proxmox storage '"@ + storage@ + "' export '"@ + export@ + "' must be an absolute export path"@,
        ValidationError::StorageNoContent { storage, .. } => "Proxmox storage '"@ + storage@ + "' must declare at least one content type"@,
        ValidationError::DuplicateStorageId { storage, storage_id, host, .. } => "Proxmox storage '"@ + storage@ + "' duplicates storage ID '"@ + storage_id@ + "' on host '"@ + host@ + "'"@,
        ValidationError::Plan(p) => plan_message(p),
    }
}

impl ValidationError {
    /// The message reporting this error.
    pub fn message(&self) -> (r: String)
        ensures
            r@ == validation_message(*self),
    {
        match self {
            ValidationError::SchemaVersion { file, version, .. } => {
                let mut m = owned(file.as_str());
                put(&mut m, " uses schema version ");
                put_decimal(&mut m, *version as u64);
                put(&mut m, ", but this Netweft build supports version 1");
                m
            },
            ValidationError::Ipv6PrefixWhileDisabled => owned("IPv6 mode is disabled but an IPv6 prefix is configured"),
            ValidationError::Ipv6PrefixRequired { mode } => match mode {
                Ipv6Mode::RouterAdvertised => owned("router-advertised IPv6 mode requires prefix"),
                _ => owned("delegated IPv6 mode requires prefix"),
            },
            ValidationError::RouterAdvertisedPrefixNot64 { prefix, .. } => {
                let mut m = owned("router-advertised IPv6 prefix must be /64, got ");
                put_ipv6_cidr(&mut m, *prefix);
                m
            },
            ValidationError::DelegatedSubnetNot64 => owned("Netweft v0.1 only allocates /64 networks from delegated IPv6 prefixes"),
            ValidationError::DelegatedPrefixTooLong { prefix, subnet_length, .. } => {
                let mut m = owned("delegated prefix ");
                put_ipv6_cidr(&mut m, *prefix);
                put(&mut m, " is longer than the requested /");
                put_decimal(&mut m, *subnet_length as u64);
                put(&mut m, " subnet size");
                m
            },
            ValidationError::RouterAdvertisedPublicAaaa { location, .. } => {
                let mut m = owned("location '");
                put(&mut m, location.as_str());
                put(&mut m, "' uses router-advertised IPv6 but requests durable public AAAA records");
                m
            },
            ValidationError::UnknownParentHost { host, parent, .. } => {
                let mut m = owned("host '");
                put(&mut m, host.as_str());
                put(&mut m, "' references unknown parent host '");
                put(&mut m, parent.as_str());
                put(&mut m, "'");
                m
            },
            ValidationError::UnknownNetworkOwner { network, owner, .. } => {
                let mut m = owned("network '");
                put(&mut m, network.as_str());
                put(&mut m, "' references unknown owner host '");
                put(&mut m, owner.as_str());
                put(&mut m, "'");
                m
            },
            ValidationError::ServiceUnknownHost { service, host, .. } => {
                let mut m = owned("service '");
                put(&mut m, service.as_str());
                put(&mut m, "' references unknown host '");
                put(&mut m, host.as_str());
                put(&mut m, "'");
                m
            },
            ValidationError::ServiceUnknownNetwork { service, network, .. } => {
                let mut m = owned("service '");
                put(&mut m, service.as_str());
                put(&mut m, "' references unknown network '");
                put(&mut m, network.as_str());
                put(&mut m, "'");
                m
            },
            ValidationError::ServiceUnknownProxy { service, proxy, .. } => {
                let mut m = owned("service '");
                put(&mut m, service.as_str());
                put(&mut m, "' references unknown proxy service '");
                put(&mut m, proxy.as_str());
                put(&mut m, "'");
                m
            },
            ValidationError::LocationUnknownHost { host, .. } => {
                let mut m = owned("location references unknown host '");
                put(&mut m, host.as_str());
                put(&mut m, "'");
                m
            },
            ValidationError::InterfaceUnknownSegment { host, interface, segment, .. } => {
                let mut m = owned("host '");
                put(&mut m, host.as_str());
                put(&mut m, "' interface '");
                put(&mut m, interface.as_str());
                put(&mut m, "' references unknown location segment '");
                put(&mut m, segment.as_str());
                put(&mut m, "'");
                m
            },
            ValidationError::DnsUnknownService { service, .. } => {
                let mut m = owned("DNS configuration references unknown service '");
                put(&mut m, service.as_str());
                put(&mut m, "'");
                m
            },
            ValidationError::DnsRecordMissingTarget { record, kind } => {
                let (head, tail) = match kind {
                    DnsRecordKind::Host => ("DNS host record '", "' requires target"),
                    DnsRecordKind::Cname => ("DNS CNAME record '", "' requires target"),
                    DnsRecordKind::SegmentGateway => ("DNS gateway record '", "' requires segment target"),
                    _ => ("DNS service record '", "' requires target"),
                };
                let mut m = owned(head);
                put(&mut m, record.as_str());
                put(&mut m, tail);
                m
            },
            ValidationError::DnsRecordUnknownHost { record, host, .. } => {
                let mut m = owned("DNS record '");
                put(&mut m, record.as_str());
                put(&mut m, "' references unknown host '");
                put(&mut m, host.as_str());
                put(&mut m, "'");
                m
            },
            ValidationError::DnsHostRecordMissingInterface { record, .. } => {
                let mut m = owned("DNS host record '");
                put(&mut m, record.as_str());
                put(&mut m, "' requires interface");
                m
            },
            ValidationError::DnsRecordUnknownService { record, service, .. } => {
                let mut m = owned("DNS record '");
                put(&mut m, record.as_str());
                put(&mut m, "' references unknown service '");
                put(&mut m, service.as_str());
                put(&mut m, "'");
                m
            },
            ValidationError::DnsRecordUnknownSegment { record, segment, .. } => {
                let mut m = owned("DNS record '");
                put(&mut m, record.as_str());
                put(&mut m, "' references unknown segment '");
                put(&mut m, segment.as_str());
                put(&mut m, "'");
                m
            },
            ValidationError::UlaAllocationUnmatched { key, .. } => {
                let mut m = owned("ULA allocation '");
                put(&mut m, key.as_str());
                put(&mut m, "' does not match any network allocation_key");
                m
            },
            ValidationError::DirectRouteWithVia { network, .. } => {
                let mut m = owned("network '");
                put(&mut m, network.as_str());
                put(&mut m, "' uses direct routing but also defines 'via'");
                m
            },
            ValidationError::ViaHostWithoutVia { network, .. } => {
                let mut m = owned("network '");
                put(&mut m, network.as_str());
                put(&mut m, "' uses via-host routing but does not define 'via'");
                m
            },
            ValidationError::UnknownGatewayHost { network, via, .. } => {
                let mut m = owned("network '");
                put(&mut m, network.as_str());
                put(&mut m, "' references unknown gateway host '");
                put(&mut m, via.as_str());
                put(&mut m, "'");
                m
            },
            ValidationError::HostPrivateWithEndpoints { network, .. } => {
                let mut m = owned("host-private network '");
                put(&mut m, network.as_str());
                put(&mut m, "' must not define 'from' or 'via'");
                m
            },
            ValidationError::UnknownSourceHost { network, from, .. } => {
                let mut m = owned("network '");
                put(&mut m, network.as_str());
                put(&mut m, "' references unknown source host '");
                put(&mut m, from.as_str());
                put(&mut m, "'");
                m
            },
            ValidationError::TailscaleDisabledWithRouters => owned("Tailscale is disabled but router settings are present"),
            ValidationError::TailscaleNoStrategy => owned("Tailscale is enabled but no strategy is configured"),
            ValidationError::SubnetRouterNoPrimary => owned("subnet-router strategy requires primary_router"),
            ValidationError::PrimaryRouterUnconfigured { router, .. } => {
                let mut m = owned("primary Tailscale router '");
                put(&mut m, router.as_str());
                put(&mut m, "' has no router configuration");
                m
            },
            ValidationError::HaNeedsTwoRouters => owned("ha-subnet-router strategy requires at least two routers"),
            ValidationError::TailscaleRouterUnknownHost { router, .. } => {
                let mut m = owned("Tailscale router '");
                put(&mut m, router.as_str());
                put(&mut m, "' is not a known host");
                m
            },
            ValidationError::InvalidAdvertiseReference { reference, .. } => {
                let mut m = owned("invalid advertise reference '");
                put(&mut m, reference.as_str());
                put(&mut m, "'");
                m
            },
            ValidationError::AdvertisesUnknownSegment { router, segment, .. } => {
                let mut m = owned("Tailscale router '");
                put(&mut m, router.as_str());
                put(&mut m, "' advertises unknown segment '");
                put(&mut m, segment.as_str());
                put(&mut m, "'");
                m
            },
            ValidationError::AdvertisesUnknownNetwork { router, network, .. } => {
                let mut m = owned("Tailscale router '");
                put(&mut m, router.as_str());
                put(&mut m, "' advertises unknown network '");
                put(&mut m, network.as_str());
                put(&mut m, "'");
                m
            },
            ValidationError::AdvertisedNetworkNoRouting { network, .. } => {
                let mut m = owned("advertised network '");
                put(&mut m, network.as_str());
                put(&mut m, "' has no routing policy");
                m
            },
            ValidationError::AdvertisesHostPrivate { network, .. } => {
                let mut m = owned("cannot advertise host-private network '");
                put(&mut m, network.as_str());
                put(&mut m, "'");
                m
            },
            ValidationError::NetworkNotRoutedFrom { network, router, .. } => {
                let mut m = owned("network '");
                put(&mut m, network.as_str());
                put(&mut m, "' is not routed from '");
                put(&mut m, router.as_str());
                put(&mut m, "'");
                m
            },
            ValidationError::UnsupportedAdvertiseReference { reference, .. } => {
                let mut m = owned("unsupported advertise reference '");
                put(&mut m, reference.as_str());
                put(&mut m, "'");
                m
            },
            ValidationError::SegmentGatewayOutside { segment, gateway, cidr, .. } => {
                let mut m = owned("segment '");
                put(&mut m, segment.as_str());
                put(&mut m, "' gateway ");
                put_ipv4(&mut m, *gateway);
                put(&mut m, " is outside ");
                put_ipv4_cidr(&mut m, *cidr);
                m
            },
            ValidationError::InterfaceAddressOutside { host, interface, address, cidr, .. } => {
                let mut m = owned("host '");
                put(&mut m, host.as_str());
                put(&mut m, "' interface '");
                put(&mut m, interface.as_str());
                put(&mut m, "' address ");
                put_ipv4(&mut m, *address);
                put(&mut m, " is outside ");
                put_ipv4_cidr(&mut m, *cidr);
                m
            },
            ValidationError::NetworkGatewayOutside { network, gateway, cidr, .. } => {
                let mut m = owned("network '");
                put(&mut m, network.as_str());
                put(&mut m, "' gateway ");
                put_ipv4(&mut m, *gateway);
                put(&mut m, " is outside ");
                put_ipv4_cidr(&mut m, *cidr);
                m
            },
            ValidationError::ServiceNetworkNoCidr { service, address, network, .. } => {
                let mut m = owned("service '");
                put(&mut m, service.as_str());
                put(&mut m, "' has IPv4 address ");
                put_ipv4(&mut m, *address);
                put(&mut m, ", but network '");
                put(&mut m, network.as_str());
                put(&mut m, "' has no IPv4 CIDR");
                m
            },
            ValidationError::ServiceAddressOutside { service, address, network, cidr, .. } => {
                let mut m = owned("service '");
                put(&mut m, service.as_str());
                put(&mut m, "' address ");
                put_ipv4(&mut m, *address);
                put(&mut m, " is outside network '");
                put(&mut m, network.as_str());
                put(&mut m, "' (");
                put_ipv4_cidr(&mut m, *cidr);
                put(&mut m, ")");
                m
            },
            ValidationError::DuplicateServiceIpv4 { address, .. } => {
                let mut m = owned("duplicate service IPv4 address detected: ");
                put_ipv4(&mut m, *address);
                m
            },
            ValidationError::DuplicateHostPort { port, protocol, host, .. } => {
                let mut m = owned("duplicate host port ");
                put_decimal(&mut m, *port as u64);
                put(&mut m, "/");
                put(&mut m, transport_name_text(*protocol));
                put(&mut m, " on host '");
                put(&mut m, host.as_str());
                put(&mut m, "'");
                m
            },
            ValidationError::HostNetworkNotAttached { host, location, .. } => {
                let mut m = owned("host '");
                put(&mut m, host.as_str());
                put(&mut m, "' defines a network profile but is not attached to location '");
                put(&mut m, location.as_str());
                put(&mut m, "'");
                m
            },
            ValidationError::EmptyLinkName { host, .. } => {
                let mut m = owned("host '");
                put(&mut m, host.as_str());
                put(&mut m, "' defines an empty network link name");
                m
            },
            ValidationError::DuplicateLink { host, link, .. } => {
                let mut m = owned("host '");
                put(&mut m, host.as_str());
                put(&mut m, "' defines duplicate network link '");
                put(&mut m, link.as_str());
                put(&mut m, "'");
                m
            },
            ValidationError::EmptyBridgeName { host, .. } => {
                let mut m = owned("host '");
                put(&mut m, host.as_str());
                put(&mut m, "' defines an empty bridge name");
                m
            },
            ValidationError::DuplicateBridge { host, bridge, .. } => {
                let mut m = owned("host '");
                put(&mut m, host.as_str());
                put(&mut m, "' defines duplicate bridge '");
                put(&mut m, bridge.as_str());
                put(&mut m, "'");
                m
            },
            ValidationError::VlansWithoutVlanAware { host, bridge, .. } => {
                let mut m = owned("host '");
                put(&mut m, host.as_str());
                put(&mut m, "' bridge '");
                put(&mut m, bridge.as_str());
                put(&mut m, "' defines allowed_vlans but is not VLAN-aware");
                m
            },
            ValidationError::EmptyAllowedVlans { host, bridge, .. } => {
                let mut m = owned("host '");
                put(&mut m, host.as_str());
                put(&mut m, "' bridge '");
                put(&mut m, bridge.as_str());
                put(&mut m, "' has an empty allowed_vlans value");
                m
            },
            ValidationError::InvalidVlanExpression { host, bridge, expression, .. } => {
                let mut m = owned("host '");
                put(&mut m, host.as_str());
                put(&mut m, "' bridge '");
                put(&mut m, bridge.as_str());
                put(&mut m, "' has an invalid VLAN expression '");
                put(&mut m, expression.as_str());
                put(&mut m, "'");
                m
            },
            ValidationError::InvalidVlanValue { host, bridge, item, .. } => {
                let mut m = owned("host '");
                put(&mut m, host.as_str());
                put(&mut m, "' bridge '");
                put(&mut m, bridge.as_str());
                put(&mut m, "' has invalid VLAN value '");
                put(&mut m, item.as_str());
                put(&mut m, "'");
                m
            },
            ValidationError::VlanOutOfRange { host, bridge, vlan, .. } => {
                let mut m = owned("host '");
                put(&mut m, host.as_str());
                put(&mut m, "' bridge '");
                put(&mut m, bridge.as_str());
                put(&mut m, "' VLAN ");
                put_decimal(&mut m, *vlan as u64);
                put(&mut m, " is outside 1-4094");
                m
            },
            ValidationError::DescendingVlanRange { host, bridge, item, .. } => {
                let mut m = owned("host '");
                put(&mut m, host.as_str());
                put(&mut m, "' bridge '");
                put(&mut m, bridge.as_str());
                put(&mut m, "' has descending VLAN range '");
                put(&mut m, item.as_str());
                put(&mut m, "'");
                m
            },
            ValidationError::BridgeUnknownLink { host, bridge, port, .. } => {
                let mut m = owned("host '");
                put(&mut m, host.as_str());
                put(&mut m, "' bridge '");
                put(&mut m, bridge.as_str());
                put(&mut m, "' references unknown link '");
                put(&mut m, port.as_str());
                put(&mut m, "'");
                m
            },
            ValidationError::LinkInTwoBridges { host, link, first_bridge, bridge, .. } => {
                let mut m = owned("host '");
                put(&mut m, host.as_str());
                put(&mut m, "' link '");
                put(&mut m, link.as_str());
                put(&mut m, "' is assigned to both bridge '");
                put(&mut m, first_bridge.as_str());
                put(&mut m, "' and bridge '");
                put(&mut m, bridge.as_str());
                put(&mut m, "'");
                m
            },
            ValidationError::BridgeMissingInterface { host, bridge, interface, .. } => {
                let mut m = owned("host '");
                put(&mut m, host.as_str());
                put(&mut m, "' bridge '");
                put(&mut m, bridge.as_str());
                put(&mut m, "' references missing location interface '");
                put(&mut m, interface.as_str());
                put(&mut m, "'");
                m
            },
            ValidationError::AddressIsGateway { host, interface, address, segment, .. } => {
                let mut m = owned("host '");
                put(&mut m, host.as_str());
                put(&mut m, "' interface '");
                put(&mut m, interface.as_str());
                put(&mut m, "' address ");
                put_ipv4(&mut m, *address);
                put(&mut m, " conflicts with segment '");
                put(&mut m, segment.as_str());
                put(&mut m, "' gateway");
                m
            },
            ValidationError::DuplicateHostIpv4 { address, other_host, other_interface, host, interface, .. } => {
                let mut m = owned("duplicate host IPv4 address ");
                put_ipv4(&mut m, *address);
                put(&mut m, ": '");
                put(&mut m, other_host.as_str());
                put(&mut m, ".");
                put(&mut m, other_interface.as_str());
                put(&mut m, "' and '");
                put(&mut m, host.as_str());
                put(&mut m, ".");
                put(&mut m, interface.as_str());
                put(&mut m, "'");
                m
            },
            ValidationError::SlaacWithoutIpv6 { host, interface, location, .. } => {
                let mut m = owned("host '");
                put(&mut m, host.as_str());
                put(&mut m, "' interface '");
                put(&mut m, interface.as_str());
                put(&mut m, "' requests SLAAC, but location '");
                put(&mut m, location.as_str());
                put(&mut m, "' disables IPv6");
                m
            },
            ValidationError::NoManagementBridge { host, interface, .. } => {
                let mut m = owned("host '");
                put(&mut m, host.as_str());
                put(&mut m, "' has no bridge attached to management interface '");
                put(&mut m, interface.as_str());
                put(&mut m, "'");
                m
            },
            ValidationError::MultipleManagementBridges { host, interface, .. } => {
                let mut m = owned("host '");
                put(&mut m, host.as_str());
                put(&mut m, "' has multiple bridges attached to management interface '");
                put(&mut m, interface.as_str());
                put(&mut m, "'");
                m
            },
            ValidationError::ManagementInterfaceUndefined { host, interface, location, .. } => {
                let mut m = owned("host '");
                put(&mut m, host.as_str());
                put(&mut m, "' management interface '");
                put(&mut m, interface.as_str());
                put(&mut m, "' is not defined at location '");
                put(&mut m, location.as_str());
                put(&mut m, "'");
                m
            },
            ValidationError::GuestUnknownParent { guest, host, .. } => {
                let mut m = owned("guest '");
                put(&mut m, guest.as_str());
                put(&mut m, "' references unknown parent host '");
                put(&mut m, host.as_str());
                put(&mut m, "'");
                m
            },
            ValidationError::DuplicateVmid { guest, vmid, host, .. } => {
                let mut m = owned("guest '");
                put(&mut m, guest.as_str());
                put(&mut m, "' duplicates VMID ");
                put_decimal(&mut m, *vmid as u64);
                put(&mut m, " on host '");
                put(&mut m, host.as_str());
                put(&mut m, "'");
                m
            },
            ValidationError::DuplicateMac { guest, mac, .. } => {
                let mut m = owned("guest '");
                put(&mut m, guest.as_str());
                put(&mut m, "' duplicates MAC '");
                put(&mut m, mac.as_str());
                put(&mut m, "'");
                m
            },
            ValidationError::DuplicateGuestIpv4 { guest, address, .. } => {
                let mut m = owned("guest '");
                put(&mut m, guest.as_str());
                put(&mut m, "' duplicates IPv4 ");
                put_ipv4(&mut m, *address);
                m
            },
            ValidationError::NonVmAttachments { guest, .. } => {
                let mut m = owned("guest '");
                put(&mut m, guest.as_str());
                put(&mut m, "' is not a VM but declares VM-only attachments");
                m
            },
            ValidationError::DuplicatePciSlot { guest, slot, .. } => {
                let mut m = owned("guest '");
                put(&mut m, guest.as_str());
                put(&mut m, "' duplicates PCI attachment slot ");
                put_decimal(&mut m, *slot as u64);
                m
            },
            ValidationError::EmptyPciDevice { guest, slot, .. } => {
                let mut m = owned("guest '");
                put(&mut m, guest.as_str());
                put(&mut m, "' PCI attachment slot ");
                put_decimal(&mut m, *slot as u64);
                put(&mut m, " has an empty device");
                m
            },
            ValidationError::PciDeviceClaimedTwice { owner, guest, device, .. } => {
                let mut m = owned("guests '");
                put(&mut m, owner.as_str());
                put(&mut m, "' and '");
                put(&mut m, guest.as_str());
                put(&mut m, "' both claim PCI device '");
                put(&mut m, device.as_str());
                put(&mut m, "'");
                m
            },
            ValidationError::DuplicateVirtiofsSlot { guest, slot, .. } => {
                let mut m = owned("guest '");
                put(&mut m, guest.as_str());
                put(&mut m, "' duplicates VirtioFS attachment slot ");
                put_decimal(&mut m, *slot as u64);
                m
            },
            ValidationError::EmptyVirtiofsDirectory { guest, slot, .. } => {
                let mut m = owned("guest '");
                put(&mut m, guest.as_str());
                put(&mut m, "' VirtioFS attachment slot ");
                put_decimal(&mut m, *slot as u64);
                put(&mut m, " has an empty directory");
                m
            },
            ValidationError::MountUnknownHost { mount, host, .. } => {
                let mut m = owned("network mount '");
                put(&mut m, mount.as_str());
                put(&mut m, "' references unknown consumer host '");
                put(&mut m, host.as_str());
                put(&mut m, "'");
                m
            },
            ValidationError::MountUnknownServer { mount, host, .. } => {
                let mut m = owned("network mount '");
                put(&mut m, mount.as_str());
                put(&mut m, "' references unknown server host '");
                put(&mut m, host.as_str());
                put(&mut m, "'");
                m
            },
            ValidationError::MountPathNotAbsolute { mount, path, .. } => {
                let mut m = owned("network mount '");
                put(&mut m, mount.as_str());
                put(&mut m, "' path '");
                put(&mut m, path.as_str());
                put(&mut m, "' must be absolute");
                m
            },
            ValidationError::NasUnknownNas { permission, host, .. } => {
                let mut m = owned("NAS permission '");
                put(&mut m, permission.as_str());
                put(&mut m, "' references unknown NAS host '");
                put(&mut m, host.as_str());
                put(&mut m, "'");
                m
            },
            ValidationError::NasUnknownClient { permission, host, .. } => {
                let mut m = owned("NAS permission '");
                put(&mut m, permission.as_str());
                put(&mut m, "' references unknown client host '");
                put(&mut m, host.as_str());
                put(&mut m, "'");
                m
            },
            ValidationError::NasEmptyShare { permission, .. } => {
                let mut m = owned("NAS permission '");
                put(&mut m, permission.as_str());
                put(&mut m, "' has an empty share name");
                m
            },
            ValidationError::NasEmptySecurity { permission, .. } => {
                let mut m = owned("NAS permission '");
                put(&mut m, permission.as_str());
                put(&mut m, "' has empty security mode");
                m
            },
            ValidationError::StorageUnknownHost { storage, host, .. } => {
                let mut m = owned("Proxmox storage '");
                put(&mut m, storage.as_str());
                put(&mut m, "' references unknown host '");
                put(&mut m, host.as_str());
                put(&mut m, "'");
                m
            },
            ValidationError::StorageUnknownServer { storage, host, .. } => {
                let mut m = owned("Proxmox storage '");
                put(&mut m, storage.as_str());
                put(&mut m, "' references unknown server host '");
                put(&mut m, host.as_str());
                put(&mut m, "'");
                m
            },
            ValidationError::StoragePathNotAbsolute { storage, path, .. } => {
                let mut m = owned("Proxmox storage '");
                put(&mut m, storage.as_str());
                put(&mut m, "' path '");
                put(&mut m, path.as_str());
                put(&mut m, "' must be absolute");
                m
            },
            ValidationError::StorageExportNotAbsolute { storage, export, .. } => {
                let mut m = owned("Proxmox storage '");
                put(&mut m, storage.as_str());
                put(&mut m, "' export '");
                put(&mut m, export.as_str());
                put(&mut m, "' must be an absolute export path");
                m
            },
            ValidationError::StorageNoContent { storage, .. } => {
                let mut m = owned("Proxmox storage '");
                put(&mut m, storage.as_str());
                put(&mut m, "' must declare at least one content type");
                m
            },
            ValidationError::DuplicateStorageId { storage, storage_id, host, .. } => {
                let mut m = owned("Proxmox storage '");
                put(&mut m, storage.as_str());
                put(&mut m, "' duplicates storage ID '");
                put(&mut m, storage_id.as_str());
                put(&mut m, "' on host '");
                put(&mut m, host.as_str());
                put(&mut m, "'");
                m
            },
            ValidationError::Plan(p) => p.message(),
        }
    }
}

} // verus!
