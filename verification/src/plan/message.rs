//! The messages that report why a plan could not be resolved.

use vstd::prelude::*;

use crate::model::DnsRecordKind;
use crate::model::id::id_error_message;
use crate::net::{ipv4_cidr_display, ipv4_display, ipv6_cidr_display, put_ipv4, put_ipv4_cidr, put_ipv6_cidr};
use crate::plan::PlanError;
use crate::text::{owned, put};

verus! {

/// The message reporting `e`, naming what is involved.
pub open spec fn plan_message(e: PlanError) -> Seq<char> {
    match e {
        PlanError::UnknownHost { host, .. } => "unknown host '"@ + host@ + "'"@,
        PlanError::HostDisabled { host, .. } => "host '"@ + host@ + "' is disabled"@,
        PlanError::NoOsNetworkProfile { host, .. } => "host '"@ + host@ + "' has no OS network profile"@,
        PlanError::EmptyOsNetworkInterface { host, .. } => "host '"@ + host@ + "' OS network interface is empty"@,
        PlanError::NoGuestDeclaration { host, .. } => "host '"@ + host@ + "' has an OS network profile but no matching guest declaration"@,
        PlanError::GuestParentNotAttached { host, parent, location, .. } => "host '"@ + host@ + "' guest parent '"@ + parent@ + "' is not attached at location '"@ + location@ + "'"@,
        PlanError::GuestInterfaceUnknown { host, parent, interface, .. } => "host '"@ + host@ + "' guest references unknown location interface '"@ + parent@ + ":"@ + interface@ + "'"@,
        PlanError::GuestSegmentUnknown { host, segment, .. } => "host '"@ + host@ + "' guest interface references unknown segment '"@ + segment@ + "'"@,
        PlanError::ExpectedAddressOutside { host, address, segment, cidr, .. } => "host '"@ + host@ + "' expected IPv4 "@ + ipv4_display(address) + " is outside segment '"@ + segment@ + "' ("@ + ipv4_cidr_display(cidr) + ")"@,
        PlanError::RouterAdvertisedWithoutIpv6 { host, location, .. } => "host '"@ + host@ + "' requests router-advertised IPv6, but location '"@ + location@ + "' disables IPv6"@,
        PlanError::UnsupportedWebAccess { service, access, .. } => "service '"@ + service@ + "' has unsupported web access '"@ + access@ + "'"@,
        PlanError::UnknownProxyService { service, proxy, .. } => "service '"@ + service@ + "' references unknown proxy service '"@ + proxy@ + "'"@,
        PlanError::NotAReverseProxy { service, proxy, .. } => "service '"@ + service@ + "' references '"@ + proxy@ + "' as a proxy, but it is not a reverse-proxy service"@,
        PlanError::DisabledProxy { service, proxy, .. } => "service '"@ + service@ + "' references disabled proxy service '"@ + proxy@ + "'"@,
        PlanError::ProxiedServiceNoIpv4 { service, .. } => "proxied service '"@ + service@ + "' requires an IPv4 address"@,
        PlanError::ZeroUpstreamPort { service, .. } => "proxied service '"@ + service@ + "' uses invalid upstream port 0"@,
        PlanError::InvalidProxyDomain { service, .. } => "service '"@ + service@ + "' has invalid proxy domain"@,
        PlanError::WildcardProxyDomain { service, .. } => "service '"@ + service@ + "' cannot use a wildcard proxy domain"@,
        PlanError::UnknownCertificate { service, certificate, .. } => "service '"@ + service@ + "' references unknown certificate '"@ + certificate@ + "'"@,
        PlanError::InvalidIdentifier { error, .. } => id_error_message(error),
        PlanError::CertificateDoesNotCover { certificate, domain, .. } => "certificate '"@ + certificate@ + "' does not cover domain '"@ + domain@ + "'"@,
        PlanError::RelativeCertificatePath { certificate, path, .. } => "certificate '"@ + certificate@ + "' path '"@ + path@ + "' must be absolute"@,
        PlanError::TlsSettingsWithoutTls { service, .. } => "service '"@ + service@ + "' configures certificate or force-HTTPS without TLS"@,
        PlanError::DuplicateProxyDomain { domain, .. } => "proxy domain '"@ + domain@ + "' is declared more than once"@,
        PlanError::UlaRootNot48 { root, .. } => "ULA root must be /48, got "@ + ipv6_cidr_display(root),
        PlanError::SubnetNot64 { subnet, .. } => "interface addresses require a /64, got "@ + ipv6_cidr_display(subnet),
        PlanError::InvalidInterfaceId { id, .. } => "invalid hexadecimal IPv6 interface id '"@ + id@ + "'"@,
        PlanError::UlaNotAllocated => "ULA is not allocated"@,
        PlanError::NoUlaForNetwork { network, .. } => "no ULA allocation for network '"@ + network@ + "'"@,
        PlanError::NoUlaForSegment { segment, .. } => "no ULA allocation for segment '"@ + segment@ + "'"@,
        PlanError::ServiceNoAddress => "service has no address block"@,
        PlanError::ServiceNoInterfaceId => "service has no IPv6 interface id"@,
        PlanError::HostNotAttached { host, location, .. } => "host '"@ + host@ + "' is not attached at location '"@ + location@ + "'"@,
        PlanError::NoInterface { host, interface, .. } => "host '"@ + host@ + "' has no interface '"@ + interface@ + "'"@,
        PlanError::NoUlaInterfaceId { host, interface, .. } => "host '"@ + host@ + "' interface '"@ + interface@ + "' has no ULA interface id"@,
        PlanError::DnsServiceMissing { .. } => "DNS service is missing"@,
        PlanError::DnsServiceNoIpv4 { .. } => "DNS service has no container IPv4 address"@,
        PlanError::ServiceNoIngress { host, .. } => "service on host '"@ + host@ + "' has no ingress definition"@,
        PlanError::InterfaceNoIpv4 { host, interface, .. } => "host '"@ + host@ + "' interface '"@ + interface@ + "' has no IPv4 address"@,
        PlanError::RecordTargetMissing { kind, .. } => match kind {
            DnsRecordKind::Host => "host record target missing"@,
            DnsRecordKind::Service => "service record target missing"@,
            DnsRecordKind::Proxy => "proxy record target missing"@,
            DnsRecordKind::Cname => "CNAME target missing"@,
            DnsRecordKind::SegmentGateway => "segment target missing"@,
        },
        PlanError::RecordInterfaceMissing { .. } => "host record interface missing"@,
        PlanError::ServiceNoIpv4 { service, .. } => "service '"@ + service@ + "' has no IPv4 address"@,
        PlanError::RecordOutsideZones { record, .. } => "record '"@ + record@ + "' does not belong to a configured zone"@,
        PlanError::NoHostNetworkProfile { host, .. } => "host '"@ + host@ + "' has no host network profile"@,
        PlanError::InterfaceSegmentUnknown { host, interface, segment, .. } => "host '"@ + host@ + "' interface '"@ + interface@ + "' references unknown segment '"@ + segment@ + "'"@,
        PlanError::SlaacWithoutIpv6 { host, interface, location, .. } => "host '"@ + host@ + "' interface '"@ + interface@ + "' requests SLAAC, but location '"@ + location@ + "' disables IPv6"@,
        PlanError::NoManagementBridge { host, interface, .. } => "host '"@ + host@ + "' has no bridge attached to management interface '"@ + interface@ + "'"@,
        PlanError::MultipleManagementBridges { host, interface, .. } => "host '"@ + host@ + "' has multiple bridges attached to management interface '"@ + interface@ + "'"@,
        PlanError::NoExternalIngress { .. } => "active location has no external_ingress configuration"@,
        PlanError::ExternalIngressDisabled { location, .. } => "external ingress is disabled for location '"@ + location@ + "'"@,
        PlanError::CloudflareDirectUnsupported => "Cloudflare direct-origin mode is modeled but not yet implemented; use cloudflare-tunnel"@,
        PlanError::NoTunnelSelected => "cloudflare-tunnel mode requires a tunnel"@,
        PlanError::TunnelNotSelected { location, selected, requested, .. } => "location '"@ + location@ + "' selects tunnel '"@ + selected@ + "', not '"@ + requested@ + "'"@,
        PlanError::UnknownCloudflareProvider { provider, .. } => "unknown Cloudflare provider '"@ + provider@ + "'"@,
        PlanError::UnknownCloudflareTunnel { tunnel, .. } => "unknown Cloudflare tunnel '"@ + tunnel@ + "'"@,
        PlanError::TunnelProviderMismatch { tunnel, provider, location, selected, .. } => "Cloudflare tunnel '"@ + tunnel@ + "' uses provider '"@ + provider@ + "', but location '"@ + location@ + "' selects '"@ + selected@ + "'"@,
        PlanError::UnknownConnectorHost { host, .. } => "unknown Cloudflare connector host '"@ + host@ + "'"@,
        PlanError::ConnectorHostDisabled { host, .. } => "Cloudflare connector host '"@ + host@ + "' is disabled"@,
        PlanError::TunnelWithoutHostnames { tunnel, .. } => "Cloudflare tunnel '"@ + tunnel@ + "' must publish at least one hostname"@,
        PlanError::HostnameOutsideZone { hostname, zone, .. } => "Cloudflare hostname '"@ + hostname@ + "' is not a subdomain of zone '"@ + zone@ + "'"@,
        PlanError::NoSdnZones { host, .. } => "host '"@ + host@ + "' has no Proxmox SDN zones"@,
        PlanError::NoSdnVnets { host, .. } => "host '"@ + host@ + "' has no Proxmox SDN VNets"@,
        PlanError::SdnGatewayOutside { vnet, gateway, cidr, .. } => "Proxmox SDN VNet '"@ + vnet@ + "' gateway "@ + ipv4_display(gateway) + " is outside "@ + ipv4_cidr_display(cidr),
        PlanError::SdnDhcpOutside { vnet, start, end, cidr, .. } => "Proxmox SDN VNet '"@ + vnet@ + "' DHCP range "@ + ipv4_display(start) + "-"@ + ipv4_display(end) + " is outside "@ + ipv4_cidr_display(cidr),
        PlanError::SdnDhcpReversed { vnet, start, end, .. } => "Proxmox SDN VNet '"@ + vnet@ + "' DHCP start "@ + ipv4_display(start) + " is after end "@ + ipv4_display(end),
        PlanError::SdnGatewayInDhcp { vnet, gateway, .. } => "Proxmox SDN VNet '"@ + vnet@ + "' gateway "@ + ipv4_display(gateway) + " overlaps DHCP range"@,
        PlanError::UnknownSshClient { client, .. } => "unknown SSH client profile '"@ + client@ + "'"@,
        PlanError::SshTargetKinds { alias, .. } => "SSH target '"@ + alias@ + "' must set exactly one of host, guest, or service"@,
        PlanError::UnknownSshIdentity { alias, identity, client, .. } => "SSH target '"@ + alias@ + "' references unknown identity '"@ + identity@ + "' for client '"@ + client@ + "'"@,
        PlanError::SshUnknownHost { alias, host, .. } => "SSH target '"@ + alias@ + "' references unknown host '"@ + host@ + "'"@,
        PlanError::SshUnknownGuest { alias, guest, .. } => "SSH target '"@ + alias@ + "' references unknown guest '"@ + guest@ + "'"@,
        PlanError::SshUnknownService { alias, service, .. } => "SSH target '"@ + alias@ + "' references unknown service '"@ + service@ + "'"@,
        PlanError::SshServiceWithoutSsh { alias, service, .. } => "SSH target '"@ + alias@ + "' references service '"@ + service@ + "' without SSH settings"@,
        PlanError::HostWithoutAddress { host, location, .. } => "host '"@ + host@ + "' is neither attached to location '"@ + location@ + "' nor defined as a guest"@,
        PlanError::NotADockerHost { host, .. } => "host '"@ + host@ + "' does not have the docker role"@,
        PlanError::NoDockerProfile { host, .. } => "host '"@ + host@ + "' has no docker.toml profile"@,
        PlanError::DockerNetworkNoIpv4 { network, .. } => "Docker network '"@ + network@ + "' requires ipv4_cidr"@,
        PlanError::DockerNetworkNoGateway { network, .. } => "Docker network '"@ + network@ + "' requires ipv4_gateway"@,
        PlanError::NoGatewayAddress => "IPv4 network has no gateway"@,
        PlanError::NoDockerNetworks { host, .. } => "host '"@ + host@ + "' has no owned Docker networks"@,
        PlanError::ServerNotAttached { item, server, location, .. } => "network mount '"@ + item@ + "' server '"@ + server@ + "' is not attached at location '"@ + location@ + "'"@,
        PlanError::ServerWithoutIpv4 { item, server, .. } => "network mount '"@ + item@ + "' server '"@ + server@ + "' has no IPv4 address"@,
        PlanError::RelativeMountPath { item, path, .. } => "network mount '"@ + item@ + "' path '"@ + path@ + "' must be absolute"@,
        PlanError::RootMountUnit => "refusing to create a systemd mount unit for '/'"@,
        PlanError::GuestUnknownParent { guest, parent, .. } => "guest '"@ + guest@ + "' references unknown parent host '"@ + parent@ + "'"@,
        PlanError::GuestAddressOutside { guest, address, segment, cidr, .. } => "guest '"@ + guest@ + "' address "@ + ipv4_display(address) + " is outside segment '"@ + segment@ + "' ("@ + ipv4_cidr_display(cidr) + ")"@,
        PlanError::UnknownNasHost { nas, .. } => "unknown NAS host '"@ + nas@ + "'"@,
        PlanError::UnknownNasClient { permission, client, location, .. } => "NAS permission '"@ + permission@ + "' client '"@ + client@ + "' is neither a host attached at location '"@ + location@ + "' nor a configured guest"@,
    }
}

impl PlanError {
    /// The message reporting this error.
    pub fn message(&self) -> (r: String)
        ensures
            r@ == plan_message(*self),
    {
        match self {
            PlanError::UnknownHost { host, .. } => {
                let mut m = owned("unknown host '");
                put(&mut m, host.as_str());
                put(&mut m, "'");
                m
            },
            PlanError::HostDisabled { host, .. } => {
                let mut m = owned("host '");
                put(&mut m, host.as_str());
                put(&mut m, "' is disabled");
                m
            },
            PlanError::NoOsNetworkProfile { host, .. } => {
                let mut m = owned("host '");
                put(&mut m, host.as_str());
                put(&mut m, "' has no OS network profile");
                m
            },
            PlanError::EmptyOsNetworkInterface { host, .. } => {
                let mut m = owned("host '");
                put(&mut m, host.as_str());
                put(&mut m, "' OS network interface is empty");
                m
            },
            PlanError::NoGuestDeclaration { host, .. } => {
                let mut m = owned("host '");
                put(&mut m, host.as_str());
                put(&mut m, "' has an OS network profile but no matching guest declaration");
                m
            },
            PlanError::GuestParentNotAttached { host, parent, location, .. } => {
                let mut m = owned("host '");
                put(&mut m, host.as_str());
                put(&mut m, "' guest parent '");
                put(&mut m, parent.as_str());
                put(&mut m, "' is not attached at location '");
                put(&mut m, location.as_str());
                put(&mut m, "'");
                m
            },
            PlanError::GuestInterfaceUnknown { host, parent, interface, .. } => {
                let mut m = owned("host '");
                put(&mut m, host.as_str());
                put(&mut m, "' guest references unknown location interface '");
                put(&mut m, parent.as_str());
                put(&mut m, ":");
                put(&mut m, interface.as_str());
                put(&mut m, "'");
                m
            },
            PlanError::GuestSegmentUnknown { host, segment, .. } => {
                let mut m = owned("host '");
                put(&mut m, host.as_str());
                put(&mut m, "' guest interface references unknown segment '");
                put(&mut m, segment.as_str());
                put(&mut m, "'");
                m
            },
            PlanError::ExpectedAddressOutside { host, address, segment, cidr, .. } => {
                let mut m = owned("host '");
                put(&mut m, host.as_str());
                put(&mut m, "' expected IPv4 ");
                put_ipv4(&mut m, *address);
                put(&mut m, " is outside segment '");
                put(&mut m, segment.as_str());
                put(&mut m, "' (");
                put_ipv4_cidr(&mut m, *cidr);
                put(&mut m, ")");
                m
            },
            PlanError::RouterAdvertisedWithoutIpv6 { host, location, .. } => {
                let mut m = owned("host '");
                put(&mut m, host.as_str());
                put(&mut m, "' requests router-advertised IPv6, but location '");
                put(&mut m, location.as_str());
                put(&mut m, "' disables IPv6");
                m
            },
            PlanError::UnsupportedWebAccess { service, access, .. } => {
                let mut m = owned("service '");
                put(&mut m, service.as_str());
                put(&mut m, "' has unsupported web access '");
                put(&mut m, access.as_str());
                put(&mut m, "'");
                m
            },
            PlanError::UnknownProxyService { service, proxy, .. } => {
                let mut m = owned("service '");
                put(&mut m, service.as_str());
                put(&mut m, "' references unknown proxy service '");
                put(&mut m, proxy.as_str());
                put(&mut m, "'");
                m
            },
            PlanError::NotAReverseProxy { service, proxy, .. } => {
                let mut m = owned("service '");
                put(&mut m, service.as_str());
                put(&mut m, "' references '");
                put(&mut m, proxy.as_str());
                put(&mut m, "' as a proxy, but it is not a reverse-proxy service");
                m
            },
            PlanError::DisabledProxy { service, proxy, .. } => {
                let mut m = owned("service '");
                put(&mut m, service.as_str());
                put(&mut m, "' references disabled proxy service '");
                put(&mut m, proxy.as_str());
                put(&mut m, "'");
                m
            },
            PlanError::ProxiedServiceNoIpv4 { service, .. } => {
                let mut m = owned("proxied service '");
                put(&mut m, service.as_str());
                put(&mut m, "' requires an IPv4 address");
                m
            },
            PlanError::ZeroUpstreamPort { service, .. } => {
                let mut m = owned("proxied service '");
                put(&mut m, service.as_str());
                put(&mut m, "' uses invalid upstream port 0");
                m
            },
            PlanError::InvalidProxyDomain { service, .. } => {
                let mut m = owned("service '");
                put(&mut m, service.as_str());
                put(&mut m, "' has invalid proxy domain");
                m
            },
            PlanError::WildcardProxyDomain { service, .. } => {
                let mut m = owned("service '");
                put(&mut m, service.as_str());
                put(&mut m, "' cannot use a wildcard proxy domain");
                m
            },
            PlanError::UnknownCertificate { service, certificate, .. } => {
                let mut m = owned("service '");
                put(&mut m, service.as_str());
                put(&mut m, "' references unknown certificate '");
                put(&mut m, certificate.as_str());
                put(&mut m, "'");
                m
            },
            PlanError::InvalidIdentifier { error, .. } => error.message(),
            PlanError::CertificateDoesNotCover { certificate, domain, .. } => {
                let mut m = owned("certificate '");
                put(&mut m, certificate.as_str());
                put(&mut m, "' does not cover domain '");
                put(&mut m, domain.as_str());
                put(&mut m, "'");
                m
            },
            PlanError::RelativeCertificatePath { certificate, path, .. } => {
                let mut m = owned("certificate '");
                put(&mut m, certificate.as_str());
                put(&mut m, "' path '");
                put(&mut m, path.as_str());
                put(&mut m, "' must be absolute");
                m
            },
            PlanError::TlsSettingsWithoutTls { service, .. } => {
                let mut m = owned("service '");
                put(&mut m, service.as_str());
                put(&mut m, "' configures certificate or force-HTTPS without TLS");
                m
            },
            PlanError::DuplicateProxyDomain { domain, .. } => {
                let mut m = owned("proxy domain '");
                put(&mut m, domain.as_str());
                put(&mut m, "' is declared more than once");
                m
            },
            PlanError::UlaRootNot48 { root, .. } => {
                let mut m = owned("ULA root must be /48, got ");
                put_ipv6_cidr(&mut m, *root);
                m
            },
            PlanError::SubnetNot64 { subnet, .. } => {
                let mut m = owned("interface addresses require a /64, got ");
                put_ipv6_cidr(&mut m, *subnet);
                m
            },
            PlanError::InvalidInterfaceId { id, .. } => {
                let mut m = owned("invalid hexadecimal IPv6 interface id '");
                put(&mut m, id.as_str());
                put(&mut m, "'");
                m
            },
            PlanError::UlaNotAllocated => owned("ULA is not allocated"),
            PlanError::NoUlaForNetwork { network, .. } => {
                let mut m = owned("no ULA allocation for network '");
                put(&mut m, network.as_str());
                put(&mut m, "'");
                m
            },
            PlanError::NoUlaForSegment { segment, .. } => {
                let mut m = owned("no ULA allocation for segment '");
                put(&mut m, segment.as_str());
                put(&mut m, "'");
                m
            },
            PlanError::ServiceNoAddress => owned("service has no address block"),
            PlanError::ServiceNoInterfaceId => owned("service has no IPv6 interface id"),
            PlanError::HostNotAttached { host, location, .. } => {
                let mut m = owned("host '");
                put(&mut m, host.as_str());
                put(&mut m, "' is not attached at location '");
                put(&mut m, location.as_str());
                put(&mut m, "'");
                m
            },
            PlanError::NoInterface { host, interface, .. } => {
                let mut m = owned("host '");
                put(&mut m, host.as_str());
                put(&mut m, "' has no interface '");
                put(&mut m, interface.as_str());
                put(&mut m, "'");
                m
            },
            PlanError::NoUlaInterfaceId { host, interface, .. } => {
                let mut m = owned("host '");
                put(&mut m, host.as_str());
                put(&mut m, "' interface '");
                put(&mut m, interface.as_str());
                put(&mut m, "' has no ULA interface id");
                m
            },
            PlanError::DnsServiceMissing { .. } => owned("DNS service is missing"),
            PlanError::DnsServiceNoIpv4 { .. } => owned("DNS service has no container IPv4 address"),
            PlanError::ServiceNoIngress { host, .. } => {
                let mut m = owned("service on host '");
                put(&mut m, host.as_str());
                put(&mut m, "' has no ingress definition");
                m
            },
            PlanError::InterfaceNoIpv4 { host, interface, .. } => {
                let mut m = owned("host '");
                put(&mut m, host.as_str());
                put(&mut m, "' interface '");
                put(&mut m, interface.as_str());
                put(&mut m, "' has no IPv4 address");
                m
            },
            PlanError::RecordTargetMissing { kind, .. } => match kind {
                DnsRecordKind::Host => owned("host record target missing"),
                DnsRecordKind::Service => owned("service record target missing"),
                DnsRecordKind::Proxy => owned("proxy record target missing"),
                DnsRecordKind::Cname => owned("CNAME target missing"),
                DnsRecordKind::SegmentGateway => owned("segment target missing"),
            },
            PlanError::RecordInterfaceMissing { .. } => owned("host record interface missing"),
            PlanError::ServiceNoIpv4 { service, .. } => {
                let mut m = owned("service '");
                put(&mut m, service.as_str());
                put(&mut m, "' has no IPv4 address");
                m
            },
            PlanError::RecordOutsideZones { record, .. } => {
                let mut m = owned("record '");
                put(&mut m, record.as_str());
                put(&mut m, "' does not belong to a configured zone");
                m
            },
            PlanError::NoHostNetworkProfile { host, .. } => {
                let mut m = owned("host '");
                put(&mut m, host.as_str());
                put(&mut m, "' has no host network profile");
                m
            },
            PlanError::InterfaceSegmentUnknown { host, interface, segment, .. } => {
                let mut m = owned("host '");
                put(&mut m, host.as_str());
                put(&mut m, "' interface '");
                put(&mut m, interface.as_str());
                put(&mut m, "' references unknown segment '");
                put(&mut m, segment.as_str());
                put(&mut m, "'");
                m
            },
            PlanError::SlaacWithoutIpv6 { host, interface, location, .. } => {
                let mut m = owned("host '");
                put(&mut m, host.as_str());
                put(&mut m, "' interface '");
                put(&mut m, interface.as_str());
                put(&mut m, "' requests SLAAC, but location '");
                put(&mut m, location.as_str());
                put(&mut m, "' disables IPv6");
                m
            },
            PlanError::NoManagementBridge { host, interface, .. } => {
                let mut m = owned("host '");
                put(&mut m, host.as_str());
                put(&mut m, "' has no bridge attached to management interface '");
                put(&mut m, interface.as_str());
                put(&mut m, "'");
                m
            },
            PlanError::MultipleManagementBridges { host, interface, .. } => {
                let mut m = owned("host '");
                put(&mut m, host.as_str());
                put(&mut m, "' has multiple bridges attached to management interface '");
                put(&mut m, interface.as_str());
                put(&mut m, "'");
                m
            },
            PlanError::NoExternalIngress { .. } => owned("active location has no external_ingress configuration"),
            PlanError::ExternalIngressDisabled { location, .. } => {
                let mut m = owned("external ingress is disabled for location '");
                put(&mut m, location.as_str());
                put(&mut m, "'");
                m
            },
            PlanError::CloudflareDirectUnsupported => owned("Cloudflare direct-origin mode is modeled but not yet implemented; use cloudflare-tunnel"),
            PlanError::NoTunnelSelected => owned("cloudflare-tunnel mode requires a tunnel"),
            PlanError::TunnelNotSelected { location, selected, requested, .. } => {
                let mut m = owned("location '");
                put(&mut m, location.as_str());
                put(&mut m, "' selects tunnel '");
                put(&mut m, selected.as_str());
                put(&mut m, "', not '");
                put(&mut m, requested.as_str());
                put(&mut m, "'");
                m
            },
            PlanError::UnknownCloudflareProvider { provider, .. } => {
                let mut m = owned("unknown Cloudflare provider '");
                put(&mut m, provider.as_str());
                put(&mut m, "'");
                m
            },
            PlanError::UnknownCloudflareTunnel { tunnel, .. } => {
                let mut m = owned("unknown Cloudflare tunnel '");
                put(&mut m, tunnel.as_str());
                put(&mut m, "'");
                m
            },
            PlanError::TunnelProviderMismatch { tunnel, provider, location, selected, .. } => {
                let mut m = owned("Cloudflare tunnel '");
                put(&mut m, tunnel.as_str());
                put(&mut m, "' uses provider '");
                put(&mut m, provider.as_str());
                put(&mut m, "', but location '");
                put(&mut m, location.as_str());
                put(&mut m, "' selects '");
                put(&mut m, selected.as_str());
                put(&mut m, "'");
                m
            },
            PlanError::UnknownConnectorHost { host, .. } => {
                let mut m = owned("unknown Cloudflare connector host '");
                put(&mut m, host.as_str());
                put(&mut m, "'");
                m
            },
            PlanError::ConnectorHostDisabled { host, .. } => {
                let mut m = owned("Cloudflare connector host '");
                put(&mut m, host.as_str());
                put(&mut m, "' is disabled");
                m
            },
            PlanError::TunnelWithoutHostnames { tunnel, .. } => {
                let mut m = owned("Cloudflare tunnel '");
                put(&mut m, tunnel.as_str());
                put(&mut m, "' must publish at least one hostname");
                m
            },
            PlanError::HostnameOutsideZone { hostname, zone, .. } => {
                let mut m = owned("Cloudflare hostname '");
                put(&mut m, hostname.as_str());
                put(&mut m, "' is not a subdomain of zone '");
                put(&mut m, zone.as_str());
                put(&mut m, "'");
                m
            },
            PlanError::NoSdnZones { host, .. } => {
                let mut m = owned("host '");
                put(&mut m, host.as_str());
                put(&mut m, "' has no Proxmox SDN zones");
                m
            },
            PlanError::NoSdnVnets { host, .. } => {
                let mut m = owned("host '");
                put(&mut m, host.as_str());
                put(&mut m, "' has no Proxmox SDN VNets");
                m
            },
            PlanError::SdnGatewayOutside { vnet, gateway, cidr, .. } => {
                let mut m = owned("Proxmox SDN VNet '");
                put(&mut m, vnet.as_str());
                put(&mut m, "' gateway ");
                put_ipv4(&mut m, *gateway);
                put(&mut m, " is outside ");
                put_ipv4_cidr(&mut m, *cidr);
                m
            },
            PlanError::SdnDhcpOutside { vnet, start, end, cidr, .. } => {
                let mut m = owned("Proxmox SDN VNet '");
                put(&mut m, vnet.as_str());
                put(&mut m, "' DHCP range ");
                put_ipv4(&mut m, *start);
                put(&mut m, "-");
                put_ipv4(&mut m, *end);
                put(&mut m, " is outside ");
                put_ipv4_cidr(&mut m, *cidr);
                m
            },
            PlanError::SdnDhcpReversed { vnet, start, end, .. } => {
                let mut m = owned("Proxmox SDN VNet '");
                put(&mut m, vnet.as_str());
                put(&mut m, "' DHCP start ");
                put_ipv4(&mut m, *start);
                put(&mut m, " is after end ");
                put_ipv4(&mut m, *end);
                m
            },
            PlanError::SdnGatewayInDhcp { vnet, gateway, .. } => {
                let mut m = owned("Proxmox SDN VNet '");
                put(&mut m, vnet.as_str());
                put(&mut m, "' gateway ");
                put_ipv4(&mut m, *gateway);
                put(&mut m, " overlaps DHCP range");
                m
            },
            PlanError::UnknownSshClient { client, .. } => {
                let mut m = owned("unknown SSH client profile '");
                put(&mut m, client.as_str());
                put(&mut m, "'");
                m
            },
            PlanError::SshTargetKinds { alias, .. } => {
                let mut m = owned("SSH target '");
                put(&mut m, alias.as_str());
                put(&mut m, "' must set exactly one of host, guest, or service");
                m
            },
            PlanError::UnknownSshIdentity { alias, identity, client, .. } => {
                let mut m = owned("SSH target '");
                put(&mut m, alias.as_str());
                put(&mut m, "' references unknown identity '");
                put(&mut m, identity.as_str());
                put(&mut m, "' for client '");
                put(&mut m, client.as_str());
                put(&mut m, "'");
                m
            },
            PlanError::SshUnknownHost { alias, host, .. } => {
                let mut m = owned("SSH target '");
                put(&mut m, alias.as_str());
                put(&mut m, "' references unknown host '");
                put(&mut m, host.as_str());
                put(&mut m, "'");
                m
            },
            PlanError::SshUnknownGuest { alias, guest, .. } => {
                let mut m = owned("SSH target '");
                put(&mut m, alias.as_str());
                put(&mut m, "' references unknown guest '");
                put(&mut m, guest.as_str());
                put(&mut m, "'");
                m
            },
            PlanError::SshUnknownService { alias, service, .. } => {
                let mut m = owned("SSH target '");
                put(&mut m, alias.as_str());
                put(&mut m, "' references unknown service '");
                put(&mut m, service.as_str());
                put(&mut m, "'");
                m
            },
            PlanError::SshServiceWithoutSsh { alias, service, .. } => {
                let mut m = owned("SSH target '");
                put(&mut m, alias.as_str());
                put(&mut m, "' references service '");
                put(&mut m, service.as_str());
                put(&mut m, "' without SSH settings");
                m
            },
            PlanError::HostWithoutAddress { host, location, .. } => {
                let mut m = owned("host '");
                put(&mut m, host.as_str());
                put(&mut m, "' is neither attached to location '");
                put(&mut m, location.as_str());
                put(&mut m, "' nor defined as a guest");
                m
            },
            PlanError::NotADockerHost { host, .. } => {
                let mut m = owned("host '");
                put(&mut m, host.as_str());
                put(&mut m, "' does not have the docker role");
                m
            },
            PlanError::NoDockerProfile { host, .. } => {
                let mut m = owned("host '");
                put(&mut m, host.as_str());
                put(&mut m, "' has no docker.toml profile");
                m
            },
            PlanError::DockerNetworkNoIpv4 { network, .. } => {
                let mut m = owned("Docker network '");
                put(&mut m, network.as_str());
                put(&mut m, "' requires ipv4_cidr");
                m
            },
            PlanError::DockerNetworkNoGateway { network, .. } => {
                let mut m = owned("Docker network '");
                put(&mut m, network.as_str());
                put(&mut m, "' requires ipv4_gateway");
                m
            },
            PlanError::NoGatewayAddress => owned("IPv4 network has no gateway"),
            PlanError::NoDockerNetworks { host, .. } => {
                let mut m = owned("host '");
                put(&mut m, host.as_str());
                put(&mut m, "' has no owned Docker networks");
                m
            },
            PlanError::ServerNotAttached { item, server, location, .. } => {
                let mut m = owned("network mount '");
                put(&mut m, item.as_str());
                put(&mut m, "' server '");
                put(&mut m, server.as_str());
                put(&mut m, "' is not attached at location '");
                put(&mut m, location.as_str());
                put(&mut m, "'");
                m
            },
            PlanError::ServerWithoutIpv4 { item, server, .. } => {
                let mut m = owned("network mount '");
                put(&mut m, item.as_str());
                put(&mut m, "' server '");
                put(&mut m, server.as_str());
                put(&mut m, "' has no IPv4 address");
                m
            },
            PlanError::RelativeMountPath { item, path, .. } => {
                let mut m = owned("network mount '");
                put(&mut m, item.as_str());
                put(&mut m, "' path '");
                put(&mut m, path.as_str());
                put(&mut m, "' must be absolute");
                m
            },
            PlanError::RootMountUnit => owned("refusing to create a systemd mount unit for '/'"),
            PlanError::GuestUnknownParent { guest, parent, .. } => {
                let mut m = owned("guest '");
                put(&mut m, guest.as_str());
                put(&mut m, "' references unknown parent host '");
                put(&mut m, parent.as_str());
                put(&mut m, "'");
                m
            },
            PlanError::GuestAddressOutside { guest, address, segment, cidr, .. } => {
                let mut m = owned("guest '");
                put(&mut m, guest.as_str());
                put(&mut m, "' address ");
                put_ipv4(&mut m, *address);
                put(&mut m, " is outside segment '");
                put(&mut m, segment.as_str());
                put(&mut m, "' (");
                put_ipv4_cidr(&mut m, *cidr);
                put(&mut m, ")");
                m
            },
            PlanError::UnknownNasHost { nas, .. } => {
                let mut m = owned("unknown NAS host '");
                put(&mut m, nas.as_str());
                put(&mut m, "'");
                m
            },
            PlanError::UnknownNasClient { permission, client, location, .. } => {
                let mut m = owned("NAS permission '");
                put(&mut m, permission.as_str());
                put(&mut m, "' client '");
                put(&mut m, client.as_str());
                put(&mut m, "' is neither a host attached at location '");
                put(&mut m, location.as_str());
                put(&mut m, "' nor a configured guest");
                m
            },
        }
    }
}

} // verus!
