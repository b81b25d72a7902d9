use netweft::adapter::registry::RegistryError;
use netweft::adapter::AdapterError;
use netweft::model::id::{DomainName, HostId};
use netweft::model::{DnsRecordKind, TransportProtocol};
use netweft::net::{Ipv4Cidr, Ipv6Cidr};
use netweft::plan::PlanError;
use netweft::validate::ValidationError;

fn v4(text: &str) -> u32 {
    text.split('.').fold(0u32, |acc, part| (acc << 8) | part.parse::<u32>().unwrap())
}

fn s(text: &str) -> String {
    text.to_owned()
}

#[test]
fn plan_errors_name_what_is_involved() {
    assert_eq!(PlanError::UnknownHost { host: s("nexus") }.message(), "unknown host 'nexus'");
    assert_eq!(
        PlanError::RecordOutsideZones { record: s("a.elsewhere.test") }.message(),
        "record 'a.elsewhere.test' does not belong to a configured zone"
    );
    assert_eq!(PlanError::UlaNotAllocated.message(), "ULA is not allocated");
    assert_eq!(
        PlanError::RecordTargetMissing { record: s("www"), kind: DnsRecordKind::Cname }.message(),
        "CNAME target missing"
    );
    let main = Ipv4Cidr { addr: v4("192.168.10.0"), prefix_len: 24 };
    assert_eq!(
        PlanError::GuestAddressOutside { guest: s("app"), address: v4("10.0.0.5"), segment: s("main"), cidr: main }.message(),
        "guest 'app' address 10.0.0.5 is outside segment 'main' (192.168.10.0/24)"
    );
    let root = Ipv6Cidr { addr: 0xfd00u128 << 112, prefix_len: 56 };
    assert_eq!(PlanError::UlaRootNot48 { root }.message(), "ULA root must be /48, got fd00::/56");
    let cidr = Ipv4Cidr { addr: v4("10.20.0.0"), prefix_len: 24 };
    assert_eq!(
        PlanError::SdnDhcpOutside { vnet: s("lab"), start: v4("10.20.1.10"), end: v4("10.20.1.20"), cidr }.message(),
        "Proxmox SDN VNet 'lab' DHCP range 10.20.1.10-10.20.1.20 is outside 10.20.0.0/24"
    );
}

#[test]
fn identifier_errors_name_the_kind_and_value() {
    assert_eq!(HostId::new("nexus.lan").unwrap_err().message(), "invalid host identifier 'nexus.lan'");
    assert_eq!(DomainName::new("bad_domain").unwrap_err().message(), "invalid domain name 'bad_domain'");
    let error = DomainName::new("bad_domain").unwrap_err();
    assert_eq!(PlanError::InvalidIdentifier { error }.message(), "invalid domain name 'bad_domain'");
}

#[test]
fn validation_errors_name_what_is_involved() {
    let cidr = Ipv4Cidr { addr: v4("192.168.10.0"), prefix_len: 24 };
    assert_eq!(
        ValidationError::SegmentGatewayOutside { segment: s("main"), gateway: v4("10.0.0.1"), cidr }.message(),
        "segment 'main' gateway 10.0.0.1 is outside 192.168.10.0/24"
    );
    assert_eq!(
        ValidationError::DnsRecordMissingTarget { record: s("www"), kind: DnsRecordKind::Cname }.message(),
        "DNS CNAME record 'www' requires target"
    );
    assert_eq!(
        ValidationError::DnsRecordMissingTarget { record: s("gw"), kind: DnsRecordKind::SegmentGateway }.message(),
        "DNS gateway record 'gw' requires segment target"
    );
    assert_eq!(
        ValidationError::DuplicateHostPort { host: s("nexus"), port: 443, protocol: TransportProtocol::Tcp }.message(),
        "duplicate host port 443/Tcp on host 'nexus'"
    );
    assert_eq!(
        ValidationError::SchemaVersion { file: s("settings.toml"), version: 2 }.message(),
        "settings.toml uses schema version 2, but this Netweft build supports version 1"
    );
    assert_eq!(
        ValidationError::Plan(PlanError::DnsServiceMissing { service: s("bind") }).message(),
        "DNS service is missing"
    );
}

#[test]
fn adapter_errors_name_the_option_to_give() {
    assert_eq!(AdapterError::TargetHostRequired { adapter: s("ssh") }.message(), "SSH adapter requires --client");
    assert_eq!(AdapterError::TargetHostRequired { adapter: s("docker") }.message(), "Docker adapter requires --host");
    assert_eq!(
        AdapterError::Plan(PlanError::NoHostNetworkProfile { host: s("quasar") }).message(),
        "host 'quasar' has no host network profile"
    );
    assert_eq!(AdapterError::NoGuestsOnHost { host: s("nexus") }.message(), "host 'nexus' has no configured Proxmox guests");
    assert_eq!(
        AdapterError::OutsideRoot { path: s("/other/b"), root: s("/out") }.message(),
        "/other/b is outside /out"
    );
}

#[test]
fn registry_errors_name_the_adapter() {
    assert_eq!(RegistryError::UnknownAdapter { id: s("bogus") }.message(), "unknown adapter 'bogus'");
    assert_eq!(
        RegistryError::AlreadyRegistered { id: s("dns") }.message(),
        "adapter 'dns' is already registered"
    );
}
