use netweft::model::id::{CertificateId, DomainName, HostId, IdKind, ProxyId, ServiceId};

#[test]
fn identifiers_reject_ambiguous_values() {
    assert!(ProxyId::new("edge-proxy").is_ok());
    assert!(ProxyId::new("edge proxy").is_err());
    assert!(CertificateId::new("").is_err());
}

#[test]
fn domains_are_normalized_and_validated() {
    assert_eq!(
        DomainName::new("Jellyfin.Suhail.Ink.").unwrap().as_str(),
        "jellyfin.suhail.ink"
    );
    assert!(DomainName::new("bad_domain.suhail.ink").is_err());
}

#[test]
fn identifiers_keep_their_text() {
    assert_eq!(HostId::new("nexus_01").unwrap().as_str(), "nexus_01");
    assert_eq!(ServiceId::new("a-b_c9").unwrap().as_str(), "a-b_c9");
    let error = HostId::new("nexus.lan").unwrap_err();
    assert_eq!(error.kind, IdKind::Host);
    assert_eq!(error.value, "nexus.lan");
}

#[test]
fn wildcard_domains_are_accepted() {
    assert_eq!(DomainName::new("*.Suhail.Ink").unwrap().as_str(), "*.suhail.ink");
    assert!(DomainName::new("*.").is_err());
    assert!(DomainName::new("a.*.b").is_err());
}

#[test]
fn domain_labels_are_checked() {
    assert!(DomainName::new("-bad.example").is_err());
    assert!(DomainName::new("bad-.example").is_err());
    assert!(DomainName::new("a..b").is_err());
    assert!(DomainName::new("...").is_err());
    assert!(DomainName::new("").is_err());
    let long_label = "a".repeat(63);
    assert!(DomainName::new(&format!("{long_label}.example")).is_ok());
    let too_long_label = "a".repeat(64);
    assert!(DomainName::new(&format!("{too_long_label}.example")).is_err());
    let long_name = format!("{}.{}.{}.{}", "a".repeat(63), "b".repeat(63), "c".repeat(63), "d".repeat(61));
    assert_eq!(long_name.len(), 253);
    assert!(DomainName::new(&long_name).is_ok());
    let too_long_name = format!("{}.{}.{}.{}", "a".repeat(63), "b".repeat(63), "c".repeat(63), "d".repeat(62));
    assert!(DomainName::new(&too_long_name).is_err());
    let error = DomainName::new("bad_domain").unwrap_err();
    assert_eq!(error.kind, IdKind::Domain);
}

#[test]
fn domain_names_ignore_case_and_trailing_dots() {
    let plain = DomainName::new("example.com").unwrap();
    let shouted = DomainName::new("Example.COM..").unwrap();
    assert_eq!(shouted.as_str(), plain.as_str());
    let again = DomainName::new(plain.as_str()).unwrap();
    assert_eq!(again.as_str(), "example.com");
}
