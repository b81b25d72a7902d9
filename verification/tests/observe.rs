use netweft::observe::{HostObservation, InterfaceObservation, IpAddress, ObservationSet};

fn s(text: &str) -> String {
    text.to_owned()
}

fn host(address: u32) -> HostObservation {
    HostObservation {
        addresses: vec![IpAddress::V4(address)],
        interfaces: vec![(
            s("eth0"),
            InterfaceObservation { addresses: vec![IpAddress::V4(address)], mac_address: None, default_route: true },
        )],
        attributes: Vec::new(),
    }
}

#[test]
fn empty_observations_hold_nothing() {
    let set = ObservationSet::empty();
    assert!(set.hosts.is_empty());
    assert!(set.metadata.is_empty());
}

#[test]
fn merged_observations_replace_earlier_ones() {
    let mut set = ObservationSet::empty();
    set.hosts = vec![(s("alpha"), host(1)), (s("gamma"), host(3))];
    set.metadata = vec![(s("source"), s("arp"))];
    let mut newer = ObservationSet::empty();
    newer.hosts = vec![(s("beta"), host(2)), (s("gamma"), host(30))];
    newer.metadata = vec![(s("source"), s("lldp")), (s("when"), s("now"))];
    set.merge(newer);

    let names: Vec<&str> = set.hosts.iter().map(|(name, _)| name.as_str()).collect();
    assert_eq!(names, vec!["alpha", "beta", "gamma"]);
    assert_eq!(set.hosts[2].1.addresses, vec![IpAddress::V4(30)]);
    assert_eq!(set.hosts[0].1.addresses, vec![IpAddress::V4(1)]);
    assert_eq!(set.metadata, vec![(s("source"), s("lldp")), (s("when"), s("now"))]);
}
