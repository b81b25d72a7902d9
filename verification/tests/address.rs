use netweft::net::{ipv4_text, Ipv6Cidr};
use netweft::plan::address::{interface_address, ula_subnet};

fn v6(text: &str) -> u128 {
    let groups = |part: &str| -> Vec<u128> {
        if part.is_empty() {
            Vec::new()
        } else {
            part.split(':').map(|g| u128::from_str_radix(g, 16).unwrap()).collect()
        }
    };
    let (head, tail) = match text.split_once("::") {
        Some((h, t)) => (groups(h), groups(t)),
        None => (groups(text), Vec::new()),
    };
    let mut all = head.clone();
    all.extend(std::iter::repeat(0).take(8 - head.len() - tail.len()));
    all.extend(tail);
    all.iter().fold(0u128, |acc, g| (acc << 16) | g)
}

#[test]
fn derives_subnet_and_interface_address() {
    let root = Ipv6Cidr { addr: v6("fd12:3456:789a::"), prefix_len: 48 };
    let subnet = ula_subnet(root, 0x121).unwrap();

    assert_eq!(subnet, Ipv6Cidr { addr: v6("fd12:3456:789a:121::"), prefix_len: 64 });
    assert_eq!(interface_address(subnet, "2929").unwrap(), v6("fd12:3456:789a:121::2929"));
}

#[test]
fn ula_derivation_requires_a_48_and_a_64() {
    let root = Ipv6Cidr { addr: v6("fd12:3456:789a::"), prefix_len: 56 };
    assert!(ula_subnet(root, 1).is_err());
    let subnet = Ipv6Cidr { addr: v6("fd12:3456:789a:1::"), prefix_len: 48 };
    assert!(interface_address(subnet, "1").is_err());
}

#[test]
fn interface_ids_ignore_colons_and_reject_non_hex() {
    let subnet = Ipv6Cidr { addr: v6("fd00:0:0:7::"), prefix_len: 64 };
    assert_eq!(interface_address(subnet, "a:b").unwrap(), v6("fd00:0:0:7::ab"));
    assert!(interface_address(subnet, "xyz").is_err());
    assert!(interface_address(subnet, "1:0000:0000:0000:0000").is_err());
}

#[test]
fn ula_subnet_keeps_host_bits_out() {
    let root = Ipv6Cidr { addr: v6("fd12:3456:789a:ffff::1"), prefix_len: 48 };
    let subnet = ula_subnet(root, 2).unwrap();
    assert_eq!(subnet, Ipv6Cidr { addr: v6("fd12:3456:789a:2::"), prefix_len: 64 });
}

#[test]
fn ipv4_addresses_display_in_dotted_quads() {
    assert_eq!(ipv4_text(0x0a4e_1d1d), "10.78.29.29");
    assert_eq!(ipv4_text(0), "0.0.0.0");
    assert_eq!(ipv4_text(u32::MAX), "255.255.255.255");
}
