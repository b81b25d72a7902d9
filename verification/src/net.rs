//! IPv4/IPv6 addresses and networks as plain values.
//!
//! An IPv4 address is its `u32` value and an IPv6 address its `u128` value.
//! Networks keep the address they were written with together with the prefix
//! length, as `ipnet` does; the network and broadcast addresses are derived.

use vstd::prelude::*;

use crate::text::{concat, decimal, decimal_text, push_char, put_decimal};

verus! {

/// An IPv4 network: an address and a prefix length of at most 32.
#[derive(Clone, Copy, Debug, PartialEq, Eq, Hash)]
pub struct Ipv4Cidr {
    pub addr: u32,
    pub prefix_len: u8,
}

/// An IPv6 network: an address and a prefix length of at most 128.
#[derive(Clone, Copy, Debug, PartialEq, Eq, Hash)]
pub struct Ipv6Cidr {
    pub addr: u128,
    pub prefix_len: u8,
}

impl Ipv4Cidr {
    pub open spec fn wf(self) -> bool {
        self.prefix_len <= 32
    }
}

impl Ipv6Cidr {
    pub open spec fn wf(self) -> bool {
        self.prefix_len <= 128
    }
}

/// The netmask of an IPv4 prefix length.
pub open spec fn v4_mask(len: u8) -> u32 {
    if len == 0 {
        0
    } else {
        (0xffff_ffffu32 << ((32 - len) as u32)) as u32
    }
}

/// The netmask of an IPv6 prefix length.
pub open spec fn v6_mask(len: u8) -> u128 {
    if len == 0 {
        0
    } else {
        (0xffff_ffff_ffff_ffff_ffff_ffff_ffff_ffffu128 << ((128 - len) as u128)) as u128
    }
}

pub open spec fn v4_network(c: Ipv4Cidr) -> u32 {
    c.addr & v4_mask(c.prefix_len)
}

pub open spec fn v4_broadcast(c: Ipv4Cidr) -> u32 {
    c.addr | !v4_mask(c.prefix_len)
}

pub open spec fn v6_network(c: Ipv6Cidr) -> u128 {
    c.addr & v6_mask(c.prefix_len)
}

/// `x` lies between the network and broadcast addresses of `c`.
pub open spec fn v4_contains(c: Ipv4Cidr, x: u32) -> bool {
    v4_network(c) <= x && x <= v4_broadcast(c)
}

/// Whether an IPv4 network contains an address: `ipnet::Ipv4Net::contains`
/// applied to the `/32` network of `x`, which holds when the network address
/// of `c` is at or below `x` and its broadcast address at or above it.
#[verifier::external_body]
pub(crate) fn ipv4_contains(c: Ipv4Cidr, x: u32) -> (r: bool)
    requires
        c.wf(),
    ensures
        r == v4_contains(c, x),
{
    let net = ipnet::Ipv4Net::new(c.addr.into(), c.prefix_len).unwrap();
    let probe = ipnet::Ipv4Net::new(x.into(), 32).unwrap();
    net.contains(&probe)
}

/// The network address of an IPv4 network (`ipnet::Ipv4Net::network`: the
/// address masked with the netmask).
#[verifier::external_body]
pub(crate) fn ipv4_network(c: Ipv4Cidr) -> (r: u32)
    requires
        c.wf(),
    ensures
        r == v4_network(c),
{
    let net = ipnet::Ipv4Net::new(c.addr.into(), c.prefix_len).unwrap();
    u32::from(net.network())
}

/// The network address of an IPv6 network (`ipnet::Ipv6Net::network`: the
/// address masked with the netmask).
#[verifier::external_body]
pub(crate) fn ipv6_network(c: Ipv6Cidr) -> (r: u128)
    requires
        c.wf(),
    ensures
        r == v6_network(c),
{
    let net = ipnet::Ipv6Net::new(c.addr.into(), c.prefix_len).unwrap();
    u128::from(net.network())
}

/// Dotted-decimal text of an IPv4 address, as std's `Ipv4Addr` displays it.
pub open spec fn ipv4_display(a: u32) -> Seq<char> {
    decimal(((a >> 24u32) & 0xffu32) as nat) + seq!['.'] + decimal(((a >> 16u32) & 0xffu32) as nat)
        + seq!['.'] + decimal(((a >> 8u32) & 0xffu32) as nat) + seq!['.'] + decimal(
        (a & 0xffu32) as nat,
    )
}

/// The text std's `Ipv6Addr` displays for an address (RFC 5952 form).
pub uninterp spec fn ipv6_display(a: u128) -> Seq<char>;

/// Text of an IPv4 network: address, `/`, prefix length.
pub open spec fn ipv4_cidr_display(c: Ipv4Cidr) -> Seq<char> {
    ipv4_display(c.addr) + seq!['/'] + decimal(c.prefix_len as nat)
}

/// Text of an IPv6 network: address, `/`, prefix length.
pub open spec fn ipv6_cidr_display(c: Ipv6Cidr) -> Seq<char> {
    ipv6_display(c.addr) + seq!['/'] + decimal(c.prefix_len as nat)
}

/// Dotted-decimal text of an IPv4 address.
pub fn ipv4_text(a: u32) -> (r: String)
    ensures
        r@ == ipv4_display(a),
{
    let o1: u32 = (a >> 24u32) & 0xffu32;
    let o2: u32 = (a >> 16u32) & 0xffu32;
    let o3: u32 = (a >> 8u32) & 0xffu32;
    let o4: u32 = a & 0xffu32;
    let mut s = decimal_text(o1 as u64);
    push_char(&mut s, '.');
    let t2 = decimal_text(o2 as u64);
    s.append(t2.as_str());
    push_char(&mut s, '.');
    let t3 = decimal_text(o3 as u64);
    s.append(t3.as_str());
    push_char(&mut s, '.');
    let t4 = decimal_text(o4 as u64);
    s.append(t4.as_str());
    proof {
        assert(s@ =~= ipv4_display(a));
    }
    s
}

/// Appends the dotted-decimal text of `a` to `m`.
pub fn put_ipv4(m: &mut String, a: u32)
    ensures
        final(m)@ == old(m)@ + ipv4_display(a),
{
    let t = ipv4_text(a);
    m.append(t.as_str());
}

/// Appends the text of network `c` (address, `/`, prefix length) to `m`.
pub fn put_ipv4_cidr(m: &mut String, c: Ipv4Cidr)
    ensures
        final(m)@ == old(m)@ + ipv4_cidr_display(c),
{
    let ghost before = m@;
    put_ipv4(m, c.addr);
    push_char(m, '/');
    put_decimal(m, c.prefix_len as u64);
    assert(m@ =~= before + ipv4_cidr_display(c));
}

/// Appends the text of network `c` (address, `/`, prefix length) to `m`.
pub fn put_ipv6_cidr(m: &mut String, c: Ipv6Cidr)
    ensures
        final(m)@ == old(m)@ + ipv6_cidr_display(c),
{
    let ghost before = m@;
    let t = ipv6_text(c.addr);
    m.append(t.as_str());
    push_char(m, '/');
    put_decimal(m, c.prefix_len as u64);
    assert(m@ =~= before + ipv6_cidr_display(c));
}

/// Text of an IPv6 address: the address of a `/128` `ipnet::Ipv6Net`, shown
/// with std's `Display` for IPv6 addresses.
#[verifier::external_body]
pub(crate) fn ipv6_text(a: u128) -> (r: String)
    ensures
        r@ == ipv6_display(a),
{
    ipnet::Ipv6Net::new(a.into(), 128).unwrap().addr().to_string()
}

/// Text of an IPv4 network (ipnet's `Display`: `{addr}/{prefix_len}`).
#[verifier::external_body]
pub(crate) fn ipv4_cidr_text(c: Ipv4Cidr) -> (r: String)
    requires
        c.wf(),
    ensures
        r@ == ipv4_cidr_display(c),
{
    let net = ipnet::Ipv4Net::new(c.addr.into(), c.prefix_len).unwrap();
    format!("{}", net)
}

/// Text of an IPv6 network (ipnet's `Display`: `{addr}/{prefix_len}`).
#[verifier::external_body]
pub(crate) fn ipv6_cidr_text(c: Ipv6Cidr) -> (r: String)
    requires
        c.wf(),
    ensures
        r@ == ipv6_cidr_display(c),
{
    let net = ipnet::Ipv6Net::new(c.addr.into(), c.prefix_len).unwrap();
    format!("{}", net)
}

} // verus!
