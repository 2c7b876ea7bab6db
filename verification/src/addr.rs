//! Link-layer and protocol addresses.

use vstd::prelude::*;

verus! {

/// A 6-byte link-layer (MAC) address.
#[derive(Clone, Copy, Debug, PartialEq, Eq, Structural, Hash)]
pub struct MacAddr(pub u8, pub u8, pub u8, pub u8, pub u8, pub u8);

impl MacAddr {
    /// The six bytes in transmission order.
    pub open spec fn bytes(self) -> Seq<u8> {
        seq![self.0, self.1, self.2, self.3, self.4, self.5]
    }

    /// The address read from six bytes in transmission order.
    pub open spec fn from_bytes(b: Seq<u8>) -> MacAddr
        recommends
            b.len() == 6,
    {
        MacAddr(b[0], b[1], b[2], b[3], b[4], b[5])
    }

    /// The reserved broadcast address, all bits set.
    pub open spec fn spec_broadcast() -> MacAddr {
        MacAddr(0xff, 0xff, 0xff, 0xff, 0xff, 0xff)
    }

    pub fn new(a: u8, b: u8, c: u8, d: u8, e: u8, f: u8) -> (mac: MacAddr)
        ensures
            mac == MacAddr(a, b, c, d, e, f),
    {
        MacAddr(a, b, c, d, e, f)
    }

    #[verifier::when_used_as_spec(spec_broadcast)]
    pub fn broadcast() -> (mac: MacAddr)
        ensures
            mac == Self::spec_broadcast(),
    {
        MacAddr(0xff, 0xff, 0xff, 0xff, 0xff, 0xff)
    }

    pub fn octets(&self) -> (out: [u8; 6])
        ensures
            out@ == self.bytes(),
    {
        [self.0, self.1, self.2, self.3, self.4, self.5]
    }
}

/// A 4-byte IPv4 protocol address.
#[derive(Clone, Copy, Debug, PartialEq, Eq, Structural, Hash)]
pub struct Ipv4Addr(pub u8, pub u8, pub u8, pub u8);

impl Ipv4Addr {
    /// The four bytes in transmission order.
    pub open spec fn bytes(self) -> Seq<u8> {
        seq![self.0, self.1, self.2, self.3]
    }

    /// The address read from four bytes in transmission order.
    pub open spec fn from_bytes(b: Seq<u8>) -> Ipv4Addr
        recommends
            b.len() == 4,
    {
        Ipv4Addr(b[0], b[1], b[2], b[3])
    }

    pub fn new(a: u8, b: u8, c: u8, d: u8) -> (ip: Ipv4Addr)
        ensures
            ip == Ipv4Addr(a, b, c, d),
    {
        Ipv4Addr(a, b, c, d)
    }

    pub fn octets(&self) -> (out: [u8; 4])
        ensures
            out@ == self.bytes(),
    {
        [self.0, self.1, self.2, self.3]
    }
}

/// A 16-byte IPv6 protocol address, kept whole: nothing here looks inside one.
#[derive(Clone, Copy, Debug, PartialEq, Eq, Structural, Hash)]
pub struct Ipv6Addr(pub u128);

/// A protocol address assigned to an interface.
#[derive(Clone, Copy, Debug, PartialEq, Eq, Structural, Hash)]
pub enum IpAddr {
    V4(Ipv4Addr),
    V6(Ipv6Addr),
}

impl IpAddr {
    pub open spec fn spec_is_ipv4(&self) -> bool {
        self is V4
    }

    #[verifier::when_used_as_spec(spec_is_ipv4)]
    pub fn is_ipv4(&self) -> (yes: bool)
        ensures
            yes == (self is V4),
    {
        match self {
            IpAddr::V4(_) => true,
            IpAddr::V6(_) => false,
        }
    }
}

} // verus!
