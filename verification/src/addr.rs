//! Hardware and protocol addresses.

use vstd::prelude::*;

verus! {

/// A 48-bit Ethernet hardware address, in the order of the wire.
#[derive(Clone, Copy, Debug, PartialEq, Eq)]
pub struct MacAddress {
    pub bytes: [u8; 6],
}

impl MacAddress {
    /// The address made of the first six bytes of `s`.
    pub open spec fn from_seq(s: Seq<u8>) -> MacAddress {
        MacAddress { bytes: [s[0], s[1], s[2], s[3], s[4], s[5]] }
    }

    pub fn new(bytes: [u8; 6]) -> (mac: Self)
        ensures
            mac.bytes == bytes,
    {
        MacAddress { bytes }
    }

    /// The address that every station on a segment listens to.
    pub fn broadcast() -> (mac: Self)
        ensures
            mac.bytes@ == seq![0xffu8, 0xffu8, 0xffu8, 0xffu8, 0xffu8, 0xffu8],
    {
        MacAddress { bytes: [0xff, 0xff, 0xff, 0xff, 0xff, 0xff] }
    }
}

/// An IPv4 address, in the order of the wire.
#[derive(Clone, Copy, Debug, PartialEq, Eq)]
pub struct Ipv4Addr {
    pub octets: [u8; 4],
}

impl Ipv4Addr {
    /// The address made of the first four bytes of `s`.
    pub open spec fn from_seq(s: Seq<u8>) -> Ipv4Addr {
        Ipv4Addr { octets: [s[0], s[1], s[2], s[3]] }
    }

    pub fn new(a: u8, b: u8, c: u8, d: u8) -> (ip: Self)
        ensures
            ip.octets@ == seq![a, b, c, d],
    {
        Ipv4Addr { octets: [a, b, c, d] }
    }
}

} // verus!
