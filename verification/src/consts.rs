//! Numbers that the protocols fix, and the two small enumerations that
//! headers carry.

use vstd::prelude::*;

verus! {

/// ARP hardware type of Ethernet.
pub const ARP_HRD_ETHER: u16 = 1;

/// Length of an Ethernet address in an ARP packet.
pub const ARP_ETHADDR_LEN: usize = 6;

/// ARP operation: request.
pub const ARP_OP_REQUEST: u16 = 1;

/// ARP operation: reply.
pub const ARP_OP_REPLY: u16 = 2;

/// First byte of an IPv4 header without options: version 4 in the high
/// nibble, a length of five 32-bit words in the low one.
pub const IP_HEADER_VHL: u8 = 0x45;

/// The first byte of an option-free IPv4 header says version 4 and five
/// words, which are the 20 bytes of the header.
pub proof fn lemma_ip_header_vhl()
    ensures
        IP_HEADER_VHL >> 4 == 4,
        IP_HEADER_VHL & 0x0f == 5,
        (IP_HEADER_VHL & 0x0f) * 4 == 20,
{
    assert(0x45u8 >> 4 == 4 && 0x45u8 & 0x0f == 5) by (bit_vector);
}

/// What an Ethernet frame, or an ARP packet's protocol field, says it
/// carries.
///
/// The numbers are those of the protocol, in host order; a header turns
/// them into big-endian bytes when it is written. On a little-endian
/// machine the same two bytes read as a native `u16` give the swapped
/// number (`0x0008` for IP).
#[derive(Debug, Clone, Copy, Eq, PartialEq, Structural)]
pub enum EthRtype {
    IP,
    ARP,
    Unknown,
}

impl EthRtype {
    /// The 16-bit number of the type. `Unknown` has one of its own, which
    /// no protocol uses, so that every value can be written.
    pub open spec fn code(self) -> u16 {
        match self {
            EthRtype::IP => 0x0800,
            EthRtype::ARP => 0x0806,
            EthRtype::Unknown => 0x0906,
        }
    }

    /// The type that a 16-bit number names: `Unknown` for every number
    /// that is neither IP's nor ARP's.
    pub open spec fn of_code(code: u16) -> EthRtype {
        if code == 0x0800 {
            EthRtype::IP
        } else if code == 0x0806 {
            EthRtype::ARP
        } else {
            EthRtype::Unknown
        }
    }

    pub fn to_wire(self) -> (code: u16)
        ensures
            code == self.code(),
    {
        match self {
            EthRtype::IP => 0x0800,
            EthRtype::ARP => 0x0806,
            EthRtype::Unknown => 0x0906,
        }
    }

    pub fn from_wire(code: u16) -> (rtype: Self)
        ensures
            rtype == Self::of_code(code),
    {
        if code == 0x0800 {
            EthRtype::IP
        } else if code == 0x0806 {
            EthRtype::ARP
        } else {
            EthRtype::Unknown
        }
    }

    /// Writing a type and reading it back gives the type again.
    pub proof fn lemma_code_round_trip(self)
        ensures
            Self::of_code(self.code()) == self,
    {
    }
}

impl Default for EthRtype {
    fn default() -> (rtype: Self)
        ensures
            rtype == EthRtype::Unknown,
    {
        EthRtype::Unknown
    }
}

/// The protocol that an IPv4 packet carries, by its assigned number.
#[derive(Debug, Clone, Copy, Eq, PartialEq, Structural)]
pub enum IpProtocal {
    ICMP,
    IGMP,
    TCP,
    UDP,
    Unknown,
}

impl IpProtocal {
    /// The 8-bit number of the protocol. `Unknown` has one of its own, so
    /// that every value can be written.
    pub open spec fn code(self) -> u8 {
        match self {
            IpProtocal::ICMP => 1,
            IpProtocal::IGMP => 2,
            IpProtocal::TCP => 6,
            IpProtocal::UDP => 17,
            IpProtocal::Unknown => 18,
        }
    }

    /// The protocol that an 8-bit number names: `Unknown` for every number
    /// that is not one of the four.
    pub open spec fn of_code(code: u8) -> IpProtocal {
        if code == 1 {
            IpProtocal::ICMP
        } else if code == 2 {
            IpProtocal::IGMP
        } else if code == 6 {
            IpProtocal::TCP
        } else if code == 17 {
            IpProtocal::UDP
        } else {
            IpProtocal::Unknown
        }
    }

    pub fn to_wire(self) -> (code: u8)
        ensures
            code == self.code(),
    {
        match self {
            IpProtocal::ICMP => 1,
            IpProtocal::IGMP => 2,
            IpProtocal::TCP => 6,
            IpProtocal::UDP => 17,
            IpProtocal::Unknown => 18,
        }
    }

    pub fn from_wire(code: u8) -> (protocol: Self)
        ensures
            protocol == Self::of_code(code),
    {
        if code == 1 {
            IpProtocal::ICMP
        } else if code == 2 {
            IpProtocal::IGMP
        } else if code == 6 {
            IpProtocal::TCP
        } else if code == 17 {
            IpProtocal::UDP
        } else {
            IpProtocal::Unknown
        }
    }

    /// Writing a protocol and reading it back gives the protocol again.
    pub proof fn lemma_code_round_trip(self)
        ensures
            Self::of_code(self.code()) == self,
    {
    }
}

impl Default for IpProtocal {
    fn default() -> (protocol: Self)
        ensures
            protocol == IpProtocal::Unknown,
    {
        IpProtocal::Unknown
    }
}

} // verus!
