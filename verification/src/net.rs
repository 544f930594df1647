//! The headers of Ethernet, ARP, IPv4, UDP, TCP and ICMP, each with the
//! bytes it takes on the wire.
//!
//! A header is plain data in host order. `encode` lays it out byte by
//! byte and `decode` reads it back, so the layout does not depend on how
//! the compiler arranges a struct or on the byte order of the machine.

use crate::addr::{Ipv4Addr, MacAddress};
use crate::checksum::{internet_checksum, lemma_checksum_self_verifies, with_field};
use crate::consts::{EthRtype, IpProtocal};
use crate::flags::{TcpFlags, TCP_FLAG_MASK};
use crate::wire::{
    be16, be16_bytes, be32, be32_bytes, canonical, get_ip, get_mac, get_u16, get_u32,
    lemma_be16_bytes_of, lemma_be16_of_bytes, lemma_be32_bytes_of, lemma_be32_of_bytes, put_ip,
    put_mac, put_u16, put_u32, Header,
};
use vstd::prelude::*;

verus! {

/// Length of an Ethernet header.
pub const ETH_LEN: usize = 14;

/// Length of an ARP packet for Ethernet and IPv4.
pub const ARP_LEN: usize = 28;

/// Length of an IPv4 header without options.
pub const IP_LEN: usize = 20;

/// Length of a UDP header.
pub const UDP_LEN: usize = 8;

/// Length of a TCP header without options.
pub const TCP_LEN: usize = 20;

/// Length of an ICMP echo header.
pub const ICMP_LEN: usize = 8;

/// Every header takes exactly the bytes that its protocol gives it,
/// whatever it holds: 14 for Ethernet, 28 for ARP, 20 for IPv4, 8 for UDP,
/// 20 for TCP and 8 for ICMP.
pub proof fn lemma_wire_sizes(eth: Eth, arp: Arp, ip: Ip, udp: UDP, tcp: TCP, icmp: ICMP)
    ensures
        eth.wire().len() == 14 && ETH_LEN == 14,
        arp.wire().len() == 28 && ARP_LEN == 28,
        ip.wire().len() == 20 && IP_LEN == 20,
        udp.wire().len() == 8 && UDP_LEN == 8,
        tcp.wire().len() == 20 && TCP_LEN == 20,
        icmp.wire().len() == 8 && ICMP_LEN == 8,
{
}

/// Ethernet header.
#[derive(Debug, Clone, Copy, PartialEq, Eq)]
pub struct Eth {
    /// Destination host.
    pub dhost: MacAddress,
    /// Source host.
    pub shost: MacAddress,
    /// What the frame carries.
    pub rtype: EthRtype,
}

impl Header for Eth {
    open spec fn wire_len() -> nat {
        14
    }

    open spec fn valid(&self) -> bool {
        true
    }

    open spec fn wire(&self) -> Seq<u8> {
        self.dhost.bytes@ + self.shost.bytes@ + be16_bytes(self.rtype.code())
    }

    open spec fn parse(bytes: Seq<u8>) -> Self {
        Eth {
            dhost: MacAddress::from_seq(bytes),
            shost: MacAddress::from_seq(bytes.skip(6)),
            rtype: EthRtype::of_code(be16(bytes[12], bytes[13])),
        }
    }

    fn size() -> (n: usize) {
        ETH_LEN
    }

    fn decode(bytes: &[u8]) -> (out: Option<Self>) {
        if bytes.len() < ETH_LEN {
            return None;
        }
        Some(
            Eth {
                dhost: get_mac(bytes, 0),
                shost: get_mac(bytes, 6),
                rtype: EthRtype::from_wire(get_u16(bytes, 12)),
            },
        )
    }

    fn encode(&self, out: &mut [u8]) -> (done: bool) {
        if out.len() < ETH_LEN {
            return false;
        }
        put_mac(out, 0, &self.dhost);
        put_mac(out, 6, &self.shost);
        put_u16(out, 12, self.rtype.to_wire());
        assert(out@ =~= self.wire() + old(out)@.skip(14));
        true
    }

    proof fn lemma_wire_len(&self) {
    }

    proof fn lemma_parse_front(bytes: Seq<u8>) {
        let front = bytes.take(14);
        assert(MacAddress::from_seq(bytes).bytes =~= MacAddress::from_seq(front).bytes);
        assert(MacAddress::from_seq(bytes.skip(6)).bytes =~= MacAddress::from_seq(
            front.skip(6),
        ).bytes);
    }

    proof fn lemma_parse_wire(&self) {
        let w = self.wire();
        lemma_be16_of_bytes(self.rtype.code());
        assert(MacAddress::from_seq(w).bytes =~= self.dhost.bytes);
        assert(MacAddress::from_seq(w.skip(6)).bytes =~= self.shost.bytes);
    }
}

impl Eth {
    /// Bytes of the right length are exactly an Ethernet header's when
    /// their type field holds the number of one of the three types.
    pub proof fn lemma_canonical(bytes: Seq<u8>)
        requires
            bytes.len() == 14,
        ensures
            canonical::<Eth>(bytes) <==> EthRtype::of_code(be16(bytes[12], bytes[13])).code()
                == be16(bytes[12], bytes[13]),
    {
        let h = Eth::parse(bytes);
        let code = be16(bytes[12], bytes[13]);
        lemma_be16_bytes_of(bytes[12], bytes[13]);
        lemma_be16_of_bytes(h.rtype.code());
        if h.rtype.code() == code {
            assert(h.wire() =~= bytes);
        } else {
            assert(be16(h.wire()[12], h.wire()[13]) == h.rtype.code());
        }
    }
}

/// ARP packet for IPv4 over Ethernet.
#[derive(Debug, Clone, Copy, PartialEq, Eq)]
pub struct Arp {
    /// Hardware type.
    pub httype: u16,
    /// Protocol type: the Ethernet type of the protocol whose addresses are
    /// resolved.
    pub pttype: EthRtype,
    /// Length of a hardware address: 6 for Ethernet.
    pub hlen: u8,
    /// Length of a protocol address: 4 for IPv4.
    pub plen: u8,
    /// Operation: 1 for a request, 2 for a reply.
    pub op: u16,
    /// Sender hardware address.
    pub sha: MacAddress,
    /// Sender protocol address.
    pub spa: Ipv4Addr,
    /// Target hardware address.
    pub tha: MacAddress,
    /// Target protocol address.
    pub tpa: Ipv4Addr,
}

impl Header for Arp {
    open spec fn wire_len() -> nat {
        28
    }

    open spec fn valid(&self) -> bool {
        true
    }

    open spec fn wire(&self) -> Seq<u8> {
        be16_bytes(self.httype) + be16_bytes(self.pttype.code()) + seq![self.hlen, self.plen]
            + be16_bytes(self.op) + self.sha.bytes@ + self.spa.octets@ + self.tha.bytes@
            + self.tpa.octets@
    }

    open spec fn parse(bytes: Seq<u8>) -> Self {
        Arp {
            httype: be16(bytes[0], bytes[1]),
            pttype: EthRtype::of_code(be16(bytes[2], bytes[3])),
            hlen: bytes[4],
            plen: bytes[5],
            op: be16(bytes[6], bytes[7]),
            sha: MacAddress::from_seq(bytes.skip(8)),
            spa: Ipv4Addr::from_seq(bytes.skip(14)),
            tha: MacAddress::from_seq(bytes.skip(18)),
            tpa: Ipv4Addr::from_seq(bytes.skip(24)),
        }
    }

    fn size() -> (n: usize) {
        ARP_LEN
    }

    fn decode(bytes: &[u8]) -> (out: Option<Self>) {
        if bytes.len() < ARP_LEN {
            return None;
        }
        Some(
            Arp {
                httype: get_u16(bytes, 0),
                pttype: EthRtype::from_wire(get_u16(bytes, 2)),
                hlen: bytes[4],
                plen: bytes[5],
                op: get_u16(bytes, 6),
                sha: get_mac(bytes, 8),
                spa: get_ip(bytes, 14),
                tha: get_mac(bytes, 18),
                tpa: get_ip(bytes, 24),
            },
        )
    }

    fn encode(&self, out: &mut [u8]) -> (done: bool) {
        if out.len() < ARP_LEN {
            return false;
        }
        put_u16(out, 0, self.httype);
        put_u16(out, 2, self.pttype.to_wire());
        out[4] = self.hlen;
        out[5] = self.plen;
        put_u16(out, 6, self.op);
        put_mac(out, 8, &self.sha);
        put_ip(out, 14, &self.spa);
        put_mac(out, 18, &self.tha);
        put_ip(out, 24, &self.tpa);
        assert(out@ =~= self.wire() + old(out)@.skip(28));
        true
    }

    proof fn lemma_wire_len(&self) {
    }

    proof fn lemma_parse_front(bytes: Seq<u8>) {
        let front = bytes.take(28);
        assert(MacAddress::from_seq(bytes.skip(8)).bytes =~= MacAddress::from_seq(
            front.skip(8),
        ).bytes);
        assert(Ipv4Addr::from_seq(bytes.skip(14)).octets =~= Ipv4Addr::from_seq(
            front.skip(14),
        ).octets);
        assert(MacAddress::from_seq(bytes.skip(18)).bytes =~= MacAddress::from_seq(
            front.skip(18),
        ).bytes);
        assert(Ipv4Addr::from_seq(bytes.skip(24)).octets =~= Ipv4Addr::from_seq(
            front.skip(24),
        ).octets);
    }

    proof fn lemma_parse_wire(&self) {
        let w = self.wire();
        lemma_be16_of_bytes(self.httype);
        lemma_be16_of_bytes(self.pttype.code());
        lemma_be16_of_bytes(self.op);
        assert(MacAddress::from_seq(w.skip(8)).bytes =~= self.sha.bytes);
        assert(Ipv4Addr::from_seq(w.skip(14)).octets =~= self.spa.octets);
        assert(MacAddress::from_seq(w.skip(18)).bytes =~= self.tha.bytes);
        assert(Ipv4Addr::from_seq(w.skip(24)).octets =~= self.tpa.octets);
    }
}

impl Arp {
    /// Bytes of the right length are exactly an ARP packet's when their
    /// protocol type field holds the number of one of the three types.
    pub proof fn lemma_canonical(bytes: Seq<u8>)
        requires
            bytes.len() == 28,
        ensures
            canonical::<Arp>(bytes) <==> EthRtype::of_code(be16(bytes[2], bytes[3])).code()
                == be16(bytes[2], bytes[3]),
    {
        let h = Arp::parse(bytes);
        let code = be16(bytes[2], bytes[3]);
        lemma_be16_bytes_of(bytes[0], bytes[1]);
        lemma_be16_bytes_of(bytes[2], bytes[3]);
        lemma_be16_bytes_of(bytes[6], bytes[7]);
        lemma_be16_of_bytes(h.pttype.code());
        if h.pttype.code() == code {
            assert(h.wire() =~= bytes);
        } else {
            assert(be16(h.wire()[2], h.wire()[3]) == h.pttype.code());
        }
    }
}

/// IPv4 header without options.
#[derive(Debug, Clone, Copy, PartialEq, Eq)]
pub struct Ip {
    /// Version in the high nibble, header length in 32-bit words in the low
    /// one.
    pub vhl: u8,
    /// Type of service.
    pub tos: u8,
    /// Total length of the packet, header included.
    pub len: u16,
    /// Identification, shared by the fragments of one packet.
    pub id: u16,
    /// Fragment flags and offset.
    pub off: u16,
    /// Time to live.
    pub ttl: u8,
    /// Protocol of the payload.
    pub pro: IpProtocal,
    /// Header checksum.
    pub sum: u16,
    /// Source address.
    pub src: Ipv4Addr,
    /// Destination address.
    pub dst: Ipv4Addr,
}

impl Header for Ip {
    open spec fn wire_len() -> nat {
        20
    }

    open spec fn valid(&self) -> bool {
        true
    }

    open spec fn wire(&self) -> Seq<u8> {
        seq![self.vhl, self.tos] + be16_bytes(self.len) + be16_bytes(self.id) + be16_bytes(
            self.off,
        ) + seq![self.ttl, self.pro.code()] + be16_bytes(self.sum) + self.src.octets@
            + self.dst.octets@
    }

    open spec fn parse(bytes: Seq<u8>) -> Self {
        Ip {
            vhl: bytes[0],
            tos: bytes[1],
            len: be16(bytes[2], bytes[3]),
            id: be16(bytes[4], bytes[5]),
            off: be16(bytes[6], bytes[7]),
            ttl: bytes[8],
            pro: IpProtocal::of_code(bytes[9]),
            sum: be16(bytes[10], bytes[11]),
            src: Ipv4Addr::from_seq(bytes.skip(12)),
            dst: Ipv4Addr::from_seq(bytes.skip(16)),
        }
    }

    fn size() -> (n: usize) {
        IP_LEN
    }

    fn decode(bytes: &[u8]) -> (out: Option<Self>) {
        if bytes.len() < IP_LEN {
            return None;
        }
        Some(
            Ip {
                vhl: bytes[0],
                tos: bytes[1],
                len: get_u16(bytes, 2),
                id: get_u16(bytes, 4),
                off: get_u16(bytes, 6),
                ttl: bytes[8],
                pro: IpProtocal::from_wire(bytes[9]),
                sum: get_u16(bytes, 10),
                src: get_ip(bytes, 12),
                dst: get_ip(bytes, 16),
            },
        )
    }

    fn encode(&self, out: &mut [u8]) -> (done: bool) {
        if out.len() < IP_LEN {
            return false;
        }
        out[0] = self.vhl;
        out[1] = self.tos;
        put_u16(out, 2, self.len);
        put_u16(out, 4, self.id);
        put_u16(out, 6, self.off);
        out[8] = self.ttl;
        out[9] = self.pro.to_wire();
        put_u16(out, 10, self.sum);
        put_ip(out, 12, &self.src);
        put_ip(out, 16, &self.dst);
        assert(out@ =~= self.wire() + old(out)@.skip(20));
        true
    }

    proof fn lemma_wire_len(&self) {
    }

    proof fn lemma_parse_front(bytes: Seq<u8>) {
        let front = bytes.take(20);
        assert(Ipv4Addr::from_seq(bytes.skip(12)).octets =~= Ipv4Addr::from_seq(
            front.skip(12),
        ).octets);
        assert(Ipv4Addr::from_seq(bytes.skip(16)).octets =~= Ipv4Addr::from_seq(
            front.skip(16),
        ).octets);
    }

    proof fn lemma_parse_wire(&self) {
        let w = self.wire();
        lemma_be16_of_bytes(self.len);
        lemma_be16_of_bytes(self.id);
        lemma_be16_of_bytes(self.off);
        lemma_be16_of_bytes(self.sum);
        assert(Ipv4Addr::from_seq(w.skip(12)).octets =~= self.src.octets);
        assert(Ipv4Addr::from_seq(w.skip(16)).octets =~= self.dst.octets);
    }
}

impl Ip {
    /// An IPv4 header that carries the checksum of itself verifies: compute
    /// the checksum of the header with a zero checksum field, and of whatever
    /// follows it, store it in the field, and the checksum of the result is
    /// zero.
    pub proof fn lemma_checksum_verifies(self, payload: Seq<u8>, seed: u32)
        ensures
            ({
                let blank = Ip { sum: 0, ..self };
                let sum = internet_checksum(blank.wire() + payload, seed);
                internet_checksum((Ip { sum, ..self }).wire() + payload, seed) == 0
            }),
    {
        let blank = Ip { sum: 0, ..self };
        let bytes = blank.wire() + payload;
        let sum = internet_checksum(bytes, seed);
        let filled = Ip { sum, ..self };
        lemma_be16_of_bytes(0);
        lemma_be16_of_bytes(sum);
        assert(bytes[10] == be16_bytes(0)[0] && bytes[11] == be16_bytes(0)[1]);
        assert(with_field(bytes, 10, sum) =~= filled.wire() + payload);
        lemma_checksum_self_verifies(bytes, 10, seed);
    }

    /// Bytes of the right length are exactly an IPv4 header's when their
    /// protocol field holds the number of one of the five protocols.
    pub proof fn lemma_canonical(bytes: Seq<u8>)
        requires
            bytes.len() == 20,
        ensures
            canonical::<Ip>(bytes) <==> IpProtocal::of_code(bytes[9]).code() == bytes[9],
    {
        let h = Ip::parse(bytes);
        lemma_be16_bytes_of(bytes[2], bytes[3]);
        lemma_be16_bytes_of(bytes[4], bytes[5]);
        lemma_be16_bytes_of(bytes[6], bytes[7]);
        lemma_be16_bytes_of(bytes[10], bytes[11]);
        if h.pro.code() == bytes[9] {
            assert(h.wire() =~= bytes);
        } else {
            assert(h.wire()[9] == h.pro.code());
        }
    }
}

/// UDP header.
#[derive(Debug, Clone, Copy, PartialEq, Eq)]
pub struct UDP {
    /// Source port.
    pub sport: u16,
    /// Destination port.
    pub dport: u16,
    /// Length of header and payload.
    pub ulen: u16,
    /// Checksum.
    pub sum: u16,
}

impl Header for UDP {
    open spec fn wire_len() -> nat {
        8
    }

    open spec fn valid(&self) -> bool {
        true
    }

    open spec fn wire(&self) -> Seq<u8> {
        be16_bytes(self.sport) + be16_bytes(self.dport) + be16_bytes(self.ulen) + be16_bytes(
            self.sum,
        )
    }

    open spec fn parse(bytes: Seq<u8>) -> Self {
        UDP {
            sport: be16(bytes[0], bytes[1]),
            dport: be16(bytes[2], bytes[3]),
            ulen: be16(bytes[4], bytes[5]),
            sum: be16(bytes[6], bytes[7]),
        }
    }

    fn size() -> (n: usize) {
        UDP_LEN
    }

    fn decode(bytes: &[u8]) -> (out: Option<Self>) {
        if bytes.len() < UDP_LEN {
            return None;
        }
        Some(
            UDP {
                sport: get_u16(bytes, 0),
                dport: get_u16(bytes, 2),
                ulen: get_u16(bytes, 4),
                sum: get_u16(bytes, 6),
            },
        )
    }

    fn encode(&self, out: &mut [u8]) -> (done: bool) {
        if out.len() < UDP_LEN {
            return false;
        }
        put_u16(out, 0, self.sport);
        put_u16(out, 2, self.dport);
        put_u16(out, 4, self.ulen);
        put_u16(out, 6, self.sum);
        assert(out@ =~= self.wire() + old(out)@.skip(8));
        true
    }

    proof fn lemma_wire_len(&self) {
    }

    proof fn lemma_parse_front(bytes: Seq<u8>) {
    }

    proof fn lemma_parse_wire(&self) {
        lemma_be16_of_bytes(self.sport);
        lemma_be16_of_bytes(self.dport);
        lemma_be16_of_bytes(self.ulen);
        lemma_be16_of_bytes(self.sum);
    }
}

impl UDP {
    /// A UDP datagram that carries its checksum verifies: compute the
    /// checksum of header and payload with a zero checksum field, seeded with
    /// the sum of the pseudo-header, store it in the field, and the checksum
    /// of the result, from the same seed, is zero.
    pub proof fn lemma_checksum_verifies(self, payload: Seq<u8>, seed: u32)
        ensures
            ({
                let blank = UDP { sum: 0, ..self };
                let sum = internet_checksum(blank.wire() + payload, seed);
                internet_checksum((UDP { sum, ..self }).wire() + payload, seed) == 0
            }),
    {
        let blank = UDP { sum: 0, ..self };
        let bytes = blank.wire() + payload;
        let sum = internet_checksum(bytes, seed);
        let filled = UDP { sum, ..self };
        lemma_be16_of_bytes(0);
        lemma_be16_of_bytes(sum);
        assert(bytes[6] == be16_bytes(0)[0] && bytes[7] == be16_bytes(0)[1]);
        assert(with_field(bytes, 6, sum) =~= filled.wire() + payload);
        lemma_checksum_self_verifies(bytes, 6, seed);
    }

    /// Any eight bytes are exactly a UDP header's.
    pub proof fn lemma_canonical(bytes: Seq<u8>)
        requires
            bytes.len() == 8,
        ensures
            canonical::<UDP>(bytes),
    {
        lemma_be16_bytes_of(bytes[0], bytes[1]);
        lemma_be16_bytes_of(bytes[2], bytes[3]);
        lemma_be16_bytes_of(bytes[4], bytes[5]);
        lemma_be16_bytes_of(bytes[6], bytes[7]);
        assert(UDP::parse(bytes).wire() =~= bytes);
    }
}

/// TCP header without options.
#[derive(Debug, Clone, Copy, PartialEq, Eq)]
pub struct TCP {
    /// Source port.
    pub sport: u16,
    /// Destination port.
    pub dport: u16,
    /// Sequence number.
    pub seq: u32,
    /// Acknowledgement number.
    pub ack: u32,
    /// Header length in 32-bit words, in the high nibble.
    pub offset: u8,
    /// Control bits. On the wire they take the low six bits of their byte,
    /// and the two bits above them are written as zero.
    pub flags: TcpFlags,
    /// Window size.
    pub win: u16,
    /// Checksum.
    pub sum: u16,
    /// Urgent pointer.
    pub urg: u16,
}

impl Header for TCP {
    open spec fn wire_len() -> nat {
        20
    }

    open spec fn valid(&self) -> bool {
        self.flags.known()
    }

    open spec fn wire(&self) -> Seq<u8> {
        be16_bytes(self.sport) + be16_bytes(self.dport) + be32_bytes(self.seq) + be32_bytes(
            self.ack,
        ) + seq![self.offset, TcpFlags::spec_truncate(self.flags.bits).bits] + be16_bytes(
            self.win,
        ) + be16_bytes(self.sum) + be16_bytes(self.urg)
    }

    open spec fn parse(bytes: Seq<u8>) -> Self {
        TCP {
            sport: be16(bytes[0], bytes[1]),
            dport: be16(bytes[2], bytes[3]),
            seq: be32(bytes[4], bytes[5], bytes[6], bytes[7]),
            ack: be32(bytes[8], bytes[9], bytes[10], bytes[11]),
            offset: bytes[12],
            flags: TcpFlags::spec_truncate(bytes[13]),
            win: be16(bytes[14], bytes[15]),
            sum: be16(bytes[16], bytes[17]),
            urg: be16(bytes[18], bytes[19]),
        }
    }

    fn size() -> (n: usize) {
        TCP_LEN
    }

    fn decode(bytes: &[u8]) -> (out: Option<Self>) {
        if bytes.len() < TCP_LEN {
            return None;
        }
        Some(
            TCP {
                sport: get_u16(bytes, 0),
                dport: get_u16(bytes, 2),
                seq: get_u32(bytes, 4),
                ack: get_u32(bytes, 8),
                offset: bytes[12],
                flags: TcpFlags::from_bits_truncate(bytes[13]),
                win: get_u16(bytes, 14),
                sum: get_u16(bytes, 16),
                urg: get_u16(bytes, 18),
            },
        )
    }

    fn encode(&self, out: &mut [u8]) -> (done: bool) {
        if out.len() < TCP_LEN {
            return false;
        }
        put_u16(out, 0, self.sport);
        put_u16(out, 2, self.dport);
        put_u32(out, 4, self.seq);
        put_u32(out, 8, self.ack);
        out[12] = self.offset;
        out[13] = self.flags.bits() & TCP_FLAG_MASK;
        put_u16(out, 14, self.win);
        put_u16(out, 16, self.sum);
        put_u16(out, 18, self.urg);
        assert(out@ =~= self.wire() + old(out)@.skip(20));
        true
    }

    proof fn lemma_wire_len(&self) {
    }

    proof fn lemma_parse_front(bytes: Seq<u8>) {
        TcpFlags::lemma_truncate_known(bytes[13]);
    }

    proof fn lemma_parse_wire(&self) {
        TcpFlags::lemma_truncate_known(self.flags.bits);
        lemma_be16_of_bytes(self.sport);
        lemma_be16_of_bytes(self.dport);
        lemma_be32_of_bytes(self.seq);
        lemma_be32_of_bytes(self.ack);
        lemma_be16_of_bytes(self.win);
        lemma_be16_of_bytes(self.sum);
        lemma_be16_of_bytes(self.urg);
    }
}

impl TCP {
    /// A TCP segment that carries its checksum verifies: compute the
    /// checksum of header and payload with a zero checksum field, seeded with
    /// the sum of the pseudo-header, store it in the field, and the checksum
    /// of the result, from the same seed, is zero.
    pub proof fn lemma_checksum_verifies(self, payload: Seq<u8>, seed: u32)
        ensures
            ({
                let blank = TCP { sum: 0, ..self };
                let sum = internet_checksum(blank.wire() + payload, seed);
                internet_checksum((TCP { sum, ..self }).wire() + payload, seed) == 0
            }),
    {
        let blank = TCP { sum: 0, ..self };
        let bytes = blank.wire() + payload;
        let sum = internet_checksum(bytes, seed);
        let filled = TCP { sum, ..self };
        lemma_be16_of_bytes(0);
        lemma_be16_of_bytes(sum);
        assert(bytes[16] == be16_bytes(0)[0] && bytes[17] == be16_bytes(0)[1]);
        assert(with_field(bytes, 16, sum) =~= filled.wire() + payload);
        lemma_checksum_self_verifies(bytes, 16, seed);
    }

    /// Bytes of the right length are exactly a TCP header's when the two
    /// high bits of their flags byte are zero.
    pub proof fn lemma_canonical(bytes: Seq<u8>)
        requires
            bytes.len() == 20,
        ensures
            canonical::<TCP>(bytes) <==> bytes[13] <= TCP_FLAG_MASK,
    {
        let h = TCP::parse(bytes);
        TcpFlags::lemma_truncate_known(bytes[13]);
        TcpFlags::lemma_truncate_known(h.flags.bits);
        lemma_be16_bytes_of(bytes[0], bytes[1]);
        lemma_be16_bytes_of(bytes[2], bytes[3]);
        lemma_be32_bytes_of(bytes[4], bytes[5], bytes[6], bytes[7]);
        lemma_be32_bytes_of(bytes[8], bytes[9], bytes[10], bytes[11]);
        lemma_be16_bytes_of(bytes[14], bytes[15]);
        lemma_be16_bytes_of(bytes[16], bytes[17]);
        lemma_be16_bytes_of(bytes[18], bytes[19]);
        if bytes[13] <= TCP_FLAG_MASK {
            assert(h.wire() =~= bytes);
        } else {
            assert(h.wire()[13] == h.flags.bits);
        }
    }
}

/// ICMP echo header.
#[derive(Debug, Clone, Copy, PartialEq, Eq)]
pub struct ICMP {
    /// Message type.
    pub type_: u8,
    /// Message code.
    pub code: u8,
    /// Checksum.
    pub checksum: u16,
    /// Identifier.
    pub id: u16,
    /// Sequence number.
    pub seq: u16,
}

impl Header for ICMP {
    open spec fn wire_len() -> nat {
        8
    }

    open spec fn valid(&self) -> bool {
        true
    }

    open spec fn wire(&self) -> Seq<u8> {
        seq![self.type_, self.code] + be16_bytes(self.checksum) + be16_bytes(self.id)
            + be16_bytes(self.seq)
    }

    open spec fn parse(bytes: Seq<u8>) -> Self {
        ICMP {
            type_: bytes[0],
            code: bytes[1],
            checksum: be16(bytes[2], bytes[3]),
            id: be16(bytes[4], bytes[5]),
            seq: be16(bytes[6], bytes[7]),
        }
    }

    fn size() -> (n: usize) {
        ICMP_LEN
    }

    fn decode(bytes: &[u8]) -> (out: Option<Self>) {
        if bytes.len() < ICMP_LEN {
            return None;
        }
        Some(
            ICMP {
                type_: bytes[0],
                code: bytes[1],
                checksum: get_u16(bytes, 2),
                id: get_u16(bytes, 4),
                seq: get_u16(bytes, 6),
            },
        )
    }

    fn encode(&self, out: &mut [u8]) -> (done: bool) {
        if out.len() < ICMP_LEN {
            return false;
        }
        out[0] = self.type_;
        out[1] = self.code;
        put_u16(out, 2, self.checksum);
        put_u16(out, 4, self.id);
        put_u16(out, 6, self.seq);
        assert(out@ =~= self.wire() + old(out)@.skip(8));
        true
    }

    proof fn lemma_wire_len(&self) {
    }

    proof fn lemma_parse_front(bytes: Seq<u8>) {
    }

    proof fn lemma_parse_wire(&self) {
        lemma_be16_of_bytes(self.checksum);
        lemma_be16_of_bytes(self.id);
        lemma_be16_of_bytes(self.seq);
    }
}

impl ICMP {
    /// An ICMP message that carries its checksum verifies: compute the
    /// checksum of header and data with a zero checksum field, store it in
    /// the field, and the checksum of the result is zero.
    pub proof fn lemma_checksum_verifies(self, payload: Seq<u8>, seed: u32)
        ensures
            ({
                let blank = ICMP { checksum: 0, ..self };
                let sum = internet_checksum(blank.wire() + payload, seed);
                internet_checksum((ICMP { checksum: sum, ..self }).wire() + payload, seed) == 0
            }),
    {
        let blank = ICMP { checksum: 0, ..self };
        let bytes = blank.wire() + payload;
        let sum = internet_checksum(bytes, seed);
        let filled = ICMP { checksum: sum, ..self };
        lemma_be16_of_bytes(0);
        lemma_be16_of_bytes(sum);
        assert(bytes[2] == be16_bytes(0)[0] && bytes[3] == be16_bytes(0)[1]);
        assert(with_field(bytes, 2, sum) =~= filled.wire() + payload);
        lemma_checksum_self_verifies(bytes, 2, seed);
    }

    /// Any eight bytes are exactly an ICMP header's.
    pub proof fn lemma_canonical(bytes: Seq<u8>)
        requires
            bytes.len() == 8,
        ensures
            canonical::<ICMP>(bytes),
    {
        let h = ICMP::parse(bytes);
        lemma_be16_bytes_of(bytes[2], bytes[3]);
        lemma_be16_bytes_of(bytes[4], bytes[5]);
        lemma_be16_bytes_of(bytes[6], bytes[7]);
        assert(h.wire() =~= bytes);
    }
}

} // verus!
