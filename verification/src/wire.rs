//! What all headers share: big-endian fields at fixed offsets, and the
//! trait that ties a header type to its bytes.

use crate::addr::{Ipv4Addr, MacAddress};
use vstd::prelude::*;

verus! {

/// The 16-bit number whose big-endian bytes are `hi`, `lo`.
pub open spec fn be16(hi: u8, lo: u8) -> u16 {
    (hi as u16) << 8 | (lo as u16)
}

/// The big-endian bytes of a 16-bit number.
pub open spec fn be16_bytes(v: u16) -> Seq<u8> {
    seq![(v >> 8) as u8, (v & 0xff) as u8]
}

/// The 32-bit number whose big-endian bytes are `b0` to `b3`.
pub open spec fn be32(b0: u8, b1: u8, b2: u8, b3: u8) -> u32 {
    (b0 as u32) << 24 | (b1 as u32) << 16 | (b2 as u32) << 8 | (b3 as u32)
}

/// The big-endian bytes of a 32-bit number.
pub open spec fn be32_bytes(v: u32) -> Seq<u8> {
    seq![(v >> 24) as u8, (v >> 16 & 0xff) as u8, (v >> 8 & 0xff) as u8, (v & 0xff) as u8]
}

/// The bytes of a 16-bit number, joined again, give the number.
pub proof fn lemma_be16_of_bytes(v: u16)
    ensures
        be16_bytes(v).len() == 2,
        be16(be16_bytes(v)[0], be16_bytes(v)[1]) == v,
        be16_bytes(v)[0] * 256 + be16_bytes(v)[1] == v,
{
    assert((((v >> 8) as u8) as u16) << 8 | (((v & 0xff) as u8) as u16) == v) by (bit_vector);
    assert(((v >> 8) as u8) * 256 + ((v & 0xff) as u8) == v) by (bit_vector);
}

/// Two bytes, joined into a 16-bit number and split again, give the bytes.
pub proof fn lemma_be16_bytes_of(hi: u8, lo: u8)
    ensures
        be16_bytes(be16(hi, lo)) == seq![hi, lo],
        be16(hi, lo) == hi * 256 + lo,
{
    assert((((hi as u16) << 8 | (lo as u16)) >> 8) as u8 == hi) by (bit_vector);
    assert((((hi as u16) << 8 | (lo as u16)) & 0xff) as u8 == lo) by (bit_vector);
    assert((hi as u16) << 8 | (lo as u16) == hi * 256 + lo) by (bit_vector);
    assert(be16_bytes(be16(hi, lo)) =~= seq![hi, lo]);
}

/// The bytes of a 32-bit number, joined again, give the number.
pub proof fn lemma_be32_of_bytes(v: u32)
    ensures
        be32_bytes(v).len() == 4,
        be32(be32_bytes(v)[0], be32_bytes(v)[1], be32_bytes(v)[2], be32_bytes(v)[3]) == v,
{
    assert((((v >> 24) as u8) as u32) << 24 | (((v >> 16 & 0xff) as u8) as u32) << 16 | (((v >> 8
        & 0xff) as u8) as u32) << 8 | (((v & 0xff) as u8) as u32) == v) by (bit_vector);
}

/// Four bytes, joined into a 32-bit number and split again, give the
/// bytes.
pub proof fn lemma_be32_bytes_of(b0: u8, b1: u8, b2: u8, b3: u8)
    ensures
        be32_bytes(be32(b0, b1, b2, b3)) == seq![b0, b1, b2, b3],
{
    let v = be32(b0, b1, b2, b3);
    assert(((b0 as u32) << 24 | (b1 as u32) << 16 | (b2 as u32) << 8 | (b3 as u32)) >> 24 == b0)
        by (bit_vector);
    assert(((b0 as u32) << 24 | (b1 as u32) << 16 | (b2 as u32) << 8 | (b3 as u32)) >> 16 & 0xff
        == b1) by (bit_vector);
    assert(((b0 as u32) << 24 | (b1 as u32) << 16 | (b2 as u32) << 8 | (b3 as u32)) >> 8 & 0xff
        == b2) by (bit_vector);
    assert(((b0 as u32) << 24 | (b1 as u32) << 16 | (b2 as u32) << 8 | (b3 as u32)) & 0xff == b3)
        by (bit_vector);
    assert(be32_bytes(v) =~= seq![b0, b1, b2, b3]);
}

/// A protocol header with a fixed layout: fields follow one another in
/// declaration order with no padding, and every field wider than a byte is
/// big-endian.
pub trait Header: Sized {
    /// Number of bytes that the header takes on the wire.
    spec fn wire_len() -> nat;

    /// Every field holds a value that its place on the wire can carry.
    spec fn valid(&self) -> bool;

    /// The bytes of the header on the wire.
    spec fn wire(&self) -> Seq<u8>;

    /// The header that the first `wire_len()` bytes of `bytes` stand for.
    /// A number that names no known variant of an enumeration reads as
    /// that enumeration's `Unknown`.
    spec fn parse(bytes: Seq<u8>) -> Self;

    /// Number of bytes that the header takes on the wire.
    fn size() -> (n: usize)
        ensures
            n == Self::wire_len(),
    ;

    /// Reads a header from the front of `bytes`, or nothing when `bytes`
    /// is too short to hold one.
    fn decode(bytes: &[u8]) -> (out: Option<Self>)
        ensures
            out.is_some() <==> bytes@.len() >= Self::wire_len(),
            out matches Some(h) ==> h == Self::parse(bytes@),
    ;

    /// Writes the header over the front of `out` and leaves the rest as it
    /// was. When `out` is too short to hold the header, nothing is written
    /// and the answer is `false`.
    fn encode(&self, out: &mut [u8]) -> (done: bool)
        ensures
            done <==> old(out)@.len() >= Self::wire_len(),
            done ==> final(out)@ == self.wire() + old(out)@.skip(Self::wire_len() as int),
            !done ==> final(out)@ == old(out)@,
    ;

    /// A header is as long on the wire as its type says, whatever it holds.
    proof fn lemma_wire_len(&self)
        ensures
            self.wire().len() == Self::wire_len(),
    ;

    /// Reading only looks at the front of the bytes, and what it reads is
    /// a valid header.
    proof fn lemma_parse_front(bytes: Seq<u8>)
        requires
            bytes.len() >= Self::wire_len(),
        ensures
            Self::parse(bytes) == Self::parse(bytes.take(Self::wire_len() as int)),
            Self::parse(bytes).valid(),
    ;

    /// Writing a valid header and reading the bytes back gives the header
    /// again.
    proof fn lemma_parse_wire(&self)
        requires
            self.valid(),
        ensures
            Self::parse(self.wire()) == *self,
    ;
}

/// `bytes` is exactly what some header of type `T` writes: reading it and
/// writing the header back reproduces it.
pub open spec fn canonical<T: Header>(bytes: Seq<u8>) -> bool {
    T::parse(bytes).wire() == bytes
}

pub(crate) fn get_u16(bytes: &[u8], at: usize) -> (v: u16)
    requires
        at + 2 <= bytes@.len(),
    ensures
        v == be16(bytes@[at as int], bytes@[at + 1]),
{
    (bytes[at] as u16) << 8 | (bytes[at + 1] as u16)
}

pub(crate) fn get_u32(bytes: &[u8], at: usize) -> (v: u32)
    requires
        at + 4 <= bytes@.len(),
    ensures
        v == be32(bytes@[at as int], bytes@[at + 1], bytes@[at + 2], bytes@[at + 3]),
{
    (bytes[at] as u32) << 24 | (bytes[at + 1] as u32) << 16 | (bytes[at + 2] as u32) << 8 | (
    bytes[at + 3] as u32)
}

pub(crate) fn get_mac(bytes: &[u8], at: usize) -> (mac: MacAddress)
    requires
        at + 6 <= bytes@.len(),
    ensures
        mac == MacAddress::from_seq(bytes@.skip(at as int)),
{
    let mac = MacAddress {
        bytes: [
            bytes[at],
            bytes[at + 1],
            bytes[at + 2],
            bytes[at + 3],
            bytes[at + 4],
            bytes[at + 5],
        ],
    };
    assert(mac.bytes =~= MacAddress::from_seq(bytes@.skip(at as int)).bytes);
    mac
}

pub(crate) fn get_ip(bytes: &[u8], at: usize) -> (ip: Ipv4Addr)
    requires
        at + 4 <= bytes@.len(),
    ensures
        ip == Ipv4Addr::from_seq(bytes@.skip(at as int)),
{
    let ip = Ipv4Addr { octets: [bytes[at], bytes[at + 1], bytes[at + 2], bytes[at + 3]] };
    assert(ip.octets =~= Ipv4Addr::from_seq(bytes@.skip(at as int)).octets);
    ip
}

/// `bytes` with the run `field` written over it from offset `at`.
pub open spec fn overwrite(bytes: Seq<u8>, at: int, field: Seq<u8>) -> Seq<u8> {
    Seq::new(
        bytes.len(),
        |i: int|
            if at <= i < at + field.len() {
                field[i - at]
            } else {
                bytes[i]
            },
    )
}

pub(crate) fn put_u16(out: &mut [u8], at: usize, v: u16)
    requires
        at + 2 <= old(out)@.len(),
    ensures
        final(out)@ == overwrite(old(out)@, at as int, be16_bytes(v)),
{
    out[at] = (v >> 8) as u8;
    out[at + 1] = (v & 0xff) as u8;
}

pub(crate) fn put_u32(out: &mut [u8], at: usize, v: u32)
    requires
        at + 4 <= old(out)@.len(),
    ensures
        final(out)@ == overwrite(old(out)@, at as int, be32_bytes(v)),
{
    out[at] = (v >> 24) as u8;
    out[at + 1] = (v >> 16 & 0xff) as u8;
    out[at + 2] = (v >> 8 & 0xff) as u8;
    out[at + 3] = (v & 0xff) as u8;
}

pub(crate) fn put_mac(out: &mut [u8], at: usize, mac: &MacAddress)
    requires
        at + 6 <= old(out)@.len(),
    ensures
        final(out)@ == overwrite(old(out)@, at as int, mac.bytes@),
{
    out[at] = mac.bytes[0];
    out[at + 1] = mac.bytes[1];
    out[at + 2] = mac.bytes[2];
    out[at + 3] = mac.bytes[3];
    out[at + 4] = mac.bytes[4];
    out[at + 5] = mac.bytes[5];
}

pub(crate) fn put_ip(out: &mut [u8], at: usize, ip: &Ipv4Addr)
    requires
        at + 4 <= old(out)@.len(),
    ensures
        final(out)@ == overwrite(old(out)@, at as int, ip.octets@),
{
    out[at] = ip.octets[0];
    out[at + 1] = ip.octets[1];
    out[at + 2] = ip.octets[2];
    out[at + 3] = ip.octets[3];
}

} // verus!
