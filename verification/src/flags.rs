//! The control bits of a TCP header as a small set.

use vstd::prelude::*;

verus! {

/// The six bit positions that carry a flag.
pub const TCP_FLAG_MASK: u8 = 0x3f;

/// A set of TCP control bits, one bit each: `F` (fin) is bit 0, then `S`
/// (syn), `R` (rst), `P` (psh), `A` (ack) and `U` (urg) in bit 5. The two
/// high bits of the byte carry no flag.
#[derive(Debug, Clone, Copy, PartialEq, Eq, Structural, PartialOrd, Ord, Hash)]
pub struct TcpFlags {
    pub bits: u8,
}

impl TcpFlags {
    /// No bit outside the six flag positions is set.
    pub open spec fn known(self) -> bool {
        self.bits & TCP_FLAG_MASK == self.bits
    }

    /// The set of the flags that are in `self` or in `other`.
    pub open spec fn spec_union(self, other: TcpFlags) -> TcpFlags {
        TcpFlags { bits: self.bits | other.bits }
    }

    /// The set of the flags that are in both.
    pub open spec fn spec_intersection(self, other: TcpFlags) -> TcpFlags {
        TcpFlags { bits: self.bits & other.bits }
    }

    /// Every flag of `other` is in `self`.
    pub open spec fn spec_contains(self, other: TcpFlags) -> bool {
        self.bits & other.bits == other.bits
    }

    /// The set with the flag positions of `bits` and nothing else.
    pub open spec fn spec_truncate(bits: u8) -> TcpFlags {
        TcpFlags { bits: bits & TCP_FLAG_MASK }
    }

    /// The empty set.
    #[allow(non_snake_case)]
    pub fn NONE() -> (flags: Self)
        ensures
            flags.bits == 0,
    {
        TcpFlags { bits: 0 }
    }

    /// Fin: the sender has finished sending.
    #[allow(non_snake_case)]
    pub fn F() -> (flags: Self)
        ensures
            flags.bits == 0x01,
    {
        TcpFlags { bits: 0x01 }
    }

    /// Syn: synchronise sequence numbers.
    #[allow(non_snake_case)]
    pub fn S() -> (flags: Self)
        ensures
            flags.bits == 0x02,
    {
        TcpFlags { bits: 0x02 }
    }

    /// Rst: reset the connection.
    #[allow(non_snake_case)]
    pub fn R() -> (flags: Self)
        ensures
            flags.bits == 0x04,
    {
        TcpFlags { bits: 0x04 }
    }

    /// Psh: push buffered data to the receiver.
    #[allow(non_snake_case)]
    pub fn P() -> (flags: Self)
        ensures
            flags.bits == 0x08,
    {
        TcpFlags { bits: 0x08 }
    }

    /// Ack: the acknowledgement number counts.
    #[allow(non_snake_case)]
    pub fn A() -> (flags: Self)
        ensures
            flags.bits == 0x10,
    {
        TcpFlags { bits: 0x10 }
    }

    /// Urg: the urgent pointer counts.
    #[allow(non_snake_case)]
    pub fn U() -> (flags: Self)
        ensures
            flags.bits == 0x20,
    {
        TcpFlags { bits: 0x20 }
    }

    /// All six flags.
    pub fn all() -> (flags: Self)
        ensures
            flags.bits == TCP_FLAG_MASK,
    {
        TcpFlags { bits: TCP_FLAG_MASK }
    }

    /// The byte that holds the set.
    pub fn bits(&self) -> (bits: u8)
        ensures
            bits == self.bits,
    {
        self.bits
    }

    /// The set that `bits` holds, or nothing when a bit outside the six
    /// flag positions is set.
    pub fn from_bits(bits: u8) -> (out: Option<Self>)
        ensures
            out.is_some() <==> bits & TCP_FLAG_MASK == bits,
            out matches Some(flags) ==> flags.bits == bits,
    {
        if bits & TCP_FLAG_MASK == bits {
            Some(TcpFlags { bits })
        } else {
            None
        }
    }

    /// The set that `bits` holds, with the bits outside the six flag
    /// positions dropped.
    pub fn from_bits_truncate(bits: u8) -> (flags: Self)
        ensures
            flags == Self::spec_truncate(bits),
            flags.known(),
    {
        proof {
            Self::lemma_truncate_known(bits);
        }
        TcpFlags { bits: bits & TCP_FLAG_MASK }
    }

    pub fn is_empty(&self) -> (empty: bool)
        ensures
            empty <==> self.bits == 0,
    {
        self.bits == 0
    }

    #[verifier::when_used_as_spec(spec_contains)]
    pub fn contains(self, other: TcpFlags) -> (held: bool)
        ensures
            held == self.spec_contains(other),
    {
        self.bits & other.bits == other.bits
    }

    #[verifier::when_used_as_spec(spec_union)]
    pub fn union(self, other: TcpFlags) -> (both: Self)
        ensures
            both == self.spec_union(other),
            both.bits == self.bits | other.bits,
    {
        TcpFlags { bits: self.bits | other.bits }
    }

    #[verifier::when_used_as_spec(spec_intersection)]
    pub fn intersection(self, other: TcpFlags) -> (common: Self)
        ensures
            common == self.spec_intersection(other),
            common.bits == self.bits & other.bits,
    {
        TcpFlags { bits: self.bits & other.bits }
    }

    /// Dropping the two high bits leaves a set of known flags, and changes
    /// nothing in a set that had only known flags.
    pub proof fn lemma_truncate_known(bits: u8)
        ensures
            Self::spec_truncate(bits).known(),
            Self::spec_truncate(bits).bits <= TCP_FLAG_MASK,
            (TcpFlags { bits }).known() <==> bits <= TCP_FLAG_MASK,
            (TcpFlags { bits }).known() ==> Self::spec_truncate(bits) == (TcpFlags { bits }),
    {
        assert((bits & 0x3f) & 0x3f == bits & 0x3f) by (bit_vector);
        assert(bits & 0x3f <= 0x3f) by (bit_vector);
        assert(bits & 0x3f == bits <==> bits <= 0x3f) by (bit_vector);
    }

    /// The empty set adds nothing to a union, on either side.
    pub proof fn lemma_union_none(flags: TcpFlags)
        ensures
            (TcpFlags { bits: 0 }).union(flags) == flags,
            flags.union(TcpFlags { bits: 0 }) == flags,
    {
        let b = flags.bits;
        assert(0u8 | b == b && b | 0u8 == b) by (bit_vector);
    }

    /// A union holds both of its parts, and is the least set that does.
    pub proof fn lemma_union_contains(a: TcpFlags, b: TcpFlags, c: TcpFlags)
        ensures
            a.union(b).contains(a),
            a.union(b).contains(b),
            c.contains(a) && c.contains(b) ==> c.contains(a.union(b)),
    {
        let x = a.bits;
        let y = b.bits;
        let z = c.bits;
        assert((x | y) & x == x && (x | y) & y == y) by (bit_vector);
        assert(z & x == x && z & y == y ==> z & (x | y) == (x | y)) by (bit_vector);
    }

    /// Combining sets of known flags never sets a bit outside the six flag
    /// positions.
    pub proof fn lemma_combination_known(a: TcpFlags, b: TcpFlags)
        requires
            a.known(),
            b.known(),
        ensures
            a.union(b).known(),
            a.intersection(b).known(),
            a.union(b).bits <= TCP_FLAG_MASK,
    {
        let x = a.bits;
        let y = b.bits;
        assert(x & 0x3f == x && y & 0x3f == y ==> (x | y) & 0x3f == (x | y) && (x & y) & 0x3f == (x
            & y) && (x | y) <= 0x3f) by (bit_vector);
    }
}

impl core::ops::BitOr for TcpFlags {
    type Output = TcpFlags;

    /// `a | b` is the union of `a` and `b`.
    fn bitor(self, rhs: TcpFlags) -> (both: TcpFlags) {
        TcpFlags { bits: self.bits | rhs.bits }
    }
}

impl vstd::std_specs::ops::BitOrSpecImpl for TcpFlags {
    open spec fn obeys_bitor_spec() -> bool {
        true
    }

    open spec fn bitor_req(self, rhs: TcpFlags) -> bool {
        true
    }

    open spec fn bitor_spec(self, rhs: TcpFlags) -> TcpFlags {
        self.spec_union(rhs)
    }
}

impl core::ops::BitAnd for TcpFlags {
    type Output = TcpFlags;

    /// `a & b` is the intersection of `a` and `b`.
    fn bitand(self, rhs: TcpFlags) -> (common: TcpFlags) {
        TcpFlags { bits: self.bits & rhs.bits }
    }
}

impl vstd::std_specs::ops::BitAndSpecImpl for TcpFlags {
    open spec fn obeys_bitand_spec() -> bool {
        true
    }

    open spec fn bitand_req(self, rhs: TcpFlags) -> bool {
        true
    }

    open spec fn bitand_spec(self, rhs: TcpFlags) -> TcpFlags {
        self.spec_intersection(rhs)
    }
}

} // verus!
