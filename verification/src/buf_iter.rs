//! A cursor that walks a packet buffer header by header.

use crate::wire::{canonical, Header};
use vstd::prelude::*;

verus! {

/// A cursor over one exclusively borrowed byte buffer.
///
/// The cursor hands the buffer out from the front, piece by piece, and
/// keeps the rest. What it has handed out it never touches again, so the
/// pieces and the rest can be written independently, and together they
/// make up the buffer when the borrow ends.
pub struct BufIter<'a> {
    /// The part of the buffer not handed out yet.
    buf: &'a mut [u8],
    /// The whole buffer as it was when the cursor was made.
    origin: Ghost<Seq<u8>>,
    /// Number of bytes handed out.
    pos: Ghost<nat>,
}

/// A piece of `size` bytes can be taken at `offset` from a buffer of `len`
/// bytes.
pub open spec fn has_room(offset: nat, size: nat, len: nat) -> bool {
    offset + size <= len
}

/// From a fresh cursor over `len` bytes, pieces of `size` bytes can be
/// taken exactly `len / size` times in a row: when `k` pieces are gone the
/// cursor stands at `k * size`, and there is room for one more if and only
/// if `k` is less than `len / size`.
pub proof fn lemma_room_count(len: nat, size: nat, k: nat)
    requires
        size > 0,
    ensures
        has_room(k * size, size, len) <==> k < len / size,
{
    assert(k * size + size <= len <==> k < len / size) by (nonlinear_arith)
        requires
            size > 0,
    ;
}

impl<'a> BufIter<'a> {
    #[verifier::type_invariant]
    spec fn inv(&self) -> bool {
        &&& self.pos@ <= self.origin@.len()
        &&& self.buf@ == self.origin@.skip(self.pos@ as int)
    }

    /// The whole buffer as it was when the cursor was made.
    pub closed spec fn bytes(&self) -> Seq<u8> {
        self.origin@
    }

    /// Number of bytes handed out so far.
    pub closed spec fn offset(&self) -> nat {
        self.pos@
    }

    /// The borrow of the part not handed out yet. Its value at the end of
    /// the borrow is what that part of the buffer will hold.
    pub closed spec fn tail(&self) -> &'a mut [u8] {
        self.buf
    }

    /// The bytes not handed out yet.
    pub open spec fn remaining(&self) -> Seq<u8> {
        self.bytes().skip(self.offset() as int)
    }

    /// The cursor stands inside its buffer, and the part it still holds is
    /// as the buffer was.
    pub open spec fn wf(&self) -> bool {
        &&& self.offset() <= self.bytes().len()
        &&& self.tail()@ == self.remaining()
    }

    /// A cursor at the front of `buf`.
    pub fn new(buf: &'a mut [u8]) -> (it: Self)
        ensures
            it.bytes() == old(buf)@,
            it.offset() == 0,
            it.wf(),
            final(it.tail())@ == final(buf)@,
    {
        let ghost origin = buf@;
        assert(buf@ =~= origin.skip(0));
        BufIter { buf, origin: Ghost(origin), pos: Ghost(0) }
    }

    /// Ends the walk and returns what is left of the buffer, to read.
    pub fn get_curr_arr(self) -> (rest: &'a [u8])
        ensures
            self.wf(),
            rest@ == self.remaining(),
            final(self.tail())@ == self.remaining(),
    {
        proof {
            use_type_invariant(&self);
        }
        let BufIter { buf, origin: _, pos: _ } = self;
        buf
    }

    /// Ends the walk and returns what is left of the buffer, to write.
    pub fn get_curr_arr_mut(self) -> (rest: &'a mut [u8])
        ensures
            self.wf(),
            rest@ == self.remaining(),
            final(self.tail())@ == final(rest)@,
    {
        proof {
            use_type_invariant(&self);
        }
        let BufIter { buf, origin: _, pos: _ } = self;
        buf
    }

    /// Takes the next `n` bytes off the front of what is left.
    fn advance(&mut self, n: usize) -> (out: Option<&'a mut [u8]>)
        ensures
            old(self).wf(),
            final(self).wf(),
            final(self).bytes() == old(self).bytes(),
            out.is_some() <==> has_room(old(self).offset(), n as nat, old(self).bytes().len()),
            out matches Some(piece) ==> {
                &&& piece@ == old(self).remaining().take(n as int)
                &&& final(self).offset() == old(self).offset() + n
                &&& final(old(self).tail())@ == final(piece)@ + final(final(self).tail())@
            },
            out is None ==> *final(self) == *old(self),
    {
        proof {
            use_type_invariant(&*self);
        }
        if n > self.buf.len() {
            return None;
        }
        let empty: &'a mut [u8] = &mut [];
        assert(empty@ =~= Seq::<u8>::empty().skip(0));
        let mut taken = BufIter { buf: empty, origin: Ghost(Seq::empty()), pos: Ghost(0) };
        core::mem::swap(self, &mut taken);
        let BufIter { buf, origin, pos } = taken;
        let (piece, rest) = buf.split_at_mut(n);
        assert(rest@ =~= origin@.skip(pos@ + n));
        assert(piece@ =~= origin@.skip(pos@ as int).take(n as int));
        *self = BufIter { buf: rest, origin, pos: Ghost((pos@ + n) as nat) };
        Some(piece)
    }

    /// Reads the next header of type `T` and steps past it. When fewer
    /// bytes are left than `T` takes, there is no header and the cursor
    /// stays where it is.
    pub fn next<T: Header>(&mut self) -> (out: Option<T>)
        ensures
            old(self).wf(),
            final(self).wf(),
            final(self).bytes() == old(self).bytes(),
            out.is_some() <==> has_room(
                old(self).offset(),
                T::wire_len(),
                old(self).bytes().len(),
            ),
            out matches Some(h) ==> {
                &&& h == T::parse(old(self).remaining().take(T::wire_len() as int))
                &&& h.valid()
                &&& canonical::<T>(old(self).remaining().take(T::wire_len() as int)) ==> h.wire()
                    == old(self).remaining().take(T::wire_len() as int)
                &&& final(self).offset() == old(self).offset() + T::wire_len()
                &&& final(old(self).tail())@ == old(self).remaining().take(T::wire_len() as int)
                    + final(final(self).tail())@
            },
            out is None ==> *final(self) == *old(self),
    {
        match self.advance(T::size()) {
            Some(piece) => {
                proof {
                    T::lemma_parse_front(piece@);
                    assert(piece@.take(T::wire_len() as int) =~= piece@);
                }
                T::decode(piece)
            },
            None => None,
        }
    }

    /// Hands out the bytes of the next header of type `T`, to read with
    /// `T::decode` and to write with `encode`, and steps past them. When
    /// fewer bytes are left than `T` takes, nothing is handed out and the
    /// cursor stays where it is.
    ///
    /// What is written to the piece is what the buffer holds at that place
    /// once the borrow ends. The piece and the cursor do not overlap, so
    /// both can be used side by side.
    pub fn next_mut<T: Header>(&mut self) -> (out: Option<&'a mut [u8]>)
        ensures
            old(self).wf(),
            final(self).wf(),
            final(self).bytes() == old(self).bytes(),
            out.is_some() <==> has_room(
                old(self).offset(),
                T::wire_len(),
                old(self).bytes().len(),
            ),
            out matches Some(piece) ==> {
                &&& piece@ == old(self).remaining().take(T::wire_len() as int)
                &&& final(self).offset() == old(self).offset() + T::wire_len()
                &&& final(old(self).tail())@ == final(piece)@ + final(final(self).tail())@
            },
            out is None ==> *final(self) == *old(self),
    {
        self.advance(T::size())
    }
}

} // verus!
