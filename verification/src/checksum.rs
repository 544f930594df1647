//! The Internet checksum: the ones'-complement of the ones'-complement sum
//! of a run of bytes read as big-endian 16-bit words.

use crate::wire::{be16_bytes, lemma_be16_of_bytes, overwrite};
use vstd::arithmetic::div_mod::lemma_mod_multiples_vanish;
use vstd::prelude::*;

verus! {

/// What the byte at offset `i` counts for in its 16-bit word: the high half
/// at an even offset, the low half at an odd one.
pub open spec fn weight(i: int) -> nat {
    if i % 2 == 0 {
        256
    } else {
        1
    }
}

/// Sum of the big-endian 16-bit words of `bytes`, as a plain number. An odd
/// last byte is the high half of a word whose low half is zero.
pub open spec fn word_sum(bytes: Seq<u8>) -> nat
    decreases bytes.len(),
{
    if bytes.len() == 0 {
        0
    } else {
        word_sum(bytes.drop_last()) + weight(bytes.len() - 1) * (bytes.last() as nat)
    }
}

/// A number brought into 16 bits by adding its carries back in: zero stays
/// zero, and any other number becomes the one value in `1..=0xFFFF` that
/// differs from it by a multiple of `0xFFFF`.
pub open spec fn fold(n: int) -> int {
    if n <= 0 {
        0
    } else {
        (n - 1) % 0xFFFF + 1
    }
}

/// The Internet checksum of `bytes`, with the sum started at `seed`.
pub open spec fn internet_checksum(bytes: Seq<u8>, seed: u32) -> u16 {
    (0xFFFF - fold(seed + word_sum(bytes))) as u16
}

/// `bytes` with the 16-bit field at `at` set to `value`, high byte first.
pub open spec fn with_field(bytes: Seq<u8>, at: int, value: u16) -> Seq<u8> {
    overwrite(bytes, at, be16_bytes(value))
}

/// Two numbers that differ by a multiple of `0xFFFF`, and are zero
/// together, fold to the same value.
proof fn lemma_fold_congruent(a: int, b: int, k: int)
    requires
        0 <= b,
        0 <= k,
        a == b + k * 0xFFFF,
        a == 0 <==> b == 0,
    ensures
        fold(a) == fold(b),
{
    if b != 0 {
        lemma_mod_multiples_vanish(k, b - 1, 0xFFFF);
        assert(a - 1 == 0xFFFF * k + (b - 1));
    }
}

/// Folding a partial sum before adding to it changes nothing.
proof fn lemma_fold_absorbs(a: int, b: int)
    requires
        0 <= a,
        0 <= b,
    ensures
        fold(fold(a) + b) == fold(a + b),
{
    if a != 0 {
        let k = (a - 1) / 0xFFFF;
        assert(a == fold(a) + k * 0xFFFF);
        lemma_fold_congruent(a + b, fold(a) + b, k);
    }
}

/// Appending a byte adds its weighted value to the sum.
proof fn lemma_word_sum_push(bytes: Seq<u8>, i: int)
    requires
        0 <= i < bytes.len(),
    ensures
        word_sum(bytes.take(i + 1)) == word_sum(bytes.take(i)) + weight(i) * bytes[i],
{
    assert(bytes.take(i + 1).drop_last() =~= bytes.take(i));
}

/// Changing one byte changes the sum by the weighted difference.
proof fn lemma_word_sum_update(bytes: Seq<u8>, i: int, v: u8)
    requires
        0 <= i < bytes.len(),
    ensures
        word_sum(bytes.update(i, v)) + weight(i) * bytes[i] == word_sum(bytes) + weight(i) * v,
    decreases bytes.len(),
{
    let last = bytes.len() - 1;
    if i == last {
        assert(bytes.update(i, v).drop_last() =~= bytes.drop_last());
    } else {
        lemma_word_sum_update(bytes.drop_last(), i, v);
        assert(bytes.update(i, v).drop_last() =~= bytes.drop_last().update(i, v));
    }
}

/// After a prefix of even length, the sum goes on where the prefix left it.
proof fn lemma_word_sum_concat(head: Seq<u8>, rest: Seq<u8>)
    requires
        head.len() % 2 == 0,
    ensures
        word_sum(head + rest) == word_sum(head) + word_sum(rest),
    decreases rest.len(),
{
    if rest.len() == 0 {
        assert(head + rest =~= head);
    } else {
        lemma_word_sum_concat(head, rest.drop_last());
        assert((head + rest).drop_last() =~= head + rest.drop_last());
    }
}

/// The seed carries a sum over: the checksum of a run of bytes is the
/// checksum of its rest, seeded with the word sum of an even-length head
/// on top of the seed. This is how a pseudo-header enters the checksum of
/// the segment behind it.
pub proof fn lemma_checksum_continues(head: Seq<u8>, rest: Seq<u8>, seed: u32)
    requires
        head.len() % 2 == 0,
        seed + word_sum(head) <= u32::MAX,
    ensures
        internet_checksum(head + rest, seed) == internet_checksum(
            rest,
            (seed + word_sum(head)) as u32,
        ),
{
    lemma_word_sum_concat(head, rest);
}

/// A checksum written into its own, zeroed field makes the whole verify:
/// take bytes whose 16-bit field at an even offset is zero, compute their
/// checksum, store it in that field high byte first, and the checksum of the
/// result, from the same seed, is zero.
pub proof fn lemma_checksum_self_verifies(bytes: Seq<u8>, at: int, seed: u32)
    requires
        0 <= at,
        at % 2 == 0,
        at + 1 < bytes.len(),
        bytes[at] == 0,
        bytes[at + 1] == 0,
    ensures
        internet_checksum(with_field(bytes, at, internet_checksum(bytes, seed)), seed) == 0,
{
    let total = seed + word_sum(bytes);
    let c = internet_checksum(bytes, seed);
    let hi = be16_bytes(c)[0];
    let lo = be16_bytes(c)[1];
    let first = bytes.update(at, hi);
    lemma_be16_of_bytes(c);
    lemma_word_sum_update(bytes, at, hi);
    lemma_word_sum_update(first, at + 1, lo);
    assert(with_field(bytes, at, c) =~= first.update(at + 1, lo));
    assert(word_sum(with_field(bytes, at, c)) == word_sum(bytes) + c);
    if total != 0 {
        let k = (total - 1) / 0xFFFF;
        assert(total == fold(total) + k * 0xFFFF);
        lemma_fold_congruent(total + c, 0xFFFF, k);
    }
}

/// Adds the carries above bit 16 back into the low 16 bits, twice, which
/// leaves no carry.
fn fold_carry(sum: u32) -> (folded: u32)
    ensures
        folded == fold(sum as int),
        folded <= 0xFFFF,
{
    assert(sum & 0xFFFF == sum % 0x10000 && sum >> 16 == sum / 0x10000) by (bit_vector);
    let once = (sum & 0xFFFF) + (sum >> 16);
    assert(once & 0xFFFF == once % 0x10000 && once >> 16 == once / 0x10000) by (bit_vector);
    let twice = (once & 0xFFFF) + (once >> 16);
    proof {
        lemma_fold_congruent(sum as int, once as int, (sum / 0x10000) as int);
    }
    twice
}

/// Computes the Internet checksum of `bytes`, with the sum started at `sum`:
/// zero for a plain header, or the sum of a pseudo-header that the checksum
/// also covers.
pub fn check_sum(bytes: &[u8], sum: u32) -> (answer: u16)
    ensures
        answer == internet_checksum(bytes@, sum),
{
    let len = bytes.len();
    let mut acc: u32 = fold_carry(sum);
    let mut i: usize = 0;
    while len - i > 1
        invariant
            len == bytes@.len(),
            i <= len,
            i % 2 == 0,
            acc == fold(sum + word_sum(bytes@.take(i as int))),
        decreases len - i,
    {
        let word: u32 = (bytes[i] as u32) * 256 + (bytes[i + 1] as u32);
        proof {
            lemma_word_sum_push(bytes@, i as int);
            lemma_word_sum_push(bytes@, i + 1);
            lemma_fold_absorbs(sum + word_sum(bytes@.take(i as int)), word as int);
        }
        acc = acc + word;
        if acc > 0xFFFF {
            acc = fold_carry(acc);
        }
        i = i + 2;
    }
    if len - i == 1 {
        let word: u32 = (bytes[i] as u32) * 256;
        proof {
            lemma_word_sum_push(bytes@, i as int);
            lemma_fold_absorbs(sum + word_sum(bytes@.take(i as int)), word as int);
        }
        acc = acc + word;
    }
    acc = fold_carry(acc);
    proof {
        assert(bytes@.take(len as int) =~= bytes@);
        lemma_fold_absorbs(sum + word_sum(bytes@), 0);
    }
    let low: u16 = acc as u16;
    assert(!low == 0xFFFF - low) by (bit_vector);
    !low
}

} // verus!
