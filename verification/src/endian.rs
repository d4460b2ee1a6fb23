//! Network byte order for 32-bit words.
//!
//! The byte shuffling itself is done by the `byteorder` crate; this module
//! states what it computes and builds the two buffer operations the packet
//! codec needs on top of it.

use byteorder::{BigEndian, ByteOrder};
use vstd::prelude::*;
use vstd::slice::slice_subrange;

verus! {

/// The four bytes of `n` in network order, most significant byte first.
#[verifier::opaque]
pub open spec fn be_bytes(n: u32) -> Seq<u8> {
    seq![
        (n / 0x100_0000) as u8,
        (n / 0x1_0000 % 0x100) as u8,
        (n / 0x100 % 0x100) as u8,
        (n % 0x100) as u8,
    ]
}

/// The word whose network-order bytes are `b0 b1 b2 b3`.
#[verifier::opaque]
pub open spec fn be_value(b0: u8, b1: u8, b2: u8, b3: u8) -> u32 {
    (b0 * 0x100_0000 + b1 * 0x1_0000 + b2 * 0x100 + b3) as u32
}

/// The word stored in network order at `bytes[at .. at + 4]`.
pub open spec fn be_word(bytes: Seq<u8>, at: int) -> u32
    recommends
        0 <= at,
        at + 4 <= bytes.len(),
{
    be_value(bytes[at], bytes[at + 1], bytes[at + 2], bytes[at + 3])
}

/// `byteorder::BigEndian::write_u32` on a fresh four-byte buffer.
///
/// Trusted: the buffer comes back holding `n` most significant byte first.
#[verifier::external_body]
fn u32_to_be(n: u32) -> (bytes: [u8; 4])
    ensures
        bytes@ == be_bytes(n),
{
    let mut bytes = [0u8; 4];
    BigEndian::write_u32(&mut bytes, n);
    bytes
}

/// `byteorder::BigEndian::read_u32`.
///
/// Trusted: the result is the word spelled by the first four bytes of `buf`,
/// most significant byte first. The outside function panics on a shorter
/// buffer, which the precondition rules out.
#[verifier::external_body]
fn u32_from_be(buf: &[u8]) -> (n: u32)
    requires
        buf@.len() >= 4,
    ensures
        n == be_word(buf@, 0),
{
    BigEndian::read_u32(buf)
}

/// Appends `n` to `out` in network order.
pub fn write_u32(out: &mut Vec<u8>, n: u32)
    ensures
        final(out)@ == old(out)@ + be_bytes(n),
        final(out)@.len() == old(out)@.len() + 4,
{
    let bytes = u32_to_be(n);
    proof {
        lemma_be_bytes_len(n);
    }
    out.push(bytes[0]);
    out.push(bytes[1]);
    out.push(bytes[2]);
    out.push(bytes[3]);
}

/// Reads the network-order word at `buf[at .. at + 4]`.
pub fn read_u32(buf: &[u8], at: usize) -> (n: u32)
    requires
        at + 4 <= buf.len(),
    ensures
        n == be_word(buf@, at as int),
{
    u32_from_be(slice_subrange(buf, at, at + 4))
}

/// A word takes four bytes.
pub proof fn lemma_be_bytes_len(n: u32)
    ensures
        be_bytes(n).len() == 4,
{
    reveal(be_bytes);
}

/// The network-order bytes of a word spell that word.
pub proof fn lemma_value_of_be_bytes(n: u32)
    ensures
        be_word(be_bytes(n), 0) == n,
{
    reveal(be_bytes);
    reveal(be_value);
    assert(((n / 0x100_0000) as u8) * 0x100_0000 + ((n / 0x1_0000 % 0x100) as u8) * 0x1_0000 + ((n
        / 0x100 % 0x100) as u8) * 0x100 + ((n % 0x100) as u8) == n) by (bit_vector);
}

/// The word spelled by four bytes has those bytes in network order.
pub proof fn lemma_be_bytes_of_value(b0: u8, b1: u8, b2: u8, b3: u8)
    ensures
        be_bytes(be_value(b0, b1, b2, b3)) == seq![b0, b1, b2, b3],
{
    reveal(be_bytes);
    reveal(be_value);
    let n = be_value(b0, b1, b2, b3);
    assert(n == b0 * 0x100_0000 + b1 * 0x1_0000 + b2 * 0x100 + b3);
    assert((n / 0x100_0000) as u8 == b0 && (n / 0x1_0000 % 0x100) as u8 == b1 && (n / 0x100
        % 0x100) as u8 == b2 && (n % 0x100) as u8 == b3) by (bit_vector)
        requires
            n == b0 * 0x100_0000 + b1 * 0x1_0000 + b2 * 0x100 + b3,
    ;
    assert(be_bytes(n) =~= seq![b0, b1, b2, b3]);
}

/// A word is read back from wherever its bytes were written.
pub proof fn lemma_be_word_of_bytes(bytes: Seq<u8>, at: int, n: u32)
    requires
        0 <= at,
        at + 4 <= bytes.len(),
        bytes.subrange(at, at + 4) == be_bytes(n),
    ensures
        be_word(bytes, at) == n,
{
    let word = bytes.subrange(at, at + 4);
    assert(bytes[at] == word[0]);
    assert(bytes[at + 1] == word[1]);
    assert(bytes[at + 2] == word[2]);
    assert(bytes[at + 3] == word[3]);
    lemma_be_bytes_len(n);
    assert(be_word(bytes, at) == be_word(be_bytes(n), 0));
    lemma_value_of_be_bytes(n);
}

/// Four bytes are the network-order bytes of the word they spell.
pub proof fn lemma_be_bytes_of_word(bytes: Seq<u8>, at: int)
    requires
        0 <= at,
        at + 4 <= bytes.len(),
    ensures
        be_bytes(be_word(bytes, at)) == bytes.subrange(at, at + 4),
{
    lemma_be_bytes_of_value(bytes[at], bytes[at + 1], bytes[at + 2], bytes[at + 3]);
    assert(bytes.subrange(at, at + 4) =~= seq![
        bytes[at],
        bytes[at + 1],
        bytes[at + 2],
        bytes[at + 3],
    ]);
}

/// Appending a word leaves every earlier range as it was and puts the word
/// at the end.
pub proof fn lemma_append_word(prefix: Seq<u8>, word: Seq<u8>)
    ensures
        (prefix + word).len() == prefix.len() + word.len(),
        (prefix + word).subrange(prefix.len() as int, (prefix.len() + word.len()) as int) == word,
        forall|from: int, to: int|
            0 <= from <= to <= prefix.len() ==> #[trigger] (prefix + word).subrange(from, to)
                == prefix.subrange(from, to),
{
    assert((prefix + word).subrange(prefix.len() as int, (prefix.len() + word.len()) as int)
        =~= word);
    assert forall|from: int, to: int| 0 <= from <= to <= prefix.len() implies #[trigger] (prefix
        + word).subrange(from, to) == prefix.subrange(from, to) by {
        assert((prefix + word).subrange(from, to) =~= prefix.subrange(from, to));
    }
}

/// Two byte strings that agree up to `at` and on the word at `at` agree up
/// to the end of that word.
pub proof fn lemma_agree_one_more_word(a: Seq<u8>, b: Seq<u8>, at: int)
    requires
        0 <= at,
        at + 4 <= a.len(),
        at + 4 <= b.len(),
        a.subrange(0, at) == b.subrange(0, at),
        a.subrange(at, at + 4) == b.subrange(at, at + 4),
    ensures
        a.subrange(0, at + 4) == b.subrange(0, at + 4),
{
    assert forall|i: int| 0 <= i < at + 4 implies a[i] == b[i] by {
        if i < at {
            assert(a[i] == a.subrange(0, at)[i]);
            assert(b[i] == b.subrange(0, at)[i]);
        } else {
            assert(a[i] == a.subrange(at, at + 4)[i - at]);
            assert(b[i] == b.subrange(at, at + 4)[i - at]);
        }
    }
    assert(a.subrange(0, at + 4) =~= b.subrange(0, at + 4));
}

} // verus!
