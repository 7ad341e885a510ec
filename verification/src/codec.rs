//! Payload codec: the wire carries IEEE-754 single-precision fields
//! little-endian per field, in on-wire field order. The device protocol is
//! decoded by reversing the whole payload, splitting it into 4-byte groups,
//! reading each group big-endian, and reversing the resulting field sequence;
//! the double reversal recovers the fields in order with correct endianness.
//!
//! The verified core never performs floating-point arithmetic, so fields are
//! carried as `u32` bit patterns; a bit cast outside the core turns them into
//! `f32` values, exactly and reversibly.

use vstd::prelude::*;
use vstd::arithmetic::div_mod::lemma_fundamental_div_mod;

verus! {

/// The `i`-th field of `bytes`, read little-endian from the four bytes at
/// `4*i`.
pub open spec fn le_word_at(bytes: Seq<u8>, i: int) -> u32 {
    (bytes[4 * i] as u32) | ((bytes[4 * i + 1] as u32) << 8) | ((bytes[4 * i + 2] as u32) << 16) | (
    (bytes[4 * i + 3] as u32) << 24)
}

/// All fields of a payload, in wire order.
pub open spec fn le_words(bytes: Seq<u8>) -> Seq<u32> {
    Seq::new((bytes.len() / 4) as nat, |i: int| le_word_at(bytes, i))
}

/// The four little-endian bytes of one field.
pub open spec fn word_bytes(w: u32) -> Seq<u8> {
    seq![
        (w & 0xFF) as u8,
        ((w >> 8) & 0xFF) as u8,
        ((w >> 16) & 0xFF) as u8,
        ((w >> 24) & 0xFF) as u8,
    ]
}

/// The payload encoding of a field sequence.
pub open spec fn le_bytes(words: Seq<u32>) -> Seq<u8>
    decreases words.len(),
{
    if words.len() == 0 {
        Seq::empty()
    } else {
        le_bytes(words.drop_last()) + word_bytes(words.last())
    }
}

proof fn lemma_le_bytes_len(words: Seq<u32>)
    ensures
        le_bytes(words).len() == 4 * words.len(),
    decreases words.len(),
{
    if words.len() > 0 {
        lemma_le_bytes_len(words.drop_last());
    }
}

proof fn lemma_le_bytes_index(words: Seq<u32>, i: int, k: int)
    requires
        0 <= i < words.len(),
        0 <= k < 4,
    ensures
        le_bytes(words).len() == 4 * words.len(),
        le_bytes(words)[4 * i + k] == word_bytes(words[i])[k],
    decreases words.len(),
{
    lemma_le_bytes_len(words);
    lemma_le_bytes_len(words.drop_last());
    if i == words.len() - 1 {
    } else {
        lemma_le_bytes_index(words.drop_last(), i, k);
    }
}

/// Reassembling a field from its four little-endian bytes gives the field
/// back.
proof fn lemma_word_reassemble(w: u32)
    by (bit_vector)
    ensures
        ((w & 0xFF) as u8 as u32) | (((w >> 8) & 0xFF) as u8 as u32) << 8 | (((w >> 16)
            & 0xFF) as u8 as u32) << 16 | (((w >> 24) & 0xFF) as u8 as u32) << 24 == w,
{
}

/// A big-endian reading of four bytes equals the little-endian reading of the
/// same bytes taken in the opposite order.
proof fn lemma_or4_comm(b0: u8, b1: u8, b2: u8, b3: u8)
    by (bit_vector)
    ensures
        ((b3 as u32) << 24) | ((b2 as u32) << 16) | ((b1 as u32) << 8) | (b0 as u32) == (
        b0 as u32) | ((b1 as u32) << 8) | ((b2 as u32) << 16) | ((b3 as u32) << 24),
{
}

/// Decoding a payload encoded from any field sequence reproduces that
/// sequence exactly. Since the bit cast between `u32` and `f32` is a
/// bijection, the same holds of the floating-point fields.
pub proof fn lemma_words_round_trip(words: Seq<u32>)
    ensures
        le_words(le_bytes(words)) == words,
{
    lemma_le_bytes_len(words);
    assert((4 * words.len() as int) / 4 == words.len() as int) by (nonlinear_arith);
    assert forall|i: int| 0 <= i < words.len() implies le_words(le_bytes(words))[i] == words[i] by {
        lemma_le_bytes_index(words, i, 0);
        lemma_le_bytes_index(words, i, 1);
        lemma_le_bytes_index(words, i, 2);
        lemma_le_bytes_index(words, i, 3);
        lemma_word_reassemble(words[i]);
    }
    assert(le_words(le_bytes(words)) =~= words);
}

/// Decodes a payload into its IEEE-754 fields (as bit patterns) by the exact
/// double-reversal wire convention: reverse all bytes, read 4-byte groups
/// big-endian, reverse the resulting field sequence.
pub fn hex_to_ieee(raw_data: Vec<u8>) -> (words: Vec<u32>)
    requires
        raw_data@.len() % 4 == 0,
    ensures
        words@ == le_words(raw_data@),
{
    let n: usize = raw_data.len();
    proof {
        lemma_fundamental_div_mod(n as int, 4);
    }
    let nw: usize = n / 4;

    let mut rev: Vec<u8> = Vec::new();
    let mut i: usize = 0;
    while i < n
        invariant
            i <= n,
            n == raw_data@.len(),
            rev@.len() == i,
            forall|k: int| 0 <= k < i ==> rev@[k] == raw_data@[n - 1 - k],
        decreases n - i,
    {
        rev.push(raw_data[n - 1 - i]);
        i = i + 1;
    }

    let mut be_words: Vec<u32> = Vec::new();
    let mut k: usize = 0;
    while k < nw
        invariant
            k <= nw,
            n == raw_data@.len(),
            n == 4 * nw,
            rev@.len() == n,
            forall|j: int| 0 <= j < n ==> rev@[j] == raw_data@[n - 1 - j],
            be_words@.len() == k,
            forall|m: int|
                0 <= m < k ==> be_words@[m] == le_word_at(raw_data@, nw - 1 - m),
        decreases nw - k,
    {
        let w: u32 = ((rev[4 * k] as u32) << 24) | ((rev[4 * k + 1] as u32) << 16) | ((rev[4 * k
            + 2] as u32) << 8) | (rev[4 * k + 3] as u32);
        proof {
            let q = nw - 1 - k as int;
            assert(rev@[4 * k as int] == raw_data@[4 * q + 3]);
            assert(rev@[4 * k as int + 1] == raw_data@[4 * q + 2]);
            assert(rev@[4 * k as int + 2] == raw_data@[4 * q + 1]);
            assert(rev@[4 * k as int + 3] == raw_data@[4 * q]);
            lemma_or4_comm(
                raw_data@[4 * q],
                raw_data@[4 * q + 1],
                raw_data@[4 * q + 2],
                raw_data@[4 * q + 3],
            );
        }
        be_words.push(w);
        k = k + 1;
    }

    let mut words: Vec<u32> = Vec::new();
    let mut m: usize = 0;
    while m < nw
        invariant
            m <= nw,
            n == raw_data@.len(),
            n == 4 * nw,
            be_words@.len() == nw,
            forall|j: int| 0 <= j < nw ==> be_words@[j] == le_word_at(raw_data@, nw - 1 - j),
            words@.len() == m,
            forall|j: int| 0 <= j < m ==> words@[j] == le_word_at(raw_data@, j),
        decreases nw - m,
    {
        words.push(be_words[nw - 1 - m]);
        m = m + 1;
    }
    proof {
        assert(words@ =~= le_words(raw_data@));
    }
    words
}

/// Encodes IEEE-754 fields (as bit patterns) into a payload in the wire
/// convention: the payload that `hex_to_ieee` decodes back to `words`.
pub fn ieee_to_hex(words: &Vec<u32>) -> (bytes: Vec<u8>)
    ensures
        bytes@ == le_bytes(words@),
        le_words(bytes@) == words@,
        bytes@.len() == 4 * words@.len(),
{
    let mut bytes: Vec<u8> = Vec::new();
    let mut i: usize = 0;
    while i < words.len()
        invariant
            i <= words@.len(),
            bytes@ == le_bytes(words@.take(i as int)),
            bytes@.len() == 4 * i,
        decreases words@.len() - i,
    {
        proof {
            lemma_le_bytes_len(words@.take(i as int));
        }
        let w: u32 = words[i];
        bytes.push((w & 0xFF) as u8);
        bytes.push(((w >> 8) & 0xFF) as u8);
        bytes.push(((w >> 16) & 0xFF) as u8);
        bytes.push(((w >> 24) & 0xFF) as u8);
        proof {
            assert(words@.take(i + 1).drop_last() =~= words@.take(i as int));
            assert(words@.take(i + 1).last() == words@[i as int]);
            assert(bytes@ =~= le_bytes(words@.take(i as int)) + word_bytes(words@[i as int]));
        }
        i = i + 1;
    }
    proof {
        assert(words@.take(words@.len() as int) =~= words@);
        lemma_words_round_trip(words@);
        lemma_le_bytes_len(words@);
    }
    bytes
}

} // verus!
