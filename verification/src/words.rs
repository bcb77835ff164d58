//! 32-bit word arithmetic shared by the two hash algorithms: circular
//! rotations, big-endian packing of bytes into words, and big-endian
//! serialization of words and of the 64-bit message length.
//!
//! All arithmetic is modular (wrapping); the spec functions here are the
//! mathematical model that the executable code is proved against.

use vstd::prelude::*;

verus! {

/// Left circular rotation of a 32-bit word by `n` positions, `0 < n < 32`.
pub open spec fn rotl(x: u32, n: u32) -> u32
    recommends
        0 < n < 32,
{
    (x << n) | (x >> ((32 - n) as u32))
}

/// Right circular rotation of a 32-bit word by `n` positions, `0 < n < 32`.
pub open spec fn rotr(x: u32, n: u32) -> u32
    recommends
        0 < n < 32,
{
    (x >> n) | (x << ((32 - n) as u32))
}

/// Executable left rotation, equal to the model's `rotl`.
pub fn rotl_exec(x: u32, n: u32) -> (r: u32)
    requires
        0 < n < 32,
    ensures
        r == rotl(x, n),
{
    (x << n) | (x >> (32 - n))
}

/// Executable right rotation, equal to the model's `rotr`.
pub fn rotr_exec(x: u32, n: u32) -> (r: u32)
    requires
        0 < n < 32,
    ensures
        r == rotr(x, n),
{
    (x >> n) | (x << (32 - n))
}

/// Big-endian interpretation of four bytes as one 32-bit word.
pub open spec fn word_of_bytes(b0: u8, b1: u8, b2: u8, b3: u8) -> u32 {
    ((b0 as u32) << 24u32) | ((b1 as u32) << 16u32) | ((b2 as u32) << 8u32) | (b3 as u32)
}

/// Executable big-endian packing, equal to the model's `word_of_bytes`.
pub fn word_from_bytes(b0: u8, b1: u8, b2: u8, b3: u8) -> (r: u32)
    ensures
        r == word_of_bytes(b0, b1, b2, b3),
{
    ((b0 as u32) << 24) | ((b1 as u32) << 16) | ((b2 as u32) << 8) | (b3 as u32)
}

/// The bytes of a sequence reinterpreted, four at a time and in order, as
/// big-endian 32-bit words.
pub open spec fn words_of_bytes(b: Seq<u8>) -> Seq<u32>
    recommends
        b.len() % 4 == 0,
{
    Seq::new(b.len() / 4, |i: int| word_of_bytes(b[4 * i], b[4 * i + 1], b[4 * i + 2], b[4 * i + 3]))
}

/// Byte `i` (0 = most significant) of the big-endian serialization of a word.
pub open spec fn byte_of_word(w: u32, i: int) -> u8
    recommends
        0 <= i < 4,
{
    if i == 0 {
        ((w >> 24u32) & 0xFF) as u8
    } else if i == 1 {
        ((w >> 16u32) & 0xFF) as u8
    } else if i == 2 {
        ((w >> 8u32) & 0xFF) as u8
    } else {
        (w & 0xFF) as u8
    }
}

/// Big-endian serialization of a sequence of 32-bit words as bytes.
pub open spec fn bytes_of_words(ws: Seq<u32>) -> Seq<u8> {
    Seq::new(ws.len() * 4, |i: int| byte_of_word(ws[i / 4], i % 4))
}

/// Byte `i` (0 = most significant) of the big-endian serialization of a
/// 64-bit length field.
pub open spec fn byte_of_u64(x: u64, i: int) -> u8
    recommends
        0 <= i < 8,
{
    if i == 0 {
        ((x >> 56u64) & 0xFF) as u8
    } else if i == 1 {
        ((x >> 48u64) & 0xFF) as u8
    } else if i == 2 {
        ((x >> 40u64) & 0xFF) as u8
    } else if i == 3 {
        ((x >> 32u64) & 0xFF) as u8
    } else if i == 4 {
        ((x >> 24u64) & 0xFF) as u8
    } else if i == 5 {
        ((x >> 16u64) & 0xFF) as u8
    } else if i == 6 {
        ((x >> 8u64) & 0xFF) as u8
    } else {
        (x & 0xFF) as u8
    }
}

/// The eight bytes of the big-endian serialization of a 64-bit value.
pub open spec fn bytes_of_u64(x: u64) -> Seq<u8> {
    Seq::new(8, |i: int| byte_of_u64(x, i))
}

} // verus!
