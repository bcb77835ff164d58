//! The unit of compression input: exactly 64 bytes, exposed as sixteen
//! big-endian 32-bit words.
//!
//! The streaming accumulator only ever carves exactly-sized blocks out of a
//! longer buffer, so construction takes the 64-byte window as a
//! precondition rather than returning an error: handing it fewer or more
//! bytes is a contract violation of the caller, not a data error.

use vstd::prelude::*;

use crate::words::word_from_bytes;
use crate::words::word_of_bytes;
use crate::words::words_of_bytes;

verus! {

/// Number of bytes in one block.
pub const LENGTH_BYTES: usize = 64;

/// Number of 32-bit words in one block.
pub const LENGTH_DWORDS: usize = 16;

/// A fixed-size chunk of input bytes, already packed into big-endian words,
/// immutable once constructed.
pub struct Block {
    words: [u32; 16],
}

impl Block {
    /// The block's sixteen words.
    pub closed spec fn view(self) -> Seq<u32> {
        self.words@
    }

    /// Packs the 64 bytes of `data` starting at `off` into a block of
    /// sixteen big-endian words, in original order.
    pub fn from_slice(data: &[u8], off: usize) -> (r: Block)
        requires
            off + LENGTH_BYTES <= data@.len(),
        ensures
            r@ == words_of_bytes(data@.subrange(off as int, off as int + 64)),
    {
        let ghost window = data@.subrange(off as int, off as int + 64);
        let len = data.len();
        let mut w: Vec<u32> = Vec::new();
        for i in 0..16
            invariant
                off + 64 <= len,
                len == data@.len(),
                window == data@.subrange(off as int, off as int + 64),
                w@.len() == i,
                forall|j: int| 0 <= j < i ==> w@[j] == words_of_bytes(window)[j],
        {
            let word = word_from_bytes(
                data[off + 4 * i],
                data[off + 4 * i + 1],
                data[off + 4 * i + 2],
                data[off + 4 * i + 3],
            );
            proof {
                assert(word == word_of_bytes(
                    window[4 * i as int],
                    window[4 * i as int + 1],
                    window[4 * i as int + 2],
                    window[4 * i as int + 3],
                ));
            }
            w.push(word);
        }
        let words: [u32; 16] = [
            w[0], w[1], w[2], w[3], w[4], w[5], w[6], w[7],
            w[8], w[9], w[10], w[11], w[12], w[13], w[14], w[15],
        ];
        proof {
            assert(words@ =~= words_of_bytes(window));
        }
        Block { words }
    }

    /// Hands the words out for compression.
    pub fn into_words(self) -> (r: [u32; 16])
        ensures
            r@ == self@,
    {
        self.words
    }
}

} // verus!
