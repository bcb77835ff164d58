//! The fixed-length hash output: the big-endian serialization of the five
//! state words, with lowercase hexadecimal rendering.

use vstd::prelude::*;
use vstd::string::StringExecFns;

use crate::sha1::state::State;
use crate::words::byte_of_word;
use crate::words::bytes_of_words;

verus! {

/// Number of bytes in a digest.
pub const LENGTH_BYTES: usize = 20;

/// The lowercase hexadecimal character for a value below sixteen.
pub open spec fn hex_char(n: u8) -> char
    recommends
        n < 16,
{
    if n == 0 {
        '0'
    } else if n == 1 {
        '1'
    } else if n == 2 {
        '2'
    } else if n == 3 {
        '3'
    } else if n == 4 {
        '4'
    } else if n == 5 {
        '5'
    } else if n == 6 {
        '6'
    } else if n == 7 {
        '7'
    } else if n == 8 {
        '8'
    } else if n == 9 {
        '9'
    } else if n == 10 {
        'a'
    } else if n == 11 {
        'b'
    } else if n == 12 {
        'c'
    } else if n == 13 {
        'd'
    } else if n == 14 {
        'e'
    } else {
        'f'
    }
}

/// The lowercase hexadecimal rendering of a byte sequence: two characters
/// per byte, high nibble first.
pub open spec fn hex_lower(b: Seq<u8>) -> Seq<char> {
    Seq::new(
        2 * b.len(),
        |i: int|
            if i % 2 == 0 {
                hex_char(b[i / 2] / 16)
            } else {
                hex_char(b[i / 2] % 16)
            },
    )
}

/// Immutable fixed-size hash output, directly reusable as input bytes to a
/// subsequent hash computation.
#[derive(Clone, Debug, PartialEq, Eq)]
pub struct Digest {
    bytes: Vec<u8>,
}

impl View for Digest {
    type V = Seq<u8>;

    closed spec fn view(&self) -> Seq<u8> {
        self.bytes@
    }
}

fn hex_char_str(n: u8) -> (r: &'static str)
    requires
        n < 16,
    ensures
        r@ =~= seq![hex_char(n)],
{
    if n == 0 {
        let s = "0";
        proof {
            reveal_strlit("0");
        }
        s
    } else if n == 1 {
        let s = "1";
        proof {
            reveal_strlit("1");
        }
        s
    } else if n == 2 {
        let s = "2";
        proof {
            reveal_strlit("2");
        }
        s
    } else if n == 3 {
        let s = "3";
        proof {
            reveal_strlit("3");
        }
        s
    } else if n == 4 {
        let s = "4";
        proof {
            reveal_strlit("4");
        }
        s
    } else if n == 5 {
        let s = "5";
        proof {
            reveal_strlit("5");
        }
        s
    } else if n == 6 {
        let s = "6";
        proof {
            reveal_strlit("6");
        }
        s
    } else if n == 7 {
        let s = "7";
        proof {
            reveal_strlit("7");
        }
        s
    } else if n == 8 {
        let s = "8";
        proof {
            reveal_strlit("8");
        }
        s
    } else if n == 9 {
        let s = "9";
        proof {
            reveal_strlit("9");
        }
        s
    } else if n == 10 {
        let s = "a";
        proof {
            reveal_strlit("a");
        }
        s
    } else if n == 11 {
        let s = "b";
        proof {
            reveal_strlit("b");
        }
        s
    } else if n == 12 {
        let s = "c";
        proof {
            reveal_strlit("c");
        }
        s
    } else if n == 13 {
        let s = "d";
        proof {
            reveal_strlit("d");
        }
        s
    } else if n == 14 {
        let s = "e";
        proof {
            reveal_strlit("e");
        }
        s
    } else {
        let s = "f";
        proof {
            reveal_strlit("f");
        }
        s
    }
}

impl Digest {
    /// Serializes a state's words big-endian into a digest.
    pub fn from_state(s: &State) -> (r: Digest)
        ensures
            r@ == bytes_of_words(s.words()),
    {
        let words = s.digest();
        let ghost target = bytes_of_words(s.words());
        let mut bytes: Vec<u8> = Vec::new();
        for i in 0..5
            invariant
                words@ == s.words(),
                target == bytes_of_words(s.words()),
                bytes@.len() == 4 * i,
                bytes@ =~= target.take(4 * i as int),
        {
            let w = words[i];
            bytes.push(((w >> 24u32) & 0xFF) as u8);
            bytes.push(((w >> 16u32) & 0xFF) as u8);
            bytes.push(((w >> 8u32) & 0xFF) as u8);
            bytes.push((w & 0xFF) as u8);
            proof {
                let n = 4 * i as int;
                assert(bytes@[n] == byte_of_word(w, 0));
                assert(bytes@[n + 1] == byte_of_word(w, 1));
                assert(bytes@[n + 2] == byte_of_word(w, 2));
                assert(bytes@[n + 3] == byte_of_word(w, 3));
                assert forall|j: int| 0 <= j < n + 4 implies bytes@[j] == target[j] by {
                    if j >= n {
                        assert(j / 4 == i as int && j % 4 == j - n);
                        assert(target[j] == byte_of_word(words@[i as int], j - n));
                    }
                }
                assert(bytes@ =~= target.take(n + 4));
            }
        }
        proof {
            assert(target.take(20) =~= target);
        }
        Digest { bytes }
    }

    /// The digest's raw bytes, valid input to a new hash computation.
    pub fn as_bytes(&self) -> (r: &[u8])
        ensures
            r@ == self@,
    {
        self.bytes.as_slice()
    }

    /// Renders the digest as lowercase hexadecimal, two characters per
    /// byte, high nibble first.
    pub fn to_hex_lowercase(&self) -> (r: String)
        ensures
            r@ == hex_lower(self@),
    {
        let mut s = String::new();
        let n = self.bytes.len();
        for i in 0..n
            invariant
                n == self@.len(),
                s@ =~= hex_lower(self@.take(i as int)),
        {
            let hi = self.bytes[i] / 16;
            let lo = self.bytes[i] % 16;
            s.append(hex_char_str(hi));
            s.append(hex_char_str(lo));
            proof {
                let t = hex_lower(self@.take(i + 1));
                assert forall|j: int| 0 <= j < 2 * (i + 1) implies s@[j] == t[j] by {
                    if j < 2 * i as int {
                        assert(s@[j] == hex_lower(self@.take(i as int))[j]);
                        assert(self@.take(i as int)[j / 2] == self@.take(i + 1)[j / 2]);
                    } else if j == 2 * i as int {
                        assert(j % 2 == 0 && j / 2 == i as int);
                    } else {
                        assert(j == 2 * i as int + 1 && j % 2 == 1 && j / 2 == i as int);
                    }
                }
                assert(s@ =~= t);
            }
        }
        proof {
            assert(self@.take(n as int) =~= self@);
        }
        s
    }
}

} // verus!
