//! The SHA-1 hash function (RFC 3174).
//!
//! The mathematical model is the spec function [`digest_of`]: pad the byte
//! stream with a `0x80` byte, zero bytes and the big-endian bit length,
//! then chain the compression transform over the 64-byte blocks. The
//! streaming accumulator [`Update`] absorbs arbitrarily sized chunks and is
//! proved to produce exactly `digest_of` of the concatenation of everything
//! it absorbed, so the digest cannot depend on how the caller chunked the
//! input.

pub mod block;
pub mod digest;
pub mod state;

use vstd::prelude::*;

use vstd::arithmetic::div_mod::lemma_add_mod_noop;
use vstd::arithmetic::div_mod::lemma_fundamental_div_mod;
use vstd::arithmetic::div_mod::lemma_mod_multiples_basic;
use vstd::arithmetic::div_mod::lemma_mod_multiples_vanish;
use vstd::arithmetic::div_mod::lemma_mod_sub_multiples_vanish;
use vstd::arithmetic::div_mod::lemma_mul_mod_noop_left;
use vstd::arithmetic::div_mod::lemma_small_mod;

use crate::words::bytes_of_u64;
use crate::words::bytes_of_words;
use crate::words::byte_of_u64;
use crate::words::words_of_bytes;

use block::Block;
pub use block::LENGTH_BYTES as BLOCK_LENGTH_BYTES;
pub use digest::Digest;
pub use digest::LENGTH_BYTES as DIGEST_LENGTH_BYTES;
use state::compress;
use state::init;
pub use state::State;

verus! {

/// The state reached by compressing `m` into `s`, one 64-byte block at a
/// time and in order; a trailing piece shorter than a block is ignored.
pub open spec fn process(s: State, m: Seq<u8>) -> State
    decreases m.len(),
{
    if m.len() < 64 {
        s
    } else {
        process(compress(s, words_of_bytes(m.take(64))), m.skip(64))
    }
}

/// How many zero bytes the padding inserts between the `0x80` byte and the
/// 64-bit length field, for a message of `len` bytes: the least count that
/// makes the total a whole number of blocks.
pub open spec fn zero_count(len: nat) -> int {
    if len % 64 < 56 {
        55 - len % 64
    } else {
        119 - len % 64
    }
}

/// The 64-bit big-endian length field: the total number of message *bits*,
/// wrapping modulo 2^64 as the governing specification's fixed-width field
/// does for inputs of 2^61 bytes or more.
pub open spec fn length_field(len: nat) -> Seq<u8> {
    bytes_of_u64(((len * 8) % 0x1_0000_0000_0000_0000) as u64)
}

/// The padding trailer for a message of `len` bytes: one `0x80` byte, the
/// zero fill, and the bit length.
pub open spec fn pad_tail(len: nat) -> Seq<u8> {
    seq![0x80u8] + Seq::new(zero_count(len) as nat, |i: int| 0u8) + length_field(len)
}

/// The padded message: the data followed by its padding trailer, a whole
/// number of 64-byte blocks.
pub open spec fn padded(d: Seq<u8>) -> Seq<u8> {
    d + pad_tail(d.len())
}

/// The SHA-1 digest of a byte sequence: the big-endian serialization of
/// the state reached by compressing every block of the padded message into
/// the initial state.
pub open spec fn digest_of(d: Seq<u8>) -> Seq<u8> {
    bytes_of_words(process(init(), padded(d)).words())
}

/// Merkle–Damgård chaining: processing a whole number of blocks and then
/// the rest is the same as processing their concatenation. This is what
/// lets the accumulator fold blocks in as they arrive, and with it the
/// digest depends only on the concatenated stream, never on the chunking.
pub proof fn lemma_process_split(s: State, m1: Seq<u8>, m2: Seq<u8>)
    requires
        m1.len() % 64 == 0,
    ensures
        process(s, m1 + m2) == process(process(s, m1), m2),
    decreases m1.len(),
{
    if m1.len() == 0 {
        assert(m1 + m2 =~= m2);
    } else {
        if m1.len() < 64 {
            lemma_small_mod(m1.len(), 64);
        }
        assert(m1.len() >= 64);
        assert((m1 + m2).take(64) =~= m1.take(64));
        assert((m1 + m2).skip(64) =~= m1.skip(64) + m2);
        lemma_mod_sub_multiples_vanish(m1.len() as int, 64);
        lemma_process_split(compress(s, words_of_bytes(m1.take(64))), m1.skip(64), m2);
    }
}

/// Processing a single 64-byte block is one compression.
pub proof fn lemma_process_block(s: State, b: Seq<u8>)
    requires
        b.len() == 64,
    ensures
        process(s, b) == compress(s, words_of_bytes(b)),
{
    assert(b.take(64) =~= b);
    let c = compress(s, words_of_bytes(b));
    assert(b.skip(64).len() == 0);
    assert(process(c, b.skip(64)) == c);
    assert(process(s, b) == process(c, b.skip(64)));
}

/// Shape of the padded message: always a whole number of blocks, and the
/// padding spills into a second block exactly when the remainder leaves
/// fewer than nine bytes of room (a 56- to 63-byte remainder), instead of
/// overflowing or truncating the length field.
pub proof fn lemma_padded_shape(d: Seq<u8>)
    ensures
        padded(d).len() % 64 == 0,
        d.len() % 64 < 56 ==> padded(d).len() == d.len() - d.len() % 64 + 64,
        d.len() % 64 >= 56 ==> padded(d).len() == d.len() - d.len() % 64 + 128,
{
    let len = d.len() as int;
    lemma_fundamental_div_mod(len, 64);
    if len % 64 < 56 {
        assert(padded(d).len() == 64 * (len / 64) + 64);
        assert((64 * (len / 64 + 1)) % 64 == 0) by {
            lemma_mod_multiples_basic(len / 64 + 1, 64);
        }
        assert(64 * (len / 64) + 64 == 64 * (len / 64 + 1)) by (nonlinear_arith);
    } else {
        assert(padded(d).len() == 64 * (len / 64) + 128);
        assert((64 * (len / 64 + 2)) % 64 == 0) by {
            lemma_mod_multiples_basic(len / 64 + 2, 64);
        }
        assert(64 * (len / 64) + 128 == 64 * (len / 64 + 2)) by (nonlinear_arith);
    }
}

proof fn lemma_wrapping_add_mod(n: int, a: u64, d: u64)
    requires
        0 <= n,
        a == n % 0x1_0000_0000_0000_0000,
    ensures
        a.wrapping_add(d) == (n + d) % 0x1_0000_0000_0000_0000,
{
    let m: int = 0x1_0000_0000_0000_0000;
    lemma_add_mod_noop(n, d as int, m);
    lemma_small_mod(d as nat, m as nat);
    if a + d <= u64::MAX {
        lemma_small_mod((a + d) as nat, m as nat);
    } else {
        lemma_mod_sub_multiples_vanish(a + d, m);
        lemma_small_mod((a + d - m) as nat, m as nat);
    }
}

/// Represents the in-progress hash state: the running compressed state, a
/// buffer of fewer than 64 still-unprocessed bytes, and the processed-byte
/// count for the length field (wrapping modulo 2^64, see [`length_field`]).
pub struct Update {
    state: State,
    unprocessed: Vec<u8>,
    processed: u64,
    message: Ghost<Seq<u8>>,
}

impl View for Update {
    type V = Seq<u8>;

    /// The byte stream absorbed so far, in order.
    closed spec fn view(&self) -> Seq<u8> {
        self.message@
    }
}

/// Represents the finalized state: the padding has been applied and only
/// the final compressed state is kept, from which digests are derived
/// repeatedly without recomputation.
#[derive(Clone, Copy)]
pub struct Finalize {
    state: State,
    message: Ghost<Seq<u8>>,
}

impl View for Finalize {
    type V = Seq<u8>;

    /// The byte stream whose padded image was compressed.
    closed spec fn view(&self) -> Seq<u8> {
        self.message@
    }
}

impl Update {
    /// The accumulator's invariant: the buffer holds the tail of the
    /// absorbed stream past the last whole block, the state is the chain
    /// over those whole blocks, and the counter is their byte count
    /// modulo 2^64.
    pub closed spec fn wf(self) -> bool {
        let n = self.message@.len() - self.unprocessed@.len();
        &&& self.unprocessed@.len() < 64
        &&& self.unprocessed@.len() <= self.message@.len()
        &&& n % 64 == 0
        &&& self.unprocessed@ == self.message@.skip(n)
        &&& self.state == process(init(), self.message@.take(n))
        &&& self.processed == n % 0x1_0000_0000_0000_0000
    }

    fn new() -> (r: Self)
        ensures
            r.wf(),
            r@ == Seq::<u8>::empty(),
    {
        let r = Update {
            state: state::new(),
            unprocessed: Vec::new(),
            processed: 0,
            message: Ghost(Seq::empty()),
        };
        proof {
            assert(r.message@.take(0) =~= Seq::<u8>::empty());
            assert(r.message@.skip(0) =~= r.unprocessed@);
        }
        r
    }

    /// Produces the final digest, leaving the accumulator reusable.
    pub fn digest(&self) -> (d: Digest)
        requires
            self.wf(),
        ensures
            d@ == digest_of(self@),
    {
        self.finalize().digest()
    }

    /// Applies the padding rule to the buffered remainder and compresses
    /// the final one or two blocks, freezing the result. The accumulator
    /// itself is not changed, so finalizing is repeatable.
    #[verifier::loop_isolation(false)]
    pub fn finalize(&self) -> (f: Finalize)
        requires
            self.wf(),
        ensures
            f.wf(),
            f@ == self@,
    {
        let ghost m0 = self.message@;
        let ghost len = m0.len() as int;
        let ulen = self.unprocessed.len();
        let ghost n0 = m0.len() - self.unprocessed@.len();

        proof {
            // The remainder length is the message length modulo the block size.
            lemma_fundamental_div_mod(n0, 64);
            lemma_mod_multiples_vanish(n0 / 64, ulen as int, 64);
            lemma_small_mod(ulen as nat, 64);
            assert(len % 64 == ulen);
        }

        let mut p: Vec<u8> = Vec::new();
        for i in 0..ulen
            invariant
                p@ == self.unprocessed@.subrange(0, i as int),
        {
            p.push(self.unprocessed[i]);
            proof {
                assert(p@ =~= self.unprocessed@.subrange(0, i + 1));
            }
        }
        proof {
            assert(p@ =~= self.unprocessed@);
        }
        p.push(0x80);

        let target: usize = if ulen < 56 {
            56
        } else {
            120
        };
        while p.len() < target
            invariant
                ulen + 1 <= p@.len() <= target,
                p@.subrange(0, ulen as int) == self.unprocessed@,
                p@[ulen as int] == 0x80u8,
                forall|j: int| ulen < j < p@.len() ==> p@[j] == 0u8,
            decreases target - p@.len(),
        {
            p.push(0u8);
            proof {
                assert(p@.subrange(0, ulen as int) =~= self.unprocessed@);
            }
        }

        let total = self.processed.wrapping_add(ulen as u64);
        let bits = total.wrapping_mul(8);
        proof {
            let m: int = 0x1_0000_0000_0000_0000;
            lemma_wrapping_add_mod(n0, self.processed, ulen as u64);
            assert(total == len % m);
            lemma_mul_mod_noop_left(len, 8, m);
            assert(bits == (len * 8) % m);
        }
        p.push(((bits >> 56u64) & 0xFF) as u8);
        p.push(((bits >> 48u64) & 0xFF) as u8);
        p.push(((bits >> 40u64) & 0xFF) as u8);
        p.push(((bits >> 32u64) & 0xFF) as u8);
        p.push(((bits >> 24u64) & 0xFF) as u8);
        p.push(((bits >> 16u64) & 0xFF) as u8);
        p.push(((bits >> 8u64) & 0xFF) as u8);
        p.push((bits & 0xFF) as u8);

        proof {
            let tail = pad_tail(m0.len());
            assert(zero_count(m0.len()) == target - ulen - 1);
            assert forall|j: int| 0 <= j < p@.len() implies p@[j] == (self.unprocessed@ + tail)[j]
            by {
                if j < ulen {
                } else if j == ulen {
                    assert(tail[0] == 0x80u8);
                } else if j < target {
                    assert(tail[j - ulen] == 0u8);
                } else {
                    assert(tail[j - ulen] == byte_of_u64(bits, j - target));
                }
            }
            assert(p@ =~= self.unprocessed@ + tail);
            assert(padded(m0) =~= m0.take(n0) + p@);
            lemma_process_split(init(), m0.take(n0), p@);
        }

        let b1 = Block::from_slice(p.as_slice(), 0);
        let mut st = self.state.update(b1.into_words());
        if target == 56 {
            proof {
                assert(p@.subrange(0, 64) =~= p@);
                lemma_process_block(self.state, p@);
            }
        } else {
            proof {
                assert(p@.take(64) =~= p@.subrange(0, 64));
            }
            let b2 = Block::from_slice(p.as_slice(), 64);
            st = st.update(b2.into_words());
            proof {
                assert(p@.skip(64) =~= p@.subrange(64, 128));
                lemma_process_block(
                    compress(self.state, words_of_bytes(p@.take(64))),
                    p@.skip(64),
                );
            }
        }

        let f = Finalize { state: st, message: Ghost(m0) };
        proof {
            assert(f.state == process(init(), padded(m0)));
        }
        f
    }

    /// Absorbs a chunk of input: the buffer is completed to a block and
    /// compressed if possible, every further whole block of `data` is
    /// compressed in order, and the remaining tail is buffered.
    #[verifier::loop_isolation(false)]
    #[verifier::rlimit(60)]
    pub fn update(self, data: &[u8]) -> (r: Self)
        requires
            self.wf(),
        ensures
            r.wf(),
            r@ == self@ + data@,
    {
        let Update { mut state, mut unprocessed, mut processed, message } = self;
        let ghost m0 = message@;
        let ghost u0 = unprocessed@;
        let ghost n0 = m0.len() - u0.len();
        let ghost whole = m0 + data@;
        let ghost mlen: int = m0.len() as int;
        let dlen = data.len();
        let ulen = unprocessed.len();

        if dlen < 64 - ulen {
            // Not enough for a block even with the buffer: only buffer.
            for i in 0..dlen
                invariant
                    unprocessed@ == u0 + data@.subrange(0, i as int),
            {
                unprocessed.push(data[i]);
                proof {
                    assert(unprocessed@ =~= u0 + data@.subrange(0, i + 1));
                }
            }
            let r = Update { state, unprocessed, processed, message: Ghost(whole) };
            proof {
                assert(r.unprocessed@ =~= u0 + data@);
                assert(whole.take(n0) =~= m0.take(n0));
                assert(whole.skip(n0) =~= r.unprocessed@);
            }
            r
        } else {
            let mut i: usize = 0;
            if ulen > 0 {
                // Complete the buffer to exactly one block and compress it.
                let fill = 64 - ulen;
                for k in 0..fill
                    invariant
                        unprocessed@ == u0 + data@.subrange(0, k as int),
                {
                    unprocessed.push(data[k]);
                    proof {
                        assert(unprocessed@ =~= u0 + data@.subrange(0, k + 1));
                    }
                }
                let ghost filled = unprocessed@;
                let b = Block::from_slice(unprocessed.as_slice(), 0);
                state = state.update(b.into_words());
                proof {
                    assert(filled.subrange(0, 64) =~= filled);
                    assert(whole.take(n0 + 64) =~= m0.take(n0) + filled);
                    lemma_process_split(init(), m0.take(n0), filled);
                    lemma_process_block(process(init(), m0.take(n0)), filled);
                    lemma_wrapping_add_mod(n0, processed, 64);
                }
                processed = processed.wrapping_add(64);
                unprocessed.clear();
                i = fill;
                proof {
                    assert(mlen + i == n0 + 64);
                    assert((mlen + i) % 64 == 0) by {
                        lemma_mod_multiples_vanish(n0 / 64 + 1, 0, 64);
                        lemma_fundamental_div_mod(n0, 64);
                        assert(mlen + i == 64 * (n0 / 64 + 1)) by (nonlinear_arith)
                            requires
                                mlen + i == n0 + 64,
                                n0 == 64 * (n0 / 64),
                        ;
                        lemma_mod_multiples_basic(n0 / 64 + 1, 64);
                    }
                }
            } else {
                proof {
                    assert(whole.take(mlen + 0) =~= m0.take(n0));
                }
            }

            // Compress every whole block that remains in `data`.
            while dlen - i >= 64
                invariant
                    i <= dlen,
                    unprocessed@.len() == 0,
                    (mlen + i) % 64 == 0,
                    state == process(init(), whole.take(mlen + i)),
                    processed == (mlen + i) % 0x1_0000_0000_0000_0000,
                decreases dlen - i,
            {
                let b = Block::from_slice(data, i);
                proof {
                    assert(whole.take(mlen + i + 64) =~= whole.take(mlen + i) + data@.subrange(
                        i as int,
                        i + 64,
                    ));
                    lemma_process_split(init(), whole.take(mlen + i), data@.subrange(i as int, i + 64));
                    lemma_process_block(
                        process(init(), whole.take(mlen + i)),
                        data@.subrange(i as int, i + 64),
                    );
                    lemma_wrapping_add_mod(mlen + i, processed, 64);
                    lemma_mod_sub_multiples_vanish(mlen + i + 64, 64);
                }
                state = state.update(b.into_words());
                processed = processed.wrapping_add(64);
                i = i + 64;
            }

            // Buffer the remaining tail, shorter than a block.
            let ghost start = i as int;
            for j in i..dlen
                invariant
                    start <= j <= dlen,
                    unprocessed@ == data@.subrange(start, j as int),
            {
                unprocessed.push(data[j]);
                proof {
                    assert(unprocessed@ =~= data@.subrange(start, j + 1));
                }
            }

            let r = Update { state, unprocessed, processed, message: Ghost(whole) };
            proof {
                assert(whole.len() - r.unprocessed@.len() == mlen + start);
                assert(whole.skip(mlen + start) =~= r.unprocessed@);
            }
            r
        }
    }

    /// Clears the buffer and counter and resets the state to the initial
    /// constants, reusing the buffer's allocation: equivalent to a fresh
    /// accumulator.
    pub fn reset(self) -> (r: Self)
        ensures
            r.wf(),
            r@ == Seq::<u8>::empty(),
    {
        let Update { state, mut unprocessed, .. } = self;
        unprocessed.clear();
        let r = Update {
            state: state.reset(),
            unprocessed,
            processed: 0,
            message: Ghost(Seq::empty()),
        };
        proof {
            assert(r.message@.take(0) =~= Seq::<u8>::empty());
            assert(r.message@.skip(0) =~= r.unprocessed@);
        }
        r
    }
}

impl Default for Update {
    fn default() -> (r: Self)
        ensures
            r.wf(),
            r@ == Seq::<u8>::empty(),
    {
        Self::new()
    }
}

impl Finalize {
    /// The invariant: the kept state is the chain over the padded stream.
    pub closed spec fn wf(self) -> bool {
        self.state == process(init(), padded(self.message@))
    }

    /// Serializes the state's words big-endian; callable repeatedly, and
    /// every call returns the same digest of the absorbed stream.
    pub fn digest(&self) -> (d: Digest)
        requires
            self.wf(),
        ensures
            d@ == digest_of(self@),
    {
        Digest::from_state(&self.state)
    }

    /// Discards the finalized state and hands back a fresh accumulator.
    pub fn reset(&self) -> (r: Update)
        ensures
            r.wf(),
            r@ == Seq::<u8>::empty(),
    {
        Update::new()
    }
}

/// Creates a new hash instance, with nothing absorbed yet.
pub fn new() -> (r: Update)
    ensures
        r.wf(),
        r@ == Seq::<u8>::empty(),
{
    Update::new()
}

/// Creates a default hash instance, identical to a new one.
pub fn default() -> (r: Update)
    ensures
        r.wf(),
        r@ == Seq::<u8>::empty(),
{
    Update::new()
}

/// Computes the digest of the given input in one call.
pub fn hash(data: &[u8]) -> (d: Digest)
    ensures
        d@ == digest_of(data@),
{
    let d = new().update(data).digest();
    proof {
        assert(Seq::<u8>::empty() + data@ =~= data@);
    }
    d
}

/// Two accumulators that absorbed the same byte stream produce the same
/// digest, no matter how differently the stream was cut into `update`
/// calls: the digest is a function of the concatenated stream alone.
pub proof fn lemma_chunking_invariance(u1: Update, u2: Update)
    requires
        u1.wf(),
        u2.wf(),
        u1@ == u2@,
    ensures
        digest_of(u1@) == digest_of(u2@),
{
}

} // verus!

