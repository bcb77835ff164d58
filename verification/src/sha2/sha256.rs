//! The SHA-256 working state and its per-block compression transform
//! (FIPS 180-4): low-level manipulation of the hash state, one 16-word
//! block at a time. Padding is the caller's business.
//!
//! The spec functions `schedule`, `rounds` and `compress` are the
//! mathematical definition of the transform; `State::update` is proved to
//! compute exactly `compress`.

use vstd::prelude::*;

use crate::words::rotr;
use crate::words::rotr_exec;

verus! {

/// Initialization constants (FIPS 180-4 section 5.3.3).
pub const INIT_A: u32 = 0x6A09E667;
pub const INIT_B: u32 = 0xBB67AE85;
pub const INIT_C: u32 = 0x3C6EF372;
pub const INIT_D: u32 = 0xA54FF53A;
pub const INIT_E: u32 = 0x510E527F;
pub const INIT_F: u32 = 0x9B05688C;
pub const INIT_G: u32 = 0x1F83D9AB;
pub const INIT_H: u32 = 0x5BE0CD19;

/// The eight 32-bit working variables of the running hash.
///
/// A state is the running hash after some whole number of compressed
/// blocks; every combination of eight words is a valid state, so the type
/// carries no invariant.
#[derive(Clone, Copy, Debug, PartialEq, Eq)]
pub struct State {
    pub a: u32,
    pub b: u32,
    pub c: u32,
    pub d: u32,
    pub e: u32,
    pub f: u32,
    pub g: u32,
    pub h: u32,
}

/// The state holding the algorithm's initialization constants.
pub open spec fn init() -> State {
    State {
        a: INIT_A,
        b: INIT_B,
        c: INIT_C,
        d: INIT_D,
        e: INIT_E,
        f: INIT_F,
        g: INIT_G,
        h: INIT_H,
    }
}

/// The `Ch` boolean function (FIPS 180-4 section 4.1.2).
pub open spec fn ch(x: u32, y: u32, z: u32) -> u32 {
    (x & y) ^ (!x & z)
}

/// The `Maj` boolean function (FIPS 180-4 section 4.1.2).
pub open spec fn maj(x: u32, y: u32, z: u32) -> u32 {
    (x & y) ^ (x & z) ^ (y & z)
}

/// The lowercase sigma-0 message-schedule mixing function.
pub open spec fn small_sigma0(x: u32) -> u32 {
    rotr(x, 7) ^ rotr(x, 18) ^ (x >> 3u32)
}

/// The lowercase sigma-1 message-schedule mixing function.
pub open spec fn small_sigma1(x: u32) -> u32 {
    rotr(x, 17) ^ rotr(x, 19) ^ (x >> 10u32)
}

/// The uppercase sigma-0 round mixing function.
pub open spec fn capital_sigma0(x: u32) -> u32 {
    rotr(x, 2) ^ rotr(x, 13) ^ rotr(x, 22)
}

/// The uppercase sigma-1 round mixing function.
pub open spec fn capital_sigma1(x: u32) -> u32 {
    rotr(x, 6) ^ rotr(x, 11) ^ rotr(x, 25)
}

/// The round constant for round `t`: the 64 distinct constants of
/// FIPS 180-4 section 4.2.2.
pub open spec fn round_k(t: int) -> u32
    recommends
        0 <= t < 64,
{
    if t < 16 {
        if t < 8 {
            if t == 0 { 0x428A2F98 } else if t == 1 { 0x71374491 }
            else if t == 2 { 0xB5C0FBCF } else if t == 3 { 0xE9B5DBA5 }
            else if t == 4 { 0x3956C25B } else if t == 5 { 0x59F111F1 }
            else if t == 6 { 0x923F82A4 } else { 0xAB1C5ED5 }
        } else {
            if t == 8 { 0xD807AA98 } else if t == 9 { 0x12835B01 }
            else if t == 10 { 0x243185BE } else if t == 11 { 0x550C7DC3 }
            else if t == 12 { 0x72BE5D74 } else if t == 13 { 0x80DEB1FE }
            else if t == 14 { 0x9BDC06A7 } else { 0xC19BF174 }
        }
    } else if t < 32 {
        if t < 24 {
            if t == 16 { 0xE49B69C1 } else if t == 17 { 0xEFBE4786 }
            else if t == 18 { 0x0FC19DC6 } else if t == 19 { 0x240CA1CC }
            else if t == 20 { 0x2DE92C6F } else if t == 21 { 0x4A7484AA }
            else if t == 22 { 0x5CB0A9DC } else { 0x76F988DA }
        } else {
            if t == 24 { 0x983E5152 } else if t == 25 { 0xA831C66D }
            else if t == 26 { 0xB00327C8 } else if t == 27 { 0xBF597FC7 }
            else if t == 28 { 0xC6E00BF3 } else if t == 29 { 0xD5A79147 }
            else if t == 30 { 0x06CA6351 } else { 0x14292967 }
        }
    } else if t < 48 {
        if t < 40 {
            if t == 32 { 0x27B70A85 } else if t == 33 { 0x2E1B2138 }
            else if t == 34 { 0x4D2C6DFC } else if t == 35 { 0x53380D13 }
            else if t == 36 { 0x650A7354 } else if t == 37 { 0x766A0ABB }
            else if t == 38 { 0x81C2C92E } else { 0x92722C85 }
        } else {
            if t == 40 { 0xA2BFE8A1 } else if t == 41 { 0xA81A664B }
            else if t == 42 { 0xC24B8B70 } else if t == 43 { 0xC76C51A3 }
            else if t == 44 { 0xD192E819 } else if t == 45 { 0xD6990624 }
            else if t == 46 { 0xF40E3585 } else { 0x106AA070 }
        }
    } else {
        if t < 56 {
            if t == 48 { 0x19A4C116 } else if t == 49 { 0x1E376C08 }
            else if t == 50 { 0x2748774C } else if t == 51 { 0x34B0BCB5 }
            else if t == 52 { 0x391C0CB3 } else if t == 53 { 0x4ED8AA4A }
            else if t == 54 { 0x5B9CCA4F } else { 0x682E6FF3 }
        } else {
            if t == 56 { 0x748F82EE } else if t == 57 { 0x78A5636F }
            else if t == 58 { 0x84C87814 } else if t == 59 { 0x8CC70208 }
            else if t == 60 { 0x90BEFFFA } else if t == 61 { 0xA4506CEB }
            else if t == 62 { 0xBEF9A3F7 } else { 0xC67178F2 }
        }
    }
}

/// Word `t` of the message schedule: the block's own sixteen words,
/// extended by the sigma recurrence (FIPS 180-4 section 6.2.2 step 1).
pub open spec fn schedule(b: Seq<u32>, t: int) -> u32
    recommends
        b.len() == 16,
        0 <= t < 64,
    decreases t,
{
    if t < 16 {
        b[t]
    } else {
        small_sigma1(schedule(b, t - 2)).wrapping_add(schedule(b, t - 7)).wrapping_add(
            small_sigma0(schedule(b, t - 15)),
        ).wrapping_add(schedule(b, t - 16))
    }
}

/// One round of the compression function: every working variable shifts one
/// register position and the newly computed words are injected.
pub open spec fn round(s: State, w: u32, k: u32) -> State {
    let t1 = s.h.wrapping_add(capital_sigma1(s.e)).wrapping_add(ch(s.e, s.f, s.g)).wrapping_add(
        k,
    ).wrapping_add(w);
    let t2 = capital_sigma0(s.a).wrapping_add(maj(s.a, s.b, s.c));
    State {
        a: t1.wrapping_add(t2),
        b: s.a,
        c: s.b,
        d: s.c,
        e: s.d.wrapping_add(t1),
        f: s.e,
        g: s.f,
        h: s.g,
    }
}

/// The state after the first `t` rounds on block `b`, starting from `s`.
pub open spec fn rounds(s: State, b: Seq<u32>, t: int) -> State
    recommends
        b.len() == 16,
        0 <= t <= 64,
    decreases t,
{
    if t <= 0 {
        s
    } else {
        round(rounds(s, b, t - 1), schedule(b, t - 1), round_k(t - 1))
    }
}

/// The full compression transform: 64 rounds followed by the feed-forward
/// addition of the pre-round state, which makes the blocks chain.
pub open spec fn compress(s: State, b: Seq<u32>) -> State
    recommends
        b.len() == 16,
{
    let r = rounds(s, b, 64);
    State {
        a: r.a.wrapping_add(s.a),
        b: r.b.wrapping_add(s.b),
        c: r.c.wrapping_add(s.c),
        d: r.d.wrapping_add(s.d),
        e: r.e.wrapping_add(s.e),
        f: r.f.wrapping_add(s.f),
        g: r.g.wrapping_add(s.g),
        h: r.h.wrapping_add(s.h),
    }
}

/// Creates a state holding the initialization constants.
pub fn new() -> (r: State)
    ensures
        r == init(),
{
    State::new()
}

/// Creates a default state, identical to a new one.
pub fn default() -> (r: State)
    ensures
        r == init(),
{
    State::default()
}

impl State {
    /// The eight state words, in order.
    pub open spec fn words(self) -> Seq<u32> {
        seq![self.a, self.b, self.c, self.d, self.e, self.f, self.g, self.h]
    }

    /// Returns the eight words of the running hash.
    pub fn digest(&self) -> (r: [u32; 8])
        ensures
            r@ == self.words(),
    {
        let r = [self.a, self.b, self.c, self.d, self.e, self.f, self.g, self.h];
        proof {
            assert(r@ =~= self.words());
        }
        r
    }

    fn from_raw(a: u32, b: u32, c: u32, d: u32, e: u32, f: u32, g: u32, h: u32) -> (r: Self)
        ensures
            r == (State { a, b, c, d, e, f, g, h }),
    {
        Self { a, b, c, d, e, f, g, h }
    }

    fn new() -> (r: Self)
        ensures
            r == init(),
    {
        Self::from_raw(INIT_A, INIT_B, INIT_C, INIT_D, INIT_E, INIT_F, INIT_G, INIT_H)
    }

    /// The round constant, equal to the model's `round_k`.
    fn k(t: usize) -> (r: u32)
        requires
            t < 64,
        ensures
            r == round_k(t as int),
    {
        if t < 16 {
            if t < 8 {
                if t == 0 { 0x428A2F98 } else if t == 1 { 0x71374491 }
                else if t == 2 { 0xB5C0FBCF } else if t == 3 { 0xE9B5DBA5 }
                else if t == 4 { 0x3956C25B } else if t == 5 { 0x59F111F1 }
                else if t == 6 { 0x923F82A4 } else { 0xAB1C5ED5 }
            } else {
                if t == 8 { 0xD807AA98 } else if t == 9 { 0x12835B01 }
                else if t == 10 { 0x243185BE } else if t == 11 { 0x550C7DC3 }
                else if t == 12 { 0x72BE5D74 } else if t == 13 { 0x80DEB1FE }
                else if t == 14 { 0x9BDC06A7 } else { 0xC19BF174 }
            }
        } else if t < 32 {
            if t < 24 {
                if t == 16 { 0xE49B69C1 } else if t == 17 { 0xEFBE4786 }
                else if t == 18 { 0x0FC19DC6 } else if t == 19 { 0x240CA1CC }
                else if t == 20 { 0x2DE92C6F } else if t == 21 { 0x4A7484AA }
                else if t == 22 { 0x5CB0A9DC } else { 0x76F988DA }
            } else {
                if t == 24 { 0x983E5152 } else if t == 25 { 0xA831C66D }
                else if t == 26 { 0xB00327C8 } else if t == 27 { 0xBF597FC7 }
                else if t == 28 { 0xC6E00BF3 } else if t == 29 { 0xD5A79147 }
                else if t == 30 { 0x06CA6351 } else { 0x14292967 }
            }
        } else if t < 48 {
            if t < 40 {
                if t == 32 { 0x27B70A85 } else if t == 33 { 0x2E1B2138 }
                else if t == 34 { 0x4D2C6DFC } else if t == 35 { 0x53380D13 }
                else if t == 36 { 0x650A7354 } else if t == 37 { 0x766A0ABB }
                else if t == 38 { 0x81C2C92E } else { 0x92722C85 }
            } else {
                if t == 40 { 0xA2BFE8A1 } else if t == 41 { 0xA81A664B }
                else if t == 42 { 0xC24B8B70 } else if t == 43 { 0xC76C51A3 }
                else if t == 44 { 0xD192E819 } else if t == 45 { 0xD6990624 }
                else if t == 46 { 0xF40E3585 } else { 0x106AA070 }
            }
        } else {
            if t < 56 {
                if t == 48 { 0x19A4C116 } else if t == 49 { 0x1E376C08 }
                else if t == 50 { 0x2748774C } else if t == 51 { 0x34B0BCB5 }
                else if t == 52 { 0x391C0CB3 } else if t == 53 { 0x4ED8AA4A }
                else if t == 54 { 0x5B9CCA4F } else { 0x682E6FF3 }
            } else {
                if t == 56 { 0x748F82EE } else if t == 57 { 0x78A5636F }
                else if t == 58 { 0x84C87814 } else if t == 59 { 0x8CC70208 }
                else if t == 60 { 0x90BEFFFA } else if t == 61 { 0xA4506CEB }
                else if t == 62 { 0xBEF9A3F7 } else { 0xC67178F2 }
            }
        }
    }

    fn sigma0(x: u32) -> (r: u32)
        ensures
            r == small_sigma0(x),
    {
        rotr_exec(x, 7) ^ rotr_exec(x, 18) ^ (x >> 3u32)
    }

    fn sigma1(x: u32) -> (r: u32)
        ensures
            r == small_sigma1(x),
    {
        rotr_exec(x, 17) ^ rotr_exec(x, 19) ^ (x >> 10u32)
    }

    fn big_sigma0(x: u32) -> (r: u32)
        ensures
            r == capital_sigma0(x),
    {
        rotr_exec(x, 2) ^ rotr_exec(x, 13) ^ rotr_exec(x, 22)
    }

    fn big_sigma1(x: u32) -> (r: u32)
        ensures
            r == capital_sigma1(x),
    {
        rotr_exec(x, 6) ^ rotr_exec(x, 11) ^ rotr_exec(x, 25)
    }

    fn ch(x: u32, y: u32, z: u32) -> (r: u32)
        ensures
            r == ch(x, y, z),
    {
        (x & y) ^ (!x & z)
    }

    fn maj(x: u32, y: u32, z: u32) -> (r: u32)
        ensures
            r == maj(x, y, z),
    {
        (x & y) ^ (x & z) ^ (y & z)
    }

    /// Compresses one block into the state, returning the new state: the
    /// pure transform `compress` of FIPS 180-4, with no other effect.
    pub fn update(&self, block: [u32; 16]) -> (r: Self)
        ensures
            r == compress(*self, block@),
    {
        let mut w: Vec<u32> = Vec::new();
        for i in 0..16
            invariant
                w@.len() == i,
                forall|j: int| 0 <= j < i ==> w@[j] == schedule(block@, j),
        {
            w.push(block[i]);
        }
        for i in 16..64
            invariant
                w@.len() == i,
                forall|j: int| 0 <= j < i ==> w@[j] == schedule(block@, j),
        {
            let x = Self::sigma1(w[i - 2]).wrapping_add(w[i - 7]).wrapping_add(
                Self::sigma0(w[i - 15]),
            ).wrapping_add(w[i - 16]);
            w.push(x);
        }

        let mut s = *self;
        for t in 0..64
            invariant
                w@.len() == 64,
                forall|j: int| 0 <= j < 64 ==> w@[j] == schedule(block@, j),
                s == rounds(*self, block@, t as int),
        {
            let t1 = s.h.wrapping_add(Self::big_sigma1(s.e)).wrapping_add(
                Self::ch(s.e, s.f, s.g),
            ).wrapping_add(Self::k(t)).wrapping_add(w[t]);
            let t2 = Self::big_sigma0(s.a).wrapping_add(Self::maj(s.a, s.b, s.c));
            s = State {
                a: t1.wrapping_add(t2),
                b: s.a,
                c: s.b,
                d: s.c,
                e: s.d.wrapping_add(t1),
                f: s.e,
                g: s.f,
                h: s.g,
            };
        }

        State {
            a: s.a.wrapping_add(self.a),
            b: s.b.wrapping_add(self.b),
            c: s.c.wrapping_add(self.c),
            d: s.d.wrapping_add(self.d),
            e: s.e.wrapping_add(self.e),
            f: s.f.wrapping_add(self.f),
            g: s.g.wrapping_add(self.g),
            h: s.h.wrapping_add(self.h),
        }
    }

    /// Returns the state to the initialization constants, discarding all
    /// processed history.
    pub fn reset(self) -> (r: Self)
        ensures
            r == init(),
    {
        Self::from_raw(INIT_A, INIT_B, INIT_C, INIT_D, INIT_E, INIT_F, INIT_G, INIT_H)
    }
}

impl Default for State {
    fn default() -> (r: Self)
        ensures
            r == init(),
    {
        Self::new()
    }
}

} // verus!
