//! The SHA-1 working state and its per-block compression transform.
//!
//! The spec functions `schedule`, `rounds` and `compress` are the
//! mathematical definition of the transform from RFC 3174; `State::update`
//! is proved to compute exactly `compress`.

use vstd::prelude::*;

use crate::words::rotl;
use crate::words::rotl_exec;

verus! {

/// Initialization constants (RFC 3174 section 6.1).
pub const INIT_A: u32 = 0x67452301;
pub const INIT_B: u32 = 0xEFCDAB89;
pub const INIT_C: u32 = 0x98BADCFE;
pub const INIT_D: u32 = 0x10325476;
pub const INIT_E: u32 = 0xC3D2E1F0;

/// Round constants, one per quartile of the 80 rounds.
pub const K0: u32 = 0x5A827999;
pub const K1: u32 = 0x6ED9EBA1;
pub const K2: u32 = 0x8F1BBCDC;
pub const K3: u32 = 0xCA62C1D6;

/// The five 32-bit working variables of the running hash.
///
/// A state is the running hash after some whole number of compressed
/// blocks; every combination of five words is a valid state, so the type
/// carries no invariant.
#[derive(Clone, Copy, Debug, PartialEq, Eq)]
pub struct State {
    pub a: u32,
    pub b: u32,
    pub c: u32,
    pub d: u32,
    pub e: u32,
}

/// The state holding the algorithm's initialization constants.
pub open spec fn init() -> State {
    State { a: INIT_A, b: INIT_B, c: INIT_C, d: INIT_D, e: INIT_E }
}

/// The round-dependent boolean function: `ch` for rounds 0..20, `parity`
/// for 20..40 and 60..80, `maj` for 40..60 (RFC 3174 section 5).
pub open spec fn round_f(t: int, b: u32, c: u32, d: u32) -> u32
    recommends
        0 <= t < 80,
{
    if t < 20 {
        (b & c) | (!b & d)
    } else if t < 40 {
        b ^ c ^ d
    } else if t < 60 {
        (b & c) | (b & d) | (c & d)
    } else {
        b ^ c ^ d
    }
}

/// The round constant for round `t`, selected by quartile.
pub open spec fn round_k(t: int) -> u32
    recommends
        0 <= t < 80,
{
    if t < 20 {
        K0
    } else if t < 40 {
        K1
    } else if t < 60 {
        K2
    } else {
        K3
    }
}

/// Word `t` of the message schedule: the block's own sixteen words,
/// extended by the XOR-and-rotate recurrence (RFC 3174 section 6.1 (b)).
pub open spec fn schedule(b: Seq<u32>, t: int) -> u32
    recommends
        b.len() == 16,
        0 <= t < 80,
    decreases t,
{
    if t < 16 {
        b[t]
    } else {
        rotl(schedule(b, t - 3) ^ schedule(b, t - 8) ^ schedule(b, t - 14) ^ schedule(b, t - 16), 1)
    }
}

/// One round of the compression function: every working variable shifts one
/// register position and the newly computed word is injected.
pub open spec fn round(s: State, w: u32, k: u32, t: int) -> State {
    State {
        a: rotl(s.a, 5).wrapping_add(round_f(t, s.b, s.c, s.d)).wrapping_add(s.e).wrapping_add(
            w,
        ).wrapping_add(k),
        b: s.a,
        c: rotl(s.b, 30),
        d: s.c,
        e: s.d,
    }
}

/// The state after the first `t` rounds on block `b`, starting from `s`.
pub open spec fn rounds(s: State, b: Seq<u32>, t: int) -> State
    recommends
        b.len() == 16,
        0 <= t <= 80,
    decreases t,
{
    if t <= 0 {
        s
    } else {
        round(rounds(s, b, t - 1), schedule(b, t - 1), round_k(t - 1), t - 1)
    }
}

/// The full compression transform: 80 rounds followed by the feed-forward
/// addition of the pre-round state, which makes the blocks chain.
pub open spec fn compress(s: State, b: Seq<u32>) -> State
    recommends
        b.len() == 16,
{
    let r = rounds(s, b, 80);
    State {
        a: r.a.wrapping_add(s.a),
        b: r.b.wrapping_add(s.b),
        c: r.c.wrapping_add(s.c),
        d: r.d.wrapping_add(s.d),
        e: r.e.wrapping_add(s.e),
    }
}

/// Creates a state holding the initialization constants.
pub fn new() -> (r: State)
    ensures
        r == init(),
{
    State::new()
}

/// Creates a default state, identical to a new one.
pub fn default() -> (r: State)
    ensures
        r == init(),
{
    State::new()
}

impl State {
    /// The five state words, in order.
    pub open spec fn words(self) -> Seq<u32> {
        seq![self.a, self.b, self.c, self.d, self.e]
    }

    fn from_raw(a: u32, b: u32, c: u32, d: u32, e: u32) -> (r: Self)
        ensures
            r == (State { a, b, c, d, e }),
    {
        Self { a, b, c, d, e }
    }

    fn new() -> (r: Self)
        ensures
            r == init(),
    {
        Self::from_raw(INIT_A, INIT_B, INIT_C, INIT_D, INIT_E)
    }

    /// Returns the five words of the running hash.
    pub fn digest(&self) -> (r: [u32; 5])
        ensures
            r@ == self.words(),
    {
        let r = [self.a, self.b, self.c, self.d, self.e];
        proof {
            assert(r@ =~= self.words());
        }
        r
    }

    /// The round-dependent boolean function, equal to the model's `round_f`.
    fn f(t: usize, b: u32, c: u32, d: u32) -> (r: u32)
        requires
            t < 80,
        ensures
            r == round_f(t as int, b, c, d),
    {
        if t < 20 {
            (b & c) | (!b & d)
        } else if t < 40 {
            b ^ c ^ d
        } else if t < 60 {
            (b & c) | (b & d) | (c & d)
        } else {
            b ^ c ^ d
        }
    }

    /// The round constant, equal to the model's `round_k`.
    fn k(t: usize) -> (r: u32)
        requires
            t < 80,
        ensures
            r == round_k(t as int),
    {
        if t < 20 {
            K0
        } else if t < 40 {
            K1
        } else if t < 60 {
            K2
        } else {
            K3
        }
    }

    /// Compresses one block into the state, returning the new state: the
    /// pure transform `compress` of RFC 3174, with no other effect.
    pub fn update(&self, block: [u32; 16]) -> (r: Self)
        ensures
            r == compress(*self, block@),
    {
        let mut w: Vec<u32> = Vec::new();
        for i in 0..16
            invariant
                w@.len() == i,
                forall|j: int| 0 <= j < i ==> w@[j] == schedule(block@, j),
        {
            w.push(block[i]);
        }
        for i in 16..80
            invariant
                w@.len() == i,
                forall|j: int| 0 <= j < i ==> w@[j] == schedule(block@, j),
        {
            let x = rotl_exec(w[i - 3] ^ w[i - 8] ^ w[i - 14] ^ w[i - 16], 1);
            w.push(x);
        }

        let mut s = *self;
        for t in 0..80
            invariant
                w@.len() == 80,
                forall|j: int| 0 <= j < 80 ==> w@[j] == schedule(block@, j),
                s == rounds(*self, block@, t as int),
        {
            let tmp = rotl_exec(s.a, 5).wrapping_add(Self::f(t, s.b, s.c, s.d)).wrapping_add(
                s.e,
            ).wrapping_add(w[t]).wrapping_add(Self::k(t));
            s = State { a: tmp, b: s.a, c: rotl_exec(s.b, 30), d: s.c, e: s.d };
        }

        State {
            a: s.a.wrapping_add(self.a),
            b: s.b.wrapping_add(self.b),
            c: s.c.wrapping_add(self.c),
            d: s.d.wrapping_add(self.d),
            e: s.e.wrapping_add(self.e),
        }
    }

    /// Returns the state to the initialization constants, discarding all
    /// processed history.
    pub fn reset(self) -> (r: Self)
        ensures
            r == init(),
    {
        Self::from_raw(INIT_A, INIT_B, INIT_C, INIT_D, INIT_E)
    }
}

impl Default for State {
    fn default() -> (r: Self)
        ensures
            r == init(),
    {
        Self::new()
    }
}

} // verus!
