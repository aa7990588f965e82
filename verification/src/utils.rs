//! The two permuted-congruential engines: a linear congruential state update
//! followed by an xorshift-and-rotate output permutation.

use vstd::prelude::*;

verus! {

use vstd::wrapping::u64_specs;
use vstd::wrapping::u128_specs;

/// A 32-bit-output permuted-congruential engine over a 64-bit state.
#[derive(Clone, Copy, Debug, PartialEq, Eq, Structural)]
pub struct Rand32 {
    state: u64,
    inc: u64,
}

/// A 64-bit-output permuted-congruential engine over a 128-bit state.
#[derive(Clone, Copy, Debug, PartialEq, Eq, Structural)]
pub struct Rand64 {
    state: u128,
    inc: u128,
}

/// State transition of the 32-bit engine: a wrapping multiply-add by the
/// fixed multiplier and the engine's odd increment.
pub open spec fn pcg32_next_state(s: u64, inc: u64) -> u64 {
    u64_specs::wrapping_add(u64_specs::wrapping_mul(s, Rand32::MULTIPLIER), inc)
}

/// Right rotation of a 32-bit word by `r` positions, for `r < 32`.
pub open spec fn spec_rotate_right32(x: u32, r: u32) -> u32
    recommends
        r < 32,
{
    if r == 0 {
        x
    } else {
        (x >> r) | (x << ((32 - r) as u32))
    }
}

/// Output permutation of the 32-bit engine: xorshift down to 32 bits, then a
/// rotation selected by the top five state bits.
pub open spec fn pcg32_output(s: u64) -> u32 {
    spec_rotate_right32((((s >> 18u64) ^ s) >> 27u64) as u32, (s >> 59u64) as u32)
}

/// The state words that seeding the 32-bit engine produces: the increment is
/// forced odd, and the state goes through one advance, a wrapping seed
/// addition, and a second advance.
pub open spec fn pcg32_seeded(seed: u64, increment: u64) -> (u64, u64) {
    let inc = (increment << 1u64) | 1u64;
    let s1 = pcg32_next_state(0u64, inc);
    let s2 = u64_specs::wrapping_add(s1, seed);
    (pcg32_next_state(s2, inc), inc)
}

/// State transition of the 64-bit engine.
pub open spec fn pcg64_next_state(s: u128, inc: u128) -> u128 {
    u128_specs::wrapping_add(u128_specs::wrapping_mul(s, Rand64::MULTIPLIER), inc)
}

/// Right rotation of a 64-bit word by `r` positions, for `r < 64`.
pub open spec fn spec_rotate_right64(x: u64, r: u32) -> u64
    recommends
        r < 64,
{
    if r == 0 {
        x
    } else {
        (x >> (r as u64)) | (x << ((64 - r) as u64))
    }
}

/// Output permutation of the 64-bit engine.
pub open spec fn pcg64_output(s: u128) -> u64 {
    spec_rotate_right64((((s >> 29u128) ^ s) >> 58u128) as u64, (s >> 122u128) as u32)
}

/// The state words that seeding the 64-bit engine produces.
pub open spec fn pcg64_seeded(seed: u128, increment: u128) -> (u128, u128) {
    let inc = (increment << 1u128) | 1u128;
    let s1 = pcg64_next_state(0u128, inc);
    let s2 = u128_specs::wrapping_add(s1, seed);
    (pcg64_next_state(s2, inc), inc)
}

/// The capability any 32-bit engine must satisfy: draw `u32` and `i32`
/// deterministically from an evolving pair of state words, and snapshot or
/// restore that pair.  Determinism is part of the contract: every draw's
/// output and successor state are functions of the current state words alone.
pub trait Rng: Sized {
    /// The (state, increment) words that determine every future draw.
    spec fn snapshot(&self) -> (u64, u64);

    /// The successor of state words `s` after one draw.
    spec fn step_state(s: (u64, u64)) -> (u64, u64);

    /// The output of a draw made at state words `s`.
    spec fn step_output(s: (u64, u64)) -> u32;

    /// Return the internal state, so that a later engine can resume from the
    /// same spot in the sequence.
    fn state(&self) -> (r: (u64, u64))
        ensures
            r == self.snapshot(),
    ;

    /// Rebuild an engine directly from saved state words.  Unlike the seeding
    /// constructors this performs no warm-up advances: it resumes the exact
    /// sequence position.
    fn from_state(state: (u64, u64)) -> (r: Self)
        ensures
            r.snapshot() == state,
    ;

    /// Produce a random `u32` in the range `[0, u32::MAX]`.
    fn rand_u32(&mut self) -> (r: u32)
        ensures
            final(self).snapshot() == Self::step_state(old(self).snapshot()),
            r == Self::step_output(old(self).snapshot()),
    ;

    /// Produce a random `i32` in the range `[i32::MIN, i32::MAX]`: the raw
    /// unsigned draw reinterpreted, with no redraw.
    fn rand_i32(&mut self) -> (r: i32)
        ensures
            final(self).snapshot() == Self::step_state(old(self).snapshot()),
            r == Self::step_output(old(self).snapshot()) as i32,
    ;
}

/// The sequence of the next `n` outputs an engine of type `R` produces from
/// state words `s`.
pub open spec fn rng_stream<R: Rng>(s: (u64, u64), n: nat) -> Seq<u32>
    decreases n,
{
    if n == 0 {
        Seq::empty()
    } else {
        seq![R::step_output(s)] + rng_stream::<R>(R::step_state(s), (n - 1) as nat)
    }
}

/// Law: engines that agree on their state words agree on every future draw.
/// In particular, two engines seeded with the same seed and increment, or an
/// engine and one rebuilt from its snapshot, produce identical sequences.
pub proof fn lemma_equal_snapshots_equal_streams<R: Rng>(a: R, b: R, n: nat)
    requires
        a.snapshot() == b.snapshot(),
    ensures
        rng_stream::<R>(a.snapshot(), n) == rng_stream::<R>(b.snapshot(), n),
{
}

/// Law: the tail of an `n + 1`-draw stream is the `n`-draw stream of the
/// advanced state, so an engine restored mid-sequence continues with exactly
/// the draws the original engine had left.
pub proof fn lemma_stream_advance<R: Rng>(s: (u64, u64), n: nat)
    ensures
        rng_stream::<R>(s, n + 1).skip(1) =~= rng_stream::<R>(R::step_state(s), n),
{
    assert(rng_stream::<R>(s, n + 1) == seq![R::step_output(s)] + rng_stream::<R>(
        R::step_state(s),
        n,
    ));
}

impl Rand32 {
    /// The default increment, from the PCG reference implementation; it only
    /// selects which of the possible output sequences the engine follows.
    pub const DEFAULT_INC: u64 = 1442695040888963407;

    /// The fixed multiplier of the linear congruential step, from the PCG
    /// reference implementation.
    pub const MULTIPLIER: u64 = 6364136223846793005;

    /// Create a new engine with the given seed and the default increment.
    pub fn new(seed: u64) -> (r: Self)
        ensures
            r.snapshot() == pcg32_seeded(seed, Rand32::DEFAULT_INC),
            r.snapshot().1 % 2 == 1,
    {
        Self::new_inc(seed, Self::DEFAULT_INC)
    }

    /// Create a new engine.  `seed` selects where in a sequence the engine
    /// starts; `increment` selects the sequence itself and is forced odd
    /// here, which the permuted-congruential design requires.  The two
    /// warm-up draws decorrelate the seed from the first visible output.
    pub fn new_inc(seed: u64, increment: u64) -> (r: Self)
        ensures
            r.snapshot() == pcg32_seeded(seed, increment),
            r.snapshot().1 % 2 == 1,
    {
        proof {
            assert(((increment << 1u64) | 1u64) % 2 == 1) by (bit_vector);
        }
        let mut rng = Rand32 { state: 0, inc: (increment << 1) | 1 };
        let _ = rng.rand_u32();
        rng.state = rng.state.wrapping_add(seed);
        let _ = rng.rand_u32();
        rng
    }
}

impl Rng for Rand32 {
    closed spec fn snapshot(&self) -> (u64, u64) {
        (self.state, self.inc)
    }

    open spec fn step_state(s: (u64, u64)) -> (u64, u64) {
        (pcg32_next_state(s.0, s.1), s.1)
    }

    open spec fn step_output(s: (u64, u64)) -> u32 {
        pcg32_output(s.0)
    }

    fn state(&self) -> (r: (u64, u64)) {
        (self.state, self.inc)
    }

    fn from_state(state: (u64, u64)) -> (r: Self) {
        let (state, inc) = state;
        Rand32 { state, inc }
    }

    fn rand_u32(&mut self) -> (r: u32) {
        let oldstate = self.state;
        self.state = oldstate.wrapping_mul(Self::MULTIPLIER).wrapping_add(self.inc);
        let xorshifted = (((oldstate >> 18) ^ oldstate) >> 27) as u32;
        let rot = (oldstate >> 59) as u32;
        proof {
            assert((oldstate >> 59u64) < 32) by (bit_vector);
        }
        if rot == 0 {
            xorshifted
        } else {
            (xorshifted >> rot) | (xorshifted << (32 - rot))
        }
    }

    fn rand_i32(&mut self) -> (r: i32) {
        self.rand_u32() as i32
    }
}

impl Rand64 {
    /// The default increment of the 64-bit engine.
    pub const DEFAULT_INC: u128 = 0x2FE0E169_FFBD06E3_5BC307BD_4D2F814F;

    /// The fixed multiplier of the 64-bit engine's congruential step.
    pub const MULTIPLIER: u128 = 47026247687942121848144207491837523525;

    /// The (state, increment) words that determine every future draw.
    pub closed spec fn snapshot(&self) -> (u128, u128) {
        (self.state, self.inc)
    }

    /// Create a new engine with the given seed and the default increment.
    pub fn new(seed: u128) -> (r: Self)
        ensures
            r.snapshot() == pcg64_seeded(seed, Rand64::DEFAULT_INC),
            r.snapshot().1 % 2 == 1,
    {
        Self::new_inc(seed, Self::DEFAULT_INC)
    }

    /// Create a new engine from a seed and an increment, as the 32-bit
    /// engine's seeding constructor does, at twice the width.
    pub fn new_inc(seed: u128, increment: u128) -> (r: Self)
        ensures
            r.snapshot() == pcg64_seeded(seed, increment),
            r.snapshot().1 % 2 == 1,
    {
        proof {
            assert(((increment << 1u128) | 1u128) % 2 == 1) by (bit_vector);
        }
        let mut rng = Rand64 { state: 0, inc: (increment << 1) | 1 };
        let _ = rng.rand_u64();
        rng.state = rng.state.wrapping_add(seed);
        let _ = rng.rand_u64();
        rng
    }

    /// Return the internal state, so that a later engine can resume from the
    /// same spot in the sequence.
    pub fn state(&self) -> (r: (u128, u128))
        ensures
            r == self.snapshot(),
    {
        (self.state, self.inc)
    }

    /// Rebuild an engine directly from saved state words, without the warm-up
    /// advances the seeding constructors perform: the rebuilt engine resumes
    /// the exact sequence position.
    pub fn from_state(state: (u128, u128)) -> (r: Self)
        ensures
            r.snapshot() == state,
    {
        let (state, inc) = state;
        Rand64 { state, inc }
    }

    /// Produce a random `u64` in the range `[0, u64::MAX]`.
    pub fn rand_u64(&mut self) -> (r: u64)
        ensures
            final(self).snapshot() == (
                pcg64_next_state(old(self).snapshot().0, old(self).snapshot().1),
                old(self).snapshot().1,
            ),
            r == pcg64_output(old(self).snapshot().0),
    {
        let oldstate = self.state;
        self.state = oldstate.wrapping_mul(Self::MULTIPLIER).wrapping_add(self.inc);
        let xorshifted = (((oldstate >> 29) ^ oldstate) >> 58) as u64;
        let rot = (oldstate >> 122) as u32;
        proof {
            assert((oldstate >> 122u128) < 64) by (bit_vector);
        }
        if rot == 0 {
            xorshifted
        } else {
            (xorshifted >> rot) | (xorshifted << ((64 - rot) as u64))
        }
    }

    /// Produce a random `i64`: the raw unsigned draw reinterpreted.
    pub fn rand_i64(&mut self) -> (r: i64)
        ensures
            final(self).snapshot() == (
                pcg64_next_state(old(self).snapshot().0, old(self).snapshot().1),
                old(self).snapshot().1,
            ),
            r == pcg64_output(old(self).snapshot().0) as i64,
    {
        self.rand_u64() as i64
    }
}

} // verus!
