//! The uniform sampling framework: a generic wrapper over a per-type sampler
//! capability, with rejection sampling for the integer domains and a
//! compressed code-point domain for `char`.

use vstd::prelude::*;

verus! {

use crate::distribution::Distribution;
use crate::utils::Rng;

/// Relies on `char::from_u32`: it returns `Some` exactly on code points
/// that are neither surrogates nor above the highest scalar value, and the
/// returned character is that code point.
pub assume_specification[ char::from_u32 ](i: u32) -> (r: Option<char>)
    ensures
        r matches Some(c) ==> c as u32 == i,
        (i < 0xD800 || (0xE000 <= i && i <= 0x10FFFF)) ==> r is Some,
        ((0xD800 <= i && i < 0xE000) || i > 0x10FFFF) ==> r is None,
;

/// Why constructing a uniform distribution failed.
#[derive(Clone, Copy, Debug, PartialEq, Eq, Structural)]
pub enum Error {
    /// The bounds describe no valid values.
    EmptyRange,
    /// A floating-point bound or span is not finite.
    NonFinite,
}

impl Error {
    /// A short description of the failure.
    pub fn message(&self) -> (r: &'static str) {
        match self {
            Error::EmptyRange => "low > high (or equal if exclusive) in uniform distribution",
            Error::NonFinite => "non-finite range in uniform distribution",
        }
    }
}

/// A type that has a canonical uniform sampler.
pub trait SampleUniform: Sized {
    /// The sampler the uniform framework wraps for this type.
    type Sampler: UniformSampler<X = Self> + Clone + Copy;
}

/// The per-type sampling capability behind `Uniform`: validated construction
/// from a bound pair, and repeatable single draws.
pub trait UniformSampler: Sized {
    /// The type of value the sampler produces.
    type X;

    /// When the sampler's parameters are usable.
    spec fn wf(&self) -> bool;

    /// Which values `sample` may return.
    spec fn contains(&self, x: Self::X) -> bool;

    /// When the half-open range `[low, high)` holds at least one value.
    spec fn ok_range(low: Self::X, high: Self::X) -> bool;

    /// When the closed range `[low, high]` holds at least one value.
    spec fn ok_range_inclusive(low: Self::X, high: Self::X) -> bool;

    /// Membership in the half-open range `[low, high)`.
    spec fn in_range(low: Self::X, high: Self::X, x: Self::X) -> bool;

    /// Membership in the closed range `[low, high]`.
    spec fn in_range_inclusive(low: Self::X, high: Self::X, x: Self::X) -> bool;

    /// Build a sampler over the half-open range `[low, high)`; empty bounds
    /// are rejected, and a successful sampler produces exactly the values of
    /// the range.
    fn new(low: Self::X, high: Self::X) -> (r: Result<Self, Error>)
        ensures
            r is Ok <==> Self::ok_range(low, high),
            r matches Err(e) ==> e == Error::EmptyRange,
            r matches Ok(s) ==> s.wf() && forall|x: Self::X|
                #[trigger] s.contains(x) <==> Self::in_range(low, high, x),
    ;

    /// Build a sampler over the closed range `[low, high]`.
    fn new_inclusive(low: Self::X, high: Self::X) -> (r: Result<Self, Error>)
        ensures
            r is Ok <==> Self::ok_range_inclusive(low, high),
            r matches Err(e) ==> e == Error::EmptyRange,
            r matches Ok(s) ==> s.wf() && forall|x: Self::X|
                #[trigger] s.contains(x) <==> Self::in_range_inclusive(low, high, x),
    ;

    /// The value one draw yields and the engine state it leaves, as a
    /// function of the engine's starting state words and its step
    /// functions alone: sampling is exactly reproducible given the same
    /// draw sequence.
    spec fn sample_of(
        &self,
        s: (u64, u64),
        out: spec_fn((u64, u64)) -> u32,
        next: spec_fn((u64, u64)) -> (u64, u64),
    ) -> (Self::X, (u64, u64));

    /// Draw one value of the constructed distribution.  The result and the
    /// engine's final state are exactly the ones `sample_of` assigns to the
    /// engine's starting state and step functions.
    fn sample<R: Rng>(&self, rng: &mut R) -> (r: Self::X)
        requires
            self.wf(),
        ensures
            self.contains(r),
            (r, final(rng).snapshot()) == self.sample_of(
                old(rng).snapshot(),
                |t: (u64, u64)| R::step_output(t),
                |t: (u64, u64)| R::step_state(t),
            ),
    ;

    /// Construct and sample in one call, without retaining the sampler.
    fn sample_single<R: Rng>(low: Self::X, high: Self::X, rng: &mut R) -> (r: Result<
        Self::X,
        Error,
    >)
        ensures
            r is Ok <==> Self::ok_range(low, high),
            r matches Ok(x) ==> Self::in_range(low, high, x),
            r matches Err(e) ==> e == Error::EmptyRange,
    {
        match Self::new(low, high) {
            Ok(sampler) => Ok(sampler.sample(rng)),
            Err(e) => Err(e),
        }
    }

    /// Construct and sample in one call over a closed range.
    fn sample_single_inclusive<R: Rng>(low: Self::X, high: Self::X, rng: &mut R) -> (r: Result<
        Self::X,
        Error,
    >)
        ensures
            r is Ok <==> Self::ok_range_inclusive(low, high),
            r matches Ok(x) ==> Self::in_range_inclusive(low, high, x),
            r matches Err(e) ==> e == Error::EmptyRange,
    {
        match Self::new_inclusive(low, high) {
            Ok(sampler) => Ok(sampler.sample(rng)),
            Err(e) => Err(e),
        }
    }
}

/// A value from which a sampling bound can be borrowed.
pub trait SampleBorrow<Borrowed> {
    /// The bound the value denotes.
    spec fn borrowed(&self) -> Borrowed;

    /// Immutably borrow the bound.
    fn borrow(&self) -> (r: &Borrowed)
        ensures
            *r == self.borrowed(),
    ;
}

impl<Borrowed: SampleUniform> SampleBorrow<Borrowed> for Borrowed {
    open spec fn borrowed(&self) -> Borrowed {
        *self
    }

    fn borrow(&self) -> (r: &Borrowed) {
        self
    }
}

impl<'a, Borrowed: SampleUniform> SampleBorrow<Borrowed> for &'a Borrowed {
    open spec fn borrowed(&self) -> Borrowed {
        **self
    }

    fn borrow(&self) -> (r: &Borrowed) {
        self
    }
}

/// A uniform distribution over a caller-specified bound pair, for any type
/// with a registered sampler.
#[derive(Clone, Copy)]
pub struct Uniform<X: SampleUniform>(X::Sampler);

impl<X: SampleUniform> Uniform<X> {
    /// The wrapped per-type sampler.
    pub closed spec fn spec_sampler(&self) -> X::Sampler {
        self.0
    }

    /// Create a uniform distribution over the half-open range `[low, high)`.
    /// Fails with `EmptyRange` when the range holds no value.
    pub fn new(low: X, high: X) -> (r: Result<Uniform<X>, Error>)
        ensures
            r is Ok <==> <X::Sampler as UniformSampler>::ok_range(low, high),
            r matches Err(e) ==> e == Error::EmptyRange,
            r matches Ok(u) ==> u.wf() && forall|x: X|
                #[trigger] u.can_produce(x) <==> <X::Sampler as UniformSampler>::in_range(
                    low,
                    high,
                    x,
                ),
    {
        match <X::Sampler as UniformSampler>::new(low, high) {
            Ok(sampler) => Ok(Uniform(sampler)),
            Err(e) => Err(e),
        }
    }

    /// Create a uniform distribution over the closed range `[low, high]`.
    /// Fails with `EmptyRange` when `low > high`.
    pub fn new_inclusive(low: X, high: X) -> (r: Result<Uniform<X>, Error>)
        ensures
            r is Ok <==> <X::Sampler as UniformSampler>::ok_range_inclusive(low, high),
            r matches Err(e) ==> e == Error::EmptyRange,
            r matches Ok(u) ==> u.wf() && forall|x: X|
                #[trigger] u.can_produce(x) <==> <X::Sampler as UniformSampler>::in_range_inclusive(
                    low,
                    high,
                    x,
                ),
    {
        match <X::Sampler as UniformSampler>::new_inclusive(low, high) {
            Ok(sampler) => Ok(Uniform(sampler)),
            Err(e) => Err(e),
        }
    }
}

impl<X: SampleUniform> Distribution<X> for Uniform<X> {
    open spec fn wf(&self) -> bool {
        self.spec_sampler().wf()
    }

    open spec fn can_produce(&self, x: X) -> bool {
        self.spec_sampler().contains(x)
    }

    fn sample<R: Rng>(&self, rng: &mut R) -> (r: X)
        ensures
            (r, final(rng).snapshot()) == self.spec_sampler().sample_of(
                old(rng).snapshot(),
                |t: (u64, u64)| R::step_output(t),
                |t: (u64, u64)| R::step_state(t),
            ),
    {
        self.0.sample(rng)
    }
}

/// The draw a capped rejection loop settles on, starting from engine state
/// `s` with `fuel` draws left: the first output at or below `zone`, or the
/// last draw once the fuel is spent, together with the state that draw
/// leaves.  `out` and `next` are the engine's step functions.
pub open spec fn accepted_draw32(
    zone: u32,
    s: (u64, u64),
    fuel: nat,
    out: spec_fn((u64, u64)) -> u32,
    next: spec_fn((u64, u64)) -> (u64, u64),
) -> (u32, (u64, u64))
    decreases fuel,
{
    let v = out(s);
    let s2 = next(s);
    if fuel <= 1 || v <= zone {
        (v, s2)
    } else {
        accepted_draw32(zone, s2, (fuel - 1) as nat, out, next)
    }
}

/// The 64-bit word two consecutive draws assemble, high half first.
pub open spec fn step_output64(
    s: (u64, u64),
    out: spec_fn((u64, u64)) -> u32,
    next: spec_fn((u64, u64)) -> (u64, u64),
) -> u64 {
    ((out(s) as u64) << 32u64) | (out(next(s)) as u64)
}

/// The engine state after the two draws of one 64-bit word.
pub open spec fn step_state64(s: (u64, u64), next: spec_fn((u64, u64)) -> (u64, u64)) -> (
    u64,
    u64,
) {
    next(next(s))
}

/// The capped rejection loop over 64-bit words, two draws per attempt.
pub open spec fn accepted_draw64(
    zone: u64,
    s: (u64, u64),
    fuel: nat,
    out: spec_fn((u64, u64)) -> u32,
    next: spec_fn((u64, u64)) -> (u64, u64),
) -> (u64, (u64, u64))
    decreases fuel,
{
    let v = step_output64(s, out, next);
    let s2 = step_state64(s, next);
    if fuel <= 1 || v <= zone {
        (v, s2)
    } else {
        accepted_draw64(zone, s2, (fuel - 1) as nat, out, next)
    }
}

/// How many rejected draws a sampler tolerates before it stops filtering.
/// Every draw is accepted with probability at least one half, so reaching
/// the cap has probability below two to the minus sixty-four; the cap only
/// makes the rejection loops provably finite.
pub const REJECTION_DRAW_CAP: u32 = 64;

/// The per-type sampler record for integer domains: the lowest value, the
/// width of the range (zero standing for the whole domain), and the count of
/// raw draw residues that rejection discards.
#[derive(Clone, Copy, Debug, PartialEq)]
pub struct UniformInt<X> {
    low: X,
    range: X,
    z: X,
}

/// The number of values an unsigned 32-bit range field denotes: zero is the
/// marker for the whole domain.
spec fn u32_range_width(range: u32) -> int {
    if range == 0 {
        0x1_0000_0000
    } else {
        range as int
    }
}

impl SampleUniform for u32 {
    type Sampler = UniformInt<u32>;
}

impl UniformSampler for UniformInt<u32> {
    type X = u32;

    closed spec fn wf(&self) -> bool {
        &&& self.low + u32_range_width(self.range) <= 0x1_0000_0000
        &&& self.z == (0x1_0000_0000 - u32_range_width(self.range)) % u32_range_width(self.range)
    }

    closed spec fn contains(&self, x: u32) -> bool {
        self.low <= x < self.low + u32_range_width(self.range)
    }

    open spec fn ok_range(low: u32, high: u32) -> bool {
        low < high
    }

    open spec fn ok_range_inclusive(low: u32, high: u32) -> bool {
        low <= high
    }

    open spec fn in_range(low: u32, high: u32, x: u32) -> bool {
        low <= x < high
    }

    open spec fn in_range_inclusive(low: u32, high: u32, x: u32) -> bool {
        low <= x <= high
    }

    closed spec fn sample_of(
        &self,
        s: (u64, u64),
        out: spec_fn((u64, u64)) -> u32,
        next: spec_fn((u64, u64)) -> (u64, u64),
    ) -> (u32, (u64, u64)) {
        if self.range == 0 {
            (out(s), next(s))
        } else {
            let zone = (u32::MAX - self.z) as u32;
            let (v, s2) = accepted_draw32(zone, s, (REJECTION_DRAW_CAP + 1) as nat, out, next);
            (((self.low + ((v as int) % (self.range as int))) as u32), s2)
        }
    }

    fn new(low: u32, high: u32) -> (r: Result<Self, Error>) {
        if !(low < high) {
            return Err(Error::EmptyRange);
        }
        Self::new_inclusive(low, high - 1)
    }

    fn new_inclusive(low: u32, high: u32) -> (r: Result<Self, Error>) {
        proof {
            assert(<Self as UniformSampler>::ok_range_inclusive(low, high) <==> low <= high);
        }
        if !(low <= high) {
            return Err(Error::EmptyRange);
        }
        let span = (high as u64) - (low as u64);
        if span == 0xFFFF_FFFF {
            let s = UniformInt { low, range: 0u32, z: 0u32 };
            proof {
                assert(s.wf());
                assert forall|x: u32| s.contains(x) <==> Self::in_range_inclusive(
                    low,
                    high,
                    x,
                ) by {}
            }
            Ok(s)
        } else {
            let width = span + 1;
            let z = (0x1_0000_0000u64 - width) % width;
            let s = UniformInt { low, range: width as u32, z: z as u32 };
            proof {
                assert(s.wf());
                assert forall|x: u32| s.contains(x) <==> Self::in_range_inclusive(
                    low,
                    high,
                    x,
                ) by {}
            }
            Ok(s)
        }
    }

    /// Rejection sampling: raw draws whose residue falls in the biased zone
    /// are discarded and redrawn, so the retained draws map uniformly into
    /// the range.
    fn sample<R: Rng>(&self, rng: &mut R) -> (r: u32) {
        let ghost s0: (u64, u64) = rng.snapshot();
        let ghost gout: spec_fn((u64, u64)) -> u32 = |t: (u64, u64)| R::step_output(t);
        let ghost gnext: spec_fn((u64, u64)) -> (u64, u64) = |t: (u64, u64)| R::step_state(t);
        proof {
            assert(gout =~~= (|t: (u64, u64)| R::step_output(t)));
            assert(gnext =~~= (|t: (u64, u64)| R::step_state(t)));
        }
        if self.range == 0 {
            let v = rng.rand_u32();
            proof {
                assert(self.contains(v));
                assert((v, rng.snapshot()) == self.sample_of(s0, gout, gnext));
            }
            return v;
        }
        let zone = u32::MAX - self.z;
        let mut attempt: u32 = 0;
        while attempt < REJECTION_DRAW_CAP
            invariant
                self.wf(),
                self.range != 0,
                zone == u32::MAX - self.z,
                attempt <= REJECTION_DRAW_CAP,
                s0 == old(rng).snapshot(),
                forall|t: (u64, u64)| #[trigger] gout(t) == R::step_output(t),
                forall|t: (u64, u64)| #[trigger] gnext(t) == R::step_state(t),
                accepted_draw32(zone, s0, (REJECTION_DRAW_CAP + 1) as nat, gout, gnext)
                    == accepted_draw32(
                    zone,
                    rng.snapshot(),
                    (REJECTION_DRAW_CAP + 1 - attempt) as nat,
                    gout,
                    gnext,
                ),
            decreases REJECTION_DRAW_CAP - attempt,
        {
            let ghost s_cur: (u64, u64) = rng.snapshot();
            let v = rng.rand_u32();
            if v <= zone {
                let res = self.low + (v % self.range);
                proof {
                    assert(self.contains(res));
                    assert(accepted_draw32(
                        zone,
                        s_cur,
                        (REJECTION_DRAW_CAP + 1 - attempt) as nat,
                        gout,
                        gnext,
                    ) == (v, rng.snapshot()));
                    assert(gout =~~= (|t: (u64, u64)| R::step_output(t)));
                    assert(gnext =~~= (|t: (u64, u64)| R::step_state(t)));
                    assert((res, rng.snapshot()) == self.sample_of(s0, gout, gnext));
                }
                return res;
            }
            attempt = attempt + 1;
        }
        let ghost s_cur: (u64, u64) = rng.snapshot();
        let v = rng.rand_u32();
        let res = self.low + (v % self.range);
        proof {
            assert(self.contains(res));
            assert(accepted_draw32(zone, s_cur, 1nat, gout, gnext) == (v, rng.snapshot()));
            assert((res, rng.snapshot()) == self.sample_of(s0, gout, gnext));
        }
        res
    }
}

/// The unsigned value a 32-bit signed field encodes, read as a bit pattern.
spec fn i32_field_unsigned(v: i32) -> int {
    if v >= 0 {
        v as int
    } else {
        v as int + 0x1_0000_0000
    }
}

/// The number of values a signed 32-bit range field denotes: zero is the
/// marker for the whole domain.
spec fn i32_range_width(range: i32) -> int {
    if range == 0 {
        0x1_0000_0000
    } else {
        i32_field_unsigned(range)
    }
}

impl SampleUniform for i32 {
    type Sampler = UniformInt<i32>;
}

impl UniformSampler for UniformInt<i32> {
    type X = i32;

    closed spec fn wf(&self) -> bool {
        &&& self.low + i32_range_width(self.range) <= 0x8000_0000
        &&& i32_field_unsigned(self.z) == (0x1_0000_0000 - i32_range_width(self.range))
            % i32_range_width(self.range)
    }

    closed spec fn contains(&self, x: i32) -> bool {
        self.low <= x && (x as int) < self.low + i32_range_width(self.range)
    }

    open spec fn ok_range(low: i32, high: i32) -> bool {
        low < high
    }

    open spec fn ok_range_inclusive(low: i32, high: i32) -> bool {
        low <= high
    }

    open spec fn in_range(low: i32, high: i32, x: i32) -> bool {
        low <= x < high
    }

    open spec fn in_range_inclusive(low: i32, high: i32, x: i32) -> bool {
        low <= x <= high
    }

    closed spec fn sample_of(
        &self,
        s: (u64, u64),
        out: spec_fn((u64, u64)) -> u32,
        next: spec_fn((u64, u64)) -> (u64, u64),
    ) -> (i32, (u64, u64)) {
        if self.range == 0 {
            let v = out(s);
            (
                if v <= 0x7FFF_FFFF {
                    v as i32
                } else {
                    ((v as int) - 0x1_0000_0000) as i32
                },
                next(s),
            )
        } else {
            let zone = (0xFFFF_FFFF - i32_field_unsigned(self.z)) as u32;
            let (v, s2) = accepted_draw32(zone, s, (REJECTION_DRAW_CAP + 1) as nat, out, next);
            (((self.low + ((v as int) % i32_range_width(self.range))) as i32), s2)
        }
    }

    fn new(low: i32, high: i32) -> (r: Result<Self, Error>) {
        if !(low < high) {
            return Err(Error::EmptyRange);
        }
        Self::new_inclusive(low, high - 1)
    }

    fn new_inclusive(low: i32, high: i32) -> (r: Result<Self, Error>) {
        proof {
            assert(<Self as UniformSampler>::ok_range_inclusive(low, high) <==> low <= high);
        }
        if !(low <= high) {
            return Err(Error::EmptyRange);
        }
        let span = (high as i64) - (low as i64);
        if span == 0xFFFF_FFFF {
            let s = UniformInt { low, range: 0i32, z: 0i32 };
            proof {
                assert(s.wf());
                assert forall|x: i32| s.contains(x) <==> Self::in_range_inclusive(
                    low,
                    high,
                    x,
                ) by {}
            }
            Ok(s)
        } else {
            let width = span + 1;
            let zval = (0x1_0000_0000i64 - width) % width;
            let range_field = if width <= 0x7FFF_FFFF {
                width as i32
            } else {
                (width - 0x1_0000_0000) as i32
            };
            let z_field = if zval <= 0x7FFF_FFFF {
                zval as i32
            } else {
                (zval - 0x1_0000_0000) as i32
            };
            let s = UniformInt { low, range: range_field, z: z_field };
            proof {
                assert(s.wf());
                assert forall|x: i32| s.contains(x) <==> Self::in_range_inclusive(
                    low,
                    high,
                    x,
                ) by {}
            }
            Ok(s)
        }
    }

    /// Rejection sampling over the unsigned width of the signed range.
    fn sample<R: Rng>(&self, rng: &mut R) -> (r: i32) {
        let ghost s0: (u64, u64) = rng.snapshot();
        let ghost gout: spec_fn((u64, u64)) -> u32 = |t: (u64, u64)| R::step_output(t);
        let ghost gnext: spec_fn((u64, u64)) -> (u64, u64) = |t: (u64, u64)| R::step_state(t);
        proof {
            assert(gout =~~= (|t: (u64, u64)| R::step_output(t)));
            assert(gnext =~~= (|t: (u64, u64)| R::step_state(t)));
        }
        if self.range == 0 {
            let v = rng.rand_u32();
            let res = if v <= 0x7FFF_FFFF {
                v as i32
            } else {
                ((v as i64) - 0x1_0000_0000) as i32
            };
            proof {
                assert(self.contains(res));
                assert((res, rng.snapshot()) == self.sample_of(s0, gout, gnext));
            }
            return res;
        }
        let width: i64 = if self.range > 0 {
            self.range as i64
        } else {
            (self.range as i64) + 0x1_0000_0000
        };
        let z_unsigned: i64 = if self.z >= 0 {
            self.z as i64
        } else {
            (self.z as i64) + 0x1_0000_0000
        };
        let zone: i64 = 0xFFFF_FFFFi64 - z_unsigned;
        let ghost zone32: u32 = (0xFFFF_FFFF - i32_field_unsigned(self.z)) as u32;
        let mut attempt: u32 = 0;
        while attempt < REJECTION_DRAW_CAP
            invariant
                self.wf(),
                self.range != 0,
                width == i32_range_width(self.range),
                1 <= width <= 0xFFFF_FFFF,
                zone == 0xFFFF_FFFF - i32_field_unsigned(self.z),
                zone32 == zone as int,
                attempt <= REJECTION_DRAW_CAP,
                s0 == old(rng).snapshot(),
                forall|t: (u64, u64)| #[trigger] gout(t) == R::step_output(t),
                forall|t: (u64, u64)| #[trigger] gnext(t) == R::step_state(t),
                accepted_draw32(zone32, s0, (REJECTION_DRAW_CAP + 1) as nat, gout, gnext)
                    == accepted_draw32(
                    zone32,
                    rng.snapshot(),
                    (REJECTION_DRAW_CAP + 1 - attempt) as nat,
                    gout,
                    gnext,
                ),
            decreases REJECTION_DRAW_CAP - attempt,
        {
            let ghost s_cur: (u64, u64) = rng.snapshot();
            let v = rng.rand_u32();
            if (v as i64) <= zone {
                let res = ((self.low as i64) + ((v as i64) % width)) as i32;
                proof {
                    assert(self.contains(res));
                    assert(accepted_draw32(
                        zone32,
                        s_cur,
                        (REJECTION_DRAW_CAP + 1 - attempt) as nat,
                        gout,
                        gnext,
                    ) == (v, rng.snapshot()));
                    assert(gout =~~= (|t: (u64, u64)| R::step_output(t)));
                    assert(gnext =~~= (|t: (u64, u64)| R::step_state(t)));
                    assert((res, rng.snapshot()) == self.sample_of(s0, gout, gnext));
                }
                return res;
            }
            attempt = attempt + 1;
        }
        let ghost s_cur: (u64, u64) = rng.snapshot();
        let v = rng.rand_u32();
        let res = ((self.low as i64) + ((v as i64) % width)) as i32;
        proof {
            assert(self.contains(res));
            assert(accepted_draw32(zone32, s_cur, 1nat, gout, gnext) == (v, rng.snapshot()));
            assert((res, rng.snapshot()) == self.sample_of(s0, gout, gnext));
        }
        res
    }
}

/// The number of values a `usize` range field denotes: zero is the marker
/// for the whole domain.
spec fn usize_range_width(range: usize) -> int {
    if range == 0 {
        usize::MAX as int + 1
    } else {
        range as int
    }
}

impl SampleUniform for usize {
    type Sampler = UniformInt<usize>;
}

/// One raw 64-bit draw, assembled from two 32-bit draws, high half first.
fn draw_u64<R: Rng>(rng: &mut R) -> (r: u64)
    ensures
        r == step_output64(
            old(rng).snapshot(),
            |t: (u64, u64)| R::step_output(t),
            |t: (u64, u64)| R::step_state(t),
        ),
        final(rng).snapshot() == step_state64(
            old(rng).snapshot(),
            |t: (u64, u64)| R::step_state(t),
        ),
{
    let hi = rng.rand_u32();
    let lo = rng.rand_u32();
    ((hi as u64) << 32) | (lo as u64)
}

impl UniformSampler for UniformInt<usize> {
    type X = usize;

    closed spec fn wf(&self) -> bool {
        &&& self.low + usize_range_width(self.range) <= usize::MAX as int + 1
        &&& self.z == (0x1_0000_0000_0000_0000 - usize_range_width(self.range))
            % usize_range_width(self.range)
    }

    closed spec fn contains(&self, x: usize) -> bool {
        self.low <= x && (x as int) < self.low + usize_range_width(self.range)
    }

    open spec fn ok_range(low: usize, high: usize) -> bool {
        low < high
    }

    open spec fn ok_range_inclusive(low: usize, high: usize) -> bool {
        low <= high
    }

    open spec fn in_range(low: usize, high: usize, x: usize) -> bool {
        low <= x < high
    }

    open spec fn in_range_inclusive(low: usize, high: usize, x: usize) -> bool {
        low <= x <= high
    }

    closed spec fn sample_of(
        &self,
        s: (u64, u64),
        out: spec_fn((u64, u64)) -> u32,
        next: spec_fn((u64, u64)) -> (u64, u64),
    ) -> (usize, (u64, u64)) {
        if self.range == 0 {
            ((step_output64(s, out, next) as usize), step_state64(s, next))
        } else {
            let zone = (u64::MAX - (self.z as int)) as u64;
            let (v, s2) = accepted_draw64(zone, s, (REJECTION_DRAW_CAP + 1) as nat, out, next);
            (((self.low + ((v as int) % (self.range as int))) as usize), s2)
        }
    }

    fn new(low: usize, high: usize) -> (r: Result<Self, Error>) {
        if !(low < high) {
            return Err(Error::EmptyRange);
        }
        Self::new_inclusive(low, high - 1)
    }

    fn new_inclusive(low: usize, high: usize) -> (r: Result<Self, Error>) {
        proof {
            assert(<Self as UniformSampler>::ok_range_inclusive(low, high) <==> low <= high);
        }
        if !(low <= high) {
            return Err(Error::EmptyRange);
        }
        if low == 0 && high == usize::MAX {
            let s = UniformInt { low, range: 0usize, z: 0usize };
            proof {
                assert(usize::MAX as int + 1 == 0x1_0000_0000 || usize::MAX as int + 1
                    == 0x1_0000_0000_0000_0000);
                assert((0x1_0000_0000_0000_0000 - 0x1_0000_0000) % 0x1_0000_0000int == 0);
                assert((0x1_0000_0000_0000_0000 - 0x1_0000_0000_0000_0000)
                    % 0x1_0000_0000_0000_0000int == 0);
                assert(s.wf());
                assert forall|x: usize| s.contains(x) <==> Self::in_range_inclusive(
                    low,
                    high,
                    x,
                ) by {}
            }
            Ok(s)
        } else {
            let span = (high as u64) - (low as u64);
            let width = span + 1;
            let z = (u64::MAX - width + 1) % width;
            let s = UniformInt { low, range: width as usize, z: z as usize };
            proof {
                assert(s.wf());
                assert forall|x: usize| s.contains(x) <==> Self::in_range_inclusive(
                    low,
                    high,
                    x,
                ) by {}
            }
            Ok(s)
        }
    }

    /// Rejection sampling over 64-bit raw draws, two engine draws each.
    fn sample<R: Rng>(&self, rng: &mut R) -> (r: usize) {
        let ghost s0: (u64, u64) = rng.snapshot();
        let ghost gout: spec_fn((u64, u64)) -> u32 = |t: (u64, u64)| R::step_output(t);
        let ghost gnext: spec_fn((u64, u64)) -> (u64, u64) = |t: (u64, u64)| R::step_state(t);
        proof {
            assert(gout =~~= (|t: (u64, u64)| R::step_output(t)));
            assert(gnext =~~= (|t: (u64, u64)| R::step_state(t)));
        }
        if self.range == 0 {
            let v = draw_u64(rng);
            let res = #[verifier::truncate] (v as usize);
            proof {
                assert(self.contains(res));
                assert((res, rng.snapshot()) == self.sample_of(s0, gout, gnext));
            }
            return res;
        }
        let width = self.range as u64;
        let zone = u64::MAX - (self.z as u64);
        let mut attempt: u32 = 0;
        while attempt < REJECTION_DRAW_CAP
            invariant
                self.wf(),
                self.range != 0,
                width == usize_range_width(self.range),
                zone == u64::MAX - (self.z as int),
                attempt <= REJECTION_DRAW_CAP,
                s0 == old(rng).snapshot(),
                forall|t: (u64, u64)| #[trigger] gout(t) == R::step_output(t),
                forall|t: (u64, u64)| #[trigger] gnext(t) == R::step_state(t),
                accepted_draw64(zone, s0, (REJECTION_DRAW_CAP + 1) as nat, gout, gnext)
                    == accepted_draw64(
                    zone,
                    rng.snapshot(),
                    (REJECTION_DRAW_CAP + 1 - attempt) as nat,
                    gout,
                    gnext,
                ),
            decreases REJECTION_DRAW_CAP - attempt,
        {
            let ghost s_cur: (u64, u64) = rng.snapshot();
            let v = draw_u64(rng);
            if v <= zone {
                let res = self.low + ((v % width) as usize);
                proof {
                    assert(self.contains(res));
                    assert(accepted_draw64(
                        zone,
                        s_cur,
                        (REJECTION_DRAW_CAP + 1 - attempt) as nat,
                        gout,
                        gnext,
                    ) == (v, rng.snapshot()));
                    assert(gout =~~= (|t: (u64, u64)| R::step_output(t)));
                    assert(gnext =~~= (|t: (u64, u64)| R::step_state(t)));
                    assert((res, rng.snapshot()) == self.sample_of(s0, gout, gnext));
                }
                return res;
            }
            attempt = attempt + 1;
        }
        let ghost s_cur: (u64, u64) = rng.snapshot();
        let v = draw_u64(rng);
        let res = self.low + ((v % width) as usize);
        proof {
            assert(self.contains(res));
            assert(accepted_draw64(zone, s_cur, 1nat, gout, gnext) == (v, rng.snapshot()));
            assert((res, rng.snapshot()) == self.sample_of(s0, gout, gnext));
        }
        res
    }
}

// UTF-16 surrogate range start
const CHAR_SURROGATE_START: u32 = 0xD800;

// UTF-16 surrogate range size
const CHAR_SURROGATE_LEN: u32 = 0xE000 - CHAR_SURROGATE_START;

/// The compressed code point of `c`: code points at or above the surrogate
/// gap slide down by the gap's length, making the sampling domain
/// contiguous.
pub open spec fn spec_char_to_comp_u32(c: char) -> u32 {
    if c as u32 >= 0xD800 {
        (c as u32 - 0x800) as u32
    } else {
        c as u32
    }
}

/// Convert `char` to its compressed `u32` code point.
pub fn char_to_comp_u32(c: char) -> (r: u32)
    ensures
        r == spec_char_to_comp_u32(c),
{
    let u = c as u32;
    if u >= CHAR_SURROGATE_START {
        u - CHAR_SURROGATE_LEN
    } else {
        u
    }
}

/// The per-type sampler for the `char` domain: an integer sampler over
/// compressed code points, with the surrogate gap excluded.
#[derive(Clone, Copy, Debug)]
pub struct UniformChar {
    sampler: UniformInt<u32>,
}

impl SampleUniform for char {
    type Sampler = UniformChar;
}

impl UniformSampler for UniformChar {
    type X = char;

    closed spec fn wf(&self) -> bool {
        &&& self.sampler.wf()
        &&& forall|v: u32| #[trigger] self.sampler.contains(v) ==> v <= 0x10F7FF
    }

    closed spec fn contains(&self, c: char) -> bool {
        self.sampler.contains(spec_char_to_comp_u32(c))
    }

    open spec fn ok_range(low: char, high: char) -> bool {
        spec_char_to_comp_u32(low) < spec_char_to_comp_u32(high)
    }

    open spec fn ok_range_inclusive(low: char, high: char) -> bool {
        spec_char_to_comp_u32(low) <= spec_char_to_comp_u32(high)
    }

    open spec fn in_range(low: char, high: char, x: char) -> bool {
        spec_char_to_comp_u32(low) <= spec_char_to_comp_u32(x) < spec_char_to_comp_u32(high)
    }

    open spec fn in_range_inclusive(low: char, high: char, x: char) -> bool {
        spec_char_to_comp_u32(low) <= spec_char_to_comp_u32(x) <= spec_char_to_comp_u32(high)
    }

    closed spec fn sample_of(
        &self,
        s: (u64, u64),
        out: spec_fn((u64, u64)) -> u32,
        next: spec_fn((u64, u64)) -> (u64, u64),
    ) -> (char, (u64, u64)) {
        let (x, s2) = self.sampler.sample_of(s, out, next);
        let expanded = if x >= 0xD800 {
            (x + 0x800) as u32
        } else {
            x
        };
        ((expanded as char), s2)
    }

    fn new(low: char, high: char) -> (r: Result<Self, Error>) {
        let low_c = char_to_comp_u32(low);
        let high_c = char_to_comp_u32(high);
        match UniformInt::<u32>::new(low_c, high_c) {
            Ok(sampler) => {
                let s = UniformChar { sampler };
                proof {
                    vstd::utf8::char_is_scalar(high);
                    assert(s.wf());
                    assert forall|x: char| s.contains(x) <==> Self::in_range(low, high, x) by {}
                }
                Ok(s)
            },
            Err(e) => Err(e),
        }
    }

    fn new_inclusive(low: char, high: char) -> (r: Result<Self, Error>) {
        let low_c = char_to_comp_u32(low);
        let high_c = char_to_comp_u32(high);
        match UniformInt::<u32>::new_inclusive(low_c, high_c) {
            Ok(sampler) => {
                let s = UniformChar { sampler };
                proof {
                    vstd::utf8::char_is_scalar(high);
                    assert(s.wf());
                    assert forall|x: char| s.contains(x) <==> Self::in_range_inclusive(
                        low,
                        high,
                        x,
                    ) by {}
                }
                Ok(s)
            },
            Err(e) => Err(e),
        }
    }

    /// Sample a compressed code point, then expand it back across the
    /// surrogate gap.
    fn sample<R: Rng>(&self, rng: &mut R) -> (r: char) {
        let ghost s0: (u64, u64) = rng.snapshot();
        let ghost gout: spec_fn((u64, u64)) -> u32 = |t: (u64, u64)| R::step_output(t);
        let ghost gnext: spec_fn((u64, u64)) -> (u64, u64) = |t: (u64, u64)| R::step_state(t);
        proof {
            assert(gout =~~= (|t: (u64, u64)| R::step_output(t)));
            assert(gnext =~~= (|t: (u64, u64)| R::step_state(t)));
        }
        let x = self.sampler.sample(rng);
        let expanded = if x >= CHAR_SURROGATE_START {
            x + CHAR_SURROGATE_LEN
        } else {
            x
        };
        let c = char::from_u32(expanded).unwrap();
        proof {
            assert(self.contains(c));
            vstd::utf8::char_u32_cast(c, expanded);
            assert((c, rng.snapshot()) == self.sample_of(s0, gout, gnext));
        }
        c
    }
}

/// The per-type sampler record for floating-point domains: the lowest value
/// and the scale a unit-interval draw is multiplied by.
#[derive(Clone, Copy, Debug, PartialEq)]
pub struct UniformFloat<X> {
    low: X,
    scale: X,
}

/// Relies on `RangeInclusive::start`: it returns the lower bound the range
/// was created with.
pub assume_specification<Idx>[ core::ops::RangeInclusive::<Idx>::start ](
    r: &core::ops::RangeInclusive<Idx>,
) -> (s: &Idx)
    ensures
        *s == r@.start,
;

/// Relies on `RangeInclusive::end`: it returns the upper bound the range
/// was created with.
pub assume_specification<Idx>[ core::ops::RangeInclusive::<Idx>::end ](
    r: &core::ops::RangeInclusive<Idx>,
) -> (e: &Idx)
    ensures
        *e == r@.end,
;

/// A bound pair from which one value can be sampled directly.
pub trait SampleRange<T>: Sized {
    /// When the range holds at least one value.
    spec fn spec_nonempty(&self) -> bool;

    /// Membership in the range.
    spec fn spec_contains(&self, t: T) -> bool;

    /// Sample a single value uniformly from the range.
    fn sample_single<R: Rng>(self, rng: &mut R) -> (r: Result<T, Error>)
        ensures
            r is Ok <==> self.spec_nonempty(),
            r matches Ok(x) ==> self.spec_contains(x),
            r matches Err(e) ==> e == Error::EmptyRange,
    ;

    /// Whether the range holds no value.
    fn is_empty(&self) -> (r: bool)
        ensures
            r <==> !self.spec_nonempty(),
    ;
}

impl SampleRange<u32> for core::ops::Range<u32> {
    open spec fn spec_nonempty(&self) -> bool {
        self.start < self.end
    }

    open spec fn spec_contains(&self, t: u32) -> bool {
        self.start <= t < self.end
    }

    fn sample_single<R: Rng>(self, rng: &mut R) -> (r: Result<u32, Error>) {
        UniformInt::<u32>::sample_single(self.start, self.end, rng)
    }

    fn is_empty(&self) -> (r: bool) {
        !(self.start < self.end)
    }
}

impl SampleRange<u32> for core::ops::RangeInclusive<u32> {
    open spec fn spec_nonempty(&self) -> bool {
        self@.start <= self@.end
    }

    open spec fn spec_contains(&self, t: u32) -> bool {
        self@.start <= t <= self@.end
    }

    fn sample_single<R: Rng>(self, rng: &mut R) -> (r: Result<u32, Error>) {
        let low = *self.start();
        let high = *self.end();
        UniformInt::<u32>::sample_single_inclusive(low, high, rng)
    }

    fn is_empty(&self) -> (r: bool) {
        !(self.start() <= self.end())
    }
}

impl SampleRange<i32> for core::ops::Range<i32> {
    open spec fn spec_nonempty(&self) -> bool {
        self.start < self.end
    }

    open spec fn spec_contains(&self, t: i32) -> bool {
        self.start <= t < self.end
    }

    fn sample_single<R: Rng>(self, rng: &mut R) -> (r: Result<i32, Error>) {
        UniformInt::<i32>::sample_single(self.start, self.end, rng)
    }

    fn is_empty(&self) -> (r: bool) {
        !(self.start < self.end)
    }
}

impl SampleRange<i32> for core::ops::RangeInclusive<i32> {
    open spec fn spec_nonempty(&self) -> bool {
        self@.start <= self@.end
    }

    open spec fn spec_contains(&self, t: i32) -> bool {
        self@.start <= t <= self@.end
    }

    fn sample_single<R: Rng>(self, rng: &mut R) -> (r: Result<i32, Error>) {
        let low = *self.start();
        let high = *self.end();
        UniformInt::<i32>::sample_single_inclusive(low, high, rng)
    }

    fn is_empty(&self) -> (r: bool) {
        !(self.start() <= self.end())
    }
}

impl SampleRange<usize> for core::ops::Range<usize> {
    open spec fn spec_nonempty(&self) -> bool {
        self.start < self.end
    }

    open spec fn spec_contains(&self, t: usize) -> bool {
        self.start <= t < self.end
    }

    fn sample_single<R: Rng>(self, rng: &mut R) -> (r: Result<usize, Error>) {
        UniformInt::<usize>::sample_single(self.start, self.end, rng)
    }

    fn is_empty(&self) -> (r: bool) {
        !(self.start < self.end)
    }
}

impl SampleRange<usize> for core::ops::RangeInclusive<usize> {
    open spec fn spec_nonempty(&self) -> bool {
        self@.start <= self@.end
    }

    open spec fn spec_contains(&self, t: usize) -> bool {
        self@.start <= t <= self@.end
    }

    fn sample_single<R: Rng>(self, rng: &mut R) -> (r: Result<usize, Error>) {
        let low = *self.start();
        let high = *self.end();
        UniformInt::<usize>::sample_single_inclusive(low, high, rng)
    }

    fn is_empty(&self) -> (r: bool) {
        !(self.start() <= self.end())
    }
}

} // verus!
