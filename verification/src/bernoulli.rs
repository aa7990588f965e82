//! The Bernoulli distribution: a boolean draw whose probability of `true`
//! is a fixed-point fraction of the full 64-bit integer range.

use vstd::prelude::*;

verus! {

use crate::distribution::Distribution;
use crate::utils::Rng;

/// A boolean distribution with `P(true)` encoded as a 64-bit fixed-point
/// probability, with `u64::MAX` the sentinel for "always true".
#[derive(Clone, Copy, Debug, PartialEq)]
pub struct Bernoulli {
    p_int: u64,
}

// The sentinel encoding a probability of exactly one.
const ALWAYS_TRUE: u64 = u64::MAX;

/// Why constructing a Bernoulli distribution failed.
#[derive(Clone, Copy, Debug, PartialEq, Eq, Structural)]
pub enum BernoulliError {
    /// The requested probability lies outside `[0, 1]`.
    InvalidProbability,
}

impl BernoulliError {
    /// A short description of the failure.
    pub fn message(&self) -> (r: &'static str) {
        match self {
            BernoulliError::InvalidProbability => "p is outside [0, 1] in Bernoulli distribution",
        }
    }
}

impl Bernoulli {
    /// The fixed-point probability the distribution carries.
    pub closed spec fn spec_p_int(&self) -> u64 {
        self.p_int
    }

    /// Construct directly from the fixed-point encoding: `p_int` counts
    /// units of one over two to the sixty-four, and `u64::MAX` means
    /// "always true".  Every encoding is a probability in `[0, 1]`, so this
    /// cannot fail; it is the integer-side door for callers that turn a
    /// floating probability into its fixed-point image.
    pub fn from_fixed(p_int: u64) -> (r: Bernoulli)
        ensures
            r.spec_p_int() == p_int,
    {
        Bernoulli { p_int }
    }

    /// Construct a new `Bernoulli` with a probability of success of
    /// `numerator`-in-`denominator`.  Fails when the denominator is zero or
    /// the ratio exceeds one; a ratio of exactly one becomes the sentinel,
    /// and otherwise the encoding is the exact fixed-point floor of the
    /// ratio.
    pub fn from_ratio(numerator: u32, denominator: u32) -> (r: Result<Bernoulli, BernoulliError>)
        ensures
            r is Ok <==> (denominator != 0 && numerator <= denominator),
            r matches Err(e) ==> e == BernoulliError::InvalidProbability,
            (denominator != 0 && numerator == denominator) ==> (r matches Ok(b) && b.spec_p_int()
                == u64::MAX),
            (denominator != 0 && numerator < denominator) ==> (r matches Ok(b) && b.spec_p_int()
                == ((numerator as int) * 0x1_0000_0000_0000_0000) / (denominator as int)),
    {
        if numerator > denominator || denominator == 0 {
            return Err(BernoulliError::InvalidProbability);
        }
        if numerator == denominator {
            return Ok(Bernoulli { p_int: ALWAYS_TRUE });
        }
        let scaled = (numerator as u128) * 0x1_0000_0000_0000_0000u128;
        let p128 = scaled / (denominator as u128);
        proof {
            assert(((numerator as int) * 0x1_0000_0000_0000_0000) / (denominator as int)
                < 0x1_0000_0000_0000_0000) by (nonlinear_arith)
                requires
                    numerator < denominator,
                    denominator > 0,
            ;
        }
        Ok(Bernoulli { p_int: p128 as u64 })
    }
}

impl Distribution<bool> for Bernoulli {
    open spec fn wf(&self) -> bool {
        true
    }

    /// The sentinel can only yield `true`; an encoding below one unit of the
    /// draw's resolution can only yield `false`; anything between can yield
    /// either.
    open spec fn can_produce(&self, b: bool) -> bool {
        if self.spec_p_int() == u64::MAX {
            b == true
        } else if self.spec_p_int() < 0x1_0000_0000 {
            b == false
        } else {
            true
        }
    }

    /// The sentinel short-circuits before any draw, leaving the engine
    /// untouched.  Otherwise one raw 32-bit draw is compared against the
    /// high 32 bits of the fixed-point probability: the sampling resolution
    /// is deliberately that of the draw, one part in two to the thirty-two.
    fn sample<R: Rng>(&self, rng: &mut R) -> (r: bool)
        ensures
            self.spec_p_int() == u64::MAX ==> (r && *final(rng) == *old(rng)),
            self.spec_p_int() != u64::MAX ==> ({
                &&& r == (R::step_output(old(rng).snapshot()) < ((self.spec_p_int()
                    >> 32u64) as u32))
                &&& final(rng).snapshot() == R::step_state(old(rng).snapshot())
            }),
    {
        if self.p_int == ALWAYS_TRUE {
            return true;
        }
        let v = rng.rand_u32();
        let ghost p: u64 = self.p_int;
        proof {
            assert((p >> 32u64) < 0x1_0000_0000) by (bit_vector);
            assert(p < 0x1_0000_0000 ==> (p >> 32u64) == 0) by (bit_vector);
        }
        let threshold = (self.p_int >> 32) as u32;
        v < threshold
    }
}

} // verus!
