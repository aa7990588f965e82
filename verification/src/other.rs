//! Distributions over small fixed alphabets and the primitive instances of
//! `Standard`.

use vstd::prelude::*;

verus! {

use crate::distribution::Distribution;
use crate::distribution::Standard;
use crate::uniform::accepted_draw32;
use crate::uniform::REJECTION_DRAW_CAP;
use crate::utils::Rng;

/// A distribution over the sixty-two alphanumeric ASCII bytes.
#[derive(Debug, Clone, Copy)]
pub struct Alphanumeric;

/// Whether `b` is an ASCII alphanumeric byte.
pub open spec fn is_alnum_byte(b: u8) -> bool {
    (65 <= b <= 90) || (97 <= b <= 122) || (48 <= b <= 57)
}

/// The alphanumeric byte at position `i` of the sampling alphabet: upper
/// case letters first, then lower case letters, then digits.
pub open spec fn spec_alnum_byte(i: u32) -> u8
    recommends
        i < 62,
{
    if i < 26 {
        (65 + i) as u8
    } else if i < 52 {
        (97 + (i - 26)) as u8
    } else {
        (48 + (i - 52)) as u8
    }
}

/// The alphabet position `i` turned into its ASCII byte.
fn alnum_byte(i: u32) -> (r: u8)
    requires
        i < 62,
    ensures
        r == spec_alnum_byte(i),
        is_alnum_byte(r),
{
    if i < 26 {
        (65 + i) as u8
    } else if i < 52 {
        (97 + (i - 26)) as u8
    } else {
        (48 + (i - 52)) as u8
    }
}

impl Distribution<u8> for Alphanumeric {
    open spec fn wf(&self) -> bool {
        true
    }

    open spec fn can_produce(&self, b: u8) -> bool {
        is_alnum_byte(b)
    }

    /// Sixty-two alternatives sit close under the power of two sixty-four,
    /// so a six-bit draw with rejection beats the generic uniform machinery.
    /// The top six bits are kept because small engines have their highest
    /// quality there.  The result and the engine's final state are exact
    /// functions of the engine's starting state: the accepted draw's top
    /// six bits name the position in the alphabet.
    fn sample<R: Rng>(&self, rng: &mut R) -> (r: u8)
        ensures
            ({
                let (v, s2) = accepted_draw32(
                    0xF7FF_FFFF,
                    old(rng).snapshot(),
                    (REJECTION_DRAW_CAP + 1) as nat,
                    |t: (u64, u64)| R::step_output(t),
                    |t: (u64, u64)| R::step_state(t),
                );
                &&& r == spec_alnum_byte((((v >> 26u32) as int % 62) as u32))
                &&& final(rng).snapshot() == s2
            }),
    {
        let ghost s0: (u64, u64) = rng.snapshot();
        let ghost gout: spec_fn((u64, u64)) -> u32 = |t: (u64, u64)| R::step_output(t);
        let ghost gnext: spec_fn((u64, u64)) -> (u64, u64) = |t: (u64, u64)| R::step_state(t);
        proof {
            assert(gout =~~= (|t: (u64, u64)| R::step_output(t)));
            assert(gnext =~~= (|t: (u64, u64)| R::step_state(t)));
        }
        let mut attempt: u32 = 0;
        while attempt < REJECTION_DRAW_CAP
            invariant
                attempt <= REJECTION_DRAW_CAP,
                s0 == old(rng).snapshot(),
                forall|t: (u64, u64)| #[trigger] gout(t) == R::step_output(t),
                forall|t: (u64, u64)| #[trigger] gnext(t) == R::step_state(t),
                accepted_draw32(0xF7FF_FFFF, s0, (REJECTION_DRAW_CAP + 1) as nat, gout, gnext)
                    == accepted_draw32(
                    0xF7FF_FFFF,
                    rng.snapshot(),
                    (REJECTION_DRAW_CAP + 1 - attempt) as nat,
                    gout,
                    gnext,
                ),
            decreases REJECTION_DRAW_CAP - attempt,
        {
            let ghost s_cur: (u64, u64) = rng.snapshot();
            let v = rng.rand_u32();
            let var = v >> 26;
            proof {
                assert(((v >> 26u32) < 62) <==> (v <= 0xF7FF_FFFFu32)) by (bit_vector);
                assert((v >> 26u32) < 64) by (bit_vector);
            }
            if var < 62 {
                let res = alnum_byte(var);
                proof {
                    assert(accepted_draw32(
                        0xF7FF_FFFF,
                        s_cur,
                        (REJECTION_DRAW_CAP + 1 - attempt) as nat,
                        gout,
                        gnext,
                    ) == (v, rng.snapshot()));
                    assert(((v >> 26u32) as int % 62) == var as int);
                    assert(gout =~~= (|t: (u64, u64)| R::step_output(t)));
                    assert(gnext =~~= (|t: (u64, u64)| R::step_state(t)));
                }
                return res;
            }
            attempt = attempt + 1;
        }
        let ghost s_cur: (u64, u64) = rng.snapshot();
        let v = rng.rand_u32();
        let var = (v >> 26) % 62;
        let res = alnum_byte(var);
        proof {
            assert((v >> 26u32) < 64) by (bit_vector);
            assert(accepted_draw32(0xF7FF_FFFF, s_cur, 1nat, gout, gnext) == (v, rng.snapshot()));
            assert(((v >> 26u32) as int % 62) == var as int);
        }
        res
    }
}

/// One sign-bit boolean draw: `true` exactly when the single signed draw
/// is negative, consuming one engine step.  The signed domain has one more
/// negative value than non-negative, so `true` carries a
/// one-in-two-to-the-thirty-two excess; the sign-bit test keeps that tiny
/// bias and documents it rather than masking it away.
pub fn sign_bit_draw<R: Rng>(rng: &mut R) -> (r: bool)
    ensures
        r == ((R::step_output(old(rng).snapshot()) as i32) < 0),
        final(rng).snapshot() == R::step_state(old(rng).snapshot()),
{
    rng.rand_i32() < 0
}

impl Distribution<bool> for Standard {
    open spec fn wf(&self) -> bool {
        true
    }

    /// Both booleans are reachable; the exact sign-bit rule is stated on
    /// `sign_bit_draw`, which `sample` is one call of.
    open spec fn can_produce(&self, b: bool) -> bool {
        true
    }

    /// The sign bit of a signed draw decides the boolean: one call of
    /// `sign_bit_draw`, which carries the exact contract.
    fn sample<R: Rng>(&self, rng: &mut R) -> (r: bool) {
        sign_bit_draw(rng)
    }
}

impl Distribution<()> for Standard {
    open spec fn wf(&self) -> bool {
        true
    }

    open spec fn can_produce(&self, t: ()) -> bool {
        true
    }

    fn sample<R: Rng>(&self, rng: &mut R) -> (r: ()) {
        ()
    }
}

} // verus!
