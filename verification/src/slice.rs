//! A distribution over references to the elements of a non-empty slice,
//! built on the uniform index sampler.

use vstd::prelude::*;

verus! {

use crate::distribution::Distribution;
use crate::uniform::Uniform;
use crate::uniform::UniformSampler;
use crate::utils::Rng;

/// A distribution over references into a borrowed, non-empty slice.
#[derive(Clone, Copy)]
pub struct Slice<'a, T> {
    slice: &'a [T],
    range: Uniform<usize>,
}

/// The error for attempting to build a slice distribution over no elements.
#[derive(Debug, Clone, Copy)]
pub struct EmptySlice;

impl EmptySlice {
    /// A short description of the failure.
    pub fn message(&self) -> (r: &'static str) {
        "tried to create a distribution over an empty slice"
    }
}

impl<'a, T> Slice<'a, T> {
    /// The elements the distribution draws from.
    pub closed spec fn spec_slice(&self) -> Seq<T> {
        self.slice@
    }

    /// The index distribution over the slice.
    pub closed spec fn spec_range(&self) -> Uniform<usize> {
        self.range
    }

    /// Create a new slice distribution; the slice must be non-empty.
    pub fn new(slice: &'a [T]) -> (r: Result<Self, EmptySlice>)
        ensures
            r is Ok <==> slice@.len() > 0,
            r matches Ok(s) ==> s.wf() && s.spec_slice() == slice@,
    {
        let len = slice.len();
        if len == 0 {
            return Err(EmptySlice);
        }
        match Uniform::new(0usize, len) {
            Ok(range) => {
                let s = Slice { slice, range };
                proof {
                    assert forall|i: usize| #[trigger] s.spec_range().can_produce(i) implies i
                        < s.spec_slice().len() by {}
                }
                Ok(s)
            },
            Err(_) => {
                proof {
                    assert(false);
                }
                Err(EmptySlice)
            },
        }
    }
}

impl<'a, T> Distribution<&'a T> for Slice<'a, T> {
    open spec fn wf(&self) -> bool {
        &&& self.spec_range().wf()
        &&& forall|i: usize| #[trigger] self.spec_range().can_produce(i) ==> i
            < self.spec_slice().len()
    }

    /// A sample is a reference to one of the slice's elements.
    open spec fn can_produce(&self, t: &'a T) -> bool {
        exists|i: int| 0 <= i < self.spec_slice().len() && *t == self.spec_slice()[i]
    }

    /// One uniform index draw selects the element: the reference returned
    /// and the engine's final state are exact functions of the engine's
    /// starting state.
    fn sample<R: Rng>(&self, rng: &mut R) -> (r: &'a T)
        ensures
            ({
                let (i, s2) = self.spec_range().spec_sampler().sample_of(
                    old(rng).snapshot(),
                    |t: (u64, u64)| R::step_output(t),
                    |t: (u64, u64)| R::step_state(t),
                );
                &&& final(rng).snapshot() == s2
                &&& *r == self.spec_slice()[i as int]
            }),
    {
        let ghost s0: (u64, u64) = rng.snapshot();
        let ghost gout: spec_fn((u64, u64)) -> u32 = |t: (u64, u64)| R::step_output(t);
        let ghost gnext: spec_fn((u64, u64)) -> (u64, u64) = |t: (u64, u64)| R::step_state(t);
        proof {
            assert(gout =~~= (|t: (u64, u64)| R::step_output(t)));
            assert(gnext =~~= (|t: (u64, u64)| R::step_state(t)));
        }
        let idx = self.range.sample(rng);
        proof {
            assert((idx, rng.snapshot()) == self.spec_range().spec_sampler().sample_of(
                s0,
                gout,
                gnext,
            ));
            assert(idx < self.spec_slice().len());
        }
        let s: &'a [T] = self.slice;
        let r = &s[idx];
        proof {
            assert(*r == self.spec_slice()[idx as int]);
        }
        r
    }
}

} // verus!
