//! The distribution abstraction: produce a value of some type from mutable
//! access to an engine, plus a lazy draw sequence and a result-mapping
//! combinator.

use vstd::prelude::*;

verus! {

use crate::utils::Rng;

/// A distribution of values of type `T`, sampled with an engine as the
/// source of randomness.
///
/// Each implementor describes itself through two specification functions:
/// `wf` says when the distribution's parameters are usable, and
/// `can_produce` bounds the set of values `sample` may return.
pub trait Distribution<T>: Sized {
    /// When the distribution is well formed enough to sample from.
    spec fn wf(&self) -> bool;

    /// Which values a single sample may yield.
    spec fn can_produce(&self, t: T) -> bool;

    /// Generate one random value of `T`, using `rng` as the source of
    /// randomness.
    fn sample<R: Rng>(&self, rng: &mut R) -> (r: T)
        requires
            self.wf(),
        ensures
            self.can_produce(r),
    ;

    /// Create a lazy, infinite, pull-based sequence of values of `T`: each
    /// pull draws one sample.
    fn sample_iter<R: Rng>(self, rng: R) -> (r: DistIter<Self, R, T>)
        ensures
            r.spec_dist() == self,
            r.spec_rng() == rng,
    {
        DistIter { dist: self, rng, phantom: core::marker::PhantomData }
    }

    /// Create a distribution of values of `S` by mapping the output of
    /// `self` through `func`.
    fn map<F: Fn(T) -> S, S>(self, func: F) -> (r: DistMap<Self, F, T, S>)
        ensures
            r.spec_dist() == self,
            r.spec_func() == func,
    {
        DistMap { dist: self, func, phantom: core::marker::PhantomData }
    }
}

impl<'a, T, D: Distribution<T>> Distribution<T> for &'a D {
    open spec fn wf(&self) -> bool {
        (**self).wf()
    }

    open spec fn can_produce(&self, t: T) -> bool {
        (**self).can_produce(t)
    }

    fn sample<R: Rng>(&self, rng: &mut R) -> (r: T) {
        (**self).sample(rng)
    }
}

/// A lazy infinite sequence of samples from a distribution, advanced only
/// when the consumer pulls the next element.
#[derive(Debug)]
pub struct DistIter<D, R, T> {
    dist: D,
    rng: R,
    phantom: core::marker::PhantomData<T>,
}

impl<D, R, T> DistIter<D, R, T> {
    /// The distribution the sequence draws from.
    pub closed spec fn spec_dist(&self) -> D {
        self.dist
    }

    /// The engine the sequence draws with.
    pub closed spec fn spec_rng(&self) -> R {
        self.rng
    }
}

impl<D: Distribution<T>, R: Rng, T> DistIter<D, R, T> {
    /// Pull the next element: one fresh sample.  The sequence never ends, so
    /// the result is always `Some`.
    pub fn next(&mut self) -> (r: Option<T>)
        requires
            old(self).spec_dist().wf(),
        ensures
            final(self).spec_dist() == old(self).spec_dist(),
            r matches Some(t) && old(self).spec_dist().can_produce(t),
    {
        Some(self.dist.sample(&mut self.rng))
    }

    /// The sequence is infinite: no finite length bounds it from above.
    pub fn size_hint(&self) -> (r: (usize, Option<usize>))
        ensures
            r == (0usize, None::<usize>),
    {
        (0, None)
    }
}

/// A distribution of values of `S` built by mapping the output of an inner
/// distribution through a function.
#[derive(Debug)]
pub struct DistMap<D, F, T, S> {
    dist: D,
    func: F,
    phantom: core::marker::PhantomData<(T, S)>,
}

impl<D, F, T, S> DistMap<D, F, T, S> {
    /// The inner distribution.
    pub closed spec fn spec_dist(&self) -> D {
        self.dist
    }

    /// The mapping function.
    pub closed spec fn spec_func(&self) -> F {
        self.func
    }
}

/// Law: a mapped distribution produces exactly the images of the inner
/// distribution's outputs: sampling is inner-sample-then-transform, so every
/// result `s` comes with an inner result `t` with `can_produce(t)` and
/// `func(t) == s`.
impl<D, F, T, S> Distribution<S> for DistMap<D, F, T, S> where
    D: Distribution<T>,
    F: Fn(T) -> S,
 {
    open spec fn wf(&self) -> bool {
        &&& self.spec_dist().wf()
        &&& forall|t: T| self.spec_dist().can_produce(t) ==> call_requires(self.spec_func(), (t,))
    }

    open spec fn can_produce(&self, s: S) -> bool {
        exists|t: T|
            {
                &&& self.spec_dist().can_produce(t)
                &&& call_ensures(self.spec_func(), (t,), s)
            }
    }

    fn sample<R: Rng>(&self, rng: &mut R) -> (r: S) {
        let t = self.dist.sample(rng);
        (self.func)(t)
    }
}

/// The canonical default distribution for primitive output types.
#[derive(Clone, Copy, Debug)]
pub struct Standard;

} // verus!
