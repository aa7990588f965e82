//! A dynamic discrete distribution over indices, weighted by an ordered
//! numeric type: exclusive prefix sums, binary search sampling, and atomic
//! incremental reweighting.

use vstd::prelude::*;

verus! {

use crate::distribution::Distribution;
use crate::uniform::SampleUniform;
use crate::uniform::UniformSampler;
use crate::utils::Rng;

/// Why building or reweighting a weighted index distribution failed.
#[derive(Debug, Clone, Copy, PartialEq, Eq, Structural)]
pub enum WeightedError {
    /// The provided weight collection contains no items.
    NoItem,
    /// A weight is less than zero, or an update's indices are not strictly
    /// increasing.
    InvalidWeight,
    /// All items in the provided weight collection are zero.
    AllWeightsZero,
    /// An updated index lies beyond the number of weighted items.
    TooMany,
}

impl WeightedError {
    /// A short description of the failure.
    pub fn message(&self) -> (r: &'static str) {
        match self {
            WeightedError::NoItem => "No weights provided in distribution",
            WeightedError::InvalidWeight => "A weight is invalid in distribution",
            WeightedError::AllWeightsZero => "All weights are zero in distribution",
            WeightedError::TooMany => "Too many weights provided in distribution",
        }
    }
}

/// The mathematical values of a sequence of weights.
pub open spec fn weight_values<X: Weight>(s: Seq<X>) -> Seq<int> {
    s.map(|i: int, w: X| w.as_int())
}

/// The sum of a sequence of integers.
pub open spec fn int_sum(s: Seq<int>) -> int
    decreases s.len(),
{
    if s.len() == 0 {
        0
    } else {
        int_sum(s.drop_last()) + s.last()
    }
}

/// The sum of the nonnegative entries of a sequence of integers.
pub open spec fn pos_sum(s: Seq<int>) -> int
    decreases s.len(),
{
    if s.len() == 0 {
        0
    } else {
        pos_sum(s.drop_last()) + (if s.last() >= 0 {
            s.last()
        } else {
            0
        })
    }
}

/// The individual weights a cumulative table and a total denote: entry `i`
/// of the table holds the sum of the weights of items `0` through `i`, and
/// the total closes the last item.
pub open spec fn weights_of(cum: Seq<int>, total: int) -> Seq<int> {
    Seq::new(
        (cum.len() + 1) as nat,
        |i: int|
            {
                let upper = if i == cum.len() {
                    total
                } else {
                    cum[i]
                };
                let lower = if i == 0 {
                    0
                } else {
                    cum[i - 1]
                };
                upper - lower
            },
    )
}

/// A sequence of weights with a batch of `(index, new weight)` patches
/// applied.
pub open spec fn apply_patches(ws: Seq<int>, ps: Seq<(int, int)>) -> Seq<int>
    decreases ps.len(),
{
    if ps.len() == 0 {
        ws
    } else {
        apply_patches(ws, ps.drop_last()).update(ps.last().0, ps.last().1)
    }
}

/// The mathematical values of a batch of `(index, new weight)` pairs.
pub open spec fn patch_values<X: Weight>(s: Seq<(usize, X)>) -> Seq<(int, int)> {
    s.map(|i: int, p: (usize, X)| (p.0 as int, p.1.as_int()))
}

/// Whether every patch of the batch names one of `n` items and carries a
/// nonnegative weight.
pub open spec fn patches_in_range(n: int, ps: Seq<(int, int)>) -> bool {
    forall|j: int| 0 <= j < ps.len() ==> 0 <= #[trigger] ps[j].0 < n && ps[j].1 >= 0
}

/// The first validation failure a patch batch holds, scanned left to right
/// against `n` weighted items: indices must strictly increase past `prev`,
/// weights must be nonnegative, and indices must not pass the item count.
pub open spec fn patch_scan(n: int, ps: Seq<(int, int)>, prev: Option<int>) -> Option<WeightedError>
    decreases ps.len(),
{
    if ps.len() == 0 {
        None
    } else {
        let i = ps[0].0;
        let w = ps[0].1;
        let order_bad = match prev {
            Some(p) => p >= i,
            None => false,
        };
        if order_bad {
            Some(WeightedError::InvalidWeight)
        } else if w < 0 {
            Some(WeightedError::InvalidWeight)
        } else if i > n - 1 {
            Some(WeightedError::TooMany)
        } else {
            patch_scan(n, ps.skip(1), Some(i))
        }
    }
}

/// A one-step unfolding of a prefix sum: summing one more entry adds it.
proof fn lemma_int_sum_take_step(s: Seq<int>, k: int)
    requires
        0 <= k < s.len(),
    ensures
        int_sum(s.take(k + 1)) == int_sum(s.take(k)) + s[k],
{
    assert(s.take(k + 1).drop_last() =~= s.take(k));
    assert(s.take(k + 1).last() == s[k]);
}

/// A sum of nonnegative entries is nonnegative.
proof fn lemma_int_sum_nonneg(s: Seq<int>)
    requires
        forall|i: int| 0 <= i < s.len() ==> s[i] >= 0,
    ensures
        int_sum(s) >= 0,
    decreases s.len(),
{
    if s.len() > 0 {
        lemma_int_sum_nonneg(s.drop_last());
    }
}

/// A sum never exceeds the sum of the nonnegative entries.
proof fn lemma_int_sum_le_pos_sum(s: Seq<int>)
    ensures
        int_sum(s) <= pos_sum(s),
    decreases s.len(),
{
    if s.len() > 0 {
        lemma_int_sum_le_pos_sum(s.drop_last());
    }
}

/// The nonnegative-entry sum of a prefix never exceeds that of the whole.
proof fn lemma_pos_sum_take(s: Seq<int>, k: int)
    requires
        0 <= k <= s.len(),
    ensures
        pos_sum(s.take(k)) <= pos_sum(s),
    decreases s.len() - k,
{
    if k < s.len() {
        lemma_pos_sum_take(s, k + 1);
        lemma_int_sum_take_step(s, k);
        assert(pos_sum(s.take(k + 1)) == pos_sum(s.take(k + 1).drop_last()) + (if s.take(
            k + 1,
        ).last() >= 0 {
            s.take(k + 1).last()
        } else {
            0
        }));
        assert(s.take(k + 1).drop_last() =~= s.take(k));
    } else {
        assert(s.take(k) =~= s);
    }
}

/// Replacing one entry shifts the sum by the difference.
proof fn lemma_int_sum_update(s: Seq<int>, i: int, v: int)
    requires
        0 <= i < s.len(),
    ensures
        int_sum(s.update(i, v)) == int_sum(s) - s[i] + v,
    decreases s.len(),
{
    if i == s.len() - 1 {
        assert(s.update(i, v).drop_last() =~= s.drop_last());
    } else {
        assert(s.update(i, v).drop_last() =~= s.drop_last().update(i, v));
        lemma_int_sum_update(s.drop_last(), i, v);
    }
}

/// With nonnegative weights the cumulative table is non-decreasing.
proof fn lemma_cum_pair(cum: Seq<int>, total: int, i: int, j: int)
    requires
        forall|k: int|
            0 <= k < weights_of(cum, total).len() ==> weights_of(cum, total)[k] >= 0,
        0 <= i <= j < cum.len(),
    ensures
        cum[i] <= cum[j],
    decreases j - i,
{
    if i < j {
        lemma_cum_pair(cum, total, i, j - 1);
        assert(weights_of(cum, total)[j] >= 0);
    }
}

/// The weights a cumulative table denotes always telescope back to its
/// total.
proof fn lemma_weights_of_sum(cum: Seq<int>, total: int)
    ensures
        int_sum(weights_of(cum, total)) == total,
    decreases cum.len(),
{
    let wof = weights_of(cum, total);
    assert(wof.len() == cum.len() + 1);
    assert(int_sum(wof) == int_sum(wof.drop_last()) + wof.last());
    if cum.len() == 0 {
        assert(wof.drop_last() =~= Seq::<int>::empty());
        assert(int_sum(Seq::<int>::empty()) == 0);
        assert(wof.last() == total);
    } else {
        lemma_weights_of_sum(cum.drop_last(), cum.last());
        assert(wof.drop_last() =~= weights_of(cum.drop_last(), cum.last()));
        assert(wof.last() == total - cum.last());
    }
}

/// With nonnegative entries a prefix sum never exceeds the whole sum.
proof fn lemma_int_sum_take_le(s: Seq<int>, m: int)
    requires
        0 <= m <= s.len(),
        forall|i: int| 0 <= i < s.len() ==> s[i] >= 0,
    ensures
        int_sum(s.take(m)) <= int_sum(s),
    decreases s.len() - m,
{
    if m < s.len() {
        lemma_int_sum_take_le(s, m + 1);
        lemma_int_sum_take_step(s, m);
    } else {
        assert(s.take(m) =~= s);
    }
}

/// Patching does not change how many weights there are.
proof fn lemma_apply_patches_len(ws: Seq<int>, ps: Seq<(int, int)>)
    requires
        forall|j: int| 0 <= j < ps.len() ==> 0 <= #[trigger] ps[j].0 < ws.len(),
    ensures
        apply_patches(ws, ps).len() == ws.len(),
    decreases ps.len(),
{
    if ps.len() > 0 {
        lemma_apply_patches_len(ws, ps.drop_last());
    }
}

/// Patching nonnegative weights with nonnegative weights leaves every
/// weight nonnegative.
proof fn lemma_apply_patches_nonneg(ws: Seq<int>, ps: Seq<(int, int)>)
    requires
        forall|i: int| 0 <= i < ws.len() ==> ws[i] >= 0,
        forall|j: int| 0 <= j < ps.len() ==> 0 <= #[trigger] ps[j].0 < ws.len(),
        forall|j: int| 0 <= j < ps.len() ==> #[trigger] ps[j].1 >= 0,
    ensures
        forall|i: int| 0 <= i < apply_patches(ws, ps).len() ==> apply_patches(ws, ps)[i] >= 0,
    decreases ps.len(),
{
    if ps.len() > 0 {
        lemma_apply_patches_nonneg(ws, ps.drop_last());
        lemma_apply_patches_len(ws, ps.drop_last());
    }
}

/// An index no patch names keeps its weight.
proof fn lemma_apply_patches_untouched(ws: Seq<int>, ps: Seq<(int, int)>, i: int)
    requires
        0 <= i < ws.len(),
        forall|j: int| 0 <= j < ps.len() ==> #[trigger] ps[j].0 != i,
        forall|j: int| 0 <= j < ps.len() ==> 0 <= #[trigger] ps[j].0 < ws.len(),
    ensures
        apply_patches(ws, ps)[i] == ws[i],
    decreases ps.len(),
{
    if ps.len() > 0 {
        lemma_apply_patches_untouched(ws, ps.drop_last(), i);
        lemma_apply_patches_len(ws, ps.drop_last());
    }
}

/// An index a patch names takes that patch's weight, when the batch names
/// each index at most once.
proof fn lemma_apply_patches_hit(ws: Seq<int>, ps: Seq<(int, int)>, j: int)
    requires
        0 <= j < ps.len(),
        forall|a: int, b: int| 0 <= a < b < ps.len() ==> ps[a].0 < ps[b].0,
        forall|a: int| 0 <= a < ps.len() ==> 0 <= #[trigger] ps[a].0 < ws.len(),
    ensures
        apply_patches(ws, ps)[ps[j].0] == ps[j].1,
    decreases ps.len(),
{
    lemma_apply_patches_len(ws, ps.drop_last());
    if j == ps.len() - 1 {
    } else {
        lemma_apply_patches_hit(ws, ps.drop_last(), j);
        assert(ps[j].0 != ps.last().0);
    }
}

/// The cumulative table entry at `j` is the sum of the first `j + 1`
/// weights the table denotes.
proof fn lemma_weights_of_prefix(cum: Seq<int>, total: int, j: int)
    requires
        0 <= j < cum.len(),
    ensures
        int_sum(weights_of(cum, total).take(j + 1)) == cum[j],
    decreases j,
{
    let wof = weights_of(cum, total);
    if j == 0 {
        assert(wof.take(1).drop_last() =~= Seq::<int>::empty());
        assert(int_sum(wof.take(1)) == int_sum(wof.take(1).drop_last()) + wof.take(1).last());
        assert(int_sum(Seq::<int>::empty()) == 0);
        assert(wof.take(1).last() == wof[0]);
    } else {
        lemma_weights_of_prefix(cum, total, j - 1);
        lemma_int_sum_take_step(wof, j);
    }
}

/// The partition point of the predicate "entry at most `u`": the index of
/// the first entry that exceeds `u`, or the length when no entry does.
pub open spec fn partition_point_of(cum: Seq<int>, u: int) -> int
    decreases cum.len(),
{
    if cum.len() == 0 {
        0
    } else if cum[0] > u {
        0
    } else {
        1 + partition_point_of(cum.skip(1), u)
    }
}

/// An index below which every entry is at most `u` and whose own entry
/// exceeds `u` (or the length, when every entry is at most `u`) is the
/// partition point.
proof fn lemma_partition_point_characterized(cum: Seq<int>, u: int, k: int)
    requires
        0 <= k <= cum.len(),
        forall|i: int| 0 <= i < k ==> cum[i] <= u,
        k < cum.len() ==> cum[k] > u,
    ensures
        partition_point_of(cum, u) == k,
    decreases cum.len(),
{
    if cum.len() == 0 {
    } else if k == 0 {
    } else {
        assert(cum[0] <= u);
        assert forall|i: int| 0 <= i < k - 1 implies cum.skip(1)[i] <= u by {
            assert(cum.skip(1)[i] == cum[i + 1]);
        }
        if k - 1 < cum.skip(1).len() {
            assert(cum.skip(1)[k - 1] == cum[k]);
        }
        lemma_partition_point_characterized(cum.skip(1), u, k - 1);
    }
}

/// The numeric capability a weight type offers the weighted index: each
/// weight is modelled by its mathematical value, and the type's uniform
/// sampler ranges over those values.
pub trait Weight: SampleUniform + Copy + Sized {
    /// The mathematical value of the weight.
    spec fn as_int(self) -> int;

    /// The greatest representable weight value.
    spec fn max_int() -> int;

    /// The type's uniform sampler ranges exactly over the weights between
    /// its bounds: this ties the sampler's abstract range predicates to the
    /// weights' mathematical values.
    proof fn lemma_sampler_range(low: Self, high: Self)
        ensures
            <Self as SampleUniform>::Sampler::ok_range(low, high) <==> low.as_int() < high.as_int(),
            forall|x: Self|
                #[trigger] <Self as SampleUniform>::Sampler::in_range(low, high, x) <==> (
                low.as_int() <= x.as_int() < high.as_int()),
    ;

    /// The zero weight.
    fn zero() -> (r: Self)
        ensures
            r.as_int() == 0,
    ;

    /// Whether `self` is at most `other`.
    fn leq(self, other: Self) -> (r: bool)
        ensures
            r <==> self.as_int() <= other.as_int(),
    ;

    /// Weight addition, for nonnegative weights whose sum is representable.
    fn plus(self, other: Self) -> (r: Self)
        requires
            0 <= self.as_int(),
            0 <= other.as_int(),
            self.as_int() + other.as_int() <= Self::max_int(),
        ensures
            r.as_int() == self.as_int() + other.as_int(),
    ;

    /// Weight subtraction, for a nonnegative difference.
    fn minus(self, other: Self) -> (r: Self)
        requires
            0 <= other.as_int() <= self.as_int(),
        ensures
            r.as_int() == self.as_int() - other.as_int(),
    ;
}

impl Weight for u32 {
    open spec fn as_int(self) -> int {
        self as int
    }

    open spec fn max_int() -> int {
        u32::MAX as int
    }

    proof fn lemma_sampler_range(low: Self, high: Self) {
    }

    fn zero() -> (r: Self) {
        0
    }

    fn leq(self, other: Self) -> (r: bool) {
        self <= other
    }

    fn plus(self, other: Self) -> (r: Self) {
        self + other
    }

    fn minus(self, other: Self) -> (r: Self) {
        self - other
    }
}

impl Weight for i32 {
    open spec fn as_int(self) -> int {
        self as int
    }

    open spec fn max_int() -> int {
        i32::MAX as int
    }

    proof fn lemma_sampler_range(low: Self, high: Self) {
    }

    fn zero() -> (r: Self) {
        0
    }

    fn leq(self, other: Self) -> (r: bool) {
        self <= other
    }

    fn plus(self, other: Self) -> (r: Self) {
        self + other
    }

    fn minus(self, other: Self) -> (r: Self) {
        self - other
    }
}

impl Weight for usize {
    open spec fn as_int(self) -> int {
        self as int
    }

    open spec fn max_int() -> int {
        usize::MAX as int
    }

    proof fn lemma_sampler_range(low: Self, high: Self) {
    }

    fn zero() -> (r: Self) {
        0
    }

    fn leq(self, other: Self) -> (r: bool) {
        self <= other
    }

    fn plus(self, other: Self) -> (r: Self) {
        self + other
    }

    fn minus(self, other: Self) -> (r: Self) {
        self - other
    }
}

/// A distribution over the indices `0..n`, where index `i` is drawn with
/// probability proportional to the `i`-th weight.  The structure stores the
/// inclusive prefix sums of the first `n - 1` weights, the total weight, and
/// a uniform sampler over `[0, total)`.
#[derive(Clone)]
pub struct WeightIndex<X: Weight> {
    cumulative_weights: Vec<X>,
    total_weight: X,
    weight_distribution: X::Sampler,
}

impl<X: Weight> WeightIndex<X> {
    /// The cumulative table as mathematical values.
    pub closed spec fn spec_cumulative(&self) -> Seq<int> {
        self.cumulative_weights@.map(|i: int, w: X| w.as_int())
    }

    /// The total weight as a mathematical value.
    pub closed spec fn spec_total(&self) -> int {
        self.total_weight.as_int()
    }

    /// The uniform sampler over `[0, total)` the structure draws with.
    pub closed spec fn spec_sampler(&self) -> X::Sampler {
        self.weight_distribution
    }

    /// The individual weights the structure represents.
    pub open spec fn spec_weights(&self) -> Seq<int> {
        weights_of(self.spec_cumulative(), self.spec_total())
    }

    /// Internal invariant: every weight is nonnegative, the total is
    /// strictly positive and equals the sum of the weights, and the sampler
    /// ranges exactly over `[0, total)`.
    pub closed spec fn inv(&self) -> bool {
        &&& self.spec_total() > 0
        &&& self.spec_total() == int_sum(self.spec_weights())
        &&& forall|i: int| 0 <= i < self.spec_weights().len() ==> self.spec_weights()[i] >= 0
        &&& self.weight_distribution.wf()
        &&& forall|u: X|
            #[trigger] self.weight_distribution.contains(u) <==> 0 <= u.as_int()
                < self.spec_total()
    }

    /// Build the distribution from a non-empty sequence of weights.  Every
    /// weight must be nonnegative and at least one must be positive; the
    /// representability bound on the running sums is a machine limit on the
    /// weight type, not a policy choice.
    pub fn new(weights: &[X]) -> (r: Result<WeightIndex<X>, WeightedError>)
        requires
            pos_sum(weight_values(weights@)) <= X::max_int(),
        ensures
            r is Ok <==> (weights@.len() > 0 && (forall|i: int|
                0 <= i < weights@.len() ==> weight_values(weights@)[i] >= 0) && int_sum(
                weight_values(weights@),
            ) > 0),
            weights@.len() == 0 ==> (r matches Err(e) && e == WeightedError::NoItem),
            (exists|i: int| 0 <= i < weights@.len() && weight_values(weights@)[i] < 0) ==> (
            r matches Err(e) && e == WeightedError::InvalidWeight),
            (weights@.len() > 0 && (forall|i: int|
                0 <= i < weights@.len() ==> weight_values(weights@)[i] >= 0) && int_sum(
                weight_values(weights@),
            ) == 0) ==> (r matches Err(e) && e == WeightedError::AllWeightsZero),
            r matches Ok(w) ==> w.inv() && w.spec_weights() == weight_values(weights@)
                && w.spec_total() == int_sum(weight_values(weights@)),
    {
        let ghost ws: Seq<int> = weight_values(weights@);
        let n = weights.len();
        if n == 0 {
            return Err(WeightedError::NoItem);
        }
        let zero = X::zero();
        let first = weights[0];
        if !zero.leq(first) {
            proof {
                assert(ws[0] < 0);
            }
            return Err(WeightedError::InvalidWeight);
        }
        let mut total: X = first;
        let mut cum: Vec<X> = Vec::new();
        proof {
            assert(ws.take(1).drop_last() =~= Seq::<int>::empty());
            assert(int_sum(ws.take(1)) == int_sum(Seq::<int>::empty()) + ws.take(1).last());
            assert(ws.take(1).last() == ws[0]);
            assert(ws[0] == weights@[0].as_int());
            assert(total.as_int() == int_sum(ws.take(1)));
        }
        let mut k: usize = 1;
        while k < n
            invariant
                1 <= k <= n,
                n == weights@.len(),
                ws == weight_values(weights@),
                pos_sum(ws) <= X::max_int(),
                zero.as_int() == 0,
                forall|i: int| 0 <= i < k ==> ws[i] >= 0,
                total.as_int() == int_sum(ws.take(k as int)),
                cum@.len() == k - 1,
                forall|i: int|
                    0 <= i < k - 1 ==> weight_values(cum@)[i] == int_sum(ws.take(i + 1)),
            decreases n - k,
        {
            let w = weights[k];
            if !zero.leq(w) {
                proof {
                    assert(ws[k as int] < 0);
                }
                return Err(WeightedError::InvalidWeight);
            }
            let ghost oldc: Seq<X> = cum@;
            cum.push(total);
            proof {
                lemma_int_sum_take_step(ws, k as int);
                lemma_int_sum_nonneg(ws.take(k as int));
                lemma_int_sum_le_pos_sum(ws.take(k as int + 1));
                lemma_pos_sum_take(ws, k as int + 1);
                assert(cum@ =~= oldc.push(total));
                assert forall|i: int| 0 <= i < k implies weight_values(cum@)[i] == int_sum(
                    ws.take(i + 1),
                ) by {
                    assert(weight_values(cum@)[i] == cum@[i].as_int());
                    if i < k - 1 {
                        assert(cum@[i] == oldc[i]);
                        assert(weight_values(oldc)[i] == oldc[i].as_int());
                    } else {
                        assert(cum@[i] == total);
                    }
                }
            }
            total = total.plus(w);
            k += 1;
        }
        proof {
            assert(ws.take(n as int) =~= ws);
            lemma_int_sum_nonneg(ws);
        }
        if total.leq(zero) {
            return Err(WeightedError::AllWeightsZero);
        }
        proof {
            X::lemma_sampler_range(zero, total);
        }
        match <X::Sampler as UniformSampler>::new(zero, total) {
            Ok(dist) => {
                let w = WeightIndex {
                    cumulative_weights: cum,
                    total_weight: total,
                    weight_distribution: dist,
                };
                proof {
                    assert(w.spec_cumulative() == weight_values(cum@));
                    assert forall|i: int| 0 <= i < w.spec_weights().len() implies w.spec_weights()[i]
                        == ws[i] by {
                        assert(ws.take(0) =~= Seq::<int>::empty());
                        assert(ws.take(n as int) =~= ws);
                        lemma_int_sum_take_step(ws, i);
                        assert(int_sum(ws.take(i + 1)) == int_sum(ws.take(i)) + ws[i]);
                    }
                    assert(w.spec_weights() =~= ws);
                    lemma_weights_of_sum(w.spec_cumulative(), w.spec_total());
                }
                Ok(w)
            },
            Err(_) => {
                proof {
                    assert(false);
                }
                Err(WeightedError::AllWeightsZero)
            },
        }
    }
}

impl<X: Weight> WeightIndex<X> {
    /// Atomically replace the weights named by `new_weights`, a batch of
    /// `(index, new weight)` pairs in strictly increasing index order.  The
    /// whole batch is validated before anything changes, so a failing call
    /// leaves the distribution exactly as it was; a successful call
    /// recomputes the cumulative table from the first patched index onward
    /// in one left-to-right pass and rebuilds the sampler over the new
    /// total.  The representability bound on the intermediate totals is a
    /// machine limit of the weight type.
    pub fn update_weights(&mut self, new_weights: &[(usize, X)]) -> (r: Result<(), WeightedError>)
        requires
            old(self).inv(),
            forall|k: int|
                0 <= k <= new_weights@.len() && patches_in_range(
                    old(self).spec_weights().len() as int,
                    patch_values(new_weights@).take(k),
                ) ==> int_sum(
                    apply_patches(old(self).spec_weights(), patch_values(new_weights@).take(k)),
                ) <= X::max_int(),
        ensures
            final(self).inv(),
            new_weights@.len() == 0 ==> (r is Ok && *final(self) == *old(self)),
            new_weights@.len() > 0 ==> (patch_scan(
                old(self).spec_weights().len() as int,
                patch_values(new_weights@),
                None,
            ) matches Some(e) ==> (r matches Err(e2) && e2 == e && *final(self) == *old(self))),
            (new_weights@.len() > 0 && patch_scan(
                old(self).spec_weights().len() as int,
                patch_values(new_weights@),
                None,
            ) is None && int_sum(
                apply_patches(old(self).spec_weights(), patch_values(new_weights@)),
            ) <= 0) ==> (r matches Err(e) && e == WeightedError::AllWeightsZero && *final(self)
                == *old(self)),
            (new_weights@.len() > 0 && patch_scan(
                old(self).spec_weights().len() as int,
                patch_values(new_weights@),
                None,
            ) is None && int_sum(
                apply_patches(old(self).spec_weights(), patch_values(new_weights@)),
            ) > 0) ==> (r is Ok && final(self).spec_weights() == apply_patches(
                old(self).spec_weights(),
                patch_values(new_weights@),
            ) && final(self).spec_total() == int_sum(
                apply_patches(old(self).spec_weights(), patch_values(new_weights@)),
            )),
    {
        let ghost ws: Seq<int> = old(self).spec_weights();
        let ghost ps: Seq<(int, int)> = patch_values(new_weights@);
        let ghost n: int = ws.len() as int;
        let ghost oldcumv: Seq<int> = old(self).spec_cumulative();
        let ghost oldtot: int = old(self).spec_total();
        let np = new_weights.len();
        if np == 0 {
            return Ok(());
        }
        let zero = X::zero();
        let mut total = self.total_weight;
        let mut prev_i: Option<usize> = None;
        let mut k: usize = 0;
        proof {
            assert(ps.take(0) =~= Seq::<(int, int)>::empty());
            assert(ps.skip(0) =~= ps);
        }
        while k < np
            invariant
                *self == *old(self),
                old(self).inv(),
                zero.as_int() == 0,
                ws == old(self).spec_weights(),
                ps == patch_values(new_weights@),
                n == ws.len(),
                n == old(self).cumulative_weights@.len() + 1,
                oldcumv == old(self).spec_cumulative(),
                oldtot == old(self).spec_total(),
                np == new_weights@.len(),
                0 <= k <= np,
                forall|j: int| 0 <= j < k ==> 0 <= #[trigger] ps[j].0 < n,
                forall|j: int| 0 <= j < k ==> #[trigger] ps[j].1 >= 0,
                forall|a: int, b: int| 0 <= a < b < k ==> ps[a].0 < ps[b].0,
                k > 0 ==> prev_i == Some(new_weights@[k - 1].0),
                k == 0 ==> prev_i is None,
                patch_scan(n, ps, None) == patch_scan(
                    n,
                    ps.skip(k as int),
                    match prev_i {
                        Some(p) => Some(p as int),
                        None => None,
                    },
                ),
                total.as_int() == int_sum(apply_patches(ws, ps.take(k as int))),
                forall|k2: int|
                    0 <= k2 <= np && patches_in_range(n, ps.take(k2)) ==> int_sum(
                        apply_patches(ws, ps.take(k2)),
                    ) <= X::max_int(),
            decreases np - k,
        {
            let pair = new_weights[k];
            let i = pair.0;
            let w = pair.1;
            proof {
                assert(ps[k as int] == (i as int, w.as_int()));
                assert(ps.skip(k as int)[0] == ps[k as int]);
                assert(ps.skip(k as int).skip(1) =~= ps.skip(k as int + 1));
            }
            match prev_i {
                Some(p) => {
                    if p >= i {
                        proof {
                            assert(patch_scan(n, ps, None) == Some(WeightedError::InvalidWeight));
                        }
                        return Err(WeightedError::InvalidWeight);
                    }
                },
                None => {},
            }
            if !zero.leq(w) {
                proof {
                    assert(patch_scan(n, ps, None) == Some(WeightedError::InvalidWeight));
                }
                return Err(WeightedError::InvalidWeight);
            }
            if i > self.cumulative_weights.len() {
                proof {
                    assert(patch_scan(n, ps, None) == Some(WeightedError::TooMany));
                }
                return Err(WeightedError::TooMany);
            }
            let mut old_w = if i < self.cumulative_weights.len() {
                self.cumulative_weights[i]
            } else {
                self.total_weight
            };
            if i > 0 {
                let lower = self.cumulative_weights[i - 1];
                proof {
                    lemma_weights_of_prefix(oldcumv, oldtot, i as int - 1);
                    lemma_int_sum_nonneg(ws.take(i as int));
                    assert(ws[i as int] >= 0);
                }
                old_w = old_w.minus(lower);
            }
            proof {
                assert(old_w.as_int() == ws[i as int]);
                let patched = apply_patches(ws, ps.take(k as int));
                assert forall|j: int| 0 <= j < ps.take(k as int).len() implies ps.take(k as int)[j].0
                    != i as int by {
                    if k > 0 && j < k - 1 {
                        assert(ps[j].0 < ps[k as int - 1].0);
                    }
                }
                lemma_apply_patches_len(ws, ps.take(k as int));
                lemma_apply_patches_nonneg(ws, ps.take(k as int));
                lemma_apply_patches_untouched(ws, ps.take(k as int), i as int);
                lemma_int_sum_take_step(patched, i as int);
                lemma_int_sum_take_le(patched, i as int + 1);
                lemma_int_sum_nonneg(patched.take(i as int));
                lemma_int_sum_update(patched, i as int, 0);
                lemma_int_sum_nonneg(patched.update(i as int, 0));
                lemma_int_sum_update(patched, i as int, w.as_int());
                assert(ps.take(k as int + 1).drop_last() =~= ps.take(k as int));
                assert(apply_patches(ws, ps.take(k as int + 1)) == patched.update(
                    i as int,
                    w.as_int(),
                ));
                assert(patches_in_range(n, ps.take(k as int + 1)));
            }
            total = total.minus(old_w);
            total = total.plus(w);
            prev_i = Some(i);
            k += 1;
        }
        proof {
            assert(ps.skip(np as int) =~= Seq::<(int, int)>::empty());
            assert(patch_scan(n, ps, None) is None);
            assert(ps.take(np as int) =~= ps);
        }
        if total.leq(zero) {
            return Err(WeightedError::AllWeightsZero);
        }
        let ghost newws: Seq<int> = apply_patches(ws, ps);
        proof {
            lemma_apply_patches_len(ws, ps);
            lemma_apply_patches_nonneg(ws, ps);
        }
        let first = new_weights[0].0;
        proof {
            assert(ps[0].0 == first as int);
            assert forall|j: int| 0 <= j < np implies ps[j].0 >= first as int by {
                if j > 0 {
                    assert(ps[0].0 < ps[j].0);
                }
            }
            assert forall|e: int| 0 <= e < first implies newws[e] == ws[e] by {
                lemma_apply_patches_untouched(ws, ps, e);
            }
            assert(newws.take(first as int) =~= ws.take(first as int));
        }
        let mut cumulative: X = if first > 0 {
            let c = self.cumulative_weights[first - 1];
            proof {
                lemma_weights_of_prefix(oldcumv, oldtot, first as int - 1);
            }
            c
        } else {
            proof {
                assert(newws.take(0) =~= Seq::<int>::empty());
            }
            zero
        };
        let mut prev_old: X = zero;
        let mut p: usize = 0;
        let cl = self.cumulative_weights.len();
        let mut i: usize = first;
        while i < cl
            invariant
                old(self).inv(),
                zero.as_int() == 0,
                ws == old(self).spec_weights(),
                ps == patch_values(new_weights@),
                n == ws.len(),
                oldcumv == old(self).spec_cumulative(),
                oldtot == old(self).spec_total(),
                np == new_weights@.len(),
                np > 0,
                newws == apply_patches(ws, ps),
                newws.len() == n,
                forall|e: int| 0 <= e < n ==> newws[e] >= 0,
                forall|e: int| 0 <= e < first ==> newws[e] == ws[e],
                forall|j: int| 0 <= j < np ==> 0 <= #[trigger] ps[j].0 < n,
                forall|j: int| 0 <= j < np ==> #[trigger] ps[j].1 >= 0,
                forall|a: int, b: int| 0 <= a < b < np ==> ps[a].0 < ps[b].0,
                forall|j: int| 0 <= j < np ==> ps[j].0 >= first as int,
                ps[0].0 == first as int,
                cl == n - 1,
                first <= i <= cl,
                first as int <= n - 1,
                p <= np,
                forall|j: int| 0 <= j < p ==> ps[j].0 < i as int,
                forall|j: int| p <= j < np ==> ps[j].0 >= i as int,
                self.total_weight == old(self).total_weight,
                self.weight_distribution == old(self).weight_distribution,
                self.cumulative_weights@.len() == n - 1,
                forall|e: int|
                    0 <= e < first ==> self.cumulative_weights@[e] == old(
                        self,
                    ).cumulative_weights@[e],
                forall|e: int|
                    i as int <= e < n - 1 ==> self.cumulative_weights@[e] == old(
                        self,
                    ).cumulative_weights@[e],
                forall|e: int|
                    first as int <= e < i as int ==> weight_values(self.cumulative_weights@)[e]
                        == int_sum(newws.take(e + 1)),
                cumulative.as_int() == int_sum(newws.take(i as int)),
                i > first ==> prev_old == old(self).cumulative_weights@[i as int - 1],
                total.as_int() == int_sum(newws),
                total.as_int() > 0,
                int_sum(newws) <= X::max_int(),
            decreases cl - i,
        {
            let old_ci = self.cumulative_weights[i];
            proof {
                assert(old_ci == old(self).cumulative_weights@[i as int]);
            }
            let is_patch = p < np && new_weights[p].0 == i;
            if is_patch {
                let w = new_weights[p].1;
                proof {
                    assert(ps[p as int] == (i as int, w.as_int()));
                    lemma_apply_patches_hit(ws, ps, p as int);
                    assert(newws[i as int] == w.as_int());
                    lemma_int_sum_take_step(newws, i as int);
                    lemma_int_sum_take_le(newws, i as int + 1);
                    lemma_int_sum_nonneg(newws.take(i as int));
                    assert forall|j: int| p as int + 1 <= j < np implies ps[j].0 >= i as int
                        + 1 by {
                        assert(ps[p as int].0 < ps[j].0);
                    }
                }
                cumulative = cumulative.plus(w);
                p = p + 1;
            } else {
                proof {
                    assert(i > first || p == 0);
                    if i == first {
                        assert(ps[0].0 == i as int);
                        assert(p == 0);
                        assert(false);
                    }
                    assert forall|j: int| 0 <= j < np implies ps[j].0 != i as int by {
                        if j < p {
                        } else {
                            if ps[j].0 == i as int {
                                assert(j != p || !(p < np && ps[p as int].0 == i as int));
                                if j > p {
                                    assert(ps[p as int].0 < ps[j].0);
                                }
                            }
                        }
                    }
                    lemma_apply_patches_untouched(ws, ps, i as int);
                    assert(newws[i as int] == ws[i as int]);
                    lemma_weights_of_prefix(oldcumv, oldtot, i as int - 1);
                    lemma_int_sum_nonneg(ws.take(i as int));
                    assert(ws[i as int] == oldcumv[i as int] - oldcumv[i as int - 1]);
                    assert(prev_old.as_int() == oldcumv[i as int - 1]);
                    assert(ws[i as int] >= 0);
                    lemma_int_sum_take_step(newws, i as int);
                    lemma_int_sum_take_le(newws, i as int + 1);
                    lemma_int_sum_nonneg(newws.take(i as int));
                }
                let old_w = old_ci.minus(prev_old);
                cumulative = cumulative.plus(old_w);
            }
            let ghost cums: Seq<X> = self.cumulative_weights@;
            vstd::std_specs::core::index_set(&mut self.cumulative_weights, i, cumulative);
            prev_old = old_ci;
            i = i + 1;
            proof {
                assert(self.cumulative_weights@ =~= cums.update(i as int - 1, cumulative));
                assert forall|e: int|
                    first as int <= e < i as int implies weight_values(
                    self.cumulative_weights@,
                )[e] == int_sum(newws.take(e + 1)) by {
                    assert(weight_values(self.cumulative_weights@)[e]
                        == self.cumulative_weights@[e].as_int());
                    if e < i as int - 1 {
                        assert(self.cumulative_weights@[e] == cums[e]);
                        assert(weight_values(cums)[e] == cums[e].as_int());
                    } else {
                        assert(self.cumulative_weights@[e] == cumulative);
                    }
                }
            }
        }
        self.total_weight = total;
        proof {
            X::lemma_sampler_range(zero, total);
        }
        match <X::Sampler as UniformSampler>::new(zero, total) {
            Ok(dist) => {
                self.weight_distribution = dist;
            },
            Err(_) => {
                proof {
                    assert(false);
                }
            },
        }
        proof {
            let newcumv = self.spec_cumulative();
            assert(newcumv =~= weight_values(self.cumulative_weights@));
            assert forall|e: int| 0 <= e < n - 1 implies newcumv[e] == int_sum(
                newws.take(e + 1),
            ) by {
                assert(newcumv[e] == self.cumulative_weights@[e].as_int());
                assert(weight_values(self.cumulative_weights@)[e]
                    == self.cumulative_weights@[e].as_int());
                if e < first {
                    lemma_weights_of_prefix(oldcumv, oldtot, e);
                    assert(newws.take(e + 1) =~= ws.take(e + 1));
                }
            }
            assert forall|e: int| 0 <= e < n implies self.spec_weights()[e] == newws[e] by {
                lemma_int_sum_take_step(newws, e);
                assert(newws.take(n) =~= newws);
                assert(newws.take(0) =~= Seq::<int>::empty());
            }
            assert(self.spec_weights() =~= newws);
        }
        Ok(())
    }
}

impl<X: Weight> Distribution<usize> for WeightIndex<X> {
    open spec fn wf(&self) -> bool {
        self.inv()
    }

    /// A sampled index always lies below the item count and always names an
    /// item whose weight is strictly positive.
    open spec fn can_produce(&self, i: usize) -> bool {
        i < self.spec_weights().len() && self.spec_weights()[i as int] > 0
    }

    /// Draw uniformly in `[0, total)` and binary-search the cumulative
    /// table for the first entry that exceeds the draw: the result is
    /// exactly the partition point of the drawn value in the cumulative
    /// table, so ties at exact boundary values resolve to the bucket whose
    /// prefix sum first exceeds the draw, and sampling is reproducible
    /// given the same draw sequence.
    fn sample<R: Rng>(&self, rng: &mut R) -> (r: usize)
        ensures
            ({
                let (u, s2) = self.spec_sampler().sample_of(
                    old(rng).snapshot(),
                    |t: (u64, u64)| R::step_output(t),
                    |t: (u64, u64)| R::step_state(t),
                );
                &&& final(rng).snapshot() == s2
                &&& r as int == partition_point_of(self.spec_cumulative(), u.as_int())
            }),
    {
        let ghost s0: (u64, u64) = rng.snapshot();
        let ghost gout: spec_fn((u64, u64)) -> u32 = |t: (u64, u64)| R::step_output(t);
        let ghost gnext: spec_fn((u64, u64)) -> (u64, u64) = |t: (u64, u64)| R::step_state(t);
        proof {
            assert(gout =~~= (|t: (u64, u64)| R::step_output(t)));
            assert(gnext =~~= (|t: (u64, u64)| R::step_state(t)));
        }
        let chosen = self.weight_distribution.sample(rng);
        proof {
            assert((chosen, rng.snapshot()) == self.spec_sampler().sample_of(s0, gout, gnext));
        }
        let ghost cumv: Seq<int> = self.spec_cumulative();
        let ghost total: int = self.spec_total();
        proof {
            assert(0 <= chosen.as_int() < total);
        }
        let mut lo: usize = 0;
        let mut hi: usize = self.cumulative_weights.len();
        while lo < hi
            invariant
                self.inv(),
                cumv == self.spec_cumulative(),
                total == self.spec_total(),
                0 <= chosen.as_int() < total,
                lo <= hi,
                hi <= self.cumulative_weights@.len(),
                forall|i: int| 0 <= i < lo ==> cumv[i] <= chosen.as_int(),
                forall|i: int| hi <= i < cumv.len() ==> cumv[i] > chosen.as_int(),
            decreases hi - lo,
        {
            let mid = lo + (hi - lo) / 2;
            if self.cumulative_weights[mid].leq(chosen) {
                proof {
                    assert forall|i: int| 0 <= i < mid + 1 implies cumv[i] <= chosen.as_int() by {
                        lemma_cum_pair(cumv, total, i, mid as int);
                    }
                }
                lo = mid + 1;
            } else {
                proof {
                    assert forall|i: int| mid <= i < cumv.len() implies cumv[i]
                        > chosen.as_int() by {
                        lemma_cum_pair(cumv, total, mid as int, i);
                    }
                }
                hi = mid;
            }
        }
        proof {
            let l = lo as int;
            let upper = if l == cumv.len() {
                total
            } else {
                cumv[l]
            };
            let lower = if l == 0 {
                0
            } else {
                cumv[l - 1]
            };
            assert(lower <= chosen.as_int());
            assert(upper > chosen.as_int());
            assert(self.spec_weights()[l] == upper - lower);
            lemma_partition_point_characterized(cumv, chosen.as_int(), l);
        }
        lo
    }
}

} // verus!
