//! Value generators: the sequential counter, the uniform key chooser and the
//! weighted operation-kind chooser.
//!
//! Every generator validates its parameters at construction and `next` never
//! fails afterwards. Each `next` is deterministic in the generator state, so
//! the contracts pin the drawn value exactly.

use vstd::prelude::*;
use crate::errors::BenchError;
use crate::rng::{RandomStream, stream_step, stream_mix};

verus! {

/// Produces strictly increasing integers from a fixed starting value; no two
/// calls ever return the same value.
pub struct Counter {
    /// The first value the counter hands out.
    pub start: u64,
    /// The value the next call returns.
    pub next_value: u64,
}

impl Counter {
    /// The counter never runs backwards past its start.
    pub open spec fn wf(&self) -> bool {
        self.start <= self.next_value
    }

    /// How many values have been handed out so far.
    pub open spec fn issued(&self) -> int {
        self.next_value - self.start
    }

    /// A fresh counter whose first value is `start`.
    pub fn new(start: u64) -> (c: Counter)
        ensures
            c.wf(),
            c.start == start,
            c.issued() == 0,
    {
        Counter { start, next_value: start }
    }

    /// Hands out the next value: the `issued()`-th value from `start`.
    pub fn next(&mut self) -> (v: u64)
        requires
            old(self).wf(),
            old(self).next_value < u64::MAX,
        ensures
            final(self).wf(),
            final(self).start == old(self).start,
            final(self).next_value == old(self).next_value + 1,
            v == old(self).next_value,
            v == old(self).start + old(self).issued(),
    {
        let v = self.next_value;
        self.next_value = self.next_value + 1;
        v
    }
}

/// The values a counter starting at `start` hands out over its first `k`
/// calls, in issuance order.
pub open spec fn counter_outputs(start: u64, k: nat) -> Seq<int> {
    Seq::new(k, |i: int| start + i)
}

/// Law: a counter that starts at `start` hands out `start + i` as its `i`-th
/// value, so any `k` consecutive values are pairwise distinct and fill the
/// contiguous range `[start, start + k)` with no gap — across any partition
/// of the calls among workers that take turns on the shared counter.
pub proof fn lemma_counter_values_distinct_and_gapless(start: u64, k: nat)
    requires
        start + k <= u64::MAX as int + 1,
    ensures
        forall|i: int, j: int|
            0 <= i < k && 0 <= j < k && i != j
                ==> #[trigger] counter_outputs(start, k)[i] != #[trigger] counter_outputs(start, k)[j],
        forall|v: int| start <= v < start + k ==> counter_outputs(start, k).contains(v),
{
    assert forall|v: int| start <= v < start + k implies counter_outputs(start, k).contains(v) by {
        assert(counter_outputs(start, k)[v - start] == v);
    }
}

/// Law: splitting an operation budget `n` over `w` workers at `n / w`
/// operations each loses nothing when `w` divides `n` evenly, and otherwise
/// truncates by less than one worker's share of remainder.
pub proof fn lemma_worker_split(n: u64, w: u64)
    requires
        w >= 1,
    ensures
        n % w == 0 ==> w * (n / w) == n,
        w * (n / w) <= n < w * (n / w) + w,
{
    vstd::arithmetic::div_mod::lemma_fundamental_div_mod(n as int, w as int);
    vstd::arithmetic::div_mod::lemma_mod_bound(n as int, w as int);
}

/// Produces an integer uniformly in `[0, bound)` from its own random stream.
pub struct Uniform {
    /// Exclusive upper bound of the produced values.
    pub bound: u64,
    /// The generator's random source.
    pub rng: RandomStream,
}

impl Uniform {
    /// The bound was validated at construction.
    pub open spec fn wf(&self) -> bool {
        self.bound >= 1
    }

    /// A uniform chooser over `[0, bound)`; rejected when the range is empty.
    pub fn new(bound: u64, seed: u64) -> (r: Result<Uniform, BenchError>)
        ensures
            match r {
                Ok(g) => g.wf() && g.bound == bound && g.rng.state == seed && bound >= 1,
                Err(e) => e.is_generator() && bound == 0,
            },
    {
        if bound == 0 {
            Err(BenchError::Generator { detail: "uniform bound must be positive".to_owned() })
        } else {
            Ok(Uniform { bound, rng: RandomStream::new(seed) })
        }
    }

    /// Draws the next value: the stream's next output reduced below `bound`.
    pub fn next(&mut self) -> (v: u64)
        requires
            old(self).wf(),
        ensures
            final(self).wf(),
            final(self).bound == old(self).bound,
            final(self).rng.state == stream_step(old(self).rng.state),
            v == stream_mix(final(self).rng.state) % old(self).bound,
            v < old(self).bound,
    {
        self.rng.next_below(self.bound)
    }
}

/// The operation kinds of the configured mix.
#[derive(Clone, Copy, PartialEq, Eq, Structural, Debug)]
pub enum OpKind {
    Read,
    Update,
    Insert,
    Scan,
}

/// Cumulative weights are well-formed for `m` outcomes: one more entry than
/// outcomes, starting at zero, never decreasing, ending strictly positive.
pub open spec fn cumulative_wf(cum: Seq<u64>, m: int) -> bool {
    &&& cum.len() == m + 1
    &&& m >= 1
    &&& cum[0] == 0
    &&& forall|i: int| 0 <= i < m ==> #[trigger] cum[i] <= cum[i + 1]
    &&& cum[m] > 0
}

/// The draw `u` selects outcome `k`: the first outcome whose cumulative
/// weight exceeds `u`. Outcomes of zero weight are never selected.
pub open spec fn selects(cum: Seq<u64>, m: int, u: u64, k: int) -> bool {
    &&& 0 <= k < m
    &&& cum[k] <= u < cum[k + 1]
}

/// Law: a draw selects exactly one outcome — the bracket of cumulative
/// weights around `u` pins `k` uniquely.
pub proof fn lemma_selects_unique(cum: Seq<u64>, m: int, u: u64, k1: int, k2: int)
    requires
        cumulative_wf(cum, m),
        selects(cum, m, u, k1),
        selects(cum, m, u, k2),
    ensures
        k1 == k2,
{
    if k1 < k2 {
        lemma_cum_nondecreasing(cum, m, k1 + 1, k2);
    }
    if k2 < k1 {
        lemma_cum_nondecreasing(cum, m, k2 + 1, k1);
    }
}

proof fn lemma_cum_nondecreasing(cum: Seq<u64>, m: int, i: int, j: int)
    requires
        cumulative_wf(cum, m),
        0 <= i <= j <= m,
    ensures
        cum[i] <= cum[j],
    decreases j - i,
{
    if i < j {
        lemma_cum_nondecreasing(cum, m, i + 1, j);
    }
}

/// Total weight of a list of `(label, weight)` entries.
pub open spec fn sum_weights(s: Seq<(OpKind, u64)>) -> int
    decreases s.len(),
{
    if s.len() == 0 {
        0
    } else {
        sum_weights(s.drop_last()) + s.last().1
    }
}

/// One more entry adds its weight to the prefix total.
pub proof fn lemma_sum_weights_take_step(s: Seq<(OpKind, u64)>, k: int)
    requires
        0 <= k < s.len(),
    ensures
        sum_weights(s.take(k + 1)) == sum_weights(s.take(k)) + s[k].1,
{
    assert(s.take(k + 1).drop_last() =~= s.take(k));
    assert(s.take(k + 1).last() == s[k]);
}

/// A prefix never outweighs the whole list.
pub proof fn lemma_sum_weights_take_le(s: Seq<(OpKind, u64)>, k: int)
    requires
        0 <= k <= s.len(),
    ensures
        sum_weights(s.take(k)) <= sum_weights(s),
    decreases s.len() - k,
{
    if k < s.len() {
        lemma_sum_weights_take_step(s, k);
        lemma_sum_weights_take_le(s, k + 1);
    } else {
        assert(s.take(k) =~= s);
    }
}

/// Samples a labeled outcome with probability proportional to its weight.
pub struct WeightedDiscrete {
    /// The outcome labels, in the order their weights were given.
    pub kinds: Vec<OpKind>,
    /// `cum[i]` is the total weight of outcomes before `i`.
    pub cum: Vec<u64>,
    /// The chooser's random source.
    pub rng: RandomStream,
}

impl WeightedDiscrete {
    /// Construction established the cumulative-weight shape.
    pub open spec fn wf(&self) -> bool {
        cumulative_wf(self.cum@, self.kinds@.len() as int)
    }

    /// Total weight of all outcomes.
    pub open spec fn total(&self) -> u64 {
        self.cum@[self.kinds@.len() as int]
    }

    /// The given `(label, weight)` pairs are accepted: at least one entry,
    /// and a total weight that is positive and fits the weight type.
    pub open spec fn accepts(entries: Seq<(OpKind, u64)>) -> bool {
        &&& entries.len() >= 1
        &&& 1 <= sum_weights(entries) <= u64::MAX
    }

    /// A chooser over the given `(label, weight)` pairs; rejected exactly
    /// when the weights do not sum to a positive value that fits the weight
    /// type.
    pub fn new(entries: &Vec<(OpKind, u64)>, seed: u64) -> (r: Result<WeightedDiscrete, BenchError>)
        ensures
            match r {
                Ok(g) => {
                    &&& Self::accepts(entries@)
                    &&& g.wf()
                    &&& g.kinds@.len() == entries@.len()
                    &&& g.rng.state == seed
                    &&& g.total() == sum_weights(entries@)
                    &&& forall|i: int| 0 <= i < entries@.len() ==> g.kinds@[i] == entries@[i].0
                    &&& forall|i: int| 0 <= i < entries@.len()
                        ==> g.cum@[i + 1] == g.cum@[i] + entries@[i].1
                },
                Err(e) => e.is_generator() && !Self::accepts(entries@),
            },
    {
        if entries.len() == 0 {
            return Err(BenchError::Generator { detail: "no outcomes given".to_owned() });
        }
        let mut kinds: Vec<OpKind> = Vec::new();
        let mut cum: Vec<u64> = Vec::new();
        cum.push(0);
        let mut i: usize = 0;
        while i < entries.len()
            invariant
                0 <= i <= entries@.len(),
                kinds@.len() == i,
                cum@.len() == i + 1,
                cum@[0] == 0,
                cum@[i as int] == sum_weights(entries@.take(i as int)),
                forall|j: int| 0 <= j < i ==> kinds@[j] == entries@[j].0,
                forall|j: int| 0 <= j < i ==> cum@[j + 1] == cum@[j] + entries@[j].1,
                forall|j: int| 0 <= j < i ==> #[trigger] cum@[j] <= cum@[j + 1],
            decreases entries@.len() - i,
        {
            let (kind, weight) = entries[i];
            let prev = cum[i];
            proof {
                lemma_sum_weights_take_step(entries@, i as int);
            }
            let next_total = match prev.checked_add(weight) {
                Some(t) => t,
                None => {
                    proof {
                        lemma_sum_weights_take_le(entries@, i + 1);
                    }
                    return Err(BenchError::Generator {
                        detail: "weight sum does not fit the weight type".to_owned(),
                    });
                },
            };
            kinds.push(kind);
            cum.push(next_total);
            i = i + 1;
        }
        proof {
            assert(entries@.take(entries@.len() as int) =~= entries@);
        }
        if cum[entries.len()] == 0 {
            return Err(BenchError::Generator {
                detail: "weights must sum to a positive value".to_owned(),
            });
        }
        Ok(WeightedDiscrete { kinds, cum, rng: RandomStream::new(seed) })
    }

    /// Samples one outcome: draws `u` uniformly below the total weight and
    /// returns the first label whose cumulative weight exceeds `u`. A label
    /// of zero weight is never returned.
    pub fn next(&mut self) -> (v: OpKind)
        requires
            old(self).wf(),
        ensures
            final(self).wf(),
            final(self).kinds == old(self).kinds,
            final(self).cum == old(self).cum,
            final(self).rng.state == stream_step(old(self).rng.state),
            ({
                let u = stream_mix(final(self).rng.state) % old(self).total();
                exists|k: int|
                    selects(old(self).cum@, old(self).kinds@.len() as int, u, k)
                        && v == old(self).kinds@[k]
            }),
    {
        let m = self.kinds.len();
        let total = self.cum[m];
        let u = self.rng.next_below(total);
        let mut k: usize = 0;
        while k < m - 1 && self.cum[k + 1] <= u
            invariant
                old(self).wf(),
                self.kinds == old(self).kinds,
                self.cum == old(self).cum,
                m == self.kinds@.len(),
                0 <= k < m,
                self.cum@[k as int] <= u,
                u < self.cum@[m as int],
            decreases m - k,
        {
            k = k + 1;
        }
        proof {
            if k < m - 1 {
                assert(u < self.cum@[k as int + 1]);
            } else {
                assert(k == m - 1);
            }
            assert(selects(self.cum@, m as int, u, k as int));
        }
        self.kinds[k]
    }
}

} // verus!
