//! Skewed "hot key" generators: a zipfian rank sampler over `[0, items)` and
//! its scrambled variant.
//!
//! The zipfian sampler gives rank `i` (1-based) a weight close to
//! `1 / i^theta`, computed once at construction in 32-bit fixed point: the
//! cumulative weight table plays the role of the generalized harmonic
//! normalization constant, which would be too expensive to recompute per
//! call. Sampling inverts the cumulative table with a binary search, so each
//! draw's rank is pinned exactly by its bracket in the table.
//!
//! Because the table is summed term by term, no closed-form harmonic
//! formula is involved and a skew exponent of exactly one needs no special
//! case: the whole supported range of exponents goes through the same path.
//! The exponent is applied in sixteenth steps, so a positive skew smaller
//! than one thirty-second rounds to no skew and the table comes out
//! uniform.
//!
//! The scrambled variant remaps ranks through a seeded pseudo-random
//! permutation of the key space, so that hot ranks land on scattered keys
//! instead of a contiguous low range, while every key stays reachable and
//! the skew of the rank distribution is preserved.

use vstd::prelude::*;
use crate::errors::BenchError;
use crate::text::u64_to_dec_string;
use vstd::string::StringExecFns;
use crate::rng::{RandomStream, stream_step, stream_mix};
use vstd::arithmetic::div_mod::{lemma_div_is_ordered, lemma_div_is_ordered_by_denominator};
use vstd::seq_lib::seq_to_set_is_finite;
use vstd::set_lib::{set_int_range, lemma_int_range, lemma_subset_equality};

verus! {

/// One, in 32-bit fixed point.
pub const FP_ONE: u128 = 0x1_0000_0000;

/// Numerator of every weight: `2^62`, so the heaviest rank weighs `2^30`.
pub const WEIGHT_NUMERATOR: u128 = 0x4000_0000_0000_0000;

/// No rank weighs more than this.
pub const WEIGHT_MAX: u64 = 0x4000_0000;

/// Largest supported key space; keeps the cumulative table within `u64`.
pub const ZIPF_ITEMS_MAX: u64 = 0x8000_0000;

/// Largest supported skew exponent, in thousandths; keeps the fixed-point
/// power within range.
pub const THETA_MILLI_MAX: u64 = 16_000;

/// Fixed-point product of `a` and `b`, saturating at the type's ceiling.
pub open spec fn fp_sat_mul(a: int, b: int) -> int {
    if a * b > u128::MAX {
        u128::MAX as int
    } else {
        (a * b) / (FP_ONE as int)
    }
}

/// `r` is the integer square root of `x`.
pub open spec fn is_int_sqrt(x: int, r: int) -> bool {
    0 <= r && r * r <= x && x < (r + 1) * (r + 1)
}

/// The integer square root.
pub open spec fn int_sqrt(x: int) -> int {
    choose|r: int| is_int_sqrt(x, r)
}

/// The integer square root is unique, so a witness pins `int_sqrt`.
pub proof fn lemma_int_sqrt_unique(x: int, r: int)
    requires
        is_int_sqrt(x, r),
    ensures
        int_sqrt(x) == r,
{
    assert(exists|q: int| is_int_sqrt(x, q));
    let c = int_sqrt(x);
    assert(is_int_sqrt(x, c));
    if c < r {
        assert(false) by (nonlinear_arith)
            requires 0 <= c < r, r * r <= x, x < (c + 1) * (c + 1);
    }
    if r < c {
        assert(false) by (nonlinear_arith)
            requires 0 <= r < c, c * c <= x, x < (r + 1) * (r + 1);
    }
}

/// Square root in fixed point: widen by one fraction width, then take the
/// integer root. The widening saturates, which only matters far outside the
/// ranges construction admits.
pub open spec fn fp_sqrt(v: int) -> int {
    int_sqrt(
        if v * (FP_ONE as int) > u128::MAX {
            u128::MAX as int
        } else {
            v * (FP_ONE as int)
        },
    )
}

/// Sixteenth root in fixed point: four successive square roots.
pub open spec fn fp_root16(v: int) -> int {
    fp_sqrt(fp_sqrt(fp_sqrt(fp_sqrt(v))))
}

/// `q`-th power in fixed point.
pub open spec fn fp_pow(s: int, q: nat) -> int
    decreases q,
{
    if q == 0 {
        FP_ONE as int
    } else {
        fp_sat_mul(fp_pow(s, (q - 1) as nat), s)
    }
}

/// The skew exponent rounded to sixteenths.
pub open spec fn theta_sixteenths(theta_milli: int) -> int {
    (theta_milli * 16 + 500) / 1000
}

/// Weight of 1-based rank `rank` under skew `theta_milli / 1000`:
/// `2^62 / rank^theta` in fixed point, clamped so that every rank keeps a
/// positive weight and no rank outweighs `WEIGHT_MAX`.
#[verifier::opaque]
pub open spec fn zipf_weight_spec(rank: int, theta_milli: int) -> int {
    let p0 = fp_pow(fp_root16(rank * (FP_ONE as int)), theta_sixteenths(theta_milli) as nat);
    let p = if p0 < FP_ONE as int {
        FP_ONE as int
    } else {
        p0
    };
    let w = (WEIGHT_NUMERATOR as int) / p;
    if w < 1 {
        1
    } else {
        w
    }
}

/// Every rank's weight is positive and at most `WEIGHT_MAX`.
pub proof fn lemma_zipf_weight_bounds(rank: int, theta_milli: int)
    ensures
        1 <= zipf_weight_spec(rank, theta_milli) <= WEIGHT_MAX,
{
    reveal(zipf_weight_spec);
    let p0 = fp_pow(fp_root16(rank * (FP_ONE as int)), theta_sixteenths(theta_milli) as nat);
    let p = if p0 < FP_ONE as int {
        FP_ONE as int
    } else {
        p0
    };
    lemma_div_is_ordered_by_denominator(WEIGHT_NUMERATOR as int, FP_ONE as int, p);
    assert((WEIGHT_NUMERATOR as int) / (FP_ONE as int) == WEIGHT_MAX);
}

/// The integer square root exists for every nonnegative number.
proof fn lemma_int_sqrt_exists(x: int)
    requires
        0 <= x,
    ensures
        is_int_sqrt(x, int_sqrt(x)),
    decreases x,
{
    if x == 0 {
        assert(is_int_sqrt(0, 0));
    } else {
        lemma_int_sqrt_exists(x - 1);
        let r = int_sqrt(x - 1);
        if (r + 1) * (r + 1) <= x {
            assert(is_int_sqrt(x, r + 1)) by (nonlinear_arith)
                requires 0 <= r, r * r <= x - 1, x - 1 < (r + 1) * (r + 1), (r + 1) * (r + 1) <= x;
        } else {
            assert(is_int_sqrt(x, r));
        }
    }
    assert(exists|q: int| is_int_sqrt(x, q));
}

/// The integer square root never decreases.
proof fn lemma_int_sqrt_monotone(x1: int, x2: int)
    requires
        0 <= x1 <= x2,
    ensures
        0 <= int_sqrt(x1) <= int_sqrt(x2),
{
    lemma_int_sqrt_exists(x1);
    lemma_int_sqrt_exists(x2);
    let r1 = int_sqrt(x1);
    let r2 = int_sqrt(x2);
    if r1 > r2 {
        assert(false) by (nonlinear_arith)
            requires 0 <= r2 < r1, r1 * r1 <= x1, x1 <= x2, x2 < (r2 + 1) * (r2 + 1);
    }
}

/// The fixed-point square root never decreases.
proof fn lemma_fp_sqrt_monotone(v1: int, v2: int)
    requires
        0 <= v1 <= v2,
    ensures
        0 <= fp_sqrt(v1) <= fp_sqrt(v2),
{
    let a1 = if v1 * (FP_ONE as int) > u128::MAX { u128::MAX as int } else { v1 * (FP_ONE as int) };
    let a2 = if v2 * (FP_ONE as int) > u128::MAX { u128::MAX as int } else { v2 * (FP_ONE as int) };
    lemma_int_sqrt_monotone(a1, a2);
}

/// The fixed-point product never decreases in either factor, and never
/// goes negative.
proof fn lemma_fp_sat_mul_monotone(a1: int, b1: int, a2: int, b2: int)
    requires
        0 <= a1 <= a2,
        0 <= b1 <= b2,
    ensures
        0 <= fp_sat_mul(a1, b1) <= fp_sat_mul(a2, b2),
{
    assert(a1 * b1 <= a2 * b2) by (nonlinear_arith)
        requires 0 <= a1 <= a2, 0 <= b1 <= b2;
    assert(0 <= a1 * b1) by (nonlinear_arith)
        requires 0 <= a1, 0 <= b1;
    if a1 * b1 > u128::MAX {
        assert(a2 * b2 > u128::MAX);
    } else {
        lemma_div_is_ordered(0, a1 * b1, FP_ONE as int);
        if a2 * b2 > u128::MAX {
            lemma_div_is_ordered(a1 * b1, u128::MAX as int, FP_ONE as int);
            assert((u128::MAX as int) / (FP_ONE as int) <= u128::MAX as int) by {
                lemma_div_is_ordered_by_denominator(u128::MAX as int, 1, FP_ONE as int);
            }
        } else {
            lemma_div_is_ordered(a1 * b1, a2 * b2, FP_ONE as int);
        }
    }
}

/// The fixed-point power never decreases in its base, and never goes
/// negative.
proof fn lemma_fp_pow_monotone(s1: int, s2: int, q: nat)
    requires
        0 <= s1 <= s2,
    ensures
        0 <= fp_pow(s1, q) <= fp_pow(s2, q),
    decreases q,
{
    if q > 0 {
        lemma_fp_pow_monotone(s1, s2, (q - 1) as nat);
        lemma_fp_sat_mul_monotone(fp_pow(s1, (q - 1) as nat), s1, fp_pow(s2, (q - 1) as nat), s2);
    }
}

/// Law: a lower rank never receives less probability mass than a higher
/// one — the weight, and so the width of the rank's slice of the
/// cumulative table, is non-increasing in the rank, whatever the skew.
pub proof fn lemma_zipf_weights_nonincreasing(i: int, j: int, theta_milli: int)
    requires
        1 <= i <= j,
    ensures
        zipf_weight_spec(j, theta_milli) <= zipf_weight_spec(i, theta_milli),
{
    reveal(zipf_weight_spec);
    let q = theta_sixteenths(theta_milli) as nat;
    let bi = i * (FP_ONE as int);
    let bj = j * (FP_ONE as int);
    lemma_fp_sqrt_monotone(bi, bj);
    lemma_fp_sqrt_monotone(fp_sqrt(bi), fp_sqrt(bj));
    lemma_fp_sqrt_monotone(fp_sqrt(fp_sqrt(bi)), fp_sqrt(fp_sqrt(bj)));
    lemma_fp_sqrt_monotone(fp_sqrt(fp_sqrt(fp_sqrt(bi))), fp_sqrt(fp_sqrt(fp_sqrt(bj))));
    lemma_fp_pow_monotone(fp_root16(bi), fp_root16(bj), q);
    let pi = if fp_pow(fp_root16(bi), q) < FP_ONE as int { FP_ONE as int } else { fp_pow(fp_root16(bi), q) };
    let pj = if fp_pow(fp_root16(bj), q) < FP_ONE as int { FP_ONE as int } else { fp_pow(fp_root16(bj), q) };
    lemma_div_is_ordered_by_denominator(WEIGHT_NUMERATOR as int, pi, pj);
}

fn isqrt_u128(x: u128) -> (r: u128)
    ensures
        is_int_sqrt(x as int, r as int),
        r as int == int_sqrt(x as int),
{
    let mut lo: u128 = 0;
    let mut hi: u128 = 0x1_0000_0000_0000_0000;
    proof {
        assert((x as int) < (hi as int) * (hi as int)) by (nonlinear_arith)
            requires x <= u128::MAX, hi == 0x1_0000_0000_0000_0000;
    }
    while hi - lo > 1
        invariant
            lo < hi <= 0x1_0000_0000_0000_0000,
            (lo as int) * (lo as int) <= x as int,
            (x as int) < (hi as int) * (hi as int),
        decreases hi - lo,
    {
        let mid: u128 = lo + (hi - lo) / 2;
        proof {
            assert((mid as int) * (mid as int) <= u128::MAX as int) by (nonlinear_arith)
                requires (mid as int) < 0x1_0000_0000_0000_0000;
        }
        let sq: u128 = mid * mid;
        if sq <= x {
            lo = mid;
        } else {
            hi = mid;
        }
    }
    proof {
        lemma_int_sqrt_unique(x as int, lo as int);
    }
    lo
}

fn fp_mul(a: u128, b: u128) -> (r: u128)
    ensures
        r as int == fp_sat_mul(a as int, b as int),
{
    match a.checked_mul(b) {
        Some(t) => t / 0x1_0000_0000,
        None => u128::MAX,
    }
}

fn fp_sqrt_exec(v: u128) -> (r: u128)
    ensures
        r as int == fp_sqrt(v as int),
{
    let arg: u128 = match v.checked_mul(0x1_0000_0000) {
        Some(t) => t,
        None => u128::MAX,
    };
    isqrt_u128(arg)
}

fn fp_root16_exec(v: u128) -> (r: u128)
    ensures
        r as int == fp_root16(v as int),
{
    fp_sqrt_exec(fp_sqrt_exec(fp_sqrt_exec(fp_sqrt_exec(v))))
}

fn fp_pow_exec(s: u128, q: u64) -> (r: u128)
    ensures
        r as int == fp_pow(s as int, q as nat),
{
    let mut r: u128 = 0x1_0000_0000;
    let mut j: u64 = 0;
    while j < q
        invariant
            j <= q,
            r as int == fp_pow(s as int, j as nat),
        decreases q - j,
    {
        r = fp_mul(r, s);
        j = j + 1;
    }
    r
}

/// Weight of 1-based rank `rank`; see `zipf_weight_spec`.
pub fn zipf_weight(rank: u64, theta_milli: u64) -> (w: u64)
    requires
        theta_milli <= THETA_MILLI_MAX,
    ensures
        w as int == zipf_weight_spec(rank as int, theta_milli as int),
        1 <= w <= WEIGHT_MAX,
{
    let sixteenths: u64 = (theta_milli * 16 + 500) / 1000;
    let base: u128 = (rank as u128) * 0x1_0000_0000;
    let root: u128 = fp_root16_exec(base);
    let p0: u128 = fp_pow_exec(root, sixteenths);
    let p: u128 = if p0 < 0x1_0000_0000 {
        0x1_0000_0000
    } else {
        p0
    };
    let w128: u128 = 0x4000_0000_0000_0000u128 / p;
    proof {
        reveal(zipf_weight_spec);
        lemma_div_is_ordered_by_denominator(
            WEIGHT_NUMERATOR as int,
            FP_ONE as int,
            p as int,
        );
        assert((WEIGHT_NUMERATOR as int) / (FP_ONE as int) == WEIGHT_MAX);
    }
    if w128 == 0 {
        1
    } else {
        w128 as u64
    }
}

/// The cumulative weight table of a zipfian generator over `items` ranks:
/// entry `i` holds the total weight of ranks `1..=i`.
pub open spec fn zipf_cum_wf(cum: Seq<u64>, items: int, theta_milli: int) -> bool {
    &&& cum.len() == items + 1
    &&& 1 <= items
    &&& cum[0] == 0
    &&& forall|i: int|
        1 <= i <= items ==> #[trigger] cum[i] == cum[i - 1] + zipf_weight_spec(i, theta_milli)
}

/// A well-formed cumulative table is strictly increasing.
pub proof fn lemma_zipf_cum_increasing(cum: Seq<u64>, items: int, theta_milli: int)
    requires
        zipf_cum_wf(cum, items, theta_milli),
    ensures
        forall|i: int, j: int| 0 <= i < j <= items ==> cum[i] < cum[j],
{
    assert forall|i: int, j: int| 0 <= i < j <= items implies cum[i] < cum[j] by {
        lemma_zipf_cum_increasing_step(cum, items, theta_milli, i, j);
    }
}

proof fn lemma_zipf_cum_increasing_step(cum: Seq<u64>, items: int, theta_milli: int, i: int, j: int)
    requires
        zipf_cum_wf(cum, items, theta_milli),
        0 <= i < j <= items,
    ensures
        cum[i] < cum[j],
    decreases j - i,
{
    lemma_zipf_weight_bounds(j, theta_milli);
    if i < j - 1 {
        lemma_zipf_cum_increasing_step(cum, items, theta_milli, i, j - 1);
    }
}

/// Produces a 0-based rank in `[0, items)` biased toward low ranks with the
/// configured skew.
pub struct Zipfian {
    /// Size of the rank space.
    pub items: u64,
    /// Skew exponent in thousandths.
    pub theta_milli: u64,
    /// Cumulative weights of ranks `1..=items`, precomputed at construction.
    pub cum: Vec<u64>,
    /// The generator's random source.
    pub rng: RandomStream,
}

/// The draw `u` falls in rank `r`'s slice of the cumulative table.
pub open spec fn zipf_bracket(cum: Seq<u64>, items: int, u: u64, r: int) -> bool {
    &&& 0 <= r < items
    &&& cum[r] <= u < cum[r + 1]
}

/// Law: a draw falls in exactly one rank's slice of the cumulative table,
/// so the sampled rank is a function of the table and the draw.
pub proof fn lemma_zipf_bracket_unique(
    cum: Seq<u64>,
    items: int,
    theta_milli: int,
    u: u64,
    r1: int,
    r2: int,
)
    requires
        zipf_cum_wf(cum, items, theta_milli),
        zipf_bracket(cum, items, u, r1),
        zipf_bracket(cum, items, u, r2),
    ensures
        r1 == r2,
{
    lemma_zipf_cum_increasing(cum, items, theta_milli);
}

impl Zipfian {
    /// Construction validated the parameters and precomputed the table.
    pub open spec fn wf(&self) -> bool {
        &&& zipf_cum_wf(self.cum@, self.items as int, self.theta_milli as int)
        &&& self.items <= ZIPF_ITEMS_MAX
        &&& self.theta_milli <= THETA_MILLI_MAX
    }

    /// Parameters are accepted: a nonempty key space within the supported
    /// size, and a skew exponent within the supported range.
    pub open spec fn accepts(items: u64, theta_milli: u64) -> bool {
        &&& 1 <= items <= ZIPF_ITEMS_MAX
        &&& theta_milli <= THETA_MILLI_MAX
    }

    /// A zipfian generator over `items` ranks with skew
    /// `theta_milli / 1000`; rejected exactly when the key space is empty or
    /// a parameter is beyond the supported range.
    pub fn new(items: u64, theta_milli: u64, seed: u64) -> (r: Result<Zipfian, BenchError>)
        ensures
            match r {
                Ok(g) => {
                    &&& Self::accepts(items, theta_milli)
                    &&& g.wf()
                    &&& g.items == items
                    &&& g.theta_milli == theta_milli
                    &&& g.rng.state == seed
                },
                Err(e) => e.is_generator() && !Self::accepts(items, theta_milli),
            },
    {
        if items == 0 {
            return Err(BenchError::Generator {
                detail: "zipfian needs a positive item count".to_owned(),
            });
        }
        if items > ZIPF_ITEMS_MAX {
            let mut detail = String::from_str("zipfian item count beyond supported size: ");
            let value = u64_to_dec_string(items);
            detail.append(value.as_str());
            return Err(BenchError::Generator { detail });
        }
        if theta_milli > THETA_MILLI_MAX {
            let mut detail = String::from_str(
                "zipfian exponent in thousandths beyond supported range: ",
            );
            let value = u64_to_dec_string(theta_milli);
            detail.append(value.as_str());
            return Err(BenchError::Generator { detail });
        }
        let mut cum: Vec<u64> = Vec::new();
        cum.push(0);
        let mut last: u64 = 0;
        let mut i: u64 = 1;
        while i <= items
            invariant
                1 <= i <= items + 1,
                items <= ZIPF_ITEMS_MAX,
                theta_milli <= THETA_MILLI_MAX,
                cum@.len() == i,
                cum@[0] == 0,
                last == cum@[i - 1],
                last <= (i - 1) * (WEIGHT_MAX as int),
                forall|j: int|
                    1 <= j < i ==> #[trigger] cum@[j] == cum@[j - 1] + zipf_weight_spec(
                        j,
                        theta_milli as int,
                    ),
            decreases items + 1 - i,
        {
            let w: u64 = zipf_weight(i, theta_milli);
            proof {
                assert((i - 1) * (WEIGHT_MAX as int) + WEIGHT_MAX == i * (WEIGHT_MAX as int))
                    by (nonlinear_arith);
                assert(i * (WEIGHT_MAX as int) <= (ZIPF_ITEMS_MAX as int) * (WEIGHT_MAX as int))
                    by (nonlinear_arith)
                    requires i <= ZIPF_ITEMS_MAX as int;
            }
            let next_total: u64 = last + w;
            cum.push(next_total);
            last = next_total;
            i = i + 1;
        }
        Ok(Zipfian { items, theta_milli, cum, rng: RandomStream::new(seed) })
    }

    /// Total weight of all ranks.
    pub open spec fn total(&self) -> u64 {
        self.cum@[self.items as int]
    }

    /// Draws the next rank: the unique rank whose cumulative slice contains
    /// the stream's next output reduced below the total weight.
    pub fn next(&mut self) -> (v: u64)
        requires
            old(self).wf(),
        ensures
            final(self).wf(),
            final(self).items == old(self).items,
            final(self).theta_milli == old(self).theta_milli,
            final(self).cum@ == old(self).cum@,
            final(self).rng.state == stream_step(old(self).rng.state),
            v < old(self).items,
            zipf_bracket(
                old(self).cum@,
                old(self).items as int,
                stream_mix(final(self).rng.state) % old(self).total(),
                v as int,
            ),
    {
        proof {
            lemma_zipf_cum_increasing(self.cum@, self.items as int, self.theta_milli as int);
        }
        let items_ix: usize = self.items as usize;
        let total: u64 = self.cum[items_ix];
        let u: u64 = self.rng.next_below(total);
        let mut lo: usize = 0;
        let mut hi: usize = items_ix;
        while hi - lo > 1
            invariant
                old(self).wf(),
                self.cum@ == old(self).cum@,
                self.items == old(self).items,
                self.theta_milli == old(self).theta_milli,
                self.rng.state == stream_step(old(self).rng.state),
                u == stream_mix(self.rng.state) % old(self).total(),
                items_ix == self.items as int,
                lo < hi <= items_ix,
                self.cum@[lo as int] <= u,
                u < self.cum@[hi as int],
            decreases hi - lo,
        {
            let mid: usize = lo + (hi - lo) / 2;
            if self.cum[mid] <= u {
                lo = mid;
            } else {
                hi = mid;
            }
        }
        lo as u64
    }
}

/// The identity permutation of `[0, n)`.
pub open spec fn identity_perm(n: nat) -> Seq<u64> {
    Seq::new(n, |i: int| i as u64)
}

/// The scramble as a function of the shuffle stream's state: walk `k` from
/// the top of the key space down to one, draw `j` below `k + 1`, and swap
/// positions `k` and `j`.
pub open spec fn shuffle_from(perm: Seq<u64>, state: u64, k: nat) -> Seq<u64>
    decreases k,
{
    if k == 0 {
        perm
    } else {
        let s1 = stream_step(state);
        let j = stream_mix(s1) % ((k + 1) as u64);
        shuffle_from(
            perm.update(k as int, perm[j as int]).update(j as int, perm[k as int]),
            s1,
            (k - 1) as nat,
        )
    }
}

/// `s` is a permutation of `[0, n)`: `n` pairwise distinct values, each
/// below `n`.
pub open spec fn is_permutation_of_range(s: Seq<u64>, n: int) -> bool {
    &&& s.len() == n
    &&& forall|i: int| 0 <= i < n ==> #[trigger] s[i] < n
    &&& forall|i: int, j: int| 0 <= i < n && 0 <= j < n && i != j ==> s[i] != s[j]
}

/// Law: a permutation of `[0, n)` reaches every key of the space — there is
/// no silently unreachable key.
pub proof fn lemma_permutation_covers(s: Seq<u64>, n: int)
    requires
        is_permutation_of_range(s, n),
    ensures
        forall|k: u64| k < n ==> #[trigger] s.contains(k),
{
    broadcast use seq_to_set_is_finite;

    let m = s.map_values(|v: u64| v as int);
    assert(m.no_duplicates()) by {
        assert forall|i: int, j: int|
            0 <= i < m.len() && 0 <= j < m.len() && i != j implies m[i] != m[j] by {
            assert(s[i] != s[j]);
        }
    }
    m.unique_seq_to_set();
    lemma_int_range(0, n);
    assert(m.to_set().subset_of(set_int_range(0, n))) by {
        assert forall|x: int| m.to_set().contains(x) implies set_int_range(0, n).contains(x) by {
            let i = choose|i: int| 0 <= i < m.len() && m[i] == x;
            assert(s[i] < n);
        }
    }
    lemma_subset_equality(m.to_set(), set_int_range(0, n));
    assert forall|k: u64| k < n implies #[trigger] s.contains(k) by {
        assert(set_int_range(0, n).contains(k as int));
        assert(m.to_set().contains(k as int));
        assert(m.contains(k as int));
        let i = choose|i: int| 0 <= i < m.len() && m[i] == k as int;
        assert(s[i] == k);
    }
}

/// A zipfian sampler whose ranks are remapped through a seeded pseudo-random
/// permutation of the key space.
pub struct ScrambledZipfian {
    /// The underlying rank sampler.
    pub zipf: Zipfian,
    /// The scramble: a permutation of `[0, items)`.
    pub perm: Vec<u64>,
}

impl ScrambledZipfian {
    /// Construction validated the parameters, built the table and shuffled
    /// the key space.
    pub open spec fn wf(&self) -> bool {
        &&& self.zipf.wf()
        &&& is_permutation_of_range(self.perm@, self.zipf.items as int)
    }

    /// Size of the key space.
    pub open spec fn items(&self) -> u64 {
        self.zipf.items
    }

    /// A scrambled zipfian generator over `items` keys; accepted and
    /// rejected exactly as the plain zipfian generator is. The rank
    /// sampler's stream starts at the seed and the scramble is the seeded
    /// shuffle of the identity permutation, so equal seeds give equal
    /// generators.
    pub fn new(items: u64, theta_milli: u64, seed: u64) -> (r: Result<ScrambledZipfian, BenchError>)
        ensures
            match r {
                Ok(g) => {
                    &&& Zipfian::accepts(items, theta_milli)
                    &&& g.wf()
                    &&& g.items() == items
                    &&& g.zipf.theta_milli == theta_milli
                    &&& g.zipf.rng.state == seed
                    &&& g.perm@ == shuffle_from(
                        identity_perm(items as nat),
                        seed ^ 0x5DEECE66D,
                        (items - 1) as nat,
                    )
                },
                Err(e) => e.is_generator() && !Zipfian::accepts(items, theta_milli),
            },
    {
        let zipf = match Zipfian::new(items, theta_milli, seed) {
            Ok(z) => z,
            Err(e) => {
                return Err(e);
            },
        };
        let mut perm: Vec<u64> = Vec::new();
        let mut v: u64 = 0;
        while v < items
            invariant
                v <= items,
                perm@.len() == v,
                forall|i: int| 0 <= i < v ==> #[trigger] perm@[i] == i,
            decreases items - v,
        {
            perm.push(v);
            v = v + 1;
        }
        let mut shuffle_rng = RandomStream::new(seed ^ 0x5DEECE66D);
        proof {
            assert(perm@ =~= identity_perm(items as nat));
        }
        let mut k: u64 = items - 1;
        while k >= 1
            invariant
                k <= items - 1,
                items <= ZIPF_ITEMS_MAX,
                perm@.len() == items,
                is_permutation_of_range(perm@, items as int),
                shuffle_from(identity_perm(items as nat), seed ^ 0x5DEECE66D, (items - 1) as nat)
                    == shuffle_from(perm@, shuffle_rng.state, k as nat),
            decreases k,
        {
            let j: u64 = shuffle_rng.next_below(k + 1);
            let kk: usize = k as usize;
            let jj: usize = j as usize;
            let ghost before = perm@;
            let vk: u64 = perm[kk];
            let vj: u64 = perm[jj];
            perm[kk] = vj;
            perm[jj] = vk;
            proof {
                assert(perm@ =~= before.update(kk as int, vj).update(jj as int, vk));
                assert(perm@ == before.update(kk as int, before[jj as int]).update(
                    jj as int,
                    before[kk as int],
                ));
                assert forall|a: int, b: int|
                    0 <= a < items && 0 <= b < items && a != b implies perm@[a] != perm@[b] by {
                    assert(perm@[a] == if a == jj as int {
                        before[kk as int]
                    } else if a == kk as int {
                        before[jj as int]
                    } else {
                        before[a]
                    });
                    assert(perm@[b] == if b == jj as int {
                        before[kk as int]
                    } else if b == kk as int {
                        before[jj as int]
                    } else {
                        before[b]
                    });
                }
            }
            k = k - 1;
        }
        Ok(ScrambledZipfian { zipf, perm })
    }

    /// Law: no key of the space is silently unreachable — every key below
    /// `items()` is the image of some rank, and every rank's slice of the
    /// cumulative table is nonempty, so every key can be drawn.
    pub proof fn lemma_reaches_every_key(&self, k: u64)
        requires
            self.wf(),
            k < self.items(),
        ensures
            exists|r: int| 0 <= r < self.zipf.items && self.perm@[r] == k,
    {
        lemma_permutation_covers(self.perm@, self.zipf.items as int);
        assert(self.perm@.contains(k));
    }

    /// Draws the next key: the scramble applied to the next zipfian rank.
    /// The key is the permuted image of the unique rank whose cumulative
    /// slice contains the draw, so frequency follows the zipfian shape while
    /// key values are scattered.
    pub fn next(&mut self) -> (v: u64)
        requires
            old(self).wf(),
        ensures
            final(self).wf(),
            final(self).zipf.items == old(self).zipf.items,
            final(self).zipf.cum@ == old(self).zipf.cum@,
            final(self).perm@ == old(self).perm@,
            final(self).zipf.rng.state == stream_step(old(self).zipf.rng.state),
            v < old(self).items(),
            exists|r: int|
                zipf_bracket(
                    old(self).zipf.cum@,
                    old(self).zipf.items as int,
                    stream_mix(final(self).zipf.rng.state) % old(self).zipf.total(),
                    r,
                ) && v == old(self).perm@[r],
    {
        let rank: u64 = self.zipf.next();
        let key: u64 = self.perm[rank as usize];
        proof {
            let u = stream_mix(self.zipf.rng.state) % old(self).zipf.total();
            assert(zipf_bracket(
                old(self).zipf.cum@,
                old(self).zipf.items as int,
                u,
                rank as int,
            ) && key == old(self).perm@[rank as int]);
        }
        key
    }
}

} // verus!
