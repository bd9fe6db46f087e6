//! The statistical reduction of collected samples to a single offset.
//!
//! The samples are sorted by ascending latency (a lower latency means a
//! tighter uncertainty window, so a more trustworthy offset estimate). The
//! offset estimates are read in that order and, in whole milliseconds, a
//! median, a mean, and a sample variance are taken; estimates within one
//! standard deviation of the median are the inliers, and the final offset is
//! the mean of the inliers, truncated to whole microseconds. The comparison
//! against the standard deviation is done exactly, by comparing squared
//! distances against the variance.

use vstd::arithmetic::div_mod::lemma_div_is_ordered;
use vstd::arithmetic::div_mod::lemma_div_nonincreasing;
use vstd::arithmetic::div_mod::lemma_div_pos_is_pos;
use vstd::prelude::*;

use crate::delta::Delta;
use crate::delta::DELTA_SPAN_MAX_NANOS;
use crate::time::tdiv;
use crate::time::SignedDuration;

verus! {

/// A whole count of milliseconds, truncated toward zero.
pub open spec fn ns_to_ms(ns: int) -> int {
    tdiv(ns, 1_000_000)
}

/// The sum of a sequence of integers.
pub open spec fn seq_sum(s: Seq<int>) -> int
    decreases s.len(),
{
    if s.len() == 0 {
        0
    } else {
        seq_sum(s.drop_last()) + s.last()
    }
}

/// Extending a prefix of `q` by one element grows its sum by that element.
pub proof fn lemma_seq_sum_take_step(q: Seq<int>, i: int)
    requires
        0 <= i < q.len(),
    ensures
        seq_sum(q.take(i + 1)) == seq_sum(q.take(i)) + q[i],
{
    assert(q.take(i + 1).drop_last() =~= q.take(i));
    assert(q.take(i + 1).last() == q[i]);
}

/// The offset estimates of the samples, in nanoseconds, in sequence order.
pub open spec fn spec_delta_values(s: Seq<Delta>) -> Seq<int> {
    s.map_values(|d: Delta| d.delta_ns())
}

/// The offset estimates of the samples, in whole milliseconds.
pub open spec fn spec_ms_values(s: Seq<Delta>) -> Seq<int> {
    s.map_values(|d: Delta| ns_to_ms(d.delta_ns()))
}

/// The squared deviations `(n * x - total)^2` of the values in `dm`: the
/// squared distances from the mean, scaled by `n^2`, where `total` is the sum
/// of the `n` values.
pub open spec fn spec_sq_devs(dm: Seq<int>, n: int, total: int) -> Seq<int> {
    dm.map_values(|x: int| (n * x - total) * (n * x - total))
}

/// Whether an offset estimate of `d` nanoseconds lies within one standard
/// deviation of the median, in milliseconds: `(m - median)^2 <= variance`
/// where `m` is `d` in whole milliseconds and the variance is
/// `scatter / m_factor` with `scatter` the sum of squared scaled deviations
/// and `m_factor = n^2 * (n - 1)`.
pub open spec fn spec_is_inlier(d: int, median: int, scatter: int, m_factor: int) -> bool {
    (ns_to_ms(d) - median) * (ns_to_ms(d) - median) * m_factor <= scatter
}

/// The inliers among the offset estimates `ds` (in nanoseconds), in order.
pub open spec fn spec_inliers(ds: Seq<int>, median: int, scatter: int, m_factor: int) -> Seq<int>
    decreases ds.len(),
{
    if ds.len() == 0 {
        Seq::empty()
    } else {
        let rest = spec_inliers(ds.drop_last(), median, scatter, m_factor);
        if spec_is_inlier(ds.last(), median, scatter, m_factor) {
            rest.push(ds.last())
        } else {
            rest
        }
    }
}

/// A sequence whose element at some index is an inlier has at least one
/// inlier.
pub proof fn lemma_inliers_nonempty(
    ds: Seq<int>,
    median: int,
    scatter: int,
    m_factor: int,
    j: int,
)
    requires
        0 <= j < ds.len(),
        spec_is_inlier(ds[j], median, scatter, m_factor),
    ensures
        spec_inliers(ds, median, scatter, m_factor).len() >= 1,
    decreases ds.len(),
{
    if j < ds.len() - 1 {
        lemma_inliers_nonempty(ds.drop_last(), median, scatter, m_factor, j);
    }
}

/// Extending a prefix of `ds` by one element extends its inliers by that
/// element exactly when the element is an inlier.
pub proof fn lemma_inliers_take_step(
    ds: Seq<int>,
    median: int,
    scatter: int,
    m_factor: int,
    i: int,
)
    requires
        0 <= i < ds.len(),
    ensures
        spec_inliers(ds.take(i + 1), median, scatter, m_factor) == if spec_is_inlier(
            ds[i],
            median,
            scatter,
            m_factor,
        ) {
            spec_inliers(ds.take(i), median, scatter, m_factor).push(ds[i])
        } else {
            spec_inliers(ds.take(i), median, scatter, m_factor)
        },
{
    assert(ds.take(i + 1).drop_last() =~= ds.take(i));
    assert(ds.take(i + 1).last() == ds[i]);
}

/// Whether the samples are ordered by ascending latency.
pub open spec fn sorted_by_latency(s: Seq<Delta>) -> bool {
    forall|i: int, j: int| 0 <= i < j < s.len() ==> s[i].latency_ns() <= s[j].latency_ns()
}

/// `x` inserted into `s` after every element whose latency does not exceed
/// `x`'s.
pub open spec fn spec_insert_by_latency(s: Seq<Delta>, x: Delta) -> Seq<Delta>
    decreases s.len(),
{
    if s.len() == 0 {
        seq![x]
    } else if s.last().latency_ns() <= x.latency_ns() {
        s.push(x)
    } else {
        spec_insert_by_latency(s.drop_last(), x).push(s.last())
    }
}

/// `s` sorted by ascending latency; elements of equal latency keep their
/// order (a stable sort).
pub open spec fn spec_sort_by_latency(s: Seq<Delta>) -> Seq<Delta>
    decreases s.len(),
{
    if s.len() == 0 {
        Seq::empty()
    } else {
        spec_insert_by_latency(spec_sort_by_latency(s.drop_last()), s.last())
    }
}

/// On a latency-sorted sequence, inserting at the position `j` that splits
/// the elements into those with latency at most `x`'s (before `j`) and those
/// with a strictly larger latency (from `j` on) realizes
/// `spec_insert_by_latency`.
proof fn lemma_insert_at_position(s: Seq<Delta>, x: Delta, j: int)
    requires
        0 <= j <= s.len(),
        sorted_by_latency(s),
        forall|k: int| 0 <= k < j ==> s[k].latency_ns() <= x.latency_ns(),
        forall|k: int| j <= k < s.len() ==> s[k].latency_ns() > x.latency_ns(),
    ensures
        spec_insert_by_latency(s, x) == s.insert(j, x),
    decreases s.len(),
{
    if s.len() == 0 {
        assert(s.insert(0, x) =~= seq![x]);
    } else if s.last().latency_ns() <= x.latency_ns() {
        assert(j == s.len());
        assert(s.insert(j, x) =~= s.push(x));
    } else {
        assert(j < s.len());
        assert(sorted_by_latency(s.drop_last()));
        lemma_insert_at_position(s.drop_last(), x, j);
        assert(s.insert(j, x) =~= s.drop_last().insert(j, x).push(s.last()));
    }
}

/// The samples, sorted by ascending latency; samples of equal latency keep
/// their arrival order.
pub fn sort_by_latency(v: Vec<Delta>) -> (r: Vec<Delta>)
    ensures
        r@ == spec_sort_by_latency(v@),
        sorted_by_latency(r@),
        r@.len() == v@.len(),
{
    let mut out: Vec<Delta> = Vec::new();
    let mut i: usize = 0;
    assert(v@.take(0) =~= Seq::<Delta>::empty());
    while i < v.len()
        invariant
            i <= v@.len(),
            out@ == spec_sort_by_latency(v@.take(i as int)),
            sorted_by_latency(out@),
            out@.len() == i,
        decreases v@.len() - i,
    {
        let x: Delta = v[i];
        let ghost prev = out@;
        let mut j: usize = out.len();
        while j > 0 && latency_exceeds(&out[j - 1], &x)
            invariant
                j <= out@.len(),
                out@ == prev,
                sorted_by_latency(out@),
                forall|k: int| j <= k < out@.len() ==> out@[k].latency_ns() > x.latency_ns(),
            decreases j,
        {
            j = j - 1;
        }
        assert(forall|k: int| 0 <= k < j ==> out@[k].latency_ns() <= x.latency_ns());
        out.insert(j, x);
        proof {
            lemma_insert_at_position(prev, x, j as int);
            assert(v@.take(i + 1).drop_last() =~= v@.take(i as int));
            assert(v@.take(i + 1).last() == v@[i as int]);
            assert(out@ == spec_sort_by_latency(v@.take(i + 1)));
            assert forall|p: int, q: int|
                0 <= p < q < out@.len() implies out@[p].latency_ns()
                <= out@[q].latency_ns() by {
                assert(out@ == prev.insert(j as int, x));
                if p < j && q < j {
                } else if p < j && q == j {
                } else if p < j && q > j {
                } else if p == j {
                    assert(out@[q] == prev[q - 1]);
                } else {
                    assert(out@[p] == prev[p - 1]);
                    assert(out@[q] == prev[q - 1]);
                }
            }
        }
        i = i + 1;
    }
    assert(v@.take(v@.len() as int) =~= v@);
    out
}

/// Whether `a`'s latency strictly exceeds `b`'s.
fn latency_exceeds(a: &Delta, b: &Delta) -> (r: bool)
    ensures
        r == (a.latency_ns() > b.latency_ns()),
{
    a.latency().as_nanos() > b.latency().as_nanos()
}

/// A loose bound on an offset estimate in whole milliseconds.
pub const MS_BOUND: i128 = 631_107_230_402_000;

/// A bound on a scaled deviation `n * x - total`: `510 * MS_BOUND`.
pub const DEV_BOUND: i128 = 321_864_687_505_020_000;

/// A bound on the distance of an estimate from the median, in milliseconds.
pub const DIFF_BOUND: i128 = 1_262_214_460_804_000;

/// A bound on `n^2 * (n - 1)` for up to 255 samples.
pub const M_FACTOR_BOUND: i128 = 16_516_350;

/// The square of [`DEV_BOUND`]: a bound on one squared scaled deviation.
pub const SQ_DEV_BOUND: i128 = 103_596_877_062_704_177_712_525_200_400_000_000;

/// A product of values within symmetric bounds lies within the product of
/// the bounds.
proof fn lemma_abs_mul_bound(a: int, b: int, ca: int, cb: int) by (nonlinear_arith)
    requires
        -ca <= a <= ca,
        -cb <= b <= cb,
        0 <= ca,
        0 <= cb,
    ensures
        -(ca * cb) <= a * b <= ca * cb,
{
}

/// A square is never negative.
proof fn lemma_square_nonneg(a: int) by (nonlinear_arith)
    ensures
        a * a >= 0,
{
}

/// An offset estimate within the representable span is, in milliseconds,
/// within [`MS_BOUND`].
proof fn lemma_ms_bounded(d: int)
    requires
        -DELTA_SPAN_MAX_NANOS <= d <= DELTA_SPAN_MAX_NANOS,
    ensures
        -MS_BOUND <= ns_to_ms(d) <= MS_BOUND,
{
    if d >= 0 {
        lemma_div_pos_is_pos(d, 1_000_000);
        lemma_div_is_ordered(d, DELTA_SPAN_MAX_NANOS as int, 1_000_000);
        lemma_div_nonincreasing(DELTA_SPAN_MAX_NANOS as int, 1_000_000);
        vstd::arithmetic::div_mod::lemma_fundamental_div_mod_converse(
            DELTA_SPAN_MAX_NANOS as int,
            1_000_000,
            631_107_230_401_999,
            999_999,
        );
    } else {
        lemma_div_pos_is_pos(-d, 1_000_000);
        lemma_div_is_ordered(-d, DELTA_SPAN_MAX_NANOS as int, 1_000_000);
        vstd::arithmetic::div_mod::lemma_fundamental_div_mod_converse(
            DELTA_SPAN_MAX_NANOS as int,
            1_000_000,
            631_107_230_401_999,
            999_999,
        );
    }
}

/// The samples kept for the statistics: with an even count the
/// first-collected sample is dropped — it is the likeliest to carry
/// connection-establishment overhead, and its removal restores an odd count
/// for the median step.
pub open spec fn spec_kept(s: Seq<Delta>) -> Seq<Delta> {
    if s.len() > 0 && s.len() % 2 == 0 {
        s.drop_first()
    } else {
        s
    }
}

/// The reduced offset in whole microseconds, or `None` when fewer than three
/// valid samples remain after the parity drop.
pub open spec fn spec_reduce_micros(samples: Seq<Delta>) -> Option<int> {
    let kept = spec_kept(samples);
    if kept.len() < 3 {
        None
    } else {
        let sorted = spec_sort_by_latency(kept);
        let ds = spec_delta_values(sorted);
        let dm = spec_ms_values(sorted);
        let n = dm.len() as int;
        let median = dm[n / 2];
        let total = seq_sum(dm);
        let scatter = seq_sum(spec_sq_devs(dm, n, total));
        let m_factor = n * n * (n - 1);
        let inliers = spec_inliers(ds, median, scatter, m_factor);
        Some(tdiv(seq_sum(inliers), 1000 * inliers.len() as int))
    }
}

/// Reduce the collected samples to a single offset: drop the first-collected
/// sample when the count is even, give up below three samples, and otherwise
/// average the offset estimates lying within one standard deviation of their
/// latency-ranked median, truncating to whole microseconds.
///
/// `None` is the defined "not enough confidence" outcome, not an error.
pub fn reduce_samples(samples: Vec<Delta>) -> (r: Option<SignedDuration>)
    requires
        samples@.len() <= 255,
    ensures
        (r is Some) == (spec_reduce_micros(samples@) is Some),
        r matches Some(off) ==> (spec_reduce_micros(samples@) matches Some(us) && off@ == 1000
            * us),
{
    let ghost input = samples@;
    let mut kept = samples;
    if kept.len() > 0 && kept.len() % 2 == 0 {
        kept.remove(0);
    }
    proof {
        assert(kept@ =~= spec_kept(input));
    }
    if kept.len() < 3 {
        return None;
    }
    let sorted: Vec<Delta> = sort_by_latency(kept);
    let ghost gsorted = spec_sort_by_latency(spec_kept(input));
    let ghost ds = spec_delta_values(gsorted);
    let ghost dmspec = spec_ms_values(gsorted);
    let n: usize = sorted.len();
    let ni: i128 = n as i128;

    // The estimates in whole milliseconds, and their running total.
    let mut dm: Vec<i128> = Vec::new();
    let mut total: i128 = 0;
    let mut i: usize = 0;
    while i < n
        invariant
            sorted@ == gsorted,
            ds == spec_delta_values(gsorted),
            dmspec == spec_ms_values(gsorted),
            sorted@.len() == n,
            3 <= n <= 255,
            i <= n,
            dm@.len() == i,
            forall|k: int| 0 <= k < i ==> dm@[k] == dmspec[k],
            forall|k: int| 0 <= k < i ==> -MS_BOUND <= #[trigger] dm@[k] <= MS_BOUND,
            total == seq_sum(dmspec.take(i as int)),
            -(i as int) * MS_BOUND <= total <= (i as int) * MS_BOUND,
        decreases n - i,
    {
        let d: Delta = sorted[i];
        proof {
            use_type_invariant(&d);
        }
        let v: i128 = d.delta().as_nanos();
        let m: i128 = v / 1_000_000;
        proof {
            lemma_ms_bounded(v as int);
            lemma_seq_sum_take_step(dmspec, i as int);
        }
        total = total + m;
        dm.push(m);
        i = i + 1;
    }
    proof {
        assert(dmspec.take(n as int) =~= dmspec);
    }

    let median: i128 = dm[n / 2];

    // The sum of squared scaled deviations from the mean.
    let mut scatter: i128 = 0;
    i = 0;
    while i < n
        invariant
            dm@.len() == n,
            dmspec.len() == n,
            3 <= n <= 255,
            i <= n,
            ni == n as i128,
            forall|k: int| 0 <= k < n ==> dm@[k] == dmspec[k],
            forall|k: int| 0 <= k < n ==> -MS_BOUND <= #[trigger] dm@[k] <= MS_BOUND,
            total == seq_sum(dmspec),
            -255 * MS_BOUND <= total <= 255 * MS_BOUND,
            scatter == seq_sum(spec_sq_devs(dmspec, n as int, total as int).take(i as int)),
            0 <= scatter <= (i as int) * SQ_DEV_BOUND,
        decreases n - i,
    {
        let x: i128 = dm[i];
        proof {
            lemma_abs_mul_bound(ni as int, x as int, 255, MS_BOUND as int);
        }
        let scaled: i128 = ni * x;
        let dev: i128 = scaled - total;
        proof {
            assert(-DEV_BOUND <= dev as int <= DEV_BOUND);
            lemma_abs_mul_bound(dev as int, dev as int, DEV_BOUND as int, DEV_BOUND as int);
            lemma_square_nonneg(dev as int);
            lemma_seq_sum_take_step(spec_sq_devs(dmspec, n as int, total as int), i as int);
            assert(spec_sq_devs(dmspec, n as int, total as int)[i as int] == ((n as int)
                * dmspec[i as int] - total) * ((n as int) * dmspec[i as int] - total));
        }
        let sq: i128 = dev * dev;
        proof {
            assert((DEV_BOUND as int) * (DEV_BOUND as int) == SQ_DEV_BOUND as int);
            assert(0 <= sq as int <= SQ_DEV_BOUND as int);
            assert(sq as int == spec_sq_devs(dmspec, n as int, total as int)[i as int]);
        }
        scatter = scatter + sq;
        i = i + 1;
    }
    proof {
        assert(spec_sq_devs(dmspec, n as int, total as int).take(n as int) =~= spec_sq_devs(
            dmspec,
            n as int,
            total as int,
        ));
    }

    proof {
        lemma_abs_mul_bound(ni as int, ni as int, 255, 255);
        lemma_abs_mul_bound(ni as int * ni as int, ni as int - 1, 65025, 254);
        assert(ni as int * ni as int * (ni as int - 1) >= 0) by (nonlinear_arith)
            requires
                3 <= ni as int <= 255,
        ;
    }
    let m_factor: i128 = ni * ni * (ni - 1);

    // The inliers: estimates within one standard deviation of the median.
    let mut isum: i128 = 0;
    let mut count: usize = 0;
    i = 0;
    while i < n
        invariant
            sorted@ == gsorted,
            ds == spec_delta_values(gsorted),
            dmspec == spec_ms_values(gsorted),
            sorted@.len() == n,
            dm@.len() == n,
            dmspec.len() == n,
            ds.len() == n,
            3 <= n <= 255,
            i <= n,
            ni == n as i128,
            forall|k: int| 0 <= k < n ==> dm@[k] == dmspec[k],
            forall|k: int| 0 <= k < n ==> -MS_BOUND <= #[trigger] dm@[k] <= MS_BOUND,
            median == dmspec[n as int / 2],
            -MS_BOUND <= median <= MS_BOUND,
            m_factor == (n as int) * (n as int) * (n as int - 1),
            0 <= m_factor <= M_FACTOR_BOUND,
            0 <= scatter,
            count <= i,
            count == spec_inliers(
                ds.take(i as int),
                median as int,
                scatter as int,
                m_factor as int,
            ).len(),
            isum == seq_sum(
                spec_inliers(ds.take(i as int), median as int, scatter as int, m_factor as int),
            ),
            -(count as int) * DELTA_SPAN_MAX_NANOS <= isum <= (count as int)
                * DELTA_SPAN_MAX_NANOS,
        decreases n - i,
    {
        let d: Delta = sorted[i];
        proof {
            use_type_invariant(&d);
        }
        let vns: i128 = d.delta().as_nanos();
        let m: i128 = dm[i];
        let diff: i128 = m - median;
        proof {
            lemma_abs_mul_bound(diff as int, diff as int, DIFF_BOUND as int, DIFF_BOUND as int);
        }
        let sq: i128 = diff * diff;
        proof {
            lemma_square_nonneg(diff as int);
            lemma_abs_mul_bound(
                sq as int,
                m_factor as int,
                DIFF_BOUND as int * DIFF_BOUND as int,
                M_FACTOR_BOUND as int,
            );
            lemma_inliers_take_step(ds, median as int, scatter as int, m_factor as int, i as int);
            assert(ds[i as int] == d.delta_ns());
            assert(dmspec[i as int] == ns_to_ms(d.delta_ns()));
            assert(m as int == ns_to_ms(ds[i as int]));
            let gi = spec_inliers(ds.take(i as int), median as int, scatter as int, m_factor as int);
            if spec_is_inlier(ds[i as int], median as int, scatter as int, m_factor as int) {
                assert(gi.push(ds[i as int]).drop_last() =~= gi);
                assert(seq_sum(gi.push(ds[i as int])) == seq_sum(gi) + ds[i as int]);
            }
        }
        let prod: i128 = sq * m_factor;
        proof {
            assert((prod as int <= scatter as int) == spec_is_inlier(
                ds[i as int],
                median as int,
                scatter as int,
                m_factor as int,
            ));
        }
        if prod <= scatter {
            isum = isum + vns;
            count = count + 1;
        }
        i = i + 1;
    }
    proof {
        assert(ds.take(n as int) =~= ds);
        // The median element is always an inlier, so at least one remains.
        let j = n as int / 2;
        assert(ns_to_ms(ds[j]) == dmspec[j]);
        let dj = ns_to_ms(ds[j]) - (median as int);
        assert(dj == 0);
        assert(dj * dj * (m_factor as int) == 0) by (nonlinear_arith)
            requires
                dj == 0,
        ;
        assert(spec_is_inlier(ds[j], median as int, scatter as int, m_factor as int));
        lemma_inliers_nonempty(ds, median as int, scatter as int, m_factor as int, n as int / 2);
    }

    let divisor: i128 = 1000 * (count as i128);
    let us: i128 = isum / divisor;
    proof {
        if isum >= 0 {
            lemma_div_pos_is_pos(isum as int, divisor as int);
            lemma_div_nonincreasing(isum as int, divisor as int);
        } else {
            lemma_div_pos_is_pos(-(isum as int), divisor as int);
            lemma_div_nonincreasing(-(isum as int), divisor as int);
        }
    }
    Some(SignedDuration::from_nanos(us * 1000))
}

} // verus!
