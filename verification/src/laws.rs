use vstd::prelude::*;

verus! {

use vstd::arithmetic::div_mod::{
    lemma_fundamental_div_mod, lemma_fundamental_div_mod_converse, lemma_mod_multiples_basic,
    lemma_mod_division_less_than_divisor, lemma_div_is_ordered, lemma_div_pos_is_pos,
    lemma_div_of0,
};
use vstd::arithmetic::mul::{
    lemma_mul_nonnegative, lemma_mul_inequality, lemma_mul_by_zero_is_zero,
};
use crate::{estimate, div_trunc, norm_full, norm_signed};

/// The full normalization lands in `[0, 36000)` and only ever moves an angle
/// by whole turns.
pub proof fn lemma_norm_full_range(a: int)
    ensures
        0 <= norm_full(a) < 36000,
        (a - norm_full(a)) % 36000 == 0,
{
    lemma_mod_division_less_than_divisor(a, 36000);
    lemma_fundamental_div_mod(a, 36000);
    lemma_mod_multiples_basic(a / 36000, 36000);
}

/// The signed normalization lands in `[-18000, 18000)` and only ever moves
/// an angle by whole turns: it is the shortest signed path.
pub proof fn lemma_norm_signed_range(a: int)
    ensures
        -18000 <= norm_signed(a) < 18000,
        (a - norm_signed(a)) % 36000 == 0,
{
    lemma_mod_division_less_than_divisor(a + 18000, 36000);
    lemma_fundamental_div_mod(a + 18000, 36000);
    lemma_mod_multiples_basic((a + 18000) / 36000, 36000);
}

/// A query before `start` never yields a value, and the estimate exists
/// exactly when the sample index lies in the table with the lookahead
/// sample present, or the query falls exactly on a sample instant.
pub proof fn lemma_estimate_available(start: int, period: int, raw: Seq<int>, unix: int)
    requires
        period > 0,
    ensures
        unix < start ==> estimate(start, period, raw, unix) is None,
        estimate(start, period, raw, unix) is Some <==> {
            &&& unix >= start
            &&& (unix - start) / period < raw.len()
            &&& ((unix - start) % period == 0 || (unix - start) / period + 1 < raw.len())
        },
{
}

/// At each exact sample boundary `start + k * period` the estimate is the
/// stored sample itself, scaled to the working unit: no interpolation drift.
pub proof fn lemma_estimate_at_sample(start: int, period: int, raw: Seq<int>, k: int)
    requires
        period > 0,
        0 <= k < raw.len(),
    ensures
        estimate(start, period, raw, start + k * period) == Some(10 * raw[k]),
{
    lemma_mul_nonnegative(k, period);
    lemma_fundamental_div_mod_converse(k * period, period, k, 0);
}

/// Truncating division by a positive divisor preserves order.
proof fn lemma_div_trunc_ordered(a: int, b: int, d: int)
    requires
        d > 0,
        a <= b,
    ensures
        div_trunc(a, d) <= div_trunc(b, d),
{
    if a >= 0 {
        lemma_div_is_ordered(a, b, d);
    } else if b >= 0 {
        lemma_div_pos_is_pos(-a, d);
        lemma_div_pos_is_pos(b, d);
    } else {
        lemma_div_is_ordered(-b, -a, d);
    }
}

/// Between two consecutive samples the estimate is monotonic along the
/// shortest angular path: as elapsed time grows, the blended angle follows
/// the sign of the shortest-path delta and never moves against it.
pub proof fn lemma_estimate_monotonic(
    start: int,
    period: int,
    raw: Seq<int>,
    k: int,
    t1: int,
    t2: int,
)
    requires
        period > 0,
        0 <= k,
        k + 1 < raw.len(),
        start + k * period <= t1 <= t2 < start + (k + 1) * period,
    ensures
        ({
            let delta = norm_signed(10 * raw[k + 1] - 10 * raw[k]);
            let e1 = estimate(start, period, raw, t1);
            let e2 = estimate(start, period, raw, t2);
            &&& e1 is Some
            &&& e2 is Some
            &&& delta >= 0 ==> e1->0 <= e2->0
            &&& delta <= 0 ==> e1->0 >= e2->0
        }),
{
    let pa = 10 * raw[k];
    let na = 10 * raw[k + 1];
    let delta = norm_signed(na - pa);
    let e1 = t1 - start - k * period;
    let e2 = t2 - start - k * period;
    assert((k + 1) * period == k * period + period) by (nonlinear_arith);
    lemma_fundamental_div_mod_converse(t1 - start, period, k, e1);
    lemma_fundamental_div_mod_converse(t2 - start, period, k, e2);
    lemma_div_of0(period);
    lemma_mul_by_zero_is_zero(delta);
    assert(estimate(start, period, raw, t1) == Some(pa + div_trunc(e1 * delta, period)));
    assert(estimate(start, period, raw, t2) == Some(pa + div_trunc(e2 * delta, period)));
    if delta >= 0 {
        lemma_mul_inequality(e1, e2, delta);
        lemma_div_trunc_ordered(e1 * delta, e2 * delta, period);
    }
    if delta <= 0 {
        assert(e2 * delta <= e1 * delta) by (nonlinear_arith)
            requires
                e1 <= e2,
                delta <= 0,
        ;
        lemma_div_trunc_ordered(e2 * delta, e1 * delta, period);
    }
}

/// Halving a product before a doubled divisor is dividing by two.
proof fn lemma_half_quotient(m: int, d: int)
    requires
        m > 0,
        d >= 0,
    ensures
        (m * d) / (2 * m) == d / 2,
{
    lemma_fundamental_div_mod(d, 2);
    assert(m * d == (d / 2) * (2 * m) + m * (d % 2)) by (nonlinear_arith)
        requires
            d == 2 * (d / 2) + d % 2,
    ;
    assert(0 <= m * (d % 2) < 2 * m) by (nonlinear_arith)
        requires
            m > 0,
            0 <= d % 2 < 2,
    ;
    lemma_fundamental_div_mod_converse(m * d, 2 * m, d / 2, m * (d % 2));
}

/// Halfway between two consecutive samples (for an even period) the
/// estimate is the first sample plus exactly half of the shortest-path
/// delta: the blend is linear in elapsed time.
pub proof fn lemma_estimate_midpoint(start: int, period: int, raw: Seq<int>, k: int)
    requires
        period > 0,
        period % 2 == 0,
        0 <= k,
        k + 1 < raw.len(),
    ensures
        ({
            let delta = norm_signed(10 * raw[k + 1] - 10 * raw[k]);
            estimate(start, period, raw, start + k * period + period / 2) == Some(
                10 * raw[k] + div_trunc(delta, 2),
            )
        }),
{
    let pa = 10 * raw[k];
    let na = 10 * raw[k + 1];
    let delta = norm_signed(na - pa);
    let m = period / 2;
    lemma_fundamental_div_mod(period, 2);
    lemma_mul_nonnegative(k, period);
    lemma_fundamental_div_mod_converse(k * period + m, period, k, m);
    assert(estimate(start, period, raw, start + k * period + m) == Some(
        pa + div_trunc(m * delta, period),
    ));
    if delta >= 0 {
        lemma_half_quotient(m, delta);
        lemma_mul_nonnegative(m, delta);
    } else {
        lemma_half_quotient(m, -delta);
        assert(m * delta < 0 && -(m * delta) == m * (-delta)) by (nonlinear_arith)
            requires
                m > 0,
                delta < 0,
        ;
    }
}

} // verus!
