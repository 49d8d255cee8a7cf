//! What the arithmetic promises.

use vstd::prelude::*;

use crate::fixed::{toward_zero, Fixed, ONE};
use crate::scalar::{advance, done_epsilon, half, lerp, unit_clamp, Scalar};

verus! {

/// Whether `q` is `n` over `d` with what is left of the division dropped, so that it is
/// no further from zero than the quotient and less than 1 away from it.
pub open spec fn is_cut(q: int, n: int, d: int) -> bool {
    &&& n >= 0 ==> 0 <= q && q * d <= n < q * d + d
    &&& n <= 0 ==> q <= 0 && q * d - d < n <= q * d
}

/// Whether `r` is `v`, or the end of the range that `v` is past.
pub open spec fn in_range_or_end(r: Fixed, v: int) -> bool {
    ||| r.steps == v
    ||| v > i64::MAX && r.steps == i64::MAX
    ||| v < i64::MIN && r.steps == i64::MIN
}

pub proof fn lemma_toward_zero_is_cut(n: int, d: int)
    requires
        d > 0,
    ensures
        is_cut(toward_zero(n, d), n, d),
{
    let m = if n >= 0 {
        n
    } else {
        -n
    };
    let q = m / d;
    assert(0 <= q && q * d <= m < q * d + d) by (nonlinear_arith)
        requires
            q == m / d,
            0 < d,
            0 <= m,
    ;
    assert((-q) * d == -(q * d)) by (nonlinear_arith);
    if n == 0 {
        assert(q == 0) by (nonlinear_arith)
            requires
                q * d <= 0,
                0 <= q,
                d > 0,
        ;
    }
}

/// There is one such quotient.
pub proof fn lemma_cut_is_unique(p: int, q: int, n: int, d: int)
    requires
        d > 0,
        is_cut(p, n, d),
        is_cut(q, n, d),
    ensures
        p == q,
{
    assert(p == q) by (nonlinear_arith)
        requires
            d > 0,
            n >= 0 ==> p * d <= n < p * d + d && q * d <= n < q * d + d,
            n < 0 ==> p * d - d < n <= p * d && q * d - d < n <= q * d,
    ;
}

/// Whether `r` is the product of two numbers, cut to a step, or the end it is past.
pub open spec fn is_product(r: Fixed, a: Fixed, b: Fixed) -> bool {
    exists|q: int| is_cut(q, a.steps * b.steps, ONE as int) && #[trigger] in_range_or_end(r, q)
}

pub proof fn lemma_product(a: Fixed, b: Fixed)
    ensures
        is_product(a.times_spec(b), a, b),
{
    lemma_toward_zero_is_cut(a.steps * b.steps, ONE as int);
    assert(in_range_or_end(a.times_spec(b), toward_zero(a.steps * b.steps, ONE as int)));
}

/// A product is the product of the steps, cut to a step; past either end of the range it
/// is that end.
pub proof fn law_times(a: Fixed, b: Fixed, r: Fixed)
    requires
        call_ensures(Fixed::times, (a, b), r),
    ensures
        is_product(r, a, b),
{
    lemma_product(a, b);
}

/// The product of two numbers in steps, where it is in range.
pub proof fn lemma_times_cut(a: Fixed, b: Fixed)
    requires
        i64::MIN * ONE <= a.steps * b.steps <= i64::MAX * ONE,
    ensures
        is_cut(a.times_spec(b).steps as int, a.steps * b.steps, ONE as int),
{
    lemma_toward_zero_is_cut(a.steps * b.steps, ONE as int);
}

/// A quotient is the dividend over the divisor, cut to a step; past either end of the
/// range, as over nothing, it is that end, and nothing over nothing is nothing.
pub proof fn law_over(a: Fixed, b: Fixed, r: Fixed)
    requires
        call_ensures(Fixed::over, (a, b), r),
    ensures
        b.steps > 0 ==> exists|q: int|
            is_cut(q, a.steps * ONE, b.steps as int) && #[trigger] in_range_or_end(r, q),
        b.steps < 0 ==> exists|q: int|
            is_cut(q, -(a.steps * ONE), -b.steps) && #[trigger] in_range_or_end(r, q),
        b.steps == 0 ==> r.steps == if a.steps > 0 {
            i64::MAX
        } else if a.steps < 0 {
            i64::MIN
        } else {
            0
        },
{
    if b.steps > 0 {
        lemma_toward_zero_is_cut(a.steps * ONE, b.steps as int);
        assert(in_range_or_end(r, toward_zero(a.steps * ONE, b.steps as int)));
    }
    if b.steps < 0 {
        lemma_toward_zero_is_cut(-(a.steps * ONE), -b.steps);
        let q = toward_zero(-(a.steps * ONE), -b.steps);
        assert(q == toward_zero(a.steps * ONE, b.steps as int));
        assert(in_range_or_end(r, q));
    }
}

/// The quotient of two numbers in steps, where it is in range.
pub proof fn lemma_over_cut(a: Fixed, b: Fixed)
    requires
        b.steps > 0,
        b.steps * i64::MIN <= a.steps * ONE <= b.steps * i64::MAX,
    ensures
        is_cut(a.over_spec(b).steps as int, a.steps * ONE, b.steps as int),
{
    let (n, d) = (a.steps * ONE, b.steps as int);
    lemma_toward_zero_is_cut(n, d);
    let q = toward_zero(n, d);
    assert(i64::MIN <= q <= i64::MAX) by (nonlinear_arith)
        requires
            d > 0,
            d * i64::MIN <= n <= d * i64::MAX,
            n >= 0 ==> 0 <= q && q * d <= n,
            n <= 0 ==> q <= 0 && n <= q * d,
    ;
}

/// Sums and differences are exact, and past either end of the range they are that end.
/// A magnitude is never negative, and of two numbers each is the lesser or the greater.
pub proof fn law_sums(a: Fixed, b: Fixed, sum: Fixed, difference: Fixed, magnitude: Fixed)
    requires
        call_ensures(Fixed::plus, (a, b), sum),
        call_ensures(Fixed::minus, (a, b), difference),
        call_ensures(Fixed::abs, (a,), magnitude),
    ensures
        in_range_or_end(sum, a.steps + b.steps),
        in_range_or_end(difference, a.steps - b.steps),
        0 <= magnitude.steps,
        in_range_or_end(magnitude, a.steps as int) || in_range_or_end(magnitude, -a.steps),
{
}

/// The order of numbers is that of their steps.
pub proof fn law_order(a: Fixed, b: Fixed, greater: Fixed, lesser: Fixed, lt: bool, le: bool)
    requires
        call_ensures(Fixed::max, (a, b), greater),
        call_ensures(Fixed::min, (a, b), lesser),
        call_ensures(Fixed::lt, (a, b), lt),
        call_ensures(Fixed::le, (a, b), le),
    ensures
        lt <==> a.steps < b.steps,
        le <==> a.steps <= b.steps,
        a.steps <= greater.steps && b.steps <= greater.steps,
        lesser.steps <= a.steps && lesser.steps <= b.steps,
        greater == a || greater == b,
        lesser == a || lesser == b,
{
}

/// An integer is that many ones, and comes back out however it is rounded.
pub proof fn law_integers(v: i32, a: Fixed, trunc: i32, round: i32, ceil: i32)
    requires
        call_ensures(Fixed::from_i32, (v,), a),
        call_ensures(Fixed::trunc, (a,), trunc),
        call_ensures(Fixed::round, (a,), round),
        call_ensures(Fixed::ceil, (a,), ceil),
    ensures
        a.steps == v * ONE,
        trunc == v,
        round == v,
        ceil == v,
{
}

/// A number comes out as the integer toward zero, the nearest one, halves going away from
/// zero, or the next one up, wherever that is representable.
#[verifier::spinoff_prover]
pub proof fn law_rounding(a: Fixed, trunc: i32, round: i32, ceil: i32)
    requires
        i32::MIN * ONE <= a.steps <= i32::MAX * ONE,
        call_ensures(Fixed::trunc, (a,), trunc),
        call_ensures(Fixed::round, (a,), round),
        call_ensures(Fixed::ceil, (a,), ceil),
    ensures
        is_cut(trunc as int, a.steps as int, ONE as int),
        a.steps >= 0 ==> -ONE <= 2 * (a.steps - round * ONE) < ONE,
        a.steps <= 0 ==> -ONE < 2 * (a.steps - round * ONE) <= ONE,
        (ceil - 1) * ONE < a.steps <= ceil * ONE,
{
    assert(2 * ONE == 2097152);
    let s = a.steps as int;
    let r = if s >= 0 {
        (2 * s + ONE) / 2097152
    } else {
        -((ONE - 2 * s) / 2097152)
    };
    assert(round == r);
}

/// Half of a number is half its steps, cut to a step.
pub proof fn law_half(a: Fixed, r: Fixed)
    requires
        call_ensures(half::<Fixed>, (a,), r),
    ensures
        is_cut(r.steps as int, a.steps as int, 2),
{
    let two = Fixed::from_i32_spec(2);
    assert(two.steps == 2 * ONE);
    lemma_over_cut(a, two);
    let q = r.steps as int;
    assert(q * (2 * ONE) == (q * 2) * ONE) by (nonlinear_arith);
}

/// A number brought into the unit interval is the nearest number in it.
pub proof fn law_unit_clamp(a: Fixed, r: Fixed)
    requires
        call_ensures(unit_clamp::<Fixed>, (a,), r),
    ensures
        0 <= r.steps <= ONE,
        0 <= a.steps <= ONE ==> r == a,
        a.steps <= 0 ==> r.steps == 0,
        a.steps >= ONE ==> r.steps == ONE,
{
}

/// A tick covers a share of what is left to 1, cut to a step: nothing by a factor of 0,
/// everything by a factor of 1.
pub proof fn law_advance(progress: Fixed, factor: Fixed, r: Fixed)
    requires
        0 <= progress.steps <= ONE,
        0 <= factor.steps <= ONE,
        call_ensures(advance::<Fixed>, (progress, factor), r),
    ensures
        is_cut(r.steps - progress.steps, (ONE - progress.steps) * factor.steps, ONE as int),
        progress.steps <= r.steps <= ONE,
        factor.steps == 0 ==> r == progress,
        factor.steps == ONE ==> r.steps == ONE,
{
    lemma_advance_cut(progress, factor);
}

/// Whether `r` is the share `p` of the way past `from` toward `to`, each step of the
/// reckoning cut to a step or to the end it is past.
pub open spec fn on_the_way(r: Fixed, from: Fixed, to: Fixed, p: Fixed) -> bool {
    exists|way: Fixed, part: Fixed|
        in_range_or_end(way, to.steps - from.steps) && #[trigger] is_product(part, way, p)
            && in_range_or_end(r, from.steps + part.steps)
}

pub proof fn lemma_on_the_way(from: Fixed, to: Fixed, p: Fixed)
    ensures
        on_the_way(crate::scalar::lerp_spec(from, to, p), from, to, p),
{
    let way = to.minus_spec(from);
    lemma_product(way, p);
    assert(is_product(way.times_spec(p), way, p));
}

/// The nearest number of the unit interval.
pub open spec fn clamped(a: Fixed) -> Fixed {
    if a.steps < 0 {
        Fixed { steps: 0 }
    } else if a.steps > ONE {
        Fixed { steps: ONE }
    } else {
        a
    }
}

/// Wherever progress stands and by whatever factor, a tick covers that share of the way
/// to 1; and wherever two numbers are, and whatever the share, so does a point between.
pub proof fn law_shares_of_any_way(
    progress: Fixed,
    factor: Fixed,
    next: Fixed,
    from: Fixed,
    to: Fixed,
    p: Fixed,
    r: Fixed,
)
    requires
        call_ensures(advance::<Fixed>, (progress, factor), next),
        call_ensures(lerp::<Fixed>, (from, to, p), r),
    ensures
        on_the_way(next, progress, Fixed { steps: ONE }, factor),
        on_the_way(r, from, to, p),
{
    lemma_on_the_way(progress, Fixed { steps: ONE }, factor);
    lemma_on_the_way(from, to, p);
}

/// What is left after a tick, in steps.
pub proof fn lemma_advance_cut(progress: Fixed, factor: Fixed)
    requires
        0 <= progress.steps <= ONE,
        0 <= factor.steps <= ONE,
    ensures
        ({
            let r = crate::scalar::advance_spec(progress, factor);
            &&& is_cut(r.steps - progress.steps, (ONE - progress.steps) * factor.steps, ONE as int)
            &&& progress.steps <= r.steps <= ONE
            &&& factor.steps == 0 ==> r == progress
            &&& factor.steps == ONE ==> r.steps == ONE
        }),
{
    let left = ONE - progress.steps;
    let f = factor.steps as int;
    assert(0 <= left * f <= left * ONE) by (nonlinear_arith)
        requires
            0 <= left,
            0 <= f <= ONE,
    ;
    lemma_toward_zero_is_cut(left * f, ONE as int);
    assert(factor.steps == 0 ==> left * f == 0);
}

/// What is left of a fade or a leg counts as nothing from a hundredth down.
pub proof fn law_done_epsilon(r: Fixed)
    requires
        call_ensures(done_epsilon::<Fixed>, (), r),
    ensures
        is_cut(r.steps as int, ONE as int, 100),
{
}

/// A point on the way has covered the share `p` of the whole way, cut to a step. Nothing
/// of it is the start, and all of it the end.
pub proof fn law_lerp(from: Fixed, to: Fixed, p: Fixed, r: Fixed)
    requires
        0 <= p.steps <= ONE,
        i64::MIN <= to.steps - from.steps <= i64::MAX,
        call_ensures(lerp::<Fixed>, (from, to, p), r),
    ensures
        is_cut(r.steps - from.steps, (to.steps - from.steps) * p.steps, ONE as int),
        p.steps == 0 ==> r == from,
        p.steps == ONE ==> r == to,
{
    lemma_lerp_cut(from, to, p);
}

/// Where a point on the way is, in steps.
pub proof fn lemma_lerp_cut(from: Fixed, to: Fixed, p: Fixed)
    requires
        0 <= p.steps <= ONE,
        i64::MIN <= to.steps - from.steps <= i64::MAX,
    ensures
        ({
            let r = crate::scalar::lerp_spec(from, to, p);
            &&& is_cut(r.steps - from.steps, (to.steps - from.steps) * p.steps, ONE as int)
            &&& p.steps == 0 ==> r == from
            &&& p.steps == ONE ==> r == to
        }),
{
    let d = to.steps - from.steps;
    crate::fixed::lemma_share(d, p.steps as int, p.steps as int);
    lemma_toward_zero_is_cut(d * p.steps, ONE as int);
    crate::fixed::law_lerp_ends(from, to);
}

} // verus!
