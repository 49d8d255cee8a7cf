//! A saturating fixed-point number.

use vstd::prelude::*;

use crate::scalar::{
    advance_spec, done_epsilon_spec, lerp_spec, unit_clamp_spec, Scalar,
};

verus! {

/// How many steps of a [`Fixed`] make one.
pub const ONE: i64 = 1048576;

/// A number counted in steps of 1/[`ONE`]. Every operation is total: a result past
/// either end of the range is that end, and a product or quotient drops what is
/// finer than a step, toward zero.
#[derive(Clone, Copy, Debug, PartialEq)]
pub struct Fixed {
    pub steps: i64,
}

/// `v` brought into the range of an `i64`.
pub open spec fn saturate(v: int) -> int {
    if v > i64::MAX {
        i64::MAX as int
    } else if v < i64::MIN {
        i64::MIN as int
    } else {
        v
    }
}

/// `v` brought into the range of an `i32`.
pub open spec fn saturate_i32(v: int) -> int {
    if v > i32::MAX {
        i32::MAX as int
    } else if v < i32::MIN {
        i32::MIN as int
    } else {
        v
    }
}

/// The quotient of two integers, rounded toward zero.
pub open spec fn toward_zero(a: int, b: int) -> int
    recommends
        b != 0,
{
    if a >= 0 && b > 0 {
        a / b
    } else if a < 0 && b > 0 {
        -((-a) / b)
    } else if a >= 0 {
        -(a / (-b))
    } else {
        (-a) / (-b)
    }
}

fn saturated(v: i128) -> (r: Fixed)
    ensures
        r.steps == saturate(v as int),
{
    if v > i64::MAX as i128 {
        Fixed { steps: i64::MAX }
    } else if v < i64::MIN as i128 {
        Fixed { steps: i64::MIN }
    } else {
        Fixed { steps: v as i64 }
    }
}

fn saturated_i32(v: i128) -> (r: i32)
    ensures
        r == saturate_i32(v as int),
{
    if v > i32::MAX as i128 {
        i32::MAX
    } else if v < i32::MIN as i128 {
        i32::MIN
    } else {
        v as i32
    }
}

proof fn lemma_product_fits(a: i64, b: i64)
    ensures
        -0x4000_0000_0000_0000_0000_0000_0000_0000 <= a * b
            <= 0x4000_0000_0000_0000_0000_0000_0000_0000,
{
    assert(-0x4000_0000_0000_0000_0000_0000_0000_0000 <= a * b
        <= 0x4000_0000_0000_0000_0000_0000_0000_0000) by (nonlinear_arith)
        requires
            -0x8000_0000_0000_0000 <= a <= 0x8000_0000_0000_0000,
            -0x8000_0000_0000_0000 <= b <= 0x8000_0000_0000_0000,
    ;
}

proof fn lemma_quotient_bound(a: int, b: int)
    requires
        0 <= a,
        0 < b,
    ensures
        0 <= a / b <= a,
{
    assert(0 <= a / b <= a) by (nonlinear_arith)
        requires
            0 <= a,
            0 < b,
    ;
}

impl Scalar for Fixed {
    open spec fn plus_spec(self, rhs: Self) -> Self {
        Fixed { steps: saturate(self.steps + rhs.steps) as i64 }
    }

    open spec fn minus_spec(self, rhs: Self) -> Self {
        Fixed { steps: saturate(self.steps - rhs.steps) as i64 }
    }

    open spec fn times_spec(self, rhs: Self) -> Self {
        Fixed { steps: saturate(toward_zero(self.steps * rhs.steps, ONE as int)) as i64 }
    }

    open spec fn over_spec(self, rhs: Self) -> Self {
        if rhs.steps == 0 {
            Fixed {
                steps: if self.steps > 0 {
                    i64::MAX
                } else if self.steps < 0 {
                    i64::MIN
                } else {
                    0
                },
            }
        } else {
            Fixed { steps: saturate(toward_zero(self.steps * ONE, rhs.steps as int)) as i64 }
        }
    }

    open spec fn abs_spec(self) -> Self {
        Fixed {
            steps: saturate(
                if self.steps < 0 {
                    -self.steps
                } else {
                    self.steps as int
                },
            ) as i64,
        }
    }

    open spec fn max_spec(self, rhs: Self) -> Self {
        if self.steps < rhs.steps {
            rhs
        } else {
            self
        }
    }

    open spec fn min_spec(self, rhs: Self) -> Self {
        if rhs.steps < self.steps {
            rhs
        } else {
            self
        }
    }

    open spec fn lt_spec(self, rhs: Self) -> bool {
        self.steps < rhs.steps
    }

    open spec fn le_spec(self, rhs: Self) -> bool {
        self.steps <= rhs.steps
    }

    open spec fn from_i32_spec(v: i32) -> Self {
        Fixed { steps: (v * ONE) as i64 }
    }

    open spec fn trunc_spec(self) -> i32 {
        saturate_i32(toward_zero(self.steps as int, ONE as int)) as i32
    }

    open spec fn round_spec(self) -> i32 {
        saturate_i32(
            if self.steps >= 0 {
                (2 * self.steps + ONE) / (2 * ONE)
            } else {
                -((ONE - 2 * self.steps) / (2 * ONE))
            },
        ) as i32
    }

    open spec fn ceil_spec(self) -> i32 {
        saturate_i32(-((-self.steps) / (ONE as int))) as i32
    }

    fn plus(self, rhs: Self) -> (r: Self) {
        saturated(self.steps as i128 + rhs.steps as i128)
    }

    fn minus(self, rhs: Self) -> (r: Self) {
        saturated(self.steps as i128 - rhs.steps as i128)
    }

    fn times(self, rhs: Self) -> (r: Self) {
        proof {
            lemma_product_fits(self.steps, rhs.steps);
        }
        saturated((self.steps as i128 * rhs.steps as i128) / ONE as i128)
    }

    fn over(self, rhs: Self) -> (r: Self) {
        if rhs.steps == 0 {
            if self.steps > 0 {
                Fixed { steps: i64::MAX }
            } else if self.steps < 0 {
                Fixed { steps: i64::MIN }
            } else {
                Fixed { steps: 0 }
            }
        } else {
            proof {
                lemma_product_fits(self.steps, ONE);
            }
            let numerator: i128 = self.steps as i128 * ONE as i128;
            if rhs.steps > 0 {
                saturated(numerator / rhs.steps as i128)
            } else {
                let quotient: i128 = numerator / -(rhs.steps as i128);
                proof {
                    let magnitude = if numerator < 0 {
                        -numerator as int
                    } else {
                        numerator as int
                    };
                    lemma_quotient_bound(magnitude, -(rhs.steps as int));
                }
                saturated(-quotient)
            }
        }
    }

    fn abs(self) -> (r: Self) {
        if self.steps < 0 {
            saturated(-(self.steps as i128))
        } else {
            self
        }
    }

    fn max(self, rhs: Self) -> (r: Self) {
        if self.steps < rhs.steps {
            rhs
        } else {
            self
        }
    }

    fn min(self, rhs: Self) -> (r: Self) {
        if rhs.steps < self.steps {
            rhs
        } else {
            self
        }
    }

    fn lt(self, rhs: Self) -> (r: bool) {
        self.steps < rhs.steps
    }

    fn le(self, rhs: Self) -> (r: bool) {
        self.steps <= rhs.steps
    }

    fn from_i32(v: i32) -> (r: Self) {
        Fixed { steps: v as i64 * ONE }
    }

    fn trunc(self) -> (r: i32) {
        saturated_i32(self.steps as i128 / ONE as i128)
    }

    fn round(self) -> (r: i32) {
        let twice: i128 = 2 * self.steps as i128;
        let unit: i128 = 2 * ONE as i128;
        if self.steps >= 0 {
            saturated_i32((twice + ONE as i128) / unit)
        } else {
            saturated_i32(-((ONE as i128 - twice) / unit))
        }
    }

    fn ceil(self) -> (r: i32) {
        if self.steps <= 0 {
            saturated_i32(self.steps as i128 / ONE as i128)
        } else {
            let whole: i128 = self.steps as i128 / ONE as i128;
            if whole * ONE as i128 == self.steps as i128 {
                saturated_i32(whole)
            } else {
                saturated_i32(whole + 1)
            }
        }
    }
}

/// Whether a number lies in the unit interval.
pub open spec fn in_unit(p: Fixed) -> bool {
    0 <= p.steps <= ONE
}

/// Whether `b` lies between `a` and `c`, either way round.
pub open spec fn between(a: Fixed, b: Fixed, c: Fixed) -> bool {
    a.steps <= b.steps <= c.steps || c.steps <= b.steps <= a.steps
}

proof fn lemma_quotient_monotone(a: int, b: int)
    requires
        a <= b,
    ensures
        a / (ONE as int) <= b / (ONE as int),
{
}

/// A share of a number, taken as its product with a number of the unit interval, lies
/// between zero and the number, and a larger share lies no nearer to zero.
#[verifier::spinoff_prover]
pub proof fn lemma_share(a: int, f: int, g: int)
    requires
        0 <= f <= g <= ONE,
    ensures
        a >= 0 ==> 0 <= toward_zero(a * f, ONE as int) <= toward_zero(a * g, ONE as int) <= a,
        a <= 0 ==> a <= toward_zero(a * g, ONE as int) <= toward_zero(a * f, ONE as int) <= 0,
{
    let m = if a >= 0 {
        a
    } else {
        -a
    };
    assert(0 <= m * f <= m * g <= m * ONE) by (nonlinear_arith)
        requires
            0 <= f <= g <= ONE,
            0 <= m,
    ;
    lemma_quotient_monotone(0, m * f);
    lemma_quotient_monotone(m * f, m * g);
    lemma_quotient_monotone(m * g, m * ONE);
    if a < 0 {
        assert(-(a * f) == m * f) by (nonlinear_arith)
            requires
                m == -a,
        ;
        assert(-(a * g) == m * g) by (nonlinear_arith)
            requires
                m == -a,
        ;
    }
}

/// A quotient by 1 or more times its divisor is the dividend, to within the divisor: it
/// is cut toward zero and never saturates.
pub proof fn lemma_quotient_returns(a: Fixed, b: Fixed)
    requires
        ONE <= b.steps,
    ensures
        -b.steps < a.over_spec(b).steps * b.steps - a.steps * ONE < b.steps,
{
    let m = if a.steps >= 0 {
        a.steps * ONE
    } else {
        -(a.steps * ONE)
    };
    let d = b.steps as int;
    let q = m / d;
    assert(0 <= m - q * d < d) by (nonlinear_arith)
        requires
            q == m / d,
            0 < d,
    ;
    assert(0 <= q <= m / (ONE as int)) by (nonlinear_arith)
        requires
            0 <= m,
            ONE == 1048576,
            ONE <= d,
            q == m / d,
            0 <= m - q * d,
    ;
    assert((-q) * d == -(q * d)) by (nonlinear_arith);
}

/// A number times 0 or 1 is what it should be.
pub proof fn lemma_times_unit(a: Fixed)
    ensures
        a.times_spec(Fixed { steps: 0 }) == (Fixed { steps: 0 }),
        a.times_spec(Fixed { steps: ONE }) == a,
{
    assert(a.steps * 0 == 0);
    let product = a.steps * ONE;
    assert(toward_zero(product, ONE as int) == a.steps);
}

/// Rounding moves a number by at most half a pixel.
#[verifier::spinoff_prover]
pub proof fn lemma_round(a: Fixed)
    requires
        i32::MIN * ONE <= a.steps <= i32::MAX * ONE,
    ensures
        -ONE <= 2 * (a.round_spec() * ONE - a.steps) <= ONE,
{
    let s = a.steps as int;
    let r = if s >= 0 {
        (2 * s + ONE) / (2 * ONE)
    } else {
        -((ONE - 2 * s) / (2 * ONE))
    };
    assert(2 * ONE == 2097152);
    assert(s >= 0 ==> r == (2 * s + ONE) / 2097152);
    assert(s < 0 ==> r == -((ONE - 2 * s) / 2097152));
    assert(-ONE <= 2 * (r * ONE - s) <= ONE);
}

/// A picture on its way never overshoots: it lies between where its leg started and
/// where the leg ends. And it only ever approaches: further along the leg it lies
/// between where it was and the end.
pub proof fn law_lerp_approaches(from: Fixed, to: Fixed, p: Fixed, q: Fixed)
    requires
        in_unit(p),
        in_unit(q),
        p.steps <= q.steps,
    ensures
        between(from, lerp_spec(from, to, p), to),
        between(lerp_spec(from, to, p), lerp_spec(from, to, q), to),
{
    let d = to.minus_spec(from);
    lemma_share(d.steps as int, p.steps as int, q.steps as int);
}

/// At the start of its leg a picture is where the leg starts, and at the end where it
/// ends, as long as the two are no further apart than a number can say.
pub proof fn law_lerp_ends(from: Fixed, to: Fixed)
    requires
        i64::MIN <= to.steps - from.steps <= i64::MAX,
    ensures
        lerp_spec(from, to, Fixed::from_i32_spec(0)) == from,
        lerp_spec(from, to, Fixed::from_i32_spec(1)) == to,
{
    lemma_times_unit(to.minus_spec(from));
}

/// Progress stays in the unit interval and never goes back.
pub proof fn law_progress_advances(progress: Fixed, factor: Fixed)
    requires
        in_unit(progress),
        in_unit(factor),
    ensures
        in_unit(advance_spec(progress, factor)),
        progress.steps <= advance_spec(progress, factor).steps,
        unit_clamp_spec(advance_spec(progress, factor)) == advance_spec(progress, factor),
{
    lemma_share(ONE - progress.steps, factor.steps as int, factor.steps as int);
}

/// Progress after `n` ticks of the same factor.
pub open spec fn advanced<S: Scalar>(progress: S, factor: S, n: nat) -> S
    decreases n,
{
    if n == 0 {
        progress
    } else {
        advance_spec(advanced(progress, factor, (n - 1) as nat), factor)
    }
}

/// Every effect ends: progress that advances by a share worth counting, a
/// ten-thousandth or more, arrives within a fixed number of ticks.
pub proof fn law_progress_arrives(progress: Fixed, factor: Fixed, n: nat)
    requires
        in_unit(progress),
        in_unit(factor),
        Fixed::from_i32_spec(1).over_spec(Fixed::from_i32_spec(10000)).le_spec(factor),
        n >= ONE,
    ensures
        in_unit(advanced(progress, factor, n)),
        Fixed::from_i32_spec(1).minus_spec(advanced(progress, factor, n)).le_spec(
            done_epsilon_spec::<Fixed>(),
        ),
{
    lemma_progress_gains(progress, factor, n);
}

/// Progress that has not arrived gains at least a step by a share worth counting.
pub proof fn lemma_advance_step(progress: Fixed, factor: Fixed)
    requires
        in_unit(progress),
        in_unit(factor),
        104 <= factor.steps,
    ensures
        ONE - progress.steps > 10485 ==> progress.steps < advance_spec(progress, factor).steps,
{
    let left = ONE - progress.steps;
    lemma_share(left, factor.steps as int, factor.steps as int);
    if left > 10485 {
        assert(left * factor.steps >= ONE) by (nonlinear_arith)
            requires
                left >= 10486,
                factor.steps >= 104,
                ONE == 1048576,
        ;
        lemma_quotient_monotone(ONE as int, left * factor.steps);
    }
}

proof fn lemma_progress_gains(progress: Fixed, factor: Fixed, n: nat)
    requires
        in_unit(progress),
        in_unit(factor),
        104 <= factor.steps,
    ensures
        in_unit(advanced(progress, factor, n)),
        advanced(progress, factor, n).steps >= n || ONE - advanced(progress, factor, n).steps
            <= 10485,
    decreases n,
{
    if n > 0 {
        lemma_progress_gains(progress, factor, (n - 1) as nat);
        let before = advanced(progress, factor, (n - 1) as nat);
        law_progress_advances(before, factor);
        lemma_advance_step(before, factor);
    }
}

} // verus!
