//! The numbers that geometry is computed in.

use vstd::prelude::*;

verus! {

/// A number with the operations that canvas geometry needs. Each operation has a
/// ghost twin, the function of its arguments that it computes. Every contract in this
/// crate is stated over the twins, so it holds of any number whose operations are
/// functions of their arguments and whose twins are those functions, as they are for
/// [`crate::fixed::Fixed`].
///
/// The default twins are one fixed value each and describe no operation. An impl that
/// leaves them, as one over a float does, runs the same code and has nothing shown of it.
pub trait Scalar: Sized + Copy {
    /// What [`Scalar::plus`] computes.
    open spec fn plus_spec(self, rhs: Self) -> Self {
        arbitrary()
    }

    /// What [`Scalar::minus`] computes.
    open spec fn minus_spec(self, rhs: Self) -> Self {
        arbitrary()
    }

    /// What [`Scalar::times`] computes.
    open spec fn times_spec(self, rhs: Self) -> Self {
        arbitrary()
    }

    /// What [`Scalar::over`] computes.
    open spec fn over_spec(self, rhs: Self) -> Self {
        arbitrary()
    }

    /// What [`Scalar::abs`] computes.
    open spec fn abs_spec(self) -> Self {
        arbitrary()
    }

    /// What [`Scalar::max`] computes.
    open spec fn max_spec(self, rhs: Self) -> Self {
        arbitrary()
    }

    /// What [`Scalar::min`] computes.
    open spec fn min_spec(self, rhs: Self) -> Self {
        arbitrary()
    }

    /// What [`Scalar::lt`] computes.
    open spec fn lt_spec(self, rhs: Self) -> bool {
        arbitrary()
    }

    /// What [`Scalar::le`] computes.
    open spec fn le_spec(self, rhs: Self) -> bool {
        arbitrary()
    }

    /// What [`Scalar::from_i32`] computes.
    open spec fn from_i32_spec(v: i32) -> Self {
        arbitrary()
    }

    /// What [`Scalar::trunc`] computes.
    open spec fn trunc_spec(self) -> i32 {
        arbitrary()
    }

    /// What [`Scalar::round`] computes.
    open spec fn round_spec(self) -> i32 {
        arbitrary()
    }

    /// What [`Scalar::ceil`] computes.
    open spec fn ceil_spec(self) -> i32 {
        arbitrary()
    }

    /// The sum.
    fn plus(self, rhs: Self) -> (r: Self)
        ensures
            r == self.plus_spec(rhs),
    ;

    /// The difference.
    fn minus(self, rhs: Self) -> (r: Self)
        ensures
            r == self.minus_spec(rhs),
    ;

    /// The product.
    fn times(self, rhs: Self) -> (r: Self)
        ensures
            r == self.times_spec(rhs),
    ;

    /// The quotient.
    fn over(self, rhs: Self) -> (r: Self)
        ensures
            r == self.over_spec(rhs),
    ;

    /// The magnitude.
    fn abs(self) -> (r: Self)
        ensures
            r == self.abs_spec(),
    ;

    /// The larger of two numbers.
    fn max(self, rhs: Self) -> (r: Self)
        ensures
            r == self.max_spec(rhs),
    ;

    /// The smaller of two numbers.
    fn min(self, rhs: Self) -> (r: Self)
        ensures
            r == self.min_spec(rhs),
    ;

    /// Whether `self` is less than `rhs`.
    fn lt(self, rhs: Self) -> (r: bool)
        ensures
            r == self.lt_spec(rhs),
    ;

    /// Whether `self` is at most `rhs`.
    fn le(self, rhs: Self) -> (r: bool)
        ensures
            r == self.le_spec(rhs),
    ;

    /// The number an integer stands for.
    fn from_i32(v: i32) -> (r: Self)
        ensures
            r == Self::from_i32_spec(v),
    ;

    /// The integer part, rounding toward zero and saturating at the bounds.
    fn trunc(self) -> (r: i32)
        ensures
            r == self.trunc_spec(),
    ;

    /// The nearest integer, halves away from zero, saturating at the bounds.
    fn round(self) -> (r: i32)
        ensures
            r == self.round_spec(),
    ;

    /// The least integer not below, saturating at the bounds.
    fn ceil(self) -> (r: i32)
        ensures
            r == self.ceil_spec(),
    ;
}

/// Half of `a`.
pub open spec fn half_spec<S: Scalar>(a: S) -> S {
    a.over_spec(S::from_i32_spec(2))
}

/// Half of `a`.
pub fn half<S: Scalar>(a: S) -> (r: S)
    ensures
        r == half_spec(a),
{
    a.over(S::from_i32(2))
}

/// `a` brought into the unit interval.
pub open spec fn unit_clamp_spec<S: Scalar>(a: S) -> S {
    if a.lt_spec(S::from_i32_spec(0)) {
        S::from_i32_spec(0)
    } else if S::from_i32_spec(1).lt_spec(a) {
        S::from_i32_spec(1)
    } else {
        a
    }
}

/// `a` brought into the unit interval.
pub fn unit_clamp<S: Scalar>(a: S) -> (r: S)
    ensures
        r == unit_clamp_spec(a),
{
    if a.lt(S::from_i32(0)) {
        S::from_i32(0)
    } else if S::from_i32(1).lt(a) {
        S::from_i32(1)
    } else {
        a
    }
}

/// One tick of an effect's normalized progress: the share `factor` of what is
/// left to 1 is covered.
pub open spec fn advance_spec<S: Scalar>(progress: S, factor: S) -> S {
    progress.plus_spec(S::from_i32_spec(1).minus_spec(progress).times_spec(factor))
}

/// One tick of an effect's normalized progress: the share `factor` of what is
/// left to 1 is covered.
pub fn advance<S: Scalar>(progress: S, factor: S) -> (r: S)
    ensures
        r == advance_spec(progress, factor),
{
    progress.plus(S::from_i32(1).minus(progress).times(factor))
}

/// How far from 1 progress may stay and still count as arrived: one percent, a
/// residue that is invisible, where a tighter bound leaves a long dead tail past
/// the visible motion.
pub open spec fn done_epsilon_spec<S: Scalar>() -> S {
    S::from_i32_spec(1).over_spec(S::from_i32_spec(100))
}

/// How far from 1 progress may stay and still count as arrived.
pub fn done_epsilon<S: Scalar>() -> (r: S)
    ensures
        r == done_epsilon_spec::<S>(),
{
    S::from_i32(1).over(S::from_i32(100))
}

/// The point that lies `p` of the way from `from` to `to`.
pub open spec fn lerp_spec<S: Scalar>(from: S, to: S, p: S) -> S {
    from.plus_spec(to.minus_spec(from).times_spec(p))
}

/// The point that lies `p` of the way from `from` to `to`.
pub fn lerp<S: Scalar>(from: S, to: S, p: S) -> (r: S)
    ensures
        r == lerp_spec(from, to, p),
{
    from.plus(to.minus(from).times(p))
}

} // verus!
