//! Points, sizes and rectangles, in whole pixels or in scalars.

use vstd::prelude::*;

use crate::fixed::{Fixed, ONE};
use crate::scalar::{lerp, lerp_spec, Scalar};

verus! {

/// A position, or an offset between two.
#[derive(Copy, Debug, PartialEq)]
pub struct Point<T> {
    pub x: T,
    pub y: T,
}

/// A width and a height.
#[derive(Copy, Debug, PartialEq)]
pub struct Size<T> {
    pub w: T,
    pub h: T,
}

/// A rectangle: its top-left corner and its extent.
#[derive(Copy, Debug, PartialEq)]
pub struct Rect<T> {
    pub loc: Point<T>,
    pub size: Size<T>,
}

impl<T: Copy> Clone for Point<T> {
    fn clone(&self) -> (r: Self)
        ensures
            r == *self,
    {
        *self
    }
}

impl<T: Copy> Clone for Size<T> {
    fn clone(&self) -> (r: Self)
        ensures
            r == *self,
    {
        *self
    }
}

impl<T: Copy> Clone for Rect<T> {
    fn clone(&self) -> (r: Self)
        ensures
            r == *self,
    {
        *self
    }
}

impl Point<i32> {
    /// The scalar position of a pixel position.
    pub open spec fn scalar_spec<S: Scalar>(self) -> Point<S> {
        Point { x: S::from_i32_spec(self.x), y: S::from_i32_spec(self.y) }
    }

    /// The scalar position of a pixel position.
    pub fn scalar<S: Scalar>(self) -> (r: Point<S>)
        ensures
            r == self.scalar_spec::<S>(),
    {
        Point { x: S::from_i32(self.x), y: S::from_i32(self.y) }
    }
}

impl Size<i32> {
    /// The scalar extent of a pixel extent.
    pub open spec fn scalar_spec<S: Scalar>(self) -> Size<S> {
        Size { w: S::from_i32_spec(self.w), h: S::from_i32_spec(self.h) }
    }

    /// The scalar extent of a pixel extent.
    pub fn scalar<S: Scalar>(self) -> (r: Size<S>)
        ensures
            r == self.scalar_spec::<S>(),
    {
        Size { w: S::from_i32(self.w), h: S::from_i32(self.h) }
    }

    /// Whether two pixel extents are the same.
    pub fn same(self, other: Self) -> (r: bool)
        ensures
            r == (self == other),
    {
        self.w == other.w && self.h == other.h
    }
}

impl<S: Scalar> Point<S> {
    /// The nearest pixel position.
    pub open spec fn rounded_spec(self) -> Point<i32> {
        Point { x: self.x.round_spec(), y: self.y.round_spec() }
    }

    /// The nearest pixel position.
    pub fn rounded(self) -> (r: Point<i32>)
        ensures
            r == self.rounded_spec(),
    {
        Point { x: self.x.round(), y: self.y.round() }
    }

    /// This position moved by an offset.
    pub open spec fn shifted_spec(self, by: Point<S>) -> Point<S> {
        Point { x: self.x.plus_spec(by.x), y: self.y.plus_spec(by.y) }
    }

    /// This position moved by an offset.
    pub fn shifted(self, by: Point<S>) -> (r: Point<S>)
        ensures
            r == self.shifted_spec(by),
    {
        Point { x: self.x.plus(by.x), y: self.y.plus(by.y) }
    }

    /// The offset from `origin` to this position.
    pub open spec fn relative_spec(self, origin: Point<S>) -> Point<S> {
        Point { x: self.x.minus_spec(origin.x), y: self.y.minus_spec(origin.y) }
    }

    /// The offset from `origin` to this position.
    pub fn relative(self, origin: Point<S>) -> (r: Point<S>)
        ensures
            r == self.relative_spec(origin),
    {
        Point { x: self.x.minus(origin.x), y: self.y.minus(origin.y) }
    }

    /// Both coordinates multiplied by `scale`.
    pub open spec fn scaled_spec(self, scale: S) -> Point<S> {
        Point { x: self.x.times_spec(scale), y: self.y.times_spec(scale) }
    }

    /// Both coordinates multiplied by `scale`.
    pub fn scaled(self, scale: S) -> (r: Point<S>)
        ensures
            r == self.scaled_spec(scale),
    {
        Point { x: self.x.times(scale), y: self.y.times(scale) }
    }
}

impl<S: Scalar> Size<S> {
    /// The nearest pixel extent.
    pub open spec fn rounded_spec(self) -> Size<i32> {
        Size { w: self.w.round_spec(), h: self.h.round_spec() }
    }

    /// The nearest pixel extent.
    pub fn rounded(self) -> (r: Size<i32>)
        ensures
            r == self.rounded_spec(),
    {
        Size { w: self.w.round(), h: self.h.round() }
    }

    /// Both extents multiplied by `scale`.
    pub open spec fn scaled_spec(self, scale: S) -> Size<S> {
        Size { w: self.w.times_spec(scale), h: self.h.times_spec(scale) }
    }

    /// Both extents multiplied by `scale`.
    pub fn scaled(self, scale: S) -> (r: Size<S>)
        ensures
            r == self.scaled_spec(scale),
    {
        Size { w: self.w.times(scale), h: self.h.times(scale) }
    }
}

/// The canvas point shown at `screen` under a camera and a zoom.
pub open spec fn screen_to_canvas_spec<S: Scalar>(
    screen: Point<S>,
    camera: Point<S>,
    zoom: S,
) -> Point<S> {
    Point {
        x: camera.x.plus_spec(screen.x.over_spec(zoom)),
        y: camera.y.plus_spec(screen.y.over_spec(zoom)),
    }
}

/// The canvas point shown at `screen` under a camera and a zoom.
pub fn screen_to_canvas<S: Scalar>(screen: Point<S>, camera: Point<S>, zoom: S) -> (r: Point<S>)
    ensures
        r == screen_to_canvas_spec(screen, camera, zoom),
{
    Point { x: camera.x.plus(screen.x.over(zoom)), y: camera.y.plus(screen.y.over(zoom)) }
}

/// The rectangle `p` of the way from `from` to `to`. An extent that would come out
/// negative is zero.
pub open spec fn lerp_rect_spec<S: Scalar>(from: Rect<S>, to: Rect<S>, p: S) -> Rect<S> {
    Rect {
        loc: Point {
            x: lerp_spec(from.loc.x, to.loc.x, p),
            y: lerp_spec(from.loc.y, to.loc.y, p),
        },
        size: Size {
            w: lerp_spec(from.size.w, to.size.w, p).max_spec(S::from_i32_spec(0)),
            h: lerp_spec(from.size.h, to.size.h, p).max_spec(S::from_i32_spec(0)),
        },
    }
}

/// The rectangle `p` of the way from `from` to `to`. An extent that would come out
/// negative is zero.
pub fn lerp_rect<S: Scalar>(from: Rect<S>, to: Rect<S>, p: S) -> (r: Rect<S>)
    ensures
        r == lerp_rect_spec(from, to, p),
{
    Rect {
        loc: Point { x: lerp(from.loc.x, to.loc.x, p), y: lerp(from.loc.y, to.loc.y, p) },
        size: Size {
            w: lerp(from.size.w, to.size.w, p).max(S::from_i32(0)),
            h: lerp(from.size.h, to.size.h, p).max(S::from_i32(0)),
        },
    }
}

/// The first of two numbers if it is less, else the second.
pub open spec fn lesser_spec<S: Scalar>(a: S, b: S) -> S {
    if a.lt_spec(b) {
        a
    } else {
        b
    }
}

/// The first of two numbers if it is greater, else the second.
pub open spec fn greater_spec<S: Scalar>(a: S, b: S) -> S {
    if b.lt_spec(a) {
        a
    } else {
        b
    }
}

fn lesser<S: Scalar>(a: S, b: S) -> (r: S)
    ensures
        r == lesser_spec(a, b),
{
    if a.lt(b) {
        a
    } else {
        b
    }
}

fn greater<S: Scalar>(a: S, b: S) -> (r: S)
    ensures
        r == greater_spec(a, b),
{
    if b.lt(a) {
        a
    } else {
        b
    }
}

/// The least number among the ends of two spans, each a start and a length.
pub open spec fn merged_start_spec<S: Scalar>(a: S, a_len: S, b: S, b_len: S) -> S {
    lesser_spec(b.plus_spec(b_len), lesser_spec(b, lesser_spec(a.plus_spec(a_len), a)))
}

/// The greatest number among the ends of two spans, each a start and a length.
pub open spec fn merged_end_spec<S: Scalar>(a: S, a_len: S, b: S, b_len: S) -> S {
    greater_spec(b.plus_spec(b_len), greater_spec(b, greater_spec(a.plus_spec(a_len), a)))
}

fn merged_start<S: Scalar>(a: S, a_len: S, b: S, b_len: S) -> (r: S)
    ensures
        r == merged_start_spec(a, a_len, b, b_len),
{
    lesser(b.plus(b_len), lesser(b, lesser(a.plus(a_len), a)))
}

fn merged_end<S: Scalar>(a: S, a_len: S, b: S, b_len: S) -> (r: S)
    ensures
        r == merged_end_spec(a, a_len, b, b_len),
{
    greater(b.plus(b_len), greater(b, greater(a.plus(a_len), a)))
}

impl<S: Scalar> Rect<S> {
    /// The smallest rectangle around this one and `other`.
    pub open spec fn merged_spec(self, other: Rect<S>) -> Rect<S> {
        let x = merged_start_spec(self.loc.x, self.size.w, other.loc.x, other.size.w);
        let y = merged_start_spec(self.loc.y, self.size.h, other.loc.y, other.size.h);
        Rect {
            loc: Point { x, y },
            size: Size {
                w: merged_end_spec(
                    self.loc.x,
                    self.size.w,
                    other.loc.x,
                    other.size.w,
                ).minus_spec(x),
                h: merged_end_spec(
                    self.loc.y,
                    self.size.h,
                    other.loc.y,
                    other.size.h,
                ).minus_spec(y),
            },
        }
    }

    /// The smallest rectangle around this one and `other`.
    pub fn merged(self, other: Rect<S>) -> (r: Rect<S>)
        ensures
            r == self.merged_spec(other),
    {
        let x = merged_start(self.loc.x, self.size.w, other.loc.x, other.size.w);
        let y = merged_start(self.loc.y, self.size.h, other.loc.y, other.size.h);
        Rect {
            loc: Point { x, y },
            size: Size {
                w: merged_end(self.loc.x, self.size.w, other.loc.x, other.size.w).minus(x),
                h: merged_end(self.loc.y, self.size.h, other.loc.y, other.size.h).minus(y),
            },
        }
    }

    /// The nearest rectangle of whole pixels.
    pub open spec fn rounded_spec(self) -> Rect<i32> {
        Rect { loc: self.loc.rounded_spec(), size: self.size.rounded_spec() }
    }

    /// The nearest rectangle of whole pixels.
    pub fn rounded(self) -> (r: Rect<i32>)
        ensures
            r == self.rounded_spec(),
    {
        Rect { loc: self.loc.rounded(), size: self.size.rounded() }
    }
}

/// The far end of a pixel span, at most the last representable pixel.
pub open spec fn span_end(start: i32, len: i32) -> int {
    if start + len > i32::MAX {
        i32::MAX as int
    } else if start + len < i32::MIN {
        i32::MIN as int
    } else {
        start + len
    }
}

fn span_end_of(start: i32, len: i32) -> (r: i32)
    ensures
        r == span_end(start, len),
{
    let end: i64 = start as i64 + len as i64;
    if end > i32::MAX as i64 {
        i32::MAX
    } else if end < i32::MIN as i64 {
        i32::MIN
    } else {
        end as i32
    }
}

impl Rect<i32> {
    /// Whether two rectangles share interior: each starts before the other ends,
    /// on both axes. Rectangles that only touch do not overlap.
    pub open spec fn overlaps_spec(self, other: Rect<i32>) -> bool {
        &&& self.loc.x < span_end(other.loc.x, other.size.w)
        &&& other.loc.x < span_end(self.loc.x, self.size.w)
        &&& self.loc.y < span_end(other.loc.y, other.size.h)
        &&& other.loc.y < span_end(self.loc.y, self.size.h)
    }

    /// Whether two rectangles share interior. Rectangles that only touch do not.
    pub fn overlaps(self, other: Rect<i32>) -> (r: bool)
        ensures
            r == self.overlaps_spec(other),
    {
        self.loc.x < span_end_of(other.loc.x, other.size.w)
            && other.loc.x < span_end_of(self.loc.x, self.size.w)
            && self.loc.y < span_end_of(other.loc.y, other.size.h)
            && other.loc.y < span_end_of(self.loc.y, self.size.h)
    }

    /// The part of this rectangle that lies on a target of extent `target` with its
    /// origin at zero, in coordinates relative to this rectangle; `None` if no part
    /// of it does.
    pub fn part_on(self, target: Size<i32>) -> (r: Option<Rect<i32>>)
        requires
            self.size.w >= 0,
            self.size.h >= 0,
            target.w >= 0,
            target.h >= 0,
        ensures
            r is Some <==> self.overlaps_spec(
                Rect { loc: Point { x: 0, y: 0 }, size: target },
            ),
            r matches Some(part) ==> {
                // Its corner, and the far corner, of what both cover.
                &&& part.loc.x + self.loc.x == if self.loc.x > 0 {
                    self.loc.x as int
                } else {
                    0
                }
                &&& part.loc.y + self.loc.y == if self.loc.y > 0 {
                    self.loc.y as int
                } else {
                    0
                }
                &&& part.loc.x + self.loc.x + part.size.w == if span_end(
                    self.loc.x,
                    self.size.w,
                ) < target.w {
                    span_end(self.loc.x, self.size.w)
                } else {
                    target.w as int
                }
                &&& part.loc.y + self.loc.y + part.size.h == if span_end(
                    self.loc.y,
                    self.size.h,
                ) < target.h {
                    span_end(self.loc.y, self.size.h)
                } else {
                    target.h as int
                }
            },
    {
        let whole = Rect { loc: Point { x: 0, y: 0 }, size: target };
        if !self.overlaps(whole) {
            return None;
        }
        let left: i32 = if self.loc.x > 0 {
            self.loc.x
        } else {
            0
        };
        let top: i32 = if self.loc.y > 0 {
            self.loc.y
        } else {
            0
        };
        let right_end: i32 = span_end_of(self.loc.x, self.size.w);
        let bottom_end: i32 = span_end_of(self.loc.y, self.size.h);
        let right: i32 = if right_end < target.w {
            right_end
        } else {
            target.w
        };
        let bottom: i32 = if bottom_end < target.h {
            bottom_end
        } else {
            target.h
        };
        Some(
            Rect {
                loc: Point { x: left - self.loc.x, y: top - self.loc.y },
                size: Size { w: right - left, h: bottom - top },
            },
        )
    }
}

/// Whether a rectangle has extents that are not negative and covers nothing that a
/// corner and an extent of `i32` pixels cannot reach.
pub open spec fn ordinary(r: Rect<Fixed>) -> bool {
    &&& i32::MIN * ONE <= r.loc.x.steps
    &&& i32::MIN * ONE <= r.loc.y.steps
    &&& 0 <= r.size.w.steps
    &&& 0 <= r.size.h.steps
    &&& r.loc.x.steps + r.size.w.steps <= 2 * i32::MAX * ONE
    &&& r.loc.y.steps + r.size.h.steps <= 2 * i32::MAX * ONE
}

/// Whether `outer` covers all of `inner`.
pub open spec fn covers(outer: Rect<Fixed>, inner: Rect<Fixed>) -> bool {
    &&& outer.loc.x.steps <= inner.loc.x.steps
    &&& outer.loc.y.steps <= inner.loc.y.steps
    &&& inner.loc.x.steps + inner.size.w.steps <= outer.loc.x.steps + outer.size.w.steps
    &&& inner.loc.y.steps + inner.size.h.steps <= outer.loc.y.steps + outer.size.h.steps
}

/// The merge of two rectangles covers both, and nothing smaller does.
#[verifier::spinoff_prover]
pub proof fn law_merge_is_the_least_cover(a: Rect<Fixed>, b: Rect<Fixed>, other: Rect<Fixed>)
    requires
        ordinary(a),
        ordinary(b),
    ensures
        ordinary(a.merged_spec(b)),
        covers(a.merged_spec(b), a),
        covers(a.merged_spec(b), b),
        covers(other, a) && covers(other, b) ==> covers(other, a.merged_spec(b)),
{
}

/// Overlapping goes both ways.
pub proof fn law_overlap_is_mutual(a: Rect<i32>, b: Rect<i32>)
    ensures
        a.overlaps_spec(b) == b.overlaps_spec(a),
{
}

} // verus!
