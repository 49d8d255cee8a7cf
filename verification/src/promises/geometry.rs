//! What positions, extents and rectangles promise.

use vstd::prelude::*;

use crate::fixed::{law_lerp_approaches, Fixed, ONE};
use crate::geometry::{
    covers, law_merge_is_the_least_cover, lerp_rect, ordinary, screen_to_canvas, Point, Rect, Size,
};
use crate::promises::animations::{extent_on_the_way, part_way, passable};
use crate::promises::numbers::{
    in_range_or_end, is_cut, lemma_lerp_cut, lemma_on_the_way, lemma_times_cut, on_the_way,
};
use crate::scalar::Scalar;

verus! {

/// A pixel position is that many ones on each axis, and so is a pixel extent; extents are
/// the same where both axes are.
pub proof fn law_pixels(
    at: Point<i32>,
    size: Size<i32>,
    other: Size<i32>,
    point: Point<Fixed>,
    extent: Size<Fixed>,
    same: bool,
)
    requires
        call_ensures(Point::<i32>::scalar::<Fixed>, (at,), point),
        call_ensures(Size::<i32>::scalar::<Fixed>, (size,), extent),
        call_ensures(Size::<i32>::same, (size, other), same),
    ensures
        point.x.steps == at.x * ONE,
        point.y.steps == at.y * ONE,
        extent.w.steps == size.w * ONE,
        extent.h.steps == size.h * ONE,
        same <==> size.w == other.w && size.h == other.h,
{
}

/// A position moved by an offset is the sum on each axis, and the offset to a position
/// from another is the difference on each.
pub proof fn law_offsets(a: Point<Fixed>, b: Point<Fixed>, sum: Point<Fixed>, offset: Point<Fixed>)
    requires
        call_ensures(Point::<Fixed>::shifted, (a, b), sum),
        call_ensures(Point::<Fixed>::relative, (a, b), offset),
    ensures
        in_range_or_end(sum.x, a.x.steps + b.x.steps),
        in_range_or_end(sum.y, a.y.steps + b.y.steps),
        in_range_or_end(offset.x, a.x.steps - b.x.steps),
        in_range_or_end(offset.y, a.y.steps - b.y.steps),
{
}

/// Whether a product is in range.
pub open spec fn product_fits(a: Fixed, b: Fixed) -> bool {
    i64::MIN * ONE <= a.steps * b.steps <= i64::MAX * ONE
}

/// Scaling multiplies each axis by the same factor.
pub proof fn law_scaling(
    at: Point<Fixed>,
    size: Size<Fixed>,
    scale: Fixed,
    point: Point<Fixed>,
    extent: Size<Fixed>,
)
    requires
        product_fits(at.x, scale),
        product_fits(at.y, scale),
        product_fits(size.w, scale),
        product_fits(size.h, scale),
        call_ensures(Point::<Fixed>::scaled, (at, scale), point),
        call_ensures(Size::<Fixed>::scaled, (size, scale), extent),
    ensures
        is_cut(point.x.steps as int, at.x.steps * scale.steps, ONE as int),
        is_cut(point.y.steps as int, at.y.steps * scale.steps, ONE as int),
        is_cut(extent.w.steps as int, size.w.steps * scale.steps, ONE as int),
        is_cut(extent.h.steps as int, size.h.steps * scale.steps, ONE as int),
{
    lemma_times_cut(at.x, scale);
    lemma_times_cut(at.y, scale);
    lemma_times_cut(size.w, scale);
    lemma_times_cut(size.h, scale);
}

/// Whether `pixel` is the nearest one to `a`, halves going away from zero.
pub open spec fn nearest(pixel: i32, a: Fixed) -> bool {
    &&& a.steps >= 0 ==> -ONE <= 2 * (a.steps - pixel * ONE) < ONE
    &&& a.steps <= 0 ==> -ONE < 2 * (a.steps - pixel * ONE) <= ONE
}

/// Whether a number is in the range of pixels.
pub open spec fn on_the_grid(a: Fixed) -> bool {
    i32::MIN * ONE <= a.steps <= i32::MAX * ONE
}

pub proof fn lemma_round_is_nearest(a: Fixed)
    requires
        on_the_grid(a),
    ensures
        nearest(a.round_spec(), a),
{
    assert(2 * ONE == 2097152);
    let s = a.steps as int;
    let r = if s >= 0 {
        (2 * s + ONE) / 2097152
    } else {
        -((ONE - 2 * s) / 2097152)
    };
    assert(a.round_spec() == r);
}

/// A rounded rectangle has the nearest pixel position and the nearest pixel extent.
pub proof fn law_rounded_is_nearest(r: Rect<Fixed>, rounded: Rect<i32>)
    requires
        on_the_grid(r.loc.x) && on_the_grid(r.loc.y),
        on_the_grid(r.size.w) && on_the_grid(r.size.h),
        call_ensures(Rect::<Fixed>::rounded, (r,), rounded),
    ensures
        nearest(rounded.loc.x, r.loc.x),
        nearest(rounded.loc.y, r.loc.y),
        nearest(rounded.size.w, r.size.w),
        nearest(rounded.size.h, r.size.h),
{
    lemma_round_is_nearest(r.loc.x);
    lemma_round_is_nearest(r.loc.y);
    lemma_round_is_nearest(r.size.w);
    lemma_round_is_nearest(r.size.h);
}

/// The same of a position and of an extent by itself.
pub proof fn law_rounded_parts(at: Point<Fixed>, size: Size<Fixed>, p: Point<i32>, s: Size<i32>)
    requires
        on_the_grid(at.x) && on_the_grid(at.y),
        on_the_grid(size.w) && on_the_grid(size.h),
        call_ensures(Point::<Fixed>::rounded, (at,), p),
        call_ensures(Size::<Fixed>::rounded, (size,), s),
    ensures
        nearest(p.x, at.x),
        nearest(p.y, at.y),
        nearest(s.w, size.w),
        nearest(s.h, size.h),
{
    lemma_round_is_nearest(at.x);
    lemma_round_is_nearest(at.y);
    lemma_round_is_nearest(size.w);
    lemma_round_is_nearest(size.h);
}

/// Whether a canvas coordinate shows at a screen coordinate: its distance from the camera,
/// times the zoom, is the screen coordinate, to within a step of the distance.
pub open spec fn shows_at(canvas: Fixed, camera: Fixed, zoom: Fixed, screen: Fixed) -> bool {
    is_cut(canvas.steps - camera.steps, screen.steps * ONE, zoom.steps as int)
}

/// Whether a screen coordinate has a place on the canvas that a number can say.
pub open spec fn has_place(screen: Fixed, camera: Fixed, zoom: Fixed) -> bool {
    &&& zoom.steps > 0
    // Both the distance and the place itself.
    &&& forall|q: int|
        #[trigger] is_cut(q, screen.steps * ONE, zoom.steps as int) ==> i64::MIN <= q <= i64::MAX
            && i64::MIN <= camera.steps + q <= i64::MAX
}

pub proof fn lemma_place(screen: Fixed, camera: Fixed, zoom: Fixed)
    requires
        has_place(screen, camera, zoom),
    ensures
        shows_at(camera.plus_spec(screen.over_spec(zoom)), camera, zoom, screen),
{
    let q = crate::fixed::toward_zero(screen.steps * ONE, zoom.steps as int);
    crate::promises::numbers::lemma_toward_zero_is_cut(screen.steps * ONE, zoom.steps as int);
    assert(screen.over_spec(zoom).steps == q);
    assert(camera.plus_spec(screen.over_spec(zoom)).steps == camera.steps + q);
}

/// The canvas point under a screen point is as far from the camera as the screen point
/// from the screen's corner, over the zoom, on each axis.
pub proof fn law_screen_to_canvas(
    screen: Point<Fixed>,
    camera: Point<Fixed>,
    zoom: Fixed,
    canvas: Point<Fixed>,
)
    requires
        has_place(screen.x, camera.x, zoom),
        has_place(screen.y, camera.y, zoom),
        call_ensures(screen_to_canvas::<Fixed>, (screen, camera, zoom), canvas),
    ensures
        shows_at(canvas.x, camera.x, zoom, screen.x),
        shows_at(canvas.y, camera.y, zoom, screen.y),
{
    lemma_place(screen.x, camera.x, zoom);
    lemma_place(screen.y, camera.y, zoom);
}

/// A rectangle on its way has covered the same share of the way on every axis, in position
/// and in extent, and its extents are never negative.
pub proof fn law_lerp_rect(from: Rect<Fixed>, to: Rect<Fixed>, p: Fixed, r: Rect<Fixed>)
    requires
        0 <= p.steps <= ONE,
        passable(from, to),
        call_ensures(lerp_rect::<Fixed>, (from, to, p), r),
    ensures
        part_way(from, r, to, p),
        0 <= r.size.w.steps,
        0 <= r.size.h.steps,
{
    lemma_lerp_cut(from.loc.x, to.loc.x, p);
    lemma_lerp_cut(from.loc.y, to.loc.y, p);
    lemma_lerp_cut(from.size.w, to.size.w, p);
    lemma_lerp_cut(from.size.h, to.size.h, p);
    law_lerp_approaches(from.size.w, to.size.w, p, p);
    law_lerp_approaches(from.size.h, to.size.h, p, p);
}

/// Between any two rectangles and at any share it is on the way on every axis, with no
/// extent where that would be negative.
pub proof fn law_lerp_rect_anywhere(from: Rect<Fixed>, to: Rect<Fixed>, p: Fixed, r: Rect<Fixed>)
    requires
        call_ensures(lerp_rect::<Fixed>, (from, to, p), r),
    ensures
        on_the_way(r.loc.x, from.loc.x, to.loc.x, p),
        on_the_way(r.loc.y, from.loc.y, to.loc.y, p),
        extent_on_the_way(r.size.w, from.size.w, to.size.w, p),
        extent_on_the_way(r.size.h, from.size.h, to.size.h, p),
{
    lemma_on_the_way(from.loc.x, to.loc.x, p);
    lemma_on_the_way(from.loc.y, to.loc.y, p);
    lemma_on_the_way(from.size.w, to.size.w, p);
    lemma_on_the_way(from.size.h, to.size.h, p);
}

/// The merge of two rectangles reaches exactly as far as the further of the two, on every
/// side.
#[verifier::spinoff_prover]
pub proof fn law_merged(a: Rect<Fixed>, b: Rect<Fixed>, other: Rect<Fixed>, r: Rect<Fixed>)
    requires
        ordinary(a),
        ordinary(b),
        call_ensures(Rect::<Fixed>::merged, (a, b), r),
    ensures
        covers(r, a),
        covers(r, b),
        covers(other, a) && covers(other, b) ==> covers(other, r),
        r.loc.x == a.loc.x || r.loc.x == b.loc.x,
        r.loc.y == a.loc.y || r.loc.y == b.loc.y,
        r.loc.x.steps + r.size.w.steps == a.loc.x.steps + a.size.w.steps || r.loc.x.steps
            + r.size.w.steps == b.loc.x.steps + b.size.w.steps,
        r.loc.y.steps + r.size.h.steps == a.loc.y.steps + a.size.h.steps || r.loc.y.steps
            + r.size.h.steps == b.loc.y.steps + b.size.h.steps,
{
    law_merge_is_the_least_cover(a, b, other);
}

/// Whether a pixel lies in a rectangle of pixels.
pub open spec fn holds_pixel(r: Rect<i32>, x: int, y: int) -> bool {
    &&& r.loc.x <= x < r.loc.x + r.size.w
    &&& r.loc.y <= y < r.loc.y + r.size.h
}

/// Whether a rectangle of pixels has extents that are not negative and ends on the grid.
pub open spec fn regular(r: Rect<i32>) -> bool {
    &&& 0 <= r.size.w && r.loc.x + r.size.w <= i32::MAX
    &&& 0 <= r.size.h && r.loc.y + r.size.h <= i32::MAX
}

/// Two rectangles with an interior overlap exactly where some pixel lies in both.
pub proof fn law_overlap_is_a_common_pixel(a: Rect<i32>, b: Rect<i32>, x: int, y: int, r: bool)
    requires
        regular(a),
        regular(b),
        call_ensures(Rect::<i32>::overlaps, (a, b), r),
    ensures
        holds_pixel(a, x, y) && holds_pixel(b, x, y) ==> r,
        r && a.size.w > 0 && a.size.h > 0 && b.size.w > 0 && b.size.h > 0 ==> {
            let left = if a.loc.x < b.loc.x {
                b.loc.x
            } else {
                a.loc.x
            };
            let top = if a.loc.y < b.loc.y {
                b.loc.y
            } else {
                a.loc.y
            };
            holds_pixel(a, left as int, top as int) && holds_pixel(b, left as int, top as int)
        },
        r ==> a.loc.x < b.loc.x + b.size.w && b.loc.x < a.loc.x + a.size.w,
        r ==> a.loc.y < b.loc.y + b.size.h && b.loc.y < a.loc.y + a.size.h,
{
}

/// The part of a rectangle on a target holds exactly the pixels of the rectangle that the
/// target has, counted from the rectangle's corner; and there is one where there are such
/// pixels.
pub proof fn law_part_on(
    whole: Rect<i32>,
    target: Size<i32>,
    x: int,
    y: int,
    part: Option<Rect<i32>>,
)
    requires
        regular(whole),
        0 <= target.w && 0 <= target.h,
        call_ensures(Rect::<i32>::part_on, (whole, target), part),
    ensures
        part is None ==> !(holds_pixel(whole, x, y) && 0 <= x < target.w && 0 <= y < target.h),
        part matches Some(p) ==> (holds_pixel(p, x - whole.loc.x, y - whole.loc.y) <==>
            holds_pixel(whole, x, y) && 0 <= x < target.w && 0 <= y < target.h),
{
}

} // verus!
