//! What the pictures of closed windows promise.

use vstd::prelude::*;

use crate::closing::{
    bake_bounds, bake_surface, capture_close_pixels, child_origin, fits_screen, flatten,
    law_bounds_are_least, law_bounds_cover_the_content, law_snapshots_keep_their_order,
    render_snapshots_for_output, snapshot_canvas, snapshot_screen, AdoptionFade, BakePlan,
    BakedSurface, ClosePixels, ClosingElement, ClosingSnapshot, SurfaceView,
};
use crate::fixed::{in_unit, lemma_share, Fixed, ONE};
use crate::geometry::{covers, law_merge_is_the_least_cover, ordinary, Point, Rect, Size};
use crate::promises::geometry::{lemma_round_is_nearest, nearest, on_the_grid};
use crate::promises::numbers::{
    clamped, in_range_or_end, is_cut, is_product, lemma_advance_cut, lemma_product,
    lemma_times_cut,
};
use crate::scalar::Scalar;

verus! {

/// A surface sits at its offset from its parent, and its children at theirs from there;
/// one that shows nothing hides them and is not captured, nor is one without a texture.
pub proof fn law_surfaces_sit_at_their_offset<T>(
    view: Option<SurfaceView<Fixed>>,
    at: Point<Fixed>,
    buffer: Option<T>,
    children: Option<Point<Fixed>>,
    baked: Option<BakedSurface<Fixed, T>>,
)
    requires
        call_ensures(child_origin::<Fixed>, (view, at), children),
        call_ensures(bake_surface::<Fixed, T>, (view, at, buffer), baked),
    ensures
        children is Some <==> view is Some,
        baked is Some <==> view is Some && buffer is Some,
        (view matches Some(v) && children matches Some(c)) ==> in_range_or_end(
            children->0.x,
            at.x.steps + view->0.offset.x * ONE,
        ) && in_range_or_end(children->0.y, at.y.steps + view->0.offset.y * ONE),
        baked matches Some(b) ==> b.location == children->0 && b.buffer == buffer->0 && b.src
            == view->0.src && b.dst == view->0.dst,
{
}

/// What a surface covers.
pub open spec fn footprint<T>(surface: BakedSurface<Fixed, T>) -> Rect<Fixed> {
    Rect {
        loc: surface.location,
        size: Size {
            w: Fixed { steps: (surface.dst.w * ONE) as i64 },
            h: Fixed { steps: (surface.dst.h * ONE) as i64 },
        },
    }
}

/// A capture keeps all the surfaces it is given, in their order, and covers them and no
/// more. There is one wherever some surface has an area.
pub proof fn law_capture_covers_the_surfaces<T>(
    surfaces: Vec<BakedSurface<Fixed, T>>,
    k: int,
    other: Rect<Fixed>,
    r: Option<ClosePixels<Fixed, T>>,
)
    requires
        0 <= k < surfaces.len(),
        forall|j: int| 0 <= j < surfaces.len() ==> ordinary(footprint(#[trigger] surfaces[j])),
        call_ensures(capture_close_pixels::<Fixed, T>, (surfaces,), r),
    ensures
        surfaces[k].dst.w > 0 && surfaces[k].dst.h > 0 ==> r is Some,
        r matches Some(pixels) ==> {
            &&& pixels.surfaces == surfaces
            &&& covers(pixels.bounds, footprint(surfaces[k]))
            &&& 0 < pixels.bounds.size.w.steps
            &&& 0 < pixels.bounds.size.h.steps
            &&& (forall|j: int|
                0 <= j < surfaces.len() ==> covers(other, footprint(#[trigger] surfaces[j])))
                ==> covers(other, pixels.bounds)
        },
{
    assert forall|j: int| 0 <= j < surfaces.len() implies ordinary(
        (#[trigger] surfaces@[j]).extent(),
    ) by {
        assert(ordinary(footprint(surfaces[j])));
    }
    law_bounds_cover_the_content(surfaces@, k);
    assert(footprint(surfaces[k]) == surfaces@[k].extent());
    if forall|j: int| 0 <= j < surfaces.len() ==> covers(other, footprint(#[trigger] surfaces[j])) {
        assert forall|j: int| 0 <= j < surfaces.len() implies covers(
            other,
            (#[trigger] surfaces@[j]).extent(),
        ) by {
            assert(covers(other, footprint(surfaces[j])));
        }
        law_bounds_are_least(surfaces@, other);
    }
}

/// And there is none only where the surfaces together are a line: any two of them then lie
/// on it, without an extent across.
pub proof fn law_only_lines_are_not_captured<T>(
    surfaces: Vec<BakedSurface<Fixed, T>>,
    j: int,
    k: int,
    r: Option<ClosePixels<Fixed, T>>,
)
    requires
        0 <= j < surfaces.len(),
        0 <= k < surfaces.len(),
        forall|j: int| 0 <= j < surfaces.len() ==> ordinary(footprint(#[trigger] surfaces[j])),
        call_ensures(capture_close_pixels::<Fixed, T>, (surfaces,), r),
    ensures
        r is None ==> {
            ||| surfaces[j].location.x == surfaces[k].location.x && surfaces[j].dst.w == 0
            ||| surfaces[j].location.y == surfaces[k].location.y && surfaces[j].dst.h == 0
        },
{
    assert forall|j: int| 0 <= j < surfaces.len() implies ordinary(
        (#[trigger] surfaces@[j]).extent(),
    ) by {
        assert(ordinary(footprint(surfaces[j])));
    }
    law_bounds_cover_the_content(surfaces@, j);
    law_bounds_cover_the_content(surfaces@, k);
    assert(footprint(surfaces[j]) == surfaces@[j].extent());
    assert(footprint(surfaces[k]) == surfaces@[k].extent());
}

/// Without a surface there is no capture.
pub proof fn law_nothing_drawn_nothing_captured<T>(
    surfaces: Vec<BakedSurface<Fixed, T>>,
    r: Option<ClosePixels<Fixed, T>>,
)
    requires
        surfaces.len() == 0,
        call_ensures(capture_close_pixels::<Fixed, T>, (surfaces,), r),
    ensures
        r is None,
{
}

/// Whether `texel` is where, on a texture that starts at `origin`, the coordinate `at` is.
pub open spec fn texel_of(texel: Fixed, at: Fixed, origin: Fixed, scale: Fixed) -> bool {
    exists|d: Fixed|
        #[trigger] in_range_or_end(d, at.steps - origin.steps) && is_product(texel, d, scale)
}

proof fn lemma_texel(at: Fixed, origin: Fixed, scale: Fixed)
    ensures
        texel_of(at.minus_spec(origin).times_spec(scale), at, origin, scale),
{
    let d = at.minus_spec(origin);
    lemma_product(d, scale);
    assert(in_range_or_end(d, at.steps - origin.steps));
}

/// A plan rasterizes at the scale it was made for, over exactly the content and the title
/// bar; every surface is painted once, the last first, and each at its place on the
/// texture, as is the bar.
pub proof fn law_plan_places_everything<T>(
    pixels: &ClosePixels<Fixed, T>,
    scale: Fixed,
    ssd_bar: Option<Rect<Fixed>>,
    k: int,
    other: Rect<Fixed>,
    r: Option<BakePlan<Fixed>>,
)
    requires
        ordinary(pixels.bounds),
        ssd_bar matches Some(bar) ==> ordinary(bar) && on_the_grid(bar.size.w) && on_the_grid(
            bar.size.h,
        ),
        0 <= k < pixels.surfaces.len() <= usize::MAX,
        call_ensures(flatten::<Fixed, T>, (pixels, scale, ssd_bar), r),
    ensures
        r matches Some(plan) ==> {
            &&& plan.scale == scale
            &&& covers(plan.bounds, pixels.bounds)
            &&& ssd_bar matches Some(bar) ==> covers(plan.bounds, bar)
            &&& covers(other, pixels.bounds) && (ssd_bar matches Some(bar) ==> covers(other, bar))
                ==> covers(other, plan.bounds)
            &&& plan.paint.len() == pixels.surfaces.len()
            &&& plan.paint[plan.paint.len() - 1 - k].0 == k
            &&& texel_of(
                plan.paint[plan.paint.len() - 1 - k].1.x,
                pixels.surfaces[k].location.x,
                plan.bounds.loc.x,
                scale,
            )
            &&& texel_of(
                plan.paint[plan.paint.len() - 1 - k].1.y,
                pixels.surfaces[k].location.y,
                plan.bounds.loc.y,
                scale,
            )
            &&& plan.bar is Some <==> ssd_bar is Some
            &&& ssd_bar matches Some(bar) ==> {
                let (at, size) = plan.bar->0;
                &&& texel_of(at.x, bar.loc.x, plan.bounds.loc.x, scale)
                &&& texel_of(at.y, bar.loc.y, plan.bounds.loc.y, scale)
                &&& nearest(size.w, bar.size.w)
                &&& nearest(size.h, bar.size.h)
            }
        },
{
    if let Some(plan) = r {
        lemma_texel(pixels.surfaces[k].location.x, plan.bounds.loc.x, scale);
        lemma_texel(pixels.surfaces[k].location.y, plan.bounds.loc.y, scale);
        if let Some(bar) = ssd_bar {
            law_merge_is_the_least_cover(pixels.bounds, bar, other);
            lemma_texel(bar.loc.x, plan.bounds.loc.x, scale);
            lemma_texel(bar.loc.y, plan.bounds.loc.y, scale);
            lemma_round_is_nearest(bar.size.w);
            lemma_round_is_nearest(bar.size.h);
        }
    }
}

/// Whether a texture of `texels` is just long enough for `extent` at `scale`.
pub open spec fn just_covers(texels: i32, extent: Fixed, scale: Fixed) -> bool {
    &&& extent.steps * scale.steps < texels * ONE * ONE + ONE
    &&& (texels - 1) * ONE * ONE < extent.steps * scale.steps
}

/// The texture of a plan is just large enough for what it covers, and there is a plan
/// wherever it has an extent.
#[verifier::spinoff_prover]
pub proof fn law_texture_is_just_large_enough<T>(
    pixels: &ClosePixels<Fixed, T>,
    scale: Fixed,
    r: Option<BakePlan<Fixed>>,
)
    requires
        0 <= scale.steps,
        0 <= pixels.bounds.size.w.steps,
        0 <= pixels.bounds.size.h.steps,
        // The texture's extent is representable.
        pixels.bounds.size.w.steps * scale.steps <= i32::MAX * ONE * ONE,
        pixels.bounds.size.h.steps * scale.steps <= i32::MAX * ONE * ONE,
        call_ensures(flatten::<Fixed, T>, (pixels, scale, None::<Rect<Fixed>>), r),
    ensures
        r matches Some(plan) ==> {
            &&& 0 < plan.size.w && 0 < plan.size.h
            &&& plan.bounds == pixels.bounds
            &&& just_covers(plan.size.w, pixels.bounds.size.w, scale)
            &&& just_covers(plan.size.h, pixels.bounds.size.h, scale)
        },
        r is Some <==> ONE <= pixels.bounds.size.w.steps * scale.steps && ONE
            <= pixels.bounds.size.h.steps * scale.steps,
{
    lemma_ceil_just_covers(pixels.bounds.size.w, scale);
    lemma_ceil_just_covers(pixels.bounds.size.h, scale);
}

proof fn lemma_ceil_just_covers(extent: Fixed, scale: Fixed)
    requires
        0 <= extent.steps,
        0 <= scale.steps,
        extent.steps * scale.steps <= i32::MAX * ONE * ONE,
    ensures
        ({
            let texels = extent.times_spec(scale).ceil_spec();
            &&& texels > 0 <==> ONE <= extent.steps * scale.steps
            &&& texels > 0 ==> just_covers(texels, extent, scale)
        }),
{
    let product = extent.steps * scale.steps;
    assert(0 <= product) by (nonlinear_arith)
        requires
            0 <= extent.steps,
            0 <= scale.steps,
            product == extent.steps * scale.steps,
    ;
    lemma_times_cut(extent, scale);
    let t = extent.times_spec(scale).steps as int;
    assert(0 <= t <= i32::MAX * ONE);
    let texels = extent.times_spec(scale).ceil_spec();
    assert((texels - 1) * ONE < t <= texels * ONE);
}

/// A snapshot on the canvas covers what its texture does, from the window's corner on, and
/// has not begun to fade; one on a screen covers the nearest pixels of that screen.
pub proof fn law_snapshot_covers_the_window<T>(
    buffer: T,
    bounds: Rect<Fixed>,
    window_origin: Point<Fixed>,
    output: String,
    screen_origin: Point<i32>,
    amplitude: Fixed,
    alpha_only: bool,
    canvas: ClosingSnapshot<Fixed, T>,
    screen: ClosingSnapshot<Fixed, T>,
)
    requires
        on_the_grid(bounds.loc.x) && on_the_grid(bounds.loc.y),
        on_the_grid(bounds.size.w) && on_the_grid(bounds.size.h),
        call_ensures(
            ClosingSnapshot::<Fixed, T>::on_canvas,
            (buffer, bounds, window_origin, amplitude, alpha_only),
            canvas,
        ),
        // The corner on the screen is representable, a pixel to spare.
        i32::MIN < screen_origin.x + bounds.loc.x.steps as int / ONE as int,
        screen_origin.x + bounds.loc.x.steps as int / ONE as int + 1 <= i32::MAX,
        i32::MIN < screen_origin.y + bounds.loc.y.steps as int / ONE as int,
        screen_origin.y + bounds.loc.y.steps as int / ONE as int + 1 <= i32::MAX,
        call_ensures(
            ClosingSnapshot::<Fixed, T>::on_screen,
            (buffer, bounds, output, screen_origin, amplitude, alpha_only),
            screen,
        ),
    ensures
        canvas.buffer == buffer && screen.buffer == buffer,
        canvas.alpha_only == alpha_only && screen.alpha_only == alpha_only,
        canvas.scale_amplitude == amplitude && screen.scale_amplitude == amplitude,
        canvas.progress.steps == 0 && screen.progress.steps == 0,
        canvas.pinned is None,
        in_range_or_end(canvas.canvas_rect.loc.x, window_origin.x.steps + bounds.loc.x.steps),
        in_range_or_end(canvas.canvas_rect.loc.y, window_origin.y.steps + bounds.loc.y.steps),
        canvas.canvas_rect.size == bounds.size,
        screen.pinned matches Some((home, rect)) && {
            &&& home == output
            &&& nearest((rect.loc.x - screen_origin.x) as i32, bounds.loc.x)
            &&& nearest((rect.loc.y - screen_origin.y) as i32, bounds.loc.y)
            &&& nearest(rect.size.w, bounds.size.w)
            &&& nearest(rect.size.h, bounds.size.h)
        },
{
    lemma_round_is_nearest(bounds.loc.x);
    lemma_round_is_nearest(bounds.loc.y);
    lemma_round_is_nearest(bounds.size.w);
    lemma_round_is_nearest(bounds.size.h);
}

/// Whether a plan is as large, at the same scale and over the same as another, and paints
/// as many surfaces.
pub open spec fn same_plan(a: BakePlan<Fixed>, b: BakePlan<Fixed>) -> bool {
    &&& a.scale == b.scale
    &&& a.bounds == b.bounds
    &&& a.size == b.size
    &&& a.paint@ == b.paint@
    &&& a.bar == b.bar
}

/// A closing window is rasterized as planned, at the scale its output shows it at and
/// never below its own resolution. The snapshot is of the texture that came of it and
/// covers what the texture does, from the window's corner on. There is none only where
/// nothing is planned or rasterizing failed.
pub proof fn law_snapshot_is_of_the_window<T, U, F: FnOnce(&BakePlan<Fixed>) -> Option<U>>(
    pixels: &ClosePixels<Fixed, T>,
    window_origin: Point<Fixed>,
    flatten_scale: Fixed,
    scale: Fixed,
    amplitude: Fixed,
    alpha_only: bool,
    ssd_bar: Option<Rect<Fixed>>,
    rasterize: F,
    planned: Option<BakePlan<Fixed>>,
    r: Option<ClosingSnapshot<Fixed, U>>,
)
    requires
        scale.steps == if flatten_scale.steps < ONE {
            ONE
        } else {
            flatten_scale.steps
        },
        call_ensures(flatten::<Fixed, T>, (pixels, scale, ssd_bar), planned),
        call_ensures(
            snapshot_canvas::<Fixed, T, U>,
            (pixels, window_origin, flatten_scale, amplitude, alpha_only, ssd_bar, rasterize),
            r,
        ),
    ensures
        planned is None ==> r is None,
        planned is Some && r is None ==> exists|plan: &BakePlan<Fixed>| #[trigger]
            call_ensures(rasterize, (plan,), None::<U>) && same_plan(*plan, planned->0),
        r matches Some(snapshot) ==> {
            &&& exists|plan: &BakePlan<Fixed>| #[trigger]
                call_ensures(rasterize, (plan,), Some(snapshot.buffer)) && same_plan(
                    *plan,
                    planned->0,
                )
            &&& snapshot.pinned is None
            &&& snapshot.canvas_rect.size == planned->0.bounds.size
            &&& in_range_or_end(
                snapshot.canvas_rect.loc.x,
                window_origin.x.steps + planned->0.bounds.loc.x.steps,
            )
            &&& in_range_or_end(
                snapshot.canvas_rect.loc.y,
                window_origin.y.steps + planned->0.bounds.loc.y.steps,
            )
            &&& snapshot.progress.steps == 0
            &&& snapshot.alpha_only == alpha_only
            &&& snapshot.scale_amplitude == amplitude
        },
{
    assert(crate::closing::bake_scale_spec(flatten_scale) == scale);
    if planned is Some {
        let (plan, texture) = choose|plan: &BakePlan<Fixed>, texture: Option<U>|
            plan.bakes(*pixels, scale, ssd_bar) && #[trigger] call_ensures(
                rasterize,
                (plan,),
                texture,
            ) && r == match texture {
                Some(buffer) => Some(
                    ClosingSnapshot::on_canvas_spec(
                        buffer,
                        bake_bounds(pixels.bounds, ssd_bar),
                        window_origin,
                        amplitude,
                        alpha_only,
                    ),
                ),
                None => None,
            };
        assert(plan.paint@ =~= planned->0.paint@);
        assert(same_plan(*plan, planned->0));
        match texture {
            Some(buffer) => assert(call_ensures(rasterize, (plan,), Some(r->0.buffer))),
            None => assert(call_ensures(rasterize, (plan,), None::<U>)),
        }
    }
}

/// The same of a window on the screen of `output`: the snapshot covers the nearest pixels
/// there, from the window's corner on the screen.
pub proof fn law_screen_snapshot_is_of_the_window<
    T,
    U,
    F: FnOnce(&BakePlan<Fixed>) -> Option<U>,
>(
    pixels: &ClosePixels<Fixed, T>,
    output: String,
    screen_origin: Point<i32>,
    flatten_scale: Fixed,
    scale: Fixed,
    amplitude: Fixed,
    alpha_only: bool,
    ssd_bar: Option<Rect<Fixed>>,
    rasterize: F,
    planned: Option<BakePlan<Fixed>>,
    fits: bool,
    r: Option<ClosingSnapshot<Fixed, U>>,
)
    requires
        scale.steps == if flatten_scale.steps < ONE {
            ONE
        } else {
            flatten_scale.steps
        },
        call_ensures(flatten::<Fixed, T>, (pixels, scale, ssd_bar), planned),
        call_ensures(
            fits_screen::<Fixed, T>,
            (pixels, screen_origin, flatten_scale, ssd_bar),
            fits,
        ),
        planned matches Some(plan) ==> on_the_grid(plan.bounds.loc.x) && on_the_grid(
            plan.bounds.loc.y,
        ) && on_the_grid(plan.bounds.size.w) && on_the_grid(plan.bounds.size.h),
        call_ensures(
            snapshot_screen::<Fixed, T, U>,
            (
                pixels,
                output,
                screen_origin,
                flatten_scale,
                amplitude,
                alpha_only,
                ssd_bar,
                rasterize,
            ),
            r,
        ),
    ensures
        planned is None ==> fits && r is None,
        planned is Some && r is None ==> exists|plan: &BakePlan<Fixed>| #[trigger]
            call_ensures(rasterize, (plan,), None::<U>) && same_plan(*plan, planned->0),
        fits ==> (r matches Some(snapshot) ==> {
            &&& exists|plan: &BakePlan<Fixed>| #[trigger]
                call_ensures(rasterize, (plan,), Some(snapshot.buffer)) && same_plan(
                    *plan,
                    planned->0,
                )
            &&& snapshot.pinned matches Some((home, rect)) && {
                let bounds = planned->0.bounds;
                &&& home == output
                &&& exists|x: i32, y: i32|
                    #[trigger] nearest(x, bounds.loc.x) && #[trigger] nearest(y, bounds.loc.y)
                        && rect.loc.x == screen_origin.x + x && rect.loc.y == screen_origin.y + y
                &&& nearest(rect.size.w, bounds.size.w)
                &&& nearest(rect.size.h, bounds.size.h)
            }
            &&& snapshot.progress.steps == 0
            &&& snapshot.alpha_only == alpha_only
            &&& snapshot.scale_amplitude == amplitude
        }),
        planned matches Some(plan) ==> (fits <==> exists|x: i32, y: i32|
            #[trigger] nearest(x, plan.bounds.loc.x) && #[trigger] nearest(y, plan.bounds.loc.y)
                && i32::MIN <= screen_origin.x + x <= i32::MAX && i32::MIN <= screen_origin.y + y
                <= i32::MAX),
{
    assert(crate::closing::bake_scale_spec(flatten_scale) == scale);
    if planned is Some {
        let bounds = planned->0.bounds;
        lemma_round_is_nearest(bounds.loc.x);
        lemma_round_is_nearest(bounds.loc.y);
        lemma_round_is_nearest(bounds.size.w);
        lemma_round_is_nearest(bounds.size.h);
        let (plan, texture) = choose|plan: &BakePlan<Fixed>, texture: Option<U>|
            plan.bakes(*pixels, scale, ssd_bar) && #[trigger] call_ensures(
                rasterize,
                (plan,),
                texture,
            ) && r == match texture {
                Some(buffer) => Some(
                    ClosingSnapshot::on_screen_spec(
                        buffer,
                        bake_bounds(pixels.bounds, ssd_bar),
                        output,
                        screen_origin,
                        amplitude,
                        alpha_only,
                    ),
                ),
                None => None,
            };
        assert(plan.paint@ =~= planned->0.paint@);
        assert(same_plan(*plan, planned->0));
        match texture {
            Some(buffer) => assert(call_ensures(rasterize, (plan,), Some(r->0.buffer))),
            None => assert(call_ensures(rasterize, (plan,), None::<U>)),
        }
    }
}

/// A tick covers the factor's share of what is left of a fade and touches nothing else;
/// the fade is done once no more than a hundredth is left.
pub proof fn law_fade_advances<T>(
    before: ClosingSnapshot<Fixed, T>,
    after: ClosingSnapshot<Fixed, T>,
    factor: Fixed,
    done: bool,
)
    requires
        in_unit(before.progress),
        in_unit(factor),
        exists|m: &mut ClosingSnapshot<Fixed, T>|
            *m == before && *final(m) == after && #[trigger] call_ensures(
                ClosingSnapshot::<Fixed, T>::tick,
                (m, factor),
                (),
            ),
        call_ensures(ClosingSnapshot::<Fixed, T>::is_done, (&after,), done),
    ensures
        after == (ClosingSnapshot { progress: after.progress, ..before }),
        is_cut(
            after.progress.steps - before.progress.steps,
            (ONE - before.progress.steps) * factor.steps,
            ONE as int,
        ),
        done <==> 100 * (ONE - after.progress.steps) <= ONE,
{
    lemma_advance_cut(before.progress, factor);
}

/// The same of a stand-in that fades over the window that took its slot, which is as
/// opaque as what is left.
pub proof fn law_adoption_fades<W>(
    before: AdoptionFade<Fixed, W>,
    after: AdoptionFade<Fixed, W>,
    factor: Fixed,
    done: bool,
    alpha: Fixed,
)
    requires
        in_unit(before.progress),
        in_unit(factor),
        exists|m: &mut AdoptionFade<Fixed, W>|
            *m == before && *final(m) == after && #[trigger] call_ensures(
                AdoptionFade::<Fixed, W>::tick,
                (m, factor),
                (),
            ),
        call_ensures(AdoptionFade::<Fixed, W>::is_done, (&after,), done),
        call_ensures(AdoptionFade::<Fixed, W>::alpha, (&after,), alpha),
    ensures
        after == (AdoptionFade { progress: after.progress, ..before }),
        is_cut(
            after.progress.steps - before.progress.steps,
            (ONE - before.progress.steps) * factor.steps,
            ONE as int,
        ),
        done <==> 100 * (ONE - after.progress.steps) <= ONE,
        alpha.steps == ONE - after.progress.steps,
{
    lemma_advance_cut(before.progress, factor);
}

/// What a snapshot says of itself: what it covers, and whose screen it is on.
pub proof fn law_snapshot_tells<T>(
    snapshot: &ClosingSnapshot<Fixed, T>,
    rect: Rect<Fixed>,
    home: Option<&str>,
)
    requires
        call_ensures(ClosingSnapshot::<Fixed, T>::canvas_rect, (snapshot,), rect),
        call_ensures(ClosingSnapshot::<Fixed, T>::pinned_output, (snapshot,), home),
    ensures
        rect == snapshot.canvas_rect,
        home is Some <==> snapshot.pinned is Some,
        snapshot.pinned matches Some((output, _)) ==> home->0@ == output@,
{
}

/// Whether `r` is how long `extent` is on the output, and `shown` how long on its screen.
pub open spec fn magnified(
    r: Fixed,
    shown: Fixed,
    extent: Fixed,
    zoom: Fixed,
    output_scale: Fixed,
) -> bool {
    is_product(shown, extent, zoom) && is_product(r, shown, output_scale)
}

/// Whether `r` is where the coordinate `at` is on the output.
pub open spec fn seen_at(
    r: Fixed,
    at: Fixed,
    camera: Fixed,
    zoom: Fixed,
    output_scale: Fixed,
) -> bool {
    exists|d: Fixed, shown: Fixed|
        in_range_or_end(d, at.steps - camera.steps) && #[trigger] magnified(
            r,
            shown,
            d,
            zoom,
            output_scale,
        )
}

/// Whether `center` is half of `extent` past `start`, to a step.
pub open spec fn halfway(center: Fixed, start: Fixed, extent: Fixed) -> bool {
    exists|h: int|
        is_cut(h, extent.steps as int, 2) && #[trigger] in_range_or_end(center, start.steps + h)
}

/// Whether a picture covers, on one axis of an output, what `extent` from `at` on is seen
/// as; is `pixels` long there; and shrinks about the middle of that.
pub open spec fn drawn_over(
    loc: Fixed,
    pixels: i32,
    center: Fixed,
    at: Fixed,
    extent: Fixed,
    camera: Fixed,
    zoom: Fixed,
    output_scale: Fixed,
) -> bool {
    &&& seen_at(loc, at, camera, zoom, output_scale)
    &&& exists|covered: Fixed, shown: Fixed|
        #[trigger] magnified(covered, shown, extent, zoom, output_scale) && halfway(
            center,
            loc,
            covered,
        ) && (on_the_grid(shown) ==> nearest(pixels, shown))
}

proof fn lemma_halfway(start: Fixed, extent: Fixed)
    ensures
        halfway(start.plus_spec(crate::scalar::half_spec(extent)), start, extent),
{
    let half = crate::scalar::half_spec(extent);
    lemma_half_cut(extent);
    assert(in_range_or_end(start.plus_spec(half), start.steps + half.steps));
}

pub proof fn lemma_half_cut(extent: Fixed)
    ensures
        is_cut(crate::scalar::half_spec(extent).steps as int, extent.steps as int, 2),
{
    let two = Fixed::from_i32_spec(2);
    assert(two.steps == 2 * ONE);
    crate::promises::numbers::lemma_over_cut(extent, two);
    let q = crate::scalar::half_spec(extent).steps as int;
    assert(q * (2 * ONE) == (q * 2) * ONE) by (nonlinear_arith);
}

proof fn lemma_drawn_over(
    at: Fixed,
    extent: Fixed,
    camera: Fixed,
    zoom: Fixed,
    output_scale: Fixed,
)
    ensures
        ({
            let d = at.minus_spec(camera);
            let shown = extent.times_spec(zoom);
            let loc = d.times_spec(zoom).times_spec(output_scale);
            let covered = shown.times_spec(output_scale);
            drawn_over(
                loc,
                shown.round_spec(),
                loc.plus_spec(crate::scalar::half_spec(covered)),
                at,
                extent,
                camera,
                zoom,
                output_scale,
            )
        }),
{
    let d = at.minus_spec(camera);
    let shown = extent.times_spec(zoom);
    let loc = d.times_spec(zoom).times_spec(output_scale);
    let covered = shown.times_spec(output_scale);
    lemma_product(d, zoom);
    lemma_product(d.times_spec(zoom), output_scale);
    lemma_product(extent, zoom);
    lemma_product(shown, output_scale);
    lemma_halfway(loc, covered);
    if on_the_grid(shown) {
        lemma_round_is_nearest(shown);
    }
    assert(in_range_or_end(d, at.steps - camera.steps));
    assert(magnified(loc, d.times_spec(zoom), d, zoom, output_scale));
    assert(magnified(covered, shown, extent, zoom, output_scale));
}

/// A snapshot on the canvas is drawn on every output, over what its rectangle is seen as
/// there through the camera, and shrinks about the middle of that.
pub proof fn law_canvas_snapshot_is_drawn<T>(
    snapshot: &ClosingSnapshot<Fixed, T>,
    output_name: &String,
    camera: Point<Fixed>,
    zoom: Fixed,
    output_scale: Fixed,
    r: Option<ClosingElement<Fixed>>,
)
    requires
        snapshot.pinned is None,
        call_ensures(
            ClosingSnapshot::<Fixed, T>::render_element,
            (snapshot, output_name, camera, zoom, output_scale),
            r,
        ),
    ensures
        r matches Some(e) && {
            let rect = snapshot.canvas_rect;
            &&& drawn_over(
                e.loc.x,
                e.size.w,
                e.center.x,
                rect.loc.x,
                rect.size.w,
                camera.x,
                zoom,
                output_scale,
            )
            &&& drawn_over(
                e.loc.y,
                e.size.h,
                e.center.y,
                rect.loc.y,
                rect.size.h,
                camera.y,
                zoom,
                output_scale,
            )
        },
{
    let rect = snapshot.canvas_rect;
    lemma_drawn_over(rect.loc.x, rect.size.w, camera.x, zoom, output_scale);
    lemma_drawn_over(rect.loc.y, rect.size.h, camera.y, zoom, output_scale);
}

/// A snapshot on a screen is drawn on that output and no other, over its own rectangle of
/// pixels whatever the camera and the zoom, and shrinks about the middle of that.
pub proof fn law_screen_snapshot_is_drawn<T>(
    snapshot: &ClosingSnapshot<Fixed, T>,
    output_name: &String,
    camera: Point<Fixed>,
    zoom: Fixed,
    output_scale: Fixed,
    r: Option<ClosingElement<Fixed>>,
)
    requires
        snapshot.pinned is Some,
        call_ensures(
            ClosingSnapshot::<Fixed, T>::render_element,
            (snapshot, output_name, camera, zoom, output_scale),
            r,
        ),
    ensures
        snapshot.pinned matches Some((home, rect)) && {
            &&& r is Some <==> home@ == output_name@
            &&& r matches Some(e) ==> {
                &&& e.size == rect.size
                &&& drawn_on_screen(e.loc.x, e.center.x, rect.loc.x, rect.size.w, output_scale)
                &&& drawn_on_screen(e.loc.y, e.center.y, rect.loc.y, rect.size.h, output_scale)
            }
        },
{
    if let Some((home, rect)) = snapshot.pinned {
        lemma_drawn_on_screen(rect.loc.x, rect.size.w, output_scale);
        lemma_drawn_on_screen(rect.loc.y, rect.size.h, output_scale);
    }
}

/// Whether a picture covers, on one axis of an output, `extent` pixels from `at` on, and
/// shrinks about the middle of that.
pub open spec fn drawn_on_screen(
    loc: Fixed,
    center: Fixed,
    at: i32,
    extent: i32,
    output_scale: Fixed,
) -> bool {
    &&& is_product(loc, Fixed { steps: (at * ONE) as i64 }, output_scale)
    &&& exists|covered: Fixed|
        #[trigger] is_product(covered, Fixed { steps: (extent * ONE) as i64 }, output_scale)
            && halfway(center, loc, covered)
}

proof fn lemma_drawn_on_screen(at: i32, extent: i32, output_scale: Fixed)
    ensures
        ({
            let loc = Fixed::from_i32_spec(at).times_spec(output_scale);
            let covered = Fixed::from_i32_spec(extent).times_spec(output_scale);
            drawn_on_screen(
                loc,
                loc.plus_spec(crate::scalar::half_spec(covered)),
                at,
                extent,
                output_scale,
            )
        }),
        Fixed::from_i32_spec(extent).round_spec() == extent,
{
    let loc = Fixed::from_i32_spec(at).times_spec(output_scale);
    let covered = Fixed::from_i32_spec(extent).times_spec(output_scale);
    lemma_product(Fixed::from_i32_spec(at), output_scale);
    lemma_product(Fixed::from_i32_spec(extent), output_scale);
    lemma_halfway(loc, covered);
}

/// A fading picture is as opaque as what is left of the fade, and no more than opaque; and
/// has shrunk the fade's share of the way to its amplitude, unless it only fades.
pub proof fn law_snapshot_fades_and_shrinks<T>(
    snapshot: &ClosingSnapshot<Fixed, T>,
    output_name: &String,
    camera: Point<Fixed>,
    zoom: Fixed,
    output_scale: Fixed,
    e: ClosingElement<Fixed>,
)
    requires
        in_unit(snapshot.progress),
        in_unit(snapshot.scale_amplitude),
        call_ensures(
            ClosingSnapshot::<Fixed, T>::render_element,
            (snapshot, output_name, camera, zoom, output_scale),
            Some(e),
        ),
    ensures
        e.alpha.steps == ONE - snapshot.progress.steps,
        snapshot.alpha_only ==> e.scale.steps == ONE,
        !snapshot.alpha_only ==> is_cut(
            ONE - e.scale.steps,
            (ONE - snapshot.scale_amplitude.steps) * snapshot.progress.steps,
            ONE as int,
        ),
{
    let room = Fixed { steps: (ONE - snapshot.scale_amplitude.steps) as i64 };
    assert(0 <= room.steps * snapshot.progress.steps <= ONE * ONE) by (nonlinear_arith)
        requires
            0 <= room.steps <= ONE,
            0 <= snapshot.progress.steps <= ONE,
    ;
    lemma_times_cut(room, snapshot.progress);
    assert(Fixed::from_i32_spec(1).minus_spec(snapshot.scale_amplitude) == room);
    lemma_share(
        room.steps as int,
        snapshot.progress.steps as int,
        snapshot.progress.steps as int,
    );
}

/// At any progress the picture is as opaque as what is left, brought into the unit
/// interval, and has shrunk by that share of what it can.
pub proof fn law_snapshot_fades_anywhere<T>(
    snapshot: &ClosingSnapshot<Fixed, T>,
    output_name: &String,
    camera: Point<Fixed>,
    zoom: Fixed,
    output_scale: Fixed,
    e: ClosingElement<Fixed>,
)
    requires
        call_ensures(
            ClosingSnapshot::<Fixed, T>::render_element,
            (snapshot, output_name, camera, zoom, output_scale),
            Some(e),
        ),
    ensures
        e.alpha.steps == ONE - clamped(snapshot.progress).steps,
        snapshot.alpha_only ==> e.scale.steps == ONE,
        !snapshot.alpha_only ==> exists|room: Fixed, shrunk: Fixed|
            in_range_or_end(room, ONE - snapshot.scale_amplitude.steps) && #[trigger] is_product(
                shrunk,
                room,
                snapshot.progress,
            ) && in_range_or_end(e.scale, ONE - shrunk.steps),
{
    let one = Fixed::from_i32_spec(1);
    let room = one.minus_spec(snapshot.scale_amplitude);
    lemma_product(room, snapshot.progress);
    assert(is_product(room.times_spec(snapshot.progress), room, snapshot.progress));
}

/// A picture does not slide as it fades: however far along, and whatever it shrinks to, it
/// is drawn over the same place and shrinks about the same point.
pub proof fn law_fade_does_not_slide<T>(
    snapshot: &ClosingSnapshot<Fixed, T>,
    later: &ClosingSnapshot<Fixed, T>,
    output_name: &String,
    camera: Point<Fixed>,
    zoom: Fixed,
    output_scale: Fixed,
    r: Option<ClosingElement<Fixed>>,
    s: Option<ClosingElement<Fixed>>,
)
    requires
        later.canvas_rect == snapshot.canvas_rect,
        later.pinned == snapshot.pinned,
        call_ensures(
            ClosingSnapshot::<Fixed, T>::render_element,
            (snapshot, output_name, camera, zoom, output_scale),
            r,
        ),
        call_ensures(
            ClosingSnapshot::<Fixed, T>::render_element,
            (later, output_name, camera, zoom, output_scale),
            s,
        ),
    ensures
        r is Some <==> s is Some,
        r matches Some(e) ==> (s matches Some(f) && f.loc == e.loc && f.size == e.size
            && f.center == e.center),
{
}

/// An output draws, of all the snapshots, in their order and each once, those on its own
/// screen and those on the canvas whose nearest pixels overlap what it shows; and each as
/// it is drawn by itself.
pub proof fn law_output_draws_what_shows<T>(
    snapshots: &Vec<ClosingSnapshot<Fixed, T>>,
    output_name: &String,
    visible: Rect<i32>,
    camera: Point<Fixed>,
    zoom: Fixed,
    output_scale: Fixed,
    drawn: Vec<(usize, ClosingElement<Fixed>)>,
    k: int,
    alone: Option<ClosingElement<Fixed>>,
    rounded: Rect<i32>,
    overlaps: bool,
)
    requires
        snapshots.len() <= usize::MAX,
        call_ensures(
            render_snapshots_for_output::<Fixed, T>,
            (snapshots, output_name, visible, camera, zoom, output_scale),
            drawn,
        ),
        0 <= k < snapshots.len(),
        call_ensures(
            ClosingSnapshot::<Fixed, T>::render_element,
            (&snapshots[k], output_name, camera, zoom, output_scale),
            alone,
        ),
        call_ensures(Rect::<Fixed>::rounded, (snapshots[k].canvas_rect,), rounded),
        call_ensures(Rect::<i32>::overlaps, (visible, rounded), overlaps),
    ensures
        forall|i: int, j: int|
            0 <= i < j < drawn.len() ==> (#[trigger] drawn[i]).0 < (#[trigger] drawn[j]).0,
        forall|j: int| 0 <= j < drawn.len() ==> (#[trigger] drawn[j]).0 < snapshots.len(),
        ({
            let shows = match snapshots[k].pinned {
                Some((home, _)) => home@ == output_name@,
                None => overlaps,
            };
            &&& shows ==> exists|j: int|
                0 <= j < drawn.len() && alone is Some && (#[trigger] drawn[j]) == (
                    k as usize,
                    alone->0,
                )
            &&& !shows ==> forall|j: int| 0 <= j < drawn.len() ==> (#[trigger] drawn[j]).0 != k
        }),
{
    law_snapshots_keep_their_order(
        snapshots@,
        snapshots@.len() as int,
        output_name@,
        visible,
        camera,
        zoom,
        output_scale,
    );
    if snapshots@[k].shows_on(output_name@, visible) {
        let j = choose|j: int| 0 <= j < drawn.len() && (#[trigger] drawn@[j]).0 == k;
        assert(drawn[j] == (k as usize, alone->0));
    }
}

} // verus!
