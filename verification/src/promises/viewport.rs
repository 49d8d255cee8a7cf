//! What the viewports of outputs promise.

use vstd::prelude::*;

use crate::fixed::{in_unit, Fixed, ONE};
use crate::geometry::{Point, Rect, Size};
use crate::promises::closing::lemma_half_cut;
use crate::promises::geometry::{has_place, lemma_place, shows_at};
use crate::promises::numbers::is_cut;
use crate::scalar::Scalar;
use crate::state::{
    has_id, is_on, law_search_finds_the_first, DriftWm, Momentum, OutputState, StageWindow,
    ZoomAnimationAnchor,
};
use crate::time::Instant;
use crate::viewport::{law_visible_fraction_is_a_share_of_area, visible_fraction};

verus! {

/// Whether output `k` is the one that getters and setters act on.
pub open spec fn has_focus<S>(wm: DriftWm<S>, k: int) -> bool {
    0 <= k < wm.outputs.len() && (wm.focused_output matches Some(f) && f == k)
}

/// Whether there is no output to act on.
pub open spec fn no_focus<S>(wm: DriftWm<S>) -> bool {
    wm.focused_output matches Some(f) ==> f >= wm.outputs.len()
}

/// Whether nothing has changed but, at most, the viewport of output `k`.
pub open spec fn only_viewport<S>(before: DriftWm<S>, after: DriftWm<S>, k: int) -> bool {
    &&& after == (DriftWm { outputs: after.outputs, ..before })
    &&& after.outputs.len() == before.outputs.len()
    &&& after.outputs[k].name == before.outputs[k].name
    &&& after.outputs[k].size == before.outputs[k].size
    &&& after.outputs[k].usable == before.outputs[k].usable
    &&& forall|j: int|
        0 <= j < before.outputs.len() && j != k ==> #[trigger] after.outputs[j]
            == before.outputs[j]
}

/// Whether a fullscreen window is on output `k`.
pub open spec fn covered<S>(wm: DriftWm<S>, k: int) -> bool {
    exists|j: int|
        0 <= j < wm.stage.fullscreen.len() && (#[trigger] wm.stage.fullscreen[j]).output@
            == wm.outputs[k].name@
}

proof fn lemma_covered<S>(wm: DriftWm<S>, k: int)
    ensures
        wm.fullscreen_at(k) == covered(wm, k),
{
    law_search_finds_the_first(wm.stage.fullscreen@, is_on(wm.outputs[k].name@));
}

/// A zoom that is set is the one read back, and nothing else changes; without an output it
/// is 1.
pub proof fn law_zoom_reads_back<S: Scalar>(
    before: DriftWm<S>,
    after: DriftWm<S>,
    k: int,
    val: S,
    read: S,
)
    requires
        exists|m: &mut DriftWm<S>|
            *m == before && *final(m) == after && #[trigger] call_ensures(
                DriftWm::<S>::set_zoom,
                (m, val),
                (),
            ),
        call_ensures(DriftWm::<S>::zoom, (&after,), read),
    ensures
        has_focus(before, k) ==> only_viewport(before, after, k) && read == val,
        has_focus(before, k) ==> after.outputs[k].state == (OutputState {
            zoom: val,
            ..before.outputs[k].state
        }),
        no_focus(before) ==> after.outputs@ == before.outputs@ && read == S::from_i32_spec(1),
        after == (DriftWm { outputs: after.outputs, ..before }),
{
}

/// A zoom target that is set is the one read back, and nothing else changes.
pub proof fn law_zoom_target_reads_back<S: Scalar>(
    before: DriftWm<S>,
    after: DriftWm<S>,
    k: int,
    val: Option<S>,
    read: Option<S>,
)
    requires
        exists|m: &mut DriftWm<S>|
            *m == before && *final(m) == after && #[trigger] call_ensures(
                DriftWm::<S>::set_zoom_target,
                (m, val),
                (),
            ),
        call_ensures(DriftWm::<S>::zoom_target, (&after,), read),
    ensures
        has_focus(before, k) ==> only_viewport(before, after, k) && read == val,
        has_focus(before, k) ==> after.outputs[k].state == (OutputState {
            zoom_target: val,
            ..before.outputs[k].state
        }),
        no_focus(before) ==> after.outputs@ == before.outputs@ && read is None,
        after == (DriftWm { outputs: after.outputs, ..before }),
{
}

/// An anchor that is set is the one read back, and nothing else changes.
pub proof fn law_zoom_anchor_reads_back<S: Scalar>(
    before: DriftWm<S>,
    after: DriftWm<S>,
    k: int,
    canvas: Point<S>,
    screen: Point<S>,
    read: Option<ZoomAnimationAnchor<S>>,
)
    requires
        exists|m: &mut DriftWm<S>|
            *m == before && *final(m) == after && #[trigger] call_ensures(
                DriftWm::<S>::set_zoom_animation_anchor,
                (m, canvas, screen),
                (),
            ),
        call_ensures(DriftWm::<S>::zoom_animation_anchor, (&after,), read),
    ensures
        has_focus(before, k) ==> only_viewport(before, after, k) && read == Some(
            ZoomAnimationAnchor { canvas, screen },
        ),
        has_focus(before, k) ==> after.outputs[k].state == (OutputState {
            zoom_animation_anchor: Some(ZoomAnimationAnchor { canvas, screen }),
            ..before.outputs[k].state
        }),
        no_focus(before) ==> after.outputs@ == before.outputs@ && read is None,
        after == (DriftWm { outputs: after.outputs, ..before }),
{
}

/// An anchor that is cleared is gone, and nothing else changes.
pub proof fn law_cleared_anchor_is_gone<S: Scalar>(
    before: DriftWm<S>,
    after: DriftWm<S>,
    k: int,
    read: Option<ZoomAnimationAnchor<S>>,
)
    requires
        exists|m: &mut DriftWm<S>|
            *m == before && *final(m) == after && #[trigger] call_ensures(
                DriftWm::<S>::clear_zoom_animation_anchor,
                (m,),
                (),
            ),
        call_ensures(DriftWm::<S>::zoom_animation_anchor, (&after,), read),
    ensures
        has_focus(before, k) ==> only_viewport(before, after, k) && read is None,
        has_focus(before, k) ==> after.outputs[k].state == (OutputState {
            zoom_animation_anchor: None::<ZoomAnimationAnchor<S>>,
            ..before.outputs[k].state
        }),
        no_focus(before) ==> after.outputs@ == before.outputs@ && read is None,
        after == (DriftWm { outputs: after.outputs, ..before }),
{
}

/// A return that is set is the one read back, and nothing else changes.
pub proof fn law_overview_return_reads_back<S: Scalar>(
    before: DriftWm<S>,
    after: DriftWm<S>,
    k: int,
    val: Option<(Point<S>, S)>,
    read: Option<(Point<S>, S)>,
)
    requires
        exists|m: &mut DriftWm<S>|
            *m == before && *final(m) == after && #[trigger] call_ensures(
                DriftWm::<S>::set_overview_return,
                (m, val),
                (),
            ),
        call_ensures(DriftWm::<S>::overview_return, (&after,), read),
    ensures
        has_focus(before, k) ==> only_viewport(before, after, k) && read == val,
        has_focus(before, k) ==> after.outputs[k].state == (OutputState {
            overview_return: val,
            ..before.outputs[k].state
        }),
        no_focus(before) ==> after.outputs@ == before.outputs@ && read is None,
        after == (DriftWm { outputs: after.outputs, ..before }),
{
}

/// A camera target that is set is the one read back, and nothing else changes.
pub proof fn law_camera_target_reads_back<S: Scalar>(
    before: DriftWm<S>,
    after: DriftWm<S>,
    k: int,
    val: Option<Point<S>>,
    read: Option<Point<S>>,
)
    requires
        exists|m: &mut DriftWm<S>|
            *m == before && *final(m) == after && #[trigger] call_ensures(
                DriftWm::<S>::set_camera_target,
                (m, val),
                (),
            ),
        call_ensures(DriftWm::<S>::camera_target, (&after,), read),
    ensures
        has_focus(before, k) ==> only_viewport(before, after, k) && read == val,
        has_focus(before, k) ==> after.outputs[k].state == (OutputState {
            camera_target: val,
            ..before.outputs[k].state
        }),
        no_focus(before) ==> after.outputs@ == before.outputs@ && read is None,
        after == (DriftWm { outputs: after.outputs, ..before }),
{
}

/// The time of a scroll that is set is the one read back, and nothing else changes.
pub proof fn law_scroll_pan_reads_back<S: Scalar>(
    before: DriftWm<S>,
    after: DriftWm<S>,
    k: int,
    val: Option<Instant>,
    read: Option<Instant>,
)
    requires
        exists|m: &mut DriftWm<S>|
            *m == before && *final(m) == after && #[trigger] call_ensures(
                DriftWm::<S>::set_last_scroll_pan,
                (m, val),
                (),
            ),
        call_ensures(DriftWm::<S>::last_scroll_pan, (&after,), read),
    ensures
        has_focus(before, k) ==> only_viewport(before, after, k) && read == val,
        has_focus(before, k) ==> after.outputs[k].state == (OutputState {
            last_scroll_pan: val,
            ..before.outputs[k].state
        }),
        no_focus(before) ==> after.outputs@ == before.outputs@ && read is None,
        after == (DriftWm { outputs: after.outputs, ..before }),
{
}

/// Whether an output is panned reads back as it was set, and nothing else changes.
pub proof fn law_panning_reads_back<S: Scalar>(
    before: DriftWm<S>,
    after: DriftWm<S>,
    k: int,
    val: bool,
    read: bool,
)
    requires
        exists|m: &mut DriftWm<S>|
            *m == before && *final(m) == after && #[trigger] call_ensures(
                DriftWm::<S>::set_panning,
                (m, val),
                (),
            ),
        call_ensures(DriftWm::<S>::panning, (&after,), read),
    ensures
        has_focus(before, k) ==> only_viewport(before, after, k) && read == val,
        has_focus(before, k) ==> after.outputs[k].state == (OutputState {
            panning: val,
            ..before.outputs[k].state
        }),
        no_focus(before) ==> after.outputs@ == before.outputs@ && read == false,
        after == (DriftWm { outputs: after.outputs, ..before }),
{
}

/// The time of a frame that is set is the one read back, and nothing else changes; without
/// an output it is the caller's own.
pub proof fn law_frame_instant_reads_back<S: Scalar>(
    before: DriftWm<S>,
    after: DriftWm<S>,
    k: int,
    val: Instant,
    now: Instant,
    read: Instant,
)
    requires
        exists|m: &mut DriftWm<S>|
            *m == before && *final(m) == after && #[trigger] call_ensures(
                DriftWm::<S>::set_last_frame_instant,
                (m, val),
                (),
            ),
        call_ensures(DriftWm::<S>::last_frame_instant, (&after, now), read),
    ensures
        has_focus(before, k) ==> only_viewport(before, after, k) && read == val,
        has_focus(before, k) ==> after.outputs[k].state == (OutputState {
            last_frame_instant: val,
            ..before.outputs[k].state
        }),
        no_focus(before) ==> after.outputs@ == before.outputs@ && read == now,
        after == (DriftWm { outputs: after.outputs, ..before }),
{
}

/// A camera that is set is the one read back, unless a fullscreen window covers its output:
/// then it does not move. Nothing else changes either way, and without an output the camera
/// is at the origin.
pub proof fn law_camera_reads_back<S: Scalar>(
    before: DriftWm<S>,
    after: DriftWm<S>,
    k: int,
    val: Point<S>,
    read: Point<S>,
)
    requires
        exists|m: &mut DriftWm<S>|
            *m == before && *final(m) == after && #[trigger] call_ensures(
                DriftWm::<S>::set_camera,
                (m, val),
                (),
            ),
        call_ensures(DriftWm::<S>::camera, (&after,), read),
    ensures
        has_focus(before, k) && !covered(before, k) ==> only_viewport(before, after, k) && read
            == val && after.outputs[k].state == (OutputState {
            camera: val,
            ..before.outputs[k].state
        }),
        has_focus(before, k) && covered(before, k) ==> after.outputs@ == before.outputs@ && read
            == before.outputs[k].state.camera,
        no_focus(before) ==> after.outputs@ == before.outputs@ && read == (Point {
            x: S::from_i32_spec(0),
            y: S::from_i32_spec(0),
        }),
        after == (DriftWm { outputs: after.outputs, ..before }),
{
    lemma_covered(before, k);
}

/// The same of the camera of a given output.
pub proof fn law_camera_on_moves_one_output<S: Scalar>(
    before: DriftWm<S>,
    after: DriftWm<S>,
    k: usize,
    val: Point<S>,
)
    requires
        k < before.outputs.len(),
        exists|m: &mut DriftWm<S>|
            *m == before && *final(m) == after && #[trigger] call_ensures(
                DriftWm::<S>::set_camera_on,
                (m, k, val),
                (),
            ),
    ensures
        covered(before, k as int) ==> after.outputs@ == before.outputs@,
        !covered(before, k as int) ==> only_viewport(before, after, k as int)
            && after.outputs[k as int].state == (OutputState {
            camera: val,
            ..before.outputs[k as int].state
        }),
        after == (DriftWm { outputs: after.outputs, ..before }),
{
    lemma_covered(before, k as int);
}

/// What is run on the active output's viewport sees that viewport and leaves it as it does;
/// what it answers is the answer, and nothing else changes. Without an output it is not run.
pub proof fn law_viewport_is_run_on<S: Scalar, R, F: FnOnce(&mut OutputState<S>) -> R>(
    before: DriftWm<S>,
    after: DriftWm<S>,
    k: int,
    f: F,
    outcome: spec_fn(OutputState<S>) -> (OutputState<S>, R),
    r: Option<R>,
)
    requires
        forall|state: &mut OutputState<S>, ret: R| #[trigger]
            call_ensures(f, (state,), ret) ==> outcome(*state) == (*final(state), ret),
        exists|m: &mut DriftWm<S>|
            *m == before && *final(m) == after && #[trigger] call_ensures(
                DriftWm::<S>::with_output_state::<R>,
                (m, f),
                r,
            ),
    ensures
        has_focus(before, k) ==> only_viewport(before, after, k) && r is Some && outcome(
            before.outputs[k].state,
        ) == (after.outputs[k].state, r->0),
        no_focus(before) ==> after.outputs@ == before.outputs@ && r is None,
        after == (DriftWm { outputs: after.outputs, ..before }),
{
}

/// A glide that is stopped is over.
pub proof fn law_stopped_glide_is_over<S: Scalar>(before: Momentum<S>, after: Momentum<S>)
    requires
        exists|m: &mut Momentum<S>|
            *m == before && *final(m) == after && #[trigger] call_ensures(
                Momentum::<S>::stop,
                (m,),
                (),
            ),
    ensures
        after.velocity is None,
{
}

/// The extent and the usable area read are those of the output that is asked for, and a
/// single pixel without one. Which output is active, and whether it is covered, is as the
/// focus and the fullscreen windows say.
pub proof fn law_areas_are_the_outputs<S: Scalar>(
    wm: &DriftWm<S>,
    k: int,
    o: usize,
    size: Size<i32>,
    area: Rect<i32>,
    area_on: Rect<i32>,
    active: Option<usize>,
    fullscreen: bool,
)
    requires
        o < wm.outputs.len(),
        call_ensures(DriftWm::<S>::get_viewport_size, (wm,), size),
        call_ensures(DriftWm::<S>::get_usable_area, (wm,), area),
        call_ensures(DriftWm::<S>::usable_area_on, (wm, o), area_on),
        call_ensures(DriftWm::<S>::active_output, (wm,), active),
        call_ensures(DriftWm::<S>::is_output_fullscreen, (wm, o), fullscreen),
    ensures
        has_focus(*wm, k) ==> size == wm.outputs[k].size && area == wm.outputs[k].usable
            && (active matches Some(a) && a == k),
        no_focus(*wm) ==> active is None && size == (Size { w: 1i32, h: 1i32 }) && area == (Rect {
            loc: Point { x: 0i32, y: 0i32 },
            size: Size { w: 1i32, h: 1i32 },
        }),
        area_on == wm.outputs[o as int].usable,
        fullscreen <==> covered(*wm, o as int),
{
    lemma_covered(*wm, o as int);
}

/// Whether a point is equally far from both edges of an area, on each axis: twice the point
/// is the sum of where the area starts and where it ends.
pub open spec fn in_the_middle(center: Point<Fixed>, area: Rect<i32>) -> bool {
    &&& 2 * center.x.steps == (area.loc.x + (area.loc.x + area.size.w)) * ONE
    &&& 2 * center.y.steps == (area.loc.y + (area.loc.y + area.size.h)) * ONE
}

/// The usable center is in the middle of the usable area, wherever on the output that is;
/// without an output, of a pixel at the origin.
pub proof fn law_usable_center_is_in_the_middle(
    wm: &DriftWm<Fixed>,
    o: usize,
    on: Point<Fixed>,
    area: Rect<i32>,
    active: Point<Fixed>,
)
    requires
        o < wm.outputs.len(),
        call_ensures(DriftWm::<Fixed>::usable_center_screen_on, (wm, o), on),
        call_ensures(DriftWm::<Fixed>::get_usable_area, (wm,), area),
        call_ensures(DriftWm::<Fixed>::usable_center_screen, (wm,), active),
    ensures
        in_the_middle(on, wm.outputs[o as int].usable),
        in_the_middle(active, area),
{
    let usable = wm.outputs[o as int].usable;
    lemma_half_cut(Fixed::from_i32_spec(usable.size.w));
    lemma_half_cut(Fixed::from_i32_spec(usable.size.h));
    lemma_half_cut(Fixed::from_i32_spec(area.size.w));
    lemma_half_cut(Fixed::from_i32_spec(area.size.h));
}

/// The viewport's center on the canvas is what shows at the usable center: as far from the
/// camera as that is from the screen's corner, over the zoom.
pub proof fn law_viewport_center_shows_in_the_middle(
    wm: &DriftWm<Fixed>,
    center: Point<Fixed>,
    camera: Point<Fixed>,
    zoom: Fixed,
    canvas: Point<Fixed>,
)
    requires
        call_ensures(DriftWm::<Fixed>::usable_center_screen, (wm,), center),
        call_ensures(DriftWm::<Fixed>::camera, (wm,), camera),
        call_ensures(DriftWm::<Fixed>::zoom, (wm,), zoom),
        has_place(center.x, camera.x, zoom),
        has_place(center.y, camera.y, zoom),
        call_ensures(DriftWm::<Fixed>::viewport_center_canvas, (wm,), canvas),
    ensures
        shows_at(canvas.x, camera.x, zoom, center.x),
        shows_at(canvas.y, camera.y, zoom, center.y),
{
    lemma_place(center.x, camera.x, zoom);
    lemma_place(center.y, camera.y, zoom);
}

/// A flight to an anchor aims at the zoom it was given and at the camera under which, at
/// that zoom, the canvas point shows at the screen point. It calls off the glide and the
/// pending return; the view itself does not jump, and nothing else changes.
pub proof fn law_anchor_is_what_arrives(
    before: DriftWm<Fixed>,
    after: DriftWm<Fixed>,
    k: usize,
    canvas: Point<Fixed>,
    screen: Point<Fixed>,
    zoom: Fixed,
)
    requires
        k < before.outputs.len(),
        has_place(screen.x, Fixed { steps: 0 }, zoom),
        has_place(screen.y, Fixed { steps: 0 }, zoom),
        // The camera is representable.
        forall|q: int| #[trigger]
            is_cut(q, screen.x.steps * ONE, zoom.steps as int) ==> i64::MIN <= canvas.x.steps - q
                <= i64::MAX,
        forall|q: int| #[trigger]
            is_cut(q, screen.y.steps * ONE, zoom.steps as int) ==> i64::MIN <= canvas.y.steps - q
                <= i64::MAX,
        exists|m: &mut DriftWm<Fixed>|
            *m == before && *final(m) == after && #[trigger] call_ensures(
                DriftWm::<Fixed>::set_camera_anchor,
                (m, k, canvas, screen, zoom),
                (),
            ),
    ensures
        only_viewport(before, after, k as int),
        ({
            let was = before.outputs[k as int].state;
            let is = after.outputs[k as int].state;
            &&& is.zoom_target == Some(zoom)
            &&& is.zoom_animation_anchor matches Some(anchor) && anchor.canvas == canvas
                && anchor.screen == screen
            &&& is.camera_target matches Some(target) && shows_at(
                canvas.x,
                target.x,
                zoom,
                screen.x,
            ) && shows_at(canvas.y, target.y, zoom, screen.y)
            &&& is.overview_return is None
            &&& is.momentum.velocity is None
            &&& is == (OutputState {
                zoom_target: is.zoom_target,
                zoom_animation_anchor: is.zoom_animation_anchor,
                camera_target: is.camera_target,
                overview_return: is.overview_return,
                momentum: is.momentum,
                ..was
            })
        }),
{
    lemma_place(screen.x, Fixed { steps: 0 }, zoom);
    lemma_place(screen.y, Fixed { steps: 0 }, zoom);
    assert(is_cut(screen.x.over_spec(zoom).steps as int, screen.x.steps * ONE, zoom.steps as int));
    assert(is_cut(screen.y.over_spec(zoom).steps as int, screen.y.steps * ONE, zoom.steps as int));
}

/// How many steps two spans have in common.
pub open spec fn common(a_start: int, a_end: int, b_start: int, b_end: int) -> int {
    let start = if a_start < b_start {
        b_start
    } else {
        a_start
    };
    let end = if a_end < b_end {
        a_end
    } else {
        b_end
    };
    if start < end {
        end - start
    } else {
        0
    }
}

/// Whether the canvas that one axis of a viewport shows ends at `far`: its distance from the
/// camera, times the zoom, is the viewport's extent.
pub open spec fn shown_until(far: int, camera: Fixed, viewport: i32, zoom: Fixed) -> bool {
    &&& is_cut(far - camera.steps, viewport * ONE * ONE, zoom.steps as int)
    &&& i64::MIN <= far - camera.steps <= i64::MAX
    &&& i64::MIN <= far <= i64::MAX
}

/// The visible fraction of a window with an area is the area it has in common with the
/// canvas shown, over its own, cut to a step: all of a window that shows whole, and none
/// of one that does not show. Areas are in square steps. Without an area none shows.
#[verifier::spinoff_prover]
pub proof fn law_visible_share(
    loc: Point<i32>,
    size: Size<i32>,
    camera: Point<Fixed>,
    viewport: Size<i32>,
    zoom: Fixed,
    far_x: int,
    far_y: int,
    fraction: Fixed,
)
    requires
        zoom.steps > 0,
        // The window's area is representable.
        size.w * size.h * ONE <= i64::MAX,
        shown_until(far_x, camera.x, viewport.w, zoom),
        shown_until(far_y, camera.y, viewport.h, zoom),
        call_ensures(visible_fraction::<Fixed>, (loc, size, camera, viewport, zoom), fraction),
    ensures
        size.w <= 0 || size.h <= 0 ==> fraction.steps == 0,
        size.w > 0 && size.h > 0 ==> {
            let area = size.w * size.h * ONE;
            let w = common(loc.x * ONE, (loc.x + size.w) * ONE, camera.x.steps as int, far_x);
            let h = common(loc.y * ONE, (loc.y + size.h) * ONE, camera.y.steps as int, far_y);
            &&& in_unit(fraction)
            &&& w * h - area - ONE < fraction.steps * area <= w * h
            &&& w == size.w * ONE && h == size.h * ONE ==> fraction.steps == ONE
            &&& w == 0 || h == 0 ==> fraction.steps == 0
        },
{
    lemma_far(camera.x, viewport.w, zoom, far_x);
    lemma_far(camera.y, viewport.h, zoom, far_y);
    if size.w > 0 && size.h > 0 {
        law_visible_fraction_is_a_share_of_area(loc, size, camera, viewport, zoom);
    } else {
        let (w, h) = (Fixed::from_i32_spec(size.w), Fixed::from_i32_spec(size.h));
        if size.w < 0 && size.h < 0 {
            let shown_w = crate::viewport::shown_extent_spec(
                loc.x,
                size.w,
                camera.x,
                viewport.w,
                zoom,
            );
            let shown_h = crate::viewport::shown_extent_spec(
                loc.y,
                size.h,
                camera.y,
                viewport.h,
                zoom,
            );
            assert(shown_w.steps == 0);
            assert(shown_w.times_spec(shown_h).steps == 0);
            if w.times_spec(h).steps > 0 {
                crate::promises::numbers::lemma_toward_zero_is_cut(
                    0,
                    w.times_spec(h).steps as int,
                );
            }
        } else {
            assert(w.steps * h.steps <= 0) by (nonlinear_arith)
                requires
                    (w.steps <= 0 && h.steps >= 0) || (w.steps >= 0 && h.steps <= 0),
            ;
            assert(w.times_spec(h).steps <= 0);
        }
    }
}

proof fn lemma_far(camera: Fixed, viewport: i32, zoom: Fixed, far: int)
    requires
        zoom.steps > 0,
        shown_until(far, camera, viewport, zoom),
    ensures
        camera.plus_spec(Fixed::from_i32_spec(viewport).over_spec(zoom)).steps == far,
{
    let n = viewport * ONE * ONE;
    crate::promises::numbers::lemma_toward_zero_is_cut(n, zoom.steps as int);
    crate::promises::numbers::lemma_cut_is_unique(
        crate::fixed::toward_zero(n, zoom.steps as int),
        far - camera.steps,
        n,
        zoom.steps as int,
    );
    assert(Fixed::from_i32_spec(viewport).steps * ONE == n);
}

/// A window shows to a threshold on an output where it is on the stage, and the share of
/// it that is visible there, where the stage has it and at the size it has, is no less.
pub proof fn law_shows_to_a_threshold(
    wm: &DriftWm<Fixed>,
    window: &StageWindow,
    id: u64,
    geometry: Size<i32>,
    o: usize,
    e: int,
    threshold: Fixed,
    fraction: Fixed,
    on: bool,
    active: bool,
)
    requires
        o < wm.outputs.len(),
        call_ensures(StageWindow::id, (window,), id),
        call_ensures(StageWindow::geometry, (window,), geometry),
        // The first element with the window's id, if any.
        0 <= e <= wm.stage.windows.len(),
        forall|j: int| 0 <= j < e ==> (#[trigger] wm.stage.windows[j]).id != id,
        e < wm.stage.windows.len() ==> wm.stage.windows[e].id == id,
        e < wm.stage.windows.len() ==> call_ensures(
            visible_fraction::<Fixed>,
            (
                wm.stage.windows[e].position,
                geometry,
                wm.outputs[o as int].state.camera,
                wm.outputs[o as int].size,
                wm.outputs[o as int].state.zoom,
            ),
            fraction,
        ),
        call_ensures(
            DriftWm::<Fixed>::window_visible_at_least_on,
            (wm, window, o, threshold),
            on,
        ),
        call_ensures(DriftWm::<Fixed>::window_visible_at_least, (wm, window, threshold), active),
    ensures
        on <==> e < wm.stage.windows.len() && threshold.steps <= fraction.steps,
        has_focus(*wm, o as int) ==> active == on,
        no_focus(*wm) ==> !active,
{
    law_search_finds_the_first(wm.stage.windows@, has_id(id));
    if e < wm.stage.windows.len() {
        assert(has_id(id)(wm.stage.windows@[e]));
    }
}

} // verus!
