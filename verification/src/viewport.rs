//! The viewport of each output: where its camera is, how far it is zoomed, and what
//! it is animating toward.
//!
//! The getters and setters act on the active output. Without one a getter gives a
//! sensible default and a setter does nothing.

use vstd::prelude::*;

use crate::fixed::{in_unit, lemma_quotient_returns, Fixed, ONE};
use crate::geometry::{screen_to_canvas, screen_to_canvas_spec, Point, Rect, Size};
use crate::scalar::{half, half_spec, Scalar};
use crate::state::{
    entry_index, with_state, DriftWm, Momentum, OutputState, StageWindow, ZoomAnimationAnchor,
};
use crate::time::Instant;

verus! {

/// The center of a rectangle of whole pixels.
pub open spec fn center_spec<S: Scalar>(rect: Rect<i32>) -> Point<S> {
    Point {
        x: S::from_i32_spec(rect.loc.x).plus_spec(half_spec(S::from_i32_spec(rect.size.w))),
        y: S::from_i32_spec(rect.loc.y).plus_spec(half_spec(S::from_i32_spec(rect.size.h))),
    }
}

impl<S: Scalar> DriftWm<S> {
    /// The camera of the active output.
    pub open spec fn camera_spec(&self) -> Point<S> {
        match self.active() {
            Some(k) => self.outputs[k].state.camera,
            None => Point { x: S::from_i32_spec(0), y: S::from_i32_spec(0) },
        }
    }

    /// The zoom of the active output. Without one it is 1, so that dividing by it is
    /// safe.
    pub open spec fn zoom_spec(&self) -> S {
        match self.active() {
            Some(k) => self.outputs[k].state.zoom,
            None => S::from_i32_spec(1),
        }
    }

    /// The screen point at the center of the active output's usable area.
    pub open spec fn usable_center_spec(&self) -> Point<S> {
        match self.active() {
            Some(k) => center_spec(self.outputs[k].usable),
            None => Point {
                x: half_spec(S::from_i32_spec(1)),
                y: half_spec(S::from_i32_spec(1)),
            },
        }
    }

    /// The camera of the active output; the origin without one.
    pub fn camera(&self) -> (r: Point<S>)
        ensures
            r == self.camera_spec(),
    {
        match self.active_output() {
            Some(k) => self.outputs[k].state.camera,
            None => Point { x: S::from_i32(0), y: S::from_i32(0) },
        }
    }

    /// Move the active output's camera, unless a fullscreen window locks it.
    pub fn set_camera(&mut self, val: Point<S>)
        ensures
            final(self).outputs@ == match old(self).active() {
                Some(k) if !old(self).fullscreen_at(k) => with_state(
                    old(self).outputs@,
                    k,
                    OutputState { camera: val, ..old(self).outputs[k].state },
                ),
                _ => old(self).outputs@,
            },
            *final(self) == (DriftWm { outputs: final(self).outputs, ..*old(self) }),
    {
        if let Some(k) = self.active_output() {
            self.set_camera_on(k, val);
        }
    }

    /// Move the camera of `output`, unless a fullscreen window locks it. A
    /// fullscreen window is parked at its output's camera origin, so the camera must
    /// not move under it, or it slides off and bares the output.
    pub fn set_camera_on(&mut self, output: usize, val: Point<S>)
        requires
            output < old(self).outputs.len(),
        ensures
            final(self).outputs@ == if old(self).fullscreen_at(output as int) {
                old(self).outputs@
            } else {
                with_state(
                    old(self).outputs@,
                    output as int,
                    OutputState { camera: val, ..old(self).outputs[output as int].state },
                )
            },
            *final(self) == (DriftWm { outputs: final(self).outputs, ..*old(self) }),
    {
        if self.is_output_fullscreen(output) {
            return;
        }
        self.outputs[output].state.camera = val;
    }

    /// The zoom of the active output; 1 without one.
    pub fn zoom(&self) -> (r: S)
        ensures
            r == self.zoom_spec(),
    {
        match self.active_output() {
            Some(k) => self.outputs[k].state.zoom,
            None => S::from_i32(1),
        }
    }

    /// Set the active output's zoom.
    pub fn set_zoom(&mut self, val: S)
        ensures
            final(self).outputs@ == match old(self).active() {
                Some(k) => with_state(
                    old(self).outputs@,
                    k,
                    OutputState { zoom: val, ..old(self).outputs[k].state },
                ),
                None => old(self).outputs@,
            },
            *final(self) == (DriftWm { outputs: final(self).outputs, ..*old(self) }),
    {
        if let Some(k) = self.active_output() {
            self.outputs[k].state.zoom = val;
        }
    }

    /// The zoom that the active output animates toward.
    pub fn zoom_target(&self) -> (r: Option<S>)
        ensures
            r == match self.active() {
                Some(k) => self.outputs[k].state.zoom_target,
                None => None,
            },
    {
        match self.active_output() {
            Some(k) => self.outputs[k].state.zoom_target,
            None => None,
        }
    }

    /// Set the zoom that the active output animates toward.
    pub fn set_zoom_target(&mut self, val: Option<S>)
        ensures
            final(self).outputs@ == match old(self).active() {
                Some(k) => with_state(
                    old(self).outputs@,
                    k,
                    OutputState { zoom_target: val, ..old(self).outputs[k].state },
                ),
                None => old(self).outputs@,
            },
            *final(self) == (DriftWm { outputs: final(self).outputs, ..*old(self) }),
    {
        if let Some(k) = self.active_output() {
            self.outputs[k].state.zoom_target = val;
        }
    }

    /// The anchor of the active output's zoom animation.
    pub fn zoom_animation_anchor(&self) -> (r: Option<ZoomAnimationAnchor<S>>)
        ensures
            r == match self.active() {
                Some(k) => self.outputs[k].state.zoom_animation_anchor,
                None => None,
            },
    {
        match self.active_output() {
            Some(k) => self.outputs[k].state.zoom_animation_anchor,
            None => None,
        }
    }

    /// Anchor the active output's zoom animation: `canvas` is held at `screen`.
    pub fn set_zoom_animation_anchor(&mut self, canvas: Point<S>, screen: Point<S>)
        ensures
            final(self).outputs@ == match old(self).active() {
                Some(k) => with_state(
                    old(self).outputs@,
                    k,
                    OutputState {
                        zoom_animation_anchor: Some(ZoomAnimationAnchor { canvas, screen }),
                        ..old(self).outputs[k].state
                    },
                ),
                None => old(self).outputs@,
            },
            *final(self) == (DriftWm { outputs: final(self).outputs, ..*old(self) }),
    {
        if let Some(k) = self.active_output() {
            self.outputs[k].state.zoom_animation_anchor = Some(
                ZoomAnimationAnchor { canvas, screen },
            );
        }
    }

    /// Drop the anchor of the active output's zoom animation.
    pub fn clear_zoom_animation_anchor(&mut self)
        ensures
            final(self).outputs@ == match old(self).active() {
                Some(k) => with_state(
                    old(self).outputs@,
                    k,
                    OutputState { zoom_animation_anchor: None, ..old(self).outputs[k].state },
                ),
                None => old(self).outputs@,
            },
            *final(self) == (DriftWm { outputs: final(self).outputs, ..*old(self) }),
    {
        if let Some(k) = self.active_output() {
            self.outputs[k].state.zoom_animation_anchor = None;
        }
    }

    /// The camera and zoom that leaving the active output's zoom-to-fit view returns to.
    pub fn overview_return(&self) -> (r: Option<(Point<S>, S)>)
        ensures
            r == match self.active() {
                Some(k) => self.outputs[k].state.overview_return,
                None => None,
            },
    {
        match self.active_output() {
            Some(k) => self.outputs[k].state.overview_return,
            None => None,
        }
    }

    /// Set what leaving the active output's zoom-to-fit view returns to.
    pub fn set_overview_return(&mut self, val: Option<(Point<S>, S)>)
        ensures
            final(self).outputs@ == match old(self).active() {
                Some(k) => with_state(
                    old(self).outputs@,
                    k,
                    OutputState { overview_return: val, ..old(self).outputs[k].state },
                ),
                None => old(self).outputs@,
            },
            *final(self) == (DriftWm { outputs: final(self).outputs, ..*old(self) }),
    {
        if let Some(k) = self.active_output() {
            self.outputs[k].state.overview_return = val;
        }
    }

    /// The camera position that the active output animates toward.
    pub fn camera_target(&self) -> (r: Option<Point<S>>)
        ensures
            r == match self.active() {
                Some(k) => self.outputs[k].state.camera_target,
                None => None,
            },
    {
        match self.active_output() {
            Some(k) => self.outputs[k].state.camera_target,
            None => None,
        }
    }

    /// Set the camera position that the active output animates toward.
    pub fn set_camera_target(&mut self, val: Option<Point<S>>)
        ensures
            final(self).outputs@ == match old(self).active() {
                Some(k) => with_state(
                    old(self).outputs@,
                    k,
                    OutputState { camera_target: val, ..old(self).outputs[k].state },
                ),
                None => old(self).outputs@,
            },
            *final(self) == (DriftWm { outputs: final(self).outputs, ..*old(self) }),
    {
        if let Some(k) = self.active_output() {
            self.outputs[k].state.camera_target = val;
        }
    }

    /// When the active output was last panned by scrolling.
    pub fn last_scroll_pan(&self) -> (r: Option<Instant>)
        ensures
            r == match self.active() {
                Some(k) => self.outputs[k].state.last_scroll_pan,
                None => None,
            },
    {
        match self.active_output() {
            Some(k) => self.outputs[k].state.last_scroll_pan,
            None => None,
        }
    }

    /// Note when the active output was last panned by scrolling.
    pub fn set_last_scroll_pan(&mut self, val: Option<Instant>)
        ensures
            final(self).outputs@ == match old(self).active() {
                Some(k) => with_state(
                    old(self).outputs@,
                    k,
                    OutputState { last_scroll_pan: val, ..old(self).outputs[k].state },
                ),
                None => old(self).outputs@,
            },
            *final(self) == (DriftWm { outputs: final(self).outputs, ..*old(self) }),
    {
        if let Some(k) = self.active_output() {
            self.outputs[k].state.last_scroll_pan = val;
        }
    }

    /// Whether the active output is being panned.
    pub fn panning(&self) -> (r: bool)
        ensures
            r == match self.active() {
                Some(k) => self.outputs[k].state.panning,
                None => false,
            },
    {
        match self.active_output() {
            Some(k) => self.outputs[k].state.panning,
            None => false,
        }
    }

    /// Note whether the active output is being panned.
    pub fn set_panning(&mut self, val: bool)
        ensures
            final(self).outputs@ == match old(self).active() {
                Some(k) => with_state(
                    old(self).outputs@,
                    k,
                    OutputState { panning: val, ..old(self).outputs[k].state },
                ),
                None => old(self).outputs@,
            },
            *final(self) == (DriftWm { outputs: final(self).outputs, ..*old(self) }),
    {
        if let Some(k) = self.active_output() {
            self.outputs[k].state.panning = val;
        }
    }

    /// When the active output drew its last frame; without an active output, `now`,
    /// the caller's reading of the clock.
    pub fn last_frame_instant(&self, now: Instant) -> (r: Instant)
        ensures
            r == match self.active() {
                Some(k) => self.outputs[k].state.last_frame_instant,
                None => now,
            },
    {
        match self.active_output() {
            Some(k) => self.outputs[k].state.last_frame_instant,
            None => now,
        }
    }

    /// Note when the active output drew its last frame.
    pub fn set_last_frame_instant(&mut self, val: Instant)
        ensures
            final(self).outputs@ == match old(self).active() {
                Some(k) => with_state(
                    old(self).outputs@,
                    k,
                    OutputState { last_frame_instant: val, ..old(self).outputs[k].state },
                ),
                None => old(self).outputs@,
            },
            *final(self) == (DriftWm { outputs: final(self).outputs, ..*old(self) }),
    {
        if let Some(k) = self.active_output() {
            self.outputs[k].state.last_frame_instant = val;
        }
    }

    /// Run `f` on the active output's viewport. Without an active output `f` is not
    /// run.
    pub fn with_output_state<R>(&mut self, f: impl FnOnce(&mut OutputState<S>) -> R) -> (r: Option<
        R,
    >)
        requires
            forall|state: &mut OutputState<S>|
                (old(self).active() matches Some(k) && *state == old(self).outputs[k].state)
                    ==> call_requires(f, (state,)),
        ensures
            r is Some <==> old(self).active() is Some,
            old(self).active() is None ==> final(self).outputs@ == old(self).outputs@,
            old(self).active() is Some ==> final(self).outputs@ == with_state(
                old(self).outputs@,
                old(self).active()->0,
                final(self).outputs[old(self).active()->0].state,
            ),
            old(self).active() is Some ==> exists|state: &mut OutputState<S>|
                *state == old(self).outputs[old(self).active()->0].state && call_ensures(
                    f,
                    (state,),
                    r->0,
                ) && final(self).outputs[old(self).active()->0].state == *final(state),
            *final(self) == (DriftWm { outputs: final(self).outputs, ..*old(self) }),
    {
        let k: usize = match self.active_output() {
            Some(k) => k,
            None => {
                return None;
            },
        };
        let ret = f(&mut self.outputs[k].state);
        assert(final(self).outputs@ =~= with_state(
            old(self).outputs@,
            k as int,
            final(self).outputs[k as int].state,
        ));
        Some(ret)
    }

    /// The logical extent of the active output; a single pixel without one.
    pub fn get_viewport_size(&self) -> (r: Size<i32>)
        ensures
            r == match self.active() {
                Some(k) => self.outputs[k].size,
                None => Size { w: 1, h: 1 },
            },
    {
        match self.active_output() {
            Some(k) => self.outputs[k].size,
            None => Size { w: 1, h: 1 },
        }
    }

    /// What panels and bars leave of the active output; a single pixel without one.
    pub fn get_usable_area(&self) -> (r: Rect<i32>)
        ensures
            r == match self.active() {
                Some(k) => self.outputs[k].usable,
                None => Rect { loc: Point { x: 0, y: 0 }, size: Size { w: 1, h: 1 } },
            },
    {
        match self.active_output() {
            Some(k) => self.usable_area_on(k),
            None => Rect { loc: Point { x: 0, y: 0 }, size: Size { w: 1, h: 1 } },
        }
    }

    /// What panels and bars leave of `output`.
    pub fn usable_area_on(&self, output: usize) -> (r: Rect<i32>)
        requires
            output < self.outputs.len(),
        ensures
            r == self.outputs[output as int].usable,
    {
        self.outputs[output].usable
    }

    /// The screen point at the center of the active output's usable area.
    pub fn usable_center_screen(&self) -> (r: Point<S>)
        ensures
            r == self.usable_center_spec(),
    {
        match self.active_output() {
            Some(k) => self.usable_center_screen_on(k),
            None => Point { x: half(S::from_i32(1)), y: half(S::from_i32(1)) },
        }
    }

    /// The screen point at the center of `output`'s usable area.
    pub fn usable_center_screen_on(&self, output: usize) -> (r: Point<S>)
        requires
            output < self.outputs.len(),
        ensures
            r == center_spec::<S>(self.outputs[output as int].usable),
    {
        let usable = self.outputs[output].usable;
        Point {
            x: S::from_i32(usable.loc.x).plus(half(S::from_i32(usable.size.w))),
            y: S::from_i32(usable.loc.y).plus(half(S::from_i32(usable.size.h))),
        }
    }

    /// Start a flight of `output` to `zoom` that holds `anchor_canvas` at
    /// `anchor_screen`. The camera target is derived from the anchor: the anchor is
    /// what arrives, so stating the destination twice could only disagree. A pending
    /// return from a zoom-to-fit view is called off, as a pan calls it off.
    pub fn set_camera_anchor(
        &mut self,
        output: usize,
        anchor_canvas: Point<S>,
        anchor_screen: Point<S>,
        zoom: S,
    )
        requires
            output < old(self).outputs.len(),
        ensures
            final(self).outputs@ == with_state(
                old(self).outputs@,
                output as int,
                OutputState {
                    overview_return: None,
                    momentum: Momentum { velocity: None },
                    camera_target: Some(camera_showing_spec(anchor_canvas, anchor_screen, zoom)),
                    zoom_animation_anchor: Some(
                        ZoomAnimationAnchor { canvas: anchor_canvas, screen: anchor_screen },
                    ),
                    zoom_target: Some(zoom),
                    ..old(self).outputs[output as int].state
                },
            ),
            *final(self) == (DriftWm { outputs: final(self).outputs, ..*old(self) }),
    {
        let state = &mut self.outputs[output].state;
        state.overview_return = None;
        state.momentum.stop();
        state.camera_target = Some(
            Point {
                x: anchor_canvas.x.minus(anchor_screen.x.over(zoom)),
                y: anchor_canvas.y.minus(anchor_screen.y.over(zoom)),
            },
        );
        state.zoom_animation_anchor = Some(
            ZoomAnimationAnchor { canvas: anchor_canvas, screen: anchor_screen },
        );
        state.zoom_target = Some(zoom);
    }

    /// The canvas point at the center of the active output's usable area.
    pub fn viewport_center_canvas(&self) -> (r: Point<S>)
        ensures
            r == screen_to_canvas_spec(
                self.usable_center_spec(),
                self.camera_spec(),
                self.zoom_spec(),
            ),
    {
        screen_to_canvas(self.usable_center_screen(), self.camera(), self.zoom())
    }

    /// Whether at least `threshold` of `window`'s area shows on the active output.
    pub fn window_visible_at_least(&self, window: &StageWindow, threshold: S) -> (r: bool)
        ensures
            r == match self.active() {
                Some(k) => self.shows_at_least(*window, k, threshold),
                None => false,
            },
    {
        match self.active_output() {
            Some(k) => self.window_visible_at_least_on(window, k, threshold),
            None => false,
        }
    }

    /// Whether at least `threshold` of `window`'s area shows on output `k`. Of a window
    /// that is not on the stage nothing does.
    pub open spec fn shows_at_least(&self, window: StageWindow, k: int, threshold: S) -> bool {
        match entry_index(self.stage.windows@, window.id_spec()) {
            Some(e) => threshold.le_spec(
                visible_fraction_spec(
                    self.stage.windows[e].position,
                    window.geometry_spec(),
                    self.outputs[k].state.camera,
                    self.outputs[k].size,
                    self.outputs[k].state.zoom,
                ),
            ),
            None => false,
        }
    }

    /// Whether at least `threshold` of `window`'s area shows on `output`.
    pub fn window_visible_at_least_on(
        &self,
        window: &StageWindow,
        output: usize,
        threshold: S,
    ) -> (r: bool)
        requires
            output < self.outputs.len(),
        ensures
            r == self.shows_at_least(*window, output as int, threshold),
    {
        match self.stage.position_of(window.id()) {
            None => false,
            Some(loc) => {
                let shown = &self.outputs[output];
                threshold.le(
                    visible_fraction(
                        loc,
                        window.geometry(),
                        shown.state.camera,
                        shown.size,
                        shown.state.zoom,
                    ),
                )
            },
        }
    }
}

/// How much of a span of whole canvas pixels shows, on one axis of a viewport.
pub open spec fn shown_extent_spec<S: Scalar>(
    start: i32,
    extent: i32,
    camera: S,
    viewport: i32,
    zoom: S,
) -> S {
    let end = S::from_i32_spec(start).plus_spec(S::from_i32_spec(extent));
    let far = camera.plus_spec(S::from_i32_spec(viewport).over_spec(zoom));
    end.min_spec(far).minus_spec(S::from_i32_spec(start).max_spec(camera)).max_spec(
        S::from_i32_spec(0),
    )
}

fn shown_extent<S: Scalar>(start: i32, extent: i32, camera: S, viewport: i32, zoom: S) -> (r: S)
    ensures
        r == shown_extent_spec(start, extent, camera, viewport, zoom),
{
    let end = S::from_i32(start).plus(S::from_i32(extent));
    let far = camera.plus(S::from_i32(viewport).over(zoom));
    end.min(far).minus(S::from_i32(start).max(camera)).max(S::from_i32(0))
}

/// The share of a canvas rectangle's area that shows under a viewport; none of one
/// without area.
pub open spec fn visible_fraction_spec<S: Scalar>(
    loc: Point<i32>,
    size: Size<i32>,
    camera: Point<S>,
    viewport: Size<i32>,
    zoom: S,
) -> S {
    let area = S::from_i32_spec(size.w).times_spec(S::from_i32_spec(size.h));
    if S::from_i32_spec(0).lt_spec(area) {
        shown_extent_spec(loc.x, size.w, camera.x, viewport.w, zoom).times_spec(
            shown_extent_spec(loc.y, size.h, camera.y, viewport.h, zoom),
        ).over_spec(area)
    } else {
        S::from_i32_spec(0)
    }
}

/// The share of a canvas rectangle's area that shows under a viewport; none of one
/// without area.
pub fn visible_fraction<S: Scalar>(
    loc: Point<i32>,
    size: Size<i32>,
    camera: Point<S>,
    viewport: Size<i32>,
    zoom: S,
) -> (r: S)
    ensures
        r == visible_fraction_spec(loc, size, camera, viewport, zoom),
{
    let area = S::from_i32(size.w).times(S::from_i32(size.h));
    if S::from_i32(0).lt(area) {
        shown_extent(loc.x, size.w, camera.x, viewport.w, zoom).times(
            shown_extent(loc.y, size.h, camera.y, viewport.h, zoom),
        ).over(area)
    } else {
        S::from_i32(0)
    }
}

/// How much two spans have in common.
pub open spec fn span_overlap(a_start: int, a_end: int, b_start: int, b_end: int) -> int {
    let start = if a_start < b_start {
        b_start
    } else {
        a_start
    };
    let end = if a_end < b_end {
        a_end
    } else {
        b_end
    };
    if start < end {
        end - start
    } else {
        0
    }
}

/// How many steps of the span that starts at pixel `start` and is `extent` pixels long
/// are in the canvas that one axis of a viewport shows, which starts at `camera` and is
/// the viewport's extent over the zoom long.
pub open spec fn steps_shown(
    start: i32,
    extent: i32,
    camera: Fixed,
    viewport: i32,
    zoom: Fixed,
) -> int {
    span_overlap(
        start * ONE,
        (start + extent) * ONE,
        camera.steps as int,
        camera.plus_spec(Fixed::from_i32_spec(viewport).over_spec(zoom)).steps as int,
    )
}

#[verifier::spinoff_prover]
proof fn lemma_shown_extent(start: i32, extent: i32, camera: Fixed, viewport: i32, zoom: Fixed)
    requires
        extent > 0,
    ensures
        shown_extent_spec(start, extent, camera, viewport, zoom).steps == steps_shown(
            start,
            extent,
            camera,
            viewport,
            zoom,
        ),
        0 <= steps_shown(start, extent, camera, viewport, zoom) <= extent * ONE,
{
}

/// The visible fraction is the area that the window and the canvas shown have in common
/// over the window's area, cut to a step: times the window's area it is the common area,
/// to within a step of the window's and a step of its own. It is 1 of a window that
/// shows whole, and 0 of one that does not show. Areas are in square steps.
#[verifier::spinoff_prover]
pub proof fn law_visible_fraction_is_a_share_of_area(
    loc: Point<i32>,
    size: Size<i32>,
    camera: Point<Fixed>,
    viewport: Size<i32>,
    zoom: Fixed,
)
    requires
        size.w > 0,
        size.h > 0,
        zoom.steps > 0,
        // The window's area is representable.
        size.w * size.h * ONE <= i64::MAX,
    ensures
        ({
            let fraction = visible_fraction_spec(loc, size, camera, viewport, zoom);
            let area = size.w * size.h * ONE;
            let w = steps_shown(loc.x, size.w, camera.x, viewport.w, zoom);
            let h = steps_shown(loc.y, size.h, camera.y, viewport.h, zoom);
            &&& in_unit(fraction)
            &&& w * h - area - ONE < fraction.steps * area <= w * h
            &&& w == size.w * ONE && h == size.h * ONE ==> fraction.steps == ONE
            &&& w == 0 || h == 0 ==> fraction.steps == 0
        }),
{
    lemma_shown_extent(loc.x, size.w, camera.x, viewport.w, zoom);
    lemma_shown_extent(loc.y, size.h, camera.y, viewport.h, zoom);
    let w = steps_shown(loc.x, size.w, camera.x, viewport.w, zoom);
    let h = steps_shown(loc.y, size.h, camera.y, viewport.h, zoom);
    let n = size.w * size.h;
    let area = n * ONE;
    let whole = Fixed::from_i32_spec(size.w).times_spec(Fixed::from_i32_spec(size.h));
    assert(n >= 1) by (nonlinear_arith)
        requires
            size.w >= 1,
            size.h >= 1,
            n == size.w * size.h,
    ;
    assert((size.w * ONE) * (size.h * ONE) == area * ONE) by (nonlinear_arith)
        requires
            area == size.w * size.h * ONE,
    ;
    assert(whole.steps == area);
    assert(0 <= w * h <= area * ONE) by (nonlinear_arith)
        requires
            0 <= w <= size.w * ONE,
            0 <= h <= size.h * ONE,
            (size.w * ONE) * (size.h * ONE) == area * ONE,
    ;
    let common = shown_extent_spec(loc.x, size.w, camera.x, viewport.w, zoom).times_spec(
        shown_extent_spec(loc.y, size.h, camera.y, viewport.h, zoom),
    );
    assert(common.steps == (w * h) / (ONE as int));
    assert(0 <= common.steps <= area);
    let fraction = common.over_spec(whole);
    assert(fraction == visible_fraction_spec(loc, size, camera, viewport, zoom));
    lemma_quotient_returns(common, whole);
    let q = (common.steps * ONE) / area;
    assert(0 <= q <= ONE && q * area <= common.steps * ONE) by (nonlinear_arith)
        requires
            q == (common.steps * ONE) / area,
            0 < area,
            0 <= common.steps <= area,
            ONE == 1048576,
    ;
    assert(fraction.steps == q);
    if w == size.w * ONE && h == size.h * ONE {
        assert(common.steps == area);
        assert((area * ONE) / area == ONE) by (nonlinear_arith)
            requires
                0 < area,
        ;
    }
    if w == 0 || h == 0 {
        assert(w * h == 0) by (nonlinear_arith)
            requires
                w == 0 || h == 0,
        ;
        assert(0int / area == 0) by (nonlinear_arith)
            requires
                0 < area,
        ;
    }
}

/// The camera position under which `canvas` shows at `screen` at the given zoom.
pub open spec fn camera_showing_spec<S: Scalar>(
    canvas: Point<S>,
    screen: Point<S>,
    zoom: S,
) -> Point<S> {
    Point {
        x: canvas.x.minus_spec(screen.x.over_spec(zoom)),
        y: canvas.y.minus_spec(screen.y.over_spec(zoom)),
    }
}

/// What is written to the active output's viewport is what is read back, and no other
/// output sees it.
pub proof fn law_written_viewport_reads_back<S: Scalar>(
    before: DriftWm<S>,
    after: DriftWm<S>,
    state: OutputState<S>,
    other: int,
)
    requires
        before.active() is Some,
        after.outputs@ == with_state(before.outputs@, before.active()->0, state),
        after.focused_output == before.focused_output,
    ensures
        after.active() == before.active(),
        after.outputs[after.active()->0].state == state,
        after.camera_spec() == state.camera,
        after.zoom_spec() == state.zoom,
        after.outputs.len() == before.outputs.len(),
        0 <= other < before.outputs.len() && other != before.active()->0 ==> after.outputs[other]
            == before.outputs[other],
{
}

/// A flight to an anchor arrives at it: under the camera it aims at, at the zoom it
/// aims at, the canvas point shows exactly at the screen point.
pub proof fn law_anchor_arrives(canvas: Point<Fixed>, screen: Point<Fixed>, zoom: Fixed)
    requires
        // The camera is representable.
        i64::MIN <= canvas.x.steps - screen.x.over_spec(zoom).steps <= i64::MAX,
        i64::MIN <= canvas.y.steps - screen.y.over_spec(zoom).steps <= i64::MAX,
    ensures
        screen_to_canvas_spec(screen, camera_showing_spec(canvas, screen, zoom), zoom) == canvas,
{
}

/// Without an active output nothing divides by zero and nothing is out of range: the
/// zoom is 1, and the center of the usable area is the center of one pixel.
pub proof fn law_no_output_defaults(wm: DriftWm<Fixed>)
    requires
        wm.active() is None,
    ensures
        wm.zoom_spec().steps == ONE,
        wm.camera_spec() == (Point { x: Fixed { steps: 0 }, y: Fixed { steps: 0 } }),
        2 * wm.usable_center_spec().x.steps == ONE,
        2 * wm.usable_center_spec().y.steps == ONE,
{
}

} // verus!
