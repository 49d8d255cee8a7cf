//! Windows that have left the stage and still fade: the picture taken of a closing
//! window, and the stand-in that a live window has adopted.
//!
//! The textures themselves belong to the renderer. What is kept of one is whatever
//! handle `T` the caller draws it by.

use vstd::prelude::*;

use crate::fixed::{
    advanced, in_unit, law_progress_advances, law_progress_arrives, lemma_share, lemma_times_unit,
    Fixed, ONE,
};
use crate::geometry::{covers, law_merge_is_the_least_cover, ordinary, Point, Rect, Size};
use crate::scalar::{
    advance, advance_spec, done_epsilon, done_epsilon_spec, half, half_spec, unit_clamp,
    unit_clamp_spec, Scalar,
};

verus! {

/// How a surface shows its buffer: where it sits within its parent, which part of
/// the buffer it shows, and at what size.
#[derive(Debug, PartialEq)]
pub struct SurfaceView<S> {
    pub offset: Point<i32>,
    pub src: Rect<S>,
    pub dst: Size<i32>,
}

impl<S: Copy> Clone for SurfaceView<S> {
    fn clone(&self) -> (r: Self)
        ensures
            r == *self,
    {
        *self
    }
}

impl<S: Copy> Copy for SurfaceView<S> {

}

/// One surface of a captured window: its texture, and where it sits relative to the
/// window's origin before any scaling.
#[derive(Debug, PartialEq)]
pub struct BakedSurface<S, T> {
    pub buffer: T,
    pub location: Point<S>,
    pub src: Rect<S>,
    pub dst: Size<i32>,
}

impl<S: Scalar, T> BakedSurface<S, T> {
    /// What the surface covers.
    pub open spec fn extent(self) -> Rect<S> {
        Rect { loc: self.location, size: self.dst.scalar_spec::<S>() }
    }
}

/// The textures of a window's surfaces, top-most first, taken while its buffers were
/// still there. They outlive those buffers, whatever order the client tears its
/// surfaces down in.
#[derive(Debug, PartialEq)]
pub struct ClosePixels<S, T> {
    pub surfaces: Vec<BakedSurface<S, T>>,
    /// What the surfaces cover together.
    pub bounds: Rect<S>,
}

/// The smallest rectangle around all of `surfaces`.
pub open spec fn content_bounds<S: Scalar, T>(surfaces: Seq<BakedSurface<S, T>>) -> Rect<S>
    decreases surfaces.len(),
{
    if surfaces.len() <= 1 {
        surfaces.last().extent()
    } else {
        content_bounds(surfaces.drop_last()).merged_spec(surfaces.last().extent())
    }
}

/// Whether a rectangle has an interior.
pub open spec fn has_area<S: Scalar>(rect: Rect<S>) -> bool {
    &&& S::from_i32_spec(0).lt_spec(rect.size.w)
    &&& S::from_i32_spec(0).lt_spec(rect.size.h)
}

/// Where the children of a surface are placed from, for a surface within a parent at
/// `at`. A surface that shows nothing hides its children too: `None`.
pub fn child_origin<S: Scalar>(view: Option<SurfaceView<S>>, at: Point<S>) -> (r: Option<Point<S>>)
    ensures
        r == match view {
            Some(view) => Some(at.shifted_spec(view.offset.scalar_spec::<S>())),
            None => None,
        },
{
    match view {
        Some(view) => Some(at.shifted(view.offset.scalar())),
        None => None,
    }
}

/// What is captured of a surface within a parent at `at`, given the texture its
/// buffer was imported to: nothing unless it shows something and has one.
pub fn bake_surface<S: Scalar, T>(
    view: Option<SurfaceView<S>>,
    at: Point<S>,
    buffer: Option<T>,
) -> (r: Option<BakedSurface<S, T>>)
    ensures
        r == match (view, buffer) {
            (Some(view), Some(buffer)) => Some(
                BakedSurface {
                    buffer,
                    location: at.shifted_spec(view.offset.scalar_spec::<S>()),
                    src: view.src,
                    dst: view.dst,
                },
            ),
            _ => None,
        },
{
    match (view, buffer) {
        (Some(view), Some(buffer)) => Some(
            BakedSurface {
                buffer,
                location: at.shifted(view.offset.scalar()),
                src: view.src,
                dst: view.dst,
            },
        ),
        _ => None,
    }
}

/// The capture of a window from what was captured of its surfaces, top-most first.
/// `None` for a window that never drew anything, or nothing with an area.
pub fn capture_close_pixels<S: Scalar, T>(surfaces: Vec<BakedSurface<S, T>>) -> (r: Option<
    ClosePixels<S, T>,
>)
    ensures
        r == if surfaces.len() > 0 && has_area(content_bounds(surfaces@)) {
            Some(ClosePixels { surfaces, bounds: content_bounds(surfaces@) })
        } else {
            None
        },
{
    if surfaces.len() == 0 {
        return None;
    }
    let mut bounds = Rect { loc: surfaces[0].location, size: surfaces[0].dst.scalar() };
    for k in 1..surfaces.len()
        invariant
            surfaces.len() > 0,
            bounds == content_bounds(surfaces@.take(k as int)),
    {
        let extent = Rect { loc: surfaces[k].location, size: surfaces[k].dst.scalar() };
        bounds = bounds.merged(extent);
        assert(surfaces@.take(k + 1).drop_last() =~= surfaces@.take(k as int));
    }
    assert(surfaces@.take(surfaces@.len() as int) =~= surfaces@);
    let zero = S::from_i32(0);
    if zero.lt(bounds.size.w) && zero.lt(bounds.size.h) {
        Some(ClosePixels { surfaces, bounds })
    } else {
        None
    }
}

/// How to rasterize a capture into one texture.
#[derive(Debug, PartialEq)]
pub struct BakePlan<S> {
    /// How many of its own pixels the texture has for a logical one.
    pub scale: S,
    /// What the texture covers, relative to the window's origin.
    pub bounds: Rect<S>,
    /// The extent of the texture in its own pixels.
    pub size: Size<i32>,
    /// Which surface to paint, and where on the texture, first to last.
    pub paint: Vec<(usize, Point<S>)>,
    /// Where on the texture to paint the title bar, after the surfaces, and at what
    /// size before scaling.
    pub bar: Option<(Point<S>, Size<i32>)>,
}

/// What the texture of a capture covers: its content, and the title bar if it has
/// one.
pub open spec fn bake_bounds<S: Scalar>(content: Rect<S>, ssd_bar: Option<Rect<S>>) -> Rect<S> {
    match ssd_bar {
        Some(bar) => content.merged_spec(bar),
        None => content,
    }
}

/// The extent, in its own pixels, of a texture that covers `bounds` at `scale`.
pub open spec fn bake_size<S: Scalar>(bounds: Rect<S>, scale: S) -> Size<i32> {
    Size {
        w: bounds.size.w.times_spec(scale).ceil_spec(),
        h: bounds.size.h.times_spec(scale).ceil_spec(),
    }
}

/// Where on a texture that covers `bounds` at `scale` the position `at` is.
pub open spec fn on_texture<S: Scalar>(at: Point<S>, bounds: Rect<S>, scale: S) -> Point<S> {
    at.relative_spec(bounds.loc).scaled_spec(scale)
}

impl<S: Scalar> BakePlan<S> {
    /// Whether this is the plan for a capture at `scale`, with the title bar at
    /// `ssd_bar`. A capture lists its surfaces top-most first and a texture is
    /// painted from the bottom up, so they come in reverse.
    pub open spec fn bakes<T>(
        self,
        pixels: ClosePixels<S, T>,
        scale: S,
        ssd_bar: Option<Rect<S>>,
    ) -> bool {
        let n = pixels.surfaces@.len();
        &&& self.scale == scale
        &&& self.bounds == bake_bounds(pixels.bounds, ssd_bar)
        &&& self.size == bake_size(self.bounds, scale)
        &&& self.paint@ =~= Seq::new(
            n,
            |k: int|
                (
                    (n - 1 - k) as usize,
                    on_texture(pixels.surfaces[n - 1 - k].location, self.bounds, scale),
                ),
        )
        &&& self.bar == match ssd_bar {
            Some(bar) => Some(
                (on_texture(bar.loc, self.bounds, scale), bar.size.rounded_spec()),
            ),
            None => None,
        }
    }
}

/// Whether a capture comes out with an extent when rasterized at `scale`.
pub open spec fn bakeable<S: Scalar>(content: Rect<S>, scale: S, ssd_bar: Option<Rect<S>>) -> bool {
    let size = bake_size(bake_bounds(content, ssd_bar), scale);
    size.w > 0 && size.h > 0
}

/// The plan for rasterizing a capture, and the title bar at `ssd_bar` with it, into
/// one texture. `None` if that would have no extent. Border and shadow stay out.
pub fn flatten<S: Scalar, T>(
    pixels: &ClosePixels<S, T>,
    flatten_scale: S,
    ssd_bar: Option<Rect<S>>,
) -> (r: Option<BakePlan<S>>)
    ensures
        r is Some <==> bakeable(pixels.bounds, flatten_scale, ssd_bar),
        r matches Some(plan) ==> plan.bakes(*pixels, flatten_scale, ssd_bar),
{
    let bounds = match ssd_bar {
        Some(bar) => pixels.bounds.merged(bar),
        None => pixels.bounds,
    };
    let size = Size {
        w: bounds.size.w.times(flatten_scale).ceil(),
        h: bounds.size.h.times(flatten_scale).ceil(),
    };
    if size.w <= 0 || size.h <= 0 {
        return None;
    }
    let n: usize = pixels.surfaces.len();
    let mut paint: Vec<(usize, Point<S>)> = Vec::new();
    for k in 0..n
        invariant
            n == pixels.surfaces.len(),
            paint@ == Seq::new(
                k as nat,
                |j: int|
                    (
                        (n - 1 - j) as usize,
                        on_texture(pixels.surfaces[n - 1 - j].location, bounds, flatten_scale),
                    ),
            ),
    {
        let surface: usize = n - 1 - k;
        let at = pixels.surfaces[surface].location.relative(bounds.loc).scaled(flatten_scale);
        paint.push((surface, at));
    }
    let bar = match ssd_bar {
        Some(bar) => Some(
            (bar.loc.relative(bounds.loc).scaled(flatten_scale), bar.size.rounded()),
        ),
        None => None,
    };
    Some(BakePlan { scale: flatten_scale, bounds, size, paint, bar })
}

/// The picture of a closed window while it fades, as one texture. It sits on the
/// canvas, so that every output places it through its own camera and zoom, or on the
/// screen of one output.
#[derive(Debug, PartialEq)]
pub struct ClosingSnapshot<S, T> {
    pub buffer: T,
    /// What it covers on the canvas; without meaning for one that is on a screen.
    pub canvas_rect: Rect<S>,
    /// The output whose screen it is on, and what it covers there at zoom 1.
    pub pinned: Option<(String, Rect<i32>)>,
    /// Fade in place, without shrinking.
    pub alpha_only: bool,
    /// The scale it shrinks to.
    pub scale_amplitude: S,
    pub progress: S,
}

/// The scale to rasterize a closing window at: what its output shows it at, and never
/// below its own resolution.
pub open spec fn bake_scale_spec<S: Scalar>(flatten_scale: S) -> S {
    flatten_scale.max_spec(S::from_i32_spec(1))
}

/// Whether `bounds` relative to `screen_origin` has a representable corner.
pub open spec fn fits_on_screen<S: Scalar>(bounds: Rect<S>, screen_origin: Point<i32>) -> bool {
    &&& i32::MIN <= screen_origin.x + bounds.loc.x.round_spec() <= i32::MAX
    &&& i32::MIN <= screen_origin.y + bounds.loc.y.round_spec() <= i32::MAX
}

impl<S: Scalar, T> ClosingSnapshot<S, T> {
    /// The snapshot of a window at `window_origin` on the canvas, from a texture that
    /// covers `bounds` relative to it.
    pub open spec fn on_canvas_spec(
        buffer: T,
        bounds: Rect<S>,
        window_origin: Point<S>,
        scale_amplitude: S,
        alpha_only: bool,
    ) -> Self {
        ClosingSnapshot {
            buffer,
            canvas_rect: Rect { loc: window_origin.shifted_spec(bounds.loc), size: bounds.size },
            pinned: None,
            alpha_only,
            scale_amplitude,
            progress: S::from_i32_spec(0),
        }
    }

    /// The snapshot of a window at `window_origin` on the canvas, from a texture that
    /// covers `bounds` relative to it.
    pub fn on_canvas(
        buffer: T,
        bounds: Rect<S>,
        window_origin: Point<S>,
        scale_amplitude: S,
        alpha_only: bool,
    ) -> (r: Self)
        ensures
            r == Self::on_canvas_spec(buffer, bounds, window_origin, scale_amplitude, alpha_only),
    {
        ClosingSnapshot {
            buffer,
            canvas_rect: Rect { loc: window_origin.shifted(bounds.loc), size: bounds.size },
            pinned: None,
            alpha_only,
            scale_amplitude,
            progress: S::from_i32(0),
        }
    }

    /// The snapshot of a window at `screen_origin` on the screen of `output`, from a
    /// texture that covers `bounds` relative to it.
    pub open spec fn on_screen_spec(
        buffer: T,
        bounds: Rect<S>,
        output: String,
        screen_origin: Point<i32>,
        scale_amplitude: S,
        alpha_only: bool,
    ) -> Self {
        let zero = S::from_i32_spec(0);
        ClosingSnapshot {
            buffer,
            canvas_rect: Rect {
                loc: Point { x: zero, y: zero },
                size: Size { w: zero, h: zero },
            },
            pinned: Some(
                (
                    output,
                    Rect {
                        loc: Point {
                            x: (screen_origin.x + bounds.loc.x.round_spec()) as i32,
                            y: (screen_origin.y + bounds.loc.y.round_spec()) as i32,
                        },
                        size: bounds.size.rounded_spec(),
                    },
                ),
            ),
            alpha_only,
            scale_amplitude,
            progress: zero,
        }
    }

    /// The snapshot of a window at `screen_origin` on the screen of `output`, from a
    /// texture that covers `bounds` relative to it.
    pub fn on_screen(
        buffer: T,
        bounds: Rect<S>,
        output: String,
        screen_origin: Point<i32>,
        scale_amplitude: S,
        alpha_only: bool,
    ) -> (r: Self)
        requires
            fits_on_screen(bounds, screen_origin),
        ensures
            r == Self::on_screen_spec(
                buffer,
                bounds,
                output,
                screen_origin,
                scale_amplitude,
                alpha_only,
            ),
    {
        let zero = S::from_i32(0);
        let screen_rect = Rect {
            loc: Point {
                x: screen_origin.x + bounds.loc.x.round(),
                y: screen_origin.y + bounds.loc.y.round(),
            },
            size: bounds.size.rounded(),
        };
        ClosingSnapshot {
            buffer,
            canvas_rect: Rect {
                loc: Point { x: zero, y: zero },
                size: Size { w: zero, h: zero },
            },
            pinned: Some((output, screen_rect)),
            alpha_only,
            scale_amplitude,
            progress: zero,
        }
    }
}

/// The snapshot of a closing canvas window. `rasterize` draws a plan into a texture,
/// or fails to. Nothing comes back if there is nothing to draw or drawing failed.
pub fn snapshot_canvas<S: Scalar, T, U>(
    pixels: &ClosePixels<S, T>,
    window_origin: Point<S>,
    flatten_scale: S,
    scale_amplitude: S,
    alpha_only: bool,
    ssd_bar: Option<Rect<S>>,
    rasterize: impl FnOnce(&BakePlan<S>) -> Option<U>,
) -> (r: Option<ClosingSnapshot<S, U>>)
    requires
        forall|plan: &BakePlan<S>|
            plan.bakes(*pixels, bake_scale_spec(flatten_scale), ssd_bar) ==> #[trigger] call_requires(
                rasterize,
                (plan,),
            ),
    ensures
        !bakeable(pixels.bounds, bake_scale_spec(flatten_scale), ssd_bar) ==> r is None,
        bakeable(pixels.bounds, bake_scale_spec(flatten_scale), ssd_bar) ==> exists|
            plan: &BakePlan<S>,
            texture: Option<U>,
        |
            plan.bakes(*pixels, bake_scale_spec(flatten_scale), ssd_bar)
                && #[trigger] call_ensures(rasterize, (plan,), texture) && r == match texture {
                Some(buffer) => Some(
                    ClosingSnapshot::on_canvas_spec(
                        buffer,
                        bake_bounds(pixels.bounds, ssd_bar),
                        window_origin,
                        scale_amplitude,
                        alpha_only,
                    ),
                ),
                None => None,
            },
{
    let plan = match flatten(pixels, flatten_scale.max(S::from_i32(1)), ssd_bar) {
        Some(plan) => plan,
        None => {
            return None;
        },
    };
    match rasterize(&plan) {
        Some(buffer) => Some(
            ClosingSnapshot::on_canvas(
                buffer,
                plan.bounds,
                window_origin,
                scale_amplitude,
                alpha_only,
            ),
        ),
        None => None,
    }
}

/// Whether [`snapshot_screen`] has a corner to put the snapshot at, or no snapshot to
/// make.
pub fn fits_screen<S: Scalar, T>(
    pixels: &ClosePixels<S, T>,
    screen_origin: Point<i32>,
    flatten_scale: S,
    ssd_bar: Option<Rect<S>>,
) -> (r: bool)
    ensures
        r == (bakeable(pixels.bounds, bake_scale_spec(flatten_scale), ssd_bar) ==> fits_on_screen(
            bake_bounds(pixels.bounds, ssd_bar),
            screen_origin,
        )),
{
    match flatten(pixels, flatten_scale.max(S::from_i32(1)), ssd_bar) {
        Some(plan) => screen_origin.x.checked_add(plan.bounds.loc.x.round()).is_some()
            && screen_origin.y.checked_add(plan.bounds.loc.y.round()).is_some(),
        None => true,
    }
}

/// The snapshot of a closing window on the screen of `output`: one that was pinned
/// there or covered it. See [`snapshot_canvas`] for `rasterize`.
pub fn snapshot_screen<S: Scalar, T, U>(
    pixels: &ClosePixels<S, T>,
    output: String,
    screen_origin: Point<i32>,
    flatten_scale: S,
    scale_amplitude: S,
    alpha_only: bool,
    ssd_bar: Option<Rect<S>>,
    rasterize: impl FnOnce(&BakePlan<S>) -> Option<U>,
) -> (r: Option<ClosingSnapshot<S, U>>)
    requires
        bakeable(pixels.bounds, bake_scale_spec(flatten_scale), ssd_bar) ==> fits_on_screen(
            bake_bounds(pixels.bounds, ssd_bar),
            screen_origin,
        ),
        forall|plan: &BakePlan<S>|
            plan.bakes(*pixels, bake_scale_spec(flatten_scale), ssd_bar) ==> #[trigger] call_requires(
                rasterize,
                (plan,),
            ),
    ensures
        !bakeable(pixels.bounds, bake_scale_spec(flatten_scale), ssd_bar) ==> r is None,
        bakeable(pixels.bounds, bake_scale_spec(flatten_scale), ssd_bar) ==> exists|
            plan: &BakePlan<S>,
            texture: Option<U>,
        |
            plan.bakes(*pixels, bake_scale_spec(flatten_scale), ssd_bar)
                && #[trigger] call_ensures(rasterize, (plan,), texture) && r == match texture {
                Some(buffer) => Some(
                    ClosingSnapshot::on_screen_spec(
                        buffer,
                        bake_bounds(pixels.bounds, ssd_bar),
                        output,
                        screen_origin,
                        scale_amplitude,
                        alpha_only,
                    ),
                ),
                None => None,
            },
{
    let plan = match flatten(pixels, flatten_scale.max(S::from_i32(1)), ssd_bar) {
        Some(plan) => plan,
        None => {
            return None;
        },
    };
    match rasterize(&plan) {
        Some(buffer) => Some(
            ClosingSnapshot::on_screen(
                buffer,
                plan.bounds,
                output,
                screen_origin,
                scale_amplitude,
                alpha_only,
            ),
        ),
        None => None,
    }
}

/// How opaque a fading picture is.
pub open spec fn fade_alpha<S: Scalar>(progress: S) -> S {
    unit_clamp_spec(S::from_i32_spec(1).minus_spec(progress))
}

/// Whether a fade has ended.
pub open spec fn faded<S: Scalar>(progress: S) -> bool {
    S::from_i32_spec(1).minus_spec(progress).le_spec(done_epsilon_spec::<S>())
}

/// How to draw a snapshot on an output.
#[derive(Debug, PartialEq)]
pub struct ClosingElement<S> {
    /// Where its corner goes, in the output's own pixels.
    pub loc: Point<S>,
    /// The logical size it is drawn at, before shrinking.
    pub size: Size<i32>,
    pub alpha: S,
    /// What it shrinks about, in the output's own pixels.
    pub center: Point<S>,
    /// How far it has shrunk.
    pub scale: S,
}

/// How to draw a picture that covers a logical rectangle of an output's screen.
pub open spec fn element_at<S: Scalar>(
    screen_loc: Point<S>,
    screen_size: Size<S>,
    output_scale: S,
    alpha: S,
    scale: S,
) -> ClosingElement<S> {
    let loc = screen_loc.scaled_spec(output_scale);
    let size = screen_size.scaled_spec(output_scale);
    ClosingElement {
        loc,
        size: screen_size.rounded_spec(),
        alpha,
        center: Point {
            x: loc.x.plus_spec(half_spec(size.w)),
            y: loc.y.plus_spec(half_spec(size.h)),
        },
        scale,
    }
}

impl<S: Scalar, T> ClosingSnapshot<S, T> {
    /// Advance the fade.
    pub fn tick(&mut self, frame_factor: S)
        ensures
            *final(self) == (ClosingSnapshot {
                progress: advance_spec(old(self).progress, frame_factor),
                ..*old(self)
            }),
    {
        self.progress = advance(self.progress, frame_factor);
    }

    /// Whether the fade has ended.
    pub fn is_done(&self) -> (r: bool)
        ensures
            r == faded(self.progress),
    {
        S::from_i32(1).minus(self.progress).le(done_epsilon())
    }

    /// What the snapshot covers on the canvas; without meaning for one that is on a
    /// screen, which [`ClosingSnapshot::pinned_output`] tells.
    pub fn canvas_rect(&self) -> (r: Rect<S>)
        ensures
            r == self.canvas_rect,
    {
        self.canvas_rect
    }

    /// The output whose screen the snapshot is on, if it is on one.
    pub fn pinned_output(&self) -> (r: Option<&str>)
        ensures
            match self.pinned {
                Some((output, _)) => r matches Some(name) && name@ == output@,
                None => r is None,
            },
    {
        match &self.pinned {
            Some((output, _)) => Some(output.as_str()),
            None => None,
        }
    }

    /// How far the snapshot has shrunk.
    pub open spec fn shrink(&self) -> S {
        let one = S::from_i32_spec(1);
        if self.alpha_only {
            one
        } else {
            one.minus_spec(one.minus_spec(self.scale_amplitude).times_spec(self.progress))
        }
    }

    /// How to draw the snapshot on the named output, seen through its camera and
    /// zoom: one that is on a screen only on that output, and at zoom 1.
    pub open spec fn element_on(
        &self,
        output_name: Seq<char>,
        camera: Point<S>,
        zoom: S,
        output_scale: S,
    ) -> Option<ClosingElement<S>> {
        match self.pinned {
            Some((output, screen_rect)) => if output@ == output_name {
                Some(
                    element_at(
                        screen_rect.loc.scalar_spec::<S>(),
                        screen_rect.size.scalar_spec::<S>(),
                        output_scale,
                        fade_alpha(self.progress),
                        self.shrink(),
                    ),
                )
            } else {
                None
            },
            None => Some(
                element_at(
                    self.canvas_rect.loc.relative_spec(camera).scaled_spec(zoom),
                    self.canvas_rect.size.scaled_spec(zoom),
                    output_scale,
                    fade_alpha(self.progress),
                    self.shrink(),
                ),
            ),
        }
    }

    /// How to draw the snapshot on the named output, or `None` if it does not belong
    /// there.
    pub fn render_element(
        &self,
        output_name: &String,
        camera: Point<S>,
        zoom: S,
        output_scale: S,
    ) -> (r: Option<ClosingElement<S>>)
        ensures
            r == self.element_on(output_name@, camera, zoom, output_scale),
    {
        let one = S::from_i32(1);
        let alpha = unit_clamp(one.minus(self.progress));
        let scale = if self.alpha_only {
            one
        } else {
            one.minus(one.minus(self.scale_amplitude).times(self.progress))
        };
        let (screen_loc, screen_size): (Point<S>, Size<S>) = match &self.pinned {
            Some((output, screen_rect)) => {
                if !output.eq(output_name) {
                    return None;
                }
                (screen_rect.loc.scalar(), screen_rect.size.scalar())
            },
            None => (
                self.canvas_rect.loc.relative(camera).scaled(zoom),
                self.canvas_rect.size.scaled(zoom),
            ),
        };
        let loc = screen_loc.scaled(output_scale);
        let size = screen_size.scaled(output_scale);
        let center = Point { x: loc.x.plus(half(size.w)), y: loc.y.plus(half(size.h)) };
        Some(ClosingElement { loc, size: screen_size.rounded(), alpha, center, scale })
    }

    /// Whether the snapshot may show on the named output, of which `visible` is on
    /// the canvas.
    pub open spec fn shows_on(&self, output_name: Seq<char>, visible: Rect<i32>) -> bool {
        match self.pinned {
            Some((output, _)) => output@ == output_name,
            None => visible.overlaps_spec(self.canvas_rect.rounded_spec()),
        }
    }
}

/// Which of the first `n` snapshots to draw on the named output, and how, in their
/// own order.
pub open spec fn elements_on<S: Scalar, T>(
    snapshots: Seq<ClosingSnapshot<S, T>>,
    n: int,
    output_name: Seq<char>,
    visible: Rect<i32>,
    camera: Point<S>,
    zoom: S,
    output_scale: S,
) -> Seq<(usize, ClosingElement<S>)>
    decreases n,
{
    if n <= 0 {
        Seq::empty()
    } else {
        let earlier = elements_on(
            snapshots,
            n - 1,
            output_name,
            visible,
            camera,
            zoom,
            output_scale,
        );
        let snapshot = snapshots[n - 1];
        match snapshot.element_on(output_name, camera, zoom, output_scale) {
            Some(element) if snapshot.shows_on(output_name, visible) => earlier.push(
                ((n - 1) as usize, element),
            ),
            _ => earlier,
        }
    }
}

/// Which snapshots to draw on the named output, by index, and how: those on its own
/// screen, and those on the canvas that overlap what it shows of it. They come in the
/// order given.
pub fn render_snapshots_for_output<S: Scalar, T>(
    snapshots: &Vec<ClosingSnapshot<S, T>>,
    output_name: &String,
    visible: Rect<i32>,
    camera: Point<S>,
    zoom: S,
    output_scale: S,
) -> (r: Vec<(usize, ClosingElement<S>)>)
    ensures
        r@ == elements_on(
            snapshots@,
            snapshots@.len() as int,
            output_name@,
            visible,
            camera,
            zoom,
            output_scale,
        ),
{
    let mut elements: Vec<(usize, ClosingElement<S>)> = Vec::new();
    for k in 0..snapshots.len()
        invariant
            elements@ == elements_on(
                snapshots@,
                k as int,
                output_name@,
                visible,
                camera,
                zoom,
                output_scale,
            ),
    {
        let snapshot = &snapshots[k];
        let shows = match &snapshot.pinned {
            Some((output, _)) => output.eq(output_name),
            None => visible.overlaps(snapshot.canvas_rect.rounded()),
        };
        if shows {
            if let Some(element) = snapshot.render_element(output_name, camera, zoom, output_scale) {
                elements.push((k, element));
            }
        }
    }
    elements
}

/// A suspended stand-in that fades out over the live window that adopted its slot.
#[derive(Debug, PartialEq)]
pub struct AdoptionFade<S, W> {
    pub suspended: W,
    pub loc: Point<i32>,
    pub progress: S,
}

impl<S: Scalar, W> AdoptionFade<S, W> {
    /// Advance the fade.
    pub fn tick(&mut self, frame_factor: S)
        ensures
            *final(self) == (AdoptionFade {
                progress: advance_spec(old(self).progress, frame_factor),
                ..*old(self)
            }),
    {
        self.progress = advance(self.progress, frame_factor);
    }

    /// Whether the fade has ended.
    pub fn is_done(&self) -> (r: bool)
        ensures
            r == faded(self.progress),
    {
        S::from_i32(1).minus(self.progress).le(done_epsilon())
    }

    /// How opaque the stand-in still is.
    pub fn alpha(&self) -> (r: S)
        ensures
            r == fade_alpha(self.progress),
    {
        unit_clamp(S::from_i32(1).minus(self.progress))
    }
}

/// A capture's bounds cover every surface of it.
pub proof fn law_bounds_cover_the_content<T>(surfaces: Seq<BakedSurface<Fixed, T>>, k: int)
    requires
        0 <= k < surfaces.len(),
        forall|j: int| 0 <= j < surfaces.len() ==> ordinary((#[trigger] surfaces[j]).extent()),
    ensures
        covers(content_bounds(surfaces), surfaces[k].extent()),
        ordinary(content_bounds(surfaces)),
    decreases surfaces.len(),
{
    if surfaces.len() > 1 {
        let earlier = surfaces.drop_last();
        let last = surfaces[surfaces.len() - 1];
        assert forall|j: int| 0 <= j < earlier.len() implies ordinary(
            (#[trigger] earlier[j]).extent(),
        ) by {
            assert(ordinary(surfaces[j].extent()));
        }
        assert(ordinary(last.extent()));
        law_bounds_cover_the_content(
            earlier,
            if k < earlier.len() {
                k
            } else {
                0
            },
        );
        law_merge_is_the_least_cover(content_bounds(earlier), last.extent(), last.extent());
    }
}

/// And they are no larger than that takes: whatever covers every surface of a capture
/// covers its bounds.
pub proof fn law_bounds_are_least<T>(surfaces: Seq<BakedSurface<Fixed, T>>, other: Rect<Fixed>)
    requires
        surfaces.len() > 0,
        forall|j: int| 0 <= j < surfaces.len() ==> ordinary((#[trigger] surfaces[j]).extent()),
        forall|j: int|
            0 <= j < surfaces.len() ==> covers(other, (#[trigger] surfaces[j]).extent()),
    ensures
        covers(other, content_bounds(surfaces)),
    decreases surfaces.len(),
{
    let last = surfaces[surfaces.len() - 1];
    assert(covers(other, last.extent()));
    if surfaces.len() > 1 {
        let earlier = surfaces.drop_last();
        assert forall|j: int| 0 <= j < earlier.len() implies ordinary(
            (#[trigger] earlier[j]).extent(),
        ) && covers(other, earlier[j].extent()) by {
            assert(ordinary(surfaces[j].extent()));
            assert(covers(other, surfaces[j].extent()));
        }
        assert(ordinary(last.extent()));
        law_bounds_are_least(earlier, other);
        law_bounds_cover_the_content(earlier, 0);
        law_merge_is_the_least_cover(content_bounds(earlier), last.extent(), other);
    }
}

/// Every surface of a capture is painted, once, and over all those below it.
pub proof fn law_painted_from_the_bottom_up<S: Scalar, T>(
    plan: BakePlan<S>,
    pixels: ClosePixels<S, T>,
    scale: S,
    ssd_bar: Option<Rect<S>>,
    k: int,
)
    requires
        plan.bakes(pixels, scale, ssd_bar),
        0 <= k < pixels.surfaces.len(),
    ensures
        plan.paint.len() == pixels.surfaces.len(),
        plan.paint[plan.paint.len() - 1 - k] == (
            k as usize,
            on_texture(pixels.surfaces[k].location, plan.bounds, scale),
        ),
        forall|j: int|
            0 <= j < plan.paint.len() && (#[trigger] plan.paint[j]).0 == k ==> j
                == plan.paint.len() - 1 - k,
{
}

/// A closing window is never rasterized below its own resolution: the texture has a
/// pixel for every logical pixel it covers.
pub proof fn law_bake_keeps_the_resolution(bounds: Rect<Fixed>, flatten_scale: Fixed)
    requires
        0 <= bounds.size.w.steps,
        0 <= bounds.size.h.steps,
        // The texture's extent is representable.
        bounds.size.w.steps * bake_scale_spec(flatten_scale).steps <= i32::MAX * ONE * ONE,
        bounds.size.h.steps * bake_scale_spec(flatten_scale).steps <= i32::MAX * ONE * ONE,
    ensures
        ONE <= bake_scale_spec(flatten_scale).steps,
        bounds.size.w.steps <= bake_size(bounds, bake_scale_spec(flatten_scale)).w * ONE,
        bounds.size.h.steps <= bake_size(bounds, bake_scale_spec(flatten_scale)).h * ONE,
{
    let scale = bake_scale_spec(flatten_scale);
    lemma_ceil_keeps(bounds.size.w, scale);
    lemma_ceil_keeps(bounds.size.h, scale);
}

proof fn lemma_ceil_keeps(extent: Fixed, scale: Fixed)
    requires
        0 <= extent.steps,
        ONE <= scale.steps,
        extent.steps * scale.steps <= i32::MAX * ONE * ONE,
    ensures
        extent.steps <= extent.times_spec(scale).ceil_spec() * ONE,
{
    let product = extent.steps * scale.steps;
    assert(product >= extent.steps * ONE) by (nonlinear_arith)
        requires
            0 <= extent.steps,
            ONE <= scale.steps,
            product == extent.steps * scale.steps,
    ;
    assert(extent.steps <= product / (ONE as int) <= i32::MAX * ONE);
    assert(extent.times_spec(scale).steps == product / (ONE as int));
}

/// A snapshot that is on a screen is drawn on that output alone, and there wherever
/// the camera is and however far it is zoomed.
pub proof fn law_pinned_snapshot_stays_home<S: Scalar, T>(
    snapshot: ClosingSnapshot<S, T>,
    output_name: Seq<char>,
    camera: Point<S>,
    zoom: S,
    other_camera: Point<S>,
    other_zoom: S,
    output_scale: S,
)
    requires
        snapshot.pinned is Some,
    ensures
        snapshot.pinned matches Some((home, _)) ==> (snapshot.element_on(
            output_name,
            camera,
            zoom,
            output_scale,
        ) is Some <==> output_name == home@),
        snapshot.element_on(output_name, camera, zoom, output_scale) == snapshot.element_on(
            output_name,
            other_camera,
            other_zoom,
            output_scale,
        ),
{
}

/// The snapshots drawn on an output come in their own order, each at most once, and
/// they are exactly those that show there.
pub proof fn law_snapshots_keep_their_order<S: Scalar, T>(
    snapshots: Seq<ClosingSnapshot<S, T>>,
    n: int,
    output_name: Seq<char>,
    visible: Rect<i32>,
    camera: Point<S>,
    zoom: S,
    output_scale: S,
)
    requires
        0 <= n <= snapshots.len() <= usize::MAX,
    ensures
        ({
            let drawn = elements_on(
                snapshots,
                n,
                output_name,
                visible,
                camera,
                zoom,
                output_scale,
            );
            &&& forall|j: int|
                0 <= j < drawn.len() ==> (#[trigger] drawn[j]).0 < n && snapshots[drawn[j].0
                    as int].shows_on(output_name, visible) && snapshots[drawn[j].0
                    as int].element_on(output_name, camera, zoom, output_scale) == Some(drawn[j].1)
            &&& forall|i: int, j: int|
                0 <= i < j < drawn.len() ==> (#[trigger] drawn[i]).0 < (#[trigger] drawn[j]).0
            &&& forall|k: int|
                0 <= k < n && (#[trigger] snapshots[k]).shows_on(output_name, visible)
                    ==> exists|j: int| 0 <= j < drawn.len() && (#[trigger] drawn[j]).0 == k
        }),
    decreases n,
{
    if n > 0 {
        law_snapshots_keep_their_order(
            snapshots,
            n - 1,
            output_name,
            visible,
            camera,
            zoom,
            output_scale,
        );
        let earlier = elements_on(
            snapshots,
            n - 1,
            output_name,
            visible,
            camera,
            zoom,
            output_scale,
        );
        let drawn = elements_on(snapshots, n, output_name, visible, camera, zoom, output_scale);
        assert forall|k: int|
            0 <= k < n && (#[trigger] snapshots[k]).shows_on(
                output_name,
                visible,
            ) implies exists|j: int| 0 <= j < drawn.len() && (#[trigger] drawn[j]).0 == k by {
            if k < n - 1 {
                let j = choose|j: int| 0 <= j < earlier.len() && (#[trigger] earlier[j]).0 == k;
                assert(drawn[j].0 == k);
            } else {
                assert(drawn[drawn.len() - 1].0 == k);
            }
        }
    }
}

/// A fading picture is opaque when it starts, transparent when its progress is
/// complete, and in between its opacity only falls.
pub proof fn law_fade_falls(p: Fixed, q: Fixed)
    requires
        p.steps <= q.steps,
    ensures
        in_unit(fade_alpha(p)),
        fade_alpha(q).steps <= fade_alpha(p).steps,
        p.steps == 0 ==> fade_alpha(p).steps == ONE,
        p.steps == ONE ==> fade_alpha(p).steps == 0,
{
}

/// A closing window shrinks from its own size toward its amplitude and never past it;
/// one that only fades keeps its size.
pub proof fn law_shrink_stays_in_range<T>(snapshot: ClosingSnapshot<Fixed, T>)
    requires
        in_unit(snapshot.progress),
        in_unit(snapshot.scale_amplitude),
    ensures
        snapshot.scale_amplitude.steps <= snapshot.shrink().steps <= ONE,
        snapshot.alpha_only ==> snapshot.shrink().steps == ONE,
        snapshot.progress.steps == 0 ==> snapshot.shrink().steps == ONE,
        !snapshot.alpha_only && snapshot.progress.steps == ONE ==> snapshot.shrink()
            == snapshot.scale_amplitude,
{
    let one = Fixed::from_i32_spec(1);
    let room = one.minus_spec(snapshot.scale_amplitude);
    lemma_share(
        room.steps as int,
        snapshot.progress.steps as int,
        snapshot.progress.steps as int,
    );
    lemma_times_unit(room);
}

/// Every fade ends: ticked by a share worth counting, a ten-thousandth or more, it is
/// done within a fixed number of ticks.
pub proof fn law_fade_ends(progress: Fixed, factor: Fixed, n: nat)
    requires
        in_unit(progress),
        in_unit(factor),
        Fixed::from_i32_spec(1).over_spec(Fixed::from_i32_spec(10000)).le_spec(factor),
        n >= ONE,
    ensures
        faded(advanced(progress, factor, n)),
{
    law_progress_arrives(progress, factor, n);
}

/// A fade is not done before it has begun, nor once it is done does it start again.
pub proof fn law_done_stays_done(progress: Fixed, factor: Fixed)
    requires
        in_unit(progress),
        in_unit(factor),
    ensures
        !faded(Fixed::from_i32_spec(0)),
        faded(progress) ==> faded(advance_spec(progress, factor)),
{
    law_progress_advances(progress, factor);
}

/// A closing window starts where it was: its snapshot first shows opaque and at full
/// size, on what the window covered.
pub proof fn law_snapshot_starts_in_place<T>(
    buffer: T,
    bounds: Rect<Fixed>,
    window_origin: Point<Fixed>,
    scale_amplitude: Fixed,
    alpha_only: bool,
    output_name: Seq<char>,
    camera: Point<Fixed>,
    zoom: Fixed,
    output_scale: Fixed,
)
    requires
        in_unit(scale_amplitude),
    ensures
        ClosingSnapshot::on_canvas_spec(
            buffer,
            bounds,
            window_origin,
            scale_amplitude,
            alpha_only,
        ).element_on(output_name, camera, zoom, output_scale) == Some(
            element_at(
                window_origin.shifted_spec(bounds.loc).relative_spec(camera).scaled_spec(zoom),
                bounds.size.scaled_spec(zoom),
                output_scale,
                Fixed::from_i32_spec(1),
                Fixed::from_i32_spec(1),
            ),
        ),
{
    let snapshot = ClosingSnapshot::on_canvas_spec(
        buffer,
        bounds,
        window_origin,
        scale_amplitude,
        alpha_only,
    );
    law_shrink_stays_in_range(snapshot);
    law_fade_falls(snapshot.progress, snapshot.progress);
}

} // verus!
