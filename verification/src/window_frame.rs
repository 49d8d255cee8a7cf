//! Window frame geometry: the title bar that the compositor draws above a window's
//! content, border widths, and the conversions between a content corner and the
//! visual center of the frame around it.

use vstd::prelude::*;

use crate::fixed::{Fixed, ONE};
use crate::geometry::{Point, Size};
use crate::scalar::{half, half_spec, Scalar};
use crate::state::{
    entry_index, AppliedRule, DecorationConfig, DecorationMode, DriftWm, StageWindow, Window,
};

verus! {

broadcast use vstd::std_specs::hash::group_hash_axioms;

/// The decoration mode that applies: the rule's, else the default.
pub open spec fn effective_mode(
    rule: Option<AppliedRule>,
    default_mode: DecorationMode,
) -> DecorationMode {
    match rule {
        Some(rule) => match rule.decoration {
            Some(mode) => mode,
            None => default_mode,
        },
        None => default_mode,
    }
}

/// The border width that applies: none where nobody draws a frame, whatever the
/// rule says; else the rule's, else the configured one.
pub open spec fn effective_border(rule: Option<AppliedRule>, config: DecorationConfig) -> i32 {
    if effective_mode(rule, config.default_mode) is Off {
        0
    } else {
        match rule {
            Some(rule) => match rule.border_width {
                Some(width) => width,
                None => config.border_width,
            },
            None => config.border_width,
        }
    }
}

fn effective_border_width(rule: Option<AppliedRule>, config: DecorationConfig) -> (r: i32)
    ensures
        r == effective_border(rule, config),
{
    let (decoration, width) = match rule {
        Some(rule) => (rule.decoration, rule.border_width),
        None => (None, None),
    };
    let mode = match decoration {
        Some(mode) => mode,
        None => config.default_mode,
    };
    match mode {
        DecorationMode::Off => 0,
        _ => match width {
            Some(width) => width,
            None => config.border_width,
        },
    }
}

impl<S: Scalar> DriftWm<S> {
    /// The height of the title bar above `window`: every stand-in has one, and a
    /// client window whose surface the compositor decorates.
    pub open spec fn ssd_bar(&self, window: StageWindow) -> i32 {
        match window {
            StageWindow::Suspended(_) => self.decoration_config.title_bar_height,
            StageWindow::Client(w) => match w.surface {
                Some(surface) => if self.decorations@.contains(surface) {
                    self.decoration_config.title_bar_height
                } else {
                    0
                },
                None => 0,
            },
        }
    }

    /// The height of the title bar above `window`.
    pub fn window_ssd_bar(&self, window: &StageWindow) -> (r: i32)
        ensures
            r == self.ssd_bar(*window),
    {
        match window {
            StageWindow::Suspended(_) => self.decoration_config.title_bar_height,
            StageWindow::Client(w) => self.client_ssd_bar(w),
        }
    }

    /// The height of the title bar above a client window.
    pub fn client_ssd_bar(&self, window: &Window) -> (r: i32)
        ensures
            r == self.ssd_bar(StageWindow::Client(*window)),
    {
        match window.surface {
            Some(surface) => if self.decorations.contains(&surface) {
                self.decoration_config.title_bar_height
            } else {
                0
            },
            None => 0,
        }
    }

    /// The border width of an element that no rule applies to: what a relaunched
    /// client gets before its rule does.
    pub fn default_border_width(&self) -> (r: i32)
        ensures
            r == effective_border(None, self.decoration_config),
    {
        effective_border_width(None, self.decoration_config)
    }

    /// The rule applied to a surface.
    pub open spec fn rule_of(&self, surface: u64) -> Option<AppliedRule> {
        if self.rules@.contains_key(surface) {
            Some(self.rules@[surface])
        } else {
            None
        }
    }

    /// The border width of any element: by rule for a client, none for one whose
    /// surface is gone, the default for a stand-in.
    pub fn element_border_width(&self, w: &StageWindow) -> (r: i32)
        ensures
            r == match *w {
                StageWindow::Client(c) => match c.surface {
                    Some(surface) => effective_border(
                        self.rule_of(surface),
                        self.decoration_config,
                    ),
                    None => 0,
                },
                StageWindow::Suspended(_) => effective_border(None, self.decoration_config),
            },
    {
        match w {
            StageWindow::Client(c) => match c.surface {
                Some(surface) => self.window_border_width(surface),
                None => 0,
            },
            StageWindow::Suspended(_) => self.default_border_width(),
        }
    }

    /// The border width of the window with the given surface. It is 0 where nobody
    /// draws a frame, whatever width the rule sets.
    pub fn window_border_width(&self, surface: u64) -> (r: i32)
        ensures
            r == effective_border(self.rule_of(surface), self.decoration_config),
    {
        let rule: Option<AppliedRule> = match self.rules.get(&surface) {
            Some(rule) => Some(*rule),
            None => None,
        };
        effective_border_width(rule, self.decoration_config)
    }

    /// The visual center of `window`, title bar included, at the size it is
    /// becoming: right after a fullscreen exit the client still reports the viewport.
    pub fn window_visual_center(&self, window: &Window) -> (r: Option<Point<S>>)
        ensures
            r == match entry_index(self.stage.windows@, window.id) {
                Some(k) => Some(
                    visual_frame_center_spec(
                        self.stage.windows[k].position,
                        configured_size(*window),
                        S::from_i32_spec(self.ssd_bar(StageWindow::Client(*window))),
                    ),
                ),
                None => None,
            },
    {
        match self.stage.position_of(window.id) {
            Some(loc) => {
                let size = configured_window_size(window);
                let bar = S::from_i32(self.client_ssd_bar(window));
                Some(visual_frame_center(loc, size, bar))
            },
            None => None,
        }
    }
}

/// The center of the frame around content at `loc` of extent `size`, with a title
/// bar of height `bar` above it.
pub open spec fn visual_frame_center_spec<S: Scalar>(
    loc: Point<i32>,
    size: Size<i32>,
    bar: S,
) -> Point<S> {
    Point {
        x: S::from_i32_spec(loc.x).plus_spec(half_spec(S::from_i32_spec(size.w))),
        y: S::from_i32_spec(loc.y).minus_spec(bar).plus_spec(
            half_spec(S::from_i32_spec(size.h).plus_spec(bar)),
        ),
    }
}

/// The center of the frame around content at `loc` of extent `size`, with a title
/// bar of height `bar` above it. [`frame_loc_for_center`] is its inverse.
pub fn visual_frame_center<S: Scalar>(loc: Point<i32>, size: Size<i32>, bar: S) -> (r: Point<S>)
    ensures
        r == visual_frame_center_spec(loc, size, bar),
{
    Point {
        x: S::from_i32(loc.x).plus(half(S::from_i32(size.w))),
        y: S::from_i32(loc.y).minus(bar).plus(half(S::from_i32(size.h).plus(bar))),
    }
}

/// The size that a window is becoming: the one last sent to it, else the one it has
/// committed.
pub open spec fn configured_size(window: Window) -> Size<i32> {
    match window.toplevel {
        Some(toplevel) => match toplevel.pending_size {
            Some(size) => if size.w > 0 && size.h > 0 {
                size
            } else {
                window.geometry
            },
            None => window.geometry,
        },
        None => window.geometry,
    }
}

/// The size that a window will have once it has taken everything sent to it.
pub fn configured_window_size(window: &Window) -> (r: Size<i32>)
    ensures
        r == configured_size(*window),
{
    if let Some(toplevel) = &window.toplevel {
        if let Some(size) = toplevel.pending_size {
            if size.w > 0 && size.h > 0 {
                return size;
            }
        }
    }
    window.geometry
}

/// Where the frame that is `extent` long on an axis starts, to be centered on
/// `center`.
pub open spec fn frame_start<S: Scalar>(center: S, extent: i32) -> i32 {
    center.minus_spec(half_spec(S::from_i32_spec(extent))).trunc_spec()
}

/// Whether content of extent `size` under a title bar of height `bar`, its frame
/// centered on `center`, has a representable height and corner.
pub open spec fn frame_fits_spec<S: Scalar>(center: Point<S>, size: Size<i32>, bar: i32) -> bool {
    &&& i32::MIN <= size.h + bar <= i32::MAX
    &&& i32::MIN <= frame_start(center.y, (size.h + bar) as i32) + bar <= i32::MAX
}

/// Whether [`frame_loc_for_center`] has a corner to give.
pub fn frame_fits<S: Scalar>(center: Point<S>, size: Size<i32>, bar: i32) -> (r: bool)
    ensures
        r == frame_fits_spec(center, size, bar),
{
    match size.h.checked_add(bar) {
        Some(total_h) => center.y.minus(half(S::from_i32(total_h))).trunc().checked_add(
            bar,
        ).is_some(),
        None => false,
    }
}

/// The content corner that puts the visual center of a frame on `center`: content of
/// extent `size` under a title bar of height `bar`. [`visual_frame_center`] is its
/// inverse.
pub fn frame_loc_for_center<S: Scalar>(center: Point<S>, size: Size<i32>, bar: i32) -> (r: Point<
    i32,
>)
    requires
        frame_fits_spec(center, size, bar),
    ensures
        r.x == frame_start(center.x, size.w),
        r.y == frame_start(center.y, (size.h + bar) as i32) + bar,
{
    let total_h: i32 = size.h + bar;
    Point {
        x: center.x.minus(half(S::from_i32(size.w))).trunc(),
        y: center.y.minus(half(S::from_i32(total_h))).trunc() + bar,
    }
}

/// The two conversions are inverses: re-placing a frame around its own center, at
/// any size and bar height, puts its content where it was.
#[verifier::spinoff_prover]
pub proof fn law_center_round_trip(loc: Point<i32>, size: Size<i32>, bar: i32)
    requires
        i32::MIN <= size.h + bar <= i32::MAX,
    ensures
        ({
            let center = visual_frame_center_spec::<Fixed>(loc, size, Fixed::from_i32_spec(bar));
            let total_h = (size.h + bar) as i32;
            &&& frame_start(center.x, size.w) == loc.x
            &&& i32::MIN <= loc.y - bar <= i32::MAX ==> frame_start(center.y, total_h) + bar
                == loc.y
        }),
{
}

/// Placing a frame around a center puts its visual center there, to within a pixel; on
/// an axis on which the corner falls on the pixel grid, exactly.
#[verifier::spinoff_prover]
pub proof fn law_frame_is_centered(center: Point<Fixed>, size: Size<i32>, bar: i32)
    requires
        i32::MIN <= size.h + bar <= i32::MAX,
        // The corner is representable.
        i32::MIN * ONE <= center.x.steps - size.w * ONE / 2 <= i32::MAX * ONE,
        i32::MIN * ONE <= center.y.steps - (size.h + bar) * ONE / 2 <= i32::MAX * ONE,
        i32::MIN <= frame_start(center.y, (size.h + bar) as i32) + bar <= i32::MAX,
    ensures
        ({
            let total_h = (size.h + bar) as i32;
            let loc = Point {
                x: frame_start(center.x, size.w),
                y: (frame_start(center.y, total_h) + bar) as i32,
            };
            let back = visual_frame_center_spec::<Fixed>(loc, size, Fixed::from_i32_spec(bar));
            &&& -ONE < back.x.steps - center.x.steps < ONE
            &&& -ONE < back.y.steps - center.y.steps < ONE
            &&& (center.x.steps - size.w * ONE / 2) % (ONE as int) == 0 ==> back.x == center.x
            &&& (center.y.steps - (size.h + bar) * ONE / 2) % (ONE as int) == 0 ==> back.y
                == center.y
        }),
{
}

/// Where nobody draws a frame there is no border, whatever the rule and the settings
/// say of its width.
pub proof fn law_no_frame_no_border(rule: Option<AppliedRule>, config: DecorationConfig)
    requires
        effective_mode(rule, config.default_mode) is Off,
    ensures
        effective_border(rule, config) == 0,
{
}

} // verus!
