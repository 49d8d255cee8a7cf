//! The recenter that a window owes from a fullscreen, fit or fill exit it has not
//! taken yet: registering it, discarding it, and re-aiming it.
//!
//! The client's next commit at a different size lands the window on the center that
//! was promised. Whatever places the window in the meantime has to discard the
//! promise, or it fires later and undoes the placement — unless the new placement is
//! itself a center, which the promise can be re-aimed at.

use vstd::prelude::*;

use crate::fixed::{Fixed, ONE};
use crate::geometry::{Point, Size};
use crate::scalar::{half, half_spec, Scalar};
use crate::state::{
    mapped, unfilled, DriftWm, PendingRecenter, Stage, StageWindow, Window,
};
use crate::window_frame::{
    configured_size, configured_window_size, frame_start, visual_frame_center_spec,
};

verus! {

broadcast use vstd::std_specs::hash::group_hash_axioms;

/// The content corner for the rule point `(x, y)`: half the size before it on each
/// axis, in whole pixels. A rule point counts up the canvas.
pub open spec fn rule_loc(x: i32, y: i32, size: Size<i32>) -> Point<i32> {
    Point { x: (x - size.w as int / 2) as i32, y: (-y - size.h as int / 2) as i32 }
}

/// Whether a window of extent `size` at the rule point `(x, y)` has a representable
/// corner.
pub open spec fn rule_point_fits(x: i32, y: i32, size: Size<i32>) -> bool {
    &&& 0 <= size.w
    &&& 0 <= size.h
    &&& i32::MIN <= x - size.w as int / 2
    &&& -y <= i32::MAX
    &&& i32::MIN <= -y - size.h as int / 2
}

/// The content corner for the rule point `(x, y)`.
pub fn rule_to_internal(x: i32, y: i32, size: Size<i32>) -> (r: Point<i32>)
    requires
        rule_point_fits(x, y, size),
    ensures
        r == rule_loc(x, y, size),
{
    Point { x: x - size.w / 2, y: -y - size.h / 2 }
}

/// The visual center that the rule point `(x, y)` asks for, under a title bar.
pub open spec fn rule_center<S: Scalar>(x: i32, y: i32, bar: i32) -> Point<S> {
    Point {
        x: S::from_i32_spec(x),
        y: S::from_i32_spec((-y) as i32).minus_spec(half_spec(S::from_i32_spec(bar))),
    }
}

impl<S: Scalar> DriftWm<S> {
    /// Whether the given surface still owes a recenter.
    pub open spec fn owes(&self, surface: Option<u64>) -> bool {
        surface matches Some(s) && self.pending_recenter@.contains_key(s)
    }

    /// Discard the recenter that `window` still owes, if any. Called wherever a new
    /// placement is made: the promise would fire at the client's next commit of
    /// another size and undo it.
    pub fn drop_owed_recenter(&mut self, window: &StageWindow)
        ensures
            final(self).pending_recenter@ == match window.surface_spec() {
                Some(surface) => old(self).pending_recenter@.remove(surface),
                None => old(self).pending_recenter@,
            },
            *final(self) == (DriftWm {
                pending_recenter: final(self).pending_recenter,
                ..*old(self)
            }),
    {
        if let Some(surface) = window.surface() {
            self.pending_recenter.remove(&surface);
        }
    }

    /// The size a rule point places `window` by: mid-settle the one it is becoming,
    /// else the one it has committed.
    pub open spec fn placed_size(&self, window: Window) -> Size<i32> {
        if self.owes(window.surface) {
            configured_size(window)
        } else {
            window.geometry
        }
    }

    /// The size a rule point places `window` by.
    fn size_to_place(&self, window: &Window) -> (r: Size<i32>)
        ensures
            r == self.placed_size(*window),
    {
        match window.surface {
            Some(surface) => if self.pending_recenter.contains_key(&surface) {
                configured_window_size(window)
            } else {
                window.geometry
            },
            None => window.geometry,
        }
    }

    /// Whether [`DriftWm::map_window_to_rule_point`] has a corner to place `window` at.
    pub fn fits_rule_point(&self, window: &Window, x: i32, y: i32) -> (r: bool)
        ensures
            r == rule_point_fits(x, y, self.placed_size(*window)),
    {
        let size = self.size_to_place(window);
        size.w >= 0 && size.h >= 0 && x.checked_sub(size.w / 2).is_some() && y > i32::MIN && (
        -y).checked_sub(size.h / 2).is_some()
    }

    /// Place `window` so that its visual center lands on the rule point `(x, y)`. A
    /// recenter it still owes is re-aimed at that center and not dropped: the settle
    /// then finds the corner for the size that the client commits. Moving the window
    /// takes it out of its fill.
    pub fn map_window_to_rule_point(&mut self, window: &Window, x: i32, y: i32, activate: bool)
        requires
            rule_point_fits(x, y, old(self).placed_size(*window)),
        ensures
            final(self).stage.windows@ == mapped(
                unfilled(old(self).stage.windows@, window.id),
                window.id,
                window.geometry,
                rule_loc(x, y, old(self).placed_size(*window)),
            ),
            final(self).stage.activated == if activate {
                Some(window.id)
            } else {
                old(self).stage.activated
            },
            final(self).stage.fullscreen == old(self).stage.fullscreen,
            final(self).pending_recenter@ == if old(self).owes(window.surface) {
                old(self).pending_recenter@.insert(
                    window.surface->0,
                    PendingRecenter {
                        target_center: rule_center(
                            x,
                            y,
                            old(self).ssd_bar(StageWindow::Client(*window)),
                        ),
                        ..old(self).pending_recenter@[window.surface->0]
                    },
                )
            } else {
                old(self).pending_recenter@
            },
            *final(self) == (DriftWm {
                stage: final(self).stage,
                pending_recenter: final(self).pending_recenter,
                ..*old(self)
            }),
    {
        let size = self.size_to_place(window);
        self.stage.clear_fill(window.id);
        let owed: Option<u64> = match window.surface {
            Some(surface) => if self.pending_recenter.contains_key(&surface) {
                Some(surface)
            } else {
                None
            },
            None => None,
        };
        let loc = rule_to_internal(x, y, size);
        self.stage.map_window(window.id, window.geometry, loc, activate);
        if let Some(surface) = owed {
            let bar = S::from_i32(self.client_ssd_bar(window));
            if let Some(pending) = self.pending_recenter.remove(&surface) {
                let center = Point { x: S::from_i32(x), y: S::from_i32(-y).minus(half(bar)) };
                self.pending_recenter.insert(
                    surface,
                    PendingRecenter { target_center: center, ..pending },
                );
            }
            assert(self.pending_recenter@ =~= old(self).pending_recenter@.insert(
                surface,
                self.pending_recenter@[surface],
            ));
        }
    }

    /// Place `window` where its fullscreen, fit or fill exit restores it, and settle
    /// the recenter that the exit owes: the shared tail of the three exits.
    ///
    /// A client that already has the size it is restored to commits no other, so the
    /// position mapped here is final and no recenter may stay owed. Any other client
    /// keeps committing the old size until it takes the new one, and then lands on
    /// `target_center`.
    ///
    /// Returns whether the snap rectangle cached for the window is to be refreshed
    /// now. With a recenter owed, its completion does that.
    pub fn establish_exit_placement(
        &mut self,
        window: &StageWindow,
        map_loc: Point<i32>,
        saved_size: Size<i32>,
        target_center: Point<S>,
        refresh_snap_rect: bool,
    ) -> (refresh: bool)
        ensures
            final(self).stage.windows@ == mapped(
                old(self).stage.windows@,
                window.id_spec(),
                window.geometry_spec(),
                map_loc,
            ),
            refresh == (saved_size == window.geometry_spec() && refresh_snap_rect),
            final(self).pending_recenter@ == match window.surface_spec() {
                Some(surface) => if saved_size == window.geometry_spec() {
                    old(self).pending_recenter@.remove(surface)
                } else {
                    old(self).pending_recenter@.insert(
                        surface,
                        PendingRecenter { target_center, pre_exit_size: window.geometry_spec() },
                    )
                },
                None => old(self).pending_recenter@,
            },
            *final(self) == (DriftWm {
                stage: Stage { windows: final(self).stage.windows, ..old(self).stage },
                pending_recenter: final(self).pending_recenter,
                ..*old(self)
            }),
    {
        let pre_exit_size = window.geometry();
        self.stage.map_window(window.id(), pre_exit_size, map_loc, false);
        if saved_size.same(pre_exit_size) {
            self.drop_owed_recenter(window);
            refresh_snap_rect
        } else {
            if let Some(surface) = window.surface() {
                self.pending_recenter.insert(
                    surface,
                    PendingRecenter { target_center, pre_exit_size },
                );
            }
            false
        }
    }
}

/// A rule point is where the visual center goes, at any size: the center of the frame
/// placed there is the one the rule asks for, to within half a pixel.
#[verifier::spinoff_prover]
pub proof fn law_rule_point_is_the_center(x: i32, y: i32, size: Size<i32>, bar: i32)
    requires
        rule_point_fits(x, y, size),
    ensures
        ({
            let placed = visual_frame_center_spec::<Fixed>(
                rule_loc(x, y, size),
                size,
                Fixed::from_i32_spec(bar),
            );
            let asked = rule_center::<Fixed>(x, y, bar);
            &&& 0 <= 2 * (placed.x.steps - asked.x.steps) <= ONE
            &&& 0 <= 2 * (placed.y.steps - asked.y.steps) <= ONE
        }),
{
}

/// A re-aimed recenter settles where the rule point would have placed the window at
/// the size its client commits, to within a pixel.
#[verifier::spinoff_prover]
pub proof fn law_settle_lands_on_the_rule_point(x: i32, y: i32, size: Size<i32>, bar: i32)
    requires
        rule_point_fits(x, y, size),
        i32::MIN <= size.h + bar <= i32::MAX,
        // The frame's corner, bar included, is representable.
        i32::MIN < -y - size.h as int / 2 - bar < i32::MAX,
    ensures
        ({
            let asked = rule_center::<Fixed>(x, y, bar);
            let settled_x = frame_start(asked.x, size.w);
            let settled_y = frame_start(asked.y, (size.h + bar) as i32) + bar;
            let placed = rule_loc(x, y, size);
            &&& -1 <= settled_x - placed.x <= 1
            &&& -1 <= settled_y - placed.y <= 1
        }),
{
}

/// An exit to the size the client already has leaves nothing owed; any other leaves
/// the window owing the restored center. What other windows owe is not touched.
pub proof fn law_exit_settles_the_debt<S: Scalar>(
    before: DriftWm<S>,
    after: DriftWm<S>,
    surface: u64,
    same_size: bool,
    promise: PendingRecenter<S>,
    other: u64,
)
    requires
        after.pending_recenter@ == if same_size {
            before.pending_recenter@.remove(surface)
        } else {
            before.pending_recenter@.insert(surface, promise)
        },
        other != surface,
    ensures
        after.owes(Some(surface)) == !same_size,
        !same_size ==> after.pending_recenter@[surface] == promise,
        after.owes(Some(other)) == before.owes(Some(other)),
        before.owes(Some(other)) ==> after.pending_recenter@[other]
            == before.pending_recenter@[other],
{
}

} // verus!
