//! Screen-pinned windows: keeping each pin's canvas position in step with the fixed
//! screen position it is drawn at, and rehoming pins whose output changes or is
//! unplugged.

use vstd::prelude::*;

use crate::fixed::{lemma_round, toward_zero, Fixed, ONE};
use crate::geometry::{screen_to_canvas, screen_to_canvas_spec, Point, Size};
use crate::scalar::Scalar;
use crate::state::{
    entry_index, fullscreen_index, is_named, law_search_finds_the_first,
    law_search_looks_at_matches_alone, output_index, DriftWm, FullscreenReturn, Output,
    OutputState, PinnedSite, Stage, StageEntry, Window,
};

verus! {

/// `pos` brought into an output: not before its start, and not so far that a
/// window of extent `inner` sticks out past `outer` — unless it is larger than the
/// output, which puts it at the start.
pub open spec fn clamp_into(pos: i32, outer: i32, inner: i32) -> int {
    if pos < 0 || outer <= inner {
        0
    } else if pos > outer - inner {
        outer - inner
    } else {
        pos as int
    }
}

fn clamped_into(pos: i32, outer: i32, inner: i32) -> (r: i32)
    ensures
        r == clamp_into(pos, outer, inner),
{
    let room: i64 = outer as i64 - inner as i64;
    if pos < 0 || room <= 0 {
        0
    } else if pos as i64 > room {
        room as i32
    } else {
        pos
    }
}

/// A pin moved to the output `name` of extent `outer`, its position kept as far as a
/// window of extent `inner` fits there.
pub open spec fn rehomed(
    site: PinnedSite,
    name: String,
    outer: Size<i32>,
    inner: Size<i32>,
) -> PinnedSite {
    PinnedSite {
        output: name,
        screen_pos: Point {
            x: clamp_into(site.screen_pos.x, outer.w, inner.w) as i32,
            y: clamp_into(site.screen_pos.y, outer.h, inner.h) as i32,
        },
    }
}

fn rehome(site: &mut PinnedSite, name: &String, outer: Size<i32>, inner: Size<i32>)
    ensures
        *final(site) == rehomed(*old(site), *name, outer, inner),
{
    site.output = name.clone();
    site.screen_pos.x = clamped_into(site.screen_pos.x, outer.w, inner.w);
    site.screen_pos.y = clamped_into(site.screen_pos.y, outer.h, inner.h);
}

/// The canvas position that an element belongs at: a pinned one where its screen
/// position currently maps to, as long as its output exists.
pub open spec fn anchored_position<S: Scalar>(entry: StageEntry, outputs: Seq<Output<S>>) -> Point<
    i32,
> {
    match entry.pin {
        Some(site) => match output_index(outputs, site.output@) {
            Some(k) => screen_to_canvas_spec(
                site.screen_pos.scalar_spec::<S>(),
                outputs[k].state.camera,
                outputs[k].state.zoom,
            ).rounded_spec(),
            None => entry.position,
        },
        None => entry.position,
    }
}

/// A stage with every pinned element at the position it belongs at. Nothing else of
/// any element changes, nor their order.
pub open spec fn anchored<S: Scalar>(windows: Seq<StageEntry>, outputs: Seq<Output<S>>) -> Seq<
    StageEntry,
> {
    windows.map_values(
        |entry: StageEntry|
            StageEntry { position: anchored_position(entry, outputs), ..entry },
    )
}

/// Whether the output that a site names is gone.
pub open spec fn orphaned<S>(site: PinnedSite, outputs: Seq<Output<S>>) -> bool {
    output_index(outputs, site.output@) is None
}

/// Whether an element is pinned to an output that is gone.
pub open spec fn orphan<S>(entry: StageEntry, outputs: Seq<Output<S>>) -> bool {
    entry.pin matches Some(site) && orphaned(site, outputs)
}

/// An element with an orphaned pin moved to the output `to`.
pub open spec fn adopted<S>(entry: StageEntry, outputs: Seq<Output<S>>, to: Output<S>) -> StageEntry {
    if orphan(entry, outputs) {
        StageEntry { pin: Some(rehomed(entry.pin->0, to.name, to.size, entry.size)), ..entry }
    } else {
        entry
    }
}

/// A stage with every orphaned pin moved to the output `to`.
pub open spec fn all_adopted<S>(
    windows: Seq<StageEntry>,
    outputs: Seq<Output<S>>,
    to: Output<S>,
) -> Seq<StageEntry> {
    windows.map_values(|entry: StageEntry| adopted(entry, outputs, to))
}

/// Whether some element of a stage is pinned to an output that is gone.
pub open spec fn has_orphan<S>(windows: Seq<StageEntry>, outputs: Seq<Output<S>>) -> bool {
    exists|k: int| 0 <= k < windows.len() && orphan(#[trigger] windows[k], outputs)
}

/// A stage after every orphaned pin was moved to output `to`. Positions are brought in
/// step only if a pin moved.
pub open spec fn reassigned<S: Scalar>(
    windows: Seq<StageEntry>,
    outputs: Seq<Output<S>>,
    to: int,
) -> Seq<StageEntry> {
    if has_orphan(windows, outputs) {
        anchored(all_adopted(windows, outputs, outputs[to]), outputs)
    } else {
        windows
    }
}

/// Whether output `k` holds a pin that fullscreen suspended and whose output is
/// gone.
pub open spec fn suspended_orphan<S: Scalar>(wm: DriftWm<S>, k: int) -> bool {
    &&& wm.fullscreen_at(k)
    &&& wm.outputs[k].state.fullscreen_return matches Some(ret)
    &&& ret.pinned matches Some(site)
    &&& orphaned(site, wm.outputs@)
}

/// The size that the window covering output `k` had before.
pub open spec fn saved_size_at<S>(wm: DriftWm<S>, k: int) -> Size<i32> {
    wm.stage.fullscreen[fullscreen_index(wm.stage.fullscreen@, wm.outputs[k].name@)->0].saved_size
}

/// The output `k` of `wm`, with a suspended orphaned pin moved to output `to`.
pub open spec fn suspended_adopted<S: Scalar>(wm: DriftWm<S>, k: int, to: int) -> Output<S> {
    if suspended_orphan(wm, k) {
        Output {
            state: OutputState {
                fullscreen_return: Some(
                    FullscreenReturn {
                        pinned: Some(
                            rehomed(
                                wm.outputs[k].state.fullscreen_return->0.pinned->0,
                                wm.outputs[to].name,
                                wm.outputs[to].size,
                                saved_size_at(wm, k),
                            ),
                        ),
                    },
                ),
                ..wm.outputs[k].state
            },
            ..wm.outputs[k]
        }
    } else {
        wm.outputs[k]
    }
}

/// The outputs of `wm`, with every suspended orphaned pin moved to output `to`.
pub open spec fn all_suspended_adopted<S: Scalar>(wm: DriftWm<S>, to: int) -> Seq<Output<S>> {
    Seq::new(wm.outputs@.len(), |k: int| suspended_adopted(wm, k, to))
}

impl<S: Scalar> DriftWm<S> {
    /// Put every pinned window's canvas position where its screen position
    /// currently maps to. A position left behind by a camera move drifts off its
    /// output, and the window is culled. Only positions change: mapping the windows
    /// anew would raise each one above what the user put on top of it.
    pub fn sync_pinned_locs(&mut self)
        ensures
            final(self).stage.windows@ == anchored(old(self).stage.windows@, old(self).outputs@),
            *final(self) == (DriftWm {
                stage: Stage { windows: final(self).stage.windows, ..old(self).stage },
                ..*old(self)
            }),
    {
        let count: usize = self.stage.windows.len();
        for k in 0..count
            invariant
                count == self.stage.windows.len() == old(self).stage.windows.len(),
                *self == (DriftWm {
                    stage: Stage { windows: self.stage.windows, ..old(self).stage },
                    ..*old(self)
                }),
                forall|j: int|
                    0 <= j < k ==> (#[trigger] self.stage.windows[j]) == (StageEntry {
                        position: anchored_position(
                            old(self).stage.windows[j],
                            old(self).outputs@,
                        ),
                        ..old(self).stage.windows[j]
                    }),
                forall|j: int|
                    k <= j < self.stage.windows.len() ==> (#[trigger] self.stage.windows[j])
                        == old(self).stage.windows[j],
        {
            let mut found: Option<Point<i32>> = None;
            if let Some(site) = &self.stage.windows[k].pin {
                if let Some(o) = self.output_by_name(&site.output) {
                    let state = &self.outputs[o].state;
                    found = Some(
                        screen_to_canvas(
                            site.screen_pos.scalar(),
                            state.camera,
                            state.zoom,
                        ).rounded(),
                    );
                }
            }
            if let Some(position) = found {
                self.stage.windows[k].position = position;
            }
        }
        assert(self.stage.windows@ =~= anchored(old(self).stage.windows@, old(self).outputs@));
    }

    /// Move a pinned window to the output `target`, keeping its screen position as
    /// far as it fits there. A window that is not pinned, or is there already, stays.
    pub fn send_pinned_to_output(&mut self, window: &Window, target: usize)
        requires
            target < old(self).outputs.len(),
        ensures
            match entry_index(old(self).stage.windows@, window.id) {
                Some(k) => match old(self).stage.windows[k].pin {
                    Some(site) => if site.output@ == old(self).outputs[target as int].name@ {
                        *final(self) == *old(self)
                    } else {
                        final(self).stage.windows@ == anchored(
                            old(self).stage.windows@.update(
                                k,
                                StageEntry {
                                    pin: Some(
                                        rehomed(
                                            site,
                                            old(self).outputs[target as int].name,
                                            old(self).outputs[target as int].size,
                                            window.geometry,
                                        ),
                                    ),
                                    ..old(self).stage.windows[k]
                                },
                            ),
                            old(self).outputs@,
                        )
                    },
                    None => *final(self) == *old(self),
                },
                None => *final(self) == *old(self),
            },
            *final(self) == (DriftWm {
                stage: Stage { windows: final(self).stage.windows, ..old(self).stage },
                ..*old(self)
            }),
    {
        let k: usize = match self.stage.index_of(window.id) {
            Some(k) => k,
            None => {
                return;
            },
        };
        let here = match &self.stage.windows[k].pin {
            Some(site) => site.output.eq(&self.outputs[target].name),
            None => true,
        };
        if here {
            return;
        }
        let ghost before = self.stage.windows@;
        let size = self.outputs[target].size;
        if let Some(mut site) = self.stage.windows[k].pin.take() {
            rehome(&mut site, &self.outputs[target].name, size, window.geometry);
            self.stage.windows[k].pin = Some(site);
        }
        proof {
            let moved = self.stage.windows[k as int];
            assert(self.stage.windows@ =~= before.update(k as int, moved));
        }
        self.sync_pinned_locs();
    }

    /// Move every pinned window whose output is gone to the output `to`, and the
    /// pins that fullscreen suspended as well: those the fullscreen exit would
    /// otherwise restore onto the dead output. A suspended pin is fitted by the size
    /// its window had before, since its current one is the viewport.
    pub fn reassign_orphaned_pinned(&mut self, to: usize)
        requires
            to < old(self).outputs.len(),
        ensures
            final(self).stage.windows@ == reassigned(
                old(self).stage.windows@,
                old(self).outputs@,
                to as int,
            ),
            final(self).outputs@ == all_suspended_adopted(*old(self), to as int),
            *final(self) == (DriftWm {
                outputs: final(self).outputs,
                stage: Stage { windows: final(self).stage.windows, ..old(self).stage },
                ..*old(self)
            }),
    {
        let size = self.outputs[to].size;
        let mut any = false;
        let count: usize = self.stage.windows.len();
        let ghost before = self.stage.windows@;
        for k in 0..count
            invariant
                to < self.outputs.len(),
                size == self.outputs[to as int].size,
                before == old(self).stage.windows@,
                count == self.stage.windows.len() == before.len(),
                *self == (DriftWm {
                    stage: Stage { windows: self.stage.windows, ..old(self).stage },
                    ..*old(self)
                }),
                any == exists|j: int|
                    0 <= j < k && orphan(#[trigger] before[j], old(self).outputs@),
                forall|j: int|
                    0 <= j < k ==> (#[trigger] self.stage.windows[j]) == adopted(
                        before[j],
                        old(self).outputs@,
                        old(self).outputs[to as int],
                    ),
                forall|j: int| k <= j < count ==> (#[trigger] self.stage.windows[j]) == before[j],
        {
            let lost = match &self.stage.windows[k].pin {
                Some(site) => self.output_by_name(&site.output).is_none(),
                None => false,
            };
            assert(lost == orphan(before[k as int], old(self).outputs@));
            if lost {
                let inner = self.stage.windows[k].size;
                if let Some(mut site) = self.stage.windows[k].pin.take() {
                    rehome(&mut site, &self.outputs[to].name, size, inner);
                    self.stage.windows[k].pin = Some(site);
                }
                any = true;
            }
        }
        assert(self.stage.windows@ =~= all_adopted(
            before,
            old(self).outputs@,
            old(self).outputs[to as int],
        ));
        if any {
            self.sync_pinned_locs();
        } else {
            assert(self.stage.windows@ =~= before);
        }
        let ghost settled = *self;
        self.reassign_suspended_pins(to);
        assert(forall|k: int|
            suspended_adopted(settled, k, to as int) == suspended_adopted(
                *old(self),
                k,
                to as int,
            ));
        assert(self.outputs@ =~= all_suspended_adopted(*old(self), to as int));
    }

    /// Move every suspended pin whose output is gone to the output `to`.
    fn reassign_suspended_pins(&mut self, to: usize)
        requires
            to < old(self).outputs.len(),
        ensures
            final(self).outputs@ == all_suspended_adopted(*old(self), to as int),
            *final(self) == (DriftWm { outputs: final(self).outputs, ..*old(self) }),
    {
        let name = self.outputs[to].name.clone();
        let size = self.outputs[to].size;
        // The fit of each pin to move, settled before anything changes.
        let mut fits: Vec<Option<Size<i32>>> = Vec::new();
        for k in 0..self.outputs.len()
            invariant
                fits.len() == k,
                forall|j: int|
                    0 <= j < k ==> (#[trigger] fits[j]) == if suspended_orphan(*self, j) {
                        Some(saved_size_at(*self, j))
                    } else {
                        None
                    },
        {
            let mut fit: Option<Size<i32>> = None;
            if let Some(saved_size) = self.stage.fullscreen_on(&self.outputs[k].name) {
                if let Some(ret) = &self.outputs[k].state.fullscreen_return {
                    if let Some(site) = &ret.pinned {
                        if self.output_by_name(&site.output).is_none() {
                            fit = Some(saved_size);
                        }
                    }
                }
            }
            fits.push(fit);
        }
        let count: usize = self.outputs.len();
        for k in 0..count
            invariant
                to < old(self).outputs.len(),
                name == old(self).outputs[to as int].name,
                size == old(self).outputs[to as int].size,
                count == fits.len() == self.outputs.len() == old(self).outputs.len(),
                forall|j: int|
                    0 <= j < count ==> (#[trigger] fits[j]) == if suspended_orphan(
                        *old(self),
                        j,
                    ) {
                        Some(saved_size_at(*old(self), j))
                    } else {
                        None
                    },
                forall|j: int|
                    0 <= j < k ==> (#[trigger] self.outputs[j]) == suspended_adopted(
                        *old(self),
                        j,
                        to as int,
                    ),
                forall|j: int|
                    k <= j < count ==> (#[trigger] self.outputs[j]) == old(self).outputs[j],
                *self == (DriftWm { outputs: self.outputs, ..*old(self) }),
        {
            if let Some(inner) = fits[k] {
                if let Some(mut ret) = self.outputs[k].state.fullscreen_return.take() {
                    if let Some(mut site) = ret.pinned.take() {
                        rehome(&mut site, &name, size, inner);
                        ret.pinned = Some(site);
                    }
                    self.outputs[k].state.fullscreen_return = Some(ret);
                }
            }
        }
        assert(self.outputs@ =~= all_suspended_adopted(*old(self), to as int));
    }
}

/// Bringing positions in step touches nothing but the positions of pinned elements,
/// keeps every element's place in the stacking order, and done twice changes nothing
/// more.
pub proof fn law_sync_moves_only_pins<S: Scalar>(
    windows: Seq<StageEntry>,
    outputs: Seq<Output<S>>,
    k: int,
)
    requires
        0 <= k < windows.len(),
    ensures
        ({
            let after = anchored(windows, outputs);
            &&& after.len() == windows.len()
            &&& after[k] == (StageEntry { position: after[k].position, ..windows[k] })
            &&& windows[k].pin is None ==> after[k] == windows[k]
            &&& anchored(after, outputs) == after
        }),
{
    assert(anchored(anchored(windows, outputs), outputs) =~= anchored(windows, outputs));
}

/// A rehomed pin is on its new output: not before its start, and with the window
/// wholly on it wherever the window fits. Rehoming it again changes nothing.
pub proof fn law_rehomed_pin_fits(
    site: PinnedSite,
    name: String,
    outer: Size<i32>,
    inner: Size<i32>,
)
    requires
        0 <= inner.w,
        0 <= inner.h,
    ensures
        ({
            let after = rehomed(site, name, outer, inner);
            &&& after.output == name
            &&& 0 <= after.screen_pos.x
            &&& 0 <= after.screen_pos.y
            &&& inner.w <= outer.w ==> after.screen_pos.x + inner.w <= outer.w
            &&& inner.h <= outer.h ==> after.screen_pos.y + inner.h <= outer.h
            &&& rehomed(after, name, outer, inner) == after
        }),
{
}

/// A window that already fits on its new output keeps its screen position there.
pub proof fn law_rehoming_keeps_what_fits(
    site: PinnedSite,
    name: String,
    outer: Size<i32>,
    inner: Size<i32>,
)
    requires
        0 <= site.screen_pos.x,
        0 <= site.screen_pos.y,
        0 <= inner.w && site.screen_pos.x + inner.w <= outer.w,
        0 <= inner.h && site.screen_pos.y + inner.h <= outer.h,
    ensures
        rehomed(site, name, outer, inner).screen_pos == site.screen_pos,
{
}

/// Once orphans are reassigned, no window is pinned to an output that is gone, and no
/// fullscreen window would return to one.
#[verifier::spinoff_prover]
pub proof fn law_no_orphan_is_left<S: Scalar>(before: DriftWm<S>, after: DriftWm<S>, to: int)
    requires
        0 <= to < before.outputs.len(),
        after.stage.windows@ == reassigned(before.stage.windows@, before.outputs@, to),
        after.outputs@ == all_suspended_adopted(before, to),
        after.stage.fullscreen == before.stage.fullscreen,
    ensures
        !has_orphan(after.stage.windows@, after.outputs@),
        forall|k: int| 0 <= k < after.outputs.len() ==> !#[trigger] suspended_orphan(after, k),
{
    let names = after.outputs@;
    assert forall|k: int| 0 <= k < names.len() implies (#[trigger] names[k]).name@
        == before.outputs@[k].name@ by {}
    law_search_finds_the_first(before.outputs@, is_named(before.outputs[to].name@));
    assert(output_index(before.outputs@, before.outputs[to].name@) is Some);
    assert forall|site: PinnedSite| #[trigger] orphaned(site, names) == orphaned(
        site,
        before.outputs@,
    ) by {
        law_search_looks_at_matches_alone(names, before.outputs@, is_named(site.output@));
    }
    assert forall|k: int| 0 <= k < after.stage.windows@.len() implies !orphan(
        #[trigger] after.stage.windows@[k],
        names,
    ) by {
        let was = before.stage.windows@[k];
        if has_orphan(before.stage.windows@, before.outputs@) {
            assert(after.stage.windows@[k].pin == adopted(
                was,
                before.outputs@,
                before.outputs[to],
            ).pin);
            if let Some(site) = after.stage.windows@[k].pin {
                assert(!orphaned(site, before.outputs@));
                assert(orphaned(site, names) == orphaned(site, before.outputs@));
            }
        } else {
            assert(!orphan(was, before.outputs@));
            if let Some(site) = was.pin {
                assert(orphaned(site, names) == orphaned(site, before.outputs@));
            }
        }
    }
    assert forall|k: int| 0 <= k < after.outputs.len() implies !#[trigger] suspended_orphan(
        after,
        k,
    ) by {
        if let Some(ret) = after.outputs[k].state.fullscreen_return {
            if let Some(site) = ret.pinned {
                assert(orphaned(site, names) == orphaned(site, before.outputs@));
            }
        }
    }
}

/// Reassigning orphans a second time changes nothing.
pub proof fn law_reassign_is_idempotent<S: Scalar>(before: DriftWm<S>, after: DriftWm<S>, to: int)
    requires
        0 <= to < before.outputs.len(),
        after.stage.windows@ == reassigned(before.stage.windows@, before.outputs@, to),
        after.outputs@ == all_suspended_adopted(before, to),
        after.stage.fullscreen == before.stage.fullscreen,
    ensures
        reassigned(after.stage.windows@, after.outputs@, to) == after.stage.windows@,
        all_suspended_adopted(after, to) == after.outputs@,
{
    law_no_orphan_is_left(before, after, to);
    assert(all_suspended_adopted(after, to) =~= after.outputs@);
}

/// A pin that is not orphaned stays as it is when orphans are reassigned.
pub proof fn law_reassign_keeps_living_pins<S: Scalar>(
    windows: Seq<StageEntry>,
    outputs: Seq<Output<S>>,
    to: int,
    k: int,
)
    requires
        0 <= k < windows.len(),
        !orphan(windows[k], outputs),
    ensures
        reassigned(windows, outputs, to).len() == windows.len(),
        reassigned(windows, outputs, to)[k] == (StageEntry {
            position: reassigned(windows, outputs, to)[k].position,
            ..windows[k]
        }),
{
}

/// A pinned window's canvas position is where its screen position maps to, to within
/// half a canvas pixel: seen through the camera again it is at its screen position, up
/// to half the zoom. Both sides are multiplied out by [`ONE`], per axis.
#[verifier::spinoff_prover]
pub proof fn law_pin_stays_on_screen(camera: Fixed, zoom: Fixed, screen: i32)
    requires
        zoom.steps > 0,
        // The canvas position is representable.
        i64::MIN < toward_zero(screen * ONE * ONE, zoom.steps as int) < i64::MAX,
        i32::MIN * ONE <= camera.steps + toward_zero(screen * ONE * ONE, zoom.steps as int)
            <= i32::MAX * ONE,
    ensures
        ({
            let canvas = camera.plus_spec(
                Fixed::from_i32_spec(screen).over_spec(zoom),
            ).round_spec();
            let seen = (canvas * ONE - camera.steps) * zoom.steps;
            let reach = (ONE / 2 + 1) * zoom.steps;
            screen * ONE * ONE - reach <= seen <= screen * ONE * ONE + reach
        }),
{
    let s = screen * ONE * ONE;
    let z = zoom.steps as int;
    let q = toward_zero(s, z);
    assert(Fixed::from_i32_spec(screen).steps == screen * ONE);
    assert(Fixed::from_i32_spec(screen).over_spec(zoom).steps == q);
    let sum = camera.plus_spec(Fixed::from_i32_spec(screen).over_spec(zoom));
    assert(sum.steps == camera.steps + q);
    let canvas = sum.round_spec();
    lemma_round(sum);
    assert(-z <= q * z - s <= z) by (nonlinear_arith)
        requires
            z > 0,
            q == toward_zero(s, z),
            q == (if s >= 0 {
                s / z
            } else {
                -((-s) / z)
            }),
    ;
    let off = canvas * ONE - camera.steps - q;
    assert(-(ONE / 2) * z <= off * z <= (ONE / 2) * z) by (nonlinear_arith)
        requires
            z > 0,
            -(ONE / 2) <= off <= ONE / 2,
    ;
    assert((canvas * ONE - camera.steps) * z == off * z + q * z) by (nonlinear_arith)
        requires
            off == canvas * ONE - camera.steps - q,
    ;
    assert((ONE / 2 + 1) * z == (ONE / 2) * z + z) by (nonlinear_arith);
    assert(-(ONE / 2) * z == -((ONE / 2) * z)) by (nonlinear_arith);
}

} // verus!
