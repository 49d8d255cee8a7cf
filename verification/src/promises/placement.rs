//! What pins, owed recenters and client-side resizes promise.

use vstd::prelude::*;

use crate::fixed::{Fixed, ONE};
use crate::geometry::{Point, Size};
use crate::pinned::{adopted, anchored_position, rehomed};
use crate::promises::closing::lemma_half_cut;
use crate::promises::geometry::{
    has_place, lemma_place, lemma_round_is_nearest, nearest, on_the_grid, shows_at,
};
use crate::promises::stage::{
    first_covering, first_named, first_with_id, lemma_first_covering, lemma_first_named,
    lemma_first_with_id, lemma_mapped, mapped_on_top,
};
use crate::recenter::rule_to_internal;
use crate::scalar::Scalar;
use crate::state::{
    unfilled, unfit, DriftWm, Output, OutputState, PinnedSite, ResizeEdge, ResizeState, StageEntry,
    StageWindow, Window,
};
use crate::window_frame::configured_window_size;

verus! {

broadcast use vstd::std_specs::hash::group_hash_axioms;

/// Whether a canvas pixel is the nearest one to where a screen pixel's place is.
pub open spec fn anchored_at(pixel: i32, screen: i32, camera: Fixed, zoom: Fixed) -> bool {
    exists|place: Fixed|
        shows_at(place, camera, zoom, Fixed { steps: (screen * ONE) as i64 }) && #[trigger] nearest(
            pixel,
            place,
        )
}

/// Whether a screen pixel's place is on the grid of pixels.
pub open spec fn has_pixel(screen: i32, camera: Fixed, zoom: Fixed) -> bool {
    let at = Fixed { steps: (screen * ONE) as i64 };
    &&& has_place(at, camera, zoom)
    &&& forall|place: Fixed| #[trigger] shows_at(place, camera, zoom, at) ==> on_the_grid(place)
}

/// The same of both axes of a pin on an output.
pub open spec fn pin_has_pixel(site: PinnedSite, output: Output<Fixed>) -> bool {
    &&& has_pixel(site.screen_pos.x, output.state.camera.x, output.state.zoom)
    &&& has_pixel(site.screen_pos.y, output.state.camera.y, output.state.zoom)
}

/// Whether an element is where its pin shows on an output.
pub open spec fn in_step(position: Point<i32>, site: PinnedSite, output: Output<Fixed>) -> bool {
    &&& anchored_at(position.x, site.screen_pos.x, output.state.camera.x, output.state.zoom)
    &&& anchored_at(position.y, site.screen_pos.y, output.state.camera.y, output.state.zoom)
}

proof fn lemma_axis_in_step(screen: i32, camera: Fixed, zoom: Fixed)
    requires
        has_pixel(screen, camera, zoom),
    ensures
        anchored_at(
            camera.plus_spec(Fixed::from_i32_spec(screen).over_spec(zoom)).round_spec(),
            screen,
            camera,
            zoom,
        ),
{
    let at = Fixed { steps: (screen * ONE) as i64 };
    let place = camera.plus_spec(at.over_spec(zoom));
    lemma_place(at, camera, zoom);
    lemma_round_is_nearest(place);
    assert(nearest(place.round_spec(), place));
}

proof fn lemma_in_step(entry: StageEntry, outputs: Seq<Output<Fixed>>, o: int)
    requires
        entry.pin is Some,
        first_named(outputs, entry.pin->0.output@, o),
    ensures
        o < outputs.len() && pin_has_pixel(entry.pin->0, outputs[o]) ==> in_step(
            anchored_position(entry, outputs),
            entry.pin->0,
            outputs[o],
        ),
        o == outputs.len() ==> anchored_position(entry, outputs) == entry.position,
{
    lemma_first_named(outputs, entry.pin->0.output@, o);
    if o < outputs.len() && pin_has_pixel(entry.pin->0, outputs[o]) {
        let site = entry.pin->0;
        lemma_axis_in_step(site.screen_pos.x, outputs[o].state.camera.x, outputs[o].state.zoom);
        lemma_axis_in_step(site.screen_pos.y, outputs[o].state.camera.y, outputs[o].state.zoom);
    }
}

/// Whether all that may differ is where elements are, and on which output they are pinned.
pub open spec fn only_positions<S>(before: DriftWm<S>, after: DriftWm<S>) -> bool {
    &&& after == (DriftWm { outputs: after.outputs, stage: after.stage, ..before })
    &&& after.stage.fullscreen == before.stage.fullscreen
    &&& after.stage.activated == before.stage.activated
    &&& after.stage.windows.len() == before.stage.windows.len()
    &&& forall|j: int|
        0 <= j < before.stage.windows.len() ==> {
            let (was, got) = (before.stage.windows[j], #[trigger] after.stage.windows[j]);
            &&& got.id == was.id
            &&& got.size == was.size
            &&& got.fit == was.fit
            &&& got.fill == was.fill
            &&& got.pin is Some <==> was.pin is Some
            &&& was.pin is None ==> got == was
        }
}

/// Bringing pins in step puts every pinned window where its screen position shows through
/// its output's camera, to the nearest pixel; one whose output is gone stays. No pin
/// changes, nor the stacking order, nor any window that is not pinned.
pub proof fn law_pins_are_brought_in_step(
    before: DriftWm<Fixed>,
    after: DriftWm<Fixed>,
    k: int,
    o: int,
)
    requires
        exists|m: &mut DriftWm<Fixed>|
            *m == before && *final(m) == after && #[trigger] call_ensures(
                DriftWm::<Fixed>::sync_pinned_locs,
                (m,),
                (),
            ),
        0 <= k < before.stage.windows.len(),
        before.stage.windows[k].pin matches Some(site) ==> first_named(
            before.outputs@,
            site.output@,
            o,
        ),
    ensures
        only_positions(before, after),
        after.outputs == before.outputs,
        after.stage.windows[k].pin == before.stage.windows[k].pin,
        before.stage.windows[k].pin matches Some(site) ==> {
            &&& o < before.outputs.len() && pin_has_pixel(site, before.outputs[o]) ==> in_step(
                after.stage.windows[k].position,
                site,
                before.outputs[o],
            )
            &&& o == before.outputs.len() ==> after.stage.windows[k] == before.stage.windows[k]
        },
{
    if before.stage.windows[k].pin is Some {
        lemma_in_step(before.stage.windows@[k], before.outputs@, o);
    }
}

/// Whether a window `inner` long that was at `was` fits itself into `outer` by being at
/// `got`: it stays where it wholly fits; where it is too long it starts with the output; and
/// else it is at the edge it stuck out past.
pub open spec fn fitted(got: i32, was: i32, outer: i32, inner: i32) -> bool {
    &&& inner >= outer ==> got == 0
    &&& inner < outer && was < 0 ==> got == 0
    &&& inner < outer && was >= 0 && was + inner <= outer ==> got == was
    &&& inner < outer && was >= 0 && was + inner > outer ==> got + inner == outer
}

/// Whether a pin has moved to an output, and its window fits itself into it.
pub open spec fn moved_to(
    got: PinnedSite,
    was: PinnedSite,
    name: String,
    outer: Size<i32>,
    inner: Size<i32>,
) -> bool {
    &&& got.output == name
    &&& fitted(got.screen_pos.x, was.screen_pos.x, outer.w, inner.w)
    &&& fitted(got.screen_pos.y, was.screen_pos.y, outer.h, inner.h)
}

/// A pinned window sent to another output is pinned there, fitted into it by its own
/// extent, and in step; no other pin changes, nor any window that is not pinned. One that
/// is not pinned, or is there already, stays as it is with everything else.
pub proof fn law_sent_pin_arrives(
    before: DriftWm<Fixed>,
    after: DriftWm<Fixed>,
    window: &Window,
    target: usize,
    e: int,
    o: int,
    k: int,
)
    requires
        target < before.outputs.len(),
        first_with_id(before.stage.windows@, window.id, e),
        first_named(before.outputs@, before.outputs[target as int].name@, o),
        0 <= k < before.stage.windows.len(),
        exists|m: &mut DriftWm<Fixed>|
            *m == before && *final(m) == after && #[trigger] call_ensures(
                DriftWm::<Fixed>::send_pinned_to_output,
                (m, window, target),
                (),
            ),
    ensures
        only_positions(before, after),
        after.outputs == before.outputs,
        k != e ==> after.stage.windows[k].pin == before.stage.windows[k].pin,
        ({
            let goes = e < before.stage.windows.len() && (before.stage.windows[e].pin matches Some(
                site,
            ) && site.output@ != before.outputs[target as int].name@);
            &&& !goes ==> after == before
            &&& goes ==> (after.stage.windows[e].pin matches Some(site) && {
                &&& moved_to(
                    site,
                    before.stage.windows[e].pin->0,
                    before.outputs[target as int].name,
                    before.outputs[target as int].size,
                    window.geometry,
                )
                &&& pin_has_pixel(site, before.outputs[o]) ==> in_step(
                    after.stage.windows[e].position,
                    site,
                    before.outputs[o],
                )
            })
        }),
{
    lemma_first_with_id(before.stage.windows@, window.id, e);
    if e < before.stage.windows.len() && before.stage.windows[e].pin is Some
        && before.stage.windows[e].pin->0.output@ != before.outputs[target as int].name@ {
        let site = rehomed(
            before.stage.windows[e].pin->0,
            before.outputs[target as int].name,
            before.outputs[target as int].size,
            window.geometry,
        );
        let moved = StageEntry { pin: Some(site), ..before.stage.windows[e] };
        assert(after.stage.windows@[e] == (StageEntry {
            position: anchored_position(moved, before.outputs@),
            ..moved
        }));
        lemma_in_step(moved, before.outputs@, o);
    }
}

/// Whether the output that a pin names is gone.
pub open spec fn homeless<S>(site: PinnedSite, outputs: Seq<Output<S>>) -> bool {
    forall|j: int| 0 <= j < outputs.len() ==> (#[trigger] outputs[j]).name@ != site.output@
}

proof fn lemma_homeless<S>(site: PinnedSite, outputs: Seq<Output<S>>)
    ensures
        crate::pinned::orphaned(site, outputs) == homeless(site, outputs),
{
    crate::state::law_search_finds_the_first(outputs, crate::state::is_named(site.output@));
    if let Some(k) = crate::state::output_index(outputs, site.output@) {
        assert(outputs[k].name@ == site.output@);
    }
}

/// Once outputs are gone, every window pinned to one of them is pinned to the output that
/// takes over, fitted into it by its own extent, and in step; every other pin is as it was.
pub proof fn law_homeless_pins_are_taken_in(
    before: DriftWm<Fixed>,
    after: DriftWm<Fixed>,
    to: usize,
    k: int,
    o: int,
)
    requires
        to < before.outputs.len(),
        0 <= k < before.stage.windows.len(),
        first_named(before.outputs@, before.outputs[to as int].name@, o),
        exists|m: &mut DriftWm<Fixed>|
            *m == before && *final(m) == after && #[trigger] call_ensures(
                DriftWm::<Fixed>::reassign_orphaned_pinned,
                (m, to),
                (),
            ),
    ensures
        only_positions(before, after),
        after.outputs.len() == before.outputs.len(),
        before.stage.windows[k].pin matches Some(was) ==> (after.stage.windows[k].pin matches Some(
            got,
        ) && {
            &&& !homeless(was, before.outputs@) ==> got == was
            &&& homeless(was, before.outputs@) ==> moved_to(
                got,
                was,
                before.outputs[to as int].name,
                before.outputs[to as int].size,
                before.stage.windows[k].size,
            )
            &&& homeless(was, before.outputs@) && pin_has_pixel(got, before.outputs[o]) ==> in_step(
                after.stage.windows[k].position,
                got,
                before.outputs[o],
            )
        }),
{
    let windows = before.stage.windows@;
    let outputs = before.outputs@;
    if let Some(site) = windows[k].pin {
        lemma_homeless(site, outputs);
        if crate::pinned::has_orphan(windows, outputs) {
            let moved = adopted(windows[k], outputs, outputs[to as int]);
            assert(after.stage.windows@[k] == (StageEntry {
                position: anchored_position(moved, outputs),
                ..moved
            }));
            if homeless(site, outputs) {
                lemma_in_step(moved, outputs, o);
            }
        } else {
            assert(!crate::pinned::orphan(windows[k], outputs));
        }
    }
}

/// A pin that fullscreen suspended and whose output is gone is taken in likewise, fitted by
/// the size its window had before; nothing else of any output changes.
pub proof fn law_suspended_pins_are_taken_in(
    before: DriftWm<Fixed>,
    after: DriftWm<Fixed>,
    to: usize,
    k: int,
    f: int,
)
    requires
        to < before.outputs.len(),
        0 <= k < before.outputs.len(),
        first_covering(before.stage.fullscreen@, before.outputs[k].name@, f),
        exists|m: &mut DriftWm<Fixed>|
            *m == before && *final(m) == after && #[trigger] call_ensures(
                DriftWm::<Fixed>::reassign_orphaned_pinned,
                (m, to),
                (),
            ),
    ensures
        ({
            let (was, got) = (before.outputs[k], after.outputs[k]);
            let suspended = was.state.fullscreen_return matches Some(ret) && (
            ret.pinned matches Some(site) && homeless(site, before.outputs@));
            let lost = f < before.stage.fullscreen.len() && suspended;
            &&& !lost ==> got == was
            &&& lost ==> {
                &&& got == (Output {
                    state: OutputState {
                        fullscreen_return: got.state.fullscreen_return,
                        ..was.state
                    },
                    ..was
                })
                &&& got.state.fullscreen_return matches Some(ret) && (ret.pinned matches Some(site)
                    && moved_to(
                    site,
                    was.state.fullscreen_return->0.pinned->0,
                    before.outputs[to as int].name,
                    before.outputs[to as int].size,
                    before.stage.fullscreen[f].saved_size,
                ))
            }
        }),
{
    lemma_first_covering(before.stage.fullscreen@, before.outputs[k].name@, f);
    if let Some(ret) = before.outputs[k].state.fullscreen_return {
        if let Some(site) = ret.pinned {
            lemma_homeless(site, before.outputs@);
        }
    }
}

/// Whether a corner is half an extent before a point, a half pixel going to the window's
/// far side.
pub open spec fn half_before(corner: int, point: int, extent: int) -> bool {
    extent - 1 <= 2 * (point - corner) <= extent
}

/// A rule point is the center of the content placed by it, and counts up the canvas.
pub proof fn law_rule_point_is_mid_content(x: i32, y: i32, size: Size<i32>, loc: Point<i32>)
    requires
        0 <= size.w,
        0 <= size.h,
        i32::MIN <= x - size.w as int / 2,
        i32::MIN < y,
        i32::MIN <= -y - size.h as int / 2,
        call_ensures(rule_to_internal, (x, y, size), loc),
    ensures
        half_before(loc.x as int, x as int, size.w as int),
        half_before(loc.y as int, -y, size.h as int),
{
}

/// Whether nothing but what `surface` owes may have changed of what is owed.
pub open spec fn other_debts_kept<S>(before: DriftWm<S>, after: DriftWm<S>, surface: u64) -> bool {
    forall|other: u64| other != surface ==> {
        &&& #[trigger] after.pending_recenter@.contains_key(other)
            == before.pending_recenter@.contains_key(other)
        &&& before.pending_recenter@.contains_key(other) ==> after.pending_recenter@[other]
            == before.pending_recenter@[other]
    }
}

/// A recenter that is dropped is no longer owed; no other is touched, and nothing else.
pub proof fn law_dropped_debt_is_gone<S: Scalar>(
    before: DriftWm<S>,
    after: DriftWm<S>,
    window: &StageWindow,
)
    requires
        exists|m: &mut DriftWm<S>|
            *m == before && *final(m) == after && #[trigger] call_ensures(
                DriftWm::<S>::drop_owed_recenter,
                (m, window),
                (),
            ),
    ensures
        window matches StageWindow::Client(w) ==> (w.surface matches Some(s) ==>
            !after.pending_recenter@.contains_key(s) && other_debts_kept(before, after, s)),
        window is Suspended || window->Client_0.surface is None ==> after.pending_recenter@
            == before.pending_recenter@,
        after == (DriftWm { pending_recenter: after.pending_recenter, ..before }),
{
}

/// A window placed by a rule point is on top, with the point at the center of its content,
/// at the size it is becoming while it owes a recenter and else at the one it has; it is
/// out of its fill. The recenter it owes is re-aimed at the point, half the bar up, and no
/// other is touched.
#[verifier::spinoff_prover]
pub proof fn law_rule_point_places(
    before: DriftWm<Fixed>,
    after: DriftWm<Fixed>,
    window: &Window,
    x: i32,
    y: i32,
    activate: bool,
    e: int,
    becoming: Size<i32>,
    bar: i32,
    fits: bool,
)
    requires
        call_ensures(configured_window_size, (window,), becoming),
        call_ensures(DriftWm::<Fixed>::client_ssd_bar, (&before, window), bar),
        call_ensures(DriftWm::<Fixed>::fits_rule_point, (&before, window, x, y), fits),
        fits,
        first_with_id(before.stage.windows@, window.id, e),
        exists|m: &mut DriftWm<Fixed>|
            *m == before && *final(m) == after && #[trigger] call_ensures(
                DriftWm::<Fixed>::map_window_to_rule_point,
                (m, window, x, y, activate),
                (),
            ),
    ensures
        ({
            let owing = window.surface matches Some(s) && before.pending_recenter@.contains_key(s);
            let size = if owing {
                becoming
            } else {
                window.geometry
            };
            let (was, got) = (before.stage.windows@, after.stage.windows@);
            let top = got[got.len() - 1];
            &&& crate::promises::stage::raised_from(was, got, e)
            &&& top.id == window.id
            &&& top.size == window.geometry
            &&& half_before(top.position.x as int, x as int, size.w as int)
            &&& half_before(top.position.y as int, -y, size.h as int)
            &&& !top.fill
            &&& e < was.len() ==> top.pin == was[e].pin && top.fit == was[e].fit
            &&& e == was.len() ==> top.pin is None && !top.fit
            &&& owing ==> {
                let s = window.surface->0;
                let debt = after.pending_recenter@[s];
                &&& after.pending_recenter@.contains_key(s)
                &&& debt.pre_exit_size == before.pending_recenter@[s].pre_exit_size
                &&& debt.target_center.x.steps == x * ONE
                &&& 2 * debt.target_center.y.steps == (-2 * y - bar) * ONE
                &&& other_debts_kept(before, after, s)
            }
            &&& !owing ==> after.pending_recenter@ == before.pending_recenter@
        }),
        activate ==> after.stage.activated == Some(window.id),
        !activate ==> after.stage.activated == before.stage.activated,
        after.stage.fullscreen == before.stage.fullscreen,
        after == (DriftWm {
            stage: after.stage,
            pending_recenter: after.pending_recenter,
            ..before
        }),
{
    lemma_half_cut(Fixed::from_i32_spec(bar));
    let was = before.stage.windows@;
    lemma_first_with_id(was, window.id, e);
    let cleared = unfilled(was, window.id);
    assert(first_with_id(cleared, window.id, e));
    lemma_mapped(
        cleared,
        e,
        window.id,
        window.geometry,
        after.stage.windows@[after.stage.windows@.len() - 1].position,
    );
    lemma_first_with_id(cleared, window.id, e);
}

/// A rule point fits a window exactly where its corner is a pixel position, at the size it
/// is placed by.
pub proof fn law_rule_point_fits(
    wm: &DriftWm<Fixed>,
    window: &Window,
    x: i32,
    y: i32,
    becoming: Size<i32>,
    fits: bool,
)
    requires
        call_ensures(configured_window_size, (window,), becoming),
        call_ensures(DriftWm::<Fixed>::fits_rule_point, (wm, window, x, y), fits),
    ensures
        ({
            let owing = window.surface matches Some(s) && wm.pending_recenter@.contains_key(s);
            let size = if owing {
                becoming
            } else {
                window.geometry
            };
            fits <==> 0 <= size.w && 0 <= size.h && -y <= i32::MAX && i32::MIN <= x - size.w as int
                / 2 && i32::MIN <= -y - size.h as int / 2
        }),
{
}

/// An exit puts the window on top where it is restored. A client that has the size it is
/// restored to owes nothing, and its snap rectangle is refreshed if asked for; any other
/// owes the restored center from the size it has, and nothing is refreshed yet. Nobody
/// else's debt is touched.
pub proof fn law_exit_places<S: Scalar>(
    before: DriftWm<S>,
    after: DriftWm<S>,
    window: &StageWindow,
    map_loc: Point<i32>,
    saved: Size<i32>,
    target_center: Point<S>,
    refresh_asked: bool,
    id: u64,
    surface: Option<u64>,
    geometry: Size<i32>,
    e: int,
    refresh: bool,
)
    requires
        call_ensures(StageWindow::id, (window,), id),
        call_ensures(StageWindow::surface, (window,), surface),
        call_ensures(StageWindow::geometry, (window,), geometry),
        first_with_id(before.stage.windows@, id, e),
        exists|m: &mut DriftWm<S>|
            *m == before && *final(m) == after && #[trigger] call_ensures(
                DriftWm::<S>::establish_exit_placement,
                (m, window, map_loc, saved, target_center, refresh_asked),
                refresh,
            ),
    ensures
        mapped_on_top(before.stage.windows@, after.stage.windows@, e, id, geometry, map_loc),
        ({
            let there = saved.w == geometry.w && saved.h == geometry.h;
            &&& refresh <==> there && refresh_asked
            &&& surface is None ==> after.pending_recenter@ == before.pending_recenter@
            &&& surface matches Some(s) ==> {
                &&& after.pending_recenter@.contains_key(s) <==> !there
                &&& !there ==> after.pending_recenter@[s].target_center == target_center
                    && after.pending_recenter@[s].pre_exit_size == geometry
                &&& other_debts_kept(before, after, s)
            }
        }),
        after.stage.activated == before.stage.activated,
        after.stage.fullscreen == before.stage.fullscreen,
        after == (DriftWm {
            stage: after.stage,
            pending_recenter: after.pending_recenter,
            ..before
        }),
{
    lemma_mapped(before.stage.windows@, e, id, geometry, map_loc);
}

/// Whether a viewport is out of flight: nothing pulls at its camera or its zoom, which are
/// where they were, and nothing else has changed.
pub open spec fn landed<S>(was: Output<S>, got: Output<S>) -> bool {
    &&& got.state.camera_target is None
    &&& got.state.zoom_target is None
    &&& got.state.zoom_animation_anchor is None
    &&& got.state.momentum.velocity is None
    &&& got == (Output {
        state: OutputState {
            camera_target: got.state.camera_target,
            zoom_target: got.state.zoom_target,
            zoom_animation_anchor: got.state.zoom_animation_anchor,
            momentum: got.state.momentum,
            ..was.state
        },
        ..was
    })
}

/// Calling off the animations lands every output, and does nothing else.
pub proof fn law_everything_lands<S: Scalar>(before: DriftWm<S>, after: DriftWm<S>, k: int)
    requires
        0 <= k < before.outputs.len(),
        exists|m: &mut DriftWm<S>|
            *m == before && *final(m) == after && #[trigger] call_ensures(
                DriftWm::<S>::cancel_animations_everywhere,
                (m,),
                (),
            ),
    ensures
        after.outputs.len() == before.outputs.len(),
        landed(before.outputs[k], after.outputs[k]),
        after == (DriftWm { outputs: after.outputs, ..before }),
{
}

/// A resize that begins lands every output; takes its window, and no other, out of its fit
/// and its fill where it is; notes where it started from, for its own surface alone; and
/// tells the client that it is resizing and no longer maximized, nothing else.
pub proof fn law_resize_begins<S: Scalar>(
    before: DriftWm<S>,
    after: DriftWm<S>,
    window: Window,
    told: Window,
    surface: u64,
    edges: ResizeEdge,
    location: Point<i32>,
    size: Size<i32>,
    screen_pos: Option<Point<i32>>,
    k: int,
    e: int,
    j: int,
    other: u64,
)
    requires
        0 <= k < before.outputs.len(),
        0 <= j < before.stage.windows.len(),
        first_with_id(before.stage.windows@, window.id, e),
        exists|m: &mut DriftWm<S>, w: &mut Window|
            *m == before && *final(m) == after && *w == window && *final(w) == told
                && #[trigger] call_ensures(
                DriftWm::<S>::begin_client_resize,
                (m, w, surface, edges, location, size, screen_pos),
                (),
            ),
    ensures
        after.outputs.len() == before.outputs.len(),
        landed(before.outputs[k], after.outputs[k]),
        after.stage.windows.len() == before.stage.windows.len(),
        j != e ==> after.stage.windows[j] == before.stage.windows[j],
        e < before.stage.windows.len() ==> {
            let (was, got) = (before.stage.windows[e], after.stage.windows[e]);
            !got.fit && !got.fill && got.id == was.id && got.position == was.position && got.size
                == was.size && got.pin == was.pin
        },
        after.stage.activated == before.stage.activated,
        after.stage.fullscreen == before.stage.fullscreen,
        after.resize_states@.contains_key(surface),
        after.resize_states@[surface] matches ResizeState::Resizing {
            edges: noted,
            initial_window_location,
            initial_window_size,
            initial_screen_pos,
            last_committed_size,
        } && noted == edges && initial_window_location == location && initial_window_size == size
            && initial_screen_pos == screen_pos && last_committed_size == size,
        other != surface ==> after.resize_states@.contains_key(other)
            == before.resize_states@.contains_key(other),
        other != surface && before.resize_states@.contains_key(other)
            ==> after.resize_states@[other] == before.resize_states@[other],
        after == (DriftWm {
            outputs: after.outputs,
            stage: after.stage,
            resize_states: after.resize_states,
            ..before
        }),
        told.id == window.id && told.surface == window.surface && told.geometry == window.geometry,
        told.toplevel is Some <==> window.toplevel is Some,
        told.toplevel matches Some(t) ==> t.resizing && !t.maximized && t.pending_size
            == window.toplevel->0.pending_size,
{
    let windows = before.stage.windows@;
    lemma_first_with_id(windows, window.id, e);
    let first = unfit(windows, window.id);
    assert(first_with_id(first, window.id, e));
    lemma_first_with_id(first, window.id, e);
}

} // verus!
