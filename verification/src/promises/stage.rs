//! What the stage and the frames around its windows promise.

use vstd::prelude::*;

use crate::fixed::{Fixed, ONE};
use crate::geometry::{Point, Size};
use crate::promises::closing::lemma_half_cut;
use crate::promises::numbers::is_cut;
use crate::scalar::Scalar;
use crate::state::{
    has_id, is_named, is_on, law_search_finds_the_first, AppliedRule, DecorationConfig,
    DecorationMode, DriftWm, FullscreenEntry, Output, Stage, StageEntry, StageWindow, Window,
};
use crate::window_frame::{
    configured_window_size, frame_fits, frame_loc_for_center, visual_frame_center,
};

verus! {

broadcast use vstd::std_specs::hash::group_hash_axioms;

/// Whether `e` is where the first element `id` of a stage is, or the end if there is none.
pub open spec fn first_with_id(windows: Seq<StageEntry>, id: u64, e: int) -> bool {
    &&& 0 <= e <= windows.len()
    &&& forall|j: int| 0 <= j < e ==> (#[trigger] windows[j]).id != id
    &&& e < windows.len() ==> windows[e].id == id
}

/// Whether `o` is the first output of that name, or the end if there is none.
pub open spec fn first_named<S>(outputs: Seq<Output<S>>, name: Seq<char>, o: int) -> bool {
    &&& 0 <= o <= outputs.len()
    &&& forall|j: int| 0 <= j < o ==> (#[trigger] outputs[j]).name@ != name
    &&& o < outputs.len() ==> outputs[o].name@ == name
}

/// Whether `f` is the first fullscreen window on that output, or the end if there is none.
pub open spec fn first_covering(fullscreen: Seq<FullscreenEntry>, name: Seq<char>, f: int) -> bool {
    &&& 0 <= f <= fullscreen.len()
    &&& forall|j: int| 0 <= j < f ==> (#[trigger] fullscreen[j]).output@ != name
    &&& f < fullscreen.len() ==> fullscreen[f].output@ == name
}

pub proof fn lemma_first_with_id(windows: Seq<StageEntry>, id: u64, e: int)
    requires
        first_with_id(windows, id, e),
    ensures
        crate::state::entry_index(windows, id) == if e < windows.len() {
            Some(e)
        } else {
            None
        },
{
    law_search_finds_the_first(windows, has_id(id));
    if e < windows.len() {
        assert(has_id(id)(windows[e]));
    }
}

pub proof fn lemma_first_named<S>(outputs: Seq<Output<S>>, name: Seq<char>, o: int)
    requires
        first_named(outputs, name, o),
    ensures
        crate::state::output_index(outputs, name) == if o < outputs.len() {
            Some(o)
        } else {
            None
        },
{
    law_search_finds_the_first(outputs, is_named(name));
    if o < outputs.len() {
        assert(is_named::<S>(name)(outputs[o]));
    }
}

pub proof fn lemma_first_covering(fullscreen: Seq<FullscreenEntry>, name: Seq<char>, f: int)
    requires
        first_covering(fullscreen, name, f),
    ensures
        crate::state::fullscreen_index(fullscreen, name) == if f < fullscreen.len() {
            Some(f)
        } else {
            None
        },
{
    law_search_finds_the_first(fullscreen, is_on(name));
    if f < fullscreen.len() {
        assert(is_on(name)(fullscreen[f]));
    }
}

/// What an element says of itself is what it holds; a stand-in has no surface.
pub proof fn law_elements_tell(
    window: &StageWindow,
    id: u64,
    surface: Option<u64>,
    geometry: Size<i32>,
)
    requires
        call_ensures(StageWindow::id, (window,), id),
        call_ensures(StageWindow::surface, (window,), surface),
        call_ensures(StageWindow::geometry, (window,), geometry),
    ensures
        window matches StageWindow::Client(w) ==> id == w.id && surface == w.surface && geometry
            == w.geometry,
        window matches StageWindow::Suspended(w) ==> id == w.id && surface is None && geometry
            == w.geometry,
{
}

/// Every search finds the first that matches, and what it is asked about it.
pub proof fn law_searches_find<S: Scalar>(
    wm: &DriftWm<S>,
    id: u64,
    name: &String,
    e: int,
    o: int,
    f: int,
    index: Option<usize>,
    position: Option<Point<i32>>,
    output: Option<usize>,
    saved: Option<Size<i32>>,
)
    requires
        first_with_id(wm.stage.windows@, id, e),
        first_named(wm.outputs@, name@, o),
        first_covering(wm.stage.fullscreen@, name@, f),
        call_ensures(Stage::index_of, (&wm.stage, id), index),
        call_ensures(Stage::position_of, (&wm.stage, id), position),
        call_ensures(DriftWm::<S>::output_by_name, (wm, name), output),
        call_ensures(Stage::fullscreen_on, (&wm.stage, name), saved),
    ensures
        index is Some <==> e < wm.stage.windows.len(),
        index matches Some(k) ==> k == e,
        position is Some <==> e < wm.stage.windows.len(),
        position matches Some(at) ==> at == wm.stage.windows[e].position,
        output is Some <==> o < wm.outputs.len(),
        output matches Some(k) ==> k == o,
        saved is Some <==> f < wm.stage.fullscreen.len(),
        saved matches Some(size) ==> size == wm.stage.fullscreen[f].saved_size,
{
    lemma_first_with_id(wm.stage.windows@, id, e);
    lemma_first_named(wm.outputs@, name@, o);
    lemma_first_covering(wm.stage.fullscreen@, name@, f);
}

/// Whether `after` is `before` with the element at `e` on top: below it all the others, in
/// their order.
pub open spec fn raised_from(before: Seq<StageEntry>, after: Seq<StageEntry>, e: int) -> bool {
    &&& after.len() == if e < before.len() {
        before.len()
    } else {
        before.len() + 1
    }
    &&& forall|j: int| 0 <= j < e ==> #[trigger] after[j] == before[j]
    &&& forall|j: int| e <= j < after.len() - 1 ==> #[trigger] after[j] == before[j + 1]
}

/// Whether the top element is where and as large as it was mapped, and else as it was, or
/// new and plain.
pub open spec fn mapped_on_top(
    before: Seq<StageEntry>,
    after: Seq<StageEntry>,
    e: int,
    id: u64,
    size: Size<i32>,
    loc: Point<i32>,
) -> bool {
    let top = after[after.len() - 1];
    &&& raised_from(before, after, e)
    &&& top.id == id
    &&& top.position == loc
    &&& top.size == size
    &&& if e < before.len() {
        top.pin == before[e].pin && top.fit == before[e].fit && top.fill == before[e].fill
    } else {
        top.pin is None && !top.fit && !top.fill
    }
}

pub proof fn lemma_mapped(
    windows: Seq<StageEntry>,
    e: int,
    id: u64,
    size: Size<i32>,
    loc: Point<i32>,
)
    requires
        first_with_id(windows, id, e),
    ensures
        mapped_on_top(windows, crate::state::mapped(windows, id, size, loc), e, id, size, loc),
{
    lemma_first_with_id(windows, id, e);
}

/// Mapping a window puts it on top, where and as large as it is mapped, and activates it if
/// asked to; nothing else of the stage changes.
pub proof fn law_mapping_raises(
    before: Stage,
    after: Stage,
    id: u64,
    size: Size<i32>,
    loc: Point<i32>,
    activate: bool,
    e: int,
)
    requires
        first_with_id(before.windows@, id, e),
        exists|m: &mut Stage|
            *m == before && *final(m) == after && #[trigger] call_ensures(
                Stage::map_window,
                (m, id, size, loc, activate),
                (),
            ),
    ensures
        mapped_on_top(before.windows@, after.windows@, e, id, size, loc),
        activate ==> after.activated == Some(id),
        !activate ==> after.activated == before.activated,
        after.fullscreen == before.fullscreen,
{
    lemma_mapped(before.windows@, e, id, size, loc);
}

/// Whether only the element at `e` may differ, and no more of it than its size, its fit and
/// its fill.
pub open spec fn only_flags(before: Stage, after: Stage, e: int) -> bool {
    &&& after.windows.len() == before.windows.len()
    &&& forall|j: int|
        0 <= j < before.windows.len() && j != e ==> #[trigger] after.windows[j]
            == before.windows[j]
    &&& e < before.windows.len() ==> {
        &&& after.windows[e].id == before.windows[e].id
        &&& after.windows[e].position == before.windows[e].position
        &&& after.windows[e].pin == before.windows[e].pin
    }
    &&& after.activated == before.activated
    &&& after.fullscreen == before.fullscreen
}

/// A commit on record is the window's size; a window taken out of its fit or its fill is
/// out of it and not of the other. Nothing else changes.
pub proof fn law_marks_change_one_thing(
    before: Stage,
    recorded: Stage,
    unfit: Stage,
    unfilled: Stage,
    id: u64,
    size: Size<i32>,
    e: int,
)
    requires
        first_with_id(before.windows@, id, e),
        exists|m: &mut Stage|
            *m == before && *final(m) == recorded && #[trigger] call_ensures(
                Stage::record_commit,
                (m, id, size),
                (),
            ),
        exists|m: &mut Stage|
            *m == before && *final(m) == unfit && #[trigger] call_ensures(
                Stage::clear_fit,
                (m, id),
                (),
            ),
        exists|m: &mut Stage|
            *m == before && *final(m) == unfilled && #[trigger] call_ensures(
                Stage::clear_fill,
                (m, id),
                (),
            ),
    ensures
        only_flags(before, recorded, e),
        only_flags(before, unfit, e),
        only_flags(before, unfilled, e),
        e < before.windows.len() ==> {
            let (was, a, b, c) = (
                before.windows[e],
                recorded.windows[e],
                unfit.windows[e],
                unfilled.windows[e],
            );
            &&& a.size == size && a.fit == was.fit && a.fill == was.fill
            &&& b.size == was.size && !b.fit && b.fill == was.fill
            &&& c.size == was.size && c.fit == was.fit && !c.fill
        },
{
    lemma_first_with_id(before.windows@, id, e);
}

/// A title bar is above every stand-in and above every client whose surface the compositor
/// decorates, as high as it is set; above any other there is none.
pub proof fn law_bars(wm: &DriftWm<Fixed>, window: &StageWindow, bar: i32)
    requires
        call_ensures(DriftWm::<Fixed>::window_ssd_bar, (wm, window), bar),
    ensures
        window is Suspended ==> bar == wm.decoration_config.title_bar_height,
        window matches StageWindow::Client(w) ==> {
            let decorated = w.surface matches Some(s) && wm.decorations@.contains(s);
            &&& decorated ==> bar == wm.decoration_config.title_bar_height
            &&& !decorated ==> bar == 0
        },
{
}

/// A client has the same bar however it is asked for.
pub proof fn law_client_bar(wm: &DriftWm<Fixed>, window: &Window, client: i32, any: i32)
    requires
        call_ensures(DriftWm::<Fixed>::client_ssd_bar, (wm, window), client),
        call_ensures(
            DriftWm::<Fixed>::window_ssd_bar,
            (wm, &StageWindow::Client(*window)),
            any,
        ),
    ensures
        client == any,
{
}

/// Whether a border is as wide as a rule, if there is one, and the settings say: nothing
/// where nobody draws a frame, and else what the rule sets, before the settings.
pub open spec fn border_by(
    width: i32,
    rule: Option<AppliedRule>,
    config: DecorationConfig,
) -> bool {
    let by_rule = rule matches Some(r) && r.decoration is Some;
    let off = if by_rule {
        rule->0.decoration == Some(DecorationMode::Off)
    } else {
        config.default_mode is Off
    };
    &&& off ==> width == 0
    &&& !off && (rule matches Some(r) && r.border_width is Some) ==> Some(width)
        == rule->0.border_width
    &&& !off && !(rule matches Some(r) && r.border_width is Some) ==> width == config.border_width
}

/// Borders are as wide as the window's rule and the settings say: by the settings alone for
/// a stand-in and for a surface without a rule; a client without a surface has none.
pub proof fn law_borders(
    wm: &DriftWm<Fixed>,
    surface: u64,
    window: &StageWindow,
    default_width: i32,
    width: i32,
    any: i32,
)
    requires
        call_ensures(DriftWm::<Fixed>::default_border_width, (wm,), default_width),
        call_ensures(DriftWm::<Fixed>::window_border_width, (wm, surface), width),
        call_ensures(DriftWm::<Fixed>::element_border_width, (wm, window), any),
    ensures
        border_by(default_width, None, wm.decoration_config),
        wm.rules@.contains_key(surface) ==> border_by(
            width,
            Some(wm.rules@[surface]),
            wm.decoration_config,
        ),
        !wm.rules@.contains_key(surface) ==> width == default_width,
        window is Suspended ==> any == default_width,
        window matches StageWindow::Client(w) ==> (w.surface is None ==> any == 0),
        window matches StageWindow::Client(w) ==> (w.surface == Some(surface) ==> any == width),
{
}

/// A window is becoming the size last sent to it, if one was and it has an area; else it is
/// the size it has.
pub proof fn law_becoming(window: &Window, size: Size<i32>)
    requires
        call_ensures(configured_window_size, (window,), size),
    ensures
        ({
            let sent = window.toplevel matches Some(t) && (t.pending_size matches Some(s) && s.w > 0
                && s.h > 0);
            &&& sent ==> Some(size) == window.toplevel->0.pending_size
            &&& !sent ==> size == window.geometry
        }),
{
}

/// Whether a point is in the middle of the frame around content at `loc`, its title bar
/// included: equally far from the frame's two edges, on each axis.
pub open spec fn mid_frame(
    center: Point<Fixed>,
    loc: Point<i32>,
    size: Size<i32>,
    bar: i32,
) -> bool {
    &&& 2 * center.x.steps == (loc.x + (loc.x + size.w)) * ONE
    &&& 2 * center.y.steps == ((loc.y - bar) + (loc.y + size.h)) * ONE
}

/// The visual center is in the middle of the frame, for a bar of whole pixels.
pub proof fn law_visual_center_is_in_the_middle(
    loc: Point<i32>,
    size: Size<i32>,
    bar: i32,
    center: Point<Fixed>,
)
    requires
        call_ensures(
            visual_frame_center::<Fixed>,
            (loc, size, Fixed { steps: (bar * ONE) as i64 }),
            center,
        ),
    ensures
        mid_frame(center, loc, size, bar),
{
    lemma_half_cut(Fixed::from_i32_spec(size.w));
    lemma_half_cut(
        Fixed::from_i32_spec(size.h).plus_spec(Fixed { steps: (bar * ONE) as i64 }),
    );
}

/// A window's visual center is the middle of its frame, where the stage has it, under its
/// own title bar and at the size it is becoming; a window that is not on the stage has
/// none.
pub proof fn law_window_center_is_mid_frame(
    wm: &DriftWm<Fixed>,
    window: &Window,
    e: int,
    size: Size<i32>,
    bar: i32,
    center: Option<Point<Fixed>>,
)
    requires
        first_with_id(wm.stage.windows@, window.id, e),
        call_ensures(configured_window_size, (window,), size),
        call_ensures(DriftWm::<Fixed>::client_ssd_bar, (wm, window), bar),
        call_ensures(DriftWm::<Fixed>::window_visual_center, (wm, window), center),
    ensures
        center is Some <==> e < wm.stage.windows.len(),
        center matches Some(c) ==> mid_frame(c, wm.stage.windows[e].position, size, bar),
{
    lemma_first_with_id(wm.stage.windows@, window.id, e);
    lemma_half_cut(Fixed::from_i32_spec(size.w));
    lemma_half_cut(
        Fixed::from_i32_spec(size.h).plus_spec(Fixed { steps: (bar * ONE) as i64 }),
    );
}

/// Whether `start` is the pixel at which a frame `extent` long starts, to be centered on
/// `center`, cut toward zero.
pub open spec fn starts_for(start: int, center: Fixed, extent: int) -> bool {
    is_cut(start, 2 * center.steps - extent * ONE, 2 * ONE)
}

/// A frame placed around a center starts half its extent before it, on each axis, on the
/// nearest pixel toward zero; the content is as far below as the bar is high. There is a
/// corner exactly where the frame's height and the content's position are pixels.
#[verifier::spinoff_prover]
pub proof fn law_frame_is_placed(
    center: Point<Fixed>,
    size: Size<i32>,
    bar: i32,
    fits: bool,
    loc: Point<i32>,
)
    requires
        // The frame's corner is representable.
        i32::MIN * ONE <= center.x.steps - size.w * ONE / 2 <= i32::MAX * ONE,
        i32::MIN * ONE <= center.y.steps - (size.h + bar) * ONE / 2 <= i32::MAX * ONE,
        call_ensures(frame_fits::<Fixed>, (center, size, bar), fits),
        fits ==> call_ensures(frame_loc_for_center::<Fixed>, (center, size, bar), loc),
    ensures
        fits ==> starts_for(loc.x as int, center.x, size.w as int),
        fits ==> starts_for(loc.y - bar, center.y, size.h + bar),
        fits <==> i32::MIN <= size.h + bar <= i32::MAX && forall|top: int|
            #[trigger] starts_for(top, center.y, size.h + bar) ==> i32::MIN <= top + bar
                <= i32::MAX,
{
    assert(2 * ONE == 2097152);
    lemma_frame_start(center.x, size.w);
    if i32::MIN <= size.h + bar <= i32::MAX {
        let total = (size.h + bar) as i32;
        lemma_frame_start(center.y, total);
        let top = crate::window_frame::frame_start(center.y, total) as int;
        assert forall|other: int| #[trigger] starts_for(other, center.y, size.h + bar) implies other
            == top by {
            crate::promises::numbers::lemma_cut_is_unique(
                other,
                top,
                2 * center.y.steps - (size.h + bar) * ONE,
                2 * ONE,
            );
        }
        assert(starts_for(top, center.y, size.h + bar));
    }
}

#[verifier::spinoff_prover]
proof fn lemma_frame_start(center: Fixed, extent: i32)
    requires
        i32::MIN * ONE <= center.steps - extent * ONE / 2 <= i32::MAX * ONE,
    ensures
        starts_for(
            crate::window_frame::frame_start(center, extent) as int,
            center,
            extent as int,
        ),
{
    assert(2 * ONE == 2097152);
    let long = Fixed::from_i32_spec(extent);
    lemma_half_cut(long);
    let half = crate::scalar::half_spec(long);
    assert(2 * half.steps == extent * ONE);
    let d = center.minus_spec(half);
    assert(d.steps == center.steps - half.steps);
    let t = d.trunc_spec();
    crate::promises::numbers::lemma_toward_zero_is_cut(d.steps as int, ONE as int);
    assert(is_cut(t as int, d.steps as int, ONE as int));
}

} // verus!
