//! What the animations of live windows promise.

use vstd::prelude::*;

use crate::fixed::{between, in_unit, law_lerp_approaches, lemma_share, Fixed, ONE};
use crate::geometry::{Point, Rect, Size};
use crate::promises::numbers::{
    clamped, is_cut, lemma_advance_cut, lemma_cut_is_unique, lemma_lerp_cut, lemma_on_the_way,
    lemma_times_cut, on_the_way,
};
use crate::scalar::Scalar;
use crate::time::Instant;
use crate::window_animation::{
    carried_request, content_scale, resize_request, AnimSpace, AnimatedVisual, AnimationKind,
    ContentPolicy, Geometry, GeometryRole, Picture, ScopingEntry, StartHold, WindowAnimations,
};

verus! {

/// Whether every window but `id` has the entry it had.
pub open spec fn others_kept<S>(
    before: WindowAnimations<S>,
    after: WindowAnimations<S>,
    id: u64,
) -> bool {
    forall|other: u64| other != id ==> {
        &&& #[trigger] after.entries().contains_key(other) == before.entries().contains_key(other)
        &&& before.entries().contains_key(other) ==> after.entries()[other]
            == before.entries()[other]
    }
}

/// Whether two spaces are one: both the canvas, or screens of the same name.
pub open spec fn one_space(a: AnimSpace, b: AnimSpace) -> bool {
    match a {
        AnimSpace::Canvas => b is Canvas,
        AnimSpace::Screen(name) => b matches AnimSpace::Screen(other) && name@ == other@,
    }
}

/// Whether a start asks something of the client: a size, on some axis another one than it
/// has.
pub open spec fn asks(requested: Option<Size<i32>>, committed: Size<i32>) -> bool {
    requested matches Some(size) && (size.w != committed.w || size.h != committed.h)
}

/// After every start, fresh or a retarget, the window has a chase, in the space and the
/// role that the start was given, and at the very start of its leg. The picture is the
/// one the chase had, where a retarget stays in its space and does not replace it, and
/// else the seed. No other window's entry changes.
pub proof fn law_start_is_as_given<S: Scalar>(
    before: WindowAnimations<S>,
    after: WindowAnimations<S>,
    id: u64,
    seed: Rect<S>,
    space: AnimSpace,
    requested: Option<Size<i32>>,
    committed: Size<i32>,
    role: GeometryRole,
    replace: bool,
    policy: ContentPolicy,
)
    requires
        exists|m: &mut WindowAnimations<S>|
            *m == before && *final(m) == after && #[trigger] call_ensures(
                WindowAnimations::<S>::start_geometry,
                (m, id, seed, space, requested, committed, role, replace, policy),
                (),
            ),
    ensures
        after.chase(id) matches Some(h) && {
            &&& h.space == space
            &&& h.role == role
            &&& h.last_committed_size == committed
            &&& h.visual == match before.chase(id) {
                Some(g) => if replace || !one_space(g.space, space) {
                    seed
                } else {
                    g.visual
                },
                None => seed,
            }
            &&& h.from == h.visual
            &&& h.leg_target == h.visual
            &&& h.progress == S::from_i32_spec(0)
        },
        others_kept(before, after, id),
{
}

/// A start that asks for a size restates everything that is waited for, under a stamp
/// that no request had before; any other start leaves all of it as it was, and a fresh
/// chase waits for nothing.
pub proof fn law_start_states_the_wait<S: Scalar>(
    before: WindowAnimations<S>,
    after: WindowAnimations<S>,
    id: u64,
    seed: Rect<S>,
    space: AnimSpace,
    requested: Option<Size<i32>>,
    committed: Size<i32>,
    role: GeometryRole,
    replace: bool,
    policy: ContentPolicy,
)
    requires
        asks(requested, committed) ==> before.stamp() < u64::MAX,
        exists|m: &mut WindowAnimations<S>|
            *m == before && *final(m) == after && #[trigger] call_ensures(
                WindowAnimations::<S>::start_geometry,
                (m, id, seed, space, requested, committed, role, replace, policy),
                (),
            ),
    ensures
        after.stamp() == before.stamp() + if asks(requested, committed) {
            1int
        } else {
            0
        },
        after.chase(id) matches Some(h) && if asks(requested, committed) {
            &&& h.requested_size == requested
            &&& h.buffer_stale
            &&& h.content_policy == policy
            &&& h.hold_deadline is None
            &&& h.start_hold is Armed <==> policy is Cap
            &&& h.start_hold is Off <==> policy is Stretch
            &&& h.generation == after.stamp()
        } else {
            match before.chase(id) {
                Some(g) => {
                    &&& h.requested_size == g.requested_size
                    &&& h.buffer_stale == g.buffer_stale
                    &&& h.content_policy == g.content_policy
                    &&& h.hold_deadline == g.hold_deadline
                    &&& h.start_hold == g.start_hold
                    &&& h.generation == g.generation
                },
                None => {
                    &&& h.requested_size is None
                    &&& !h.buffer_stale
                    &&& h.content_policy == policy
                    &&& h.hold_deadline is None
                    &&& h.start_hold is Off
                    &&& h.generation == before.stamp()
                },
            }
        },
{
}

/// What a freeze keeps on screen is what was there when it began: a window on its way
/// into fullscreen as it was, pinned or not, and one on its way out still covering its
/// output. A start on a frozen chase leaves it.
pub proof fn law_start_keeps_the_picture<S: Scalar>(
    before: WindowAnimations<S>,
    after: WindowAnimations<S>,
    id: u64,
    seed: Rect<S>,
    space: AnimSpace,
    requested: Option<Size<i32>>,
    committed: Size<i32>,
    role: GeometryRole,
    replace: bool,
    policy: ContentPolicy,
)
    requires
        exists|m: &mut WindowAnimations<S>|
            *m == before && *final(m) == after && #[trigger] call_ensures(
                WindowAnimations::<S>::start_geometry,
                (m, id, seed, space, requested, committed, role, replace, policy),
                (),
            ),
    ensures
        after.chase(id) matches Some(h) && if before.chase(id) matches Some(g)
            && !(g.start_hold is Off) {
            h.picture == before.chase(id)->0.picture
        } else {
            match role {
                GeometryRole::Normal => h.picture is None,
                GeometryRole::FullscreenEntry { was_pinned } => h.picture == Some(
                    Picture::Windowed { pinned: was_pinned },
                ),
                GeometryRole::FullscreenExit { output } => h.picture == Some(
                    Picture::Fullscreen { output },
                ),
            }
        },
{
}

/// What is drawn for a window with a chase is the chase's own picture, opaque: where its
/// rectangle is and as large, whatever the live rectangle. Its content is kept from being
/// magnified exactly while a stale buffer that was asked to change is not frozen. Every
/// way of asking for the rectangle gives the same one, in the space it was seeded in.
pub proof fn law_chase_is_drawn_where_it_is<S: Scalar>(
    animations: &WindowAnimations<S>,
    id: u64,
    target_loc: Point<S>,
    target_size: Size<S>,
    open_scale: S,
    drawn: AnimatedVisual<S>,
    rect: Option<Rect<S>>,
    listed: Vec<ScopingEntry<S>>,
)
    requires
        animations.chase(id) is Some,
        call_ensures(
            WindowAnimations::<S>::animated_visual,
            (animations, id, target_loc, target_size, open_scale),
            drawn,
        ),
        call_ensures(WindowAnimations::<S>::geometry_visual_rect, (animations, id), rect),
        call_ensures(WindowAnimations::<S>::scoping_entries, (animations,), listed),
    ensures
        ({
            let g = animations.chase(id)->0;
            &&& rect == Some(Rect { loc: drawn.loc, size: drawn.size })
            &&& drawn.loc == g.visual.loc
            &&& drawn.size == g.visual.size
            &&& drawn.alpha == S::from_i32_spec(1)
            &&& drawn.cap_content <==> g.buffer_stale && g.content_policy is Cap
                && g.start_hold is Off
            &&& exists|k: int|
                0 <= k < listed.len() && (#[trigger] listed[k]) == (
                    id,
                    Some((g.space, g.visual)),
                )
        }),
{
    let k = choose|k: int| 0 <= k < listed.len() && (#[trigger] listed[k]).0 == id;
    let g = animations.chase(id)->0;
    assert(listed[k] == (id, Some((g.space, g.visual))));
}

/// Nothing that is not animated is drawn anywhere but on its live rectangle, opaque, and
/// nothing of it is reported.
pub proof fn law_rest_is_drawn_live<S: Scalar>(
    animations: &WindowAnimations<S>,
    id: u64,
    target_loc: Point<S>,
    target_size: Size<S>,
    open_scale: S,
    drawn: AnimatedVisual<S>,
    listed: Vec<ScopingEntry<S>>,
    k: int,
)
    requires
        !animations.entries().contains_key(id),
        call_ensures(
            WindowAnimations::<S>::animated_visual,
            (animations, id, target_loc, target_size, open_scale),
            drawn,
        ),
        call_ensures(WindowAnimations::<S>::scoping_entries, (animations,), listed),
        0 <= k < listed.len(),
    ensures
        drawn.loc == target_loc,
        drawn.size == target_size,
        drawn.alpha == S::from_i32_spec(1),
        !drawn.cap_content,
        listed[k].0 != id,
{
}

/// The questions about a chase are answered by it, and of a window without one the
/// answers are no and nothing. A window that opens is listed without a rectangle.
pub proof fn law_questions_are_answered<S: Scalar>(
    animations: &WindowAnimations<S>,
    id: u64,
    held: bool,
    picture: Option<&Picture>,
    generation: Option<u64>,
    latest: u64,
    rect: Option<Rect<S>>,
    entering: bool,
    listed: Vec<ScopingEntry<S>>,
    active: bool,
    count: usize,
)
    requires
        call_ensures(WindowAnimations::<S>::start_held, (animations, id), held),
        call_ensures(WindowAnimations::<S>::frozen_picture, (animations, id), picture),
        call_ensures(WindowAnimations::<S>::generation_of, (animations, id), generation),
        call_ensures(WindowAnimations::<S>::latest_generation, (animations,), latest),
        call_ensures(WindowAnimations::<S>::geometry_visual_rect, (animations, id), rect),
        call_ensures(WindowAnimations::<S>::fullscreen_entry_active, (animations, id), entering),
        call_ensures(WindowAnimations::<S>::scoping_entries, (animations,), listed),
        call_ensures(WindowAnimations::<S>::is_active, (animations,), active),
        call_ensures(WindowAnimations::<S>::len, (animations,), count),
    ensures
        match animations.chase(id) {
            Some(g) => {
                &&& held <==> g.start_hold is Armed || g.start_hold is Until
                &&& held && g.picture is Some ==> picture is Some && *picture->0 == g.picture->0
                &&& !held || g.picture is None ==> picture is None
                &&& generation == Some(g.generation)
                &&& rect == Some(g.visual)
                &&& entering <==> (g.role matches GeometryRole::FullscreenEntry { .. })
            },
            None => {
                &&& !held
                &&& picture is None
                &&& generation is None
                &&& rect is None
                &&& !entering
            },
        },
        latest == animations.stamp(),
        active <==> exists|other: u64| animations.entries().contains_key(other),
        count == listed.len(),
        count == animations.entries().dom().len(),
        active <==> count > 0,
        animations.entries().contains_key(id) && animations.entries()[id] is Open ==> exists|
            k: int,
        |
            0 <= k < listed.len() && (#[trigger] listed[k]) == (
                id,
                None::<(AnimSpace, Rect<S>)>,
            ),
{
    let entries = animations.entries();
    if exists|other: u64| entries.contains_key(other) {
        let other = choose|other: u64| entries.contains_key(other);
        assert(entries.dom().contains(other));
        assert(!(entries.dom() =~= Set::empty()));
        assert(entries.dom().len() > 0);
    } else {
        assert(entries.dom() =~= Set::empty());
        assert(entries.dom().len() == 0);
    }
    if entries.contains_key(id) && entries[id] is Open {
        let k = choose|k: int| 0 <= k < listed.len() && (#[trigger] listed[k]).0 == id;
        assert(listed[k] == (id, None::<(AnimSpace, Rect<S>)>));
    }
}

/// A window that opens starts at nothing, in place of whatever entry it had; a removed
/// entry is gone. Neither touches another window, nor the stamps.
pub proof fn law_open_and_remove<S: Scalar>(
    before: WindowAnimations<S>,
    opened: WindowAnimations<S>,
    removed: WindowAnimations<S>,
    id: u64,
)
    requires
        exists|m: &mut WindowAnimations<S>|
            *m == before && *final(m) == opened && #[trigger] call_ensures(
                WindowAnimations::<S>::start_open,
                (m, id),
                (),
            ),
        exists|m: &mut WindowAnimations<S>|
            *m == before && *final(m) == removed && #[trigger] call_ensures(
                WindowAnimations::<S>::remove,
                (m, id),
                (),
            ),
    ensures
        opened.entries().contains_key(id),
        opened.entries()[id] == (AnimationKind::Open { progress: S::from_i32_spec(0) }),
        others_kept(before, opened, id),
        opened.stamp() == before.stamp(),
        !removed.entries().contains_key(id),
        others_kept(before, removed, id),
        removed.stamp() == before.stamp(),
{
}

/// There is nothing to start with.
pub proof fn law_new_is_empty<S: Scalar>(
    fresh: WindowAnimations<S>,
    by_default: WindowAnimations<S>,
    id: u64,
)
    requires
        call_ensures(WindowAnimations::<S>::new, (), fresh),
        call_ensures(WindowAnimations::<S>::default, (), by_default),
    ensures
        !fresh.entries().contains_key(id),
        fresh.stamp() == 0,
        !by_default.entries().contains_key(id),
        by_default.stamp() == 0,
{
}

/// Of the windows that have an entry exactly those keep it, as it was, whose id is said to
/// resolve.
pub proof fn law_retained_ids_resolve<S: Scalar, F: Fn(u64) -> bool>(
    before: WindowAnimations<S>,
    after: WindowAnimations<S>,
    resolves: F,
    known: spec_fn(u64) -> bool,
    id: u64,
)
    requires
        forall|id: u64, r: bool| #[trigger]
            call_ensures(resolves, (id,), r) ==> r == known(id),
        exists|m: &mut WindowAnimations<S>|
            *m == before && *final(m) == after && #[trigger] call_ensures(
                WindowAnimations::<S>::retain_ids,
                (m, resolves),
                (),
            ),
    ensures
        after.entries().contains_key(id) <==> before.entries().contains_key(id) && known(id),
        after.entries().contains_key(id) ==> after.entries()[id] == before.entries()[id],
        after.stamp() == before.stamp(),
{
}

/// A freeze is held from when it is armed until it is off. A reading of the clock some time
/// later is later by that time, and comes before another that is greater.
pub proof fn law_clock_and_freeze(
    hold: StartHold,
    now: Instant,
    nanos: u64,
    other: Instant,
    held: bool,
    later: Instant,
    before: bool,
)
    requires
        now.nanos + nanos <= u64::MAX,
        call_ensures(StartHold::is_held, (hold,), held),
        call_ensures(Instant::later, (now, nanos), later),
        call_ensures(Instant::before, (now, other), before),
    ensures
        held <==> hold is Armed || hold is Until,
        later.nanos == now.nanos + nanos,
        before <==> now.nanos < other.nanos,
{
}

/// Whether two numbers are more than half a pixel apart.
pub open spec fn half_apart(a: Fixed, b: Fixed) -> bool {
    2 * (a.steps - b.steps) > ONE || 2 * (b.steps - a.steps) > ONE
}

/// Whether two rectangles are more than half a pixel apart in position or extent, on any
/// axis.
pub open spec fn moved_off(a: Rect<Fixed>, b: Rect<Fixed>) -> bool {
    ||| half_apart(a.loc.x, b.loc.x)
    ||| half_apart(a.loc.y, b.loc.y)
    ||| half_apart(a.size.w, b.size.w)
    ||| half_apart(a.size.h, b.size.h)
}

/// Where a chase is headed: the window's position, at the size asked of the client or
/// else at its live size.
pub open spec fn heading(g: Geometry<Fixed>, loc: Point<Fixed>, live_size: Size<Fixed>) -> Rect<
    Fixed,
> {
    Rect {
        loc,
        size: match g.requested_size {
            Some(size) => Size {
                w: Fixed { steps: (size.w * ONE) as i64 },
                h: Fixed { steps: (size.h * ONE) as i64 },
            },
            None => live_size,
        },
    }
}

/// Where the leg that a tick flies starts, and how much of it was behind: a fresh one from
/// the picture if the heading has moved off.
pub open spec fn leg_start(g: Geometry<Fixed>, heading: Rect<Fixed>) -> (Rect<Fixed>, int) {
    if moved_off(g.leg_target, heading) {
        (g.visual, 0)
    } else {
        (g.from, g.progress.steps as int)
    }
}

/// Whether `v` has covered the share `p` of the way from `a` to `b`, to a step.
pub open spec fn covers_share(a: Fixed, v: Fixed, b: Fixed, p: Fixed) -> bool {
    is_cut(v.steps - a.steps, (b.steps - a.steps) * p.steps, ONE as int)
}

/// The same of rectangles, on every axis.
pub open spec fn part_way(a: Rect<Fixed>, v: Rect<Fixed>, b: Rect<Fixed>, p: Fixed) -> bool {
    &&& covers_share(a.loc.x, v.loc.x, b.loc.x, p)
    &&& covers_share(a.loc.y, v.loc.y, b.loc.y, p)
    &&& covers_share(a.size.w, v.size.w, b.size.w, p)
    &&& covers_share(a.size.h, v.size.h, b.size.h, p)
}

/// Whether a way is representable, between extents that are not negative.
pub open spec fn passable(a: Rect<Fixed>, b: Rect<Fixed>) -> bool {
    &&& i64::MIN <= b.loc.x.steps - a.loc.x.steps <= i64::MAX
    &&& i64::MIN <= b.loc.y.steps - a.loc.y.steps <= i64::MAX
    &&& 0 <= a.size.w.steps && 0 <= a.size.h.steps
    &&& 0 <= b.size.w.steps && 0 <= b.size.h.steps
}

/// Whether a tick finds a chase frozen and leaves it so.
pub open spec fn stays_frozen<S>(g: Geometry<S>, now: Instant) -> bool {
    match g.start_hold {
        StartHold::Off => false,
        StartHold::Armed => true,
        StartHold::Until(deadline) => now.nanos < deadline.nanos,
    }
}

/// A tick of a chase that is not frozen flies it one share further along its leg: a fresh
/// leg from where the picture is, whenever the heading has moved by more than half a pixel
/// on any axis, and else the leg it was on. The picture has then covered the progress'
/// share of the way on every axis. Short of a hundredth of the way it has arrived: a chase
/// that waits for nothing ends; one that waits is drawn on its heading.
#[verifier::spinoff_prover]
pub proof fn law_tick_flies_the_leg(
    before: WindowAnimations<Fixed>,
    after: WindowAnimations<Fixed>,
    id: u64,
    target_loc: Point<Fixed>,
    live_size: Size<Fixed>,
    factor: Fixed,
    now: Instant,
    keep: bool,
)
    requires
        exists|m: &mut WindowAnimations<Fixed>|
            *m == before && *final(m) == after && #[trigger] call_ensures(
                WindowAnimations::<Fixed>::tick_entry,
                (m, id, target_loc, live_size, factor, now, true),
                keep,
            ),
        in_unit(factor),
        before.chase(id) matches Some(g) && {
            let to = heading(g, target_loc, live_size);
            &&& !stays_frozen(g, now)
            &&& in_unit(g.progress)
            &&& passable(leg_start(g, to).0, to)
        },
    ensures
        after.chase(id) matches Some(h) && {
            let g = before.chase(id)->0;
            let to = heading(g, target_loc, live_size);
            let (start, behind) = leg_start(g, to);
            let flying = 100 * (ONE - h.progress.steps) > ONE;
            &&& h.from == start
            &&& h.leg_target == if moved_off(g.leg_target, to) {
                to
            } else {
                g.leg_target
            }
            &&& is_cut(h.progress.steps - behind, (ONE - behind) * factor.steps, ONE as int)
            &&& flying || g.requested_size is None ==> part_way(start, h.visual, to, h.progress)
            &&& !flying && g.requested_size is Some ==> h.visual == to
            &&& keep <==> flying || g.requested_size is Some
            &&& h.start_hold is Off
        },
{
    let g = before.chase(id)->0;
    let to = heading(g, target_loc, live_size);
    let (start, behind) = leg_start(g, to);
    let p0 = Fixed { steps: behind as i64 };
    lemma_advance_cut(p0, factor);
    let p = crate::scalar::advance_spec(p0, factor);
    lemma_lerp_cut(start.loc.x, to.loc.x, p);
    lemma_lerp_cut(start.loc.y, to.loc.y, p);
    lemma_lerp_cut(start.size.w, to.size.w, p);
    lemma_lerp_cut(start.size.h, to.size.h, p);
    law_lerp_approaches(start.size.w, to.size.w, p, p);
    law_lerp_approaches(start.size.h, to.size.h, p, p);
    assert(after.chase(id) is Some);
    assert(crate::window_animation::target_moved_spec(g.leg_target, to) == moved_off(
        g.leg_target,
        to,
    ));
}

/// Whether an extent is the share `p` of the way between two, and none where that would be
/// less.
pub open spec fn extent_on_the_way(got: Fixed, from: Fixed, to: Fixed, p: Fixed) -> bool {
    exists|whole: Fixed| #[trigger]
        on_the_way(whole, from, to, p) && got.steps == if whole.steps < 0 {
            0
        } else {
            whole.steps
        }
}

/// Whatever its progress and by whatever factor, a tick never draws a chase off its leg nor
/// with a negative extent: the picture is at the share of the way that the progress is,
/// brought into the unit interval.
#[verifier::spinoff_prover]
pub proof fn law_tick_stays_on_the_leg(
    before: WindowAnimations<Fixed>,
    after: WindowAnimations<Fixed>,
    id: u64,
    target_loc: Point<Fixed>,
    live_size: Size<Fixed>,
    factor: Fixed,
    now: Instant,
    keep: bool,
)
    requires
        exists|m: &mut WindowAnimations<Fixed>|
            *m == before && *final(m) == after && #[trigger] call_ensures(
                WindowAnimations::<Fixed>::tick_entry,
                (m, id, target_loc, live_size, factor, now, true),
                keep,
            ),
        before.chase(id) matches Some(g) && !stays_frozen(g, now),
    ensures
        after.chase(id) matches Some(h) && {
            let g = before.chase(id)->0;
            let to = heading(g, target_loc, live_size);
            let (start, behind) = leg_start(g, to);
            let p = clamped(h.progress);
            let flying = 100 * (ONE - h.progress.steps) > ONE;
            &&& h.from == start
            &&& on_the_way(
                h.progress,
                Fixed { steps: behind as i64 },
                Fixed { steps: ONE },
                factor,
            )
            &&& keep <==> flying || g.requested_size is Some
            &&& !flying && g.requested_size is Some ==> h.visual == to
            &&& flying || g.requested_size is None ==> {
                &&& on_the_way(h.visual.loc.x, start.loc.x, to.loc.x, p)
                &&& on_the_way(h.visual.loc.y, start.loc.y, to.loc.y, p)
                &&& extent_on_the_way(h.visual.size.w, start.size.w, to.size.w, p)
                &&& extent_on_the_way(h.visual.size.h, start.size.h, to.size.h, p)
            }
        },
{
    let g = before.chase(id)->0;
    let to = heading(g, target_loc, live_size);
    let (start, behind) = leg_start(g, to);
    let h = after.chase(id)->0;
    let p = clamped(h.progress);
    lemma_on_the_way(Fixed { steps: behind as i64 }, Fixed { steps: ONE }, factor);
    lemma_on_the_way(start.loc.x, to.loc.x, p);
    lemma_on_the_way(start.loc.y, to.loc.y, p);
    lemma_on_the_way(start.size.w, to.size.w, p);
    lemma_on_the_way(start.size.h, to.size.h, p);
    assert(crate::window_animation::target_moved_spec(g.leg_target, to) == moved_off(
        g.leg_target,
        to,
    ));
}

/// What is drawn moves on with the chase: after a tick it lies between where it was drawn
/// and where the window is headed, on every axis; and where the heading has moved off the
/// one the leg aimed at, it has covered exactly the factor's share of that way.
#[verifier::spinoff_prover]
pub proof fn law_drawn_approaches(
    before: &WindowAnimations<Fixed>,
    after: &WindowAnimations<Fixed>,
    id: u64,
    target_loc: Point<Fixed>,
    live_size: Size<Fixed>,
    factor: Fixed,
    now: Instant,
    keep: bool,
    open_scale: Fixed,
    was: AnimatedVisual<Fixed>,
    got: AnimatedVisual<Fixed>,
)
    requires
        exists|m: &mut WindowAnimations<Fixed>|
            *m == *before && *final(m) == *after && #[trigger] call_ensures(
                WindowAnimations::<Fixed>::tick_entry,
                (m, id, target_loc, live_size, factor, now, true),
                keep,
            ),
        in_unit(factor),
        before.chase(id) matches Some(g) && {
            let to = heading(g, target_loc, live_size);
            &&& g.start_hold is Off
            &&& in_unit(g.progress)
            &&& passable(g.visual, to)
            // The heading has moved, or no tick has been yet.
            &&& moved_off(g.leg_target, to) || (g.progress.steps == 0 && g.from == g.visual)
        },
        call_ensures(
            WindowAnimations::<Fixed>::animated_visual,
            (before, id, target_loc, live_size, open_scale),
            was,
        ),
        call_ensures(
            WindowAnimations::<Fixed>::animated_visual,
            (after, id, target_loc, live_size, open_scale),
            got,
        ),
    ensures
        ({
            let to = heading(before.chase(id)->0, target_loc, live_size);
            &&& between(was.loc.x, got.loc.x, to.loc.x)
            &&& between(was.loc.y, got.loc.y, to.loc.y)
            &&& between(was.size.w, got.size.w, to.size.w)
            &&& between(was.size.h, got.size.h, to.size.h)
            &&& 100 * (ONE - factor.steps) > ONE || before.chase(id)->0.requested_size is None
                ==> part_way(
                Rect { loc: was.loc, size: was.size },
                Rect { loc: got.loc, size: got.size },
                to,
                factor,
            )
        }),
{
    let g = before.chase(id)->0;
    let to = heading(g, target_loc, live_size);
    law_tick_flies_the_leg(*before, *after, id, target_loc, live_size, factor, now, keep);
    let h = after.chase(id)->0;
    let zero = Fixed { steps: 0 };
    lemma_advance_cut(zero, factor);
    lemma_from_nothing(h.progress, factor);
    lemma_share_is_between(g.visual.loc.x, h.visual.loc.x, to.loc.x, factor);
    lemma_share_is_between(g.visual.loc.y, h.visual.loc.y, to.loc.y, factor);
    lemma_share_is_between(g.visual.size.w, h.visual.size.w, to.size.w, factor);
    lemma_share_is_between(g.visual.size.h, h.visual.size.h, to.size.h, factor);
}

/// From tick to tick of one leg, too, what is drawn only approaches: with its target in
/// place it lies between where the last tick drew it and the target, on every axis.
#[verifier::spinoff_prover]
pub proof fn law_drawn_keeps_approaching(
    before: &WindowAnimations<Fixed>,
    mid: &WindowAnimations<Fixed>,
    after: &WindowAnimations<Fixed>,
    id: u64,
    target_loc: Point<Fixed>,
    live_size: Size<Fixed>,
    factor: Fixed,
    next_factor: Fixed,
    now: Instant,
    next: Instant,
    keep: bool,
    next_keep: bool,
    open_scale: Fixed,
    was: AnimatedVisual<Fixed>,
    got: AnimatedVisual<Fixed>,
)
    requires
        in_unit(factor),
        in_unit(next_factor),
        exists|m: &mut WindowAnimations<Fixed>|
            *m == *before && *final(m) == *mid && #[trigger] call_ensures(
                WindowAnimations::<Fixed>::tick_entry,
                (m, id, target_loc, live_size, factor, now, true),
                keep,
            ),
        exists|m: &mut WindowAnimations<Fixed>|
            *m == *mid && *final(m) == *after && #[trigger] call_ensures(
                WindowAnimations::<Fixed>::tick_entry,
                (m, id, target_loc, live_size, next_factor, next, true),
                next_keep,
            ),
        before.chase(id) matches Some(g) && {
            let to = heading(g, target_loc, live_size);
            &&& !stays_frozen(g, now)
            &&& in_unit(g.progress)
            &&& passable(leg_start(g, to).0, to)
        },
        // The first of the two has not arrived.
        mid.chase(id) matches Some(h) && 100 * (ONE - h.progress.steps) > ONE,
        call_ensures(
            WindowAnimations::<Fixed>::animated_visual,
            (mid, id, target_loc, live_size, open_scale),
            was,
        ),
        call_ensures(
            WindowAnimations::<Fixed>::animated_visual,
            (after, id, target_loc, live_size, open_scale),
            got,
        ),
    ensures
        ({
            let to = heading(before.chase(id)->0, target_loc, live_size);
            &&& between(was.loc.x, got.loc.x, to.loc.x)
            &&& between(was.loc.y, got.loc.y, to.loc.y)
            &&& between(was.size.w, got.size.w, to.size.w)
            &&& between(was.size.h, got.size.h, to.size.h)
        }),
{
    let g = before.chase(id)->0;
    let to = heading(g, target_loc, live_size);
    let start = leg_start(g, to).0;
    law_tick_flies_the_leg(*before, *mid, id, target_loc, live_size, factor, now, keep);
    let h = mid.chase(id)->0;
    assert(h.requested_size == g.requested_size);
    assert(heading(h, target_loc, live_size) == to);
    assert(!moved_off(h.leg_target, to));
    lemma_advance_cut(Fixed { steps: leg_start(g, to).1 as i64 }, factor);
    assert(in_unit(h.progress));
    law_tick_flies_the_leg(
        *mid,
        *after,
        id,
        target_loc,
        live_size,
        next_factor,
        next,
        next_keep,
    );
    let l = after.chase(id)->0;
    lemma_advance_cut(h.progress, next_factor);
    let (p, q) = (h.progress, l.progress);
    assert(p.steps <= q.steps <= ONE) by {
        assert(0 <= (ONE - p.steps) * next_factor.steps <= (ONE - p.steps) * ONE)
            by (nonlinear_arith)
            requires
                0 <= p.steps <= ONE,
                0 <= next_factor.steps <= ONE,
        ;
    }
    lemma_further_share(start.loc.x, h.visual.loc.x, l.visual.loc.x, to.loc.x, p, q);
    lemma_further_share(start.loc.y, h.visual.loc.y, l.visual.loc.y, to.loc.y, p, q);
    lemma_further_share(start.size.w, h.visual.size.w, l.visual.size.w, to.size.w, p, q);
    lemma_further_share(start.size.h, h.visual.size.h, l.visual.size.h, to.size.h, p, q);
    lemma_share_is_between(start.loc.x, h.visual.loc.x, to.loc.x, p);
    lemma_share_is_between(start.loc.y, h.visual.loc.y, to.loc.y, p);
    lemma_share_is_between(start.size.w, h.visual.size.w, to.size.w, p);
    lemma_share_is_between(start.size.h, h.visual.size.h, to.size.h, p);
}

proof fn lemma_further_share(a: Fixed, u: Fixed, v: Fixed, b: Fixed, p: Fixed, q: Fixed)
    requires
        in_unit(p),
        in_unit(q),
        p.steps <= q.steps,
        i64::MIN <= b.steps - a.steps <= i64::MAX,
        covers_share(a, u, b, p),
    ensures
        covers_share(a, v, b, q) ==> between(u, v, b),
{
    if covers_share(a, v, b, q) {
        lemma_lerp_cut(a, b, p);
        lemma_lerp_cut(a, b, q);
        let d = b.steps - a.steps;
        let (x, y) = (
            crate::scalar::lerp_spec(a, b, p),
            crate::scalar::lerp_spec(a, b, q),
        );
        lemma_cut_is_unique(u.steps - a.steps, x.steps - a.steps, d * p.steps, ONE as int);
        lemma_cut_is_unique(v.steps - a.steps, y.steps - a.steps, d * q.steps, ONE as int);
        law_lerp_approaches(a, b, p, q);
    }
}

/// Right after a start, what is drawn is what was drawn of the chase before, or the seed:
/// the seed where there was no chase, where it replaces the picture, or where the chase
/// changes its space.
pub proof fn law_start_draws_no_jump<S: Scalar>(
    before: &WindowAnimations<S>,
    after: &WindowAnimations<S>,
    id: u64,
    seed: Rect<S>,
    space: AnimSpace,
    requested: Option<Size<i32>>,
    committed: Size<i32>,
    role: GeometryRole,
    replace: bool,
    policy: ContentPolicy,
    target: Rect<S>,
    open_scale: S,
    was: AnimatedVisual<S>,
    got: AnimatedVisual<S>,
)
    requires
        exists|m: &mut WindowAnimations<S>|
            *m == *before && *final(m) == *after && #[trigger] call_ensures(
                WindowAnimations::<S>::start_geometry,
                (m, id, seed, space, requested, committed, role, replace, policy),
                (),
            ),
        call_ensures(
            WindowAnimations::<S>::animated_visual,
            (before, id, target.loc, target.size, open_scale),
            was,
        ),
        call_ensures(
            WindowAnimations::<S>::animated_visual,
            (after, id, target.loc, target.size, open_scale),
            got,
        ),
    ensures
        ({
            let goes_on = before.chase(id) matches Some(g) && !replace && one_space(
                g.space,
                space,
            );
            &&& goes_on ==> got.loc == was.loc && got.size == was.size
            &&& !goes_on ==> got.loc == seed.loc && got.size == seed.size
        }),
{
}

proof fn lemma_from_nothing(p: Fixed, factor: Fixed)
    requires
        in_unit(factor),
        is_cut(p.steps as int, ONE * factor.steps, ONE as int),
    ensures
        p == factor,
{
    assert(p.steps == factor.steps) by (nonlinear_arith)
        requires
            0 <= factor.steps,
            ONE == 1048576,
            p.steps * ONE <= ONE * factor.steps < p.steps * ONE + ONE,
    ;
}

proof fn lemma_share_is_between(a: Fixed, v: Fixed, b: Fixed, p: Fixed)
    requires
        in_unit(p),
        i64::MIN <= b.steps - a.steps <= i64::MAX,
    ensures
        covers_share(a, v, b, p) ==> between(a, v, b),
{
    let d = b.steps - a.steps;
    let q = v.steps - a.steps;
    let f = p.steps as int;
    if covers_share(a, v, b, p) {
        if d >= 0 {
            assert(0 <= d * f <= d * ONE) by (nonlinear_arith)
                requires
                    0 <= d,
                    0 <= f <= ONE,
            ;
            assert(0 <= q <= d);
        } else {
            assert(d * ONE <= d * f <= 0) by (nonlinear_arith)
                requires
                    d <= 0,
                    0 <= f <= ONE,
            ;
            assert(d <= q <= 0);
        }
    }
}

/// A tick of a frozen chase moves nothing and keeps it: the first sets the deadline, half
/// a second off. One that meets no output changes nothing and ends.
pub proof fn law_tick_holds_still<S: Scalar>(
    before: WindowAnimations<S>,
    after: WindowAnimations<S>,
    id: u64,
    target_loc: Point<S>,
    live_size: Size<S>,
    factor: S,
    now: Instant,
    eligible: bool,
    keep: bool,
)
    requires
        now.nanos + 500_000_000 <= u64::MAX,
        exists|m: &mut WindowAnimations<S>|
            *m == before && *final(m) == after && #[trigger] call_ensures(
                WindowAnimations::<S>::tick_entry,
                (m, id, target_loc, live_size, factor, now, eligible),
                keep,
            ),
        before.chase(id) matches Some(g) && (stays_frozen(g, now) || !eligible),
    ensures
        keep == eligible,
        after.chase(id) matches Some(h) && {
            let g = before.chase(id)->0;
            &&& h == (Geometry { start_hold: h.start_hold, ..g })
            &&& eligible && g.start_hold is Armed ==> (h.start_hold matches StartHold::Until(d)
                && d.nanos == now.nanos + 500_000_000)
            &&& !eligible || !(g.start_hold is Armed) ==> h.start_hold == g.start_hold
        },
{
}

/// A chase that has arrived and waits for its client waits half a second from its arrival
/// and then gives the request up; until then nothing of the wait changes. A chase that
/// waits for nothing has no deadline to set.
pub proof fn law_tick_waits_at_the_end(
    before: WindowAnimations<Fixed>,
    after: WindowAnimations<Fixed>,
    id: u64,
    target_loc: Point<Fixed>,
    live_size: Size<Fixed>,
    factor: Fixed,
    now: Instant,
    keep: bool,
)
    requires
        now.nanos + 500_000_000 <= u64::MAX,
        in_unit(factor),
        exists|m: &mut WindowAnimations<Fixed>|
            *m == before && *final(m) == after && #[trigger] call_ensures(
                WindowAnimations::<Fixed>::tick_entry,
                (m, id, target_loc, live_size, factor, now, true),
                keep,
            ),
        before.chase(id) matches Some(g) && !stays_frozen(g, now) && in_unit(g.progress),
    ensures
        after.chase(id) matches Some(h) && {
            let g = before.chase(id)->0;
            let waiting = g.requested_size is Some && 100 * (ONE - h.progress.steps) <= ONE;
            &&& h.hold_deadline == if waiting && g.hold_deadline is None {
                Some(Instant { nanos: (now.nanos + 500_000_000) as u64 })
            } else {
                g.hold_deadline
            }
            &&& h.requested_size == if waiting && g.hold_deadline is Some
                && g.hold_deadline->0.nanos <= now.nanos {
                None
            } else {
                g.requested_size
            }
        },
{
    let g = before.chase(id)->0;
    let to = heading(g, target_loc, live_size);
    let p0 = Fixed { steps: leg_start(g, to).1 as i64 };
    lemma_advance_cut(p0, factor);
    assert(crate::window_animation::target_moved_spec(g.leg_target, to) == moved_off(
        g.leg_target,
        to,
    ));
}

/// No tick touches what only a start or a commit does, nor any other window, nor the
/// stamps; and a window without an entry has none to keep.
pub proof fn law_tick_leaves_the_rest<S: Scalar>(
    before: WindowAnimations<S>,
    after: WindowAnimations<S>,
    id: u64,
    target_loc: Point<S>,
    live_size: Size<S>,
    factor: S,
    now: Instant,
    eligible: bool,
    keep: bool,
)
    requires
        exists|m: &mut WindowAnimations<S>|
            *m == before && *final(m) == after && #[trigger] call_ensures(
                WindowAnimations::<S>::tick_entry,
                (m, id, target_loc, live_size, factor, now, eligible),
                keep,
            ),
    ensures
        others_kept(before, after, id),
        after.stamp() == before.stamp(),
        after.entries().contains_key(id) == before.entries().contains_key(id),
        !before.entries().contains_key(id) ==> !keep,
        before.chase(id) matches Some(g) ==> (after.chase(id) matches Some(h) && {
            &&& h.space == g.space
            &&& h.role == g.role
            &&& h.buffer_stale == g.buffer_stale
            &&& h.content_policy == g.content_policy
            &&& h.last_committed_size == g.last_committed_size
            &&& h.generation == g.generation
            &&& h.picture == g.picture
        }),
{
}

/// A tick of a window that opens covers the factor's share of what is left, and goes on
/// while more than a hundredth is; one that meets no output stands still and ends.
pub proof fn law_tick_opens(
    before: WindowAnimations<Fixed>,
    after: WindowAnimations<Fixed>,
    id: u64,
    progress: Fixed,
    target_loc: Point<Fixed>,
    live_size: Size<Fixed>,
    factor: Fixed,
    now: Instant,
    eligible: bool,
    keep: bool,
)
    requires
        in_unit(progress),
        in_unit(factor),
        before.entries().contains_key(id),
        before.entries()[id] == (AnimationKind::Open { progress }),
        exists|m: &mut WindowAnimations<Fixed>|
            *m == before && *final(m) == after && #[trigger] call_ensures(
                WindowAnimations::<Fixed>::tick_entry,
                (m, id, target_loc, live_size, factor, now, eligible),
                keep,
            ),
    ensures
        after.entries()[id] matches AnimationKind::Open { progress: next } && if eligible {
            &&& is_cut(
                next.steps - progress.steps,
                (ONE - progress.steps) * factor.steps,
                ONE as int,
            )
            &&& keep <==> 100 * (ONE - next.steps) > ONE
        } else {
            next == progress && !keep
        },
{
    lemma_advance_cut(progress, factor);
}

/// What is drawn for a window that opens: no more than its live size and no less than the
/// opening share of it, in proportion to how far it is along, about the center of its
/// live rectangle; and as opaque as what is left, squared, leaves it. Progress outside the
/// unit interval counts as its nearer end.
#[verifier::spinoff_prover]
pub proof fn law_opening_is_drawn(
    animations: &WindowAnimations<Fixed>,
    id: u64,
    progress: Fixed,
    target_loc: Point<Fixed>,
    target_size: Size<Fixed>,
    open_scale: Fixed,
    drawn: AnimatedVisual<Fixed>,
)
    requires
        in_unit(open_scale),
        0 <= target_size.w.steps,
        0 <= target_size.h.steps,
        target_loc.x.steps + target_size.w.steps <= i64::MAX,
        target_loc.y.steps + target_size.h.steps <= i64::MAX,
        animations.entries().contains_key(id),
        animations.entries()[id] == (AnimationKind::Open { progress }),
        call_ensures(
            WindowAnimations::<Fixed>::animated_visual,
            (animations, id, target_loc, target_size, open_scale),
            drawn,
        ),
    ensures
        ({
            let p = clamped(progress);
            // The scale, in squares of a step: the opening one, and the share of the rest.
            let scale = open_scale.steps * ONE + (ONE - open_scale.steps) * p.steps;
            let left = ONE - p.steps;
            &&& scaled_by(drawn.size.w, target_size.w, scale)
            &&& scaled_by(drawn.size.h, target_size.h, scale)
            &&& centered(drawn.loc.x, drawn.size.w, target_loc.x, target_size.w)
            &&& centered(drawn.loc.y, drawn.size.h, target_loc.y, target_size.h)
            &&& is_cut(ONE - drawn.alpha.steps, left * left, ONE as int)
            &&& !drawn.cap_content
        }),
{
    let one = Fixed::from_i32_spec(1);
    let p = clamped(progress);
    let k = crate::scalar::lerp_spec(open_scale, one, p);
    crate::animation_laws::law_opening_arrives(progress, target_loc, target_size, open_scale);
    crate::animation_laws::law_opening_is_centered(progress, target_loc, target_size, open_scale);
    lemma_lerp_cut(open_scale, one, p);
    lemma_scaled(target_size.w, k, open_scale, p);
    lemma_scaled(target_size.h, k, open_scale, p);
    let left = Fixed { steps: (ONE - p.steps) as i64 };
    lemma_share(left.steps as int, left.steps as int, left.steps as int);
    assert(0 <= left.steps * left.steps <= ONE * ONE) by (nonlinear_arith)
        requires
            0 <= left.steps <= ONE,
    ;
    lemma_times_cut(left, left);
    assert(one.minus_spec(p) == left);
}

/// Whether `r` is `a` times a scale given in squares of a step, to a step of each factor.
pub open spec fn scaled_by(r: Fixed, a: Fixed, scale: int) -> bool {
    &&& r.steps * ONE * ONE <= a.steps * scale
    &&& a.steps * scale < r.steps * ONE * ONE + (a.steps + ONE) * ONE
}

/// Whether two spans have the same center, to within half a step.
pub open spec fn centered(a: Fixed, a_len: Fixed, b: Fixed, b_len: Fixed) -> bool {
    -1 <= (2 * a.steps + a_len.steps) - (2 * b.steps + b_len.steps) <= 1
}

proof fn lemma_scaled(a: Fixed, k: Fixed, open_scale: Fixed, progress: Fixed)
    requires
        in_unit(k),
        0 <= a.steps,
        open_scale.steps <= ONE,
        0 <= progress.steps,
        is_cut(
            k.steps - open_scale.steps,
            (ONE - open_scale.steps) * progress.steps,
            ONE as int,
        ),
    ensures
        scaled_by(
            a.times_spec(k),
            a,
            open_scale.steps * ONE + (ONE - open_scale.steps) * progress.steps,
        ),
{
    let scale = open_scale.steps * ONE + (ONE - open_scale.steps) * progress.steps;
    assert(0 <= (ONE - open_scale.steps) * progress.steps) by (nonlinear_arith)
        requires
            open_scale.steps <= ONE,
            0 <= progress.steps,
    ;
    assert(0 <= a.steps * k.steps <= a.steps * ONE) by (nonlinear_arith)
        requires
            0 <= a.steps,
            0 <= k.steps <= ONE,
    ;
    lemma_times_cut(a, k);
    let r = a.times_spec(k).steps as int;
    assert(k.steps * ONE <= scale < k.steps * ONE + ONE);
    assert(r * ONE * ONE <= a.steps * scale && a.steps * scale < r * ONE * ONE + (a.steps + ONE)
        * ONE) by (nonlinear_arith)
        requires
            0 <= a.steps,
            k.steps * ONE <= scale < k.steps * ONE + ONE,
            r * ONE <= a.steps * k.steps < r * ONE + ONE,
            ONE == 1048576,
    ;
}

/// A commit at the size asked for, or at any size but the last, is the redraw that was
/// waited for: nothing is outstanding, the buffer is fresh and the freeze over. One at the
/// size the client had changes nothing but that it was seen. The picture, its leg and
/// everything else stay, and so does every other window.
pub proof fn law_commit_is_the_redraw<S: Scalar>(
    before: WindowAnimations<S>,
    after: WindowAnimations<S>,
    id: u64,
    committed: Size<i32>,
)
    requires
        before.wf(),
        exists|m: &mut WindowAnimations<S>|
            *m == before && *final(m) == after && #[trigger] call_ensures(
                WindowAnimations::<S>::on_window_commit,
                (m, id, committed),
                (),
            ),
    ensures
        others_kept(before, after, id),
        after.stamp() == before.stamp(),
        before.chase(id) is None ==> after.entries() == before.entries(),
        before.chase(id) matches Some(g) ==> (after.chase(id) matches Some(h) && {
            let met = g.requested_size matches Some(size) && size.w == committed.w && size.h
                == committed.h;
            let other = committed.w != g.last_committed_size.w || committed.h
                != g.last_committed_size.h;
            &&& h == (Geometry {
                requested_size: h.requested_size,
                buffer_stale: h.buffer_stale,
                start_hold: h.start_hold,
                last_committed_size: committed,
                ..g
            })
            &&& met || other ==> h.requested_size is None && !h.buffer_stale
                && h.start_hold is Off
            &&& !met && !other ==> h.requested_size == g.requested_size && h.buffer_stale
                == g.buffer_stale && h.start_hold == g.start_hold
        }),
{
}

/// A request is carried when it changes something, and a resize is requested where it
/// changes some axis by more than ten pixels.
pub proof fn law_requests(
    size: Size<i32>,
    committed: Size<i32>,
    carried: Option<Size<i32>>,
    none: Option<Size<i32>>,
    asked: Option<Size<i32>>,
)
    requires
        call_ensures(carried_request, (Some(size), committed), carried),
        call_ensures(carried_request, (None::<Size<i32>>, committed), none),
        call_ensures(resize_request, (size, committed), asked),
    ensures
        none is None,
        carried is None <==> size.w == committed.w && size.h == committed.h,
        carried is Some ==> carried->0 == size,
        asked is Some ==> asked->0 == size,
        asked is Some <==> size.w - committed.w > 10 || committed.w - size.w > 10 || size.h
            - committed.h > 10 || committed.h - size.h > 10,
{
}

/// Content drawn at its scale fills the picture on each axis by itself, to within a step
/// of its extent, which counts as a pixel at least; capped, it does so only where it is
/// not magnified, and is drawn at its own size elsewhere.
pub proof fn law_content_fills(
    visual: Size<Fixed>,
    committed: Size<Fixed>,
    free: (Fixed, Fixed),
    capped: (Fixed, Fixed),
)
    requires
        call_ensures(content_scale::<Fixed>, (visual, committed, false), free),
        call_ensures(content_scale::<Fixed>, (visual, committed, true), capped),
    ensures
        fills(free.0, committed.w, visual.w),
        fills(free.1, committed.h, visual.h),
        capped.0.steps == if free.0.steps > ONE {
            ONE
        } else {
            free.0.steps
        },
        capped.1.steps == if free.1.steps > ONE {
            ONE
        } else {
            free.1.steps
        },
{
    crate::animation_laws::law_content_fills_the_visual(visual, committed);
}

/// Whether content `extent` long, a pixel at least, is `visual` long at `scale`.
pub open spec fn fills(scale: Fixed, extent: Fixed, visual: Fixed) -> bool {
    let long: int = if extent.steps < ONE {
        ONE as int
    } else {
        extent.steps as int
    };
    -long < scale.steps * long - visual.steps * ONE < long
}

} // verus!
