//! What holds of window animations over time: over any run of ticks, nudges and
//! commits, and of every picture drawn on the way.

use vstd::prelude::*;

use crate::fixed::{
    between, in_unit, law_lerp_approaches, law_lerp_ends, law_progress_advances, lemma_advance_step,
    lemma_quotient_returns, lemma_share, lemma_times_unit, Fixed, ONE,
};
use crate::geometry::{lerp_rect_spec, Point, Rect, Size};
use crate::scalar::{advance_spec, lerp_spec, unit_clamp_spec, Scalar};
use crate::time::Instant;
use crate::window_animation::{
    carried_request_spec, content_scale_spec, entry_visual, in_flight_spec, opening_scale,
    opening_visual, resize_request_spec, started, target_moved_spec, ticked, AnimSpace,
    AnimationKind, ContentPolicy, Geometry, GeometryRole, StartHold, WindowAnimations,
    MAX_ENDPOINT_HOLD, MAX_START_HOLD, MIN_REQUESTED_STEP,
};

verus! {

/// What can happen to a chase without a new request being made of its client.
pub enum Event<S> {
    /// A frame goes by.
    Tick { target_loc: Point<S>, live_size: Size<S>, factor: S, now: Instant },
    /// The chase is started again without a request: the window has moved.
    Nudge {
        seed: Rect<S>,
        space: AnimSpace,
        committed_size: Size<i32>,
        role: GeometryRole,
        replace_visual: bool,
        content_policy: ContentPolicy,
        stamp: u64,
    },
    /// The client commits a buffer.
    Commit { committed_size: Size<i32> },
}

/// A chase after one event.
pub open spec fn after_event<S: Scalar>(g: Geometry<S>, event: Event<S>) -> Geometry<S> {
    match event {
        Event::Tick { target_loc, live_size, factor, now } => g.ticked(
            target_loc,
            live_size,
            factor,
            now,
            true,
        ).0,
        Event::Nudge {
            seed,
            space,
            committed_size,
            role,
            replace_visual,
            content_policy,
            stamp,
        } => started(
            Some(g),
            seed,
            space,
            None,
            committed_size,
            role,
            replace_visual,
            content_policy,
            stamp,
        ),
        Event::Commit { committed_size } => g.committed(committed_size),
    }
}

/// A chase after a run of events.
pub open spec fn after_events<S: Scalar>(g: Geometry<S>, events: Seq<Event<S>>) -> Geometry<S>
    decreases events.len(),
{
    if events.len() == 0 {
        g
    } else {
        after_event(after_events(g, events.drop_last()), events.last())
    }
}

/// Whether no commit is among the events.
pub open spec fn silent<S>(events: Seq<Event<S>>) -> bool {
    forall|k: int| 0 <= k < events.len() ==> !((#[trigger] events[k]) is Commit)
}

/// Every chase stays well formed, and keeps the stamp of its request.
pub proof fn law_chase_stays_well_formed<S: Scalar>(g: Geometry<S>, events: Seq<Event<S>>)
    requires
        g.wf(),
    ensures
        after_events(g, events).wf(),
        after_events(g, events).generation == g.generation,
    decreases events.len(),
{
    if events.len() > 0 {
        law_chase_stays_well_formed(g, events.drop_last());
    }
}

/// While a chase is frozen a tick moves nothing: the picture, its leg and its progress
/// stay, whatever the target does, and the chase goes on. The first tick sets the
/// deadline, a whole budget away.
pub proof fn law_frozen_holds_still<S: Scalar>(
    g: Geometry<S>,
    target_loc: Point<S>,
    live_size: Size<S>,
    factor: S,
    now: Instant,
)
    requires
        g.start_hold.held(),
        g.start_hold matches StartHold::Until(deadline) ==> now.before_spec(deadline),
    ensures
        ({
            let (after, keep) = g.ticked(target_loc, live_size, factor, now, true);
            &&& keep
            &&& after == (Geometry { start_hold: after.start_hold, ..g })
            &&& after.start_hold == if g.start_hold is Armed {
                StartHold::Until(now.later_spec(MAX_START_HOLD))
            } else {
                g.start_hold
            }
        }),
{
}

/// A freeze is never extended: whatever happens short of a new request, it stays on
/// the deadline its first tick set, or is over; and the first tick from the deadline
/// on ends it.
pub proof fn law_freeze_is_bounded<S: Scalar>(
    g: Geometry<S>,
    deadline: Instant,
    events: Seq<Event<S>>,
    target_loc: Point<S>,
    live_size: Size<S>,
    factor: S,
    now: Instant,
)
    requires
        g.start_hold == StartHold::Until(deadline),
        !now.before_spec(deadline),
    ensures
        after_events(g, events).start_hold == g.start_hold || !after_events(
            g,
            events,
        ).start_hold.held(),
        !after_events(g, events).ticked(
            target_loc,
            live_size,
            factor,
            now,
            true,
        ).0.start_hold.held(),
    decreases events.len(),
{
    if events.len() > 0 {
        law_freeze_is_bounded(
            g,
            deadline,
            events.drop_last(),
            target_loc,
            live_size,
            factor,
            now,
        );
    }
}

/// A freeze that runs out degrades: the chase sets off toward the requested size, the
/// request still outstanding, its stale content capped.
pub proof fn law_expired_freeze_degrades<S: Scalar>(
    g: Geometry<S>,
    deadline: Instant,
    target_loc: Point<S>,
    live_size: Size<S>,
    factor: S,
    now: Instant,
)
    requires
        g.wf(),
        g.start_hold == StartHold::Until(deadline),
        !now.before_spec(deadline),
        in_flight_spec(g.stepped(g.target(target_loc, live_size), factor).progress),
    ensures
        ({
            let (after, keep) = g.ticked(target_loc, live_size, factor, now, true);
            &&& keep
            &&& after.requested_size == g.requested_size
            &&& after.requested_size is Some
            &&& after.capped()
            &&& after.visual == g.stepped(
                Rect { loc: target_loc, size: g.requested_size->0.scalar_spec::<S>() },
                factor,
            ).visual
        }),
{
}

/// Arriving at the endpoint of an outstanding request starts a wait with a fixed
/// deadline, which nothing short of a new request extends; a chase that is at its
/// endpoint from the deadline on gives the request up.
pub proof fn law_endpoint_hold_is_bounded<S: Scalar>(
    g: Geometry<S>,
    deadline: Instant,
    events: Seq<Event<S>>,
    target_loc: Point<S>,
    live_size: Size<S>,
    factor: S,
    now: Instant,
)
    requires
        g.hold_deadline == Some(deadline),
        !now.before_spec(deadline),
        !after_events(g, events).start_hold.held(),
        !in_flight_spec(
            after_events(g, events).stepped(
                after_events(g, events).target(target_loc, live_size),
                factor,
            ).progress,
        ),
    ensures
        after_events(g, events).hold_deadline == g.hold_deadline,
        after_events(g, events).ticked(
            target_loc,
            live_size,
            factor,
            now,
            true,
        ).0.requested_size is None,
{
    lemma_deadline_stays(g, deadline, events);
}

proof fn lemma_deadline_stays<S: Scalar>(g: Geometry<S>, deadline: Instant, events: Seq<Event<S>>)
    requires
        g.hold_deadline == Some(deadline),
    ensures
        after_events(g, events).hold_deadline == Some(deadline),
    decreases events.len(),
{
    if events.len() > 0 {
        lemma_deadline_stays(g, deadline, events.drop_last());
    }
}

/// Arriving at the endpoint of an outstanding request, a chase draws the requested
/// rectangle and waits there, for a budget that starts on arrival.
pub proof fn law_endpoint_is_held<S: Scalar>(
    g: Geometry<S>,
    target_loc: Point<S>,
    live_size: Size<S>,
    factor: S,
    now: Instant,
)
    requires
        !g.start_hold.held(),
        g.requested_size is Some,
        !in_flight_spec(g.stepped(g.target(target_loc, live_size), factor).progress),
        g.hold_deadline matches Some(deadline) ==> now.before_spec(deadline),
    ensures
        ({
            let (after, keep) = g.ticked(target_loc, live_size, factor, now, true);
            &&& keep
            &&& after.requested_size == g.requested_size
            &&& after.visual == (Rect {
                loc: target_loc,
                size: g.requested_size->0.scalar_spec::<S>(),
            })
            &&& after.hold_deadline == match g.hold_deadline {
                Some(deadline) => Some(deadline),
                None => Some(now.later_spec(MAX_ENDPOINT_HOLD)),
            }
        }),
{
}

/// Only a commit clears staleness: a stale buffer stays stale through every tick,
/// every expired wait and every nudge.
pub proof fn law_only_a_commit_freshens<S: Scalar>(g: Geometry<S>, events: Seq<Event<S>>)
    requires
        g.buffer_stale,
        silent(events),
    ensures
        after_events(g, events).buffer_stale,
    decreases events.len(),
{
    if events.len() > 0 {
        let earlier = events.drop_last();
        assert forall|k: int| 0 <= k < earlier.len() implies !((#[trigger] earlier[k]) is Commit) by {
            assert(earlier[k] == events[k]);
        }
        law_only_a_commit_freshens(g, earlier);
        assert(!(events[events.len() - 1] is Commit));
    }
}

/// A commit at the requested size resolves the request, and so does one at any size
/// the client had not committed before: the buffer is fresh, the freeze is over, and
/// the chase bends to the live size. A redraw at the old size resolves nothing.
pub proof fn law_commit_resolves<S: Scalar>(
    g: Geometry<S>,
    committed_size: Size<i32>,
    target_loc: Point<S>,
    live_size: Size<S>,
)
    requires
        g.wf(),
    ensures
        ({
            let after = g.committed(committed_size);
            if g.requested_size == Some(committed_size) || committed_size
                != g.last_committed_size {
                &&& after.requested_size is None
                &&& !after.buffer_stale
                &&& !after.start_hold.held()
                &&& after.target(target_loc, live_size).size == live_size
                &&& after.visual == g.visual
            } else {
                after == g
            }
        }),
{
}

/// A start without a request is the same wait, moving: the request, the staleness,
/// the content policy, both budgets and the stamp are what they were.
pub proof fn law_nudge_keeps_the_wait<S: Scalar>(
    g: Geometry<S>,
    seed: Rect<S>,
    space: AnimSpace,
    committed_size: Size<i32>,
    role: GeometryRole,
    replace_visual: bool,
    content_policy: ContentPolicy,
    stamp: u64,
)
    ensures
        ({
            let after = started(
                Some(g),
                seed,
                space,
                None,
                committed_size,
                role,
                replace_visual,
                content_policy,
                stamp,
            );
            &&& after.requested_size == g.requested_size
            &&& after.buffer_stale == g.buffer_stale
            &&& after.content_policy == g.content_policy
            &&& after.start_hold == g.start_hold
            &&& after.hold_deadline == g.hold_deadline
            &&& after.generation == g.generation
            &&& after.capped() == g.capped()
        }),
{
}

/// A retarget within the same space that does not replace the picture is continuous:
/// the picture stays, and a full new leg starts from it. Any other starts from the
/// seed.
pub proof fn law_retarget_is_continuous<S: Scalar>(
    g: Geometry<S>,
    seed: Rect<S>,
    space: AnimSpace,
    request: Option<Size<i32>>,
    committed_size: Size<i32>,
    role: GeometryRole,
    replace_visual: bool,
    content_policy: ContentPolicy,
    stamp: u64,
)
    ensures
        ({
            let after = started(
                Some(g),
                seed,
                space,
                request,
                committed_size,
                role,
                replace_visual,
                content_policy,
                stamp,
            );
            &&& after.visual == if !replace_visual && g.space.same_spec(space) {
                g.visual
            } else {
                seed
            }
            &&& after.from == after.visual
            &&& after.leg_target == after.visual
            &&& after.progress == S::from_i32_spec(0)
        }),
{
}

/// The picture on screen does not change under a freeze: whatever starts land on it,
/// with a request or without, it is the one the freeze began with.
pub proof fn law_frozen_picture_stays<S: Scalar>(
    g: Geometry<S>,
    seed: Rect<S>,
    space: AnimSpace,
    request: Option<Size<i32>>,
    committed_size: Size<i32>,
    role: GeometryRole,
    replace_visual: bool,
    content_policy: ContentPolicy,
    stamp: u64,
)
    requires
        g.start_hold.held(),
    ensures
        started(
            Some(g),
            seed,
            space,
            request,
            committed_size,
            role,
            replace_visual,
            content_policy,
            stamp,
        ).picture == g.picture,
{
}

/// Nor does anything short of a new request change it: for as long as the chase stays
/// frozen, the picture is the one the freeze began with.
pub proof fn law_picture_lasts_the_freeze<S: Scalar>(g: Geometry<S>, events: Seq<Event<S>>)
    requires
        g.start_hold.held(),
    ensures
        after_events(g, events).start_hold.held() ==> after_events(g, events).picture
            == g.picture,
    decreases events.len(),
{
    if events.len() > 0 {
        law_picture_lasts_the_freeze(g, events.drop_last());
    }
}

/// A start that carries a request takes a stamp later than every chase's, so content
/// captured for any earlier request never matches it.
pub proof fn law_request_takes_a_fresh_stamp<S: Scalar>(
    animations: &WindowAnimations<S>,
    prev: Option<Geometry<S>>,
    seed: Rect<S>,
    space: AnimSpace,
    request: Size<i32>,
    committed_size: Size<i32>,
    role: GeometryRole,
    replace_visual: bool,
    content_policy: ContentPolicy,
    stamp: u64,
    other: u64,
)
    requires
        animations.wf(),
        stamp == animations.stamp() + 1,
    ensures
        animations.chase(other) matches Some(g) ==> g.generation < started(
            prev,
            seed,
            space,
            Some(request),
            committed_size,
            role,
            replace_visual,
            content_policy,
            stamp,
        ).generation,
{
}

/// A request for the size the client already has is never waited for, and any other is:
/// asked of the client it freezes the chase, inherited with a slot it does not. A resize
/// too small to see asks for nothing.
pub proof fn law_what_is_waited_for<S: Scalar>(
    prev: Option<Geometry<S>>,
    seed: Rect<S>,
    space: AnimSpace,
    size: Size<i32>,
    committed_size: Size<i32>,
    role: GeometryRole,
    replace_visual: bool,
    content_policy: ContentPolicy,
    stamp: u64,
)
    ensures
        carried_request_spec(None, committed_size) is None,
        carried_request_spec(Some(size), committed_size) is None <==> size == committed_size,
        carried_request_spec(resize_request_spec(size, committed_size), committed_size) is None
            <==> -MIN_REQUESTED_STEP <= size.w - committed_size.w <= MIN_REQUESTED_STEP
            && -MIN_REQUESTED_STEP <= size.h - committed_size.h <= MIN_REQUESTED_STEP,
        ({
            let after = started(
                prev,
                seed,
                space,
                Some(size),
                committed_size,
                role,
                replace_visual,
                content_policy,
                stamp,
            );
            &&& after.requested_size == Some(size)
            &&& after.buffer_stale
            &&& after.start_hold.held() <==> content_policy is Cap
            &&& after.hold_deadline is None
            &&& after.generation == stamp
        }),
{
}

/// An outstanding request keeps its chase: no tick ends it while the client has not
/// answered and the wait has not been given up.
pub proof fn law_outstanding_request_is_kept<S: Scalar>(
    g: Geometry<S>,
    target_loc: Point<S>,
    live_size: Size<S>,
    factor: S,
    now: Instant,
)
    requires
        g.requested_size is Some,
    ensures
        g.ticked(target_loc, live_size, factor, now, true).1,
{
}

/// A full step arrives: unless the chase stays frozen, a tick that covers all that is
/// left draws the requested rectangle, at the requested size and not the live one.
pub proof fn law_full_step_draws_the_request(
    g: Geometry<Fixed>,
    target_loc: Point<Fixed>,
    live_size: Size<Fixed>,
    now: Instant,
)
    requires
        in_unit(g.progress),
        g.requested_size is Some,
        !g.ticked(target_loc, live_size, Fixed::from_i32_spec(1), now, true).0.start_hold.held(),
    ensures
        ({
            let (after, keep) = g.ticked(
                target_loc,
                live_size,
                Fixed::from_i32_spec(1),
                now,
                true,
            );
            &&& keep
            &&& after.visual == (Rect {
                loc: target_loc,
                size: g.requested_size->0.scalar_spec::<Fixed>(),
            })
        }),
{
    let running = Geometry { start_hold: StartHold::Off, ..g };
    let leg = running.leg_toward(g.target(target_loc, live_size));
    lemma_full_step_arrives(leg.progress);
}

/// A full step completes any progress.
proof fn lemma_full_step_arrives(progress: Fixed)
    requires
        in_unit(progress),
    ensures
        advance_spec(progress, Fixed::from_i32_spec(1)) == Fixed::from_i32_spec(1),
        !in_flight_spec(advance_spec(progress, Fixed::from_i32_spec(1))),
{
    lemma_times_unit(Fixed::from_i32_spec(1).minus_spec(progress));
}

/// Whether every tick among the events covers a share of what is left: a factor of the
/// unit interval.
pub open spec fn steady(events: Seq<Event<Fixed>>) -> bool {
    forall|k: int|
        0 <= k < events.len() ==> match #[trigger] events[k] {
            Event::Tick { factor, .. } => in_unit(factor),
            _ => true,
        }
}

/// Whether every tick among the events comes before `deadline`.
pub open spec fn all_before<S>(events: Seq<Event<S>>, deadline: Instant) -> bool {
    forall|k: int|
        0 <= k < events.len() ==> match #[trigger] events[k] {
            Event::Tick { now, .. } => now.before_spec(deadline),
            _ => true,
        }
}

proof fn lemma_waits_out_the_deadline(
    g: Geometry<Fixed>,
    deadline: Instant,
    events: Seq<Event<Fixed>>,
)
    requires
        g.hold_deadline == Some(deadline),
        g.requested_size is Some,
        !g.start_hold.held(),
        in_unit(g.progress),
        silent(events),
        steady(events),
        all_before(events, deadline),
    ensures
        ({
            let h = after_events(g, events);
            &&& h.hold_deadline == Some(deadline)
            &&& h.requested_size == g.requested_size
            &&& !h.start_hold.held()
            &&& in_unit(h.progress)
        }),
    decreases events.len(),
{
    if events.len() > 0 {
        let earlier = events.drop_last();
        assert forall|k: int| 0 <= k < earlier.len() implies earlier[k] == #[trigger] events[k] by {}
        assert(silent(earlier)) by {
            assert forall|k: int| 0 <= k < earlier.len() implies !((
            #[trigger] earlier[k]) is Commit) by {
                assert(earlier[k] == events[k]);
            }
        }
        assert(steady(earlier)) by {
            assert forall|k: int| 0 <= k < earlier.len() implies match #[trigger] earlier[k] {
                Event::Tick { factor, .. } => in_unit(factor),
                _ => true,
            } by {
                assert(earlier[k] == events[k]);
            }
        }
        assert(all_before(earlier, deadline)) by {
            assert forall|k: int| 0 <= k < earlier.len() implies match #[trigger] earlier[k] {
                Event::Tick { now, .. } => now.before_spec(deadline),
                _ => true,
            } by {
                assert(earlier[k] == events[k]);
            }
        }
        lemma_waits_out_the_deadline(g, deadline, earlier);
        let h = after_events(g, earlier);
        let event = events[events.len() - 1];
        assert(!(event is Commit));
        if let Event::Tick { target_loc, live_size, factor, now } = event {
            let target = h.target(target_loc, live_size);
            law_progress_advances(h.leg_toward(target).progress, factor);
        }
    }
}

/// The wait at an endpoint is given up on the budget opened on arrival, however the
/// window is nudged meanwhile: the request outlives every tick before the deadline, and
/// a full step from the deadline on drops it. The chase goes on, and the next tick aims
/// at the live size.
pub proof fn law_nudges_never_extend_the_endpoint_hold(
    g: Geometry<Fixed>,
    deadline: Instant,
    events: Seq<Event<Fixed>>,
    target_loc: Point<Fixed>,
    live_size: Size<Fixed>,
    now: Instant,
)
    requires
        g.hold_deadline == Some(deadline),
        g.requested_size is Some,
        !g.start_hold.held(),
        in_unit(g.progress),
        silent(events),
        steady(events),
        all_before(events, deadline),
        !now.before_spec(deadline),
    ensures
        after_events(g, events).requested_size == g.requested_size,
        ({
            let (after, keep) = after_events(g, events).ticked(
                target_loc,
                live_size,
                Fixed::from_i32_spec(1),
                now,
                true,
            );
            &&& keep
            &&& after.requested_size is None
            &&& !after.start_hold.held()
            &&& after.target(target_loc, live_size) == (Rect { loc: target_loc, size: live_size })
        }),
{
    lemma_waits_out_the_deadline(g, deadline, events);
    let h = after_events(g, events);
    lemma_full_step_arrives(h.leg_toward(h.target(target_loc, live_size)).progress);
}

/// A hold onto an inherited rectangle never freezes and is never capped: its content
/// fills the slot from the first frame, through everything short of a new request.
pub proof fn law_stretched_content_fills<S: Scalar>(g: Geometry<S>, events: Seq<Event<S>>)
    requires
        g.wf(),
        g.content_policy is Stretch,
    ensures
        !after_events(g, events).start_hold.held(),
        !after_events(g, events).capped(),
        after_events(g, events).content_policy is Stretch,
    decreases events.len(),
{
    if events.len() > 0 {
        law_stretched_content_fills(g, events.drop_last());
        law_chase_stays_well_formed(g, events.drop_last());
    }
}

/// A frozen picture is never capped: it reproduces what was on screen.
pub proof fn law_frozen_is_uncapped<S: Scalar>(g: Geometry<S>)
    requires
        g.start_hold.held(),
    ensures
        !g.capped(),
{
}

/// A chase that meets no output completes at once, frozen or not.
pub proof fn law_off_screen_completes<S: Scalar>(
    g: Geometry<S>,
    target_loc: Point<S>,
    live_size: Size<S>,
    factor: S,
    now: Instant,
)
    ensures
        g.ticked(target_loc, live_size, factor, now, false) == (g, false),
{
}

/// Whether a chase is about to set off on a move: nothing outstanding, and no part of its
/// leg behind it.
pub open spec fn setting_off<S: Scalar>(g: Geometry<S>) -> bool {
    &&& g.progress == S::from_i32_spec(0)
    &&& g.requested_size is None
    &&& !g.start_hold.held()
}

/// A start without a request sets off on a move, from any seed, unless it lands on a
/// chase that still waits for its client.
pub proof fn law_move_sets_off<S: Scalar>(
    prev: Option<Geometry<S>>,
    seed: Rect<S>,
    space: AnimSpace,
    committed_size: Size<i32>,
    role: GeometryRole,
    replace_visual: bool,
    content_policy: ContentPolicy,
    stamp: u64,
)
    requires
        prev matches Some(g) ==> g.wf() && g.requested_size is None,
    ensures
        setting_off(
            started(
                prev,
                seed,
                space,
                None,
                committed_size,
                role,
                replace_visual,
                content_policy,
                stamp,
            ),
        ),
{
}

/// Progress from the start after the first `n` of the given factors.
pub open spec fn progress_after<S: Scalar>(factors: Seq<S>, n: nat) -> S
    decreases n,
{
    if n == 0 {
        S::from_i32_spec(0)
    } else {
        advance_spec(progress_after(factors, (n - 1) as nat), factors[n - 1])
    }
}

/// An entry after `n` ticks with its target in place, the `k`-th by `factors[k]` and at
/// `clock(k)`.
pub open spec fn entry_after<S: Scalar>(
    kind: AnimationKind<S>,
    target_loc: Point<S>,
    live_size: Size<S>,
    factors: Seq<S>,
    clock: spec_fn(nat) -> Instant,
    n: nat,
) -> AnimationKind<S>
    decreases n,
{
    if n == 0 {
        kind
    } else {
        ticked(
            entry_after(kind, target_loc, live_size, factors, clock, (n - 1) as nat),
            target_loc,
            live_size,
            factors[n - 1],
            clock((n - 1) as nat),
            true,
        ).0
    }
}

/// Whether the tick after the first `n` says to keep the entry.
pub open spec fn kept_after<S: Scalar>(
    kind: AnimationKind<S>,
    target_loc: Point<S>,
    live_size: Size<S>,
    factors: Seq<S>,
    clock: spec_fn(nat) -> Instant,
    n: nat,
) -> bool {
    ticked(
        entry_after(kind, target_loc, live_size, factors, clock, n),
        target_loc,
        live_size,
        factors[n as int],
        clock(n),
        true,
    ).1
}

/// An opening settles by its factors alone.
pub proof fn law_opening_settles_by_its_factors<S: Scalar>(
    target_loc: Point<S>,
    live_size: Size<S>,
    factors: Seq<S>,
    clock: spec_fn(nat) -> Instant,
    n: nat,
)
    ensures
        ({
            let opening = AnimationKind::Open { progress: S::from_i32_spec(0) };
            &&& entry_after(opening, target_loc, live_size, factors, clock, n) == (
            AnimationKind::Open { progress: progress_after(factors, n) })
            &&& kept_after(opening, target_loc, live_size, factors, clock, n)
                == in_flight_spec(progress_after(factors, n + 1))
        }),
    decreases n,
{
    if n > 0 {
        law_opening_settles_by_its_factors(
            target_loc,
            live_size,
            factors,
            clock,
            (n - 1) as nat,
        );
    }
}

/// A move settles by its factors alone, over its whole run from the first tick on, in
/// any number in which a target has not moved off itself: neither the distance nor the
/// clock has a part in it.
pub proof fn law_move_settles_by_its_factors<S: Scalar>(
    g: Geometry<S>,
    target_loc: Point<S>,
    live_size: Size<S>,
    factors: Seq<S>,
    clock: spec_fn(nat) -> Instant,
    n: nat,
)
    requires
        setting_off(g),
        !target_moved_spec(
            Rect { loc: target_loc, size: live_size },
            Rect { loc: target_loc, size: live_size },
        ),
    ensures
        entry_after(
            AnimationKind::Geometry(g),
            target_loc,
            live_size,
            factors,
            clock,
            n,
        ) matches AnimationKind::Geometry(h) && h.progress == progress_after(factors, n)
            && h.requested_size is None && !h.start_hold.held() && (n > 0
            ==> !target_moved_spec(
            h.leg_target,
            Rect { loc: target_loc, size: live_size },
        )),
        kept_after(AnimationKind::Geometry(g), target_loc, live_size, factors, clock, n)
            == in_flight_spec(progress_after(factors, n + 1)),
    decreases n,
{
    if n > 0 {
        law_move_settles_by_its_factors(
            g,
            target_loc,
            live_size,
            factors,
            clock,
            (n - 1) as nat,
        );
    }
    assert(progress_after(factors, n + 1) == advance_spec(
        progress_after(factors, n),
        factors[n as int],
    ));
}

/// Settling takes the same time over any distance: two moves and an opening, each with
/// its own target and clock, say at every tick of the same factors alike whether they go
/// on.
pub proof fn law_settle_time_is_distance_free(
    a: Geometry<Fixed>,
    b: Geometry<Fixed>,
    a_target: Rect<Fixed>,
    b_target: Rect<Fixed>,
    c_target: Rect<Fixed>,
    factors: Seq<Fixed>,
    a_clock: spec_fn(nat) -> Instant,
    b_clock: spec_fn(nat) -> Instant,
    c_clock: spec_fn(nat) -> Instant,
    n: nat,
)
    requires
        setting_off(a),
        setting_off(b),
    ensures
        ({
            let opening = AnimationKind::Open { progress: Fixed::from_i32_spec(0) };
            let a_kept = kept_after(
                AnimationKind::Geometry(a),
                a_target.loc,
                a_target.size,
                factors,
                a_clock,
                n,
            );
            &&& a_kept == kept_after(
                AnimationKind::Geometry(b),
                b_target.loc,
                b_target.size,
                factors,
                b_clock,
                n,
            )
            &&& a_kept == kept_after(
                opening,
                c_target.loc,
                c_target.size,
                factors,
                c_clock,
                n,
            )
        }),
{
    law_move_settles_by_its_factors(a, a_target.loc, a_target.size, factors, a_clock, n);
    law_move_settles_by_its_factors(b, b_target.loc, b_target.size, factors, b_clock, n);
    law_opening_settles_by_its_factors(c_target.loc, c_target.size, factors, c_clock, n);
}

/// Whether `b` lies between `a` and `c` on every axis, in position and in extent.
pub open spec fn rect_between(a: Rect<Fixed>, b: Rect<Fixed>, c: Rect<Fixed>) -> bool {
    &&& between(a.loc.x, b.loc.x, c.loc.x)
    &&& between(a.loc.y, b.loc.y, c.loc.y)
    &&& between(a.size.w, b.size.w, c.size.w)
    &&& between(a.size.h, b.size.h, c.size.h)
}

/// Whether a rectangle's extents are not negative.
pub open spec fn proper(r: Rect<Fixed>) -> bool {
    0 <= r.size.w.steps && 0 <= r.size.h.steps
}

/// The picture never overshoots: between two rectangles it stays between them. And
/// it only approaches: further along, it lies between where it was and the end.
pub proof fn law_picture_approaches(from: Rect<Fixed>, to: Rect<Fixed>, p: Fixed, q: Fixed)
    requires
        proper(from),
        proper(to),
        in_unit(p),
        in_unit(q),
        p.steps <= q.steps,
    ensures
        rect_between(from, lerp_rect_spec(from, to, p), to),
        rect_between(lerp_rect_spec(from, to, p), lerp_rect_spec(from, to, q), to),
        proper(lerp_rect_spec(from, to, p)),
{
    law_lerp_approaches(from.loc.x, to.loc.x, p, q);
    law_lerp_approaches(from.loc.y, to.loc.y, p, q);
    law_lerp_approaches(from.size.w, to.size.w, p, q);
    law_lerp_approaches(from.size.h, to.size.h, p, q);
}

/// A tick keeps the picture between where its leg starts and the target, never with a
/// negative extent; and where the target has moved, between where the picture was and
/// the new target, so that nothing jumps.
pub proof fn law_tick_never_overshoots(g: Geometry<Fixed>, target: Rect<Fixed>, factor: Fixed)
    requires
        proper(g.from),
        proper(g.visual),
        proper(target),
        in_unit(g.progress),
        in_unit(factor),
    ensures
        rect_between(g.leg_toward(target).from, g.stepped(target, factor).visual, target),
        target_moved_spec(g.leg_target, target) ==> rect_between(
            g.visual,
            g.stepped(target, factor).visual,
            target,
        ),
        proper(g.stepped(target, factor).visual),
        in_unit(g.stepped(target, factor).progress),
        g.leg_toward(target).progress.steps <= g.stepped(target, factor).progress.steps,
{
    let leg = g.leg_toward(target);
    law_progress_advances(leg.progress, factor);
    let p = advance_spec(leg.progress, factor);
    law_picture_approaches(leg.from, target, p, p);
}

/// While the target stays in place, every tick brings the picture nearer: it lies
/// between where the last tick drew it and the target, also where that is within half a
/// pixel of what the leg set out for.
pub proof fn law_tick_approaches(g: Geometry<Fixed>, target: Rect<Fixed>, factor: Fixed)
    requires
        proper(g.from),
        proper(target),
        in_unit(g.progress),
        in_unit(factor),
        !target_moved_spec(g.leg_target, target),
        g.visual == lerp_rect_spec(g.from, target, unit_clamp_spec(g.progress)),
    ensures
        rect_between(g.visual, g.stepped(target, factor).visual, target),
{
    law_progress_advances(g.progress, factor);
    law_picture_approaches(g.from, target, g.progress, advance_spec(g.progress, factor));
}

/// Whether the picture stands where a tick toward `target` goes on from without a jump:
/// at the start of its leg, where the last tick toward that target drew it, or anywhere
/// at all if the target has just moved.
pub open spec fn on_the_way(g: Geometry<Fixed>, target: Rect<Fixed>) -> bool {
    ||| g.visual == g.from
    ||| g.visual == lerp_rect_spec(g.from, target, unit_clamp_spec(g.progress))
    ||| target_moved_spec(g.leg_target, target)
}

/// The drawn path is continuous: a tick that is not frozen draws the picture between
/// where it was and the target, never past it and never with a negative extent. And the
/// path goes on so, toward the same target or one that has moved, for as long as the
/// chase is in flight.
pub proof fn law_path_is_continuous(
    g: Geometry<Fixed>,
    target_loc: Point<Fixed>,
    live_size: Size<Fixed>,
    factor: Fixed,
    now: Instant,
)
    requires
        !g.start_hold.held(),
        proper(g.from),
        proper(g.visual),
        proper(g.target(target_loc, live_size)),
        in_unit(g.progress),
        in_unit(factor),
        on_the_way(g, g.target(target_loc, live_size)),
    ensures
        ({
            let target = g.target(target_loc, live_size);
            let after = g.ticked(target_loc, live_size, factor, now, true).0;
            &&& rect_between(g.visual, after.visual, target)
            &&& proper(after.visual)
            &&& proper(after.from)
            &&& in_unit(after.progress)
            &&& in_flight_spec(after.progress) ==> on_the_way(after, target)
        }),
{
    let target = g.target(target_loc, live_size);
    law_tick_never_overshoots(g, target, factor);
    if !target_moved_spec(g.leg_target, target) && g.visual != g.from {
        law_tick_approaches(g, target, factor);
    }
}

/// Right after a start the picture stands at the start of its leg, so the path of the
/// first tick is continuous too, whatever the target.
pub proof fn law_start_is_on_the_way(
    prev: Option<Geometry<Fixed>>,
    seed: Rect<Fixed>,
    space: AnimSpace,
    request: Option<Size<i32>>,
    committed_size: Size<i32>,
    role: GeometryRole,
    replace_visual: bool,
    content_policy: ContentPolicy,
    stamp: u64,
    target: Rect<Fixed>,
)
    ensures
        ({
            let after = started(
                prev,
                seed,
                space,
                request,
                committed_size,
                role,
                replace_visual,
                content_policy,
                stamp,
            );
            &&& on_the_way(after, target)
            &&& in_unit(after.progress)
        }),
{
}

/// The cap is taken on each axis by itself: the lesser of the scale and 1.
pub proof fn law_cap_is_per_axis<S: Scalar>(visual: Size<S>, committed: Size<S>)
    ensures
        content_scale_spec(visual, committed, true).0 == content_scale_spec(
            visual,
            committed,
            false,
        ).0.min_spec(S::from_i32_spec(1)),
        content_scale_spec(visual, committed, true).1 == content_scale_spec(
            visual,
            committed,
            false,
        ).1.min_spec(S::from_i32_spec(1)),
{
}

/// Uncapped content fills what is drawn: the scale times the committed extent, counted
/// as a pixel at least, is the drawn extent, to within a step of the committed one.
/// Both sides are multiplied out by [`ONE`].
pub proof fn law_content_fills_the_visual(visual: Size<Fixed>, committed: Size<Fixed>)
    ensures
        ({
            let (sx, sy) = content_scale_spec(visual, committed, false);
            let w = committed.w.max_spec(Fixed::from_i32_spec(1)).steps;
            let h = committed.h.max_spec(Fixed::from_i32_spec(1)).steps;
            &&& ONE <= w && committed.w.steps <= w
            &&& ONE <= h && committed.h.steps <= h
            &&& -w < sx.steps * w - visual.w.steps * ONE < w
            &&& -h < sy.steps * h - visual.h.steps * ONE < h
        }),
{
    let one = Fixed::from_i32_spec(1);
    lemma_quotient_returns(visual.w, committed.w.max_spec(one));
    lemma_quotient_returns(visual.h, committed.h.max_spec(one));
}

/// Capped content is never magnified, and where nothing would be, the cap changes
/// nothing.
pub proof fn law_capped_content_is_not_magnified(visual: Size<Fixed>, committed: Size<Fixed>)
    ensures
        content_scale_spec(visual, committed, true).0.steps <= ONE,
        content_scale_spec(visual, committed, true).1.steps <= ONE,
        content_scale_spec(visual, committed, false).0.steps <= ONE ==> content_scale_spec(
            visual,
            committed,
            true,
        ).0 == content_scale_spec(visual, committed, false).0,
        content_scale_spec(visual, committed, false).1.steps <= ONE ==> content_scale_spec(
            visual,
            committed,
            true,
        ).1 == content_scale_spec(visual, committed, false).1,
{
}

/// An opening window starts transparent at the opening scale, and arrives opaque on
/// its live rectangle; on the way its opacity stays in the unit interval and its
/// extent between the two.
#[verifier::spinoff_prover]
pub proof fn law_opening_arrives(
    progress: Fixed,
    target_loc: Point<Fixed>,
    target_size: Size<Fixed>,
    open_scale: Fixed,
)
    requires
        in_unit(open_scale),
    ensures
        in_unit(opening_visual(progress, target_loc, target_size, open_scale).alpha),
        !opening_visual(progress, target_loc, target_size, open_scale).cap_content,
        open_scale.steps <= opening_scale(progress, open_scale).steps <= ONE,
        opening_visual(progress, target_loc, target_size, open_scale).size
            == target_size.scaled_spec(opening_scale(progress, open_scale)),
        progress.steps <= 0 ==> opening_scale(progress, open_scale) == open_scale,
        progress.steps >= ONE ==> opening_scale(progress, open_scale).steps == ONE,
        between(
            target_size.scaled_spec(open_scale).w,
            opening_visual(progress, target_loc, target_size, open_scale).size.w,
            target_size.w,
        ),
        between(
            target_size.scaled_spec(open_scale).h,
            opening_visual(progress, target_loc, target_size, open_scale).size.h,
            target_size.h,
        ),
        progress.steps <= 0 ==> opening_visual(
            progress,
            target_loc,
            target_size,
            open_scale,
        ).alpha.steps == 0 && opening_visual(progress, target_loc, target_size, open_scale).size
            == target_size.scaled_spec(open_scale),
        progress.steps >= ONE ==> {
            let drawn = opening_visual(progress, target_loc, target_size, open_scale);
            &&& drawn.alpha.steps == ONE
            &&& drawn.loc == target_loc
            &&& drawn.size == target_size
        },
{
    let one = Fixed::from_i32_spec(1);
    let p = unit_clamp_spec(progress);
    let left = one.minus_spec(p);
    lemma_share(left.steps as int, left.steps as int, left.steps as int);
    law_lerp_ends(open_scale, one);
    law_lerp_approaches(open_scale, one, p, p);
    let scale = lerp_spec(open_scale, one, p);
    lemma_share(target_size.w.steps as int, open_scale.steps as int, scale.steps as int);
    lemma_share(target_size.h.steps as int, open_scale.steps as int, scale.steps as int);
    if progress.steps >= ONE {
        assert(p == one);
        assert(scale == one);
        lemma_times_unit(target_size.w);
        lemma_times_unit(target_size.h);
        assert(target_size.scaled_spec(scale) == target_size);
        assert(left == (Fixed { steps: 0 }));
        lemma_times_unit(left);
    }
    if progress.steps <= 0 {
        assert(p.steps == 0);
        assert(left == one);
        lemma_times_unit(left);
    }
}

/// An opening window only ever comes in: the further along, the more opaque it is and
/// the nearer to its full scale.
pub proof fn law_opening_rises(
    p: Fixed,
    q: Fixed,
    target_loc: Point<Fixed>,
    target_size: Size<Fixed>,
    open_scale: Fixed,
)
    requires
        in_unit(open_scale),
        p.steps <= q.steps,
    ensures
        opening_visual(p, target_loc, target_size, open_scale).alpha.steps <= opening_visual(
            q,
            target_loc,
            target_size,
            open_scale,
        ).alpha.steps,
        opening_scale(p, open_scale).steps <= opening_scale(q, open_scale).steps,
{
    let one = Fixed::from_i32_spec(1);
    let (a, b) = (unit_clamp_spec(p), unit_clamp_spec(q));
    law_lerp_approaches(open_scale, one, a, b);
    let (more, less) = (one.minus_spec(a).steps as int, one.minus_spec(b).steps as int);
    lemma_share(more, less, more);
    lemma_share(less, less, more);
    assert(more * less == less * more) by (nonlinear_arith);
}

/// Neither the opacity nor the scale of an opening window falls from one tick to the
/// next.
pub proof fn law_opening_never_falls(
    progress: Fixed,
    factor: Fixed,
    target_loc: Point<Fixed>,
    target_size: Size<Fixed>,
    open_scale: Fixed,
)
    requires
        in_unit(progress),
        in_unit(factor),
        in_unit(open_scale),
    ensures
        ({
            let next = advance_spec(progress, factor);
            let before = opening_visual(progress, target_loc, target_size, open_scale);
            let after = opening_visual(next, target_loc, target_size, open_scale);
            &&& in_unit(next)
            &&& before.alpha.steps <= after.alpha.steps
            &&& opening_scale(progress, open_scale).steps <= opening_scale(
                next,
                open_scale,
            ).steps
        }),
{
    law_progress_advances(progress, factor);
    law_opening_rises(
        progress,
        advance_spec(progress, factor),
        target_loc,
        target_size,
        open_scale,
    );
}

/// An opening window grows about its center: the center of what is drawn is the center
/// of the live rectangle, exactly where the extent still to grow can be halved and to
/// within half a step elsewhere. Stated of twice the centers, and of every live rectangle
/// whose far corner is a number too.
#[verifier::spinoff_prover]
pub proof fn law_opening_is_centered(
    progress: Fixed,
    target_loc: Point<Fixed>,
    target_size: Size<Fixed>,
    open_scale: Fixed,
)
    requires
        in_unit(open_scale),
        i64::MIN <= target_loc.x.steps + target_size.w.steps <= i64::MAX,
        i64::MIN <= target_loc.y.steps + target_size.h.steps <= i64::MAX,
    ensures
        ({
            let drawn = opening_visual(progress, target_loc, target_size, open_scale);
            let x_off = (2 * drawn.loc.x.steps + drawn.size.w.steps) - (2 * target_loc.x.steps
                + target_size.w.steps);
            let y_off = (2 * drawn.loc.y.steps + drawn.size.h.steps) - (2 * target_loc.y.steps
                + target_size.h.steps);
            &&& -1 <= x_off <= 1
            &&& -1 <= y_off <= 1
            &&& (target_size.w.steps - drawn.size.w.steps) % 2 == 0 ==> x_off == 0
            &&& (target_size.h.steps - drawn.size.h.steps) % 2 == 0 ==> y_off == 0
        }),
{
    law_opening_arrives(progress, target_loc, target_size, open_scale);
    lemma_share(target_size.w.steps as int, open_scale.steps as int, open_scale.steps as int);
    lemma_share(target_size.h.steps as int, open_scale.steps as int, open_scale.steps as int);
}

/// All that holds of what is drawn for a window that opens, after any number of ticks by
/// factors of the unit interval: it is drawn about the center of its live rectangle, at a
/// scale between the opening one and 1, never capped; it starts transparent at the
/// opening scale; and from tick to tick neither its opacity nor its scale falls.
pub proof fn law_opening_run(
    factors: Seq<Fixed>,
    clock: spec_fn(nat) -> Instant,
    n: nat,
    target_loc: Point<Fixed>,
    target_size: Size<Fixed>,
    open_scale: Fixed,
)
    requires
        n <= factors.len(),
        forall|k: int| 0 <= k < factors.len() ==> in_unit(#[trigger] factors[k]),
        in_unit(open_scale),
        i64::MIN <= target_loc.x.steps + target_size.w.steps <= i64::MAX,
        i64::MIN <= target_loc.y.steps + target_size.h.steps <= i64::MAX,
    ensures
        ({
            let opening = AnimationKind::Open { progress: Fixed::from_i32_spec(0) };
            let drawn = entry_visual(
                entry_after(opening, target_loc, target_size, factors, clock, n),
                target_loc,
                target_size,
                open_scale,
            );
            let later = entry_visual(
                entry_after(opening, target_loc, target_size, factors, clock, n + 1),
                target_loc,
                target_size,
                open_scale,
            );
            let scale = opening_scale(progress_after(factors, n), open_scale);
            let later_scale = opening_scale(progress_after(factors, n + 1), open_scale);
            let x_off = (2 * drawn.loc.x.steps + drawn.size.w.steps) - (2 * target_loc.x.steps
                + target_size.w.steps);
            let y_off = (2 * drawn.loc.y.steps + drawn.size.h.steps) - (2 * target_loc.y.steps
                + target_size.h.steps);
            &&& in_unit(drawn.alpha)
            &&& !drawn.cap_content
            &&& open_scale.steps <= scale.steps <= ONE
            &&& drawn.size == target_size.scaled_spec(scale)
            &&& -1 <= x_off <= 1
            &&& -1 <= y_off <= 1
            &&& n == 0 ==> drawn.alpha.steps == 0 && scale == open_scale
            &&& n < factors.len() ==> drawn.alpha.steps <= later.alpha.steps && scale.steps
                <= later_scale.steps && later.size == target_size.scaled_spec(later_scale)
        }),
{
    law_opening_settles_by_its_factors(target_loc, target_size, factors, clock, n);
    law_opening_settles_by_its_factors(target_loc, target_size, factors, clock, n + 1);
    lemma_progress_after_is_unit(factors, n);
    let progress = progress_after(factors, n);
    law_opening_arrives(progress, target_loc, target_size, open_scale);
    law_opening_is_centered(progress, target_loc, target_size, open_scale);
    if n < factors.len() {
        let factor = factors[n as int];
        law_opening_never_falls(progress, factor, target_loc, target_size, open_scale);
        assert(progress_after(factors, n + 1) == advance_spec(progress, factor));
    }
}

proof fn lemma_progress_after_is_unit(factors: Seq<Fixed>, n: nat)
    requires
        n <= factors.len(),
        forall|k: int| 0 <= k < factors.len() ==> in_unit(#[trigger] factors[k]),
    ensures
        in_unit(progress_after(factors, n)),
    decreases n,
{
    if n > 0 {
        lemma_progress_after_is_unit(factors, (n - 1) as nat);
        law_progress_advances(progress_after(factors, (n - 1) as nat), factors[n - 1]);
    }
}

/// A chase after `n` ticks with its target in place, the `k`-th of them at `clock(k)`;
/// `None` once a tick has ended it.
pub open spec fn after_ticks(
    g: Geometry<Fixed>,
    target_loc: Point<Fixed>,
    live_size: Size<Fixed>,
    factor: Fixed,
    clock: spec_fn(nat) -> Instant,
    n: nat,
) -> Option<Geometry<Fixed>>
    decreases n,
{
    if n == 0 {
        Some(g)
    } else {
        match after_ticks(g, target_loc, live_size, factor, clock, (n - 1) as nat) {
            Some(h) => {
                let (after, keep) = h.ticked(
                    target_loc,
                    live_size,
                    factor,
                    clock((n - 1) as nat),
                    true,
                );
                if keep {
                    Some(after)
                } else {
                    None
                }
            },
            None => None,
        }
    }
}

/// Whether a chase is one that can come about by the time `now`: no deadline of it is
/// further off than its budget.
pub open spec fn on_schedule(g: Geometry<Fixed>, now: Instant) -> bool {
    &&& g.wf()
    &&& in_unit(g.progress)
    &&& g.start_hold matches StartHold::Until(d) ==> d.nanos <= now.nanos + MAX_START_HOLD
    &&& g.hold_deadline matches Some(d) ==> d.nanos <= now.nanos + MAX_ENDPOINT_HOLD
}

/// More ticks than any chase takes to end when nothing else happens to it: two legs, and
/// the two budgets.
pub open spec fn longest_run() -> nat {
    (2 * ONE + MAX_START_HOLD + MAX_ENDPOINT_HOLD + 12) as nat
}

/// The ticks a leg toward `target` can still take.
spec fn leg_rank(g: Geometry<Fixed>, target: Rect<Fixed>) -> int {
    if target_moved_spec(g.leg_target, target) {
        ONE + 1
    } else if in_flight_spec(g.progress) {
        ONE - g.progress.steps
    } else {
        0
    }
}

/// The ticks until a deadline, one more than the clock needs to reach it.
spec fn wait_rank(deadline: Instant, now: Instant) -> int {
    if now.nanos < deadline.nanos {
        deadline.nanos - now.nanos + 1
    } else {
        1
    }
}

/// The ticks a chase that is not frozen can still take.
spec fn run_rank(
    g: Geometry<Fixed>,
    target_loc: Point<Fixed>,
    live_size: Size<Fixed>,
    now: Instant,
) -> int {
    let leg = leg_rank(g, g.target(target_loc, live_size));
    if g.requested_size is None {
        leg
    } else {
        ONE + 2 + leg + match g.hold_deadline {
            Some(deadline) => wait_rank(deadline, now),
            None => MAX_ENDPOINT_HOLD + 2,
        }
    }
}

/// The ticks a chase can still take.
spec fn rank(
    g: Geometry<Fixed>,
    target_loc: Point<Fixed>,
    live_size: Size<Fixed>,
    now: Instant,
) -> int {
    let frozen = 2 * ONE + MAX_ENDPOINT_HOLD + 6;
    match g.start_hold {
        StartHold::Off => run_rank(g, target_loc, live_size, now),
        StartHold::Armed => frozen + MAX_START_HOLD + 2,
        StartHold::Until(deadline) => frozen + wait_rank(deadline, now),
    }
}

/// A tick of a chase that is not frozen ends it or leaves it fewer ticks to take.
#[verifier::spinoff_prover]
proof fn lemma_run_lowers_rank(
    g: Geometry<Fixed>,
    target_loc: Point<Fixed>,
    live_size: Size<Fixed>,
    factor: Fixed,
    now: Instant,
    next: Instant,
)
    requires
        on_schedule(g, now),
        !g.start_hold.held(),
        in_unit(factor),
        104 <= factor.steps,
        now.nanos < next.nanos,
        now.nanos + MAX_ENDPOINT_HOLD <= u64::MAX,
    ensures
        ({
            let (after, keep) = g.run(target_loc, live_size, factor, now);
            keep ==> {
                &&& on_schedule(after, next)
                &&& !after.start_hold.held()
                &&& 0 <= run_rank(after, target_loc, live_size, next) < run_rank(
                    g,
                    target_loc,
                    live_size,
                    now,
                )
            }
        }),
{
    let target = g.target(target_loc, live_size);
    let leg = g.leg_toward(target);
    law_progress_advances(leg.progress, factor);
    lemma_advance_gains(leg.progress, factor);
    let (after, keep) = g.run(target_loc, live_size, factor, now);
    assert(!target_moved_spec(target, target));
    if keep && after.requested_size is Some {
        assert(after.target(target_loc, live_size) == target);
        assert(!target_moved_spec(after.leg_target, target));
    }
}

/// Progress in flight gains with every tick of a share worth counting.
proof fn lemma_advance_gains(progress: Fixed, factor: Fixed)
    requires
        in_unit(progress),
        in_unit(factor),
        104 <= factor.steps,
    ensures
        in_flight_spec(progress) ==> progress.steps < advance_spec(progress, factor).steps,
        !in_flight_spec(progress) ==> !in_flight_spec(advance_spec(progress, factor)),
{
    lemma_advance_step(progress, factor);
    law_progress_advances(progress, factor);
}

/// A tick ends a chase or leaves it fewer ticks to take.
proof fn lemma_tick_lowers_rank(
    g: Geometry<Fixed>,
    target_loc: Point<Fixed>,
    live_size: Size<Fixed>,
    factor: Fixed,
    now: Instant,
    next: Instant,
)
    requires
        on_schedule(g, now),
        in_unit(factor),
        104 <= factor.steps,
        now.nanos < next.nanos,
        now.nanos + MAX_ENDPOINT_HOLD <= u64::MAX,
    ensures
        ({
            let (after, keep) = g.ticked(target_loc, live_size, factor, now, true);
            keep ==> {
                &&& on_schedule(after, next)
                &&& 0 <= rank(after, target_loc, live_size, next) < rank(
                    g,
                    target_loc,
                    live_size,
                    now,
                )
            }
        }),
{
    let running = Geometry { start_hold: StartHold::Off, ..g };
    lemma_run_lowers_rank(running, target_loc, live_size, factor, now, next);
}

/// No chase is stranded: with its target in place and a clock that goes on, it ends
/// within a bounded number of ticks, even if the client never answers. It waits out the
/// freeze, flies to the requested size, waits there, gives the request up and flies
/// back.
pub proof fn law_no_chase_is_stranded(
    g: Geometry<Fixed>,
    target_loc: Point<Fixed>,
    live_size: Size<Fixed>,
    factor: Fixed,
    clock: spec_fn(nat) -> Instant,
    n: nat,
)
    requires
        on_schedule(g, clock(0)),
        in_unit(factor),
        Fixed::from_i32_spec(1).over_spec(Fixed::from_i32_spec(10000)).le_spec(factor),
        n >= longest_run(),
        forall|k: nat|
            k < n ==> (#[trigger] clock(k)).nanos < clock(k + 1).nanos && clock(k).nanos
                + MAX_ENDPOINT_HOLD <= u64::MAX,
    ensures
        after_ticks(g, target_loc, live_size, factor, clock, n) is None,
{
    lemma_ranks_fall(g, target_loc, live_size, factor, clock, n, n);
}

proof fn lemma_ranks_fall(
    g: Geometry<Fixed>,
    target_loc: Point<Fixed>,
    live_size: Size<Fixed>,
    factor: Fixed,
    clock: spec_fn(nat) -> Instant,
    n: nat,
    m: nat,
)
    requires
        on_schedule(g, clock(0)),
        in_unit(factor),
        104 <= factor.steps,
        m <= n,
        forall|k: nat|
            k < n ==> (#[trigger] clock(k)).nanos < clock(k + 1).nanos && clock(k).nanos
                + MAX_ENDPOINT_HOLD <= u64::MAX,
    ensures
        after_ticks(g, target_loc, live_size, factor, clock, m) matches Some(h) ==> {
            &&& on_schedule(h, clock(m))
            &&& 0 <= rank(h, target_loc, live_size, clock(m))
            &&& rank(h, target_loc, live_size, clock(m)) + m <= longest_run() - 1
        },
    decreases m,
{
    if m > 0 {
        let earlier = (m - 1) as nat;
        lemma_ranks_fall(g, target_loc, live_size, factor, clock, n, earlier);
        assert(clock(earlier).nanos < clock(earlier + 1).nanos);
        if let Some(h) = after_ticks(g, target_loc, live_size, factor, clock, earlier) {
            lemma_tick_lowers_rank(
                h,
                target_loc,
                live_size,
                factor,
                clock(earlier),
                clock(m),
            );
        }
    }
}

} // verus!
