//! The render-only animations of live windows. The logical model always updates
//! at once; an entry here lerps the drawn picture after it.
//!
//! A window fades and scales in when it opens. A geometry change chases a target
//! that is read anew on every tick. When the compositor asked for a size that the
//! client has not drawn yet, the picture first freezes until the redraw arrives or
//! a budget runs out, and at the far end it waits for the client once more.

use std::collections::HashMap;

use vstd::prelude::*;

use crate::geometry::{lerp_rect, lerp_rect_spec, Point, Rect, Size};
use crate::scalar::{
    advance, advance_spec, done_epsilon, done_epsilon_spec, half, half_spec, lerp, lerp_spec,
    unit_clamp, unit_clamp_spec, Scalar,
};
use crate::time::Instant;

verus! {

broadcast use vstd::std_specs::hash::group_hash_axioms;

/// A client that never commits the requested size holds the stretched endpoint no
/// longer than this after first reaching it, in nanoseconds.
pub const MAX_ENDPOINT_HOLD: u64 = 500_000_000;

/// How long a resize that the compositor asked for waits for the client's first
/// redraw before it animates with stale content, in nanoseconds. A client that
/// misses one of the two bounds misses both.
pub const MAX_START_HOLD: u64 = MAX_ENDPOINT_HOLD;

/// A resize is requested of the client only where it changes some axis by more
/// than this many pixels. A client that cannot take a smaller step answers with the
/// size it already had, which reads like silence, so the wait would burn its whole
/// budget over a resize that nobody can see.
pub const MIN_REQUESTED_STEP: i64 = 10;

/// The freeze that precedes a leg toward a size the compositor asked for.
#[derive(Clone, Copy, Debug, PartialEq)]
pub enum StartHold {
    /// Not holding: the leg advances.
    Off,
    /// Armed at the start. The first tick sets the deadline, so an entry that waits
    /// for its first tick burns none of its budget.
    Armed,
    /// Frozen until this deadline.
    Until(Instant),
}

impl StartHold {
    /// Whether the freeze is on.
    pub open spec fn held(self) -> bool {
        !(self is Off)
    }

    /// Whether the freeze is on.
    pub fn is_held(self) -> (r: bool)
        ensures
            r == self.held(),
    {
        match self {
            StartHold::Off => false,
            _ => true,
        }
    }
}

/// What is drawn in place of a window while an animation plays.
#[derive(Debug, PartialEq)]
pub struct AnimatedVisual<S> {
    pub loc: Point<S>,
    pub size: Size<S>,
    pub alpha: S,
    /// The buffer is stale, and it is not to be magnified.
    pub cap_content: bool,
}

/// What to do with a stale buffer while a geometry entry animates.
#[derive(Clone, Copy, Debug, PartialEq)]
pub enum ContentPolicy {
    /// A chase toward a size just asked for: the scale is capped at 1.
    Cap,
    /// A hold onto a rectangle that the window inherited: the buffer stretches to
    /// fill it, since drawn at its own size it would sit in the slot's corner.
    Stretch,
}

/// The scale at which to draw a committed buffer so that it fills `visual`.
pub open spec fn content_scale_spec<S: Scalar>(
    visual: Size<S>,
    committed: Size<S>,
    cap_content: bool,
) -> (S, S) {
    let one = S::from_i32_spec(1);
    let sx = visual.w.over_spec(committed.w.max_spec(one));
    let sy = visual.h.over_spec(committed.h.max_spec(one));
    if cap_content {
        (sx.min_spec(one), sy.min_spec(one))
    } else {
        (sx, sy)
    }
}

/// The scale at which to draw a committed buffer so that it fills `visual`.
///
/// A stale buffer drawn smaller reads fine; drawn larger it does not. So with
/// `cap_content` the scale stops at 1: the frame animates and the stale pixels sit
/// at their true size.
pub fn content_scale<S: Scalar>(visual: Size<S>, committed: Size<S>, cap_content: bool) -> (r: (
    S,
    S,
))
    ensures
        r == content_scale_spec(visual, committed, cap_content),
{
    let one = S::from_i32(1);
    let sx = visual.w.over(committed.w.max(one));
    let sy = visual.h.over(committed.h.max(one));
    if cap_content {
        (sx.min(one), sy.min(one))
    } else {
        (sx, sy)
    }
}

/// The coordinate space a geometry chase runs in.
#[derive(Debug, PartialEq)]
pub enum AnimSpace {
    /// Canvas coordinates, drawn through the camera.
    Canvas,
    /// The screen of the named output, for a window pinned there.
    Screen(String),
}

impl AnimSpace {
    /// Whether two spaces are the same.
    pub open spec fn same_spec(self, other: AnimSpace) -> bool {
        match (self, other) {
            (AnimSpace::Canvas, AnimSpace::Canvas) => true,
            (AnimSpace::Screen(a), AnimSpace::Screen(b)) => a@ == b@,
            _ => false,
        }
    }

    fn same(&self, other: &AnimSpace) -> (r: bool)
        ensures
            r == self.same_spec(*other),
    {
        match (self, other) {
            (AnimSpace::Canvas, AnimSpace::Canvas) => true,
            (AnimSpace::Screen(a), AnimSpace::Screen(b)) => a.eq(b),
            _ => false,
        }
    }
}

impl Clone for AnimSpace {
    fn clone(&self) -> (r: AnimSpace)
        ensures
            r == *self,
    {
        match self {
            AnimSpace::Canvas => AnimSpace::Canvas,
            AnimSpace::Screen(output) => AnimSpace::Screen(output.clone()),
        }
    }
}

/// Why a geometry chase was started.
#[derive(Debug, PartialEq)]
pub enum GeometryRole {
    /// A move, or a resize that stays windowed.
    Normal,
    /// The window is entering fullscreen; `was_pinned` if it was pinned until then.
    FullscreenEntry { was_pinned: bool },
    /// The window is leaving fullscreen on the named output.
    FullscreenExit { output: String },
}

/// What a frozen chase keeps on screen, where that is no longer what the stage says:
/// the stage changes at the action, and the picture only when the client redraws.
#[derive(Debug, PartialEq)]
pub enum Picture {
    /// The window as it was before it entered fullscreen, pinned or not.
    Windowed { pinned: bool },
    /// The window still covering the named output.
    Fullscreen { output: String },
}

impl GeometryRole {
    /// The picture that is on screen when a chase of this role starts.
    pub open spec fn picture_spec(self) -> Option<Picture> {
        match self {
            GeometryRole::Normal => None,
            GeometryRole::FullscreenEntry { was_pinned } => Some(
                Picture::Windowed { pinned: was_pinned },
            ),
            GeometryRole::FullscreenExit { output } => Some(Picture::Fullscreen { output }),
        }
    }

    fn picture(&self) -> (r: Option<Picture>)
        ensures
            r == self.picture_spec(),
    {
        match self {
            GeometryRole::Normal => None,
            GeometryRole::FullscreenEntry { was_pinned } => Some(
                Picture::Windowed { pinned: *was_pinned },
            ),
            GeometryRole::FullscreenExit { output } => Some(
                Picture::Fullscreen { output: output.clone() },
            ),
        }
    }
}

/// One geometry chase.
#[derive(Debug)]
pub struct Geometry<S> {
    /// The last computed rectangle: what is drawn, and where the next leg starts
    /// when the target moves.
    pub visual: Rect<S>,
    /// Where the current leg started.
    pub from: Rect<S>,
    /// What the current leg aims at, so that a moved target shows.
    pub leg_target: Rect<S>,
    pub progress: S,
    pub space: AnimSpace,
    /// The size asked of the client and not resolved yet.
    pub requested_size: Option<Size<i32>>,
    /// The client's buffer does not match the rectangle being animated. A property
    /// of the buffer and not of the request: only a commit clears it.
    pub buffer_stale: bool,
    pub content_policy: ContentPolicy,
    /// The committed size last seen.
    pub last_committed_size: Size<i32>,
    /// Set on first reaching the endpoint of an outstanding request.
    pub hold_deadline: Option<Instant>,
    pub start_hold: StartHold,
    /// The stamp of the last request, so that content captured for an older one is
    /// never paired with this leg.
    pub generation: u64,
    pub role: GeometryRole,
    /// What the freeze keeps on screen. A start that lands on a frozen chase, request
    /// or not, leaves it: the picture has not changed.
    pub picture: Option<Picture>,
}

/// One entry: a window opening, or a geometry chase.
#[derive(Debug)]
pub enum AnimationKind<S> {
    Open { progress: S },
    Geometry(Geometry<S>),
}

/// What a caller needs to place one entry on outputs: its id, and the space and
/// rectangle of a geometry chase (`None` for an open entry, which sits at the
/// window's live rectangle).
pub type ScopingEntry<S> = (u64, Option<(AnimSpace, Rect<S>)>);

/// The request that a start carries: the requested size, unless the client has it
/// already. A request that is met before it is made has nothing to wait for.
pub open spec fn carried_request_spec(
    requested_size: Option<Size<i32>>,
    committed_size: Size<i32>,
) -> Option<Size<i32>> {
    match requested_size {
        Some(size) if size != committed_size => Some(size),
        _ => None,
    }
}

/// The request that a start carries: the requested size, unless the client has it
/// already.
pub fn carried_request(requested_size: Option<Size<i32>>, committed_size: Size<i32>) -> (r: Option<
    Size<i32>,
>)
    ensures
        r == carried_request_spec(requested_size, committed_size),
{
    match requested_size {
        Some(size) => if size.same(committed_size) {
            None
        } else {
            Some(size)
        },
        None => None,
    }
}

/// The size to ask of a client for a resize to `size`: none where no axis changes by
/// more than [`MIN_REQUESTED_STEP`], so that a resize too small to see moves the window
/// without a wait.
pub open spec fn resize_request_spec(size: Size<i32>, committed_size: Size<i32>) -> Option<
    Size<i32>,
> {
    if -MIN_REQUESTED_STEP <= size.w - committed_size.w <= MIN_REQUESTED_STEP
        && -MIN_REQUESTED_STEP <= size.h - committed_size.h <= MIN_REQUESTED_STEP {
        None
    } else {
        Some(size)
    }
}

/// The size to ask of a client for a resize to `size`, to hand to
/// [`WindowAnimations::start_geometry`]; `None` for one too small to see.
pub fn resize_request(size: Size<i32>, committed_size: Size<i32>) -> (r: Option<Size<i32>>)
    ensures
        r == resize_request_spec(size, committed_size),
{
    let dw: i64 = size.w as i64 - committed_size.w as i64;
    let dh: i64 = size.h as i64 - committed_size.h as i64;
    if dw > MIN_REQUESTED_STEP || -dw > MIN_REQUESTED_STEP || dh > MIN_REQUESTED_STEP || -dh
        > MIN_REQUESTED_STEP {
        Some(size)
    } else {
        None
    }
}

/// The freeze that a request opens: one asked of the client is waited for, an
/// inherited slot is filled at once.
pub open spec fn opening_hold(content_policy: ContentPolicy) -> StartHold {
    match content_policy {
        ContentPolicy::Cap => StartHold::Armed,
        ContentPolicy::Stretch => StartHold::Off,
    }
}

/// The chase that a start leaves. `prev` is the chase it retargets, `request` the
/// size it carries, and `stamp` the counter after the start.
pub open spec fn started<S: Scalar>(
    prev: Option<Geometry<S>>,
    seed: Rect<S>,
    space: AnimSpace,
    request: Option<Size<i32>>,
    committed_size: Size<i32>,
    role: GeometryRole,
    replace_visual: bool,
    content_policy: ContentPolicy,
    stamp: u64,
) -> Geometry<S> {
    let visual = match prev {
        Some(g) if !replace_visual && g.space.same_spec(space) => g.visual,
        _ => seed,
    };
    let base = Geometry {
        visual,
        from: visual,
        leg_target: visual,
        progress: S::from_i32_spec(0),
        space,
        requested_size: request,
        buffer_stale: true,
        content_policy,
        last_committed_size: committed_size,
        hold_deadline: None,
        start_hold: opening_hold(content_policy),
        generation: stamp,
        role,
        picture: match prev {
            Some(g) if g.start_hold.held() => g.picture,
            _ => role.picture_spec(),
        },
    };
    if request is Some {
        base
    } else {
        match prev {
            // The same wait, moving: what is outstanding stays as it was.
            Some(g) => Geometry {
                requested_size: g.requested_size,
                buffer_stale: g.buffer_stale,
                content_policy: g.content_policy,
                hold_deadline: g.hold_deadline,
                start_hold: g.start_hold,
                generation: g.generation,
                ..base
            },
            None => Geometry { buffer_stale: false, start_hold: StartHold::Off, ..base },
        }
    }
}

/// How far, in pixels on any axis, a target may drift before the leg restarts.
pub open spec fn moved_epsilon_spec<S: Scalar>() -> S {
    half_spec(S::from_i32_spec(1))
}

/// Whether `b` differs from `a` by more than the drift a leg tolerates.
pub open spec fn drifted_spec<S: Scalar>(a: S, b: S) -> bool {
    moved_epsilon_spec::<S>().lt_spec(b.minus_spec(a).abs_spec())
}

fn drifted<S: Scalar>(a: S, b: S) -> (r: bool)
    ensures
        r == drifted_spec(a, b),
{
    half(S::from_i32(1)).lt(b.minus(a).abs())
}

/// Whether a target has moved off the one that the current leg aims at.
pub open spec fn target_moved_spec<S: Scalar>(leg_target: Rect<S>, target: Rect<S>) -> bool {
    ||| drifted_spec(leg_target.loc.x, target.loc.x)
    ||| drifted_spec(leg_target.loc.y, target.loc.y)
    ||| drifted_spec(leg_target.size.w, target.size.w)
    ||| drifted_spec(leg_target.size.h, target.size.h)
}

fn target_moved<S: Scalar>(leg_target: Rect<S>, target: Rect<S>) -> (r: bool)
    ensures
        r == target_moved_spec(leg_target, target),
{
    drifted(leg_target.loc.x, target.loc.x) || drifted(leg_target.loc.y, target.loc.y) || drifted(
        leg_target.size.w,
        target.size.w,
    ) || drifted(leg_target.size.h, target.size.h)
}

/// Whether progress has not arrived yet.
pub open spec fn in_flight_spec<S: Scalar>(progress: S) -> bool {
    done_epsilon_spec::<S>().lt_spec(S::from_i32_spec(1).minus_spec(progress))
}

fn in_flight<S: Scalar>(progress: S) -> (r: bool)
    ensures
        r == in_flight_spec(progress),
{
    done_epsilon::<S>().lt(S::from_i32(1).minus(progress))
}

impl<S: Scalar> Geometry<S> {
    /// What holds of every chase: a freeze waits for a capped request, and an
    /// outstanding request means a stale buffer.
    pub open spec fn wf(self) -> bool {
        &&& self.start_hold.held() ==> self.requested_size is Some && self.content_policy is Cap
        &&& self.requested_size is Some ==> self.buffer_stale
    }

    /// The rectangle the chase aims at: the window's position, at the requested
    /// size while one is outstanding, else at the live size.
    pub open spec fn target(self, target_loc: Point<S>, live_size: Size<S>) -> Rect<S> {
        Rect {
            loc: target_loc,
            size: match self.requested_size {
                Some(size) => size.scalar_spec::<S>(),
                None => live_size,
            },
        }
    }

    /// The leg toward `target`: the current one, or a fresh one from where the
    /// picture is if the target has moved.
    pub open spec fn leg_toward(self, target: Rect<S>) -> Geometry<S> {
        if target_moved_spec(self.leg_target, target) {
            Geometry {
                from: self.visual,
                leg_target: target,
                progress: S::from_i32_spec(0),
                ..self
            }
        } else {
            self
        }
    }

    /// The chase one step further along its leg.
    pub open spec fn stepped(self, target: Rect<S>, factor: S) -> Geometry<S> {
        let leg = self.leg_toward(target);
        let progress = advance_spec(leg.progress, factor);
        Geometry {
            progress,
            visual: lerp_rect_spec(leg.from, target, unit_clamp_spec(progress)),
            ..leg
        }
    }

    /// The chase, arrived at the endpoint of a request that is still outstanding:
    /// it draws the requested rectangle, and drops the request once the wait that
    /// began on arrival has run out.
    pub open spec fn waiting(self, target: Rect<S>, now: Instant) -> Geometry<S> {
        match self.hold_deadline {
            None => Geometry {
                visual: target,
                hold_deadline: Some(now.later_spec(MAX_ENDPOINT_HOLD)),
                ..self
            },
            Some(deadline) => Geometry {
                visual: target,
                requested_size: if now.before_spec(deadline) {
                    self.requested_size
                } else {
                    None
                },
                ..self
            },
        }
    }

    /// The chase after a tick that is not frozen, and whether to keep it.
    pub open spec fn run(
        self,
        target_loc: Point<S>,
        live_size: Size<S>,
        factor: S,
        now: Instant,
    ) -> (Geometry<S>, bool) {
        let target = self.target(target_loc, live_size);
        let next = self.stepped(target, factor);
        if in_flight_spec(next.progress) {
            (next, true)
        } else if self.requested_size is None {
            (next, false)
        } else {
            (next.waiting(target, now), true)
        }
    }

    /// The chase after a tick, and whether to keep it.
    pub open spec fn ticked(
        self,
        target_loc: Point<S>,
        live_size: Size<S>,
        factor: S,
        now: Instant,
        eligible: bool,
    ) -> (Geometry<S>, bool) {
        if !eligible {
            (self, false)
        } else {
            match self.start_hold {
                StartHold::Armed => (
                    Geometry {
                        start_hold: StartHold::Until(now.later_spec(MAX_START_HOLD)),
                        ..self
                    },
                    true,
                ),
                StartHold::Until(deadline) if now.before_spec(deadline) => (self, true),
                _ => Geometry { start_hold: StartHold::Off, ..self }.run(
                    target_loc,
                    live_size,
                    factor,
                    now,
                ),
            }
        }
    }

    fn tick(
        &mut self,
        target_loc: Point<S>,
        live_size: Size<S>,
        factor: S,
        now: Instant,
        eligible: bool,
    ) -> (keep: bool)
        requires
            now.nanos + MAX_ENDPOINT_HOLD <= u64::MAX,
        ensures
            (*final(self), keep) == old(self).ticked(target_loc, live_size, factor, now, eligible),
    {
        if !eligible {
            return false;
        }
        match self.start_hold {
            StartHold::Armed => {
                self.start_hold = StartHold::Until(now.later(MAX_START_HOLD));
                return true;
            },
            StartHold::Until(deadline) => {
                if now.before(deadline) {
                    return true;
                }
            },
            StartHold::Off => {},
        }
        self.start_hold = StartHold::Off;
        let size: Size<S> = match self.requested_size {
            Some(size) => size.scalar(),
            None => live_size,
        };
        let target = Rect { loc: target_loc, size };
        if target_moved(self.leg_target, target) {
            self.from = self.visual;
            self.leg_target = target;
            self.progress = S::from_i32(0);
        }
        self.progress = advance(self.progress, factor);
        self.visual = lerp_rect(self.from, target, unit_clamp(self.progress));
        if in_flight(self.progress) {
            return true;
        }
        if self.requested_size.is_none() {
            return false;
        }
        self.visual = target;
        match self.hold_deadline {
            Some(deadline) => {
                if !now.before(deadline) {
                    self.requested_size = None;
                }
            },
            None => {
                self.hold_deadline = Some(now.later(MAX_ENDPOINT_HOLD));
            },
        }
        true
    }

    /// The chase after a commit of `committed_size`. A commit at the requested size
    /// and one at any new size both resolve what is outstanding; a redraw at the
    /// same size resolves nothing.
    pub open spec fn committed(self, committed_size: Size<i32>) -> Geometry<S> {
        if self.requested_size == Some(committed_size) || committed_size
            != self.last_committed_size {
            Geometry {
                requested_size: None,
                buffer_stale: false,
                start_hold: if self.requested_size is Some {
                    StartHold::Off
                } else {
                    self.start_hold
                },
                last_committed_size: committed_size,
                ..self
            }
        } else {
            self
        }
    }
}

impl<S: Scalar> Geometry<S> {
    /// Whether a stale buffer is kept from being magnified. A frozen picture never
    /// is: it reproduces what was on screen, at whatever ratio that was.
    pub open spec fn capped(self) -> bool {
        !self.start_hold.held() && self.buffer_stale && self.content_policy is Cap
    }
}

/// The scale that a window is drawn at while it opens.
pub open spec fn opening_scale<S: Scalar>(progress: S, open_scale: S) -> S {
    lerp_spec(open_scale, S::from_i32_spec(1), unit_clamp_spec(progress))
}

/// What is drawn for a window that is opening: scaled up from `open_scale` about
/// its center, and fading in so that it is opaque for most of the growth.
pub open spec fn opening_visual<S: Scalar>(
    progress: S,
    target_loc: Point<S>,
    target_size: Size<S>,
    open_scale: S,
) -> AnimatedVisual<S> {
    let one = S::from_i32_spec(1);
    let p = unit_clamp_spec(progress);
    let size = target_size.scaled_spec(opening_scale(progress, open_scale));
    let left = one.minus_spec(p);
    AnimatedVisual {
        loc: target_loc.shifted_spec(
            Point {
                x: half_spec(target_size.w.minus_spec(size.w)),
                y: half_spec(target_size.h.minus_spec(size.h)),
            },
        ),
        size,
        alpha: one.minus_spec(left.times_spec(left)),
        cap_content: false,
    }
}

/// What is drawn for an entry, given its window's live rectangle.
pub open spec fn entry_visual<S: Scalar>(
    kind: AnimationKind<S>,
    target_loc: Point<S>,
    target_size: Size<S>,
    open_scale: S,
) -> AnimatedVisual<S> {
    match kind {
        AnimationKind::Open { progress } => opening_visual(
            progress,
            target_loc,
            target_size,
            open_scale,
        ),
        AnimationKind::Geometry(g) => AnimatedVisual {
            loc: g.visual.loc,
            size: g.visual.size,
            alpha: S::from_i32_spec(1),
            cap_content: g.capped(),
        },
    }
}

/// An entry after a tick, and whether to keep it.
pub open spec fn ticked<S: Scalar>(
    kind: AnimationKind<S>,
    target_loc: Point<S>,
    live_size: Size<S>,
    factor: S,
    now: Instant,
    eligible: bool,
) -> (AnimationKind<S>, bool) {
    match kind {
        AnimationKind::Open { progress } => if eligible {
            let next = advance_spec(progress, factor);
            (AnimationKind::Open { progress: next }, in_flight_spec(next))
        } else {
            (kind, false)
        },
        AnimationKind::Geometry(g) => {
            let after = g.ticked(target_loc, live_size, factor, now, eligible);
            (AnimationKind::Geometry(after.0), after.1)
        },
    }
}

/// The animations in flight, by window.
pub struct WindowAnimations<S> {
    animations: HashMap<u64, AnimationKind<S>>,
    generation: u64,
}

impl<S> WindowAnimations<S> {
    /// The entries, by window id.
    pub closed spec fn entries(&self) -> Map<u64, AnimationKind<S>> {
        self.animations@
    }

    /// The stamp of the latest request, over all entries.
    pub closed spec fn stamp(&self) -> u64 {
        self.generation
    }

    /// The geometry chase of `id`, if it has one.
    pub open spec fn chase(&self, id: u64) -> Option<Geometry<S>> {
        if self.entries().contains_key(id) {
            match self.entries()[id] {
                AnimationKind::Geometry(g) => Some(g),
                AnimationKind::Open { .. } => None,
            }
        } else {
            None
        }
    }
}

impl<S: Scalar> WindowAnimations<S> {
    /// What holds of the whole: every chase is well formed, and none carries a
    /// stamp later than the latest.
    pub open spec fn wf(&self) -> bool {
        forall|id: u64| #[trigger]
            self.entries().contains_key(id) ==> match self.entries()[id] {
                AnimationKind::Geometry(g) => g.wf() && g.generation <= self.stamp(),
                AnimationKind::Open { .. } => true,
            }
    }

    /// No animation in flight.
    pub fn new() -> (r: Self)
        ensures
            r.entries() == Map::<u64, AnimationKind<S>>::empty(),
            r.stamp() == 0,
            r.wf(),
    {
        WindowAnimations { animations: HashMap::new(), generation: 0 }
    }

    /// How many entries are in flight.
    pub fn len(&self) -> (r: usize)
        ensures
            self.entries().dom().finite(),
            r == self.entries().len(),
    {
        self.animations.len()
    }

    /// Whether any entry is in flight.
    pub fn is_active(&self) -> (r: bool)
        ensures
            r == !self.entries().is_empty(),
    {
        !self.animations.is_empty()
    }

    /// Drop the entry of `id`, if there is one.
    pub fn remove(&mut self, id: u64)
        ensures
            final(self).entries() == old(self).entries().remove(id),
            final(self).stamp() == old(self).stamp(),
            old(self).wf() ==> final(self).wf(),
    {
        self.animations.remove(&id);
    }

    /// Drop every entry whose id no longer resolves.
    pub fn retain_ids(&mut self, resolves: impl Fn(u64) -> bool)
        requires
            forall|id: u64| #[trigger]
                old(self).entries().contains_key(id) ==> call_requires(resolves, (id,)),
        ensures
            final(self).stamp() == old(self).stamp(),
            forall|id: u64| #[trigger]
                final(self).entries().contains_key(id) ==> old(self).entries().contains_key(id)
                    && final(self).entries()[id] == old(self).entries()[id] && call_ensures(
                    resolves,
                    (id,),
                    true,
                ),
            forall|id: u64| #[trigger]
                old(self).entries().contains_key(id) && !final(self).entries().contains_key(id)
                    ==> call_ensures(resolves, (id,), false),
            old(self).wf() ==> final(self).wf(),
    {
        let mut gone: Vec<u64> = Vec::new();
        let ghost before = self.animations@;
        assert(before == old(self).entries());
        for id in it: self.animations.keys()
            invariant
                before == self.animations@,
                forall|id: u64| #[trigger]
                    before.contains_key(id) ==> call_requires(resolves, (id,)),
                it.seq().unref().to_set() == before.dom(),
                forall|k: int|
                    0 <= k < gone.len() ==> before.contains_key(#[trigger] gone[k])
                        && call_ensures(resolves, (gone[k],), false),
                forall|k: int|
                    0 <= k < it.index() ==> gone@.contains(*#[trigger] it.seq()[k]) || call_ensures(
                        resolves,
                        (*it.seq()[k],),
                        true,
                    ),
        {
            proof {
                assert(it.seq().unref()[it.index() as int] == *id);
                assert(it.seq().unref().to_set().contains(*id));
            }
            let ghost gone_before = gone@;
            if !resolves(*id) {
                gone.push(*id);
                assert(gone@[gone@.len() - 1] == *id);
            }
            assert forall|k: int| 0 <= k < it.index() implies gone@.contains(
                *#[trigger] it.seq()[k],
            ) || call_ensures(resolves, (*it.seq()[k],), true) by {
                if gone_before.contains(*it.seq()[k]) {
                    let j = gone_before.index_of(*it.seq()[k]);
                    assert(gone@[j] == *it.seq()[k]);
                }
            }
        }
        assert forall|id: u64| #[trigger] before.contains_key(id) implies gone@.contains(id)
            || call_ensures(resolves, (id,), true) by {
            assert(before.dom().contains(id));
        }
        for k in 0..gone.len()
            invariant
                forall|id: u64| #[trigger]
                    self.animations@.contains_key(id) <==> before.contains_key(id)
                        && !gone@.take(k as int).contains(id),
                forall|id: u64| #[trigger]
                    self.animations@.contains_key(id) ==> self.animations@[id] == before[id],
                self.generation == old(self).generation,
        {
            self.animations.remove(&gone[k]);
            proof {
                assert(gone@.take(k + 1) == gone@.take(k as int).push(gone@[k as int]));
                assert forall|id: u64| gone@.take(k + 1).contains(id) <==> gone@.take(
                    k as int,
                ).contains(id) || id == gone@[k as int] by {
                    let earlier = gone@.take(k as int);
                    if earlier.contains(id) {
                        assert(gone@.take(k + 1)[earlier.index_of(id)] == id);
                    }
                    assert(gone@.take(k + 1)[k as int] == gone@[k as int]);
                }
            }
        }
        assert(gone@.take(gone@.len() as int) == gone@);
    }

    /// Start the fade and scale-in of a window that opens, in place of whatever
    /// entry it had.
    pub fn start_open(&mut self, id: u64)
        ensures
            final(self).entries() == old(self).entries().insert(
                id,
                AnimationKind::Open { progress: S::from_i32_spec(0) },
            ),
            final(self).stamp() == old(self).stamp(),
            old(self).wf() ==> final(self).wf(),
    {
        self.animations.insert(id, AnimationKind::Open { progress: S::from_i32(0) });
    }

    /// Start a geometry chase, or retarget the one that `id` has. A retarget keeps
    /// its current picture, so that an interruption stays continuous, unless
    /// `replace_visual` is set or the chase changes space: then `seed` takes its
    /// place. Only a start that carries a request restates what is waited for; any
    /// other is the same wait, moving, on the budget it began with.
    pub fn start_geometry(
        &mut self,
        id: u64,
        seed: Rect<S>,
        space: AnimSpace,
        requested_size: Option<Size<i32>>,
        committed_size: Size<i32>,
        role: GeometryRole,
        replace_visual: bool,
        content_policy: ContentPolicy,
    )
        requires
            carried_request_spec(requested_size, committed_size) is Some ==> old(self).stamp()
                < u64::MAX,
        ensures
            final(self).stamp() == old(self).stamp() + if carried_request_spec(
                requested_size,
                committed_size,
            ) is Some {
                1int
            } else {
                0int
            },
            final(self).entries() == old(self).entries().insert(
                id,
                AnimationKind::Geometry(
                    started(
                        old(self).chase(id),
                        seed,
                        space,
                        carried_request_spec(requested_size, committed_size),
                        committed_size,
                        role,
                        replace_visual,
                        content_policy,
                        final(self).stamp(),
                    ),
                ),
            ),
            old(self).wf() ==> final(self).wf(),
    {
        let request = carried_request(requested_size, committed_size);
        if request.is_some() {
            self.generation = self.generation + 1;
        }
        let prev: Option<Geometry<S>> = match self.animations.remove(&id) {
            Some(AnimationKind::Geometry(g)) => Some(g),
            _ => None,
        };
        let start_hold = match content_policy {
            ContentPolicy::Cap if request.is_some() => StartHold::Armed,
            _ => StartHold::Off,
        };
        let picture = role.picture();
        let chase = match prev {
            Some(mut g) => {
                if !g.start_hold.is_held() {
                    g.picture = picture;
                }
                if replace_visual || !g.space.same(&space) {
                    g.visual = seed;
                }
                g.from = g.visual;
                g.leg_target = g.visual;
                g.progress = S::from_i32(0);
                g.space = space;
                g.role = role;
                g.last_committed_size = committed_size;
                if request.is_some() {
                    g.requested_size = request;
                    g.buffer_stale = true;
                    g.content_policy = content_policy;
                    g.hold_deadline = None;
                    g.start_hold = start_hold;
                    g.generation = self.generation;
                }
                g
            },
            None => Geometry {
                visual: seed,
                from: seed,
                leg_target: seed,
                progress: S::from_i32(0),
                space,
                requested_size: request,
                buffer_stale: request.is_some(),
                content_policy,
                last_committed_size: committed_size,
                hold_deadline: None,
                start_hold,
                generation: self.generation,
                role,
                picture,
            },
        };
        self.animations.insert(id, AnimationKind::Geometry(chase));
        assert(final(self).entries() =~= old(self).entries().insert(
            id,
            AnimationKind::Geometry(chase),
        ));
    }

    /// Whether `id` is frozen before its resize leg.
    pub fn start_held(&self, id: u64) -> (r: bool)
        ensures
            r == (self.chase(id) matches Some(g) && g.start_hold.held()),
    {
        match self.animations.get(&id) {
            Some(AnimationKind::Geometry(g)) => g.start_hold.is_held(),
            _ => false,
        }
    }

    /// What `id` keeps on screen while it is frozen, where that is no longer what the
    /// stage says.
    pub fn frozen_picture(&self, id: u64) -> (r: Option<&Picture>)
        ensures
            match self.chase(id) {
                Some(g) if g.start_hold.held() => match g.picture {
                    Some(picture) => r == Some(&picture),
                    None => r is None,
                },
                _ => r is None,
            },
    {
        match self.animations.get(&id) {
            Some(AnimationKind::Geometry(g)) if g.start_hold.is_held() => match &g.picture {
                Some(picture) => Some(picture),
                None => None,
            },
            _ => None,
        }
    }

    /// The stamp of `id`'s latest request, for pairing captured content.
    pub fn generation_of(&self, id: u64) -> (r: Option<u64>)
        ensures
            r == match self.chase(id) {
                Some(g) => Some(g.generation),
                None => None,
            },
    {
        match self.animations.get(&id) {
            Some(AnimationKind::Geometry(g)) => Some(g.generation),
            _ => None,
        }
    }

    /// The stamp of the latest request, over all windows: the next request takes the
    /// one after it.
    pub fn latest_generation(&self) -> (r: u64)
        ensures
            r == self.stamp(),
    {
        self.generation
    }

    /// The rectangle that `id`'s geometry chase draws, in the chase's own space.
    pub fn geometry_visual_rect(&self, id: u64) -> (r: Option<Rect<S>>)
        ensures
            r == match self.chase(id) {
                Some(g) => Some(g.visual),
                None => None,
            },
    {
        match self.animations.get(&id) {
            Some(AnimationKind::Geometry(g)) => Some(g.visual),
            _ => None,
        }
    }

    /// Whether `id` is still playing its entry into fullscreen.
    pub fn fullscreen_entry_active(&self, id: u64) -> (r: bool)
        ensures
            r == (self.chase(id) matches Some(g) && g.role is FullscreenEntry),
    {
        match self.animations.get(&id) {
            Some(AnimationKind::Geometry(g)) => match g.role {
                GeometryRole::FullscreenEntry { .. } => true,
                _ => false,
            },
            _ => false,
        }
    }

    /// What a caller needs to place every entry on outputs. Each entry is listed
    /// once, in no particular order.
    pub fn scoping_entries(&self) -> (r: Vec<ScopingEntry<S>>)
        ensures
            r.len() == self.entries().len(),
            forall|k: int|
                0 <= k < r.len() ==> self.entries().contains_key((#[trigger] r[k]).0) && r[k].1
                    == match self.entries()[r[k].0] {
                    AnimationKind::Open { .. } => None,
                    AnimationKind::Geometry(g) => Some((g.space, g.visual)),
                },
            forall|j: int, k: int| 0 <= j < k < r.len() ==> (#[trigger] r[j]).0 != (#[trigger] r[k]).0,
            forall|id: u64| #[trigger]
                self.entries().contains_key(id) ==> exists|k: int|
                    0 <= k < r.len() && (#[trigger] r[k]).0 == id,
    {
        let mut listed: Vec<ScopingEntry<S>> = Vec::new();
        let ghost mut walked: Seq<(&u64, &AnimationKind<S>)> = Seq::empty();
        for entry in it: self.animations.iter()
            invariant
                listed.len() == it.index(),
                walked == it.seq().take(it.index() as int),
                it.index() == it.seq().len() ==> forall|k: u64| #[trigger]
                    self.animations@.contains_key(k) ==> walked.contains(
                        (&k, &self.animations@[k]),
                    ),
                it.seq().no_duplicates(),
                it.seq().len() == self.animations@.dom().len(),
                forall|k: int|
                    0 <= k < it.seq().len() ==> self.animations@.contains_key(
                        *(#[trigger] it.seq()[k]).0,
                    ) && self.animations@[*it.seq()[k].0] == *it.seq()[k].1,
                forall|k: u64| #[trigger]
                    self.animations@.contains_key(k) ==> it.seq().contains(
                        (&k, &self.animations@[k]),
                    ),
                forall|k: int|
                    0 <= k < listed.len() ==> (#[trigger] listed[k]).0 == *it.seq()[k].0
                        && listed[k].1 == match *it.seq()[k].1 {
                        AnimationKind::Open { .. } => None,
                        AnimationKind::Geometry(g) => Some((g.space, g.visual)),
                    },
        {
            let (id, kind) = entry;
            proof {
                walked = walked.push(entry);
                assert(walked =~= it.seq().take(it.index() + 1));
                assert(it.seq().take(it.seq().len() as int) =~= it.seq());
            }
            match kind {
                AnimationKind::Open { .. } => listed.push((*id, None)),
                AnimationKind::Geometry(g) => listed.push((*id, Some((g.space.clone(), g.visual)))),
            }
        }
        assert forall|id: u64| #[trigger] self.entries().contains_key(id) implies exists|k: int|
            0 <= k < listed.len() && (#[trigger] listed[k]).0 == id by {
            assert(walked.contains((&id, &self.animations@[id])));
            let k = walked.index_of((&id, &self.animations@[id]));
            assert(listed[k].0 == id);
        }
        listed
    }

    /// What is drawn for `id`, given the window's live rectangle and the scale an
    /// opening window starts from: the live rectangle itself when nothing animates.
    pub fn animated_visual(
        &self,
        id: u64,
        target_loc: Point<S>,
        target_size: Size<S>,
        open_scale: S,
    ) -> (r: AnimatedVisual<S>)
        ensures
            r == if self.entries().contains_key(id) {
                entry_visual(self.entries()[id], target_loc, target_size, open_scale)
            } else {
                AnimatedVisual {
                    loc: target_loc,
                    size: target_size,
                    alpha: S::from_i32_spec(1),
                    cap_content: false,
                }
            },
    {
        match self.animations.get(&id) {
            None => AnimatedVisual {
                loc: target_loc,
                size: target_size,
                alpha: S::from_i32(1),
                cap_content: false,
            },
            Some(AnimationKind::Open { progress }) => {
                let one = S::from_i32(1);
                let p = unit_clamp(*progress);
                let scale = lerp(open_scale, one, p);
                let size = target_size.scaled(scale);
                let left = one.minus(p);
                AnimatedVisual {
                    loc: target_loc.shifted(
                        Point {
                            x: half(target_size.w.minus(size.w)),
                            y: half(target_size.h.minus(size.h)),
                        },
                    ),
                    size,
                    alpha: one.minus(left.times(left)),
                    cap_content: false,
                }
            },
            Some(AnimationKind::Geometry(g)) => {
                let cap = match g.content_policy {
                    ContentPolicy::Cap => true,
                    ContentPolicy::Stretch => false,
                };
                AnimatedVisual {
                    loc: g.visual.loc,
                    size: g.visual.size,
                    alpha: S::from_i32(1),
                    cap_content: !g.start_hold.is_held() && g.buffer_stale && cap,
                }
            },
        }
    }

    /// Take note of a commit of `id`'s window: see [`Geometry::committed`].
    pub fn on_window_commit(&mut self, id: u64, committed_size: Size<i32>)
        ensures
            final(self).stamp() == old(self).stamp(),
            final(self).entries() == match old(self).chase(id) {
                Some(g) => old(self).entries().insert(
                    id,
                    AnimationKind::Geometry(g.committed(committed_size)),
                ),
                None => old(self).entries(),
            },
            old(self).wf() ==> final(self).wf(),
    {
        if let Some(kind) = self.animations.remove(&id) {
            let kind = match kind {
                AnimationKind::Geometry(mut g) => {
                    let changed = !committed_size.same(g.last_committed_size);
                    match g.requested_size {
                        None => {
                            if changed {
                                g.buffer_stale = false;
                            }
                        },
                        Some(request) => {
                            if committed_size.same(request) || changed {
                                g.requested_size = None;
                                g.buffer_stale = false;
                                g.start_hold = StartHold::Off;
                            }
                        },
                    }
                    g.last_committed_size = committed_size;
                    AnimationKind::Geometry(g)
                },
                open => open,
            };
            self.animations.insert(id, kind);
        }
        assert(final(self).entries() =~= match old(self).chase(id) {
            Some(g) => old(self).entries().insert(
                id,
                AnimationKind::Geometry(g.committed(committed_size)),
            ),
            None => old(self).entries(),
        });
    }

    /// Advance the entry of `id` by `frame_factor`, and say whether to keep it; see
    /// [`Geometry::ticked`] for a chase. `eligible` is false when the entry's
    /// rectangle meets no drawable output: such an entry completes at once.
    pub fn tick_entry(
        &mut self,
        id: u64,
        target_loc: Point<S>,
        live_size: Size<S>,
        frame_factor: S,
        now: Instant,
        eligible: bool,
    ) -> (keep: bool)
        requires
            now.nanos + MAX_ENDPOINT_HOLD <= u64::MAX,
        ensures
            final(self).stamp() == old(self).stamp(),
            !old(self).entries().contains_key(id) ==> !keep && final(self).entries() == old(
                self,
            ).entries(),
            old(self).entries().contains_key(id) ==> {
                let after = ticked(
                    old(self).entries()[id],
                    target_loc,
                    live_size,
                    frame_factor,
                    now,
                    eligible,
                );
                &&& final(self).entries() == old(self).entries().insert(id, after.0)
                &&& keep == after.1
            },
            old(self).wf() ==> final(self).wf(),
    {
        match self.animations.remove(&id) {
            None => {
                assert(final(self).entries() =~= old(self).entries());
                false
            },
            Some(kind) => {
                let (kind, keep) = match kind {
                    AnimationKind::Open { progress } => {
                        if eligible {
                            let progress = advance(progress, frame_factor);
                            (AnimationKind::Open { progress }, in_flight(progress))
                        } else {
                            (AnimationKind::Open { progress }, false)
                        }
                    },
                    AnimationKind::Geometry(mut g) => {
                        let keep = g.tick(target_loc, live_size, frame_factor, now, eligible);
                        (AnimationKind::Geometry(g), keep)
                    },
                };
                self.animations.insert(id, kind);
                assert(final(self).entries() =~= old(self).entries().insert(id, kind));
                keep
            },
        }
    }
}

impl<S: Scalar> Default for WindowAnimations<S> {
    fn default() -> (r: Self)
        ensures
            r.entries() == Map::<u64, AnimationKind<S>>::empty(),
            r.stamp() == 0,
            r.wf(),
    {
        WindowAnimations::new()
    }
}

} // verus!
