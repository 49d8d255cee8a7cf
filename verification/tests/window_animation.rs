//! The render-only animations of live windows, driven the way a compositor drives
//! them: one tick per frame with the window's live position and size, a clock that the
//! scenario sets, and an entry dropped when its tick says so.

use std::collections::{HashMap, HashSet};

use drift::geometry::{Point, Rect, Size};
use drift::scalar::Scalar;
use drift::state::{
    DecorationConfig, DecorationMode, DriftWm, Momentum, Output, OutputState, PinnedSite, Stage,
    StageEntry,
};
use drift::time::Instant;
use drift::window_animation::{
    carried_request, content_scale, resize_request, AnimSpace, AnimatedVisual, ContentPolicy, GeometryRole, Picture,
    StartHold, WindowAnimations, MAX_ENDPOINT_HOLD, MAX_START_HOLD,
};

#[derive(Clone, Copy, Debug, PartialEq, PartialOrd)]
struct F(f64);

impl Scalar for F {
    fn plus(self, rhs: Self) -> Self {
        F(self.0 + rhs.0)
    }
    fn minus(self, rhs: Self) -> Self {
        F(self.0 - rhs.0)
    }
    fn times(self, rhs: Self) -> Self {
        F(self.0 * rhs.0)
    }
    fn over(self, rhs: Self) -> Self {
        F(self.0 / rhs.0)
    }
    fn abs(self) -> Self {
        F(self.0.abs())
    }
    fn max(self, rhs: Self) -> Self {
        F(self.0.max(rhs.0))
    }
    fn min(self, rhs: Self) -> Self {
        F(self.0.min(rhs.0))
    }
    fn lt(self, rhs: Self) -> bool {
        self.0 < rhs.0
    }
    fn le(self, rhs: Self) -> bool {
        self.0 <= rhs.0
    }
    fn from_i32(v: i32) -> Self {
        F(v as f64)
    }
    fn trunc(self) -> i32 {
        self.0 as i32
    }
    fn round(self) -> i32 {
        self.0.round() as i32
    }
    fn ceil(self) -> i32 {
        self.0.ceil() as i32
    }
}

const MILLI: u64 = 1_000_000;
const TICK: u64 = 16 * MILLI;
const MAX_TICKS: usize = 600;
/// Comfortably past either hold's budget.
const PAST_HOLD: u64 = 600 * MILLI;
/// How much of what is left one frame covers.
const FACTOR: F = F(0.2);
const OPEN_SCALE: F = F(0.5);
/// What a fit asks for on a 1920x1080 output, and where it puts the window.
const FIT: Size<i32> = Size { w: 1896, h: 1056 };
const FIT_POS: Point<i32> = Point { x: 12, y: 12 };

const WINDOW: u64 = 7;

fn at(nanos: u64) -> Instant {
    Instant { nanos }
}

fn pt(x: f64, y: f64) -> Point<F> {
    Point { x: F(x), y: F(y) }
}

fn px(x: i32, y: i32) -> Point<i32> {
    Point { x, y }
}

fn size(w: f64, h: f64) -> Size<F> {
    Size { w: F(w), h: F(h) }
}

fn dist(a: Point<F>, b: Point<F>) -> f64 {
    let dx = a.x.0 - b.x.0;
    let dy = a.y.0 - b.y.0;
    (dx * dx + dy * dy).sqrt()
}

/// One window, where it is on the stage, the size its client last committed, and the
/// animations in flight.
struct Scene {
    animations: WindowAnimations<F>,
    pos: Point<i32>,
    committed: Size<i32>,
    clock: u64,
}

impl Scene {
    /// A window that has just mapped, its opening still in flight.
    fn mapped(w: i32, h: i32) -> Scene {
        let mut scene = Scene {
            animations: WindowAnimations::new(),
            pos: px(400, 300),
            committed: Size { w, h },
            clock: 1_000 * MILLI,
        };
        scene.animations.start_open(WINDOW);
        scene
    }

    /// A window at rest.
    fn at_rest(w: i32, h: i32, x: i32, y: i32) -> Scene {
        let mut scene = Scene::mapped(w, h);
        scene.pos = px(x, y);
        scene.tick_until_settled();
        scene
    }

    fn live(&self) -> Rect<F> {
        Rect {
            loc: self.pos.scalar(),
            size: self.committed.scalar(),
        }
    }

    fn tick_with(&mut self, now: u64, eligible: bool) -> bool {
        let live = self.live();
        let keep =
            self.animations
                .tick_entry(WINDOW, live.loc, live.size, FACTOR, at(now), eligible);
        if !keep {
            self.animations.remove(WINDOW);
        }
        keep
    }

    fn tick_at(&mut self, now: u64) -> bool {
        self.tick_with(now, true)
    }

    fn tick(&mut self) -> bool {
        self.clock += TICK;
        self.tick_at(self.clock)
    }

    fn ticks_to_settle(&mut self) -> usize {
        for n in 0..MAX_TICKS {
            if !self.animations.is_active() {
                return n;
            }
            self.tick();
        }
        panic!("window animations did not converge");
    }

    fn tick_until_settled(&mut self) {
        self.ticks_to_settle();
    }

    fn start(
        &mut self,
        seed: Rect<F>,
        space: AnimSpace,
        request: Option<Size<i32>>,
        role: GeometryRole,
        replace: bool,
        policy: ContentPolicy,
    ) {
        self.animations.start_geometry(
            WINDOW,
            seed,
            space,
            request,
            self.committed,
            role,
            replace,
            policy,
        );
    }

    /// Ask the client for another size.
    fn animate_window_geometry(&mut self, w: i32, h: i32) {
        let seed = self.live();
        self.start(
            seed,
            AnimSpace::Canvas,
            resize_request(Size { w, h }, self.committed),
            GeometryRole::Normal,
            false,
            ContentPolicy::Cap,
        );
    }

    /// Fit the window to the output.
    fn fit(&mut self) {
        self.animate_window_geometry(FIT.w, FIT.h);
        self.pos = FIT_POS;
    }

    /// Move the window, animating from where it was.
    fn move_to(&mut self, x: i32, y: i32) {
        let from = self.live();
        self.pos = px(x, y);
        self.start(
            from,
            AnimSpace::Canvas,
            None,
            GeometryRole::Normal,
            false,
            ContentPolicy::Cap,
        );
    }

    fn commit(&mut self, w: i32, h: i32) {
        self.committed = Size { w, h };
        self.animations.on_window_commit(WINDOW, self.committed);
    }

    fn rect(&self) -> Rect<F> {
        self.animations
            .geometry_visual_rect(WINDOW)
            .expect("a geometry chase is in flight")
    }

    fn held(&self) -> bool {
        self.animations.start_held(WINDOW)
    }

    fn drawn(&self) -> AnimatedVisual<F> {
        let live = self.live();
        self.animations
            .animated_visual(WINDOW, live.loc, live.size, OPEN_SCALE)
    }

    fn drawn_scale(&self) -> (f64, f64) {
        let v = self.drawn();
        let (sx, sy) = content_scale(v.size, self.committed.scalar(), v.cap_content);
        (sx.0, sy.0)
    }

    /// Freeze on a fit that is never answered, let the freeze run out, and run the leg
    /// to its endpoint. Returns the time that stands still from then on.
    fn park_an_unanswered_fit(&mut self, base: u64) -> u64 {
        self.fit();
        self.tick_at(base);
        let after_start = base + PAST_HOLD;
        for _ in 0..MAX_TICKS {
            self.tick_at(after_start);
            if !self.held() {
                break;
            }
        }
        for _ in 0..60 {
            self.tick_at(after_start);
        }
        after_start
    }

    /// Adopt a stand-in of 600x400 at (500, 500), with a client that maps at 300x200.
    fn adopted() -> Scene {
        let mut scene = Scene::mapped(300, 200);
        scene.animations.remove(WINDOW);
        scene.pos = px(500, 500);
        let slot = Rect {
            loc: pt(500.0, 500.0),
            size: size(600.0, 400.0),
        };
        scene.start(
            slot,
            AnimSpace::Canvas,
            Some(Size { w: 600, h: 400 }),
            GeometryRole::Normal,
            false,
            ContentPolicy::Stretch,
        );
        scene
    }
}

#[test]
fn stale_content_is_never_magnified() {
    let (sx, sy) = content_scale(size(1896.0, 1056.0), size(400.0, 300.0), true);
    assert_eq!((sx, sy), (F(1.0), F(1.0)));
}

#[test]
fn stale_content_still_minifies() {
    let (sx, _) = content_scale(size(200.0, 150.0), size(400.0, 300.0), true);
    assert_eq!(sx, F(0.5));
}

#[test]
fn fresh_content_scales_freely() {
    let (sx, sy) = content_scale(size(800.0, 600.0), size(400.0, 300.0), false);
    assert_eq!((sx, sy), (F(2.0), F(2.0)));
}

/// An empty buffer counts as one pixel, so nothing divides by zero.
#[test]
fn an_empty_buffer_scales_as_one_pixel() {
    let (sx, sy) = content_scale(size(8.0, 6.0), size(0.0, 0.0), false);
    assert_eq!((sx, sy), (F(8.0), F(6.0)));
}

/// The scale times the committed extent is the drawn one, and the cap is per axis.
#[test]
fn content_fills_what_is_drawn() {
    let (sx, sy) = content_scale(size(700.0, 100.0), size(300.0, 300.0), false);
    assert!((sx.0 * 300.0 - 700.0).abs() < 1e-9 && (sy.0 * 300.0 - 100.0).abs() < 1e-9);
    let capped = content_scale(size(700.0, 100.0), size(300.0, 300.0), true);
    assert_eq!(capped, (F(1.0), sy));
}

#[test]
fn open_entry_appears_on_first_sized_commit() {
    let mut scene = Scene::mapped(400, 300);
    assert_eq!(scene.animations.len(), 1);
    assert!(scene.animations.geometry_visual_rect(WINDOW).is_none());

    let v = scene.drawn();
    assert_eq!(v.alpha, F(0.0), "the open fade starts fully transparent");
    assert!(v.size.w.0 < 400.0 && v.size.h.0 < 300.0);

    scene.tick_until_settled();
    assert_eq!(scene.animations.len(), 0);
}

/// Half way through, the window is three quarters opaque and centered on where it is
/// going.
#[test]
fn an_opening_window_eases_in_about_its_center() {
    let mut scene = Scene::mapped(400, 300);
    let live = scene.live();
    let keep = scene
        .animations
        .tick_entry(WINDOW, live.loc, live.size, F(0.5), at(0), true);
    assert!(keep);
    let v = scene.drawn();
    assert_eq!(v.alpha, F(0.75));
    assert_eq!(v.size, size(300.0, 225.0));
    assert_eq!(v.loc, pt(450.0, 337.5));
    assert!(!v.cap_content);
}

/// A window that takes over a slot is held in it, and drawn opaque from its first frame.
#[test]
fn a_slot_hold_is_drawn_opaque() {
    let scene = Scene::adopted();
    assert!(scene.animations.geometry_visual_rect(WINDOW).is_some());
    assert_eq!(scene.drawn().alpha, F(1.0));
}

#[test]
fn a_second_action_mid_flight_keeps_the_visual_path_continuous() {
    let mut scene = Scene::at_rest(400, 300, 400, 300);
    scene.move_to(900, 300);

    fn continuous_tick(scene: &mut Scene) {
        let target = scene.live().loc;
        let before = scene.rect().loc;
        let remaining = dist(before, target);
        scene.tick();
        let after = scene
            .animations
            .geometry_visual_rect(WINDOW)
            .map(|r| r.loc)
            .unwrap_or(target);
        assert!(dist(after, before) <= remaining + 1e-6);
    }

    for _ in 0..4 {
        continuous_tick(&mut scene);
    }
    scene.move_to(200, 700);
    for _ in 0..MAX_TICKS {
        if !scene.animations.is_active() {
            return;
        }
        continuous_tick(&mut scene);
    }
    panic!("the interrupted animation never converged");
}

#[test]
fn mid_flight_map_window_retargets_without_snapping() {
    let mut scene = Scene::at_rest(400, 300, 400, 300);
    scene.move_to(900, 300);
    for _ in 0..3 {
        scene.tick();
    }
    let before = scene.rect().loc;
    assert!(before.x.0 > 400.0 && before.x.0 < 900.0);

    scene.pos = px(100, 300);
    scene.tick();
    let after = scene.rect().loc;
    assert!(after.x.0 < before.x.0);
    assert!(after.x.0 > 101.0);
    scene.tick_until_settled();
}

/// A target that drifts by no more than half a pixel does not restart the leg; one that
/// drifts further does.
#[test]
fn a_small_drift_of_the_target_keeps_the_leg() {
    for (drift, moved) in [(0.5, false), (0.75, true)] {
        let mut animations: WindowAnimations<F> = WindowAnimations::new();
        let seed = Rect {
            loc: pt(0.0, 0.0),
            size: size(100.0, 100.0),
        };
        animations.start_geometry(
            1,
            seed,
            AnimSpace::Canvas,
            None,
            Size { w: 100, h: 100 },
            GeometryRole::Normal,
            false,
            ContentPolicy::Cap,
        );
        let live = size(100.0, 100.0);
        animations.tick_entry(1, pt(64.0, 0.0), live, F(0.5), at(0), true);
        assert_eq!(
            animations.geometry_visual_rect(1).unwrap().loc,
            pt(32.0, 0.0)
        );
        animations.tick_entry(1, pt(64.0 + drift, 0.0), live, F(0.5), at(0), true);
        let x = animations.geometry_visual_rect(1).unwrap().loc.x;
        if moved {
            assert_eq!(x, F(32.0 + (32.0 + drift) * 0.5));
        } else {
            assert_eq!(x, F((64.0 + drift) * 0.75));
        }
    }
}

#[test]
fn geometry_settles_in_the_same_time_regardless_of_distance() {
    let mut scene = Scene::at_rest(400, 300, 100, 300);
    scene.animations.start_open(WINDOW);
    let open_ticks = scene.ticks_to_settle();
    assert!(open_ticks > 2);

    let mut move_ticks = Vec::new();
    for (from, to) in [((100, 300), (120, 300)), ((100, 300), (1300, 300))] {
        scene.pos = px(from.0, from.1);
        scene.tick_until_settled();
        scene.move_to(to.0, to.1);
        assert!(scene.animations.is_active());
        move_ticks.push(scene.ticks_to_settle());
    }
    assert_eq!(move_ticks[0], move_ticks[1]);
    assert!(move_ticks[0].abs_diff(open_ticks) <= 2);
}

#[test]
fn size_request_equal_to_committed_never_holds() {
    let mut scene = Scene::at_rest(400, 300, 400, 300);
    scene.animate_window_geometry(400, 300);
    scene.pos = px(700, 300);
    assert!(scene.animations.geometry_visual_rect(WINDOW).is_some());
    scene.tick_until_settled();
    assert_eq!(scene.animations.len(), 0);
}

#[test]
fn an_unacked_request_is_bounded_by_both_deadlines() {
    let mut scene = Scene::at_rest(400, 300, 400, 300);
    let seed = scene.live().loc;
    scene.animate_window_geometry(700, 600);
    scene.pos = px(700, 300);

    let base = scene.clock;
    for _ in 0..60 {
        scene.tick_at(base);
    }
    assert!(scene.held(), "still frozen");
    assert!(scene.animations.is_active());
    assert!(dist(scene.rect().loc, seed) <= 0.5);

    let after_start = base + PAST_HOLD;
    for _ in 0..MAX_TICKS {
        scene.tick_at(after_start);
        if !scene.held() {
            break;
        }
    }
    assert!(!scene.held(), "the start budget expired");
    for _ in 0..60 {
        scene.tick_at(after_start);
    }
    assert!((scene.rect().size.w.0 - 700.0).abs() <= 0.5);

    let after_endpoint = after_start + PAST_HOLD;
    for _ in 0..MAX_TICKS {
        if !scene.animations.is_active() {
            break;
        }
        scene.tick_at(after_endpoint);
    }
    assert_eq!(scene.animations.len(), 0);
}

#[test]
fn a_commit_resolves_the_outstanding_request() {
    let mut scene = Scene::at_rest(800, 600, 400, 300);
    scene.animate_window_geometry(900, 700);
    let base = scene.clock;
    for _ in 0..60 {
        scene.tick_at(base);
    }
    assert!(scene.animations.is_active());
    scene.commit(900, 700);
    assert!(!scene.held());
    scene.tick_until_settled();
    assert_eq!(scene.animations.len(), 0);
}

#[test]
fn a_client_chosen_size_also_resolves_the_request() {
    let mut scene = Scene::at_rest(800, 600, 400, 300);
    scene.animate_window_geometry(1000, 800);
    let base = scene.clock;
    for _ in 0..60 {
        scene.tick_at(base);
    }
    assert!(scene.animations.is_active());
    scene.commit(850, 650);
    assert!(!scene.held());
    scene.tick_until_settled();
    assert_eq!(scene.animations.len(), 0);
}

/// A redraw at the size the client already had answers nothing.
#[test]
fn a_redraw_at_the_same_size_resolves_nothing() {
    let mut scene = Scene::at_rest(400, 300, 600, 400);
    scene.fit();
    let base = scene.clock;
    scene.tick_at(base);
    scene.commit(400, 300);
    assert!(scene.held());
    scene.tick_at(base + PAST_HOLD);
    assert!(!scene.held());
    assert!(scene.drawn().cap_content);
    scene.commit(400, 300);
    assert!(scene.drawn().cap_content, "still the same stale buffer");
}

#[test]
fn pinned_entry_chases_in_screen_space_and_survives_a_pan() {
    let name = "HDMI-1".to_string();
    let extent = Size { w: 1920, h: 1080 };
    let site = PinnedSite {
        output: name.clone(),
        screen_pos: px(1496, 24),
    };
    let mut wm: DriftWm<F> = DriftWm {
        outputs: vec![Output {
            name: name.clone(),
            size: extent,
            usable: Rect {
                loc: px(0, 0),
                size: extent,
            },
            state: OutputState {
                camera: pt(0.0, 0.0),
                zoom: F(1.0),
                zoom_target: None,
                zoom_animation_anchor: None,
                overview_return: None,
                camera_target: None,
                edge_pan_velocity: None,
                last_scroll_pan: None,
                panning: false,
                last_frame_instant: at(0),
                momentum: Momentum { velocity: None },
                fullscreen_return: None,
            },
        }],
        focused_output: Some(0),
        stage: Stage {
            windows: vec![StageEntry {
                id: WINDOW,
                position: site.screen_pos,
                // The client has acked the fullscreen size and not yet its own.
                size: extent,
                pin: Some(site),
                fit: false,
                fill: false,
            }],
            fullscreen: Vec::new(),
            activated: None,
        },
        pending_recenter: HashMap::new(),
        decorations: HashSet::new(),
        rules: HashMap::new(),
        resize_states: HashMap::new(),
        decoration_config: DecorationConfig {
            title_bar_height: 25,
            border_width: 2,
            default_mode: DecorationMode::Client,
        },
        window_animations: WindowAnimations::new(),
    };
    fn tick(wm: &mut DriftWm<F>, now: u64) {
        let entry = &wm.stage.windows[0];
        let target: Point<F> = entry.pin.as_ref().unwrap().screen_pos.scalar();
        let live: Size<F> = entry.size.scalar();
        assert!(wm
            .window_animations
            .tick_entry(WINDOW, target, live, FACTOR, at(now), true));
    }

    // The exit from fullscreen re-pins the window and animates on its screen.
    wm.window_animations.start_geometry(
        WINDOW,
        Rect {
            loc: pt(0.0, 0.0),
            size: size(1920.0, 1080.0),
        },
        AnimSpace::Screen(name.clone()),
        Some(Size { w: 400, h: 300 }),
        extent,
        GeometryRole::FullscreenExit {
            output: name.clone(),
        },
        true,
        ContentPolicy::Cap,
    );
    assert!(wm.window_animations.is_active());
    // Run out the freeze and fly to the site, then hold there.
    tick(&mut wm, 0);
    for _ in 0..60 {
        tick(&mut wm, PAST_HOLD);
    }
    let before = wm.window_animations.geometry_visual_rect(WINDOW).unwrap();
    assert_eq!(before.loc, pt(1496.0, 24.0));

    wm.set_camera(pt(6000.0, 6000.0));
    wm.sync_pinned_locs();
    assert_eq!(
        wm.stage.windows[0].position,
        px(7496, 6024),
        "the pan moved the window's place on the canvas"
    );
    tick(&mut wm, PAST_HOLD);
    let after = wm.window_animations.geometry_visual_rect(WINDOW).unwrap();
    assert!(dist(after.loc, before.loc) <= 0.5);
    assert_eq!(
        wm.window_animations.scoping_entries(),
        vec![(WINDOW, Some((AnimSpace::Screen(name), after)))]
    );
}

#[test]
fn position_only_nudge_prunes_on_convergence() {
    let mut scene = Scene::at_rest(400, 300, 400, 300);
    scene.move_to(440, 300);
    assert!(scene.animations.geometry_visual_rect(WINDOW).is_some());
    scene.tick_until_settled();
    assert_eq!(scene.animations.len(), 0);
}

#[test]
fn output_is_visually_fullscreen_only_after_the_entry_finishes() {
    let mut scene = Scene::mapped(800, 600);
    let seed = scene.live();
    scene.pos = px(0, 0);
    scene.start(
        seed,
        AnimSpace::Canvas,
        Some(Size { w: 1920, h: 1080 }),
        GeometryRole::FullscreenEntry { was_pinned: false },
        true,
        ContentPolicy::Cap,
    );
    assert!(scene.animations.fullscreen_entry_active(WINDOW));
    scene.commit(1920, 1080);
    scene.tick_until_settled();
    assert!(!scene.animations.fullscreen_entry_active(WINDOW));
}

/// A window fullscreen on HDMI-1 that has just left, its client still at the output's size.
fn frozen_exit() -> Scene {
    let mut scene = Scene::at_rest(1920, 1080, 0, 0);
    let seed = scene.live();
    scene.pos = px(560, 240);
    scene.start(
        seed,
        AnimSpace::Canvas,
        Some(Size { w: 800, h: 600 }),
        GeometryRole::FullscreenExit {
            output: "HDMI-1".to_string(),
        },
        true,
        ContentPolicy::Cap,
    );
    scene
}

/// A window on its way into fullscreen, its client still at its windowed size.
fn frozen_entry_of(w: i32, h: i32, was_pinned: bool) -> Scene {
    let mut scene = Scene::at_rest(w, h, 600, 400);
    let seed = scene.live();
    scene.pos = px(0, 0);
    scene.start(
        seed,
        AnimSpace::Canvas,
        Some(Size { w: 1920, h: 1080 }),
        GeometryRole::FullscreenEntry { was_pinned },
        true,
        ContentPolicy::Cap,
    );
    scene
}

fn covering() -> Picture {
    Picture::Fullscreen {
        output: "HDMI-1".to_string(),
    }
}

#[test]
fn a_frozen_fullscreen_exit_still_covers_its_output() {
    let mut scene = frozen_exit();
    assert!(scene.held());
    assert_eq!(scene.animations.frozen_picture(WINDOW), Some(&covering()));
    scene.commit(800, 600);
    assert_eq!(scene.animations.frozen_picture(WINDOW), None);
    scene.tick_until_settled();
}

#[test]
fn a_frozen_fullscreen_enter_keeps_its_pinned_bucket() {
    let mut scene = frozen_entry_of(400, 300, true);
    assert!(scene.held());
    assert_eq!(
        scene.animations.frozen_picture(WINDOW),
        Some(&Picture::Windowed { pinned: true })
    );
    scene.commit(1920, 1080);
    assert_eq!(scene.animations.frozen_picture(WINDOW), None);
}

/// Whether what a freeze keeps on screen is the windowed picture, which wears its chrome.
fn wears_chrome(scene: &Scene) -> bool {
    assert!(scene.held());
    match scene.animations.frozen_picture(WINDOW) {
        Some(Picture::Windowed { pinned }) => {
            assert!(!pinned);
            true
        }
        Some(picture) => {
            assert_eq!(picture, &covering());
            false
        }
        None => panic!("a frozen fullscreen change keeps a picture"),
    }
}

/// The client redraws: the picture is let go where it is drawn, and is on its way after
/// one tick, until it settles.
fn redraw_and_settle(scene: &mut Scene, w: i32, h: i32) {
    let frozen = scene.rect();
    scene.commit(w, h);
    assert!(!scene.held());
    assert_eq!(scene.animations.frozen_picture(WINDOW), None);
    assert_eq!(scene.rect(), frozen, "the leg has not travelled yet");
    scene.tick();
    let mid = scene.rect().size.w.0;
    let (from, to) = (frozen.size.w.0, f64::from(w));
    assert!(from.min(to) < mid && mid < from.max(to));
    scene.tick_until_settled();
    assert_eq!(scene.drawn().size, size(f64::from(w), f64::from(h)));
}

#[test]
fn a_frozen_fullscreen_enter_keeps_its_windowed_chrome() {
    let mut scene = frozen_entry_of(800, 600, false);
    assert!(wears_chrome(&scene));
    redraw_and_settle(&mut scene, 1920, 1080);
}

#[test]
fn a_frozen_fullscreen_exit_keeps_its_fullscreen_chrome() {
    let mut scene = frozen_exit();
    assert!(!wears_chrome(&scene));
    // A nudge moves the freeze, and not what it shows.
    scene.move_to(600, 240);
    assert!(!wears_chrome(&scene));
    redraw_and_settle(&mut scene, 800, 600);
}

#[test]
fn a_fit_during_a_fullscreen_exit_freeze_keeps_the_frozen_chrome() {
    let mut scene = frozen_exit();
    let generation = scene.animations.generation_of(WINDOW);
    assert!(!wears_chrome(&scene));
    // A new request, on the old picture.
    scene.fit();
    assert!(scene.animations.generation_of(WINDOW) > generation);
    assert!(!wears_chrome(&scene));
    redraw_and_settle(&mut scene, FIT.w, FIT.h);
}

#[test]
fn a_fullscreen_exit_during_the_enter_freeze_keeps_the_windowed_chrome() {
    // Filled, so that the exit restores a size that the client does not have.
    let mut scene = frozen_entry_of(FIT.w, FIT.h, false);
    let generation = scene.animations.generation_of(WINDOW);
    assert!(wears_chrome(&scene));
    let seed = scene.live();
    scene.pos = px(600, 400);
    scene.start(
        seed,
        AnimSpace::Canvas,
        Some(Size { w: 400, h: 300 }),
        GeometryRole::FullscreenExit {
            output: "HDMI-1".to_string(),
        },
        true,
        ContentPolicy::Cap,
    );
    assert!(scene.animations.generation_of(WINDOW) > generation);
    assert!(wears_chrome(&scene));
    redraw_and_settle(&mut scene, 400, 300);
}

/// A freeze that runs out lets its picture go, and a windowed resize has none to keep.
#[test]
fn only_a_frozen_fullscreen_change_keeps_a_picture() {
    let mut scene = frozen_exit();
    scene.tick_at(scene.clock);
    scene.tick_at(scene.clock + PAST_HOLD);
    assert_eq!(scene.animations.frozen_picture(WINDOW), None);
    let mut scene = Scene::at_rest(400, 300, 600, 400);
    assert_eq!(scene.animations.frozen_picture(WINDOW), None);
    scene.fit();
    assert!(scene.held());
    assert_eq!(scene.animations.frozen_picture(WINDOW), None);
}

#[test]
fn exit_from_mid_entry_continues_from_the_current_visual() {
    // Entered at zoom 2 from canvas (100, 100), camera at the origin: on the locked
    // screen the window starts at (200, 200), twice its size.
    let mut scene = Scene::mapped(800, 600);
    let locked_camera = pt(0.0, 0.0);
    let seed = Rect {
        loc: pt(200.0, 200.0),
        size: size(1600.0, 1200.0),
    };
    scene.pos = px(0, 0);
    scene.start(
        seed,
        AnimSpace::Canvas,
        Some(Size { w: 1920, h: 1080 }),
        GeometryRole::FullscreenEntry { was_pinned: false },
        true,
        ContentPolicy::Cap,
    );
    scene.commit(1920, 1080);
    scene.tick();
    scene.tick();
    let mid = scene.rect();
    assert!(mid.size.w.0 > seed.size.w.0 + 1.0 && mid.size.w.0 < 1919.0);
    assert!(scene.animations.fullscreen_entry_active(WINDOW));
    let mid_screen = pt(
        mid.loc.x.0 - locked_camera.x.0,
        mid.loc.y.0 - locked_camera.y.0,
    );

    // The exit converts the picture to the restored viewport: camera at the origin,
    // zoom 2.
    let converted = Rect {
        loc: pt(mid.loc.x.0 / 2.0, mid.loc.y.0 / 2.0),
        size: size(mid.size.w.0 / 2.0, mid.size.h.0 / 2.0),
    };
    scene.pos = px(100, 100);
    scene.start(
        converted,
        AnimSpace::Canvas,
        Some(Size { w: 800, h: 600 }),
        GeometryRole::FullscreenExit {
            output: "HDMI-1".to_string(),
        },
        true,
        ContentPolicy::Cap,
    );
    assert!(!scene.animations.fullscreen_entry_active(WINDOW));
    let after = scene.rect();
    let after_screen = pt(after.loc.x.0 * 2.0, after.loc.y.0 * 2.0);
    assert!(dist(after_screen, mid_screen) <= 1.5);
}

/// A change of space takes the seed even where the picture is not to be replaced, and
/// so does a change of output; the same space keeps the picture.
#[test]
fn a_change_of_space_takes_the_seed() {
    let mut scene = Scene::at_rest(400, 300, 400, 300);
    let first = Rect {
        loc: pt(10.0, 20.0),
        size: size(400.0, 300.0),
    };
    let second = Rect {
        loc: pt(70.0, 80.0),
        size: size(400.0, 300.0),
    };
    let spaces = [
        (AnimSpace::Canvas, AnimSpace::Canvas, first),
        (
            AnimSpace::Canvas,
            AnimSpace::Screen("A".to_string()),
            second,
        ),
        (
            AnimSpace::Screen("A".to_string()),
            AnimSpace::Screen("A".to_string()),
            first,
        ),
        (
            AnimSpace::Screen("A".to_string()),
            AnimSpace::Screen("B".to_string()),
            second,
        ),
    ];
    for (before, after, expected) in spaces {
        scene.animations.remove(WINDOW);
        scene.start(
            first,
            before,
            None,
            GeometryRole::Normal,
            false,
            ContentPolicy::Cap,
        );
        scene.start(
            second,
            after,
            None,
            GeometryRole::Normal,
            false,
            ContentPolicy::Cap,
        );
        assert_eq!(scene.rect(), expected);
    }
}

#[test]
fn a_removed_entry_is_gone() {
    let mut scene = Scene::mapped(400, 300);
    assert_eq!(scene.animations.len(), 1);
    scene.animations.remove(WINDOW);
    assert_eq!(scene.animations.len(), 0);
    assert!(!scene.animations.is_active());
}

/// A hold that starts over an opening takes its place: one window, one entry.
#[test]
fn a_slot_hold_is_the_only_entry() {
    let mut scene = Scene::mapped(300, 200);
    let slot = Rect {
        loc: pt(500.0, 500.0),
        size: size(600.0, 400.0),
    };
    scene.start(
        slot,
        AnimSpace::Canvas,
        Some(Size { w: 600, h: 400 }),
        GeometryRole::Normal,
        false,
        ContentPolicy::Stretch,
    );
    assert_eq!(scene.animations.len(), 1);
    assert_eq!(scene.rect(), slot);
}

#[test]
fn crash_path_dead_id_sweep_drains_the_map() {
    let mut scene = Scene::mapped(400, 300);
    scene.animations.start_open(8);
    assert_eq!(scene.animations.len(), 2);
    scene.animations.retain_ids(|id| id == 8);
    assert_eq!(scene.animations.len(), 1);
    assert_eq!(scene.animations.scoping_entries(), vec![(8, None)]);
    scene.animations.retain_ids(|_| false);
    assert_eq!(scene.animations.len(), 0);
}

#[test]
fn per_output_predicate_scopes_to_the_intersecting_output() {
    let scene = Scene::mapped(400, 300);
    assert!(scene.animations.is_active());
    let entries = scene.animations.scoping_entries();
    assert_eq!(entries, vec![(WINDOW, None)]);
    // An open entry sits at the live rectangle.
    let rect = scene.live().rounded();
    let out1 = Rect {
        loc: px(0, 0),
        size: Size { w: 1920, h: 1080 },
    };
    let out2 = Rect {
        loc: px(10_000, 0),
        size: Size { w: 1280, h: 720 },
    };
    assert!(out1.overlaps(rect));
    assert!(!out2.overlaps(rect));
}

#[test]
fn off_screen_animations_complete_instantly() {
    let mut scene = Scene::at_rest(400, 300, 400, 300);
    scene.animations.start_open(WINDOW);
    assert!(!scene.tick_with(scene.clock, false));
    assert_eq!(scene.animations.len(), 0);

    scene.move_to(440, 300);
    assert!(scene.animations.is_active());
    assert!(!scene.tick_with(scene.clock, false));
    assert_eq!(scene.animations.len(), 0);
    // An id with no entry has nothing to keep.
    assert!(!scene.tick_at(scene.clock));
}

#[test]
fn unfill_animates_straight_to_the_restored_rect() {
    let mut scene = Scene::at_rest(1896, 1056, 12, 12);
    let fill_pos = scene.live().loc;
    scene.animate_window_geometry(400, 300);
    scene.pos = px(600, 400);
    assert!(dist(scene.rect().loc, fill_pos) <= 0.5);
    for _ in 0..4 {
        scene.tick();
        let v = scene.rect();
        let at_target_corner = dist(v.loc, pt(600.0, 400.0)) <= 0.5;
        let still_filled = (v.size.w.0 - 1896.0).abs() <= 0.5;
        assert!(!(at_target_corner && still_filled));
    }
}

#[test]
fn adoption_holds_the_adopted_rect_until_the_client_catches_up() {
    let mut scene = Scene::adopted();
    let visual = scene.rect();
    assert!(dist(visual.loc, pt(500.0, 500.0)) <= 0.5);
    assert!((visual.size.w.0 - 600.0).abs() <= 0.5 && (visual.size.h.0 - 400.0).abs() <= 0.5);

    let base = scene.clock;
    for _ in 0..30 {
        scene.tick_at(base);
    }
    assert!((scene.rect().size.w.0 - 600.0).abs() <= 0.5);

    let (sx, sy) = scene.drawn_scale();
    assert!((sx - 600.0 / 300.0).abs() < 1e-6 && (sy - 400.0 / 200.0).abs() < 1e-6);
}

#[test]
fn a_growing_resize_freezes_rather_than_magnifying() {
    let mut scene = Scene::at_rest(400, 300, 600, 400);
    scene.fit();
    let base = scene.clock;
    for _ in 0..30 {
        scene.tick_at(base);
    }
    let v = scene.drawn();
    assert!(scene.held());
    assert!((v.size.w.0 - 400.0).abs() <= 0.5);
    assert!(!v.cap_content);

    let past = base + PAST_HOLD;
    for _ in 0..12 {
        scene.tick_at(past);
        let (sx, sy) = scene.drawn_scale();
        assert!(sx <= 1.0 && sy <= 1.0);
    }
    assert!(scene.drawn().cap_content);
}

#[test]
fn the_hold_deadline_release_stays_capped() {
    let mut scene = Scene::at_rest(400, 300, 600, 400);
    let after_start = scene.park_an_unanswered_fit(scene.clock);
    let endpoint = scene.rect();

    let after_endpoint = after_start + PAST_HOLD;
    let mut released = false;
    for _ in 0..MAX_TICKS {
        if !scene.animations.is_active() {
            break;
        }
        scene.tick_at(after_endpoint);
        let (sx, sy) = scene.drawn_scale();
        assert!(sx <= 1.0 && sy <= 1.0);
        released |= scene.drawn().size.w.0 < endpoint.size.w.0 - 1.0;
    }
    assert!(released);
    assert_eq!(scene.animations.len(), 0);
}

#[test]
fn a_position_only_retarget_keeps_a_frozen_resize_frozen() {
    let mut scene = Scene::at_rest(400, 300, 600, 400);
    scene.fit();
    let base = scene.clock;
    for _ in 0..4 {
        scene.tick_at(base);
    }
    assert!(scene.held());
    let generation = scene.animations.generation_of(WINDOW);

    scene.move_to(scene.pos.x + 40, scene.pos.y);
    assert!(scene.held());
    assert_eq!(scene.animations.generation_of(WINDOW), generation);

    scene.tick_at(base + MAX_START_HOLD + TICK);
    assert!(!scene.held());
}

#[test]
fn repeated_nudges_never_extend_a_freeze() {
    let mut scene = Scene::at_rest(400, 300, 600, 400);
    scene.fit();
    let base = scene.clock;
    scene.tick_at(base);
    assert!(scene.held());

    for step in 1..=4 {
        scene.move_to(scene.pos.x + 40, scene.pos.y);
        scene.tick_at(base + 50 * MILLI * step);
        assert!(scene.held());
    }
    scene.tick_at(base + MAX_START_HOLD + TICK);
    assert!(!scene.held());
}

#[test]
fn repeated_nudges_never_extend_an_endpoint_hold() {
    let mut scene = Scene::at_rest(400, 300, 600, 400);
    let parked = scene.park_an_unanswered_fit(scene.clock);
    let endpoint = scene.rect();

    for step in 1..=4 {
        let now = parked + 100 * MILLI * step;
        scene.move_to(scene.pos.x + 40, scene.pos.y);
        for _ in 0..20 {
            scene.tick_at(now);
        }
        assert!((scene.rect().size.w.0 - endpoint.size.w.0).abs() <= 0.5);
    }
    let past = parked + MAX_ENDPOINT_HOLD + TICK;
    scene.tick_at(past);
    scene.tick_at(past);
    assert!(scene.rect().size.w.0 < endpoint.size.w.0 - 1.0);
}

#[test]
fn a_position_only_retarget_keeps_an_adopted_slot_stretching() {
    let mut scene = Scene::adopted();
    scene.move_to(540, 500);
    assert!(!scene.drawn().cap_content);
    let base = scene.clock;
    for _ in 0..8 {
        scene.tick_at(base);
        let v = scene.rect();
        assert!((v.size.w.0 - 600.0).abs() <= 0.5 && (v.size.h.0 - 400.0).abs() <= 0.5);
    }
}

#[test]
fn a_late_commit_after_the_deadline_clears_staleness() {
    let mut scene = Scene::at_rest(400, 300, 600, 400);
    let after_start = scene.park_an_unanswered_fit(scene.clock);
    let endpoint = scene.rect();

    let after_endpoint = after_start + PAST_HOLD;
    scene.tick_at(after_endpoint);
    scene.tick_at(after_endpoint);
    assert!(scene.rect().size.w.0 < endpoint.size.w.0 - 1.0);
    assert!(scene.drawn().cap_content);

    scene.commit(900, 700);
    assert!(scene.animations.is_active());
    assert!(!scene.drawn().cap_content);
}

#[test]
fn a_frozen_resize_renders_uncapped_at_its_seed_ratio() {
    let mut scene = Scene::at_rest(400, 300, 400, 300);
    let seed = Rect {
        loc: scene.live().loc,
        size: size(800.0, 600.0),
    };
    scene.start(
        seed,
        AnimSpace::Canvas,
        Some(FIT),
        GeometryRole::FullscreenEntry { was_pinned: false },
        true,
        ContentPolicy::Cap,
    );
    let base = scene.clock;
    for _ in 0..10 {
        scene.tick_at(base);
    }
    assert!(scene.held());
    assert!(!scene.drawn().cap_content);
    let (sx, sy) = scene.drawn_scale();
    assert!((sx - 2.0).abs() < 1e-6 && (sy - 2.0).abs() < 1e-6);
}

#[test]
fn a_sub_threshold_resize_carries_no_request() {
    let mut scene = Scene::at_rest(400, 300, 600, 400);
    scene.animate_window_geometry(410, 303);
    assert!(!scene.held());
    scene.tick_until_settled();

    scene.animate_window_geometry(411, 300);
    assert!(scene.held());
}

/// The threshold counts on either axis, and downward as well.
#[test]
fn a_shrink_past_the_threshold_freezes_too() {
    for (w, h, held) in [(389, 300, true), (400, 289, true), (390, 290, false)] {
        let mut scene = Scene::at_rest(400, 300, 600, 400);
        scene.animate_window_geometry(w, h);
        assert_eq!(scene.held(), held);
    }
}

/// What is asked of the client, to the pixel.
#[test]
fn a_resize_is_requested_past_ten_pixels() {
    let committed = Size { w: 400, h: 300 };
    for (w, h, asked) in [
        (400, 300, false),
        (410, 310, false),
        (390, 290, false),
        (411, 300, true),
        (400, 289, true),
        (i32::MIN, i32::MAX, true),
    ] {
        let size = Size { w, h };
        let expected = if asked { Some(size) } else { None };
        assert_eq!(resize_request(size, committed), expected);
    }
}

/// A start takes the request it is given: any size but the committed one is waited for.
#[test]
fn a_start_waits_for_any_other_size() {
    for (w, held) in [(400, false), (401, true), (399, true)] {
        let mut scene = Scene::at_rest(400, 300, 600, 400);
        let seed = scene.live();
        scene.start(
            seed,
            AnimSpace::Canvas,
            Some(Size { w, h: 300 }),
            GeometryRole::Normal,
            false,
            ContentPolicy::Cap,
        );
        assert_eq!(scene.held(), held);
        assert_eq!(scene.animations.latest_generation(), held as u64);
    }
}

/// A full step arrives at the requested rectangle and holds it; from the deadline on it
/// gives the request up and the next one arrives at the live size.
#[test]
fn a_full_step_draws_the_requested_rect() {
    let mut scene = Scene::at_rest(400, 300, 600, 400);
    scene.fit();
    let live = scene.live();
    let mut step = |now: u64| {
        let keep = scene
            .animations
            .tick_entry(WINDOW, live.loc, live.size, F(1.0), at(now), true);
        (keep, scene.rect())
    };
    let requested = Rect {
        loc: live.loc,
        size: FIT.scalar(),
    };
    step(0);
    assert_eq!(step(MAX_START_HOLD), (true, requested));
    assert_eq!(step(MAX_START_HOLD + 1), (true, requested));
    let released = MAX_START_HOLD + MAX_ENDPOINT_HOLD;
    assert_eq!(step(released), (true, requested));
    assert_eq!(step(released), (false, live));
}

/// From tick to tick an opening window only grows and only gains opacity.
#[test]
fn an_opening_window_never_falls_back() {
    let mut scene = Scene::mapped(400, 300);
    let mut last = scene.drawn();
    assert_eq!(last.size, size(200.0, 150.0));
    while scene.tick() {
        let v = scene.drawn();
        assert!(v.alpha > last.alpha && v.alpha <= F(1.0));
        assert!(v.size.w > last.size.w && v.size.w <= F(400.0));
        last = v;
    }
}

#[test]
fn a_frozen_entry_asks_for_no_redraw_but_keeps_ticking() {
    let mut scene = Scene::at_rest(400, 300, 600, 400);
    scene.fit();
    let base = scene.clock;
    scene.tick_at(base);
    assert!(scene.held());

    let before = scene.rect();
    assert!(scene.tick_at(base), "the entry keeps the loop awake");
    assert_eq!(scene.rect(), before, "a frozen tick draws nothing new");

    scene.tick_at(base + PAST_HOLD);
    assert!(scene.rect() != before, "the tick that unfreezes it moves it");
}

#[test]
fn a_same_size_request_never_freezes() {
    let mut scene = Scene::at_rest(400, 300, 400, 300);
    scene.animate_window_geometry(400, 300);
    scene.pos = px(700, 300);
    assert!(!scene.held());
    scene.tick_until_settled();
}

#[test]
fn a_request_carrying_retarget_refreezes_and_bumps_the_generation() {
    let mut scene = Scene::at_rest(400, 300, 600, 400);
    scene.fit();
    let first = scene.animations.generation_of(WINDOW).unwrap();
    let base = scene.clock;
    for _ in 0..4 {
        scene.tick_at(base);
    }
    scene.animate_window_geometry(900, 700);
    let second = scene.animations.generation_of(WINDOW).unwrap();
    assert!(second > first);
    assert!(scene.held());
}

/// Stamps count over all windows.
#[test]
fn every_request_takes_the_next_stamp() {
    let mut animations: WindowAnimations<F> = WindowAnimations::default();
    let seed = Rect {
        loc: pt(0.0, 0.0),
        size: size(400.0, 300.0),
    };
    let committed = Size { w: 400, h: 300 };
    for (id, request, stamp) in [
        (1, Some(FIT), 1),
        (2, None, 1),
        (3, Some(FIT), 2),
        (1, Some(Size { w: 900, h: 700 }), 3),
        (1, None, 3),
    ] {
        animations.start_geometry(
            id,
            seed,
            AnimSpace::Canvas,
            request,
            committed,
            GeometryRole::Normal,
            false,
            ContentPolicy::Cap,
        );
        assert_eq!(animations.generation_of(id), Some(stamp));
        assert_eq!(animations.latest_generation(), stamp);
    }
    animations.start_open(1);
    assert_eq!(animations.generation_of(1), None);
    assert_eq!(animations.generation_of(4), None);
}

#[test]
fn an_off_screen_freeze_drops_its_entry_and_its_capture() {
    let mut scene = Scene::at_rest(400, 300, 600, 400);
    scene.fit();
    let base = scene.clock;
    scene.tick_at(base);
    assert!(scene.held());

    scene.tick_with(base, false);
    assert_eq!(scene.animations.len(), 0);

    scene.commit(1896, 1056);
    assert_eq!(scene.animations.len(), 0);
}

/// A request for the size that the client already has is none.
#[test]
fn a_start_carries_a_request_for_another_size_only() {
    let (have, other) = (Size { w: 400, h: 300 }, Size { w: 400, h: 301 });
    assert_eq!(carried_request(Some(other), have), Some(other));
    assert_eq!(carried_request(Some(have), have), None);
    assert_eq!(carried_request(None, have), None);
}

#[test]
fn a_removed_freeze_leaves_no_stamp() {
    let mut scene = Scene::at_rest(400, 300, 600, 400);
    scene.fit();
    scene.tick();
    assert!(scene.held());
    scene.animations.remove(WINDOW);
    assert_eq!(scene.animations.len(), 0);
    assert!(!scene.held());
    assert_eq!(scene.animations.generation_of(WINDOW), None);
}

#[test]
fn an_open_entry_over_a_frozen_resize_drops_the_crossfade() {
    let mut scene = Scene::at_rest(400, 300, 600, 400);
    scene.fit();
    scene.tick();
    assert!(scene.held());
    scene.animations.start_open(WINDOW);
    assert!(!scene.held());
    assert_eq!(scene.animations.generation_of(WINDOW), None);
    scene.tick_until_settled();
}

#[test]
fn an_adopted_slot_is_never_frozen() {
    let scene = Scene::adopted();
    assert!(!scene.held());
}

/// A slot of nearly the client's own size is still held: it is the rectangle that was
/// inherited, however small the step.
#[test]
fn an_inherited_slot_is_held_to_the_pixel() {
    let mut scene = Scene::mapped(300, 200);
    scene.animations.remove(WINDOW);
    let slot = Rect {
        loc: scene.live().loc,
        size: size(301.0, 200.0),
    };
    scene.start(
        slot,
        AnimSpace::Canvas,
        Some(Size { w: 301, h: 200 }),
        GeometryRole::Normal,
        false,
        ContentPolicy::Stretch,
    );
    for _ in 0..60 {
        scene.tick_at(scene.clock);
    }
    assert_eq!(scene.rect().size, size(301.0, 200.0));
}

/// The freeze ends exactly at its deadline, counted from the first tick, and the wait at
/// the endpoint exactly at its own, counted from the arrival.
#[test]
fn both_budgets_end_on_their_deadline() {
    let mut scene = Scene::at_rest(400, 300, 600, 400);
    scene.fit();
    let first = scene.clock + 40 * TICK;
    scene.tick_at(first);
    scene.tick_at(first + MAX_START_HOLD - 1);
    assert!(scene.held());
    let mut now = first + MAX_START_HOLD;
    scene.tick_at(now);
    assert!(!scene.held());
    while scene.rect().size != FIT.scalar() {
        scene.tick_at(now);
    }
    scene.tick_at(now + MAX_ENDPOINT_HOLD - 1);
    scene.tick_at(now + MAX_ENDPOINT_HOLD - 1);
    assert_eq!(scene.rect().size, FIT.scalar());
    now += MAX_ENDPOINT_HOLD;
    scene.tick_at(now);
    assert_eq!(scene.rect().size, FIT.scalar());
    scene.tick_at(now);
    assert!(scene.rect().size.w.0 < 1896.0);
}

#[test]
fn only_the_off_state_is_not_held() {
    assert!(!StartHold::Off.is_held());
    assert!(StartHold::Armed.is_held());
    assert!(StartHold::Until(at(5)).is_held());
}

/// A chase draws its own rectangle, opaque; without an entry the live rectangle is drawn.
#[test]
fn nothing_in_flight_draws_the_live_rect() {
    let scene = Scene::at_rest(400, 300, 20, 30);
    let v = scene.drawn();
    assert_eq!(v.loc, pt(20.0, 30.0));
    assert_eq!(v.size, size(400.0, 300.0));
    assert_eq!(v.alpha, F(1.0));
    assert!(!v.cap_content);
}

/// An extent on its way through zero never goes negative.
#[test]
fn a_picture_never_has_a_negative_extent() {
    let mut animations: WindowAnimations<F> = WindowAnimations::new();
    let seed = Rect {
        loc: pt(0.0, 0.0),
        size: size(10.0, 10.0),
    };
    animations.start_geometry(
        1,
        seed,
        AnimSpace::Canvas,
        None,
        Size { w: 10, h: 10 },
        GeometryRole::Normal,
        false,
        ContentPolicy::Cap,
    );
    animations.tick_entry(1, pt(0.0, 0.0), size(-100.0, 30.0), F(0.5), at(0), true);
    assert_eq!(
        animations.geometry_visual_rect(1).unwrap().size,
        size(0.0, 20.0)
    );
}
