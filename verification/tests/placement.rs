//! Where windows are placed: pins on their screens, frames around their centers, and the
//! recenters still owed.

use std::collections::{HashMap, HashSet};

use drift::geometry::{Point, Rect, Size};
use drift::recenter::rule_to_internal;
use drift::scalar::Scalar;
use drift::state::{
    AppliedRule, DecorationConfig, DecorationMode, DriftWm, FullscreenEntry, FullscreenReturn,
    Momentum, Output, OutputState, PendingRecenter, PinnedSite, Stage, StageEntry, StageWindow,
    SuspendedWindow, Toplevel, Window,
};
use drift::time::Instant;
use drift::window_animation::WindowAnimations;
use drift::window_frame::{
    configured_window_size, frame_fits, frame_loc_for_center, visual_frame_center,
};

#[derive(Clone, Copy, Debug, PartialEq, PartialOrd)]
struct F(f64);

impl Scalar for F {
    fn plus(self, rhs: Self) -> Self {
        F(self.0 + rhs.0)
    }
    fn minus(self, rhs: Self) -> Self {
        F(self.0 - rhs.0)
    }
    fn times(self, rhs: Self) -> Self {
        F(self.0 * rhs.0)
    }
    fn over(self, rhs: Self) -> Self {
        F(self.0 / rhs.0)
    }
    fn abs(self) -> Self {
        F(self.0.abs())
    }
    fn max(self, rhs: Self) -> Self {
        F(self.0.max(rhs.0))
    }
    fn min(self, rhs: Self) -> Self {
        F(self.0.min(rhs.0))
    }
    fn lt(self, rhs: Self) -> bool {
        self.0 < rhs.0
    }
    fn le(self, rhs: Self) -> bool {
        self.0 <= rhs.0
    }
    fn from_i32(v: i32) -> Self {
        F(v as f64)
    }
    fn trunc(self) -> i32 {
        self.0 as i32
    }
    fn round(self) -> i32 {
        self.0.round() as i32
    }
    fn ceil(self) -> i32 {
        self.0.ceil() as i32
    }
}

fn pt(x: f64, y: f64) -> Point<F> {
    Point { x: F(x), y: F(y) }
}

fn px(x: i32, y: i32) -> Point<i32> {
    Point { x, y }
}

fn viewport() -> OutputState<F> {
    OutputState {
        camera: pt(0.0, 0.0),
        zoom: F(1.0),
        zoom_target: None,
        zoom_animation_anchor: None,
        overview_return: None,
        camera_target: None,
        edge_pan_velocity: None,
        last_scroll_pan: None,
        panning: false,
        last_frame_instant: Instant { nanos: 0 },
        momentum: Momentum { velocity: None },
        fullscreen_return: None,
    }
}

fn output(name: &str, w: i32, h: i32) -> Output<F> {
    Output {
        name: name.to_string(),
        size: Size { w, h },
        usable: Rect {
            loc: px(0, 0),
            size: Size { w, h },
        },
        state: viewport(),
    }
}

fn compositor(outputs: Vec<Output<F>>) -> DriftWm<F> {
    DriftWm {
        focused_output: if outputs.is_empty() { None } else { Some(0) },
        outputs,
        stage: Stage {
            windows: Vec::new(),
            fullscreen: Vec::new(),
            activated: None,
        },
        pending_recenter: HashMap::new(),
        decorations: HashSet::new(),
        rules: HashMap::new(),
        resize_states: HashMap::new(),
        decoration_config: DecorationConfig {
            title_bar_height: 25,
            border_width: 2,
            default_mode: DecorationMode::Client,
        },
        window_animations: WindowAnimations::new(),
    }
}

fn client(id: u64, w: i32, h: i32) -> Window {
    Window {
        id,
        surface: Some(100 + id),
        geometry: Size { w, h },
        toplevel: Some(Toplevel {
            pending_size: None,
            resizing: false,
            maximized: false,
        }),
    }
}

fn size(w: i32, h: i32) -> Size<i32> {
    Size { w, h }
}

fn site(output: &str, x: i32, y: i32) -> PinnedSite {
    PinnedSite {
        output: output.to_string(),
        screen_pos: px(x, y),
    }
}

fn entry(id: u64, x: i32, y: i32, pin: Option<PinnedSite>) -> StageEntry {
    StageEntry {
        id,
        position: px(x, y),
        size: size(400, 300),
        pin,
        fit: false,
        fill: false,
    }
}

fn two_outputs() -> DriftWm<F> {
    compositor(vec![output("A", 1920, 1080), output("B", 1280, 720)])
}

fn stand_in(id: u64, w: i32, h: i32) -> StageWindow {
    StageWindow::Suspended(SuspendedWindow {
        id,
        geometry: size(w, h),
    })
}

#[test]
fn pins_follow_their_camera_and_nothing_else_moves() {
    let mut wm = two_outputs();
    wm.outputs[0].state.camera = pt(1000.0, 500.5);
    wm.outputs[0].state.zoom = F(2.0);
    wm.stage.windows = vec![
        entry(1, 7, 8, None),
        entry(2, 0, 0, Some(site("A", 100, 51))),
        entry(3, 5, 6, Some(site("gone", 100, 51))),
        entry(4, 0, 0, Some(site("B", 30, 40))),
    ];
    wm.sync_pinned_locs();
    assert_eq!(
        wm.stage.windows,
        vec![
            entry(1, 7, 8, None),
            entry(2, 1050, 526, Some(site("A", 100, 51))),
            entry(3, 5, 6, Some(site("gone", 100, 51))),
            entry(4, 30, 40, Some(site("B", 30, 40))),
        ]
    );
    let synced = format!("{:?}", wm.stage);
    wm.sync_pinned_locs();
    assert_eq!(format!("{:?}", wm.stage), synced);
}

#[test]
fn a_pin_sent_to_another_output_fits_there() {
    let mut wm = two_outputs();
    wm.outputs[1].state.camera = pt(100.0, 200.0);
    wm.stage.windows = vec![entry(1, 0, 0, Some(site("A", 1500, -20)))];
    wm.send_pinned_to_output(&client(1, 400, 300), 1);
    assert_eq!(
        wm.stage.windows,
        vec![entry(1, 980, 200, Some(site("B", 880, 0)))]
    );
    // It is there already: nothing more happens, even with the camera elsewhere.
    wm.outputs[1].state.camera = pt(0.0, 0.0);
    wm.send_pinned_to_output(&client(1, 400, 300), 1);
    assert_eq!(wm.stage.windows[0].position, px(980, 200));
}

#[test]
fn only_a_pinned_window_is_sent() {
    let mut wm = two_outputs();
    wm.stage.windows = vec![entry(1, 3, 4, None)];
    wm.send_pinned_to_output(&client(1, 400, 300), 1);
    wm.send_pinned_to_output(&client(2, 400, 300), 1);
    assert_eq!(wm.stage.windows, vec![entry(1, 3, 4, None)]);
}

/// A window larger than the output goes to its start.
#[test]
fn a_pin_larger_than_its_new_output_starts_at_its_corner() {
    let mut wm = two_outputs();
    wm.stage.windows = vec![entry(1, 0, 0, Some(site("A", 100, 100)))];
    wm.send_pinned_to_output(&client(1, 1280, 900), 1);
    assert_eq!(wm.stage.windows[0].pin, Some(site("B", 0, 0)));
}

#[test]
fn pins_of_an_unplugged_output_are_rehomed() {
    let mut wm = two_outputs();
    wm.outputs[1].state.camera = pt(10.0, 20.0);
    wm.stage.windows = vec![
        entry(1, 7, 8, None),
        entry(2, 0, 0, Some(site("gone", 1000, 700))),
        entry(3, 0, 0, Some(site("A", 50, 60))),
    ];
    wm.reassign_orphaned_pinned(1);
    assert_eq!(
        wm.stage.windows,
        vec![
            entry(1, 7, 8, None),
            entry(2, 890, 440, Some(site("B", 880, 420))),
            entry(3, 50, 60, Some(site("A", 50, 60))),
        ]
    );
    wm.reassign_orphaned_pinned(1);
    assert_eq!(wm.stage.windows[1], entry(2, 890, 440, Some(site("B", 880, 420))));
}

#[test]
fn without_an_orphan_no_position_is_touched() {
    let mut wm = two_outputs();
    wm.stage.windows = vec![entry(3, 1, 2, Some(site("A", 50, 60)))];
    wm.reassign_orphaned_pinned(1);
    assert_eq!(
        wm.stage.windows,
        vec![entry(3, 1, 2, Some(site("A", 50, 60)))]
    );
}

/// A pin that fullscreen suspended is fitted by the size its window had before.
#[test]
fn suspended_pins_are_rehomed_by_their_saved_size() {
    let mut wm = two_outputs();
    wm.stage.fullscreen = vec![FullscreenEntry {
        output: "A".to_string(),
        saved_size: size(500, 200),
    }];
    for k in 0..2 {
        wm.outputs[k].state.fullscreen_return = Some(FullscreenReturn {
            pinned: Some(site("gone", 1900, 1000)),
        });
    }
    wm.reassign_orphaned_pinned(1);
    assert_eq!(
        wm.outputs[0].state.fullscreen_return,
        Some(FullscreenReturn {
            pinned: Some(site("B", 780, 520)),
        })
    );
    // Nothing covers the other output, so what it once suspended is not its to restore.
    assert_eq!(
        wm.outputs[1].state.fullscreen_return,
        Some(FullscreenReturn {
            pinned: Some(site("gone", 1900, 1000)),
        })
    );
}

#[test]
fn a_suspended_pin_on_a_living_output_stays() {
    let mut wm = two_outputs();
    wm.stage.fullscreen = vec![FullscreenEntry {
        output: "A".to_string(),
        saved_size: size(500, 200),
    }];
    wm.outputs[0].state.fullscreen_return = Some(FullscreenReturn {
        pinned: Some(site("A", 1900, 1000)),
    });
    wm.reassign_orphaned_pinned(1);
    assert_eq!(
        wm.outputs[0].state.fullscreen_return,
        Some(FullscreenReturn {
            pinned: Some(site("A", 1900, 1000)),
        })
    );
}

#[test]
fn frame_center_and_corner_are_inverse() {
    let center: Point<F> = visual_frame_center(px(100, 200), size(401, 300), F(25.0));
    assert_eq!(center, pt(300.5, 337.5));
    for (loc, extent, bar) in [
        (px(100, 200), size(401, 300), 25),
        (px(-7, -9), size(400, 301), 0),
        (px(-1000, 13), size(1, 1), 30),
    ] {
        let center = visual_frame_center(loc, extent, F(bar as f64));
        assert_eq!(frame_loc_for_center(center, extent, bar), loc);
    }
}

/// A corner off the pixel grid goes toward zero.
#[test]
fn a_frame_corner_is_cut_to_a_pixel() {
    assert_eq!(
        frame_loc_for_center(pt(0.75, 0.75), size(4, 4), 0),
        px(-1, -1)
    );
    assert_eq!(
        frame_loc_for_center(pt(10.75, 10.75), size(4, 4), 3),
        px(8, 10)
    );
}

#[test]
fn a_frame_fits_where_its_corner_is_a_pixel_position() {
    assert!(frame_fits(pt(0.75, 0.75), size(4, 4), 3));
    // The frame's height overflows, or its content lies below the grid.
    assert!(!frame_fits(pt(0.0, 0.0), size(4, i32::MAX), 1));
    assert!(!frame_fits(pt(0.0, f64::from(i32::MAX)), size(4, 2), 4));
    assert!(frame_fits(pt(0.0, f64::from(i32::MAX)), size(4, 2), 2));
}

#[test]
fn a_window_is_becoming_what_was_sent_to_it() {
    let mut window = client(1, 400, 300);
    assert_eq!(configured_window_size(&window), size(400, 300));
    for (pending, expected) in [
        (size(800, 600), size(800, 600)),
        (size(0, 600), size(400, 300)),
        (size(800, 0), size(400, 300)),
    ] {
        window.toplevel = Some(Toplevel {
            pending_size: Some(pending),
            resizing: false,
            maximized: false,
        });
        assert_eq!(configured_window_size(&window), expected);
    }
    window.toplevel = None;
    assert_eq!(configured_window_size(&window), size(400, 300));
}

#[test]
fn title_bars_belong_to_stand_ins_and_decorated_clients() {
    let mut wm = two_outputs();
    let window = client(1, 400, 300);
    assert_eq!(wm.window_ssd_bar(&StageWindow::Client(client(1, 400, 300))), 0);
    wm.decorations.insert(101);
    assert_eq!(wm.window_ssd_bar(&StageWindow::Client(client(1, 400, 300))), 25);
    assert_eq!(wm.client_ssd_bar(&window), 25);
    assert_eq!(wm.client_ssd_bar(&client(2, 400, 300)), 0);
    assert_eq!(wm.window_ssd_bar(&stand_in(3, 10, 10)), 25);
    let mut dead = client(1, 400, 300);
    dead.surface = None;
    assert_eq!(wm.client_ssd_bar(&dead), 0);
}

#[test]
fn borders_go_by_rule_and_need_a_frame() {
    let mut wm = two_outputs();
    let window = || StageWindow::Client(client(1, 400, 300));
    assert_eq!(wm.element_border_width(&window()), 2);
    assert_eq!(wm.element_border_width(&stand_in(3, 10, 10)), 2);
    assert_eq!(wm.default_border_width(), 2);
    for (decoration, border_width, expected) in [
        (None, Some(7), 7),
        (Some(DecorationMode::Server), None, 2),
        (Some(DecorationMode::Client), Some(0), 0),
        (Some(DecorationMode::Off), Some(7), 0),
        (Some(DecorationMode::Off), None, 0),
    ] {
        wm.rules.insert(
            101,
            AppliedRule {
                decoration,
                border_width,
            },
        );
        assert_eq!(wm.window_border_width(101), expected);
        assert_eq!(wm.element_border_width(&window()), expected);
    }
    wm.decoration_config.default_mode = DecorationMode::Off;
    assert_eq!(wm.default_border_width(), 0);
    assert_eq!(wm.window_border_width(55), 0);
    let mut dead = client(1, 400, 300);
    dead.surface = None;
    wm.decoration_config.default_mode = DecorationMode::Server;
    assert_eq!(wm.element_border_width(&StageWindow::Client(dead)), 0);
}

#[test]
fn the_visual_center_counts_the_bar_and_the_size_to_come() {
    let mut wm = two_outputs();
    let mut window = client(1, 1920, 1080);
    assert_eq!(wm.window_visual_center(&window), None);
    wm.stage.map_window(1, window.geometry, px(100, 200), false);
    wm.decorations.insert(101);
    window.toplevel = Some(Toplevel {
        pending_size: Some(size(400, 300)),
        resizing: false,
        maximized: false,
    });
    assert_eq!(wm.window_visual_center(&window), Some(pt(300.0, 337.5)));
}

#[test]
fn a_rule_point_counts_up_the_canvas() {
    assert_eq!(rule_to_internal(100, 50, size(401, 300)), px(-100, -200));
    assert_eq!(rule_to_internal(0, -50, size(0, 0)), px(0, 50));
}

fn promise(x: f64, y: f64, w: i32, h: i32) -> PendingRecenter<F> {
    PendingRecenter {
        target_center: pt(x, y),
        pre_exit_size: size(w, h),
    }
}

#[test]
fn a_rule_point_takes_a_window_out_of_its_fill_and_on_top() {
    let mut wm = two_outputs();
    let mut filled = entry(1, 0, 0, None);
    filled.fill = true;
    filled.fit = true;
    wm.stage.windows = vec![filled, entry(2, 9, 9, None)];
    wm.map_window_to_rule_point(&client(1, 400, 300), 100, 50, true);
    let mut placed = entry(1, -100, -200, None);
    placed.fit = true;
    assert_eq!(wm.stage.windows, vec![entry(2, 9, 9, None), placed]);
    assert_eq!(wm.stage.activated, Some(1));
    assert!(wm.pending_recenter.is_empty());

    wm.map_window_to_rule_point(&client(3, 10, 20), 0, 0, false);
    assert_eq!(wm.stage.activated, Some(1));
    assert_eq!(wm.stage.windows[2].position, px(-5, -10));
    assert_eq!(wm.stage.windows[2].size, size(10, 20));
}

/// A window is tested by the size it is placed by, which mid-settle is the one to come.
#[test]
fn a_rule_point_fits_where_its_corner_is_a_pixel_position() {
    let mut wm = two_outputs();
    let mut window = client(1, 400, 300);
    assert!(wm.fits_rule_point(&window, 100, 50));
    assert!(wm.fits_rule_point(&window, i32::MIN + 200, 50));
    assert!(!wm.fits_rule_point(&window, i32::MIN + 199, 50));
    assert!(!wm.fits_rule_point(&window, 100, i32::MIN));
    assert!(!wm.fits_rule_point(&window, 100, i32::MAX));
    window.toplevel = Some(Toplevel {
        pending_size: Some(size(402, 300)),
        resizing: false,
        maximized: false,
    });
    assert!(wm.fits_rule_point(&window, i32::MIN + 200, 50));
    wm.pending_recenter.insert(101, promise(1.0, 2.0, 400, 300));
    assert!(!wm.fits_rule_point(&window, i32::MIN + 200, 50));
    assert!(wm.fits_rule_point(&window, i32::MIN + 201, 50));
}

/// Mid-settle the window is placed by the size it is becoming, and the recenter it owes
/// aims at the rule's center.
#[test]
fn a_rule_point_re_aims_the_recenter_still_owed() {
    let mut wm = two_outputs();
    wm.decorations.insert(101);
    wm.stage.windows = vec![entry(1, 0, 0, None)];
    wm.pending_recenter.insert(101, promise(1.0, 2.0, 1920, 1080));
    wm.pending_recenter.insert(102, promise(3.0, 4.0, 5, 6));
    let mut window = client(1, 1920, 1080);
    window.toplevel = Some(Toplevel {
        pending_size: Some(size(400, 300)),
        resizing: false,
        maximized: false,
    });
    wm.map_window_to_rule_point(&window, 100, 50, false);
    assert_eq!(wm.stage.windows[0].position, px(-100, -200));
    assert_eq!(
        wm.pending_recenter[&101],
        promise(100.0, -62.5, 1920, 1080)
    );
    assert_eq!(wm.pending_recenter[&102], promise(3.0, 4.0, 5, 6));
    // The settle then lands where the rule would have placed that size.
    let settled = frame_loc_for_center(pt(100.0, -62.5), size(400, 300), 25);
    assert_eq!(settled, px(-100, -200));
}

#[test]
fn an_exit_to_another_size_owes_the_center() {
    let mut wm = two_outputs();
    wm.stage.windows = vec![entry(1, 0, 0, None), entry(2, 9, 9, None)];
    let window = StageWindow::Client(client(1, 1920, 1080));
    let refresh =
        wm.establish_exit_placement(&window, px(30, 40), size(400, 300), pt(5.0, 6.0), true);
    assert!(!refresh, "the recenter refreshes it when it completes");
    assert_eq!(wm.pending_recenter[&101], promise(5.0, 6.0, 1920, 1080));
    let mut placed = entry(1, 30, 40, None);
    placed.size = size(1920, 1080);
    assert_eq!(wm.stage.windows, vec![entry(2, 9, 9, None), placed]);
    assert_eq!(wm.stage.activated, None);
}

#[test]
fn an_exit_to_the_same_size_owes_nothing() {
    let mut wm = two_outputs();
    wm.stage.windows = vec![entry(1, 0, 0, None)];
    for refresh_snap_rect in [true, false] {
        wm.pending_recenter.insert(101, promise(1.0, 2.0, 3, 4));
        let window = StageWindow::Client(client(1, 400, 300));
        let refresh = wm.establish_exit_placement(
            &window,
            px(30, 40),
            size(400, 300),
            pt(5.0, 6.0),
            refresh_snap_rect,
        );
        assert_eq!(refresh, refresh_snap_rect);
        assert!(wm.pending_recenter.is_empty());
        assert_eq!(wm.stage.windows, vec![entry(1, 30, 40, None)]);
    }
}

#[test]
fn a_stand_in_never_owes_a_recenter() {
    let mut wm = two_outputs();
    let refresh = wm.establish_exit_placement(
        &stand_in(3, 10, 10),
        px(30, 40),
        size(400, 300),
        pt(5.0, 6.0),
        true,
    );
    assert!(!refresh);
    assert!(wm.pending_recenter.is_empty());
    assert_eq!(wm.stage.windows.len(), 1);
}

/// What places the window anew calls the promise off, or it would pull the window out
/// of its place later.
#[test]
fn a_new_placement_drops_the_recenter_still_owed() {
    let mut wm = two_outputs();
    wm.pending_recenter.insert(101, promise(1.0, 2.0, 3, 4));
    wm.pending_recenter.insert(102, promise(5.0, 6.0, 7, 8));
    wm.drop_owed_recenter(&stand_in(1, 10, 10));
    assert_eq!(wm.pending_recenter.len(), 2);
    wm.drop_owed_recenter(&StageWindow::Client(client(1, 400, 300)));
    assert!(!wm.pending_recenter.contains_key(&101));
    assert_eq!(wm.pending_recenter[&102], promise(5.0, 6.0, 7, 8));
    wm.drop_owed_recenter(&StageWindow::Client(client(1, 400, 300)));
    assert_eq!(wm.pending_recenter.len(), 1);
}

/// At any size the frame placed by a rule point is centered on it, to half a pixel.
#[test]
fn a_rule_point_is_the_center_at_any_size() {
    for (w, h) in [(0, 0), (1, 1), (400, 300), (401, 301), (1920, 1080)] {
        let loc = rule_to_internal(100, 50, size(w, h));
        let center = visual_frame_center(loc, size(w, h), F(25.0));
        let off = (center.x.0 - 100.0, center.y.0 - -62.5);
        assert!(off.0 >= 0.0 && off.0 <= 0.5, "{off:?}");
        assert!(off.1 >= 0.0 && off.1 <= 0.5, "{off:?}");
        let settled = frame_loc_for_center(pt(100.0, -62.5), size(w, h), 25);
        assert!((settled.x - loc.x).abs() <= 1 && (settled.y - loc.y).abs() <= 1);
    }
}

/// Placing a frame around a center off the pixel grid misses it by less than a pixel.
#[test]
fn a_frame_is_centered_to_within_a_pixel() {
    for (x, y) in [(10.3, -7.9), (-0.4, 0.4), (1000.99, -1000.01)] {
        let loc = frame_loc_for_center(pt(x, y), size(401, 300), 25);
        let back = visual_frame_center(loc, size(401, 300), F(25.0));
        assert!((back.x.0 - x).abs() < 1.0 && (back.y.0 - y).abs() < 1.0);
    }
}

/// Seen through its camera again, a synced pin is within half a canvas pixel of its site.
#[test]
fn a_synced_pin_is_seen_at_its_site() {
    for (camera, zoom) in [(0.0, 1.0), (333.3, 2.0), (-1234.5, 0.3)] {
        let mut wm = two_outputs();
        wm.outputs[0].state.camera = pt(camera, camera);
        wm.outputs[0].state.zoom = F(zoom);
        wm.stage.windows = vec![entry(1, 0, 0, Some(site("A", 700, 41)))];
        wm.sync_pinned_locs();
        let at = wm.stage.windows[0].position;
        assert!(((at.x as f64 - camera) * zoom - 700.0).abs() <= zoom / 2.0 + 1e-6);
        assert!(((at.y as f64 - camera) * zoom - 41.0).abs() <= zoom / 2.0 + 1e-6);
    }
}

/// Searches find the first match.
#[test]
fn the_first_match_counts() {
    let mut wm = two_outputs();
    wm.outputs.push(output("A", 5, 5));
    assert_eq!(wm.output_by_name(&"A".to_string()), Some(0));
    assert_eq!(wm.output_by_name(&"B".to_string()), Some(1));
    assert_eq!(wm.output_by_name(&"C".to_string()), None);
    wm.stage.windows = vec![entry(1, 0, 0, None), entry(2, 1, 1, None), entry(2, 2, 2, None)];
    assert_eq!(wm.stage.index_of(2), Some(1));
    assert_eq!(wm.stage.position_of(2), Some(px(1, 1)));
    assert_eq!(wm.stage.index_of(3), None);
    assert_eq!(wm.stage.fullscreen_on(&"A".to_string()), None);
    for saved in [7, 9] {
        wm.stage.fullscreen.push(FullscreenEntry {
            output: "A".to_string(),
            saved_size: size(saved, saved),
        });
    }
    assert_eq!(wm.stage.fullscreen_on(&"A".to_string()), Some(size(7, 7)));
}

/// A commit on record is what an orphaned pin is fitted by.
#[test]
fn a_recorded_commit_fits_the_pin() {
    let mut wm = two_outputs();
    wm.stage.windows = vec![
        entry(1, 0, 0, Some(site("gone", 1900, 1000))),
        entry(2, 0, 0, None),
    ];
    wm.stage.record_commit(1, size(600, 500));
    wm.stage.record_commit(9, size(1, 1));
    assert_eq!(wm.stage.windows[0].size, size(600, 500));
    assert_eq!(wm.stage.windows[1], entry(2, 0, 0, None));
    wm.reassign_orphaned_pinned(1);
    assert_eq!(wm.stage.windows[0].pin, Some(site("B", 680, 220)));
}

/// Where the corner falls on the pixel grid the center comes back exactly.
#[test]
fn a_frame_on_the_grid_keeps_its_center() {
    for (x, y) in [(10.5, -7.5), (-300.5, 0.5), (0.5, 1000.5)] {
        let loc = frame_loc_for_center(pt(x, y), size(401, 300), 25);
        let back = visual_frame_center(loc, size(401, 300), F(25.0));
        assert_eq!(back, pt(x, y));
    }
}
