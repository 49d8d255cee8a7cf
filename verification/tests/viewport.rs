//! The viewports of outputs, and what a client-side resize does to them.

use std::collections::{HashMap, HashSet};

use drift::fixed::{Fixed, ONE};
use drift::geometry::{screen_to_canvas, Point, Rect, Size};
use drift::scalar::Scalar;
use drift::state::{
    DecorationConfig, DecorationMode, DriftWm, FullscreenEntry, Momentum, Output, OutputState,
    ResizeEdge, ResizeState, Stage, StageWindow, SuspendedWindow, Toplevel, Window,
    ZoomAnimationAnchor,
};
use drift::time::Instant;
use drift::viewport::visible_fraction;
use drift::window_animation::WindowAnimations;

#[derive(Clone, Copy, Debug, PartialEq, PartialOrd)]
struct F(f64);

impl Scalar for F {
    fn plus(self, rhs: Self) -> Self {
        F(self.0 + rhs.0)
    }
    fn minus(self, rhs: Self) -> Self {
        F(self.0 - rhs.0)
    }
    fn times(self, rhs: Self) -> Self {
        F(self.0 * rhs.0)
    }
    fn over(self, rhs: Self) -> Self {
        F(self.0 / rhs.0)
    }
    fn abs(self) -> Self {
        F(self.0.abs())
    }
    fn max(self, rhs: Self) -> Self {
        F(self.0.max(rhs.0))
    }
    fn min(self, rhs: Self) -> Self {
        F(self.0.min(rhs.0))
    }
    fn lt(self, rhs: Self) -> bool {
        self.0 < rhs.0
    }
    fn le(self, rhs: Self) -> bool {
        self.0 <= rhs.0
    }
    fn from_i32(v: i32) -> Self {
        F(v as f64)
    }
    fn trunc(self) -> i32 {
        self.0 as i32
    }
    fn round(self) -> i32 {
        self.0.round() as i32
    }
    fn ceil(self) -> i32 {
        self.0.ceil() as i32
    }
}

fn pt(x: f64, y: f64) -> Point<F> {
    Point { x: F(x), y: F(y) }
}

fn px(x: i32, y: i32) -> Point<i32> {
    Point { x, y }
}

fn viewport() -> OutputState<F> {
    OutputState {
        camera: pt(0.0, 0.0),
        zoom: F(1.0),
        zoom_target: None,
        zoom_animation_anchor: None,
        overview_return: None,
        camera_target: None,
        edge_pan_velocity: None,
        last_scroll_pan: None,
        panning: false,
        last_frame_instant: Instant { nanos: 0 },
        momentum: Momentum { velocity: None },
        fullscreen_return: None,
    }
}

fn output(name: &str, w: i32, h: i32) -> Output<F> {
    Output {
        name: name.to_string(),
        size: Size { w, h },
        usable: Rect {
            loc: px(0, 0),
            size: Size { w, h },
        },
        state: viewport(),
    }
}

fn compositor(outputs: Vec<Output<F>>) -> DriftWm<F> {
    DriftWm {
        focused_output: if outputs.is_empty() { None } else { Some(0) },
        outputs,
        stage: Stage {
            windows: Vec::new(),
            fullscreen: Vec::new(),
            activated: None,
        },
        pending_recenter: HashMap::new(),
        decorations: HashSet::new(),
        rules: HashMap::new(),
        resize_states: HashMap::new(),
        decoration_config: DecorationConfig {
            title_bar_height: 25,
            border_width: 2,
            default_mode: DecorationMode::Client,
        },
        window_animations: WindowAnimations::new(),
    }
}

fn client(id: u64, w: i32, h: i32) -> Window {
    Window {
        id,
        surface: Some(100 + id),
        geometry: Size { w, h },
        toplevel: Some(Toplevel {
            pending_size: None,
            resizing: false,
            maximized: false,
        }),
    }
}

fn two_outputs() -> DriftWm<F> {
    compositor(vec![output("A", 1920, 1080), output("B", 1280, 720)])
}

fn cover(wm: &mut DriftWm<F>, name: &str) {
    wm.stage.fullscreen.push(FullscreenEntry {
        output: name.to_string(),
        saved_size: Size { w: 400, h: 300 },
    });
}

#[test]
fn a_write_reads_back_on_the_active_output_alone() {
    let mut wm = two_outputs();
    wm.focused_output = Some(1);
    wm.set_camera(pt(10.0, 20.0));
    wm.set_zoom(F(0.5));
    wm.set_zoom_target(Some(F(2.0)));
    wm.set_zoom_animation_anchor(pt(1.0, 2.0), pt(3.0, 4.0));
    wm.set_overview_return(Some((pt(5.0, 6.0), F(0.25))));
    wm.set_camera_target(Some(pt(7.0, 8.0)));
    wm.set_last_scroll_pan(Some(Instant { nanos: 11 }));
    wm.set_panning(true);
    wm.set_last_frame_instant(Instant { nanos: 12 });

    assert_eq!(wm.camera(), pt(10.0, 20.0));
    assert_eq!(wm.zoom(), F(0.5));
    assert_eq!(wm.zoom_target(), Some(F(2.0)));
    assert_eq!(
        wm.zoom_animation_anchor(),
        Some(ZoomAnimationAnchor {
            canvas: pt(1.0, 2.0),
            screen: pt(3.0, 4.0),
        })
    );
    assert_eq!(wm.overview_return(), Some((pt(5.0, 6.0), F(0.25))));
    assert_eq!(wm.camera_target(), Some(pt(7.0, 8.0)));
    assert_eq!(wm.last_scroll_pan(), Some(Instant { nanos: 11 }));
    assert!(wm.panning());
    assert_eq!(
        wm.last_frame_instant(Instant { nanos: 99 }),
        Instant { nanos: 12 }
    );
    assert_eq!(wm.outputs[0], output("A", 1920, 1080));

    wm.clear_zoom_animation_anchor();
    assert_eq!(wm.zoom_animation_anchor(), None);
    wm.set_zoom_target(None);
    assert_eq!(wm.zoom_target(), None);
}

#[test]
fn without_an_output_getters_default_and_setters_do_nothing() {
    let mut wm = compositor(Vec::new());
    wm.set_camera(pt(10.0, 20.0));
    wm.set_zoom(F(0.5));
    wm.set_zoom_target(Some(F(2.0)));
    wm.set_zoom_animation_anchor(pt(1.0, 2.0), pt(3.0, 4.0));
    wm.clear_zoom_animation_anchor();
    wm.set_overview_return(Some((pt(5.0, 6.0), F(0.25))));
    wm.set_camera_target(Some(pt(7.0, 8.0)));
    wm.set_last_scroll_pan(Some(Instant { nanos: 11 }));
    wm.set_panning(true);
    wm.set_last_frame_instant(Instant { nanos: 12 });

    assert_eq!(wm.camera(), pt(0.0, 0.0));
    assert_eq!(wm.zoom(), F(1.0));
    assert_eq!(wm.zoom_target(), None);
    assert_eq!(wm.zoom_animation_anchor(), None);
    assert_eq!(wm.overview_return(), None);
    assert_eq!(wm.camera_target(), None);
    assert_eq!(wm.last_scroll_pan(), None);
    assert!(!wm.panning());
    assert_eq!(
        wm.last_frame_instant(Instant { nanos: 99 }),
        Instant { nanos: 99 }
    );
    assert_eq!(wm.with_output_state(|state| state.zoom), None);
    assert_eq!(wm.get_viewport_size(), Size { w: 1, h: 1 });
    assert_eq!(
        wm.get_usable_area(),
        Rect {
            loc: px(0, 0),
            size: Size { w: 1, h: 1 },
        }
    );
    assert_eq!(wm.usable_center_screen(), pt(0.5, 0.5));
    assert_eq!(wm.viewport_center_canvas(), pt(0.5, 0.5));
}

#[test]
fn a_focus_on_an_output_that_is_gone_counts_as_none() {
    let mut wm = two_outputs();
    wm.focused_output = Some(2);
    assert_eq!(wm.active_output(), None);
    assert_eq!(wm.get_viewport_size(), Size { w: 1, h: 1 });
}

#[test]
fn a_fullscreen_window_locks_its_camera() {
    let mut wm = two_outputs();
    cover(&mut wm, "A");
    wm.set_camera(pt(10.0, 20.0));
    wm.set_camera_on(0, pt(10.0, 20.0));
    assert_eq!(wm.camera(), pt(0.0, 0.0));
    assert!(wm.is_output_fullscreen(0));

    wm.set_camera_on(1, pt(30.0, 40.0));
    assert_eq!(wm.outputs[1].state.camera, pt(30.0, 40.0));
    assert!(!wm.is_output_fullscreen(1));

    wm.stage.fullscreen.clear();
    wm.set_camera(pt(10.0, 20.0));
    assert_eq!(wm.camera(), pt(10.0, 20.0));
}

#[test]
fn a_closure_runs_on_the_active_viewport() {
    let mut wm = two_outputs();
    let was = wm.with_output_state(|state| {
        let was = state.zoom;
        state.zoom = F(2.0);
        was
    });
    assert_eq!(was, Some(F(1.0)));
    assert_eq!(wm.zoom(), F(2.0));
    assert_eq!(wm.outputs[1].state.zoom, F(1.0));
}

#[test]
fn the_usable_center_leaves_out_the_panels() {
    let mut wm = two_outputs();
    wm.outputs[0].usable = Rect {
        loc: px(0, 31),
        size: Size { w: 1920, h: 1049 },
    };
    assert_eq!(wm.get_viewport_size(), Size { w: 1920, h: 1080 });
    assert_eq!(wm.get_usable_area(), wm.outputs[0].usable);
    assert_eq!(wm.usable_area_on(1).size, Size { w: 1280, h: 720 });
    assert_eq!(wm.usable_center_screen(), pt(960.0, 555.5));
    assert_eq!(wm.usable_center_screen_on(1), pt(640.0, 360.0));
    wm.set_camera(pt(100.0, 200.0));
    wm.set_zoom(F(0.5));
    assert_eq!(wm.viewport_center_canvas(), pt(2020.0, 1311.0));
}

#[test]
fn a_flight_to_an_anchor_arrives_at_it() {
    let mut wm = two_outputs();
    wm.outputs[1].state.overview_return = Some((pt(1.0, 1.0), F(1.0)));
    wm.outputs[1].state.momentum = Momentum {
        velocity: Some(pt(9.0, 9.0)),
    };
    wm.set_camera_anchor(1, pt(1000.0, 600.0), pt(640.0, 360.0), F(0.5));
    let state = &wm.outputs[1].state;
    assert_eq!(state.overview_return, None);
    assert_eq!(state.momentum.velocity, None);
    assert_eq!(state.zoom_target, Some(F(0.5)));
    assert_eq!(state.camera_target, Some(pt(-280.0, -120.0)));
    assert_eq!(state.camera, pt(0.0, 0.0));
    let anchor = state.zoom_animation_anchor.unwrap();
    assert_eq!(
        screen_to_canvas(anchor.screen, state.camera_target.unwrap(), F(0.5)),
        anchor.canvas
    );
    assert_eq!(wm.outputs[0], output("A", 1920, 1080));
}

#[test]
fn visibility_is_measured_on_the_asked_output() {
    let mut wm = two_outputs();
    wm.outputs[1].state.camera = pt(50.0, 60.0);
    wm.outputs[1].state.zoom = F(2.0);
    let window = StageWindow::Client(client(1, 400, 300));
    assert!(!wm.window_visible_at_least(&window, F(0.0)));
    // 300 of 400 wide, and its whole height, on the first output.
    wm.stage
        .map_window(1, Size { w: 400, h: 300 }, px(-100, 10), false);
    assert!(wm.window_visible_at_least(&window, F(0.75)));
    assert!(!wm.window_visible_at_least(&window, F(0.76)));
    // 250 of 400 wide, and 250 of 300 high, on the second.
    assert!(wm.window_visible_at_least_on(&window, 1, F(0.52)));
    assert!(!wm.window_visible_at_least_on(&window, 1, F(0.53)));
    let stand_in = StageWindow::Suspended(SuspendedWindow {
        id: 2,
        geometry: Size { w: 400, h: 300 },
    });
    assert!(!wm.window_visible_at_least_on(&stand_in, 1, F(0.0)));
    wm.focused_output = None;
    assert!(!wm.window_visible_at_least(&window, F(0.0)));
}

#[test]
fn the_visible_fraction_is_a_share_of_area() {
    let screen = Size { w: 1920, h: 1080 };
    let window = Size { w: 400, h: 300 };
    for (loc, camera, zoom, expected) in [
        (px(0, 0), pt(0.0, 0.0), 1.0, 1.0),
        (px(-200, 0), pt(0.0, 0.0), 1.0, 0.5),
        (px(-200, -150), pt(0.0, 0.0), 1.0, 0.25),
        (px(-400, 0), pt(0.0, 0.0), 1.0, 0.0),
        (px(5000, 5000), pt(0.0, 0.0), 1.0, 0.0),
        (px(5000, 5000), pt(4900.0, 4900.0), 1.0, 1.0),
        (px(1720, 0), pt(0.0, 0.0), 1.0, 0.5),
        // Half the canvas under twice the zoom, and twice under half.
        (px(860, 0), pt(0.0, 0.0), 2.0, 0.25),
        (px(1720, 0), pt(0.0, 0.0), 0.5, 1.0),
    ] {
        assert_eq!(
            visible_fraction(loc, window, camera, screen, F(zoom)),
            F(expected),
            "{loc:?} {camera:?} {zoom}"
        );
    }
    // A window larger than the screen shows at most what the screen holds.
    assert_eq!(
        visible_fraction(px(0, 0), Size { w: 3840, h: 2160 }, pt(0.0, 0.0), screen, F(1.0)),
        F(0.25)
    );
}

#[test]
fn nothing_shows_of_a_window_without_area() {
    let screen = Size { w: 1920, h: 1080 };
    for size in [Size { w: 0, h: 300 }, Size { w: 400, h: 0 }, Size { w: 0, h: 0 }] {
        assert_eq!(
            visible_fraction(px(0, 0), size, pt(0.0, 0.0), screen, F(1.0)),
            F(0.0)
        );
    }
}

/// In steps the fraction is cut below: 1/3 of the area, and no step more.
#[test]
fn a_visible_fraction_in_steps_is_cut_below() {
    let r = visible_fraction(
        px(-2, 0),
        Size { w: 3, h: 1 },
        Point {
            x: Fixed { steps: 0 },
            y: Fixed { steps: 0 },
        },
        Size { w: 10, h: 10 },
        Fixed { steps: ONE },
    );
    assert_eq!(r, Fixed { steps: ONE / 3 });
}

fn arm_distant_flight(state: &mut OutputState<F>) {
    state.camera_target = Some(pt(2000.0, 0.0));
    state.zoom_target = Some(F(2.0));
}

fn start_resize(wm: &mut DriftWm<F>, window: &mut Window) {
    let surface = window.surface.unwrap();
    wm.begin_client_resize(
        window,
        surface,
        ResizeEdge::Right,
        px(400, 300),
        Size { w: 400, h: 300 },
        None,
    );
}

#[test]
fn starting_a_client_resize_ends_the_camera_flight() {
    let mut wm = compositor(vec![output("A", 1920, 1080)]);
    let mut window = client(1, 400, 300);
    wm.stage.map_window(1, window.geometry, px(400, 300), true);
    wm.with_output_state(|state| arm_distant_flight(state));
    start_resize(&mut wm, &mut window);
    assert!(wm.camera_target().is_none(), "the pan is called off");
    assert!(wm.zoom_target().is_none(), "and so is the zoom");
}

#[test]
fn a_grab_install_ends_the_camera_flight_on_every_output() {
    let mut wm = two_outputs();
    let mut window = client(1, 400, 300);
    wm.stage.map_window(1, window.geometry, px(400, 300), true);
    assert_eq!(wm.active_output(), Some(0));
    arm_distant_flight(&mut wm.outputs[1].state);
    start_resize(&mut wm, &mut window);
    let state = &wm.outputs[1].state;
    assert!(state.camera_target.is_none() && state.zoom_target.is_none());
}

#[test]
fn a_resize_leaves_the_camera_and_the_edge_pan_alone() {
    let mut wm = two_outputs();
    let state = &mut wm.outputs[1].state;
    state.camera = pt(3.0, 4.0);
    state.zoom = F(0.5);
    state.edge_pan_velocity = Some(pt(-5.0, 0.0));
    state.momentum.velocity = Some(pt(1.0, 1.0));
    state.zoom_animation_anchor = Some(ZoomAnimationAnchor {
        canvas: pt(0.0, 0.0),
        screen: pt(0.0, 0.0),
    });
    wm.cancel_animations_everywhere();
    let state = &wm.outputs[1].state;
    assert_eq!(state.camera, pt(3.0, 4.0));
    assert_eq!(state.zoom, F(0.5));
    assert_eq!(state.edge_pan_velocity, Some(pt(-5.0, 0.0)));
    assert_eq!(state.momentum.velocity, None);
    assert_eq!(state.zoom_animation_anchor, None);
}

#[test]
fn a_resized_window_leaves_its_fit_and_its_fill() {
    let mut wm = compositor(vec![output("A", 1920, 1080)]);
    for id in [1, 2] {
        wm.stage
            .map_window(id, Size { w: 400, h: 300 }, px(400, 300), false);
    }
    for entry in wm.stage.windows.iter_mut() {
        entry.fit = true;
        entry.fill = true;
    }
    let mut window = client(1, 400, 300);
    window.toplevel = Some(Toplevel {
        pending_size: Some(Size { w: 9, h: 9 }),
        resizing: false,
        maximized: true,
    });
    wm.begin_client_resize(
        &mut window,
        101,
        ResizeEdge::TopLeft,
        px(400, 300),
        Size { w: 400, h: 300 },
        Some(px(7, 8)),
    );
    assert!(!wm.stage.windows[0].fit && !wm.stage.windows[0].fill);
    assert!(wm.stage.windows[1].fit && wm.stage.windows[1].fill);
    assert_eq!(
        window.toplevel,
        Some(Toplevel {
            pending_size: Some(Size { w: 9, h: 9 }),
            resizing: true,
            maximized: false,
        })
    );
    assert_eq!(
        wm.resize_states[&101],
        ResizeState::Resizing {
            edges: ResizeEdge::TopLeft,
            initial_window_location: px(400, 300),
            initial_window_size: Size { w: 400, h: 300 },
            initial_screen_pos: Some(px(7, 8)),
            last_committed_size: Size { w: 400, h: 300 },
        }
    );
}

#[test]
fn a_resize_of_a_window_without_a_toplevel_keeps_it_without() {
    let mut wm = compositor(vec![output("A", 1920, 1080)]);
    let mut window = client(1, 400, 300);
    window.toplevel = None;
    start_resize(&mut wm, &mut window);
    assert_eq!(window.toplevel, None);
    assert!(wm.resize_states.contains_key(&101));
    assert!(wm.stage.windows.is_empty());
}
