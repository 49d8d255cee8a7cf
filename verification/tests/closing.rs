//! Pictures of closing windows, from the capture of their surfaces to how an output draws
//! the fading snapshot.

use drift::closing::{
    bake_surface, capture_close_pixels, child_origin, fits_screen, flatten,
    render_snapshots_for_output, snapshot_canvas, snapshot_screen, AdoptionFade, BakedSurface,
    ClosePixels, ClosingElement, ClosingSnapshot, SurfaceView,
};
use drift::geometry::{Point, Rect, Size};
use drift::scalar::Scalar;

#[derive(Clone, Copy, Debug, PartialEq, PartialOrd)]
struct F(f64);

impl Scalar for F {
    fn plus(self, rhs: Self) -> Self {
        F(self.0 + rhs.0)
    }
    fn minus(self, rhs: Self) -> Self {
        F(self.0 - rhs.0)
    }
    fn times(self, rhs: Self) -> Self {
        F(self.0 * rhs.0)
    }
    fn over(self, rhs: Self) -> Self {
        F(self.0 / rhs.0)
    }
    fn abs(self) -> Self {
        F(self.0.abs())
    }
    fn max(self, rhs: Self) -> Self {
        F(self.0.max(rhs.0))
    }
    fn min(self, rhs: Self) -> Self {
        F(self.0.min(rhs.0))
    }
    fn lt(self, rhs: Self) -> bool {
        self.0 < rhs.0
    }
    fn le(self, rhs: Self) -> bool {
        self.0 <= rhs.0
    }
    fn from_i32(v: i32) -> Self {
        F(v as f64)
    }
    fn trunc(self) -> i32 {
        self.0 as i32
    }
    fn round(self) -> i32 {
        self.0.round() as i32
    }
    fn ceil(self) -> i32 {
        self.0.ceil() as i32
    }
}

fn pt(x: f64, y: f64) -> Point<F> {
    Point { x: F(x), y: F(y) }
}

fn size(w: f64, h: f64) -> Size<F> {
    Size { w: F(w), h: F(h) }
}

fn rect(x: f64, y: f64, w: f64, h: f64) -> Rect<F> {
    Rect {
        loc: pt(x, y),
        size: size(w, h),
    }
}

fn px(x: i32, y: i32, w: i32, h: i32) -> Rect<i32> {
    Rect {
        loc: Point { x, y },
        size: Size { w, h },
    }
}

fn view(x: i32, y: i32, w: i32, h: i32) -> SurfaceView<F> {
    SurfaceView {
        offset: Point { x, y },
        src: rect(0.0, 0.0, w as f64, h as f64),
        dst: Size { w, h },
    }
}

fn baked(buffer: u32, x: f64, y: f64, w: i32, h: i32) -> BakedSurface<F, u32> {
    BakedSurface {
        buffer,
        location: pt(x, y),
        src: rect(0.0, 0.0, w as f64, h as f64),
        dst: Size { w, h },
    }
}

/// A window of 400x300 with a popup that sticks out to the left of it.
fn two_surfaces() -> ClosePixels<F, u32> {
    capture_close_pixels(vec![
        baked(1, -50.0, 10.0, 100, 80),
        baked(2, 0.0, 0.0, 400, 300),
    ])
    .unwrap()
}

#[test]
fn children_are_placed_from_their_parent() {
    assert_eq!(
        child_origin(Some(view(10, -4, 100, 80)), pt(1.5, 2.0)),
        Some(pt(11.5, -2.0))
    );
    let hidden: Option<SurfaceView<F>> = None;
    assert_eq!(child_origin(hidden, pt(1.5, 2.0)), None);
}

#[test]
fn a_surface_is_captured_only_with_a_view_and_a_texture() {
    let surface = bake_surface(Some(view(10, -4, 100, 80)), pt(1.5, 2.0), Some(9u32));
    assert_eq!(
        surface,
        Some(BakedSurface {
            buffer: 9,
            location: pt(11.5, -2.0),
            src: rect(0.0, 0.0, 100.0, 80.0),
            dst: Size { w: 100, h: 80 },
        })
    );
    let none: Option<u32> = None;
    assert_eq!(bake_surface(Some(view(0, 0, 1, 1)), pt(0.0, 0.0), none), None);
    let hidden: Option<SurfaceView<F>> = None;
    assert_eq!(bake_surface(hidden, pt(0.0, 0.0), Some(9u32)), None);
}

#[test]
fn a_window_that_never_drew_leaves_no_pixels() {
    let none: Vec<BakedSurface<F, u32>> = Vec::new();
    assert!(capture_close_pixels(none).is_none());
    assert!(capture_close_pixels(vec![baked(1, 5.0, 5.0, 0, 30)]).is_none());
    assert!(capture_close_pixels(vec![baked(1, 5.0, 5.0, 30, 0)]).is_none());
}

#[test]
fn bounds_cover_every_surface() {
    let pixels = two_surfaces();
    assert_eq!(pixels.bounds, rect(-50.0, 0.0, 450.0, 300.0));
    assert_eq!(pixels.surfaces.len(), 2);
    // A surface without an extent counts by its corner.
    let pixels = capture_close_pixels(vec![
        baked(1, 0.0, 0.0, 400, 300),
        baked(2, 500.0, -20.0, 0, 0),
    ])
    .unwrap();
    assert_eq!(pixels.bounds, rect(0.0, -20.0, 500.0, 320.0));
}

#[test]
fn a_plan_paints_from_the_bottom_up() {
    let plan = flatten(&two_surfaces(), F(2.0), None).unwrap();
    assert_eq!(plan.bounds, rect(-50.0, 0.0, 450.0, 300.0));
    assert_eq!(plan.size, Size { w: 900, h: 600 });
    assert_eq!(
        plan.paint,
        vec![(1, pt(100.0, 0.0)), (0, pt(0.0, 20.0))],
        "the window first, its popup over it"
    );
    assert_eq!(plan.bar, None);
}

#[test]
fn a_plan_with_a_title_bar_covers_it_too() {
    let plan = flatten(&two_surfaces(), F(1.5), Some(rect(0.0, -24.6, 400.0, 24.6))).unwrap();
    assert_eq!(plan.bounds.loc, pt(-50.0, -24.6));
    assert_eq!(plan.size, Size { w: 675, h: 487 });
    assert_eq!(
        plan.bar,
        Some((pt(75.0, 0.0), Size { w: 400, h: 25 })),
        "its size is rounded, its place is not"
    );
}

#[test]
fn a_texture_without_extent_is_not_planned() {
    assert!(flatten(&two_surfaces(), F(0.0), None).is_none());
    assert!(flatten(&two_surfaces(), F(-1.0), None).is_none());
    assert!(flatten(&two_surfaces(), F(0.001), None).is_some());
}

#[test]
fn a_close_bake_never_rasterizes_below_logical_resolution() {
    let pixels = capture_close_pixels(vec![baked(1, 0.0, 0.0, 400, 300)]).unwrap();
    for (scale, expected) in [
        (0.5, Size { w: 400, h: 300 }),
        (1.0, Size { w: 400, h: 300 }),
        (2.0, Size { w: 800, h: 600 }),
    ] {
        let snapshot = snapshot_canvas(
            &pixels,
            pt(100.0, 100.0),
            F(scale),
            F(0.8),
            false,
            None,
            |plan| Some(plan.size),
        )
        .unwrap();
        assert_eq!(snapshot.buffer, expected);
        let snapshot = snapshot_screen(
            &pixels,
            "HDMI-1".to_string(),
            Point { x: 100, y: 100 },
            F(scale),
            F(0.8),
            false,
            None,
            |plan| Some(plan.size),
        )
        .unwrap();
        assert_eq!(snapshot.buffer, expected);
    }
}

#[test]
fn a_canvas_snapshot_covers_what_the_window_did() {
    let bar = Some(rect(0.0, -24.0, 400.0, 24.0));
    let snapshot = snapshot_canvas(
        &two_surfaces(),
        pt(1000.0, 500.0),
        F(1.0),
        F(0.8),
        true,
        bar,
        |_| Some(3u8),
    )
    .unwrap();
    assert_eq!(
        snapshot,
        ClosingSnapshot {
            buffer: 3,
            canvas_rect: rect(950.0, 476.0, 450.0, 324.0),
            pinned: None,
            alpha_only: true,
            scale_amplitude: F(0.8),
            progress: F(0.0),
        }
    );
    assert_eq!(snapshot.canvas_rect(), rect(950.0, 476.0, 450.0, 324.0));
    assert_eq!(snapshot.pinned_output(), None);
}

#[test]
fn a_screen_snapshot_rounds_its_rect() {
    let pixels = capture_close_pixels(vec![baked(1, -2.5, 1.4, 400, 300)]).unwrap();
    let snapshot = snapshot_screen(
        &pixels,
        "HDMI-1".to_string(),
        Point { x: 100, y: 50 },
        F(1.0),
        F(0.8),
        false,
        None,
        |_| Some(3u8),
    )
    .unwrap();
    assert_eq!(
        snapshot,
        ClosingSnapshot {
            buffer: 3,
            canvas_rect: rect(0.0, 0.0, 0.0, 0.0),
            pinned: Some(("HDMI-1".to_string(), px(97, 51, 400, 300))),
            alpha_only: false,
            scale_amplitude: F(0.8),
            progress: F(0.0),
        }
    );
    assert_eq!(snapshot.pinned_output(), Some("HDMI-1"));
}

#[test]
fn a_snapshot_fits_where_its_corner_is_a_pixel_position() {
    let pixels = capture_close_pixels(vec![baked(1, -2.5, 1.4, 400, 300)]).unwrap();
    let at = |x: i32, y: i32| fits_screen(&pixels, Point { x, y }, F(1.0), None);
    assert!(at(100, 50));
    assert!(at(i32::MIN + 3, i32::MAX - 1));
    assert!(!at(i32::MIN + 2, 50));
    assert!(!at(100, i32::MAX));
    // A title bar moves the corner.
    let bar = Some(rect(0.0, -24.0, 400.0, 24.0));
    let high = Point { x: 100, y: i32::MIN };
    assert!(fits_screen(&pixels, high, F(1.0), None));
    assert!(!fits_screen(&pixels, high, F(1.0), bar));
    // Without a snapshot there is no corner to place.
    let flat: ClosePixels<F, u8> = ClosePixels {
        surfaces: vec![],
        bounds: rect(-2.5, 1.4, 400.0, 0.0),
    };
    let corner = Point { x: i32::MIN, y: 50 };
    assert!(fits_screen(&flat, corner, F(1.0), None));
}

#[test]
fn a_failed_rasterization_leaves_no_snapshot() {
    let pixels = two_surfaces();
    let none: Option<ClosingSnapshot<F, u8>> =
        snapshot_canvas(&pixels, pt(0.0, 0.0), F(1.0), F(0.8), false, None, |_| None);
    assert!(none.is_none());
    let none: Option<ClosingSnapshot<F, u8>> = snapshot_screen(
        &pixels,
        "HDMI-1".to_string(),
        Point { x: 0, y: 0 },
        F(1.0),
        F(0.8),
        false,
        None,
        |_| None,
    );
    assert!(none.is_none());
}

fn on_canvas(x: f64, y: f64, w: f64, h: f64) -> ClosingSnapshot<F, u8> {
    ClosingSnapshot::on_canvas(0, rect(0.0, 0.0, w, h), pt(x, y), F(0.5), false)
}

fn on_screen(output: &str, x: i32, y: i32) -> ClosingSnapshot<F, u8> {
    ClosingSnapshot::on_screen(
        0,
        rect(0.0, 0.0, 200.0, 100.0),
        output.to_string(),
        Point { x, y },
        F(0.5),
        false,
    )
}

#[test]
fn a_canvas_snapshot_is_placed_through_the_camera() {
    let mut snapshot = on_canvas(100.0, 80.0, 201.0, 50.0);
    let output = "A".to_string();
    let fresh = snapshot
        .render_element(&output, pt(20.0, 30.0), F(0.5), F(2.0))
        .unwrap();
    assert_eq!(
        fresh,
        ClosingElement {
            loc: pt(80.0, 50.0),
            size: Size { w: 101, h: 25 },
            alpha: F(1.0),
            center: pt(180.5, 75.0),
            scale: F(1.0),
        }
    );
    snapshot.tick(F(0.5));
    let later = snapshot
        .render_element(&output, pt(20.0, 30.0), F(0.5), F(2.0))
        .unwrap();
    assert_eq!(later.alpha, F(0.5));
    assert_eq!(later.scale, F(0.75));
    assert_eq!(later.loc, fresh.loc);
}

#[test]
fn a_crossfade_keeps_its_size() {
    let mut snapshot = on_canvas(0.0, 0.0, 10.0, 10.0);
    snapshot.alpha_only = true;
    snapshot.tick(F(0.5));
    let drawn = snapshot
        .render_element(&"A".to_string(), pt(0.0, 0.0), F(1.0), F(1.0))
        .unwrap();
    assert_eq!(drawn.scale, F(1.0));
    assert_eq!(drawn.alpha, F(0.5));
}

#[test]
fn a_screen_snapshot_is_drawn_on_its_own_output_only() {
    let snapshot = on_screen("A", 30, 40);
    let here = snapshot
        .render_element(&"A".to_string(), pt(999.0, 999.0), F(0.25), F(2.0))
        .unwrap();
    assert_eq!(here.loc, pt(60.0, 80.0));
    assert_eq!(here.size, Size { w: 200, h: 100 });
    assert_eq!(here.center, pt(260.0, 180.0));
    assert!(snapshot
        .render_element(&"B".to_string(), pt(0.0, 0.0), F(1.0), F(1.0))
        .is_none());
}

#[test]
fn an_output_draws_what_shows_there_in_order() {
    let snapshots = vec![
        on_canvas(100.0, 100.0, 50.0, 50.0),
        on_screen("B", 0, 0),
        on_canvas(5000.0, 100.0, 50.0, 50.0),
        on_screen("A", 0, 0),
        on_canvas(-49.6, 10.0, 50.0, 50.0),
        on_canvas(-51.4, 10.0, 50.0, 50.0),
    ];
    let drawn = |output: &str| -> Vec<usize> {
        render_snapshots_for_output(
            &snapshots,
            &output.to_string(),
            px(0, 0, 1920, 1080),
            pt(0.0, 0.0),
            F(1.0),
            F(1.0),
        )
        .into_iter()
        .map(|(k, _)| k)
        .collect()
    };
    // A rectangle that rounds to one just outside only touches what is visible.
    assert_eq!(drawn("A"), vec![0, 3]);
    assert_eq!(drawn("B"), vec![0, 1]);
    assert_eq!(drawn("C"), vec![0]);
    let elements = render_snapshots_for_output(
        &snapshots,
        &"A".to_string(),
        px(-1, 0, 1920, 1080),
        pt(0.0, 0.0),
        F(1.0),
        F(1.0),
    );
    assert_eq!(elements.len(), 3);
    assert_eq!(elements[2].0, 4);
    assert_eq!(elements[2].1.loc, pt(-49.6, 10.0));
}

#[test]
fn a_fade_is_done_within_a_percent_of_the_end() {
    let mut snapshot = on_canvas(0.0, 0.0, 10.0, 10.0);
    assert!(!snapshot.is_done());
    snapshot.progress = F(0.985);
    assert!(!snapshot.is_done());
    snapshot.progress = F(0.995);
    assert!(snapshot.is_done());

    let mut ticks = 0;
    snapshot.progress = F(0.0);
    while !snapshot.is_done() {
        snapshot.tick(F(0.2));
        ticks += 1;
        assert!(ticks < 100);
    }
    assert_eq!(ticks, 21);
}

#[test]
fn an_adopted_stand_in_fades_out() {
    let mut fade = AdoptionFade {
        suspended: "stand-in",
        loc: Point { x: 5, y: 6 },
        progress: F(0.0),
    };
    assert_eq!(fade.alpha(), F(1.0));
    assert!(!fade.is_done());
    fade.tick(F(0.75));
    assert_eq!(fade.alpha(), F(0.25));
    assert_eq!(fade.progress, F(0.75));
    assert_eq!(fade.suspended, "stand-in");
    fade.tick(F(1.0));
    assert_eq!(fade.alpha(), F(0.0));
    assert!(fade.is_done());
    fade.progress = F(1.5);
    assert_eq!(fade.alpha(), F(0.0));
    fade.progress = F(-0.5);
    assert_eq!(fade.alpha(), F(1.0));
}

/// The part of a painted surface that lies on the texture, relative to the surface.
#[test]
fn what_sticks_out_of_the_texture_is_not_painted() {
    let texture = Size { w: 100, h: 80 };
    assert_eq!(
        px(-10, 70, 50, 50).part_on(texture),
        Some(px(10, 0, 40, 10))
    );
    assert_eq!(px(10, 20, 30, 40).part_on(texture), Some(px(0, 0, 30, 40)));
    assert_eq!(px(100, 0, 10, 10).part_on(texture), None);
    assert_eq!(px(-10, 0, 10, 10).part_on(texture), None);
    assert_eq!(
        px(i32::MAX - 5, 0, 10, 10).part_on(Size {
            w: i32::MAX,
            h: 80
        }),
        Some(px(0, 0, 5, 10))
    );
}
