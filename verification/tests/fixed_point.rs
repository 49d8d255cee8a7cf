//! The fixed-point number, and the geometry computed in it.

use drift::fixed::{Fixed, ONE};
use drift::geometry::{lerp_rect, screen_to_canvas, Point, Rect, Size};
use drift::scalar::{advance, done_epsilon, half, lerp, unit_clamp, Scalar};
use drift::time::Instant;
use drift::window_animation::{
    content_scale, AnimSpace, ContentPolicy, GeometryRole, WindowAnimations,
};
use drift::window_frame::{frame_loc_for_center, visual_frame_center};

fn n(v: f64) -> Fixed {
    Fixed {
        steps: (v * ONE as f64) as i64,
    }
}

const MAX: Fixed = Fixed { steps: i64::MAX };
const MIN: Fixed = Fixed { steps: i64::MIN };

#[test]
fn arithmetic_saturates_and_drops_below_a_step() {
    assert_eq!(n(1.5).plus(n(2.25)), n(3.75));
    assert_eq!(n(1.5).minus(n(2.25)), n(-0.75));
    assert_eq!(n(1.5).times(n(-2.5)), n(-3.75));
    assert_eq!(n(7.5).over(n(-2.5)), n(-3.0));
    assert_eq!(n(-7.5).over(n(-2.5)), n(3.0));
    assert_eq!(Fixed { steps: 1 }.times(n(0.5)), n(0.0));
    assert_eq!(Fixed { steps: -1 }.times(n(0.5)), n(0.0));
    assert_eq!(Fixed { steps: -1 }.over(n(2.0)), n(0.0));
    assert_eq!(MAX.plus(n(1.0)), MAX);
    assert_eq!(MIN.plus(n(-1.0)), MIN);
    assert_eq!(MIN.minus(n(1.0)), MIN);
    assert_eq!(MAX.times(n(2.0)), MAX);
    assert_eq!(MAX.times(n(-2.0)), MIN);
    assert_eq!(MAX.over(n(-0.5)), MIN);
    assert_eq!(n(3.0).over(n(0.0)), MAX);
    assert_eq!(n(-3.0).over(n(0.0)), MIN);
    assert_eq!(n(0.0).over(n(0.0)), n(0.0));
    assert_eq!(n(-2.5).abs(), n(2.5));
    assert_eq!(n(2.5).abs(), n(2.5));
    assert_eq!(MIN.abs(), MAX);
}

#[test]
fn order_and_extremes() {
    assert!(n(1.0).lt(n(1.5)) && !n(1.5).lt(n(1.5)));
    assert!(n(1.5).le(n(1.5)) && !n(1.75).le(n(1.5)));
    assert_eq!(n(1.0).max(n(2.0)), n(2.0));
    assert_eq!(n(1.0).min(n(2.0)), n(1.0));
    assert_eq!(n(3.0).max(n(2.0)), n(3.0));
    assert_eq!(n(3.0).min(n(2.0)), n(2.0));
}

#[test]
fn integers_come_back_out() {
    assert_eq!(Fixed::from_i32(-7), n(-7.0));
    for (v, trunc, round, ceil) in [
        (2.5, 2, 3, 3),
        (-2.5, -2, -3, -2),
        (2.25, 2, 2, 3),
        (-2.75, -2, -3, -2),
        (4.0, 4, 4, 4),
        (-4.0, -4, -4, -4),
        (0.0, 0, 0, 0),
    ] {
        assert_eq!(n(v).trunc(), trunc);
        assert_eq!(n(v).round(), round);
        assert_eq!(n(v).ceil(), ceil);
    }
    assert_eq!(MAX.trunc(), i32::MAX);
    assert_eq!(MIN.round(), i32::MIN);
    assert_eq!(MAX.ceil(), i32::MAX);
    assert_eq!(Fixed::from_i32(i32::MIN).trunc(), i32::MIN);
}

#[test]
fn progress_and_interpolation() {
    assert_eq!(half(n(5.0)), n(2.5));
    assert_eq!(unit_clamp(n(-0.25)), n(0.0));
    assert_eq!(unit_clamp(n(0.25)), n(0.25));
    assert_eq!(unit_clamp(n(1.25)), n(1.0));
    assert_eq!(advance(n(0.5), n(0.25)), n(0.625));
    assert_eq!(lerp(n(10.0), n(-10.0), n(0.25)), n(5.0));
    assert_eq!(done_epsilon::<Fixed>().steps, ONE / 100);
    let from = Rect {
        loc: Point { x: n(0.0), y: n(8.0) },
        size: Size { w: n(4.0), h: n(4.0) },
    };
    let to = Rect {
        loc: Point { x: n(8.0), y: n(0.0) },
        size: Size { w: n(8.0), h: n(-12.0) },
    };
    assert_eq!(
        lerp_rect(from, to, n(0.5)),
        Rect {
            loc: Point { x: n(4.0), y: n(4.0) },
            size: Size { w: n(6.0), h: n(0.0) },
        }
    );
}

/// Progress rises to the end of a fade and no further.
#[test]
fn progress_arrives_and_stays() {
    let mut progress = n(0.0);
    let mut ticks = 0;
    while done_epsilon::<Fixed>().lt(Fixed::from_i32(1).minus(progress)) {
        let next = advance(progress, n(0.0001220703125));
        assert!(progress.lt(next));
        progress = next;
        ticks += 1;
        assert!(ticks < ONE);
    }
    assert!(progress.le(Fixed::from_i32(1)));
    assert_eq!(advance(Fixed::from_i32(1), n(0.5)), Fixed::from_i32(1));
}

#[test]
fn frames_round_trip_in_fixed_point() {
    for (x, y, w, h, bar) in [(3, 4, 5, 6, 7), (-1001, 20, 333, 1, 0), (0, 0, 0, 0, 25)] {
        let loc = Point { x, y };
        let size = Size { w, h };
        let center = visual_frame_center(loc, size, Fixed::from_i32(bar));
        assert_eq!(frame_loc_for_center(center, size, bar), loc);
    }
}

#[test]
fn the_camera_maps_the_screen_to_the_canvas() {
    let shown = screen_to_canvas(
        Point { x: n(100.0), y: n(-50.0) },
        Point { x: n(7.5), y: n(1.0) },
        n(0.25),
    );
    assert_eq!(shown, Point { x: n(407.5), y: n(-199.0) });
}

#[test]
fn a_merge_covers_both() {
    let a = Rect {
        loc: Point { x: n(0.0), y: n(0.0) },
        size: Size { w: n(10.0), h: n(10.0) },
    };
    let b = Rect {
        loc: Point { x: n(-5.0), y: n(8.0) },
        size: Size { w: n(3.0), h: n(8.0) },
    };
    let both = Rect {
        loc: Point { x: n(-5.0), y: n(0.0) },
        size: Size { w: n(15.0), h: n(16.0) },
    };
    assert_eq!(a.merged(b), both);
    assert_eq!(b.merged(a), both);
    assert_eq!(both.rounded().size, Size { w: 15, h: 16 });
}

#[test]
fn touching_is_not_overlapping() {
    let at = |x: i32, y: i32| Rect {
        loc: Point { x, y },
        size: Size { w: 10, h: 10 },
    };
    assert!(at(0, 0).overlaps(at(9, 9)));
    assert!(at(9, 9).overlaps(at(0, 0)));
    assert!(!at(0, 0).overlaps(at(10, 0)));
    assert!(!at(0, 0).overlaps(at(0, -10)));
    // An end past the last pixel is the last pixel.
    assert!(at(i32::MAX - 5, 0).overlaps(at(i32::MAX - 3, 0)));
}

#[test]
fn instants_are_ordered() {
    let start = Instant { nanos: 5 };
    assert_eq!(start.later(10), Instant { nanos: 15 });
    assert!(start.before(Instant { nanos: 6 }));
    assert!(!start.before(start));
}

#[test]
fn sizes_compare_on_both_axes() {
    let a = Size { w: 1, h: 2 };
    assert!(a.same(Size { w: 1, h: 2 }));
    assert!(!a.same(Size { w: 1, h: 3 }));
    assert!(!a.same(Size { w: 0, h: 2 }));
}

/// Further along its leg a picture is nearer to the end, and never past it.
#[test]
fn a_leg_only_approaches_its_end() {
    for (from, to) in [(-3.0, 900.0), (900.0, -3.0), (5.0, 5.0)] {
        let (from, to) = (n(from), n(to));
        let mut last = from;
        for step in 0..=64 {
            let at = lerp(from, to, n(step as f64 / 64.0));
            let left = to.minus(at).abs();
            assert!(left.le(to.minus(last).abs()));
            assert!(at.minus(from).abs().plus(left) == to.minus(from).abs());
            last = at;
        }
        assert_eq!(last, to);
    }
}

/// Content scaled by a cut quotient misses the drawn extent by less than it is long in
/// steps.
#[test]
fn content_fills_in_fixed_point() {
    for (drawn, committed) in [(700.0, 300.0), (1.0, 3.0), (5.0, 0.0), (0.0, 7.0)] {
        let (sx, _) = content_scale(
            Size { w: n(drawn), h: n(1.0) },
            Size { w: n(committed), h: n(1.0) },
            false,
        );
        let divisor = n(committed).max(n(1.0)).steps as i128;
        let off = sx.steps as i128 * divisor - n(drawn).steps as i128 * ONE as i128;
        assert!(-divisor < off && off < divisor);
    }
}

/// Moves over any distance and an opening take the same ticks, under uneven factors too.
#[test]
fn uneven_factors_settle_all_alike() {
    let mut animations: WindowAnimations<Fixed> = WindowAnimations::new();
    let extent = Size { w: n(40.0), h: n(30.0) };
    animations.start_open(3);
    for (id, x) in [(1, 0.25), (2, 5000.0)] {
        animations.start_geometry(
            id,
            Rect {
                loc: Point { x: n(x), y: n(0.0) },
                size: extent,
            },
            AnimSpace::Canvas,
            None,
            Size { w: 40, h: 30 },
            GeometryRole::Normal,
            false,
            ContentPolicy::Cap,
        );
    }
    let target = Point { x: n(0.0), y: n(0.0) };
    let mut factor = n(0.01);
    for tick in 0..200 {
        let now = Instant { nanos: tick };
        let kept = [1, 2, 3]
            .map(|id| animations.tick_entry(id, target, extent, factor, now, true));
        assert!(kept == [true; 3] || kept == [false; 3]);
        if !kept[0] {
            assert!(tick > 10);
            return;
        }
        factor = factor.plus(n(0.01));
    }
    panic!("nothing settled");
}

/// Whatever the factors, an opening grows about the center of its live rectangle, to within
/// half a step, and neither its opacity nor its extent ever falls.
#[test]
fn an_opening_in_steps_grows_about_its_center() {
    let mut animations: WindowAnimations<Fixed> = WindowAnimations::new();
    animations.start_open(1);
    let loc = Point { x: n(-3.25), y: MIN };
    let extent = Size { w: n(401.0), h: MAX };
    let open_scale = n(0.5);
    let mut last = animations.animated_visual(1, loc, extent, open_scale);
    assert_eq!(last.alpha, n(0.0));
    assert_eq!(last.size.w, n(200.5));
    for (tick, factor) in [0.3, 0.0, 0.01, 0.77, 1.0].into_iter().enumerate() {
        let now = Instant { nanos: tick as u64 };
        animations.tick_entry(1, loc, extent, n(factor), now, true);
        let drawn = animations.animated_visual(1, loc, extent, open_scale);
        let twice = |at: Fixed, long: Fixed| 2 * i128::from(at.steps) + i128::from(long.steps);
        let x_off = twice(drawn.loc.x, drawn.size.w) - twice(loc.x, extent.w);
        let y_off = twice(drawn.loc.y, drawn.size.h) - twice(loc.y, extent.h);
        assert!(x_off.abs() <= 1 && y_off.abs() <= 1);
        assert!(last.alpha.le(drawn.alpha) && drawn.alpha.le(n(1.0)));
        assert!(last.size.w.le(drawn.size.w) && drawn.size.w.le(extent.w));
        assert!(!drawn.cap_content);
        last = drawn;
    }
    assert_eq!(last.alpha, n(1.0));
    assert_eq!((last.loc, last.size), (loc, extent));
}
