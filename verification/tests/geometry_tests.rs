use selfdriving_car::fixed::ONE;
use selfdriving_car::fixed::SCALE;
use selfdriving_car::geometry::Point;
use selfdriving_car::geometry::Ratio;
use selfdriving_car::geometry::ratio_equal;
use selfdriving_car::geometry::ratio_less;
use selfdriving_car::geometry::ratio_to_fixed;
use selfdriving_car::geometry::ray_vs_rectangle;
use selfdriving_car::geometry::segment_intersection;
use selfdriving_car::lerp;

fn pt(x: i64, y: i64) -> Point {
    Point { x, y }
}

#[test]
fn segments_crossing_at_known_point() {
    // Diagonals of a 10x10 square cross at (5, 5) with t = 0.5.
    let r = segment_intersection(pt(0, 0), pt(10_000, 10_000), pt(0, 10_000), pt(10_000, 0));
    let (point, t) = r.expect("diagonals must cross");
    assert_eq!(t.num, 100_000_000);
    assert_eq!(t.den, 200_000_000);
    assert_eq!(ratio_to_fixed(&t), 500);
    assert_eq!(point.x.num / point.x.den, 5_000);
    assert_eq!(point.y.num / point.y.den, 5_000);
}

#[test]
fn parallel_segments_never_intersect() {
    for offset in [1i64, 5_000, -3_000, 123_456] {
        let r = segment_intersection(
            pt(0, 0),
            pt(10_000, 0),
            pt(0, offset),
            pt(10_000, offset),
        );
        assert!(r.is_none());
    }
}

#[test]
fn degenerate_segment_reports_nothing() {
    let r = segment_intersection(pt(5, 5), pt(5, 5), pt(0, 0), pt(10, 10));
    assert!(r.is_none());
}

#[test]
fn intersection_outside_segment_bounds_is_none() {
    // The lines cross, but beyond the end of the first segment.
    let r = segment_intersection(pt(0, 0), pt(1_000, 0), pt(5_000, -1_000), pt(5_000, 1_000));
    assert!(r.is_none());
}

#[test]
fn ray_at_rectangle_center_hits_near_edge() {
    // Ray straight up for 10 units; rectangle centered 5 units ahead with
    // half extent 1: the near edge sits at 4 units, so t = 0.4.
    let r = ray_vs_rectangle(
        pt(0, 0),
        pt(0, SCALE),
        10_000,
        pt(0, 5_000),
        pt(1_000, 1_000),
    );
    let (point, t) = r.expect("ray aimed at the center must hit");
    assert_eq!(t.num * 5, t.den * 2);
    assert_eq!(point.y.num / point.y.den, 4_000);
    assert_eq!(point.x.num, 0);
}

#[test]
fn ray_aimed_away_misses() {
    let r = ray_vs_rectangle(
        pt(0, 0),
        pt(0, -SCALE),
        10_000,
        pt(0, 5_000),
        pt(1_000, 1_000),
    );
    assert!(r.is_none());
}

#[test]
fn ray_too_short_misses() {
    let r = ray_vs_rectangle(pt(0, 0), pt(0, SCALE), 3_000, pt(0, 5_000), pt(1_000, 1_000));
    assert!(r.is_none());
}

#[test]
fn ratio_comparisons_are_exact() {
    let half = Ratio { num: 1, den: 2 };
    let two_thirds = Ratio { num: 2, den: 3 };
    let same_half = Ratio { num: 3, den: 6 };
    assert!(ratio_less(&half, &two_thirds));
    assert!(!ratio_less(&two_thirds, &half));
    assert!(ratio_equal(&half, &same_half));
    assert!(!ratio_equal(&half, &two_thirds));
}

#[test]
fn ratio_to_fixed_rounds_down() {
    assert_eq!(ratio_to_fixed(&Ratio { num: 2, den: 5 }), 400);
    assert_eq!(ratio_to_fixed(&Ratio { num: 0, den: 7 }), 0);
    assert_eq!(ratio_to_fixed(&Ratio { num: 7, den: 7 }), 1_000);
    assert_eq!(ratio_to_fixed(&Ratio { num: 1, den: 3 }), 333);
}

#[test]
fn lerp_endpoints_and_midpoint() {
    assert_eq!(lerp(0, ONE, 500), 500);
    assert_eq!(lerp(-500, 500, 250), -250);
    assert_eq!(lerp(123, 456, 0), 123);
    assert_eq!(lerp(123, 456, ONE), 456);
    assert_eq!(lerp(456, -789, ONE), -789);
}
