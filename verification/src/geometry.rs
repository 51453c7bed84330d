//! Geometry kernel: exact segment/segment intersection and ray-vs-rectangle
//! nearest-hit resolution.
//!
//! Coordinates are fixed-point `i64` values. The intersection parameter `t`
//! and the intersection point are exact rationals (`Ratio`), so the kernel
//! needs no tolerance: parallel segments (zero denominator) report no
//! intersection, and the unit-interval tests on the parametric coordinates
//! are exact sign tests on integers.
use vstd::prelude::*;

use crate::fixed::SCALE;
use crate::fixed::tdiv;

verus! {

/// A point of the plane, in fixed-point coordinates.
#[derive(Clone, Copy, PartialEq, Eq, Structural, Debug)]
pub struct Point {
    pub x: i64,
    pub y: i64,
}

/// An exact rational with a positive denominator.
#[derive(Clone, Copy, PartialEq, Eq, Structural, Debug)]
pub struct Ratio {
    pub num: i128,
    pub den: i128,
}

/// A point with exact rational coordinates.
#[derive(Clone, Copy, PartialEq, Eq, Structural, Debug)]
pub struct RatioPoint {
    pub x: Ratio,
    pub y: Ratio,
}

/// Largest coordinate magnitude the kernel accepts. Within this bound every
/// intermediate product of the intersection formulas fits in `i128`.
pub const COORD_LIMIT: i64 = 1_000_000_000;

pub open spec fn coord_ok(p: Point) -> bool {
    -COORD_LIMIT <= p.x <= COORD_LIMIT && -COORD_LIMIT <= p.y <= COORD_LIMIT
}

/// Largest denominator a segment intersection can produce from coordinates
/// within `COORD_LIMIT`: eight times the square of the coordinate bound.
pub open spec fn den_bound() -> int {
    8_000_000_000_000_000_000
}

pub open spec fn ratio_wf(r: Ratio) -> bool {
    0 < r.den <= den_bound()
}

/// The rational lies in the closed unit interval.
pub open spec fn ratio_in_unit(r: Ratio) -> bool {
    0 <= r.num <= r.den
}

/// Exact comparison of two rationals with positive denominators.
pub open spec fn ratio_lt(a: Ratio, b: Ratio) -> bool {
    a.num * b.den < b.num * a.den
}

/// Exact equality of the values of two rationals with positive denominators.
pub open spec fn ratio_eq_val(a: Ratio, b: Ratio) -> bool {
    a.num * b.den == b.num * a.den
}

pub open spec fn iabs(a: int) -> int {
    if a >= 0 {
        a
    } else {
        -a
    }
}

/// Numerator adjusted so that the denominator `d` can be replaced by `iabs(d)`.
pub open spec fn norm_num(n: int, d: int) -> int {
    if d >= 0 {
        n
    } else {
        -n
    }
}

/// `n / d` lies in the closed unit interval.
pub open spec fn in_unit(n: int, d: int) -> bool {
    if d > 0 {
        0 <= n <= d
    } else {
        d <= n <= 0
    }
}

/// Denominator of the parametric intersection of segments (p1,p2) and (q1,q2):
/// the cross product of the two direction vectors. Zero exactly when the
/// segments are parallel (or degenerate).
pub open spec fn seg_den(p1: Point, p2: Point, q1: Point, q2: Point) -> int {
    (p1.x - p2.x) * (q1.y - q2.y) - (p1.y - p2.y) * (q1.x - q2.x)
}

/// Numerator of `t`, the fractional position of the intersection along (p1,p2).
pub open spec fn seg_t_num(p1: Point, p2: Point, q1: Point, q2: Point) -> int {
    (p1.x - q1.x) * (q1.y - q2.y) - (p1.y - q1.y) * (q1.x - q2.x)
}

/// Numerator of `u`, the fractional position of the intersection along (q1,q2).
pub open spec fn seg_u_num(p1: Point, p2: Point, q1: Point, q2: Point) -> int {
    -((p1.x - p2.x) * (p1.y - q1.y) - (p1.y - p2.y) * (p1.x - q1.x))
}

/// The exact result of the segment intersection: `None` when the segments are
/// parallel or either parametric coordinate falls outside [0,1]; otherwise the
/// intersection point and `t`, both over the (normalized, positive)
/// denominator.
pub open spec fn seg_hit_spec(p1: Point, p2: Point, q1: Point, q2: Point) -> Option<(
    RatioPoint,
    Ratio,
)> {
    let d = seg_den(p1, p2, q1, q2);
    let tn = seg_t_num(p1, p2, q1, q2);
    let un = seg_u_num(p1, p2, q1, q2);
    if d != 0 && in_unit(tn, d) && in_unit(un, d) {
        let nd = iabs(d);
        let nt = norm_num(tn, d);
        Some(
            (
                RatioPoint {
                    x: Ratio {
                        num: (p1.x * nd + nt * (p2.x - p1.x)) as i128,
                        den: nd as i128,
                    },
                    y: Ratio {
                        num: (p1.y * nd + nt * (p2.y - p1.y)) as i128,
                        den: nd as i128,
                    },
                },
                Ratio { num: nt as i128, den: nd as i128 },
            ),
        )
    } else {
        None
    }
}

/// The product of two values stays within the product of their bounds.
pub proof fn lemma_mul_abs_bound(x: int, y: int, bx: int, by: int)
    by (nonlinear_arith)
    requires
        -bx <= x <= bx,
        -by <= y <= by,
    ensures
        -(bx * by) <= x * y <= bx * by,
{
}

/// Parametric line-segment intersection. Returns the intersection point and
/// the fraction `t` along (p1,p2), or `None` for parallel segments or an
/// intersection outside either segment.
pub fn segment_intersection(p1: Point, p2: Point, q1: Point, q2: Point) -> (r: Option<
    (RatioPoint, Ratio),
>)
    requires
        coord_ok(p1),
        coord_ok(p2),
        coord_ok(q1),
        coord_ok(q2),
    ensures
        r == seg_hit_spec(p1, p2, q1, q2),
        r matches Some(h) ==> ratio_wf(h.1) && ratio_in_unit(h.1) && h.0.x.den == h.1.den
            && h.0.y.den == h.1.den,
{
    let rsx = p1.x as i128;
    let rsy = p1.y as i128;
    let rex = p2.x as i128;
    let rey = p2.y as i128;
    let qsx = q1.x as i128;
    let qsy = q1.y as i128;
    let qex = q2.x as i128;
    let qey = q2.y as i128;
    proof {
        lemma_mul_abs_bound(rsx - rex, qsy - qey, 2_000_000_000, 2_000_000_000);
        lemma_mul_abs_bound(rsy - rey, qsx - qex, 2_000_000_000, 2_000_000_000);
        lemma_mul_abs_bound(rsx - qsx, qsy - qey, 2_000_000_000, 2_000_000_000);
        lemma_mul_abs_bound(rsy - qsy, qsx - qex, 2_000_000_000, 2_000_000_000);
        lemma_mul_abs_bound(rsx - rex, rsy - qsy, 2_000_000_000, 2_000_000_000);
        lemma_mul_abs_bound(rsy - rey, rsx - qsx, 2_000_000_000, 2_000_000_000);
    }
    let den = (rsx - rex) * (qsy - qey) - (rsy - rey) * (qsx - qex);
    if den == 0 {
        return None;
    }
    let t_num = (rsx - qsx) * (qsy - qey) - (rsy - qsy) * (qsx - qex);
    let u_num = -((rsx - rex) * (rsy - qsy) - (rsy - rey) * (rsx - qsx));
    let nd: i128 = if den > 0 {
        den
    } else {
        -den
    };
    let nt: i128 = if den > 0 {
        t_num
    } else {
        -t_num
    };
    let nu: i128 = if den > 0 {
        u_num
    } else {
        -u_num
    };
    if !(0 <= nt && nt <= nd && 0 <= nu && nu <= nd) {
        return None;
    }
    proof {
        lemma_mul_abs_bound(
            rsx as int,
            nd as int,
            1_000_000_000,
            8_000_000_000_000_000_000,
        );
        lemma_mul_abs_bound(
            rsy as int,
            nd as int,
            1_000_000_000,
            8_000_000_000_000_000_000,
        );
        lemma_mul_abs_bound(nt as int, rex - rsx, 8_000_000_000_000_000_000, 2_000_000_000);
        lemma_mul_abs_bound(nt as int, rey - rsy, 8_000_000_000_000_000_000, 2_000_000_000);
    }
    let px = rsx * nd + nt * (rex - rsx);
    let py = rsy * nd + nt * (rey - rsy);
    Some(
        (
            RatioPoint { x: Ratio { num: px, den: nd }, y: Ratio { num: py, den: nd } },
            Ratio { num: nt, den: nd },
        ),
    )
}

/// Exact strict comparison of two unit-interval rationals.
pub fn ratio_less(a: &Ratio, b: &Ratio) -> (r: bool)
    requires
        ratio_wf(*a),
        ratio_wf(*b),
        ratio_in_unit(*a),
        ratio_in_unit(*b),
    ensures
        r == ratio_lt(*a, *b),
{
    proof {
        lemma_mul_abs_bound(
            a.num as int,
            b.den as int,
            8_000_000_000_000_000_000,
            8_000_000_000_000_000_000,
        );
        lemma_mul_abs_bound(
            b.num as int,
            a.den as int,
            8_000_000_000_000_000_000,
            8_000_000_000_000_000_000,
        );
    }
    a.num * b.den < b.num * a.den
}

/// Exact value equality of two unit-interval rationals.
pub fn ratio_equal(a: &Ratio, b: &Ratio) -> (r: bool)
    requires
        ratio_wf(*a),
        ratio_wf(*b),
        ratio_in_unit(*a),
        ratio_in_unit(*b),
    ensures
        r == ratio_eq_val(*a, *b),
{
    proof {
        lemma_mul_abs_bound(
            a.num as int,
            b.den as int,
            8_000_000_000_000_000_000,
            8_000_000_000_000_000_000,
        );
        lemma_mul_abs_bound(
            b.num as int,
            a.den as int,
            8_000_000_000_000_000_000,
            8_000_000_000_000_000_000,
        );
    }
    a.num * b.den == b.num * a.den
}

/// The tip of a ray of length `len` cast from `origin` along the fixed-point
/// unit vector `dir`.
pub open spec fn ray_end_spec(origin: Point, dir: Point, len: int) -> Point {
    Point {
        x: (origin.x + tdiv(dir.x * len, SCALE as int)) as i64,
        y: (origin.y + tdiv(dir.y * len, SCALE as int)) as i64,
    }
}

/// One of the four boundary segments of an axis-aligned rectangle, in the
/// order they are examined: left, top, right, bottom.
pub open spec fn rect_side(center: Point, half: Point, i: int) -> (Point, Point) {
    let minx = (center.x - half.x) as i64;
    let miny = (center.y - half.y) as i64;
    let maxx = (center.x + half.x) as i64;
    let maxy = (center.y + half.y) as i64;
    if i == 0 {
        (Point { x: minx, y: miny }, Point { x: minx, y: maxy })
    } else if i == 1 {
        (Point { x: minx, y: maxy }, Point { x: maxx, y: maxy })
    } else if i == 2 {
        (Point { x: maxx, y: maxy }, Point { x: maxx, y: miny })
    } else {
        (Point { x: maxx, y: miny }, Point { x: minx, y: miny })
    }
}

/// Keep the nearer of two candidate hits; on an exact tie the earlier side
/// wins.
pub open spec fn better_hit(
    cur: Option<(RatioPoint, Ratio)>,
    new: Option<(RatioPoint, Ratio)>,
) -> Option<(RatioPoint, Ratio)> {
    match (cur, new) {
        (Option::None, _) => new,
        (_, Option::None) => cur,
        (Option::Some(c), Option::Some(n)) => if ratio_lt(n.1, c.1) {
            new
        } else {
            cur
        },
    }
}

/// Nearest hit of the ray against the first `i` rectangle sides.
pub open spec fn rect_hit_upto(
    origin: Point,
    dir: Point,
    len: int,
    center: Point,
    half: Point,
    i: int,
) -> Option<(RatioPoint, Ratio)>
    decreases i,
{
    if i <= 0 {
        None
    } else {
        let side = rect_side(center, half, i - 1);
        better_hit(
            rect_hit_upto(origin, dir, len, center, half, i - 1),
            seg_hit_spec(origin, ray_end_spec(origin, dir, len), side.0, side.1),
        )
    }
}

/// The exact result of casting the ray against the rectangle: the hit with
/// the smallest `t` over all four sides, the first such side winning ties.
pub open spec fn rect_hit_spec(
    origin: Point,
    dir: Point,
    len: int,
    center: Point,
    half: Point,
) -> Option<(RatioPoint, Ratio)> {
    rect_hit_upto(origin, dir, len, center, half, 4)
}

/// Coordinate bounds under which the ray and the rectangle sides stay inside
/// the kernel's coordinate range.
pub open spec fn ray_rect_ok(origin: Point, dir: Point, len: int, center: Point, half: Point) -> bool {
    &&& -SCALE <= dir.x <= SCALE
    &&& -SCALE <= dir.y <= SCALE
    &&& 0 <= len <= COORD_LIMIT
    &&& -COORD_LIMIT <= origin.x - len
    &&& origin.x + len <= COORD_LIMIT
    &&& -COORD_LIMIT <= origin.y - len
    &&& origin.y + len <= COORD_LIMIT
    &&& 0 <= half.x
    &&& 0 <= half.y
    &&& -COORD_LIMIT <= center.x - half.x
    &&& center.x + half.x <= COORD_LIMIT
    &&& -COORD_LIMIT <= center.y - half.y
    &&& center.y + half.y <= COORD_LIMIT
}

/// Cast a ray of `len` from `origin` along `dir` against the axis-aligned
/// rectangle at `center` with half-extent `half`; return the nearest hit.
pub fn ray_vs_rectangle(origin: Point, dir: Point, len: i64, center: Point, half: Point) -> (r:
    Option<(RatioPoint, Ratio)>)
    requires
        ray_rect_ok(origin, dir, len as int, center, half),
    ensures
        r == rect_hit_spec(origin, dir, len as int, center, half),
        r matches Some(h) ==> ratio_wf(h.1) && ratio_in_unit(h.1),
{
    proof {
        lemma_mul_abs_bound(dir.x as int, len as int, 1000, 1_000_000_000);
        lemma_mul_abs_bound(dir.y as int, len as int, 1000, 1_000_000_000);
        crate::fixed::lemma_tdiv_unit_bound(len as int, dir.x as int, SCALE as int);
        crate::fixed::lemma_tdiv_unit_bound(len as int, dir.y as int, SCALE as int);
        assert((dir.x as int) * (len as int) == (len as int) * (dir.x as int))
            by (nonlinear_arith);
        assert((dir.y as int) * (len as int) == (len as int) * (dir.y as int))
            by (nonlinear_arith);
    }
    let pe = Point { x: origin.x + dir.x * len / SCALE, y: origin.y + dir.y * len / SCALE };
    proof {
        assert(pe == ray_end_spec(origin, dir, len as int));
    }
    let minx = center.x - half.x;
    let miny = center.y - half.y;
    let maxx = center.x + half.x;
    let maxy = center.y + half.y;
    let h0 = segment_intersection(
        origin,
        pe,
        Point { x: minx, y: miny },
        Point { x: minx, y: maxy },
    );
    let h1 = segment_intersection(
        origin,
        pe,
        Point { x: minx, y: maxy },
        Point { x: maxx, y: maxy },
    );
    let h2 = segment_intersection(
        origin,
        pe,
        Point { x: maxx, y: maxy },
        Point { x: maxx, y: miny },
    );
    let h3 = segment_intersection(
        origin,
        pe,
        Point { x: maxx, y: miny },
        Point { x: minx, y: miny },
    );
    let mut best = h0;
    best = merge_best(best, h1);
    best = merge_best(best, h2);
    best = merge_best(best, h3);
    proof {
        reveal_with_fuel(rect_hit_upto, 5);
    }
    best
}

/// Parallel segments never intersect: whenever the two direction vectors
/// have a zero cross product — whatever the offset between the lines — the
/// segment intersection reports no hit.
pub proof fn lemma_parallel_no_intersection(p1: Point, p2: Point, q1: Point, q2: Point)
    requires
        (p2.x - p1.x) * (q2.y - q1.y) == (p2.y - p1.y) * (q2.x - q1.x),
    ensures
        seg_hit_spec(p1, p2, q1, q2) is None,
{
    assert(seg_den(p1, p2, q1, q2) == 0) by (nonlinear_arith)
        requires
            (p2.x - p1.x) * (q2.y - q1.y) == (p2.y - p1.y) * (q2.x - q1.x),
    ;
}

/// Round a unit-interval rational down to fixed-point units.
pub fn ratio_to_fixed(r: &Ratio) -> (f: i64)
    requires
        ratio_wf(*r),
        ratio_in_unit(*r),
    ensures
        f == (r.num * SCALE) / (r.den as int),
        0 <= f <= SCALE,
{
    proof {
        vstd::arithmetic::mul::lemma_mul_nonnegative(r.num as int, SCALE as int);
        vstd::arithmetic::mul::lemma_mul_inequality(r.num as int, r.den as int, SCALE as int);
        vstd::arithmetic::div_mod::lemma_div_is_ordered(0, r.num * SCALE, r.den as int);
        vstd::arithmetic::div_mod::lemma_div_is_ordered(
            r.num * SCALE,
            r.den * SCALE,
            r.den as int,
        );
        vstd::arithmetic::mul::lemma_mul_is_commutative(r.den as int, SCALE as int);
        vstd::arithmetic::div_mod::lemma_div_by_multiple(SCALE as int, r.den as int);
    }
    ((r.num * (SCALE as i128)) / r.den) as i64
}

/// Executable counterpart of `better_hit`.
fn merge_best(
    cur: Option<(RatioPoint, Ratio)>,
    new: Option<(RatioPoint, Ratio)>,
) -> (r: Option<(RatioPoint, Ratio)>)
    requires
        cur matches Some(h) ==> ratio_wf(h.1) && ratio_in_unit(h.1),
        new matches Some(h) ==> ratio_wf(h.1) && ratio_in_unit(h.1),
    ensures
        r == better_hit(cur, new),
        r matches Some(h) ==> ratio_wf(h.1) && ratio_in_unit(h.1),
{
    match (cur, new) {
        (None, _) => new,
        (_, None) => cur,
        (Some(c), Some(n)) => {
            if ratio_less(&n.1, &c.1) {
                Some(n)
            } else {
                Some(c)
            }
        },
    }
}

} // verus!
