//! Ray sensor: a fixed-length directional probe rigidly attached to a
//! vehicle. It stores, per intersected obstacle, the exact intersection
//! parameter along the ray (0 at the origin, 1 at the tip), one entry per
//! obstacle.
use vstd::prelude::*;

use crate::fixed::SCALE;
use crate::fixed::ONE;
use crate::fixed::tdiv;
use crate::geometry::Point;
use crate::geometry::Ratio;
use crate::geometry::RatioPoint;
use crate::geometry::ratio_wf;
use crate::geometry::ratio_in_unit;
use crate::geometry::ratio_lt;
use crate::geometry::ratio_less;
use crate::geometry::ratio_to_fixed;
use crate::geometry::rect_hit_spec;
use crate::geometry::ray_rect_ok;
use crate::geometry::ray_vs_rectangle;
use crate::geometry::lemma_mul_abs_bound;

verus! {

/// Largest ray length the sensor accepts.
pub const RAY_LIMIT: i64 = 100_000_000;

/// A distance probe. `rel_dir` is the ray's direction relative to the
/// owner's heading — the heading-frame unit vector of the ray's fixed
/// mounting angle. `collisions` maps an obstacle identifier to the exact
/// intersection parameter of the nearest crossing with that obstacle.
#[derive(Debug)]
pub struct Ray {
    pub length: i64,
    pub rel_dir: Point,
    pub collisions: Vec<(usize, Ratio)>,
}

/// Invariant of a sensor: bounded length, a bounded direction vector, every
/// stored parameter a well-formed unit-interval rational, and at most one
/// entry per obstacle.
pub open spec fn ray_wf(r: Ray) -> bool {
    &&& 0 <= r.length <= RAY_LIMIT
    &&& -SCALE <= r.rel_dir.x <= SCALE
    &&& -SCALE <= r.rel_dir.y <= SCALE
    &&& forall|i: int|
        0 <= i < r.collisions@.len() ==> ratio_wf((#[trigger] r.collisions@[i]).1) && ratio_in_unit(
            r.collisions@[i].1,
        )
    &&& forall|i: int, j: int|
        0 <= i < j < r.collisions@.len() ==> (#[trigger] r.collisions@[i]).0 != (
        #[trigger] r.collisions@[j]).0
}

/// A direction vector rotated into the frame of a heading vector, clamped to
/// unit magnitude per component against fixed-point rounding. For exact unit
/// vectors this is the composition of the two rotations.
pub open spec fn spec_rotate_dir(heading: Point, rel: Point) -> Point {
    let x = tdiv(rel.x * heading.y + rel.y * heading.x, SCALE as int);
    let y = tdiv(rel.y * heading.y - rel.x * heading.x, SCALE as int);
    Point {
        x: (if x > SCALE {
            SCALE as int
        } else if x < -SCALE {
            -SCALE as int
        } else {
            x
        }) as i64,
        y: (if y > SCALE {
            SCALE as int
        } else if y < -SCALE {
            -SCALE as int
        } else {
            y
        }) as i64,
    }
}

/// Rotate the heading-frame direction `rel` by the owner's heading vector.
pub fn rotate_dir(heading: Point, rel: Point) -> (r: Point)
    requires
        -SCALE <= heading.x <= SCALE,
        -SCALE <= heading.y <= SCALE,
        -SCALE <= rel.x <= SCALE,
        -SCALE <= rel.y <= SCALE,
    ensures
        r == spec_rotate_dir(heading, rel),
        -SCALE <= r.x <= SCALE,
        -SCALE <= r.y <= SCALE,
{
    proof {
        lemma_mul_abs_bound(rel.x as int, heading.y as int, 1000, 1000);
        lemma_mul_abs_bound(rel.y as int, heading.x as int, 1000, 1000);
        lemma_mul_abs_bound(rel.y as int, heading.y as int, 1000, 1000);
        lemma_mul_abs_bound(rel.x as int, heading.x as int, 1000, 1000);
        crate::fixed::lemma_tdiv_abs_le(
            rel.x as int * heading.y as int + rel.y as int * heading.x as int,
            SCALE as int,
            2_000_000,
        );
        crate::fixed::lemma_tdiv_abs_le(
            rel.y as int * heading.y as int - rel.x as int * heading.x as int,
            SCALE as int,
            2_000_000,
        );
    }
    let x: i64 = (rel.x * heading.y + rel.y * heading.x) / SCALE;
    let y: i64 = (rel.y * heading.y - rel.x * heading.x) / SCALE;
    let cx: i64 = if x > SCALE {
        SCALE
    } else if x < -SCALE {
        -SCALE
    } else {
        x
    };
    let cy: i64 = if y > SCALE {
        SCALE
    } else if y < -SCALE {
        -SCALE
    } else {
        y
    };
    Point { x: cx, y: cy }
}

/// The exact hit of this sensor against one rectangle, given the owner's
/// position and heading vector.
pub open spec fn spec_ray_hit(
    ray: Ray,
    car_pos: Point,
    car_dir: Point,
    target_pos: Point,
    target_half: Point,
) -> Option<(RatioPoint, Ratio)> {
    rect_hit_spec(
        car_pos,
        spec_rotate_dir(car_dir, ray.rel_dir),
        ray.length as int,
        target_pos,
        target_half,
    )
}

impl Ray {
    /// A fresh sensor of the given length and mounting direction, with no
    /// collisions.
    pub fn new(length: i64, rel_dir: Point) -> (r: Ray)
        requires
            0 <= length <= RAY_LIMIT,
            -SCALE <= rel_dir.x <= SCALE,
            -SCALE <= rel_dir.y <= SCALE,
        ensures
            ray_wf(r),
            r.length == length,
            r.rel_dir == rel_dir,
            r.collisions@.len() == 0,
    {
        Ray { length, rel_dir, collisions: Vec::new() }
    }

    /// Intersect this sensor with an axis-aligned rectangle: the ray starts
    /// at the owner's position and runs along the mounting direction rotated
    /// by the owner's heading. Returns the nearest crossing and its
    /// parameter along the ray, or `None`.
    pub fn get_intersecting_point(
        &self,
        car_pos: Point,
        car_dir: Point,
        target_pos: Point,
        target_half: Point,
    ) -> (r: Option<(RatioPoint, Ratio)>)
        requires
            ray_wf(*self),
            -SCALE <= car_dir.x <= SCALE,
            -SCALE <= car_dir.y <= SCALE,
            ray_rect_ok(
                car_pos,
                spec_rotate_dir(car_dir, self.rel_dir),
                self.length as int,
                target_pos,
                target_half,
            ),
        ensures
            r == spec_ray_hit(*self, car_pos, car_dir, target_pos, target_half),
            r matches Some(h) ==> ratio_wf(h.1) && ratio_in_unit(h.1),
    {
        let dir = rotate_dir(car_dir, self.rel_dir);
        ray_vs_rectangle(car_pos, dir, self.length, target_pos, target_half)
    }

    /// The nearest active collision: the entry with the smallest parameter,
    /// the earliest such entry winning ties. `None` when nothing intersects.
    pub fn nearest_collision(&self) -> (r: Option<(usize, Ratio)>)
        requires
            ray_wf(*self),
        ensures
            r == nearest_upto(self.collisions@, self.collisions@.len() as int),
            r is None <==> self.collisions@.len() == 0,
            r matches Some(b) ==> ratio_wf(b.1) && ratio_in_unit(b.1),
    {
        let mut best: Option<(usize, Ratio)> = None;
        let n: usize = self.collisions.len();
        let mut i: usize = 0;
        while i < n
            invariant
                i <= n,
                n == self.collisions@.len(),
                ray_wf(*self),
                best == nearest_upto(self.collisions@, i as int),
                best matches Some(b) ==> ratio_wf(b.1) && ratio_in_unit(b.1),
                best is None <==> i == 0,
            decreases n - i,
        {
            let entry = self.collisions[i];
            best = match best {
                None => Some(entry),
                Some(b) => {
                    if ratio_less(&entry.1, &b.1) {
                        Some(entry)
                    } else {
                        Some(b)
                    }
                },
            };
            i = i + 1;
        }
        best
    }

    /// The network input this sensor contributes: -1 when nothing is in
    /// range, otherwise 1 minus the nearest hit's parameter — the closer the
    /// obstacle, the larger the reading.
    pub fn input_offset(&self) -> (r: i64)
        requires
            ray_wf(*self),
        ensures
            r == spec_input_offset(*self),
            -ONE <= r <= ONE,
    {
        match self.nearest_collision() {
            None => -ONE,
            Some(entry) => ONE - ratio_to_fixed(&entry.1),
        }
    }
}

/// The nearest entry among the first `k` stored collisions.
pub open spec fn nearest_upto(cs: Seq<(usize, Ratio)>, k: int) -> Option<(usize, Ratio)>
    decreases k,
{
    if k <= 0 {
        None
    } else {
        match nearest_upto(cs, k - 1) {
            Option::None => Some(cs[k - 1]),
            Option::Some(p) => if ratio_lt(cs[k - 1].1, p.1) {
                Some(cs[k - 1])
            } else {
                Some(p)
            },
        }
    }
}

/// The sensor's contribution to the network input vector.
pub open spec fn spec_input_offset(ray: Ray) -> int {
    match nearest_upto(ray.collisions@, ray.collisions@.len() as int) {
        Option::None => -ONE as int,
        Option::Some(entry) => ONE - (entry.1.num * SCALE) / (entry.1.den as int),
    }
}

} // verus!
