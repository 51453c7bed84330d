//! The simulation arena: vehicle records, their sensors, and the static
//! colliders, keyed by stable indices, with the per-tick passes of the
//! control loop — sensor update, control decision, kinematics, collision
//! check.
//!
//! A sensor's collision set and a collider's colliding-sensor set are kept
//! mutually consistent: an entry in one implies the reciprocal entry in the
//! other at every observation point. The sensor update is the only place
//! that mutates the two sets.
use vstd::prelude::*;

use crate::car::Car;
use crate::car::Controls;
use crate::car::car_wf;
use crate::car::controls_wf;
use crate::car::PI_FP;
use crate::fixed::SCALE;
use crate::fixed::ONE;
use crate::geometry::Point;
use crate::geometry::Ratio;
use crate::geometry::ratio_wf;
use crate::geometry::ratio_in_unit;
use crate::geometry::ratio_equal;
use crate::geometry::ratio_eq_val;
use crate::network::NeuralNetwork;
use crate::network::network_wf;
use crate::ray::Ray;
use crate::ray::ray_wf;
use crate::ray::spec_ray_hit;
use crate::ray::RAY_LIMIT;

verus! {

/// Largest coordinate magnitude of a pose or an obstacle center. Leaves
/// room inside the geometry kernel's coordinate range for ray length and
/// obstacle extent.
pub const POS_LIMIT: i64 = 400_000_000;

/// Largest half-extent of a collision rectangle.
pub const HALF_LIMIT: i64 = 100_000_000;

/// Position and heading of a vehicle. The heading is in fixed-point
/// radians, normalized to [0, 2*PI_FP); heading 0 points along +y.
#[derive(Clone, Copy, Debug)]
pub struct Pose {
    pub x: i64,
    pub y: i64,
    pub heading: i64,
}

pub open spec fn pose_wf(p: Pose) -> bool {
    &&& -POS_LIMIT <= p.x <= POS_LIMIT
    &&& -POS_LIMIT <= p.y <= POS_LIMIT
    &&& 0 <= p.heading < 2 * PI_FP
}

/// The set of sensors currently reporting a hit against a collider.
#[derive(Debug)]
pub struct StaticCollider {
    pub colliding_with: Vec<usize>,
}

/// A static axis-aligned rectangular obstacle.
#[derive(Debug)]
pub struct Obstacle {
    pub pos: Point,
    pub half_size: Point,
    pub collider: StaticCollider,
}

/// Collider invariant: each sensor registered at most once.
pub open spec fn collider_wf(c: StaticCollider) -> bool {
    forall|i: int, j: int|
        0 <= i < j < c.colliding_with@.len() ==> (#[trigger] c.colliding_with@[i]) != (
        #[trigger] c.colliding_with@[j])
}

pub open spec fn obstacle_wf(o: Obstacle) -> bool {
    &&& -POS_LIMIT <= o.pos.x <= POS_LIMIT
    &&& -POS_LIMIT <= o.pos.y <= POS_LIMIT
    &&& 0 <= o.half_size.x <= HALF_LIMIT
    &&& 0 <= o.half_size.y <= HALF_LIMIT
    &&& collider_wf(o.collider)
}

/// The sensor list `cs` holds an entry for obstacle `o`.
pub open spec fn contains_obstacle(cs: Seq<(usize, Ratio)>, o: int) -> bool {
    exists|i: int| 0 <= i < cs.len() && (#[trigger] cs[i]).0 == o
}

/// The collider list `rs` holds an entry for sensor `r`.
pub open spec fn contains_ray(rs: Seq<usize>, r: int) -> bool {
    exists|i: int| 0 <= i < rs.len() && (#[trigger] rs[i]) == r
}

/// The exact pair `e` occurs in `cs`.
pub open spec fn has_pair(cs: Seq<(usize, Ratio)>, e: (usize, Ratio)) -> bool {
    exists|i: int| 0 <= i < cs.len() && (#[trigger] cs[i]) == e
}

/// Every entry for obstacle `o` stores exactly the value `t`.
pub open spec fn entry_matches(cs: Seq<(usize, Ratio)>, o: int, t: Ratio) -> bool {
    forall|i: int| 0 <= i < cs.len() && (#[trigger] cs[i]).0 == o ==> ratio_eq_val(cs[i].1, t)
}

/// Find the index of the entry for `obstacle_id`, if any.
fn find_collision_index(cs: &Vec<(usize, Ratio)>, obstacle_id: usize) -> (r: Option<usize>)
    ensures
        r matches Some(i) ==> i < cs@.len() && cs@[i as int].0 == obstacle_id,
        (r is Some) == contains_obstacle(cs@, obstacle_id as int),
{
    let n: usize = cs.len();
    let mut i: usize = 0;
    while i < n
        invariant
            i <= n,
            n == cs@.len(),
            forall|a: int| 0 <= a < i ==> (#[trigger] cs@[a]).0 != obstacle_id,
        decreases n - i,
    {
        if cs[i].0 == obstacle_id {
            return Some(i);
        }
        i = i + 1;
    }
    None
}

/// Find the index of the entry for `ray_id`, if any.
fn find_ray_index(rs: &Vec<usize>, ray_id: usize) -> (r: Option<usize>)
    ensures
        r matches Some(i) ==> i < rs@.len() && rs@[i as int] == ray_id,
        (r is Some) == contains_ray(rs@, ray_id as int),
{
    let n: usize = rs.len();
    let mut i: usize = 0;
    while i < n
        invariant
            i <= n,
            n == rs@.len(),
            forall|a: int| 0 <= a < i ==> (#[trigger] rs@[a]) != ray_id,
        decreases n - i,
    {
        if rs[i] == ray_id {
            return Some(i);
        }
        i = i + 1;
    }
    None
}

/// Reconcile one sensor/collider pair with the outcome `hit` of this tick's
/// intersection test: update the stored distance only when it changed,
/// register a new hit on both sides, remove a vanished hit from both sides.
fn sync_pair(ray: &mut Ray, ray_id: usize, obs: &mut Obstacle, obs_id: usize, hit: Option<Ratio>)
    requires
        ray_wf(*old(ray)),
        obstacle_wf(*old(obs)),
        hit matches Some(t) ==> ratio_wf(t) && ratio_in_unit(t),
        contains_obstacle(old(ray).collisions@, obs_id as int) == contains_ray(
            old(obs).collider.colliding_with@,
            ray_id as int,
        ),
    ensures
        final(ray).length == old(ray).length,
        final(ray).rel_dir == old(ray).rel_dir,
        ray_wf(*final(ray)),
        final(obs).pos == old(obs).pos,
        final(obs).half_size == old(obs).half_size,
        obstacle_wf(*final(obs)),
        contains_obstacle(final(ray).collisions@, obs_id as int) == (hit is Some),
        contains_ray(final(obs).collider.colliding_with@, ray_id as int) == (hit is Some),
        hit matches Some(t) ==> entry_matches(final(ray).collisions@, obs_id as int, t),
        forall|i: int|
            0 <= i < final(ray).collisions@.len() && (#[trigger] final(ray).collisions@[i]).0
                != obs_id ==> has_pair(old(ray).collisions@, final(ray).collisions@[i]),
        forall|i: int|
            0 <= i < old(ray).collisions@.len() && (#[trigger] old(ray).collisions@[i]).0 != obs_id
                ==> has_pair(final(ray).collisions@, old(ray).collisions@[i]),
        forall|r2: int|
            r2 != ray_id ==> contains_ray(final(obs).collider.colliding_with@, r2) == contains_ray(
                old(obs).collider.colliding_with@,
                r2,
            ),
{
    let idx = find_collision_index(&ray.collisions, obs_id);
    match hit {
        Some(t) => {
            match idx {
                Some(i) => {
                    // Still intersecting: replace the entry only if the
                    // stored distance changed.
                    if !ratio_equal(&ray.collisions[i].1, &t) {
                        let ghost before = ray.collisions@;
                        ray.collisions.remove(i);
                        ray.collisions.push((obs_id, t));
                        proof {
                            let after = ray.collisions@;
                            let removed = before.remove(i as int);
                            assert(after == removed.push((obs_id, t)));
                            assert forall|a: int, b: int|
                                0 <= a < b < after.len() implies (#[trigger] after[a]).0 != (
                            #[trigger] after[b]).0 by {
                                if b < after.len() - 1 {
                                    lemma_remove_keeps(before, i as int, a);
                                    lemma_remove_keeps(before, i as int, b);
                                } else {
                                    lemma_remove_keeps(before, i as int, a);
                                }
                            }
                            assert forall|a: int|
                                0 <= a < after.len() && (#[trigger] after[a]).0
                                    != obs_id implies has_pair(before, after[a]) by {
                                lemma_remove_keeps(before, i as int, a);
                            }
                            assert forall|a: int|
                                0 <= a < before.len() && (#[trigger] before[a]).0
                                    != obs_id implies has_pair(after, before[a]) by {
                                if a < i {
                                    assert(after[a] == before[a]);
                                } else {
                                    assert(after[a - 1] == before[a]);
                                }
                            }
                            assert(contains_obstacle(after, obs_id as int)) by {
                                assert(after[after.len() - 1].0 == obs_id);
                            }
                        }
                    }
                },
                None => {
                    // Newly intersecting: register the hit on both sides.
                    let ghost before = ray.collisions@;
                    let ghost rbefore = obs.collider.colliding_with@;
                    obs.collider.colliding_with.push(ray_id);
                    ray.collisions.push((obs_id, t));
                    proof {
                        let after = ray.collisions@;
                        let rafter = obs.collider.colliding_with@;
                        assert(after[after.len() - 1].0 == obs_id);
                        assert(rafter[rafter.len() - 1] == ray_id);
                        assert forall|a: int| 0 <= a < before.len() implies (
                        #[trigger] before[a]).0 != obs_id by {
                            if before[a].0 == obs_id {
                                assert(contains_obstacle(before, obs_id as int));
                            }
                        }
                        assert forall|a: int|
                            0 <= a < before.len() && (#[trigger] before[a]).0 != obs_id implies
                            has_pair(after, before[a]) by {
                            assert(after[a] == before[a]);
                        }
                        assert forall|a: int|
                            0 <= a < after.len() && (#[trigger] after[a]).0 != obs_id implies
                            has_pair(before, after[a]) by {
                            assert(a < before.len());
                            assert(after[a] == before[a]);
                        }
                        assert forall|a: int| 0 <= a < rbefore.len() implies (
                        #[trigger] rbefore[a]) != ray_id by {
                            if rbefore[a] == ray_id {
                                assert(contains_ray(rbefore, ray_id as int));
                            }
                        }
                        assert forall|r2: int| r2 != ray_id implies contains_ray(rafter, r2)
                            == contains_ray(rbefore, r2) by {
                            if contains_ray(rbefore, r2) {
                                let w = choose|w: int|
                                    0 <= w < rbefore.len() && rbefore[w] == r2;
                                assert(rafter[w] == r2);
                            }
                            if contains_ray(rafter, r2) {
                                let w = choose|w: int|
                                    0 <= w < rafter.len() && rafter[w] == r2;
                                if w < rafter.len() - 1 {
                                    assert(rbefore[w] == r2);
                                }
                            }
                        }
                    }
                },
            }
        },
        None => {
            if let Some(i) = idx {
                // No longer intersecting: remove the entry from both sides.
                let ghost before = ray.collisions@;
                ray.collisions.remove(i);
                proof {
                    let after = ray.collisions@;
                    assert forall|a: int, b: int|
                        0 <= a < b < after.len() implies (#[trigger] after[a]).0 != (
                    #[trigger] after[b]).0 by {
                        lemma_remove_keeps(before, i as int, a);
                        lemma_remove_keeps(before, i as int, b);
                    }
                    assert forall|a: int|
                        0 <= a < after.len() implies has_pair(before, #[trigger] after[a]) by {
                        lemma_remove_keeps(before, i as int, a);
                    }
                    assert forall|a: int|
                        0 <= a < before.len() && (#[trigger] before[a]).0 != obs_id implies
                            has_pair(after, before[a]) by {
                        if a < i {
                            assert(after[a] == before[a]);
                        } else {
                            assert(after[a - 1] == before[a]);
                        }
                    }
                    assert(!contains_obstacle(after, obs_id as int)) by {
                        assert forall|a: int|
                            0 <= a < after.len() implies (#[trigger] after[a]).0 != obs_id by {
                            lemma_remove_keeps(before, i as int, a);
                            if after[a].0 == obs_id {
                                let w = choose|w: int|
                                    0 <= w < before.len() && before[w] == after[a];
                                assert(false);
                            }
                        }
                    }
                }
                let rfound = find_ray_index(&obs.collider.colliding_with, ray_id);
                if let Some(j) = rfound {
                    let ghost rbefore = obs.collider.colliding_with@;
                    obs.collider.colliding_with.remove(j);
                    proof {
                        let rafter = obs.collider.colliding_with@;
                        assert forall|a: int, b: int|
                            0 <= a < b < rafter.len() implies (#[trigger] rafter[a]) != (
                        #[trigger] rafter[b]) by {
                            lemma_remove_keeps_ray(rbefore, j as int, a);
                            lemma_remove_keeps_ray(rbefore, j as int, b);
                        }
                        assert(!contains_ray(rafter, ray_id as int)) by {
                            assert forall|a: int|
                                0 <= a < rafter.len() implies (#[trigger] rafter[a]) != ray_id by {
                                lemma_remove_keeps_ray(rbefore, j as int, a);
                            }
                        }
                        assert forall|r2: int|
                            r2 != ray_id implies contains_ray(rafter, r2) == contains_ray(
                            rbefore,
                            r2,
                        ) by {
                            if contains_ray(rbefore, r2) {
                                let w = choose|w: int|
                                    0 <= w < rbefore.len() && rbefore[w] == r2;
                                if w < j {
                                    assert(rafter[w] == rbefore[w]);
                                } else {
                                    assert(rafter[w - 1] == rbefore[w]);
                                }
                            }
                            if contains_ray(rafter, r2) {
                                let w = choose|w: int|
                                    0 <= w < rafter.len() && rafter[w] == r2;
                                lemma_remove_keeps_ray(rbefore, j as int, w);
                            }
                        }
                    }
                }
            }
        },
    }
}

/// The obstacle is close enough for the sensor to consider: its center is
/// nearer than one and a half times the ray length.
pub open spec fn spec_near(origin: Point, center: Point, len: int) -> bool {
    4 * ((origin.x - center.x) * (origin.x - center.x) + (origin.y - center.y) * (origin.y
        - center.y)) < 9 * (len * len)
}

/// The cheap rejection test of the sensor update.
fn within_reach(origin: Point, center: Point, len: i64) -> (r: bool)
    requires
        -POS_LIMIT <= origin.x <= POS_LIMIT,
        -POS_LIMIT <= origin.y <= POS_LIMIT,
        -POS_LIMIT <= center.x <= POS_LIMIT,
        -POS_LIMIT <= center.y <= POS_LIMIT,
        0 <= len <= RAY_LIMIT,
    ensures
        r == spec_near(origin, center, len as int),
{
    let dx: i128 = (origin.x - center.x) as i128;
    let dy: i128 = (origin.y - center.y) as i128;
    proof {
        crate::geometry::lemma_mul_abs_bound(dx as int, dx as int, 800_000_000, 800_000_000);
        crate::geometry::lemma_mul_abs_bound(dy as int, dy as int, 800_000_000, 800_000_000);
        crate::geometry::lemma_mul_abs_bound(len as int, len as int, 100_000_000, 100_000_000);
    }
    let l: i128 = len as i128;
    4 * (dx * dx + dy * dy) < 9 * (l * l)
}

/// Recompute which obstacles this sensor intersects and at what parameter:
/// obstacles beyond one and a half ray lengths are skipped untouched; for
/// the rest the stored entry and the obstacle's reciprocal entry are brought
/// in line with this tick's intersection test.
fn cast_ray_against_obstacles(
    ray: &mut Ray,
    ray_id: usize,
    origin: Point,
    heading: Point,
    obstacles: &mut Vec<Obstacle>,
)
    requires
        ray_wf(*old(ray)),
        -SCALE <= heading.x <= SCALE,
        -SCALE <= heading.y <= SCALE,
        -POS_LIMIT <= origin.x <= POS_LIMIT,
        -POS_LIMIT <= origin.y <= POS_LIMIT,
        0 <= old(ray).length <= RAY_LIMIT,
        forall|o: int|
            0 <= o < old(obstacles)@.len() ==> obstacle_wf(#[trigger] old(obstacles)@[o]),
        forall|o: int|
            0 <= o < old(obstacles)@.len() ==> contains_obstacle(old(ray).collisions@, o)
                == contains_ray(
                (#[trigger] old(obstacles)@[o]).collider.colliding_with@,
                ray_id as int,
            ),
        forall|i: int|
            0 <= i < old(ray).collisions@.len() ==> ((#[trigger] old(ray).collisions@[i]).0 as int)
                < old(obstacles)@.len(),
    ensures
        final(ray).length == old(ray).length,
        final(ray).rel_dir == old(ray).rel_dir,
        ray_wf(*final(ray)),
        forall|i: int|
            0 <= i < final(ray).collisions@.len() ==> ((#[trigger] final(ray).collisions@[i]).0
                as int) < old(obstacles)@.len(),
        final(obstacles)@.len() == old(obstacles)@.len(),
        forall|o: int|
            0 <= o < old(obstacles)@.len() ==> (#[trigger] final(obstacles)@[o]).pos == old(
                obstacles,
            )@[o].pos && final(obstacles)@[o].half_size == old(obstacles)@[o].half_size
                && obstacle_wf(final(obstacles)@[o]),
        forall|o: int|
            0 <= o < old(obstacles)@.len() ==> contains_obstacle(final(ray).collisions@, o)
                == contains_ray(
                (#[trigger] final(obstacles)@[o]).collider.colliding_with@,
                ray_id as int,
            ),
        forall|o: int|
            0 <= o < old(obstacles)@.len() && spec_near(
                origin,
                old(obstacles)@[o].pos,
                old(ray).length as int,
            ) ==> contains_obstacle(final(ray).collisions@, o) == (spec_ray_hit(
                *old(ray),
                origin,
                heading,
                (#[trigger] old(obstacles)@[o]).pos,
                old(obstacles)@[o].half_size,
            ) is Some),
        forall|o: int|
            0 <= o < old(obstacles)@.len() && spec_near(
                origin,
                old(obstacles)@[o].pos,
                old(ray).length as int,
            ) ==> (spec_ray_hit(
                *old(ray),
                origin,
                heading,
                (#[trigger] old(obstacles)@[o]).pos,
                old(obstacles)@[o].half_size,
            ) matches Some(h) ==> entry_matches(final(ray).collisions@, o, h.1)),
        forall|o: int|
            0 <= o < old(obstacles)@.len() && !spec_near(
                origin,
                (#[trigger] old(obstacles)@[o]).pos,
                old(ray).length as int,
            ) ==> contains_obstacle(final(ray).collisions@, o) == contains_obstacle(
                old(ray).collisions@,
                o,
            ),
        forall|o: int, r2: int|
            0 <= o < old(obstacles)@.len() && r2 != ray_id ==> #[trigger] contains_ray(
                final(obstacles)@[o].collider.colliding_with@,
                r2,
            ) == contains_ray(old(obstacles)@[o].collider.colliding_with@, r2),
{
    let n: usize = obstacles.len();
    let mut j: usize = 0;
    while j < n
        invariant
            j <= n,
            n == obstacles@.len(),
            n == old(obstacles)@.len(),
            ray.length == old(ray).length,
            ray.rel_dir == old(ray).rel_dir,
            ray_wf(*ray),
            -SCALE <= heading.x <= SCALE,
            -SCALE <= heading.y <= SCALE,
            -POS_LIMIT <= origin.x <= POS_LIMIT,
            -POS_LIMIT <= origin.y <= POS_LIMIT,
            0 <= ray.length <= RAY_LIMIT,
            forall|o: int| j <= o < n ==> obstacles@[o] == old(obstacles)@[o],
            forall|i: int|
                0 <= i < ray.collisions@.len() ==> ((#[trigger] ray.collisions@[i]).0 as int) < n,
            forall|o: int|
                0 <= o < n ==> obstacle_wf(#[trigger] old(obstacles)@[o]),
            forall|o: int|
                0 <= o < n ==> (#[trigger] obstacles@[o]).pos == old(obstacles)@[o].pos
                    && obstacles@[o].half_size == old(obstacles)@[o].half_size && obstacle_wf(
                    obstacles@[o],
                ),
            forall|o: int|
                0 <= o < n ==> contains_obstacle(old(ray).collisions@, o) == contains_ray(
                    (#[trigger] old(obstacles)@[o]).collider.colliding_with@,
                    ray_id as int,
                ),
            forall|o: int|
                0 <= o < n ==> contains_obstacle(ray.collisions@, o) == contains_ray(
                    (#[trigger] obstacles@[o]).collider.colliding_with@,
                    ray_id as int,
                ),
            forall|o: int|
                j <= o < n ==> contains_obstacle(ray.collisions@, o) == contains_obstacle(
                    old(ray).collisions@,
                    o,
                ),
            forall|o: int|
                0 <= o < j && spec_near(origin, old(obstacles)@[o].pos, old(ray).length as int)
                    ==> contains_obstacle(ray.collisions@, o) == (spec_ray_hit(
                    *old(ray),
                    origin,
                    heading,
                    (#[trigger] old(obstacles)@[o]).pos,
                    old(obstacles)@[o].half_size,
                ) is Some),
            forall|o: int|
                0 <= o < j && spec_near(origin, old(obstacles)@[o].pos, old(ray).length as int)
                    ==> (spec_ray_hit(
                    *old(ray),
                    origin,
                    heading,
                    (#[trigger] old(obstacles)@[o]).pos,
                    old(obstacles)@[o].half_size,
                ) matches Some(h) ==> entry_matches(ray.collisions@, o, h.1)),
            forall|o: int|
                0 <= o < j && !spec_near(
                    origin,
                    (#[trigger] old(obstacles)@[o]).pos,
                    old(ray).length as int,
                ) ==> contains_obstacle(ray.collisions@, o) == contains_obstacle(
                    old(ray).collisions@,
                    o,
                ),
            forall|o: int, r2: int|
                0 <= o < n && r2 != ray_id ==> #[trigger] contains_ray(
                    obstacles@[o].collider.colliding_with@,
                    r2,
                ) == contains_ray(old(obstacles)@[o].collider.colliding_with@, r2),
        decreases n - j,
    {
        let opos: Point = obstacles[j].pos;
        let ohalf: Point = obstacles[j].half_size;
        if within_reach(origin, opos, ray.length) {
            let hit = ray.get_intersecting_point(origin, heading, opos, ohalf);
            let hit_t: Option<Ratio> = match hit {
                Some(h) => Some(h.1),
                None => None,
            };
            let ghost prev_collisions = ray.collisions@;
            proof {
                assert(spec_ray_hit(*ray, origin, heading, opos, ohalf) == spec_ray_hit(
                    *old(ray),
                    origin,
                    heading,
                    opos,
                    ohalf,
                ));
            }
            sync_pair(ray, ray_id, &mut obstacles[j], j, hit_t);
            proof {
                assert forall|i: int|
                    0 <= i < ray.collisions@.len() implies ((#[trigger] ray.collisions@[i]).0
                        as int) < n by {
                    if ray.collisions@[i].0 != j {
                        assert(has_pair(prev_collisions, ray.collisions@[i]));
                        let w = choose|w: int|
                            0 <= w < prev_collisions.len() && prev_collisions[w]
                                == ray.collisions@[i];
                    }
                }
                assert forall|o: int|
                    0 <= o < j && spec_near(
                        origin,
                        old(obstacles)@[o].pos,
                        old(ray).length as int,
                    ) implies (spec_ray_hit(
                        *old(ray),
                        origin,
                        heading,
                        (#[trigger] old(obstacles)@[o]).pos,
                        old(obstacles)@[o].half_size,
                    ) matches Some(h) ==> entry_matches(ray.collisions@, o, h.1)) by {
                    let sh = spec_ray_hit(
                        *old(ray),
                        origin,
                        heading,
                        old(obstacles)@[o].pos,
                        old(obstacles)@[o].half_size,
                    );
                    if sh is Some {
                        let t = sh->Some_0.1;
                        assert(entry_matches(prev_collisions, o, t));
                        assert forall|i: int|
                            0 <= i < ray.collisions@.len() && (#[trigger] ray.collisions@[i]).0
                                == o implies ratio_eq_val(ray.collisions@[i].1, t) by {
                            assert(has_pair(prev_collisions, ray.collisions@[i]));
                            let w = choose|w: int|
                                0 <= w < prev_collisions.len() && prev_collisions[w]
                                    == ray.collisions@[i];
                            assert(ratio_eq_val(prev_collisions[w].1, t));
                        }
                    }
                }
            }
        }
        j = j + 1;
    }
}

/// An element surviving a removal was already present before it.
proof fn lemma_remove_keeps(s: Seq<(usize, Ratio)>, i: int, a: int)
    requires
        0 <= i < s.len(),
        0 <= a < s.len() - 1,
    ensures
        has_pair(s, s.remove(i)[a]),
        a < i ==> s.remove(i)[a] == s[a],
        a >= i ==> s.remove(i)[a] == s[a + 1],
{
    if a < i {
        assert(s.remove(i)[a] == s[a]);
    } else {
        assert(s.remove(i)[a] == s[a + 1]);
    }
}

/// An element surviving a removal was already present before it.
proof fn lemma_remove_keeps_ray(s: Seq<usize>, i: int, a: int)
    requires
        0 <= i < s.len(),
        0 <= a < s.len() - 1,
    ensures
        contains_ray(s, s.remove(i)[a] as int),
        a < i ==> s.remove(i)[a] == s[a],
        a >= i ==> s.remove(i)[a] == s[a + 1],
{
    if a < i {
        assert(s.remove(i)[a] == s[a]);
    } else {
        assert(s.remove(i)[a] == s[a + 1]);
    }
}

/// One vehicle of the arena: physical state, pose, collision rectangle,
/// current controls, control network, and the identifiers of its sensors.
/// `collided` is the terminal state; `removed` marks a vehicle taken out of
/// the simulation by the fail-safe against unresolvable sensor references.
#[derive(Debug)]
pub struct CarRecord {
    pub car: Car,
    pub pose: Pose,
    pub half_size: Point,
    pub controls: Controls,
    pub collided: bool,
    pub removed: bool,
    pub network: NeuralNetwork,
    pub ray_ids: Vec<usize>,
}

/// The arena of vehicle records.
#[derive(Debug)]
pub struct CarsArray {
    pub cars: Vec<CarRecord>,
}

/// The simulation arena: vehicles, their sensors (child records referencing
/// their owner), and the obstacles.
#[derive(Debug)]
pub struct World {
    pub cars: CarsArray,
    pub rays: Vec<Ray>,
    pub obstacles: Vec<Obstacle>,
}

/// The vehicle takes part in the control loop: neither collided nor removed.
pub open spec fn car_active(rec: CarRecord) -> bool {
    !rec.collided && !rec.removed
}

/// Invariant of one vehicle record within an arena of `n_rays` sensors.
pub open spec fn car_record_wf(rec: CarRecord, n_rays: int) -> bool {
    &&& car_wf(rec.car)
    &&& pose_wf(rec.pose)
    &&& controls_wf(rec.controls)
    &&& 0 <= rec.half_size.x <= HALF_LIMIT
    &&& 0 <= rec.half_size.y <= HALF_LIMIT
    &&& network_wf(rec.network)
    &&& rec.network.input_rays@.len() == rec.network.levels@[0].inputs@.len()
    &&& forall|i: int| 0 <= i < rec.ray_ids@.len() ==> (#[trigger] rec.ray_ids@[i]) < n_rays
    &&& forall|i: int, j: int|
        0 <= i < j < rec.ray_ids@.len() ==> (#[trigger] rec.ray_ids@[i]) != (
        #[trigger] rec.ray_ids@[j])
}

/// No sensor is attached to two different vehicles.
pub open spec fn ray_ownership_disjoint(cars: Seq<CarRecord>) -> bool {
    forall|c1: int, c2: int, i: int, j: int|
        0 <= c1 < cars.len() && 0 <= c2 < cars.len() && c1 != c2 && 0 <= i
            < cars[c1].ray_ids@.len() && 0 <= j < cars[c2].ray_ids@.len() ==> (
        #[trigger] cars[c1].ray_ids@[i]) != (#[trigger] cars[c2].ray_ids@[j])
}

/// The mutual-consistency invariant of the sensing state: a sensor holds an
/// entry for an obstacle exactly when the obstacle's collider holds the
/// reciprocal entry for the sensor.
pub open spec fn reciprocal_ok(w: World) -> bool {
    forall|r: int, o: int|
        0 <= r < w.rays@.len() && 0 <= o < w.obstacles@.len() ==> contains_obstacle(
            (#[trigger] w.rays@[r]).collisions@,
            o,
        ) == contains_ray((#[trigger] w.obstacles@[o]).collider.colliding_with@, r)
}

/// Invariant of the whole arena.
pub open spec fn world_wf(w: World) -> bool {
    &&& forall|c: int|
        0 <= c < w.cars.cars@.len() ==> car_record_wf(#[trigger] w.cars.cars@[c], w.rays@.len() as int)
    &&& ray_ownership_disjoint(w.cars.cars@)
    &&& forall|r: int| 0 <= r < w.rays@.len() ==> ray_wf(#[trigger] w.rays@[r])
    &&& forall|r: int, i: int|
        0 <= r < w.rays@.len() && 0 <= i < w.rays@[r].collisions@.len() ==> ((
        #[trigger] w.rays@[r].collisions@[i]).0 as int) < w.obstacles@.len()
    &&& forall|o: int| 0 <= o < w.obstacles@.len() ==> obstacle_wf(#[trigger] w.obstacles@[o])
    &&& reciprocal_ok(w)
}

/// The sensor `ray_new` is `ray_old` brought in line with this tick's
/// intersection tests from `origin` with heading `heading`: for near
/// obstacles its entry exists exactly when the ray hits, storing the exact
/// parameter; far obstacles are left as they were.
pub open spec fn ray_synced_at(
    ray_old: Ray,
    ray_new: Ray,
    origin: Point,
    heading: Point,
    obs: Obstacle,
    o: int,
) -> bool {
    if spec_near(origin, obs.pos, ray_old.length as int) {
        &&& contains_obstacle(ray_new.collisions@, o) == (spec_ray_hit(
            ray_old,
            origin,
            heading,
            obs.pos,
            obs.half_size,
        ) is Some)
        &&& (spec_ray_hit(ray_old, origin, heading, obs.pos, obs.half_size) matches Some(h)
            ==> entry_matches(ray_new.collisions@, o, h.1))
    } else {
        contains_obstacle(ray_new.collisions@, o) == contains_obstacle(ray_old.collisions@, o)
    }
}

pub open spec fn ray_synced(
    ray_old: Ray,
    ray_new: Ray,
    origin: Point,
    heading: Point,
    obstacles: Seq<Obstacle>,
) -> bool {
    forall|o: int|
        0 <= o < obstacles.len() ==> ray_synced_at(
            ray_old,
            ray_new,
            origin,
            heading,
            #[trigger] obstacles[o],
            o,
        )
}

/// Some active vehicle among the first `c` (plus the first `k` sensors of
/// vehicle `c` itself) owns sensor `r`.
pub open spec fn processed_upto(cars: Seq<CarRecord>, c: int, k: int, r: int) -> bool {
    exists|c2: int, k2: int|
        0 <= c2 < cars.len() && 0 <= k2 < cars[c2].ray_ids@.len() && (c2 < c || (c2 == c && k2 < k))
            && car_active(cars[c2]) && (#[trigger] cars[c2].ray_ids@[k2]) == r
}

/// The origin point of a vehicle's sensors.
pub open spec fn car_origin(rec: CarRecord) -> Point {
    Point { x: rec.pose.x, y: rec.pose.y }
}

/// Sensor update pass: for every active vehicle, recompute which obstacles
/// each of its sensors intersects and at what parameter, keeping the
/// sensor/collider sets mutually consistent. `dirs[c]` is the heading unit
/// vector of vehicle `c`. Sensors of inactive vehicles are untouched.
pub fn cast_rays(world: &mut World, dirs: &Vec<Point>)
    requires
        world_wf(*old(world)),
        dirs@.len() == old(world).cars.cars@.len(),
        forall|c: int|
            0 <= c < dirs@.len() ==> -SCALE <= (#[trigger] dirs@[c]).x <= SCALE && -SCALE
                <= dirs@[c].y <= SCALE,
    ensures
        world_wf(*final(world)),
        final(world).cars == old(world).cars,
        final(world).rays@.len() == old(world).rays@.len(),
        final(world).obstacles@.len() == old(world).obstacles@.len(),
        forall|r: int|
            0 <= r < old(world).rays@.len() ==> (#[trigger] final(world).rays@[r]).length == old(
                world,
            ).rays@[r].length && final(world).rays@[r].rel_dir == old(world).rays@[r].rel_dir,
        forall|o: int|
            0 <= o < old(world).obstacles@.len() ==> (#[trigger] final(world).obstacles@[o]).pos
                == old(world).obstacles@[o].pos && final(world).obstacles@[o].half_size == old(
                world,
            ).obstacles@[o].half_size,
        forall|r: int|
            0 <= r < old(world).rays@.len() && !processed_upto(
                old(world).cars.cars@,
                old(world).cars.cars@.len() as int,
                0,
                r,
            ) ==> (#[trigger] final(world).rays@[r]) == old(world).rays@[r],
        forall|c: int, k: int|
            0 <= c < old(world).cars.cars@.len() && car_active(old(world).cars.cars@[c]) && 0 <= k
                < old(world).cars.cars@[c].ray_ids@.len() ==> ray_synced(
                old(world).rays@[(#[trigger] old(world).cars.cars@[c].ray_ids@[k]) as int],
                final(world).rays@[old(world).cars.cars@[c].ray_ids@[k] as int],
                car_origin(old(world).cars.cars@[c]),
                dirs@[c],
                old(world).obstacles@,
            ),
{
    let n_cars: usize = world.cars.cars.len();
    let ghost cars0 = old(world).cars.cars@;
    let ghost rays0 = old(world).rays@;
    let ghost obstacles0 = old(world).obstacles@;
    let mut c: usize = 0;
    while c < n_cars
        invariant
            c <= n_cars,
            n_cars == cars0.len(),
            world.cars == old(world).cars,
            world.cars.cars@ == cars0,
            world.rays@.len() == rays0.len(),
            world.obstacles@.len() == obstacles0.len(),
            world_wf(*world),
            cars0 == old(world).cars.cars@,
            rays0 == old(world).rays@,
            obstacles0 == old(world).obstacles@,
            world_wf(*old(world)),
            dirs@.len() == cars0.len(),
            forall|c2: int|
                0 <= c2 < dirs@.len() ==> -SCALE <= (#[trigger] dirs@[c2]).x <= SCALE && -SCALE
                    <= dirs@[c2].y <= SCALE,
            forall|r: int|
                0 <= r < rays0.len() ==> (#[trigger] world.rays@[r]).length == rays0[r].length
                    && world.rays@[r].rel_dir == rays0[r].rel_dir,
            forall|o: int|
                0 <= o < obstacles0.len() ==> (#[trigger] world.obstacles@[o]).pos
                    == obstacles0[o].pos && world.obstacles@[o].half_size
                    == obstacles0[o].half_size,
            forall|r: int|
                0 <= r < rays0.len() && !processed_upto(cars0, c as int, 0, r) ==> (
                #[trigger] world.rays@[r]) == rays0[r],
            forall|c2: int, k2: int|
                0 <= c2 < c && car_active(cars0[c2]) && 0 <= k2 < cars0[c2].ray_ids@.len()
                    ==> ray_synced(
                    rays0[(#[trigger] cars0[c2].ray_ids@[k2]) as int],
                    world.rays@[cars0[c2].ray_ids@[k2] as int],
                    car_origin(cars0[c2]),
                    dirs@[c2],
                    obstacles0,
                ),
        decreases n_cars - c,
    {
        let active: bool = !world.cars.cars[c].collided && !world.cars.cars[c].removed;
        if active {
            let px: i64 = world.cars.cars[c].pose.x;
            let py: i64 = world.cars.cars[c].pose.y;
            let origin = Point { x: px, y: py };
            let heading: Point = dirs[c];
            let n_ids: usize = world.cars.cars[c].ray_ids.len();
            let mut k: usize = 0;
            while k < n_ids
                invariant
                    k <= n_ids,
                    c < n_cars,
                    n_cars == cars0.len(),
                    n_ids == cars0[c as int].ray_ids@.len(),
                    car_active(cars0[c as int]),
                    origin == car_origin(cars0[c as int]),
                    heading == dirs@[c as int],
                    world.cars == old(world).cars,
                    world.cars.cars@ == cars0,
                    world.rays@.len() == rays0.len(),
                    world.obstacles@.len() == obstacles0.len(),
                    world_wf(*world),
                    cars0 == old(world).cars.cars@,
                    rays0 == old(world).rays@,
                    obstacles0 == old(world).obstacles@,
                    world_wf(*old(world)),
                    dirs@.len() == cars0.len(),
                    forall|c2: int|
                        0 <= c2 < dirs@.len() ==> -SCALE <= (#[trigger] dirs@[c2]).x <= SCALE
                            && -SCALE <= dirs@[c2].y <= SCALE,
                    forall|r: int|
                        0 <= r < rays0.len() ==> (#[trigger] world.rays@[r]).length
                            == rays0[r].length && world.rays@[r].rel_dir == rays0[r].rel_dir,
                    forall|o: int|
                        0 <= o < obstacles0.len() ==> (#[trigger] world.obstacles@[o]).pos
                            == obstacles0[o].pos && world.obstacles@[o].half_size
                            == obstacles0[o].half_size,
                    forall|r: int|
                        0 <= r < rays0.len() && !processed_upto(cars0, c as int, k as int, r) ==> (
                        #[trigger] world.rays@[r]) == rays0[r],
                    forall|c2: int, k2: int|
                        0 <= c2 < cars0.len() && car_active(cars0[c2]) && 0 <= k2
                            < cars0[c2].ray_ids@.len() && (c2 < c || (c2 == c && k2 < k))
                            ==> ray_synced(
                            rays0[(#[trigger] cars0[c2].ray_ids@[k2]) as int],
                            world.rays@[cars0[c2].ray_ids@[k2] as int],
                            car_origin(cars0[c2]),
                            dirs@[c2],
                            obstacles0,
                        ),
                decreases n_ids - k,
            {
                let rid: usize = world.cars.cars[c].ray_ids[k];
                proof {
                    assert(cars0[c as int].ray_ids@[k as int] == rid);
                    assert(!processed_upto(cars0, c as int, k as int, rid as int));
                    assert(world.rays@[rid as int] == rays0[rid as int]);
                }
                let ghost rays_before = world.rays@;
                let ghost obstacles_before = world.obstacles@;
                cast_ray_against_obstacles(
                    &mut world.rays[rid],
                    rid,
                    origin,
                    heading,
                    &mut world.obstacles,
                );
                proof {
                    assert forall|r: int|
                        0 <= r < rays0.len() && !processed_upto(
                            cars0,
                            c as int,
                            k as int + 1,
                            r,
                        ) implies (#[trigger] world.rays@[r]) == rays0[r] by {
                        assert(r != rid);
                        assert(!processed_upto(cars0, c as int, k as int, r));
                        assert(world.rays@[r] == rays_before[r]);
                    }
                    assert(rays_before[rid as int] == rays0[rid as int]);
                    assert(ray_synced(
                        rays0[rid as int],
                        world.rays@[rid as int],
                        origin,
                        heading,
                        obstacles0,
                    )) by {
                        assert forall|o: int| 0 <= o < obstacles0.len() implies ray_synced_at(
                            rays0[rid as int],
                            world.rays@[rid as int],
                            origin,
                            heading,
                            obstacles0[o],
                            o,
                        ) by {
                            assert(obstacles_before[o].pos == obstacles0[o].pos);
                            assert(obstacles_before[o].half_size == obstacles0[o].half_size);
                        }
                    }
                    assert forall|c2: int, k2: int|
                        0 <= c2 < cars0.len() && car_active(cars0[c2]) && 0 <= k2
                            < cars0[c2].ray_ids@.len() && (c2 < c || (c2 == c && k2 < k as int + 1))
                            implies ray_synced(
                            rays0[(#[trigger] cars0[c2].ray_ids@[k2]) as int],
                            world.rays@[cars0[c2].ray_ids@[k2] as int],
                            car_origin(cars0[c2]),
                            dirs@[c2],
                            obstacles0,
                        ) by {
                        let r2 = cars0[c2].ray_ids@[k2] as int;
                        if c2 == c && k2 == k as int {
                            assert(ray_synced(
                                rays0[r2],
                                world.rays@[r2],
                                origin,
                                heading,
                                obstacles0,
                            ));
                        } else {
                            assert(r2 != rid);
                            assert(world.rays@[r2] == rays_before[r2]);
                        }
                    }
                    assert(reciprocal_ok(*world)) by {
                        assert forall|r: int, o: int|
                            0 <= r < world.rays@.len() && 0 <= o
                                < world.obstacles@.len() implies contains_obstacle(
                            (#[trigger] world.rays@[r]).collisions@,
                            o,
                        ) == contains_ray(
                            (#[trigger] world.obstacles@[o]).collider.colliding_with@,
                            r,
                        ) by {
                            if r != rid {
                                assert(world.rays@[r] == rays_before[r]);
                                assert(contains_ray(
                                    world.obstacles@[o].collider.colliding_with@,
                                    r,
                                ) == contains_ray(
                                    obstacles_before[o].collider.colliding_with@,
                                    r,
                                ));
                            }
                        }
                    }
                }
                k = k + 1;
            }
        }
        c = c + 1;
    }
}

/// The input vector a vehicle's network reads: one offset per attached
/// sensor, in order.
pub open spec fn spec_inputs(rays: Seq<Ray>, ids: Seq<usize>) -> Seq<i64> {
    Seq::new(ids.len(), |i: int| crate::ray::spec_input_offset(rays[ids[i] as int]) as i64)
}

/// The controls derived from a network's output vector: forward minus
/// reverse throttle, left minus right steer; anything but a four-element
/// vector yields neutral controls.
pub open spec fn spec_controls_from(outputs: Seq<i64>) -> Controls {
    if outputs.len() == 4 {
        Controls {
            acceleration: (outputs[0] - outputs[3]) as i64,
            turn_direction: (outputs[1] - outputs[2]) as i64,
        }
    } else {
        Controls { acceleration: 0, turn_direction: 0 }
    }
}

/// Every sensor reference resolves to a sensor of the arena.
pub open spec fn ids_resolvable(ids: Seq<usize>, n_rays: int) -> bool {
    forall|i: int| 0 <= i < ids.len() ==> (#[trigger] ids[i]) < n_rays
}

/// Control decision pass: each active vehicle reads its sensors' offsets,
/// evaluates its network, and adopts the resulting controls. A vehicle with
/// an unresolvable sensor reference is removed from the simulation instead
/// (a conservative fail-safe), leaving everything else about it unchanged.
/// Collided and removed vehicles are untouched.
pub fn update(world: &mut World)
    requires
        world_wf(*old(world)),
    ensures
        world_wf(*final(world)),
        final(world).rays == old(world).rays,
        final(world).obstacles == old(world).obstacles,
        final(world).cars.cars@.len() == old(world).cars.cars@.len(),
        forall|c: int|
            0 <= c < old(world).cars.cars@.len() && !car_active(#[trigger] old(
                world,
            ).cars.cars@[c]) ==> final(world).cars.cars@[c] == old(world).cars.cars@[c],
        forall|c: int|
            0 <= c < old(world).cars.cars@.len() && car_active(#[trigger] old(world).cars.cars@[c])
                && ids_resolvable(
                old(world).cars.cars@[c].network.input_rays@,
                old(world).rays@.len() as int,
            ) ==> {
                let rec0 = old(world).cars.cars@[c];
                let rec1 = final(world).cars.cars@[c];
                &&& rec1.controls == spec_controls_from(
                    crate::network::network_eval(
                        rec0.network.levels@,
                        spec_inputs(old(world).rays@, rec0.network.input_rays@),
                    ),
                )
                &&& crate::network::levels_equiv(rec1.network.levels@, rec0.network.levels@)
                &&& rec1.network.input_rays@ == rec0.network.input_rays@
                &&& rec1.car == rec0.car
                &&& rec1.pose == rec0.pose
                &&& rec1.half_size == rec0.half_size
                &&& rec1.collided == rec0.collided
                &&& rec1.removed == rec0.removed
                &&& rec1.ray_ids == rec0.ray_ids
            },
        forall|c: int|
            0 <= c < old(world).cars.cars@.len() && car_active(#[trigger] old(world).cars.cars@[c])
                && !ids_resolvable(
                old(world).cars.cars@[c].network.input_rays@,
                old(world).rays@.len() as int,
            ) ==> {
                let rec0 = old(world).cars.cars@[c];
                let rec1 = final(world).cars.cars@[c];
                &&& rec1.removed == true
                &&& rec1.collided == rec0.collided
                &&& rec1.car == rec0.car
                &&& rec1.pose == rec0.pose
                &&& rec1.half_size == rec0.half_size
                &&& rec1.controls == rec0.controls
                &&& rec1.network == rec0.network
                &&& rec1.ray_ids == rec0.ray_ids
            },
{
    let ghost cars0 = old(world).cars.cars@;
    let ghost rays0 = old(world).rays@;
    let n_cars: usize = world.cars.cars.len();
    let n_rays: usize = world.rays.len();
    let mut c: usize = 0;
    while c < n_cars
        invariant
            c <= n_cars,
            n_cars == cars0.len(),
            n_rays == rays0.len(),
            world.rays == old(world).rays,
            world.obstacles == old(world).obstacles,
            world.cars.cars@.len() == cars0.len(),
            cars0 == old(world).cars.cars@,
            rays0 == old(world).rays@,
            world_wf(*old(world)),
            world_wf(*world),
            forall|c2: int| c <= c2 < n_cars ==> world.cars.cars@[c2] == cars0[c2],
            forall|c2: int|
                0 <= c2 < c && !car_active(#[trigger] cars0[c2]) ==> world.cars.cars@[c2]
                    == cars0[c2],
            forall|c2: int|
                0 <= c2 < c && car_active(#[trigger] cars0[c2]) && ids_resolvable(
                    cars0[c2].network.input_rays@,
                    rays0.len() as int,
                ) ==> {
                    let rec0 = cars0[c2];
                    let rec1 = world.cars.cars@[c2];
                    &&& rec1.controls == spec_controls_from(
                        crate::network::network_eval(
                            rec0.network.levels@,
                            spec_inputs(rays0, rec0.network.input_rays@),
                        ),
                    )
                    &&& crate::network::levels_equiv(rec1.network.levels@, rec0.network.levels@)
                    &&& rec1.network.input_rays@ == rec0.network.input_rays@
                    &&& rec1.car == rec0.car
                    &&& rec1.pose == rec0.pose
                    &&& rec1.half_size == rec0.half_size
                    &&& rec1.collided == rec0.collided
                    &&& rec1.removed == rec0.removed
                    &&& rec1.ray_ids == rec0.ray_ids
                },
            forall|c2: int|
                0 <= c2 < c && car_active(#[trigger] cars0[c2]) && !ids_resolvable(
                    cars0[c2].network.input_rays@,
                    rays0.len() as int,
                ) ==> {
                    let rec0 = cars0[c2];
                    let rec1 = world.cars.cars@[c2];
                    &&& rec1.removed == true
                    &&& rec1.collided == rec0.collided
                    &&& rec1.car == rec0.car
                    &&& rec1.pose == rec0.pose
                    &&& rec1.half_size == rec0.half_size
                    &&& rec1.controls == rec0.controls
                    &&& rec1.network == rec0.network
                    &&& rec1.ray_ids == rec0.ray_ids
                },
        decreases n_cars - c,
    {
        let active: bool = !world.cars.cars[c].collided && !world.cars.cars[c].removed;
        if active {
            let n_ids: usize = world.cars.cars[c].network.input_rays.len();
            let mut valid: bool = true;
            let mut i: usize = 0;
            while i < n_ids
                invariant
                    i <= n_ids,
                    c < n_cars,
                    n_cars == world.cars.cars@.len(),
                    n_ids == world.cars.cars@[c as int].network.input_rays@.len(),
                    n_rays == world.rays@.len(),
                    valid == (forall|a: int|
                        0 <= a < i ==> (
                        #[trigger] world.cars.cars@[c as int].network.input_rays@[a])
                            < n_rays),
                decreases n_ids - i,
            {
                let id: usize = world.cars.cars[c].network.input_rays[i];
                if id >= n_rays {
                    valid = false;
                }
                i = i + 1;
            }
            if !valid {
                // Fail-safe: a sensor reference that cannot be resolved
                // removes the vehicle from the simulation entirely.
                world.cars.cars[c].removed = true;
            } else {
                let mut inputs: Vec<i64> = Vec::new();
                let mut k: usize = 0;
                while k < n_ids
                    invariant
                        k <= n_ids,
                        c < n_cars,
                        n_cars == world.cars.cars@.len(),
                        n_ids == world.cars.cars@[c as int].network.input_rays@.len(),
                        n_rays == world.rays@.len(),
                        rays0 == world.rays@,
                        world_wf(*world),
                        forall|a: int|
                            0 <= a < n_ids ==> (
                            #[trigger] world.cars.cars@[c as int].network.input_rays@[a]) < n_rays,
                        inputs@.len() == k,
                        forall|a: int|
                            0 <= a < k ==> #[trigger] inputs@[a] == spec_inputs(
                                rays0,
                                world.cars.cars@[c as int].network.input_rays@,
                            )[a],
                        forall|a: int| 0 <= a < k ==> -ONE <= #[trigger] inputs@[a] <= ONE,
                    decreases n_ids - k,
                {
                    let id: usize = world.cars.cars[c].network.input_rays[k];
                    let off: i64 = world.rays[id].input_offset();
                    inputs.push(off);
                    k = k + 1;
                }
                proof {
                    assert(inputs@ =~= spec_inputs(
                        rays0,
                        world.cars.cars@[c as int].network.input_rays@,
                    ));
                }
                let outputs = world.cars.cars[c].network.feed_forward(&inputs);
                let accel: i64 = if outputs.len() == 4 {
                    outputs[0] - outputs[3]
                } else {
                    0
                };
                let turn: i64 = if outputs.len() == 4 {
                    outputs[1] - outputs[2]
                } else {
                    0
                };
                world.cars.cars[c].controls = Controls { acceleration: accel, turn_direction: turn };
            }
        }
        c = c + 1;
    }
}

/// Heading rotation actually applied this tick: the steering rotation when
/// the vehicle moves fast enough for steering to matter, zero otherwise.
pub open spec fn spec_applied_rotation(turn: int, handling: int, speed: int, acceleration: int) -> int {
    if crate::car::spec_steering_active(speed, acceleration) {
        crate::car::spec_rotation(turn, handling)
    } else {
        0
    }
}

/// A heading plus a small rotation, wrapped back into [0, 2*PI_FP).
pub open spec fn spec_wrap_heading(h: int) -> int {
    if h < 0 {
        h + 2 * PI_FP
    } else if h >= 2 * PI_FP {
        h - 2 * PI_FP
    } else {
        h
    }
}

/// Kinematics pass, short of translation: each active vehicle advances its
/// speed (throttle, friction, clamp), recomputes its steering response, and
/// rotates its heading by the steering applied this tick. Collided and
/// removed vehicles are excluded entirely.
pub fn move_cars(world: &mut World)
    requires
        world_wf(*old(world)),
    ensures
        world_wf(*final(world)),
        final(world).rays == old(world).rays,
        final(world).obstacles == old(world).obstacles,
        final(world).cars.cars@.len() == old(world).cars.cars@.len(),
        forall|c: int|
            0 <= c < old(world).cars.cars@.len() && !car_active(#[trigger] old(
                world,
            ).cars.cars@[c]) ==> final(world).cars.cars@[c] == old(world).cars.cars@[c],
        forall|c: int|
            0 <= c < old(world).cars.cars@.len() && car_active(#[trigger] old(world).cars.cars@[c])
                ==> {
                let rec0 = old(world).cars.cars@[c];
                let rec1 = final(world).cars.cars@[c];
                let speed1 = crate::car::spec_speed_tick(
                    rec0.car.speed as int,
                    rec0.car.acceleration as int,
                    rec0.car.friction as int,
                    rec0.car.max_speed as int,
                    rec0.controls.acceleration as int,
                    true,
                );
                let handling1 = crate::car::spec_handling_tick(
                    rec0.car.handling as int,
                    rec0.car.max_handling as int,
                    speed1,
                    rec0.car.acceleration as int,
                );
                &&& rec1.car.speed == speed1
                &&& rec1.car.handling == handling1
                &&& rec1.car.acceleration == rec0.car.acceleration
                &&& rec1.car.friction == rec0.car.friction
                &&& rec1.car.max_handling == rec0.car.max_handling
                &&& rec1.car.max_speed == rec0.car.max_speed
                &&& rec1.pose.heading == spec_wrap_heading(
                    rec0.pose.heading + spec_applied_rotation(
                        rec0.controls.turn_direction as int,
                        handling1,
                        speed1,
                        rec0.car.acceleration as int,
                    ),
                )
                &&& rec1.pose.x == rec0.pose.x
                &&& rec1.pose.y == rec0.pose.y
                &&& rec1.controls == rec0.controls
                &&& rec1.network == rec0.network
                &&& rec1.ray_ids == rec0.ray_ids
                &&& rec1.half_size == rec0.half_size
                &&& rec1.collided == rec0.collided
                &&& rec1.removed == rec0.removed
            },
{
    let ghost cars0 = old(world).cars.cars@;
    let n_cars: usize = world.cars.cars.len();
    let mut c: usize = 0;
    while c < n_cars
        invariant
            c <= n_cars,
            n_cars == cars0.len(),
            world.rays == old(world).rays,
            world.obstacles == old(world).obstacles,
            world.cars.cars@.len() == cars0.len(),
            cars0 == old(world).cars.cars@,
            world_wf(*old(world)),
            world_wf(*world),
            forall|c2: int| c <= c2 < n_cars ==> world.cars.cars@[c2] == cars0[c2],
            forall|c2: int|
                0 <= c2 < c && !car_active(#[trigger] cars0[c2]) ==> world.cars.cars@[c2]
                    == cars0[c2],
            forall|c2: int|
                0 <= c2 < c && car_active(#[trigger] cars0[c2]) ==> {
                    let rec0 = cars0[c2];
                    let rec1 = world.cars.cars@[c2];
                    let speed1 = crate::car::spec_speed_tick(
                        rec0.car.speed as int,
                        rec0.car.acceleration as int,
                        rec0.car.friction as int,
                        rec0.car.max_speed as int,
                        rec0.controls.acceleration as int,
                        true,
                    );
                    let handling1 = crate::car::spec_handling_tick(
                        rec0.car.handling as int,
                        rec0.car.max_handling as int,
                        speed1,
                        rec0.car.acceleration as int,
                    );
                    &&& rec1.car.speed == speed1
                    &&& rec1.car.handling == handling1
                    &&& rec1.car.acceleration == rec0.car.acceleration
                    &&& rec1.car.friction == rec0.car.friction
                    &&& rec1.car.max_handling == rec0.car.max_handling
                    &&& rec1.car.max_speed == rec0.car.max_speed
                    &&& rec1.pose.heading == spec_wrap_heading(
                        rec0.pose.heading + spec_applied_rotation(
                            rec0.controls.turn_direction as int,
                            handling1,
                            speed1,
                            rec0.car.acceleration as int,
                        ),
                    )
                    &&& rec1.pose.x == rec0.pose.x
                    &&& rec1.pose.y == rec0.pose.y
                    &&& rec1.controls == rec0.controls
                    &&& rec1.network == rec0.network
                    &&& rec1.ray_ids == rec0.ray_ids
                    &&& rec1.half_size == rec0.half_size
                    &&& rec1.collided == rec0.collided
                    &&& rec1.removed == rec0.removed
                },
        decreases n_cars - c,
    {
        let active: bool = !world.cars.cars[c].collided && !world.cars.cars[c].removed;
        if active {
            let control_acc: i64 = world.cars.cars[c].controls.acceleration;
            let turn: i64 = world.cars.cars[c].controls.turn_direction;
            world.cars.cars[c].car.tick_speed(control_acc, true);
            world.cars.cars[c].car.update_handling();
            let speed: i64 = world.cars.cars[c].car.speed;
            let acc: i64 = world.cars.cars[c].car.acceleration;
            let handling: i64 = world.cars.cars[c].car.handling;
            let mag: i64 = if speed < 0 {
                -speed
            } else {
                speed
            };
            let rot: i64 = if speed != 0 && 2 * mag > 3 * acc {
                crate::car::rotation_delta(turn, handling)
            } else {
                0
            };
            let h0: i64 = world.cars.cars[c].pose.heading;
            let mut h1: i64 = h0 + rot;
            if h1 < 0 {
                h1 = h1 + 2 * PI_FP;
            } else if h1 >= 2 * PI_FP {
                h1 = h1 - 2 * PI_FP;
            }
            world.cars.cars[c].pose.heading = h1;
        }
        c = c + 1;
    }
}

/// Distance a vehicle travels along one axis this tick: the heading unit
/// component times the speed, over one tick of time.
pub open spec fn spec_step(dir_component: int, speed: int) -> int {
    crate::fixed::tdiv(
        dir_component * speed,
        SCALE as int * crate::car::TICKS_PER_SECOND as int,
    )
}

/// Translation pass: each active vehicle moves along its heading unit
/// vector `dirs[c]` by its speed over one tick. Requires headroom to the
/// arena edge so that every pose stays within bounds.
pub fn advance_positions(world: &mut World, dirs: &Vec<Point>)
    requires
        world_wf(*old(world)),
        dirs@.len() == old(world).cars.cars@.len(),
        forall|c: int|
            0 <= c < dirs@.len() ==> -SCALE <= (#[trigger] dirs@[c]).x <= SCALE && -SCALE
                <= dirs@[c].y <= SCALE,
        forall|c: int|
            0 <= c < old(world).cars.cars@.len() && car_active(#[trigger] old(world).cars.cars@[c])
                ==> -POS_LIMIT + 20_000 <= old(world).cars.cars@[c].pose.x <= POS_LIMIT - 20_000
                && -POS_LIMIT + 20_000 <= old(world).cars.cars@[c].pose.y <= POS_LIMIT - 20_000,
    ensures
        world_wf(*final(world)),
        final(world).rays == old(world).rays,
        final(world).obstacles == old(world).obstacles,
        final(world).cars.cars@.len() == old(world).cars.cars@.len(),
        forall|c: int|
            0 <= c < old(world).cars.cars@.len() && !car_active(#[trigger] old(
                world,
            ).cars.cars@[c]) ==> final(world).cars.cars@[c] == old(world).cars.cars@[c],
        forall|c: int|
            0 <= c < old(world).cars.cars@.len() && car_active(#[trigger] old(world).cars.cars@[c])
                ==> {
                let rec0 = old(world).cars.cars@[c];
                let rec1 = final(world).cars.cars@[c];
                &&& rec1.pose.x == rec0.pose.x + spec_step(dirs@[c].x as int, rec0.car.speed as int)
                &&& rec1.pose.y == rec0.pose.y + spec_step(dirs@[c].y as int, rec0.car.speed as int)
                &&& rec1.pose.heading == rec0.pose.heading
                &&& rec1.car == rec0.car
                &&& rec1.controls == rec0.controls
                &&& rec1.network == rec0.network
                &&& rec1.ray_ids == rec0.ray_ids
                &&& rec1.half_size == rec0.half_size
                &&& rec1.collided == rec0.collided
                &&& rec1.removed == rec0.removed
            },
{
    let ghost cars0 = old(world).cars.cars@;
    let n_cars: usize = world.cars.cars.len();
    let mut c: usize = 0;
    while c < n_cars
        invariant
            c <= n_cars,
            n_cars == cars0.len(),
            world.rays == old(world).rays,
            world.obstacles == old(world).obstacles,
            world.cars.cars@.len() == cars0.len(),
            cars0 == old(world).cars.cars@,
            world_wf(*old(world)),
            world_wf(*world),
            dirs@.len() == cars0.len(),
            forall|c2: int|
                0 <= c2 < dirs@.len() ==> -SCALE <= (#[trigger] dirs@[c2]).x <= SCALE && -SCALE
                    <= dirs@[c2].y <= SCALE,
            forall|c2: int|
                0 <= c2 < cars0.len() && car_active(#[trigger] cars0[c2]) ==> -POS_LIMIT + 20_000
                    <= cars0[c2].pose.x <= POS_LIMIT - 20_000 && -POS_LIMIT + 20_000
                    <= cars0[c2].pose.y <= POS_LIMIT - 20_000,
            forall|c2: int| c <= c2 < n_cars ==> world.cars.cars@[c2] == cars0[c2],
            forall|c2: int|
                0 <= c2 < c && !car_active(#[trigger] cars0[c2]) ==> world.cars.cars@[c2]
                    == cars0[c2],
            forall|c2: int|
                0 <= c2 < c && car_active(#[trigger] cars0[c2]) ==> {
                    let rec0 = cars0[c2];
                    let rec1 = world.cars.cars@[c2];
                    &&& rec1.pose.x == rec0.pose.x + spec_step(
                        dirs@[c2].x as int,
                        rec0.car.speed as int,
                    )
                    &&& rec1.pose.y == rec0.pose.y + spec_step(
                        dirs@[c2].y as int,
                        rec0.car.speed as int,
                    )
                    &&& rec1.pose.heading == rec0.pose.heading
                    &&& rec1.car == rec0.car
                    &&& rec1.controls == rec0.controls
                    &&& rec1.network == rec0.network
                    &&& rec1.ray_ids == rec0.ray_ids
                    &&& rec1.half_size == rec0.half_size
                    &&& rec1.collided == rec0.collided
                    &&& rec1.removed == rec0.removed
                },
        decreases n_cars - c,
    {
        let active: bool = !world.cars.cars[c].collided && !world.cars.cars[c].removed;
        if active {
            let speed: i64 = world.cars.cars[c].car.speed;
            let dir: Point = dirs[c];
            proof {
                crate::geometry::lemma_mul_abs_bound(
                    dir.x as int,
                    speed as int,
                    1000,
                    1_000_000,
                );
                crate::geometry::lemma_mul_abs_bound(
                    dir.y as int,
                    speed as int,
                    1000,
                    1_000_000,
                );
                crate::fixed::lemma_tdiv_abs_le(
                    dir.x as int * speed as int,
                    60_000,
                    1_000_000_000,
                );
                crate::fixed::lemma_tdiv_abs_le(
                    dir.y as int * speed as int,
                    60_000,
                    1_000_000_000,
                );
                vstd::arithmetic::div_mod::lemma_fundamental_div_mod_converse(
                    1_000_000_000,
                    60_000,
                    16_666,
                    40_000,
                );
            }
            let dx: i64 = dir.x * speed / (SCALE * crate::car::TICKS_PER_SECOND);
            let dy: i64 = dir.y * speed / (SCALE * crate::car::TICKS_PER_SECOND);
            let px: i64 = world.cars.cars[c].pose.x;
            let py: i64 = world.cars.cars[c].pose.y;
            world.cars.cars[c].pose.x = px + dx;
            world.cars.cars[c].pose.y = py + dy;
            proof {
                assert(car_active(cars0[c as int]));
                assert(-16_666 <= dx <= 16_666 && -16_666 <= dy <= 16_666);
                assert(pose_wf(world.cars.cars@[c as int].pose));
                assert(car_record_wf(world.cars.cars@[c as int], world.rays@.len() as int));
            }
        }
        c = c + 1;
    }
}

/// The two centers are nearer than `bound`.
pub open spec fn spec_close(a: Point, b: Point, bound: int) -> bool {
    (a.x - b.x) * (a.x - b.x) + (a.y - b.y) * (a.y - b.y) < bound * bound
}

/// Strict axis-aligned bounding-box overlap of two rectangles given by
/// center and half-extent.
pub open spec fn spec_overlap(apos: Point, ahalf: Point, bpos: Point, bhalf: Point) -> bool {
    &&& apos.x - ahalf.x < bpos.x + bhalf.x
    &&& apos.x + ahalf.x > bpos.x - bhalf.x
    &&& apos.y - ahalf.y < bpos.y + bhalf.y
    &&& apos.y + ahalf.y > bpos.y - bhalf.y
}

/// The vehicle overlaps some obstacle that passed the cheap distance
/// rejection (centers nearer than the vehicle's full height).
pub open spec fn spec_car_hits(rec: CarRecord, obstacles: Seq<Obstacle>) -> bool {
    exists|o: int|
        0 <= o < obstacles.len() && spec_close(
            car_origin(rec),
            (#[trigger] obstacles[o]).pos,
            2 * rec.half_size.y,
        ) && spec_overlap(car_origin(rec), rec.half_size, obstacles[o].pos, obstacles[o].half_size)
}

/// The cheap distance rejection of the collision detector.
fn close_enough(a: Point, b: Point, bound: i64) -> (r: bool)
    requires
        -POS_LIMIT <= a.x <= POS_LIMIT,
        -POS_LIMIT <= a.y <= POS_LIMIT,
        -POS_LIMIT <= b.x <= POS_LIMIT,
        -POS_LIMIT <= b.y <= POS_LIMIT,
        0 <= bound <= 2 * HALF_LIMIT,
    ensures
        r == spec_close(a, b, bound as int),
{
    let dx: i128 = (a.x - b.x) as i128;
    let dy: i128 = (a.y - b.y) as i128;
    proof {
        crate::geometry::lemma_mul_abs_bound(dx as int, dx as int, 800_000_000, 800_000_000);
        crate::geometry::lemma_mul_abs_bound(dy as int, dy as int, 800_000_000, 800_000_000);
        crate::geometry::lemma_mul_abs_bound(bound as int, bound as int, 200_000_000, 200_000_000);
    }
    let b128: i128 = bound as i128;
    dx * dx + dy * dy < b128 * b128
}

/// Empty a sensor's collision set, removing the reciprocal entries from
/// every obstacle: performed when the sensor's vehicle leaves the
/// simulation.
fn clear_ray(ray: &mut Ray, ray_id: usize, obstacles: &mut Vec<Obstacle>)
    requires
        ray_wf(*old(ray)),
        forall|o: int|
            0 <= o < old(obstacles)@.len() ==> obstacle_wf(#[trigger] old(obstacles)@[o]),
        forall|o: int|
            0 <= o < old(obstacles)@.len() ==> contains_obstacle(old(ray).collisions@, o)
                == contains_ray(
                (#[trigger] old(obstacles)@[o]).collider.colliding_with@,
                ray_id as int,
            ),
        forall|i: int|
            0 <= i < old(ray).collisions@.len() ==> ((#[trigger] old(ray).collisions@[i]).0 as int)
                < old(obstacles)@.len(),
    ensures
        final(ray).length == old(ray).length,
        final(ray).rel_dir == old(ray).rel_dir,
        ray_wf(*final(ray)),
        final(ray).collisions@.len() == 0,
        final(obstacles)@.len() == old(obstacles)@.len(),
        forall|o: int|
            0 <= o < old(obstacles)@.len() ==> (#[trigger] final(obstacles)@[o]).pos == old(
                obstacles,
            )@[o].pos && final(obstacles)@[o].half_size == old(obstacles)@[o].half_size
                && obstacle_wf(final(obstacles)@[o]),
        forall|o: int|
            0 <= o < old(obstacles)@.len() ==> !contains_ray(
                (#[trigger] final(obstacles)@[o]).collider.colliding_with@,
                ray_id as int,
            ),
        forall|o: int, r2: int|
            0 <= o < old(obstacles)@.len() && r2 != ray_id ==> #[trigger] contains_ray(
                final(obstacles)@[o].collider.colliding_with@,
                r2,
            ) == contains_ray(old(obstacles)@[o].collider.colliding_with@, r2),
{
    let n: usize = obstacles.len();
    let mut j: usize = 0;
    while j < n
        invariant
            j <= n,
            n == obstacles@.len(),
            n == old(obstacles)@.len(),
            ray.length == old(ray).length,
            ray.rel_dir == old(ray).rel_dir,
            ray_wf(*ray),
            forall|o: int| j <= o < n ==> obstacles@[o] == old(obstacles)@[o],
            forall|o: int|
                0 <= o < n ==> obstacle_wf(#[trigger] old(obstacles)@[o]),
            forall|o: int|
                0 <= o < n ==> (#[trigger] obstacles@[o]).pos == old(obstacles)@[o].pos
                    && obstacles@[o].half_size == old(obstacles)@[o].half_size && obstacle_wf(
                    obstacles@[o],
                ),
            forall|o: int|
                0 <= o < n ==> contains_obstacle(old(ray).collisions@, o) == contains_ray(
                    (#[trigger] old(obstacles)@[o]).collider.colliding_with@,
                    ray_id as int,
                ),
            forall|o: int|
                0 <= o < n ==> contains_obstacle(ray.collisions@, o) == contains_ray(
                    (#[trigger] obstacles@[o]).collider.colliding_with@,
                    ray_id as int,
                ),
            forall|o: int| 0 <= o < j ==> !contains_obstacle(ray.collisions@, o),
            forall|i: int|
                0 <= i < ray.collisions@.len() ==> ((#[trigger] ray.collisions@[i]).0 as int) < n,
            forall|o: int, r2: int|
                0 <= o < n && r2 != ray_id ==> #[trigger] contains_ray(
                    obstacles@[o].collider.colliding_with@,
                    r2,
                ) == contains_ray(old(obstacles)@[o].collider.colliding_with@, r2),
        decreases n - j,
    {
        let ghost prev_collisions = ray.collisions@;
        sync_pair(ray, ray_id, &mut obstacles[j], j, None);
        proof {
            assert forall|i: int|
                0 <= i < ray.collisions@.len() implies ((#[trigger] ray.collisions@[i]).0
                    as int) < n by {
                assert(has_pair(prev_collisions, ray.collisions@[i]));
                let w = choose|w: int|
                    0 <= w < prev_collisions.len() && prev_collisions[w] == ray.collisions@[i];
            }
            assert forall|o: int| 0 <= o < j + 1 implies !contains_obstacle(
                ray.collisions@,
                o,
            ) by {
                if o < j {
                    if contains_obstacle(ray.collisions@, o) {
                        let w = choose|w: int|
                            0 <= w < ray.collisions@.len() && (ray.collisions@[w]).0 == o;
                        assert(has_pair(prev_collisions, ray.collisions@[w]));
                        let v = choose|v: int|
                            0 <= v < prev_collisions.len() && prev_collisions[v]
                                == ray.collisions@[w];
                        assert(contains_obstacle(prev_collisions, o));
                    }
                }
            }
        }
        j = j + 1;
    }
    proof {
        if ray.collisions@.len() > 0 {
            assert(contains_obstacle(ray.collisions@, ray.collisions@[0].0 as int));
        }
    }
}

/// Collision detection pass: every active vehicle whose rectangle overlaps
/// an obstacle (after the cheap distance rejection) transitions to the
/// terminal collided state; its sensors are detached — their collision sets
/// emptied on both sides — and it takes no further part in the control
/// loop. Vehicles already collided or removed are untouched, as are the
/// sensors of unaffected vehicles.
pub fn check_collisions(world: &mut World)
    requires
        world_wf(*old(world)),
    ensures
        world_wf(*final(world)),
        final(world).cars.cars@.len() == old(world).cars.cars@.len(),
        final(world).rays@.len() == old(world).rays@.len(),
        final(world).obstacles@.len() == old(world).obstacles@.len(),
        forall|o: int|
            0 <= o < old(world).obstacles@.len() ==> (#[trigger] final(world).obstacles@[o]).pos
                == old(world).obstacles@[o].pos && final(world).obstacles@[o].half_size == old(
                world,
            ).obstacles@[o].half_size,
        forall|r: int|
            0 <= r < old(world).rays@.len() ==> (#[trigger] final(world).rays@[r]).length == old(
                world,
            ).rays@[r].length && final(world).rays@[r].rel_dir == old(world).rays@[r].rel_dir,
        forall|c: int|
            0 <= c < old(world).cars.cars@.len() && !car_active(#[trigger] old(
                world,
            ).cars.cars@[c]) ==> final(world).cars.cars@[c] == old(world).cars.cars@[c],
        forall|c: int|
            0 <= c < old(world).cars.cars@.len() && car_active(#[trigger] old(world).cars.cars@[c])
                ==> {
                let rec0 = old(world).cars.cars@[c];
                let rec1 = final(world).cars.cars@[c];
                &&& rec1.collided == spec_car_hits(rec0, old(world).obstacles@)
                &&& rec1.car == rec0.car
                &&& rec1.pose == rec0.pose
                &&& rec1.half_size == rec0.half_size
                &&& rec1.controls == rec0.controls
                &&& rec1.network == rec0.network
                &&& rec1.removed == rec0.removed
                &&& (!spec_car_hits(rec0, old(world).obstacles@) ==> rec1.ray_ids == rec0.ray_ids)
                &&& (spec_car_hits(rec0, old(world).obstacles@) ==> rec1.ray_ids@.len() == 0)
            },
        forall|c: int, k: int|
            0 <= c < old(world).cars.cars@.len() && car_active(old(world).cars.cars@[c])
                && spec_car_hits(old(world).cars.cars@[c], old(world).obstacles@) && 0 <= k < old(
                world,
            ).cars.cars@[c].ray_ids@.len() ==> final(world).rays@[(#[trigger] old(
                world,
            ).cars.cars@[c].ray_ids@[k]) as int].collisions@.len() == 0,
        forall|r: int|
            0 <= r < old(world).rays@.len() && !(exists|c: int, k: int|
                0 <= c < old(world).cars.cars@.len() && car_active(old(world).cars.cars@[c])
                    && spec_car_hits(old(world).cars.cars@[c], old(world).obstacles@) && 0 <= k
                    < old(world).cars.cars@[c].ray_ids@.len() && (#[trigger] old(
                    world,
                ).cars.cars@[c].ray_ids@[k]) == r) ==> (#[trigger] final(world).rays@[r]) == old(
                world,
            ).rays@[r],
{
    let ghost cars0 = old(world).cars.cars@;
    let ghost rays0 = old(world).rays@;
    let ghost obstacles0 = old(world).obstacles@;
    let n_cars: usize = world.cars.cars.len();
    let n_obs: usize = world.obstacles.len();
    let mut c: usize = 0;
    while c < n_cars
        invariant
            c <= n_cars,
            n_cars == cars0.len(),
            n_obs == obstacles0.len(),
            world.cars.cars@.len() == cars0.len(),
            world.rays@.len() == rays0.len(),
            world.obstacles@.len() == obstacles0.len(),
            cars0 == old(world).cars.cars@,
            rays0 == old(world).rays@,
            obstacles0 == old(world).obstacles@,
            world_wf(*old(world)),
            world_wf(*world),
            forall|o: int|
                0 <= o < n_obs ==> (#[trigger] world.obstacles@[o]).pos == obstacles0[o].pos
                    && world.obstacles@[o].half_size == obstacles0[o].half_size,
            forall|r: int|
                0 <= r < rays0.len() ==> (#[trigger] world.rays@[r]).length == rays0[r].length
                    && world.rays@[r].rel_dir == rays0[r].rel_dir,
            forall|c2: int| c <= c2 < n_cars ==> world.cars.cars@[c2] == cars0[c2],
            forall|c2: int|
                0 <= c2 < c && !car_active(#[trigger] cars0[c2]) ==> world.cars.cars@[c2]
                    == cars0[c2],
            forall|c2: int|
                0 <= c2 < c && car_active(#[trigger] cars0[c2]) ==> {
                    let rec0 = cars0[c2];
                    let rec1 = world.cars.cars@[c2];
                    &&& rec1.collided == spec_car_hits(rec0, obstacles0)
                    &&& rec1.car == rec0.car
                    &&& rec1.pose == rec0.pose
                    &&& rec1.half_size == rec0.half_size
                    &&& rec1.controls == rec0.controls
                    &&& rec1.network == rec0.network
                    &&& rec1.removed == rec0.removed
                    &&& (!spec_car_hits(rec0, obstacles0) ==> rec1.ray_ids == rec0.ray_ids)
                    &&& (spec_car_hits(rec0, obstacles0) ==> rec1.ray_ids@.len() == 0)
                },
            forall|c2: int, k: int|
                0 <= c2 < c && car_active(cars0[c2]) && spec_car_hits(cars0[c2], obstacles0) && 0
                    <= k < cars0[c2].ray_ids@.len() ==> world.rays@[(#[trigger] cars0[c2].ray_ids@[k]) as int].collisions@.len()
                    == 0,
            forall|r: int|
                0 <= r < rays0.len() && !(exists|c2: int, k: int|
                    0 <= c2 < c && car_active(cars0[c2]) && spec_car_hits(cars0[c2], obstacles0)
                        && 0 <= k < cars0[c2].ray_ids@.len() && (#[trigger] cars0[c2].ray_ids@[k])
                        == r) ==> (#[trigger] world.rays@[r]) == rays0[r],
        decreases n_cars - c,
    {
        let active: bool = !world.cars.cars[c].collided && !world.cars.cars[c].removed;
        if active {
            let cpos = Point { x: world.cars.cars[c].pose.x, y: world.cars.cars[c].pose.y };
            let chalf: Point = world.cars.cars[c].half_size;
            let mut hit: bool = false;
            let mut o: usize = 0;
            while o < n_obs
                invariant
                    o <= n_obs,
                    c < n_cars,
                    n_obs == world.obstacles@.len(),
                    n_obs == obstacles0.len(),
                    n_cars == world.cars.cars@.len(),
                    cars0 == old(world).cars.cars@,
                    world.cars.cars@[c as int] == cars0[c as int],
                    cpos == car_origin(cars0[c as int]),
                    chalf == cars0[c as int].half_size,
                    world_wf(*world),
                    forall|o2: int|
                        0 <= o2 < n_obs ==> (#[trigger] world.obstacles@[o2]).pos
                            == obstacles0[o2].pos && world.obstacles@[o2].half_size
                            == obstacles0[o2].half_size,
                    hit ==> spec_car_hits(cars0[c as int], obstacles0),
                    !hit ==> forall|o2: int|
                        0 <= o2 < o ==> !(spec_close(
                            car_origin(cars0[c as int]),
                            (#[trigger] obstacles0[o2]).pos,
                            2 * cars0[c as int].half_size.y,
                        ) && spec_overlap(
                            car_origin(cars0[c as int]),
                            cars0[c as int].half_size,
                            obstacles0[o2].pos,
                            obstacles0[o2].half_size,
                        )),
                decreases n_obs - o,
            {
                let opos: Point = world.obstacles[o].pos;
                let ohalf: Point = world.obstacles[o].half_size;
                if close_enough(cpos, opos, 2 * chalf.y) {
                    if cpos.x - chalf.x < opos.x + ohalf.x && cpos.x + chalf.x > opos.x - ohalf.x
                        && cpos.y - chalf.y < opos.y + ohalf.y && cpos.y + chalf.y > opos.y
                        - ohalf.y {
                        hit = true;
                    }
                }
                o = o + 1;
            }
            proof {
                if !hit {
                    assert(!spec_car_hits(cars0[c as int], obstacles0)) by {
                        if spec_car_hits(cars0[c as int], obstacles0) {
                            let w = choose|w: int|
                                0 <= w < obstacles0.len() && spec_close(
                                    car_origin(cars0[c as int]),
                                    (#[trigger] obstacles0[w]).pos,
                                    2 * cars0[c as int].half_size.y,
                                ) && spec_overlap(
                                    car_origin(cars0[c as int]),
                                    cars0[c as int].half_size,
                                    obstacles0[w].pos,
                                    obstacles0[w].half_size,
                                );
                        }
                    }
                }
            }
            if hit {
                // Terminal transition: mark the vehicle collided and detach
                // its sensors from every collider.
                world.cars.cars[c].collided = true;
                let ghost rays_at_c = world.rays@;
                let n_ids: usize = world.cars.cars[c].ray_ids.len();
                let mut k: usize = 0;
                while k < n_ids
                    invariant
                        k <= n_ids,
                        c < n_cars,
                        n_cars == cars0.len(),
                        n_cars == world.cars.cars@.len(),
                        n_obs == obstacles0.len(),
                        n_ids == cars0[c as int].ray_ids@.len(),
                        world.rays@.len() == rays0.len(),
                        world.obstacles@.len() == obstacles0.len(),
                        cars0 == old(world).cars.cars@,
                        rays0 == old(world).rays@,
                        obstacles0 == old(world).obstacles@,
                        world_wf(*old(world)),
                        car_active(cars0[c as int]),
                        world.cars.cars@[c as int].ray_ids == cars0[c as int].ray_ids,
                        world.cars.cars@[c as int].collided,
                        world.cars.cars@[c as int].car == cars0[c as int].car,
                        world.cars.cars@[c as int].pose == cars0[c as int].pose,
                        world.cars.cars@[c as int].half_size == cars0[c as int].half_size,
                        world.cars.cars@[c as int].controls == cars0[c as int].controls,
                        world.cars.cars@[c as int].network == cars0[c as int].network,
                        world.cars.cars@[c as int].removed == cars0[c as int].removed,
                        spec_car_hits(cars0[c as int], obstacles0),
                        forall|c2: int|
                            0 <= c2 < n_cars ==> car_record_wf(
                                #[trigger] world.cars.cars@[c2],
                                world.rays@.len() as int,
                            ),
                        ray_ownership_disjoint(world.cars.cars@),
                        forall|c2: int| c < c2 < n_cars ==> world.cars.cars@[c2] == cars0[c2],
                        forall|c2: int|
                            0 <= c2 < c && !car_active(#[trigger] cars0[c2])
                                ==> world.cars.cars@[c2] == cars0[c2],
                        forall|c2: int|
                            0 <= c2 < c && car_active(#[trigger] cars0[c2]) ==> {
                                let rec0 = cars0[c2];
                                let rec1 = world.cars.cars@[c2];
                                &&& rec1.collided == spec_car_hits(rec0, obstacles0)
                                &&& rec1.car == rec0.car
                                &&& rec1.pose == rec0.pose
                                &&& rec1.half_size == rec0.half_size
                                &&& rec1.controls == rec0.controls
                                &&& rec1.network == rec0.network
                                &&& rec1.removed == rec0.removed
                                &&& (!spec_car_hits(rec0, obstacles0) ==> rec1.ray_ids
                                    == rec0.ray_ids)
                                &&& (spec_car_hits(rec0, obstacles0) ==> rec1.ray_ids@.len() == 0)
                            },
                        forall|c2: int, k2: int|
                            0 <= c2 < c && car_active(cars0[c2]) && spec_car_hits(
                                cars0[c2],
                                obstacles0,
                            ) && 0 <= k2 < cars0[c2].ray_ids@.len() ==> world.rays@[(
                            #[trigger] cars0[c2].ray_ids@[k2]) as int].collisions@.len() == 0,
                        forall|r: int|
                            0 <= r < rays0.len() && !(exists|c2: int, k2: int|
                                0 <= c2 < c && car_active(cars0[c2]) && spec_car_hits(
                                    cars0[c2],
                                    obstacles0,
                                ) && 0 <= k2 < cars0[c2].ray_ids@.len() && (
                                #[trigger] cars0[c2].ray_ids@[k2]) == r) ==> rays_at_c[r]
                                == rays0[r],
                        forall|r: int| 0 <= r < rays0.len() ==> ray_wf(#[trigger] world.rays@[r]),
                        forall|r: int, i: int|
                            0 <= r < rays0.len() && 0 <= i < world.rays@[r].collisions@.len()
                                ==> ((#[trigger] world.rays@[r].collisions@[i]).0 as int)
                                < obstacles0.len(),
                        forall|o2: int|
                            0 <= o2 < n_obs ==> (#[trigger] world.obstacles@[o2]).pos
                                == obstacles0[o2].pos && world.obstacles@[o2].half_size
                                == obstacles0[o2].half_size && obstacle_wf(world.obstacles@[o2]),
                        forall|r: int|
                            0 <= r < rays0.len() ==> (#[trigger] world.rays@[r]).length
                                == rays0[r].length && world.rays@[r].rel_dir == rays0[r].rel_dir,
                        reciprocal_ok(*world),
                        forall|k2: int|
                            0 <= k2 < k ==> world.rays@[(#[trigger] cars0[c as int].ray_ids@[k2]) as int].collisions@.len()
                                == 0,
                        rays_at_c.len() == rays0.len(),
                        forall|r: int|
                            0 <= r < rays0.len() && !(exists|k2: int|
                                0 <= k2 < k && (#[trigger] cars0[c as int].ray_ids@[k2]) == r)
                                ==> (#[trigger] world.rays@[r]) == rays_at_c[r],
                    decreases n_ids - k,
                {
                    let rid: usize = world.cars.cars[c].ray_ids[k];
                    proof {
                        assert(cars0[c as int].ray_ids@[k as int] == rid);
                        assert(!(exists|k2: int|
                            0 <= k2 < k && (#[trigger] cars0[c as int].ray_ids@[k2]) == rid));
                    }
                    let ghost rays_before = world.rays@;
                    let ghost obstacles_before = world.obstacles@;
                    clear_ray(&mut world.rays[rid], rid, &mut world.obstacles);
                    proof {
                        assert(reciprocal_ok(*world)) by {
                            assert forall|r: int, o: int|
                                0 <= r < world.rays@.len() && 0 <= o
                                    < world.obstacles@.len() implies contains_obstacle(
                                (#[trigger] world.rays@[r]).collisions@,
                                o,
                            ) == contains_ray(
                                (#[trigger] world.obstacles@[o]).collider.colliding_with@,
                                r,
                            ) by {
                                if r != rid {
                                    assert(world.rays@[r] == rays_before[r]);
                                    assert(contains_ray(
                                        world.obstacles@[o].collider.colliding_with@,
                                        r,
                                    ) == contains_ray(
                                        obstacles_before[o].collider.colliding_with@,
                                        r,
                                    ));
                                } else {
                                    assert(world.rays@[r].collisions@.len() == 0);
                                    assert(!contains_obstacle(world.rays@[r].collisions@, o)) by {
                                        if contains_obstacle(world.rays@[r].collisions@, o) {
                                            let w = choose|w: int|
                                                0 <= w < world.rays@[r].collisions@.len() && (
                                                world.rays@[r].collisions@[w]).0 == o;
                                        }
                                    }
                                }
                            }
                        }
                        assert forall|k2: int| 0 <= k2 < k + 1 implies world.rays@[(
                        #[trigger] cars0[c as int].ray_ids@[k2]) as int].collisions@.len()
                            == 0 by {
                            let r2 = cars0[c as int].ray_ids@[k2] as int;
                            if k2 < k {
                                assert(r2 != rid);
                                assert(world.rays@[r2] == rays_before[r2]);
                            }
                        }
                    }
                    k = k + 1;
                }
                world.cars.cars[c].ray_ids = Vec::new();
            }
        }
        c = c + 1;
    }
}

/// An uncontrolled traffic vehicle: it cruises straight up its lane with a
/// top speed drawn once at spawn, under the same acceleration, friction and
/// clamping as a controlled vehicle, and never steers.
#[derive(Debug)]
pub struct TrafficCar {
    pub car: Car,
    pub pose: Pose,
}

impl TrafficCar {
    /// Spawn a traffic vehicle at the given position, at rest, heading up
    /// the road, with a top speed drawn uniformly from [60, 120].
    pub fn new(position_x: i64, position_y: i64) -> (t: TrafficCar)
        requires
            -POS_LIMIT <= position_x <= POS_LIMIT,
            -POS_LIMIT <= position_y <= POS_LIMIT,
        ensures
            car_wf(t.car),
            pose_wf(t.pose),
            60 * SCALE <= t.car.max_speed <= 120 * SCALE,
            t.car.speed == 0,
            t.car.acceleration == 3 * SCALE,
            t.car.friction == SCALE,
            t.pose.x == position_x,
            t.pose.y == position_y,
            t.pose.heading == 0,
    {
        let max_speed: i64 = crate::rng::rand_in_range(60 * SCALE, 120 * SCALE + 1);
        TrafficCar {
            car: Car::new(max_speed),
            pose: Pose { x: position_x, y: position_y, heading: 0 },
        }
    }

    /// One tick of an uncontrolled vehicle: accelerate unconditionally
    /// toward the top speed, apply friction and the clamp, and move straight
    /// ahead. Traffic never rotates.
    pub fn tick(&mut self)
        requires
            car_wf(old(self).car),
            pose_wf(old(self).pose),
            old(self).pose.heading == 0,
            -POS_LIMIT + 20_000 <= old(self).pose.y <= POS_LIMIT - 20_000,
        ensures
            car_wf(final(self).car),
            pose_wf(final(self).pose),
            final(self).car.speed == crate::car::spec_speed_tick(
                old(self).car.speed as int,
                old(self).car.acceleration as int,
                old(self).car.friction as int,
                old(self).car.max_speed as int,
                0,
                false,
            ),
            final(self).pose.y == old(self).pose.y + crate::fixed::tdiv(
                final(self).car.speed as int,
                crate::car::TICKS_PER_SECOND as int,
            ),
            final(self).pose.x == old(self).pose.x,
            final(self).pose.heading == 0,
            final(self).car.acceleration == old(self).car.acceleration,
            final(self).car.friction == old(self).car.friction,
            final(self).car.max_speed == old(self).car.max_speed,
    {
        self.car.tick_speed(0, false);
        proof {
            crate::fixed::lemma_tdiv_abs_le(
                self.car.speed as int,
                crate::car::TICKS_PER_SECOND as int,
                1_000_000,
            );
        }
        let dy: i64 = self.car.speed / crate::car::TICKS_PER_SECOND;
        self.pose.y = self.pose.y + dy;
    }
}

/// The first vehicle of the arena that can hold the camera: active, with
/// its control loop running.
pub open spec fn spec_first_active(cars: Seq<CarRecord>, k: int) -> Option<usize>
    decreases cars.len() - k,
{
    if k < 0 || k >= cars.len() {
        None
    } else if car_active(cars[k]) {
        Some(k as usize)
    } else {
        spec_first_active(cars, k + 1)
    }
}

/// Walk the arena from vehicle `k` keeping the index and the y coordinate
/// of the farthest-ahead active vehicle seen so far; an earlier vehicle
/// wins ties.
pub open spec fn spec_scan_farthest(cars: Seq<CarRecord>, k: int, best: int, val: int) -> (
    int,
    int,
)
    decreases cars.len() - k,
{
    if k < 0 || k >= cars.len() {
        (best, val)
    } else if car_active(cars[k]) && cars[k].pose.y > val {
        spec_scan_farthest(cars, k + 1, k, cars[k].pose.y as int)
    } else {
        spec_scan_farthest(cars, k + 1, best, val)
    }
}

/// The y coordinate the current camera target stands at, or a far-below
/// default when there is no resolvable target.
pub open spec fn spec_target_y(cars: Seq<CarRecord>, target: Option<usize>) -> int {
    match target {
        Option::None => -1000 * SCALE,
        Option::Some(id) => if id < cars.len() && car_active(cars[id as int]) {
            cars[id as int].pose.y as int
        } else {
            -1000 * SCALE
        },
    }
}

/// Decide whether the camera should follow a new vehicle: with no current
/// target the first active vehicle is adopted; otherwise the active vehicle
/// farthest up the road replaces the target when it is a different one. The
/// returned pair is the new target and the target it replaces.
pub fn find_new_camera_target(
    cars: &CarsArray,
    camera_target: &crate::resources::CameraTarget,
) -> (ev: Option<(usize, Option<usize>)>)
    ensures
        ev == (match camera_target.0 {
            Option::None => (match spec_first_active(cars.cars@, 0) {
                Option::None => None::<(usize, Option<usize>)>,
                Option::Some(id) => Some((id, None::<usize>)),
            }),
            Option::Some(curr) => {
                let best = spec_scan_farthest(
                    cars.cars@,
                    0,
                    curr as int,
                    spec_target_y(cars.cars@, Some(curr)),
                ).0;
                if best != curr {
                    Some((best as usize, Some(curr)))
                } else {
                    None::<(usize, Option<usize>)>
                }
            },
        }),
{
    let n: usize = cars.cars.len();
    let target: Option<usize> = camera_target.get_target();
    match target {
        None => {
            // No target: adopt the first active vehicle, if any.
            let mut k: usize = 0;
            while k < n
                invariant
                    k <= n,
                    n == cars.cars@.len(),
                    camera_target.0 is None,
                    spec_first_active(cars.cars@, 0) == spec_first_active(cars.cars@, k as int),
                decreases n - k,
            {
                if !cars.cars[k].collided && !cars.cars[k].removed {
                    proof {
                        assert(spec_first_active(cars.cars@, k as int) == Some(k));
                    }
                    return Some((k, None));
                }
                k = k + 1;
            }
            proof {
                assert(spec_first_active(cars.cars@, k as int) is None);
            }
            None
        },
        Some(curr) => {
            let mut best: usize = curr;
            let mut val: i64 = if curr < n && !cars.cars[curr].collided
                && !cars.cars[curr].removed {
                cars.cars[curr].pose.y
            } else {
                -1000 * SCALE
            };
            let mut k: usize = 0;
            while k < n
                invariant
                    k <= n,
                    n == cars.cars@.len(),
                    spec_scan_farthest(
                        cars.cars@,
                        0,
                        curr as int,
                        spec_target_y(cars.cars@, Some(curr)),
                    ) == spec_scan_farthest(cars.cars@, k as int, best as int, val as int),
                decreases n - k,
            {
                if !cars.cars[k].collided && !cars.cars[k].removed && cars.cars[k].pose.y > val {
                    val = cars.cars[k].pose.y;
                    best = k;
                }
                k = k + 1;
            }
            proof {
                assert(spec_scan_farthest(cars.cars@, k as int, best as int, val as int) == (
                    best as int,
                    val as int,
                ));
            }
            if best != curr {
                Some((best, Some(curr)))
            } else {
                None
            }
        },
    }
}

/// No sensor has registered against any collider yet: the arena is still
/// being built.
pub open spec fn colliders_clear(obstacles: Seq<Obstacle>) -> bool {
    forall|o: int|
        0 <= o < obstacles.len() ==> (#[trigger] obstacles[o]).collider.colliding_with@.len() == 0
}

impl World {
    /// An empty arena.
    pub fn new() -> (w: World)
        ensures
            world_wf(w),
            w.cars.cars@.len() == 0,
            w.rays@.len() == 0,
            w.obstacles@.len() == 0,
            colliders_clear(w.obstacles@),
    {
        World { cars: CarsArray { cars: Vec::new() }, rays: Vec::new(), obstacles: Vec::new() }
    }

    /// Add a static rectangular obstacle; returns its identifier.
    pub fn add_obstacle(&mut self, pos: Point, half_size: Point) -> (id: usize)
        requires
            world_wf(*old(self)),
            -POS_LIMIT <= pos.x <= POS_LIMIT,
            -POS_LIMIT <= pos.y <= POS_LIMIT,
            0 <= half_size.x <= HALF_LIMIT,
            0 <= half_size.y <= HALF_LIMIT,
        ensures
            world_wf(*final(self)),
            final(self).cars == old(self).cars,
            final(self).rays == old(self).rays,
            final(self).obstacles@.len() == old(self).obstacles@.len() + 1,
            id == old(self).obstacles@.len(),
            final(self).obstacles@[id as int].pos == pos,
            final(self).obstacles@[id as int].half_size == half_size,
            final(self).obstacles@[id as int].collider.colliding_with@.len() == 0,
            forall|o: int|
                0 <= o < old(self).obstacles@.len() ==> final(self).obstacles@[o] == old(
                    self,
                ).obstacles@[o],
            colliders_clear(old(self).obstacles@) ==> colliders_clear(final(self).obstacles@),
    {
        let id: usize = self.obstacles.len();
        self.obstacles.push(
            Obstacle { pos, half_size, collider: StaticCollider { colliding_with: Vec::new() } },
        );
        proof {
            assert forall|r: int, o: int|
                0 <= r < self.rays@.len() && 0 <= o < self.obstacles@.len() implies
                contains_obstacle((#[trigger] self.rays@[r]).collisions@, o) == contains_ray(
                (#[trigger] self.obstacles@[o]).collider.colliding_with@,
                r,
            ) by {
                if o < id {
                    assert(self.obstacles@[o] == old(self).obstacles@[o]);
                } else {
                    assert(!contains_obstacle(self.rays@[r].collisions@, o)) by {
                        if contains_obstacle(self.rays@[r].collisions@, o) {
                            let w = choose|w: int|
                                0 <= w < self.rays@[r].collisions@.len() && (
                                self.rays@[r].collisions@[w]).0 == o;
                        }
                    }
                    assert(!contains_ray(self.obstacles@[o].collider.colliding_with@, r)) by {
                        if contains_ray(self.obstacles@[o].collider.colliding_with@, r) {
                            let w = choose|w: int|
                                0 <= w < self.obstacles@[o].collider.colliding_with@.len() && (
                                self.obstacles@[o].collider.colliding_with@[w]) == r;
                        }
                    }
                }
            }
        }
        id
    }

    /// Spawn a controllable vehicle: one sensor per mounting direction in
    /// `rel_dirs`, and a freshly randomized network shaped by `sizes`, whose
    /// first layer reads exactly those sensors. Only usable while the arena
    /// is being built (no sensor has registered against a collider yet).
    pub fn add_car(
        &mut self,
        max_speed: i64,
        pose: Pose,
        half_size: Point,
        ray_length: i64,
        rel_dirs: &Vec<Point>,
        sizes: &Vec<u8>,
    ) -> (id: usize)
        requires
            world_wf(*old(self)),
            colliders_clear(old(self).obstacles@),
            0 < max_speed <= crate::car::SPEED_CAP,
            pose_wf(pose),
            0 <= half_size.x <= HALF_LIMIT,
            0 <= half_size.y <= HALF_LIMIT,
            0 <= ray_length <= RAY_LIMIT,
            forall|i: int|
                0 <= i < rel_dirs@.len() ==> -SCALE <= (#[trigger] rel_dirs@[i]).x <= SCALE
                    && -SCALE <= rel_dirs@[i].y <= SCALE,
            sizes@.len() >= 2,
            sizes@[0] == rel_dirs@.len(),
            rel_dirs@.len() <= 255,
            old(self).rays@.len() + 256 <= usize::MAX,
        ensures
            world_wf(*final(self)),
            colliders_clear(final(self).obstacles@),
            final(self).obstacles == old(self).obstacles,
            final(self).cars.cars@.len() == old(self).cars.cars@.len() + 1,
            id == old(self).cars.cars@.len(),
            final(self).rays@.len() == old(self).rays@.len() + rel_dirs@.len(),
            forall|r: int|
                0 <= r < old(self).rays@.len() ==> final(self).rays@[r] == old(self).rays@[r],
            forall|c: int|
                0 <= c < old(self).cars.cars@.len() ==> final(self).cars.cars@[c] == old(
                    self,
                ).cars.cars@[c],
            ({
                let rec = final(self).cars.cars@[id as int];
                &&& rec.car.max_speed == max_speed
                &&& rec.car.speed == 0
                &&& rec.pose == pose
                &&& rec.half_size == half_size
                &&& !rec.collided
                &&& !rec.removed
                &&& rec.ray_ids@.len() == rel_dirs@.len()
                &&& rec.network.levels@.len() == sizes@.len() - 1
                &&& rec.network.input_rays@ == rec.ray_ids@
                &&& forall|k: int|
                    0 <= k < rel_dirs@.len() ==> (#[trigger] rec.ray_ids@[k]) == old(
                        self,
                    ).rays@.len() + k
            }),
            forall|k: int|
                0 <= k < rel_dirs@.len() ==> {
                    let ray = #[trigger] final(self).rays@[old(self).rays@.len() + k];
                    &&& ray.length == ray_length
                    &&& ray.rel_dir == rel_dirs@[k]
                    &&& ray.collisions@.len() == 0
                },
    {
        let base: usize = self.rays.len();
        let ghost rays0 = self.rays@;
        let mut ray_ids: Vec<usize> = Vec::new();
        let mut k: usize = 0;
        while k < rel_dirs.len()
            invariant
                k <= rel_dirs@.len(),
                rel_dirs@.len() <= 255,
                base == rays0.len(),
                base + 256 <= usize::MAX,
                self.cars == old(self).cars,
                self.obstacles == old(self).obstacles,
                world_wf(*old(self)),
                rays0 == old(self).rays@,
                self.rays@.len() == base + k,
                forall|r: int| 0 <= r < base ==> self.rays@[r] == rays0[r],
                ray_ids@.len() == k,
                forall|a: int| 0 <= a < k ==> (#[trigger] ray_ids@[a]) == base + a,
                forall|i: int|
                    0 <= i < rel_dirs@.len() ==> -SCALE <= (#[trigger] rel_dirs@[i]).x <= SCALE
                        && -SCALE <= rel_dirs@[i].y <= SCALE,
                0 <= ray_length <= RAY_LIMIT,
                forall|a: int|
                    base <= a < base + k ==> {
                        let ray = #[trigger] self.rays@[a];
                        &&& ray.length == ray_length
                        &&& ray.rel_dir == rel_dirs@[a - base]
                        &&& ray.collisions@.len() == 0
                        &&& ray_wf(ray)
                    },
            decreases rel_dirs@.len() - k,
        {
            let ray = Ray::new(ray_length, rel_dirs[k]);
            self.rays.push(ray);
            ray_ids.push(base + k);
            k = k + 1;
        }
        let input_rays: Vec<usize> = copy_ids(&ray_ids);
        let network = NeuralNetwork::new(sizes, input_rays);
        let car = Car::new(max_speed);
        let id: usize = self.cars.cars.len();
        let rec = CarRecord {
            car,
            pose,
            half_size,
            controls: Controls { acceleration: 0, turn_direction: 0 },
            collided: false,
            removed: false,
            network,
            ray_ids,
        };
        self.cars.cars.push(rec);
        proof {
            let w = *self;
            assert forall|c: int|
                0 <= c < w.cars.cars@.len() implies car_record_wf(
                #[trigger] w.cars.cars@[c],
                w.rays@.len() as int,
            ) by {
                if c < id {
                    assert(w.cars.cars@[c] == old(self).cars.cars@[c]);
                    assert(car_record_wf(w.cars.cars@[c], old(self).rays@.len() as int));
                } else {
                    let r2 = w.cars.cars@[c];
                    assert(car_wf(r2.car));
                    assert(pose_wf(r2.pose));
                    assert(controls_wf(r2.controls));
                    assert(network_wf(r2.network));
                    assert(r2.network.input_rays@ == r2.ray_ids@);
                    assert(r2.network.levels@[0].inputs@.len() == sizes@[0]);
                    assert(r2.network.input_rays@.len() == rel_dirs@.len());
                    assert(forall|a: int|
                        0 <= a < r2.ray_ids@.len() ==> (#[trigger] r2.ray_ids@[a]) == base + a);
                }
            }
            assert(ray_ownership_disjoint(w.cars.cars@)) by {
                assert forall|c1: int, c2: int, i: int, j: int|
                    0 <= c1 < w.cars.cars@.len() && 0 <= c2 < w.cars.cars@.len() && c1 != c2 && 0
                        <= i < w.cars.cars@[c1].ray_ids@.len() && 0 <= j
                        < w.cars.cars@[c2].ray_ids@.len() implies (
                    #[trigger] w.cars.cars@[c1].ray_ids@[i]) != (
                    #[trigger] w.cars.cars@[c2].ray_ids@[j]) by {
                        if c1 < id && c2 < id {
                            assert(w.cars.cars@[c1] == old(self).cars.cars@[c1]);
                            assert(w.cars.cars@[c2] == old(self).cars.cars@[c2]);
                        } else if c1 == id {
                            assert(w.cars.cars@[c2] == old(self).cars.cars@[c2]);
                            assert(car_record_wf(old(self).cars.cars@[c2], rays0.len() as int));
                            assert(w.cars.cars@[c1].ray_ids@[i] >= rays0.len());
                        } else {
                            assert(w.cars.cars@[c1] == old(self).cars.cars@[c1]);
                            assert(car_record_wf(old(self).cars.cars@[c1], rays0.len() as int));
                            assert(w.cars.cars@[c2].ray_ids@[j] >= rays0.len());
                        }
                    }
            }
            assert forall|r: int| 0 <= r < w.rays@.len() implies ray_wf(#[trigger] w.rays@[r]) by {
                if r < base {
                    assert(w.rays@[r] == rays0[r]);
                }
            }
            assert forall|r: int, i: int|
                0 <= r < w.rays@.len() && 0 <= i < w.rays@[r].collisions@.len() implies ((
            #[trigger] w.rays@[r].collisions@[i]).0 as int) < w.obstacles@.len() by {
                if r < base {
                    assert(w.rays@[r] == rays0[r]);
                } else {
                    assert(w.rays@[r].collisions@.len() == 0);
                }
            }
            assert forall|o: int| 0 <= o < w.obstacles@.len() implies obstacle_wf(
                #[trigger] w.obstacles@[o],
            ) by {
                assert(w.obstacles@[o] == old(self).obstacles@[o]);
            }
            assert(reciprocal_ok(w)) by {
                assert forall|r: int, o: int|
                    0 <= r < w.rays@.len() && 0 <= o < w.obstacles@.len() implies contains_obstacle(
                    (#[trigger] w.rays@[r]).collisions@,
                    o,
                ) == contains_ray(
                    (#[trigger] w.obstacles@[o]).collider.colliding_with@,
                    r,
                ) by {
                    assert(w.obstacles@[o].collider.colliding_with@.len() == 0);
                    assert(!contains_ray(w.obstacles@[o].collider.colliding_with@, r)) by {
                        if contains_ray(w.obstacles@[o].collider.colliding_with@, r) {
                            let v = choose|v: int|
                                0 <= v < w.obstacles@[o].collider.colliding_with@.len() && (
                                w.obstacles@[o].collider.colliding_with@[v]) == r;
                        }
                    }
                    if r < base {
                        assert(w.rays@[r] == rays0[r]);
                        assert(contains_obstacle(rays0[r].collisions@, o) == contains_ray(
                            old(self).obstacles@[o].collider.colliding_with@,
                            r,
                        ));
                        assert(!contains_ray(
                            old(self).obstacles@[o].collider.colliding_with@,
                            r,
                        )) by {
                            if contains_ray(old(self).obstacles@[o].collider.colliding_with@, r) {
                                let v = choose|v: int|
                                    0 <= v < old(
                                        self,
                                    ).obstacles@[o].collider.colliding_with@.len() && (old(
                                        self,
                                    ).obstacles@[o].collider.colliding_with@[v]) == r;
                            }
                        }
                    } else {
                        assert(w.rays@[r].collisions@.len() == 0);
                        assert(!contains_obstacle(w.rays@[r].collisions@, o)) by {
                            if contains_obstacle(w.rays@[r].collisions@, o) {
                                let v = choose|v: int|
                                    0 <= v < w.rays@[r].collisions@.len() && (
                                    w.rays@[r].collisions@[v]).0 == o;
                            }
                        }
                    }
                }
            }
        }
        id
    }
}

/// Copy of a sensor identifier list.
fn copy_ids(src: &Vec<usize>) -> (dst: Vec<usize>)
    ensures
        dst@ == src@,
{
    let mut dst: Vec<usize> = Vec::new();
    let mut i: usize = 0;
    while i < src.len()
        invariant
            i <= src@.len(),
            dst@.len() == i,
            forall|a: int| 0 <= a < i ==> dst@[a] == src@[a],
        decreases src@.len() - i,
    {
        dst.push(src[i]);
        i = i + 1;
    }
    assert(dst@ =~= src@);
    dst
}

} // verus!
