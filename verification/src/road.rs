//! Road construction: the dashed lane markings and the two solid margins.
//! The margins are the road-boundary obstacles of the simulation; the inner
//! dashes are visual. Lane centers come from `RoadProperties`.
use vstd::prelude::*;

use crate::fixed::FIXED_LIMIT;
use crate::fixed::SCALE;
use crate::resources::RoadProperties;
use crate::resources::WindowSize;

verus! {

/// Length of one dash of the lane markings, in fixed-point units.
pub const DASH_SIZE: i64 = 40_000;

/// One road line: a dash of a lane marking, or a piece of a road margin
/// (which carries a collider). Coordinates are the line's center.
#[derive(Clone, Copy, PartialEq, Eq, Structural, Debug)]
pub struct RoadLine {
    pub x: i64,
    pub y: i64,
    pub margin: bool,
}

/// A constructed road: its properties and every line of it.
#[derive(Debug)]
pub struct Road {
    pub properties: RoadProperties,
    pub lines: Vec<RoadLine>,
}

/// The line of lane boundary `i`, dash row `j`.
pub open spec fn spec_road_line(width: int, lane_count: int, win_h: int, i: int, j: int) -> RoadLine {
    let lane_width = width / lane_count;
    RoadLine {
        x: (lane_width * i - width / 2) as i64,
        y: (j * DASH_SIZE - win_h + DASH_SIZE / 2) as i64,
        margin: i == 0 || i == lane_count,
    }
}

/// A dash row is drawn on a lane boundary when the boundary is a margin
/// (solid line) or the row is even (dashed line).
pub open spec fn spec_row_drawn(lane_count: int, i: int, j: int) -> bool {
    i == 0 || i == lane_count || j % 2 == 0
}

/// Number of dash rows for a window of height `win_h`.
pub open spec fn spec_dash_count(win_h: int) -> int {
    win_h * 2 / (DASH_SIZE as int)
}

/// The lines of lane boundary `i` from dash row `j` on.
pub open spec fn spec_lane_lines(width: int, lane_count: int, win_h: int, i: int, j: int) -> Seq<
    RoadLine,
>
    decreases spec_dash_count(win_h) - j,
{
    if j < 0 || j >= spec_dash_count(win_h) {
        Seq::empty()
    } else {
        let rest = spec_lane_lines(width, lane_count, win_h, i, j + 1);
        if spec_row_drawn(lane_count, i, j) {
            seq![spec_road_line(width, lane_count, win_h, i, j)] + rest
        } else {
            rest
        }
    }
}

/// All lines of the road from lane boundary `i` on.
pub open spec fn spec_road_lines(width: int, lane_count: int, win_h: int, i: int) -> Seq<RoadLine>
    decreases lane_count + 1 - i,
{
    if i < 0 || i > lane_count {
        Seq::empty()
    } else {
        spec_lane_lines(width, lane_count, win_h, i, 0) + spec_road_lines(
            width,
            lane_count,
            win_h,
            i + 1,
        )
    }
}

/// Build the road for the given window: one solid margin with colliders on
/// each side, dashed markings between the lanes.
pub fn setup(properties: RoadProperties, window: &WindowSize) -> (road: Road)
    requires
        0 < properties.lane_count,
        0 <= properties.width <= FIXED_LIMIT,
        0 <= window.1 <= FIXED_LIMIT,
    ensures
        road.properties == properties,
        road.lines@ == spec_road_lines(
            properties.width as int,
            properties.lane_count as int,
            window.1 as int,
            0,
        ),
{
    let width: i64 = properties.width;
    let lane_count: i64 = properties.lane_count as i64;
    let win_h: i64 = window.1;
    let dash_count: i64 = win_h * 2 / DASH_SIZE;
    let lane_width: i64 = width / lane_count;
    proof {
        vstd::arithmetic::div_mod::lemma_div_is_ordered(0, width as int, lane_count as int);
        vstd::arithmetic::div_mod::lemma_div_is_ordered_by_denominator(
            width as int,
            1,
            lane_count as int,
        );
        vstd::arithmetic::div_mod::lemma_div_basics(width as int);
        vstd::arithmetic::div_mod::lemma_div_is_ordered(0, 2 * win_h as int, DASH_SIZE as int);
        vstd::arithmetic::div_mod::lemma_div_is_ordered_by_denominator(
            2 * win_h as int,
            1,
            DASH_SIZE as int,
        );
        vstd::arithmetic::div_mod::lemma_div_basics(2 * win_h as int);
    }
    let mut lines: Vec<RoadLine> = Vec::new();
    let ghost w = width as int;
    let ghost lc = lane_count as int;
    let ghost wh = win_h as int;
    let mut i: i64 = 0;
    while i <= lane_count
        invariant
            0 <= i <= lane_count + 1,
            lane_count == properties.lane_count,
            width == properties.width,
            win_h == window.1,
            0 < lane_count <= 255,
            0 <= width <= FIXED_LIMIT,
            0 <= win_h <= FIXED_LIMIT,
            0 <= dash_count <= 2 * FIXED_LIMIT,
            w == width as int,
            lc == lane_count as int,
            wh == win_h as int,
            dash_count == spec_dash_count(wh),
            lane_width == width / lane_count,
            0 <= lane_width <= width,
            spec_road_lines(w, lc, wh, 0) == lines@ + spec_road_lines(w, lc, wh, i as int),
        decreases lane_count + 1 - i,
    {
        proof {
            assert(spec_road_lines(w, lc, wh, i as int) == spec_lane_lines(w, lc, wh, i as int, 0)
                + spec_road_lines(w, lc, wh, i as int + 1));
            assert(lines@ + (spec_lane_lines(w, lc, wh, i as int, 0) + spec_road_lines(
                w,
                lc,
                wh,
                i as int + 1,
            )) =~= lines@ + spec_lane_lines(w, lc, wh, i as int, 0) + spec_road_lines(
                w,
                lc,
                wh,
                i as int + 1,
            ));
        }
        let mut j: i64 = 0;
        while j < dash_count
            invariant
                0 <= j <= dash_count,
                0 <= i <= lane_count,
                lane_count == properties.lane_count,
                width == properties.width,
                win_h == window.1,
                0 < lane_count <= 255,
                0 <= width <= FIXED_LIMIT,
                0 <= win_h <= FIXED_LIMIT,
                0 <= dash_count <= 2 * FIXED_LIMIT,
                w == width as int,
                lc == lane_count as int,
                wh == win_h as int,
                dash_count == spec_dash_count(wh),
                lane_width == width / lane_count,
                0 <= lane_width <= width,
                spec_road_lines(w, lc, wh, 0) == lines@ + spec_lane_lines(w, lc, wh, i as int, j as int)
                    + spec_road_lines(w, lc, wh, i as int + 1),
            decreases dash_count - j,
        {
            let margin: bool = i == 0 || i == lane_count;
            let drawn: bool = margin || j % 2 == 0;
            if drawn {
                proof {
                    crate::geometry::lemma_mul_abs_bound(
                        lane_width as int,
                        i as int,
                        1_000_000_000,
                        255,
                    );
                    crate::geometry::lemma_mul_abs_bound(
                        j as int,
                        DASH_SIZE as int,
                        2_000_000_000,
                        40_000,
                    );
                }
                let x: i64 = lane_width * i - width / 2;
                let y: i64 = j * DASH_SIZE - win_h + DASH_SIZE / 2;
                let ghost prev = lines@;
                lines.push(RoadLine { x, y, margin });
                proof {
                    let line = spec_road_line(w, lc, wh, i as int, j as int);
                    let rest = spec_lane_lines(w, lc, wh, i as int, j as int + 1);
                    let lane_tail = spec_road_lines(w, lc, wh, i as int + 1);
                    assert(RoadLine { x, y, margin } == line);
                    assert(lines@ =~= prev + seq![line]);
                    assert(spec_lane_lines(w, lc, wh, i as int, j as int) == seq![line] + rest);
                    assert(prev + (seq![line] + rest) + lane_tail =~= lines@ + rest + lane_tail);
                }
            } else {
                proof {
                    assert(spec_lane_lines(w, lc, wh, i as int, j as int) == spec_lane_lines(
                        w,
                        lc,
                        wh,
                        i as int,
                        j as int + 1,
                    ));
                }
            }
            j = j + 1;
        }
        proof {
            assert(spec_lane_lines(w, lc, wh, i as int, j as int) =~= Seq::<RoadLine>::empty());
            assert(lines@ + Seq::<RoadLine>::empty() + spec_road_lines(w, lc, wh, i as int + 1)
                =~= lines@ + spec_road_lines(w, lc, wh, i as int + 1));
        }
        i = i + 1;
    }
    proof {
        assert(spec_road_lines(w, lc, wh, i as int) =~= Seq::<RoadLine>::empty());
        assert(lines@ + Seq::<RoadLine>::empty() =~= lines@);
    }
    Road { properties, lines }
}

/// Where a dash row stands after the road scrolled: rows that fell a full
/// window behind the camera wrap a window ahead, and rows a full window
/// ahead wrap behind, keeping the markings inside the visible band.
pub open spec fn spec_recycled_dash_y(y: int, camera_y: int, win_h: int) -> int {
    if y < camera_y - win_h {
        y + 2 * win_h
    } else if y > camera_y + win_h {
        y - 2 * win_h
    } else {
        y
    }
}

/// Recycle the road lines around the camera: each line outside the window
/// band jumps one full band toward the camera; lines inside stay put.
pub fn move_road(lines: &mut Vec<RoadLine>, camera_y: i64, win_h: i64)
    requires
        -FIXED_LIMIT <= camera_y <= FIXED_LIMIT,
        0 <= win_h <= FIXED_LIMIT,
        forall|i: int|
            0 <= i < old(lines)@.len() ==> -FIXED_LIMIT <= (#[trigger] old(lines)@[i]).y
                <= FIXED_LIMIT,
    ensures
        final(lines)@.len() == old(lines)@.len(),
        forall|i: int|
            0 <= i < old(lines)@.len() ==> {
                let before = old(lines)@[i];
                let after = #[trigger] final(lines)@[i];
                &&& after.y == spec_recycled_dash_y(
                    before.y as int,
                    camera_y as int,
                    win_h as int,
                )
                &&& after.x == before.x
                &&& after.margin == before.margin
            },
{
    let n: usize = lines.len();
    let mut i: usize = 0;
    while i < n
        invariant
            i <= n,
            n == lines@.len(),
            n == old(lines)@.len(),
            -FIXED_LIMIT <= camera_y <= FIXED_LIMIT,
            0 <= win_h <= FIXED_LIMIT,
            forall|a: int|
                0 <= a < n ==> -FIXED_LIMIT <= (#[trigger] old(lines)@[a]).y <= FIXED_LIMIT,
            forall|a: int| i <= a < n ==> lines@[a] == old(lines)@[a],
            forall|a: int|
                0 <= a < i ==> {
                    let before = old(lines)@[a];
                    let after = #[trigger] lines@[a];
                    &&& after.y == spec_recycled_dash_y(
                        before.y as int,
                        camera_y as int,
                        win_h as int,
                    )
                    &&& after.x == before.x
                    &&& after.margin == before.margin
                },
        decreases n - i,
    {
        let y: i64 = lines[i].y;
        if y < camera_y - win_h {
            lines[i].y = y + 2 * win_h;
        } else if y > camera_y + win_h {
            lines[i].y = y - 2 * win_h;
        }
        i = i + 1;
    }
}

} // verus!
