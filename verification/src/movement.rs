//! Movement selection: greedy pathfinding toward the nearest goal cell and
//! its momentum-aware variant that makes ice tiles slide.
//!
//! Both functions are deterministic: neighbors are tried in a fixed order
//! (right, left, down, up) and ties keep the first candidate found.

use vstd::prelude::*;

use crate::level::LevelDesc;
use crate::level::ObstacleKind;
use crate::token::Flight;
use crate::token::Piece;

verus! {

/// Sentinel distance used when a neighbor has no goal to measure against;
/// larger than any reachable Manhattan distance.
pub const FAR_DIST: i32 = 0x7fff_ffff;

/// The fixed neighbor iteration order: right, left, down, up.
pub open spec fn dir_of(i: int) -> (int, int) {
    if i == 0 {
        (1int, 0int)
    } else if i == 1 {
        (-1int, 0int)
    } else if i == 2 {
        (0int, 1int)
    } else {
        (0int, -1int)
    }
}

/// Manhattan distance between two cells.
pub open spec fn manhattan(ax: int, ay: int, bx: int, by: int) -> int {
    (if ax >= bx {
        ax - bx
    } else {
        bx - ax
    }) + (if ay >= by {
        ay - by
    } else {
        by - ay
    })
}

/// Minimum Manhattan distance from `(x, y)` to any of the first `n` goals,
/// or `empty_val` when there are none.
pub open spec fn min_goal_dist_upto(
    goals: Seq<(u8, u8)>,
    x: int,
    y: int,
    n: int,
    empty_val: int,
) -> int
    decreases n,
{
    if n <= 0 {
        empty_val
    } else {
        let d = manhattan(x, y, goals[n - 1].0 as int, goals[n - 1].1 as int);
        if n == 1 {
            d
        } else {
            let rest = min_goal_dist_upto(goals, x, y, n - 1, empty_val);
            if d < rest {
                d
            } else {
                rest
            }
        }
    }
}

/// Minimum Manhattan distance from `(x, y)` to any goal of the level, or
/// `empty_val` when the goal region is empty.
pub open spec fn spec_goal_dist(l: &LevelDesc, x: int, y: int, empty_val: int) -> int {
    min_goal_dist_upto(l.goal_region@, x, y, l.goal_region@.len() as int, empty_val)
}

/// The neighbor of `(x, y)` in direction `i`, with its goal distance, when
/// it qualifies as a step: free, and no farther from the goal than the
/// current cell (equal distance is allowed to avoid deadlock against walls,
/// but distance never worsens).
pub open spec fn step_candidate(l: &LevelDesc, x: int, y: int, i: int) -> Option<((u8, u8), int)> {
    let nx = x + dir_of(i).0;
    let ny = y + dir_of(i).1;
    let nd = spec_goal_dist(l, nx, ny, FAR_DIST as int);
    if l.spec_free(nx, ny) && nd <= spec_goal_dist(l, x, y, 0) {
        Some(((nx as u8, ny as u8), nd))
    } else {
        None
    }
}

/// The best qualifying neighbor among the first `i` directions: smallest
/// goal distance, ties keeping the earliest direction in the fixed order.
pub open spec fn best_step_upto(l: &LevelDesc, x: int, y: int, i: int) -> Option<((u8, u8), int)>
    decreases i,
{
    if i <= 0 {
        None
    } else {
        let prev = best_step_upto(l, x, y, i - 1);
        match step_candidate(l, x, y, i - 1) {
            None => prev,
            Some(c) => match prev {
                None => Some(c),
                Some(p) => if c.1 < p.1 {
                    Some(c)
                } else {
                    Some(p)
                },
            },
        }
    }
}

/// The step the greedy pathfinder takes from `(x, y)`, if any.
pub open spec fn spec_next_step(l: &LevelDesc, x: int, y: int) -> Option<(u8, u8)> {
    match best_step_upto(l, x, y, 4) {
        Some(c) => Some(c.0),
        None => None,
    }
}

/// Every candidate the fold can settle on is a free cell that does not
/// worsen the goal distance.
proof fn lemma_best_step_free(l: &LevelDesc, x: int, y: int, i: int)
    ensures
        best_step_upto(l, x, y, i) matches Some(c) ==> l.spec_free(c.0.0 as int, c.0.1 as int)
            && c.1 <= spec_goal_dist(l, x, y, 0),
    decreases i,
{
    if i > 0 {
        lemma_best_step_free(l, x, y, i - 1);
    }
}

/// The first direction (in fixed order, starting from index `i`) whose
/// neighbor is an in-bounds jump pad.
pub open spec fn first_jumppad_from(l: &LevelDesc, x: int, y: int, i: int) -> Option<(u8, u8)>
    decreases 4 - i,
{
    if i >= 4 {
        None
    } else {
        let nx = x + dir_of(i).0;
        let ny = y + dir_of(i).1;
        if l.spec_in_bounds(nx, ny) && (l.spec_obstacle(nx, ny) matches Some(
            ObstacleKind::JumpPad { .. },
        )) {
            Some((nx as u8, ny as u8))
        } else {
            first_jumppad_from(l, x, y, i + 1)
        }
    }
}

/// The step the momentum-aware chooser takes: continue straight while
/// momentum lasts and the destination is free; otherwise prefer an adjacent
/// jump pad; otherwise fall back to the greedy step.
pub open spec fn spec_next_for_piece(l: &LevelDesc, f: Flight) -> Option<(u8, u8)> {
    let sx = f.x as int + f.dir_dx as int;
    let sy = f.y as int + f.dir_dy as int;
    if f.momentum > 0 && (f.dir_dx != 0 || f.dir_dy != 0) && l.spec_free(sx, sy) {
        Some((sx as u8, sy as u8))
    } else {
        match first_jumppad_from(l, f.x as int, f.y as int, 0) {
            Some(p) => Some(p),
            None => spec_next_step(l, f.x as int, f.y as int),
        }
    }
}

/// Minimum Manhattan distance from `(x, y)` to any goal of the level,
/// `empty_val` when the goal region is empty.
fn goal_dist(l: &LevelDesc, x: u8, y: u8, empty_val: i32) -> (r: i32)
    requires
        0 <= empty_val,
    ensures
        r == spec_goal_dist(l, x as int, y as int, empty_val as int),
        r == empty_val || 0 <= r <= 510,
{
    let n = l.goal_region.len();
    let mut best: i32 = empty_val;
    let mut i: usize = 0;
    while i < n
        invariant
            n == l.goal_region@.len(),
            0 <= i <= n,
            best == min_goal_dist_upto(l.goal_region@, x as int, y as int, i as int,
                empty_val as int),
            best == empty_val || 0 <= best <= 510,
            0 <= empty_val,
        decreases n - i,
    {
        let (gx, gy) = l.goal_region[i];
        let ddx = if gx >= x {
            gx - x
        } else {
            x - gx
        };
        let ddy = if gy >= y {
            gy - y
        } else {
            y - gy
        };
        let d = ddx as i32 + ddy as i32;
        if i == 0 || d < best {
            best = d;
        }
        i = i + 1;
    }
    best
}

/// The neighbor direction with index `i` in the fixed order.
fn dir_at(i: usize) -> (r: (i8, i8))
    requires
        i < 4,
    ensures
        (r.0 as int, r.1 as int) == dir_of(i as int),
{
    if i == 0 {
        (1, 0)
    } else if i == 1 {
        (-1, 0)
    } else if i == 2 {
        (0, 1)
    } else {
        (0, -1)
    }
}

/// Greedy pathfinding: among the four axis-aligned neighbors that are free,
/// pick the one minimizing the Manhattan distance to the nearest goal cell.
/// A neighbor is accepted only if it does not worsen the current distance;
/// ties keep the first candidate in the fixed order (right, left, down, up),
/// so the choice is deterministic. Returns `None` when no neighbor
/// qualifies. The returned cell is never a block and never out of bounds.
pub fn choose_next_step(level: &LevelDesc, x: u8, y: u8) -> (r: Option<(u8, u8)>)
    requires
        level.dims_ok(),
    ensures
        r == spec_next_step(level, x as int, y as int),
        r matches Some(p) ==> level.spec_free(p.0 as int, p.1 as int),
{
    let cur_best_dist = goal_dist(level, x, y, 0);
    let mut best: Option<((u8, u8), i32)> = None;
    let mut i: usize = 0;
    while i < 4
        invariant
            level.dims_ok(),
            0 <= i <= 4,
            match best {
                None => best_step_upto(level, x as int, y as int, i as int) is None,
                Some(b) => best_step_upto(level, x as int, y as int, i as int) == Some(
                    (b.0, b.1 as int),
                ),
            },
            cur_best_dist == spec_goal_dist(level, x as int, y as int, 0),
        decreases 4 - i,
    {
        let (dx, dy) = dir_at(i);
        let nx_w = x as i32 + dx as i32;
        let ny_w = y as i32 + dy as i32;
        if nx_w >= 0 && ny_w >= 0 && nx_w < level.width as i32 && ny_w < level.height as i32 {
            let nx = nx_w as u8;
            let ny = ny_w as u8;
            if level.free(nx, ny) {
                let nd = goal_dist(level, nx, ny, FAR_DIST);
                if nd <= cur_best_dist {
                    match best {
                        None => {
                            best = Some(((nx, ny), nd));
                        },
                        Some(b) => {
                            if nd < b.1 {
                                best = Some(((nx, ny), nd));
                            }
                        },
                    }
                }
            }
        }
        i = i + 1;
    }
    proof {
        lemma_best_step_free(level, x as int, y as int, 4);
    }
    match best {
        Some(b) => Some(b.0),
        None => None,
    }
}

/// Decides the next step for a piece, taking momentum (ice), jump pads and
/// the greedy heuristic into account. While the piece has momentum and a
/// direction, it continues straight whenever the destination is free — this
/// is what makes ice slide. Otherwise an adjacent jump pad is preferred, and
/// failing that the greedy step is used. The returned cell is never a block
/// and never out of bounds.
pub fn choose_next_for_piece(level: &LevelDesc, p: &Piece) -> (r: Option<(u8, u8)>)
    requires
        level.dims_ok(),
    ensures
        r == spec_next_for_piece(level, p.flight),
        r matches Some(q) ==> level.spec_free(q.0 as int, q.1 as int),
        p.flight.momentum > 0 && (p.flight.dir_dx != 0 || p.flight.dir_dy != 0) && level.spec_free(
            p.flight.x as int + p.flight.dir_dx as int,
            p.flight.y as int + p.flight.dir_dy as int,
        ) ==> r == Some((
            (p.flight.x as int + p.flight.dir_dx as int) as u8,
            (p.flight.y as int + p.flight.dir_dy as int) as u8,
        )),
{
    let x = p.flight.x;
    let y = p.flight.y;
    if p.flight.momentum > 0 && (p.flight.dir_dx != 0 || p.flight.dir_dy != 0) {
        let nx_w = x as i32 + p.flight.dir_dx as i32;
        let ny_w = y as i32 + p.flight.dir_dy as i32;
        if nx_w >= 0 && ny_w >= 0 && nx_w < level.width as i32 && ny_w < level.height as i32 {
            let nx = nx_w as u8;
            let ny = ny_w as u8;
            if level.free(nx, ny) {
                return Some((nx, ny));
            }
        }
        // Straight continuation blocked: fall through to the normal logic.
    }
    let mut i: usize = 0;
    while i < 4
        invariant
            level.dims_ok(),
            0 <= i <= 4,
            x == p.flight.x,
            y == p.flight.y,
            first_jumppad_from(level, x as int, y as int, 0) == first_jumppad_from(level, x as int,
                y as int, i as int),
            !(p.flight.momentum > 0 && (p.flight.dir_dx != 0 || p.flight.dir_dy != 0)
                && level.spec_free(
                p.flight.x as int + p.flight.dir_dx as int,
                p.flight.y as int + p.flight.dir_dy as int,
            )),
        decreases 4 - i,
    {
        let (dx, dy) = dir_at(i);
        let nx_w = x as i32 + dx as i32;
        let ny_w = y as i32 + dy as i32;
        if nx_w >= 0 && ny_w >= 0 && nx_w < level.width as i32 && ny_w < level.height as i32 {
            let nx = nx_w as u8;
            let ny = ny_w as u8;
            if matches!(level.tile(nx, ny).obstacle, Some(ObstacleKind::JumpPad { .. })) {
                return Some((nx, ny));
            }
        }
        i = i + 1;
    }
    choose_next_step(level, x, y)
}

} // verus!
