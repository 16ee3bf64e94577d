//! The built-in level sequence: seven boards of growing difficulty, each an
//! immutable [`LevelDesc`] value, plus the parallel score thresholds that
//! gate progression.

use vstd::prelude::*;

use crate::data::entry;
use crate::data::single_hanzi;
use crate::level::idx_of;
use crate::level::LevelDesc;
use crate::level::ModifierKind;
use crate::level::ObstacleKind;
use crate::level::SymbolEntry;
use crate::level::TileDesc;
use crate::beat::TIME_LIMIT_MS;
use crate::ratio::Ratio;
use crate::sim::BoardState;
use crate::sim::MAX_LIVES;

verus! {

/// A tile with neither obstacle nor modifier.
fn empty_tile() -> (r: TileDesc)
    ensures
        r.obstacle is None,
        r.modifier is None,
{
    TileDesc { obstacle: None, modifier: None }
}

/// `n` empty tiles.
fn empty_tiles(n: usize) -> (r: Vec<TileDesc>)
    ensures
        r@.len() == n,
        forall|j: int| 0 <= j < n ==> (#[trigger] r@[j]).obstacle is None && r@[j].modifier
            is None,
{
    let mut v: Vec<TileDesc> = Vec::new();
    let mut i: usize = 0;
    while i < n
        invariant
            0 <= i <= n,
            v@.len() == i,
            forall|j: int| 0 <= j < i ==> (#[trigger] v@[j]).obstacle is None && v@[j].modifier
                is None,
        decreases n - i,
    {
        v.push(empty_tile());
        i = i + 1;
    }
    v
}

/// Sets the obstacle of one cell, keeping its modifier. Every tile stays
/// internally consistent for a `w`-by-`h` board.
fn put_obstacle(tiles: &mut Vec<TileDesc>, idx: usize, o: ObstacleKind, w: u8, h: u8)
    requires
        idx < old(tiles)@.len(),
        LevelDesc::obstacle_wf(o, w as int, h as int),
        forall|j: int| 0 <= j < old(tiles)@.len() ==> LevelDesc::tile_wf(
            #[trigger] old(tiles)@[j],
            w as int,
            h as int,
        ),
    ensures
        final(tiles)@.len() == old(tiles)@.len(),
        forall|j: int| 0 <= j < final(tiles)@.len() ==> LevelDesc::tile_wf(
            #[trigger] final(tiles)@[j],
            w as int,
            h as int,
        ),
        final(tiles)@[idx as int].obstacle == Some(o),
        final(tiles)@[idx as int].modifier == old(tiles)@[idx as int].modifier,
        forall|j: int| (0 <= j < final(tiles)@.len() && j != idx)
            ==> (#[trigger] final(tiles)@[j]) == old(tiles)@[j],
{
    let m = tiles.remove(idx);
    let ghost kept = m.modifier;
    tiles.insert(idx, TileDesc { obstacle: Some(o), modifier: m.modifier });
    proof {
        assert(tiles@ =~= old(tiles)@.update(
            idx as int,
            TileDesc { obstacle: Some(o), modifier: kept },
        ));
        assert forall|j: int| 0 <= j < tiles@.len() implies LevelDesc::tile_wf(
            #[trigger] tiles@[j],
            w as int,
            h as int,
        ) by {
            if j != idx {
                assert(tiles@[j] == old(tiles)@[j]);
            }
        }
    }
}

/// Sets the modifier of one cell, keeping its obstacle, in the same way.
fn put_modifier(tiles: &mut Vec<TileDesc>, idx: usize, m: ModifierKind, w: u8, h: u8)
    requires
        idx < old(tiles)@.len(),
        LevelDesc::modifier_wf(m),
        forall|j: int| 0 <= j < old(tiles)@.len() ==> LevelDesc::tile_wf(
            #[trigger] old(tiles)@[j],
            w as int,
            h as int,
        ),
    ensures
        final(tiles)@.len() == old(tiles)@.len(),
        forall|j: int| 0 <= j < final(tiles)@.len() ==> LevelDesc::tile_wf(
            #[trigger] final(tiles)@[j],
            w as int,
            h as int,
        ),
        final(tiles)@[idx as int].obstacle == old(tiles)@[idx as int].obstacle,
        final(tiles)@[idx as int].modifier == Some(m),
        forall|j: int| (0 <= j < final(tiles)@.len() && j != idx)
            ==> (#[trigger] final(tiles)@[j]) == old(tiles)@[j],
{
    let o = tiles.remove(idx);
    let ghost newtile = TileDesc { obstacle: o.obstacle, modifier: Some(m) };
    tiles.insert(idx, TileDesc { obstacle: o.obstacle, modifier: Some(m) });
    proof {
        assert(tiles@ =~= old(tiles)@.update(idx as int, newtile));
        assert forall|j: int| 0 <= j < tiles@.len() implies LevelDesc::tile_wf(
            #[trigger] tiles@[j],
            w as int,
            h as int,
        ) by {
            if j != idx {
                assert(tiles@[j] == old(tiles)@[j]);
            }
        }
    }
}

/// A narrow opening board with no special tiles.
pub fn level1() -> (r: LevelDesc)
    ensures
        r.width == 3,
        r.height == 9,
        r.bpm == 120,
        r.wf(),
{
    let lvl = LevelDesc {
        name: String::from_str("Opening Board"),
        width: 3,
        height: 9,
        bpm: 120,
        tiles: empty_tiles(27),
        spawn_points: vec![(0u8, 0u8), (1u8, 0u8), (2u8, 0u8)],
        goal_region: vec![(1u8, 8u8)],
        symbol_pool: single_hanzi(),
    };
    proof {
        assert forall|i: int| 0 <= i < lvl.spawn_points@.len() implies lvl.spec_free(
            (#[trigger] lvl.spawn_points@[i]).0 as int,
            lvl.spawn_points@[i].1 as int,
        ) by {
            assert(lvl.tiles@[idx_of(3, lvl.spawn_points@[i].0 as int,
                lvl.spawn_points@[i].1 as int)].obstacle is None);
        }
        assert forall|i: int| 0 <= i < lvl.goal_region@.len() implies lvl.spec_free(
            (#[trigger] lvl.goal_region@[i]).0 as int,
            lvl.goal_region@[i].1 as int,
        ) by {
            assert(lvl.tiles@[idx_of(3, lvl.goal_region@[i].0 as int,
                lvl.goal_region@[i].1 as int)].obstacle is None);
        }
        assert(!(lvl.tiles@[0].obstacle matches Some(ObstacleKind::Block)));
    }
    lvl
}

/// Conveyors push the token down a lane; a tempo shift and a symbol
/// transform wait midway.
pub fn level2() -> (r: LevelDesc)
    ensures
        r.width == 9,
        r.height == 9,
        r.bpm == 126,
        r.wf(),
{
    let mut tiles = empty_tiles(81);
    let ghost t0 = tiles@;
    let mut x: usize = 1;
    while x < 8
        invariant
            tiles@.len() == 81,
            1 <= x <= 8,
            forall|j: int| 0 <= j < 81 ==> LevelDesc::tile_wf(#[trigger] tiles@[j], 9, 9),
            forall|j: int| (0 <= j < 81 && !(9 * 3 + 1 <= j < 9 * 3 + x))
                ==> (#[trigger] tiles@[j]) == t0[j],
        decreases 8 - x,
    {
        put_obstacle(&mut tiles, 9 * 3 + x, ObstacleKind::Block, 9, 9);
        x = x + 1;
    }
    put_obstacle(&mut tiles, 2, ObstacleKind::Conveyor { dx: 0, dy: 1 }, 9, 9);
    put_obstacle(&mut tiles, 9 + 2, ObstacleKind::Conveyor { dx: 0, dy: 1 }, 9, 9);
    put_obstacle(&mut tiles, 9 * 2 + 2, ObstacleKind::Conveyor { dx: 0, dy: 1 }, 9, 9);
    put_obstacle(&mut tiles, 9 * 5 + 5,
        ObstacleKind::TempoShift { mult: Ratio { num: 27, den: 20 }, beats: 4 }, 9, 9);
    put_obstacle(&mut tiles, 9 * 6 + 6, ObstacleKind::Transform, 9, 9);
    put_modifier(&mut tiles, 9 * 6 + 6,
        ModifierKind::TransformMap {
            pairs: vec![(String::from_str("你"), String::from_str("好"))],
        }, 9, 9);
    let mut pool: Vec<SymbolEntry> = Vec::new();
    pool.push(entry("你", vec!['n', 'i', '3']));
    pool.push(entry("好", vec!['h', 'a', 'o', '3']));
    pool.push(entry("天", vec!['t', 'i', 'a', 'n', '1']));
    pool.push(entry("气", vec!['q', 'i', '4']));
    pool.push(entry("中", vec!['z', 'h', 'o', 'n', 'g', '1']));
    pool.push(entry("国", vec!['g', 'u', 'o', '2']));
    let lvl = LevelDesc {
        name: String::from_str("Conveyor Crossing"),
        width: 9,
        height: 9,
        bpm: 126,
        tiles,
        spawn_points: vec![
            (0u8, 0u8),
            (1u8, 0u8),
            (2u8, 0u8),
            (3u8, 0u8),
            (4u8, 0u8),
            (5u8, 0u8),
            (6u8, 0u8),
            (7u8, 0u8),
            (8u8, 0u8),
        ],
        goal_region: vec![(8u8, 8u8)],
        symbol_pool: pool,
    };
    proof {
        assert forall|i: int| 0 <= i < lvl.spawn_points@.len() implies lvl.spec_free(
            (#[trigger] lvl.spawn_points@[i]).0 as int,
            lvl.spawn_points@[i].1 as int,
        ) by {
            let c = idx_of(9, lvl.spawn_points@[i].0 as int, lvl.spawn_points@[i].1 as int);
            assert(!(lvl.tiles@[c].obstacle matches Some(ObstacleKind::Block)));
        }
        assert forall|i: int| 0 <= i < lvl.goal_region@.len() implies lvl.spec_free(
            (#[trigger] lvl.goal_region@[i]).0 as int,
            lvl.goal_region@[i].1 as int,
        ) by {
            assert(!(lvl.tiles@[80].obstacle matches Some(ObstacleKind::Block)));
        }
        assert(!(lvl.tiles@[0].obstacle matches Some(ObstacleKind::Block)));
    }
    lvl
}

/// A walled maze with a teleport shortcut, conveyors and a tempo shift.
pub fn level3() -> (r: LevelDesc)
    ensures
        r.width == 9,
        r.height == 9,
        r.bpm == 132,
        r.wf(),
{
    let mut tiles = empty_tiles(81);
    put_obstacle(&mut tiles, 8, ObstacleKind::Teleport { to: (0, 8) }, 9, 9);
    put_obstacle(&mut tiles, 9 + 1, ObstacleKind::Conveyor { dx: 1, dy: 0 }, 9, 9);
    let ghost t0 = tiles@;
    let mut x: usize = 2;
    while x < 8
        invariant
            tiles@.len() == 81,
            2 <= x <= 8,
            forall|j: int| 0 <= j < 81 ==> LevelDesc::tile_wf(#[trigger] tiles@[j], 9, 9),
            forall|j: int| (0 <= j < 81 && !(9 * 2 + 2 <= j < 9 * 2 + x) && !(9 * 6 + 2 <= j < 9
                * 6 + x)) ==> (#[trigger] tiles@[j]) == t0[j],
        decreases 8 - x,
    {
        put_obstacle(&mut tiles, 9 * 2 + x, ObstacleKind::Block, 9, 9);
        put_obstacle(&mut tiles, 9 * 6 + x, ObstacleKind::Block, 9, 9);
        x = x + 1;
    }
    put_obstacle(&mut tiles, 9 * 3 + 4, ObstacleKind::Block, 9, 9);
    put_obstacle(&mut tiles, 9 * 4 + 4, ObstacleKind::Block, 9, 9);
    put_obstacle(&mut tiles, 9 * 4 + 2,
        ObstacleKind::TempoShift { mult: Ratio { num: 3, den: 2 }, beats: 3 }, 9, 9);
    put_obstacle(&mut tiles, 9 * 5 + 7, ObstacleKind::Conveyor { dx: -1, dy: 0 }, 9, 9);
    put_obstacle(&mut tiles, 9 * 7 + 5, ObstacleKind::Transform, 9, 9);
    put_modifier(&mut tiles, 9 * 7 + 5,
        ModifierKind::TransformMap {
            pairs: vec![
                (String::from_str("水"), String::from_str("火")),
                (String::from_str("山"), String::from_str("田")),
            ],
        }, 9, 9);
    let mut pool: Vec<SymbolEntry> = Vec::new();
    pool.push(entry("水", vec!['s', 'h', 'u', 'i', '3']));
    pool.push(entry("火", vec!['h', 'u', 'o', '3']));
    pool.push(entry("山", vec!['s', 'h', 'a', 'n', '1']));
    pool.push(entry("田", vec!['t', 'i', 'a', 'n', '2']));
    pool.push(entry("风", vec!['f', 'e', 'n', 'g', '1']));
    pool.push(entry("雨", vec!['y', 'u', '3']));
    pool.push(entry("日", vec!['r', 'i', '4']));
    pool.push(entry("月", vec!['y', 'u', 'e', '4']));
    pool.push(entry("木", vec!['m', 'u', '4']));
    pool.push(entry("石", vec!['s', 'h', 'i', '2']));
    let lvl = LevelDesc {
        name: String::from_str("Maze Challenge"),
        width: 9,
        height: 9,
        bpm: 132,
        tiles,
        spawn_points: vec![
            (0u8, 0u8),
            (1u8, 0u8),
            (2u8, 0u8),
            (3u8, 0u8),
            (4u8, 0u8),
            (5u8, 0u8),
            (6u8, 0u8),
            (7u8, 0u8),
            (8u8, 0u8),
        ],
        goal_region: vec![(4u8, 8u8), (5u8, 8u8), (6u8, 8u8)],
        symbol_pool: pool,
    };
    proof {
        assert forall|i: int| 0 <= i < lvl.spawn_points@.len() implies lvl.spec_free(
            (#[trigger] lvl.spawn_points@[i]).0 as int,
            lvl.spawn_points@[i].1 as int,
        ) by {
            let c = idx_of(9, lvl.spawn_points@[i].0 as int, lvl.spawn_points@[i].1 as int);
            assert(!(lvl.tiles@[c].obstacle matches Some(ObstacleKind::Block)));
        }
        assert forall|i: int| 0 <= i < lvl.goal_region@.len() implies lvl.spec_free(
            (#[trigger] lvl.goal_region@[i]).0 as int,
            lvl.goal_region@[i].1 as int,
        ) by {
            let c = idx_of(9, lvl.goal_region@[i].0 as int, lvl.goal_region@[i].1 as int);
            assert(!(lvl.tiles@[c].obstacle matches Some(ObstacleKind::Block)));
        }
        assert(!(lvl.tiles@[0].obstacle matches Some(ObstacleKind::Block)));
    }
    lvl
}

/// A zigzag of narrow paths and conveyors; spawn and goal sit on the open
/// path cells of their rows.
pub fn level4() -> (r: LevelDesc)
    ensures
        r.width == 7,
        r.height == 9,
        r.bpm == 128,
        r.wf(),
{
    let mut tiles = empty_tiles(63);
    // Top row: the zigzag path opens at x = 0 (a conveyor); the rest is
    // walled off.
    put_obstacle(&mut tiles, 0, ObstacleKind::Conveyor { dx: 1, dy: 0 }, 7, 9);
    let mut x: usize = 1;
    while x < 7
        invariant
            tiles@.len() == 63,
            1 <= x <= 7,
            forall|j: int| 0 <= j < 63 ==> LevelDesc::tile_wf(#[trigger] tiles@[j], 7, 9),
            tiles@[0].obstacle == Some(ObstacleKind::Conveyor { dx: 1i8, dy: 0i8 }),
        decreases 7 - x,
    {
        put_obstacle(&mut tiles, x, ObstacleKind::Block, 7, 9);
        x = x + 1;
    }
    let ghost t_top = tiles@;
    // Middle rows: one open path cell per row, zigzagging; even rows carry
    // conveyors on the path.
    let mut y: usize = 1;
    while y < 8
        invariant
            tiles@.len() == 63,
            1 <= y <= 8,
            forall|j: int| 0 <= j < 63 ==> LevelDesc::tile_wf(#[trigger] tiles@[j], 7, 9),
            forall|j: int| (0 <= j < 63 && !(7 <= j < 7 * y)) ==> (#[trigger] tiles@[j])
                == t_top[j],
        decreases 8 - y,
    {
        let mut x: usize = 0;
        while x < 7
            invariant
                tiles@.len() == 63,
                0 <= x <= 7,
                1 <= y < 8,
                forall|j: int| 0 <= j < 63 ==> LevelDesc::tile_wf(#[trigger] tiles@[j], 7, 9),
                forall|j: int| (0 <= j < 63 && !(7 <= j < 7 * y + x)) ==> (#[trigger] tiles@[j])
                    == t_top[j],
            decreases 7 - x,
        {
            let path_x = if y % 2 == 0 {
                x == y % 7
            } else {
                x == 6 - (y % 7)
            };
            if !path_x {
                put_obstacle(&mut tiles, 7 * y + x, ObstacleKind::Block, 7, 9);
            } else if y % 2 == 0 {
                put_obstacle(&mut tiles, 7 * y + x, ObstacleKind::Conveyor { dx: 1, dy: 0 }, 7, 9);
            }
            x = x + 1;
        }
        y = y + 1;
    }
    // Bottom row: the path opens at x = 1 (a conveyor); the rest is walled.
    put_obstacle(&mut tiles, 7 * 8, ObstacleKind::Block, 7, 9);
    put_obstacle(&mut tiles, 7 * 8 + 1, ObstacleKind::Conveyor { dx: 1, dy: 0 }, 7, 9);
    let mut x: usize = 2;
    while x < 7
        invariant
            tiles@.len() == 63,
            2 <= x <= 7,
            forall|j: int| 0 <= j < 63 ==> LevelDesc::tile_wf(#[trigger] tiles@[j], 7, 9),
            tiles@[0].obstacle == Some(ObstacleKind::Conveyor { dx: 1i8, dy: 0i8 }),
            tiles@[57int].obstacle == Some(ObstacleKind::Conveyor { dx: 1i8, dy: 0i8 }),
        decreases 7 - x,
    {
        put_obstacle(&mut tiles, 7 * 8 + x, ObstacleKind::Block, 7, 9);
        x = x + 1;
    }
    put_obstacle(&mut tiles, 7 * 4 + 3,
        ObstacleKind::TempoShift { mult: Ratio { num: 3, den: 2 }, beats: 3 }, 7, 9);
    put_modifier(&mut tiles, 7 * 5 + 1,
        ModifierKind::ScoreMult { factor: Ratio { num: 2, den: 1 }, beats: 4 }, 7, 9);
    put_obstacle(&mut tiles, 7 * 7 + 6, ObstacleKind::Teleport { to: (0, 1) }, 7, 9);
    let mut pool: Vec<SymbolEntry> = Vec::new();
    pool.push(entry("爸爸", vec!['b', 'a', 'b', 'a', '4']));
    pool.push(entry("妈妈", vec!['m', 'a', 'm', 'a', '1']));
    pool.push(entry("老师", vec!['l', 'a', 'o', 's', 'h', 'i', '1']));
    pool.push(entry("学生", vec!['x', 'u', 'e', 's', 'h', 'e', 'n', 'g', '2']));
    pool.push(entry("朋友", vec!['p', 'e', 'n', 'g', 'y', 'o', 'u', '2']));
    pool.push(entry("同学", vec!['t', 'o', 'n', 'g', 'x', 'u', 'e', '2']));
    let lvl = LevelDesc {
        name: String::from_str("Zigzag Express"),
        width: 7,
        height: 9,
        bpm: 128,
        tiles,
        spawn_points: vec![(0u8, 0u8)],
        goal_region: vec![(1u8, 8u8)],
        symbol_pool: pool,
    };
    proof {
        assert forall|i: int| 0 <= i < lvl.spawn_points@.len() implies lvl.spec_free(
            (#[trigger] lvl.spawn_points@[i]).0 as int,
            lvl.spawn_points@[i].1 as int,
        ) by {
            assert(!(lvl.tiles@[0].obstacle matches Some(ObstacleKind::Block)));
        }
        assert forall|i: int| 0 <= i < lvl.goal_region@.len() implies lvl.spec_free(
            (#[trigger] lvl.goal_region@[i]).0 as int,
            lvl.goal_region@[i].1 as int,
        ) by {
            assert(!(lvl.tiles@[57int].obstacle matches Some(ObstacleKind::Block)));
        }
        assert(!(lvl.tiles@[0].obstacle matches Some(ObstacleKind::Block)));
    }
    lvl
}

/// A spiral of walls around a central goal, with teleports on opposite
/// corners and score and hop modifiers along the way.
pub fn level5() -> (r: LevelDesc)
    ensures
        r.width == 9,
        r.height == 9,
        r.bpm == 135,
        r.wf(),
{
    let mut tiles = empty_tiles(81);
    let ghost t0 = tiles@;
    let mut i: usize = 0;
    while i < 9
        invariant
            tiles@.len() == 81,
            0 <= i <= 9,
            forall|j: int| 0 <= j < 81 ==> LevelDesc::tile_wf(#[trigger] tiles@[j], 9, 9),
            forall|j: int| (9 <= j < 72 && j % 9 != 0 && j % 9 != 8)
                ==> (#[trigger] tiles@[j]) == t0[j],
        decreases 9 - i,
    {
        assert((9 * (i as int)) % 9 == 0 && (9 * (i as int) + 8) % 9 == 8) by (nonlinear_arith)
            requires
                0 <= (i as int) < 9,
        ;
        put_obstacle(&mut tiles, i, ObstacleKind::Block, 9, 9);
        put_obstacle(&mut tiles, 9 * 8 + i, ObstacleKind::Block, 9, 9);
        put_obstacle(&mut tiles, 9 * i, ObstacleKind::Block, 9, 9);
        put_obstacle(&mut tiles, 9 * i + 8, ObstacleKind::Block, 9, 9);
        i = i + 1;
    }
    let ghost t1 = tiles@;
    let mut i: usize = 2;
    while i < 7
        invariant
            tiles@.len() == 81,
            2 <= i <= 7,
            forall|j: int| 0 <= j < 81 ==> LevelDesc::tile_wf(#[trigger] tiles@[j], 9, 9),
            forall|j: int| (0 <= j < 81 && !(20 <= j <= 24) && !(56 <= j <= 60) && j % 9 != 2
                && j % 9 != 6) ==> (#[trigger] tiles@[j]) == t1[j],
        decreases 7 - i,
    {
        assert((9 * (i as int) + 2) % 9 == 2 && (9 * (i as int) + 6) % 9 == 6)
            by (nonlinear_arith)
            requires
                0 <= (i as int) < 9,
        ;
        put_obstacle(&mut tiles, 9 * 2 + i, ObstacleKind::Block, 9, 9);
        put_obstacle(&mut tiles, 9 * 6 + i, ObstacleKind::Block, 9, 9);
        put_obstacle(&mut tiles, 9 * i + 2, ObstacleKind::Block, 9, 9);
        put_obstacle(&mut tiles, 9 * i + 6, ObstacleKind::Block, 9, 9);
        i = i + 1;
    }
    put_obstacle(&mut tiles, 16, ObstacleKind::Teleport { to: (7, 1) }, 9, 9);
    put_obstacle(&mut tiles, 64, ObstacleKind::Teleport { to: (1, 7) }, 9, 9);
    put_obstacle(&mut tiles, 32, ObstacleKind::Conveyor { dx: 0, dy: 1 }, 9, 9);
    put_obstacle(&mut tiles, 48, ObstacleKind::Conveyor { dx: 1, dy: 0 }, 9, 9);
    put_modifier(&mut tiles, 10,
        ModifierKind::ScoreMult { factor: Ratio { num: 2, den: 1 }, beats: 4 }, 9, 9);
    put_modifier(&mut tiles, 70,
        ModifierKind::SlowHop { factor: Ratio { num: 3, den: 2 }, beats: 3 }, 9, 9);
    put_obstacle(&mut tiles, 40, ObstacleKind::Transform, 9, 9);
    put_modifier(&mut tiles, 40,
        ModifierKind::TransformMap {
            pairs: vec![
                (String::from_str("梦"), String::from_str("星")),
                (String::from_str("光"), String::from_str("影")),
            ],
        }, 9, 9);
    let mut pool: Vec<SymbolEntry> = Vec::new();
    pool.push(entry("爱", vec!['a', 'i', '4']));
    pool.push(entry("和", vec!['h', 'e', '2']));
    pool.push(entry("梦", vec!['m', 'e', 'n', 'g', '4']));
    pool.push(entry("星", vec!['x', 'i', 'n', 'g', '1']));
    pool.push(entry("雨", vec!['y', 'u', '3']));
    pool.push(entry("雪", vec!['x', 'u', 'e', '3']));
    pool.push(entry("光", vec!['g', 'u', 'a', 'n', 'g', '1']));
    pool.push(entry("影", vec!['y', 'i', 'n', 'g', '3']));
    pool.push(entry("心", vec!['x', 'i', 'n', '1']));
    let lvl = LevelDesc {
        name: String::from_str("Spiral Dream"),
        width: 9,
        height: 9,
        bpm: 135,
        tiles,
        spawn_points: vec![(1u8, 1u8), (1u8, 7u8), (7u8, 1u8), (7u8, 7u8)],
        goal_region: vec![(4u8, 4u8)],
        symbol_pool: pool,
    };
    proof {
        assert forall|i: int| 0 <= i < lvl.spawn_points@.len() implies lvl.spec_free(
            (#[trigger] lvl.spawn_points@[i]).0 as int,
            lvl.spawn_points@[i].1 as int,
        ) by {
            let c = idx_of(9, lvl.spawn_points@[i].0 as int, lvl.spawn_points@[i].1 as int);
            assert(!(lvl.tiles@[c].obstacle matches Some(ObstacleKind::Block)));
        }
        assert forall|i: int| 0 <= i < lvl.goal_region@.len() implies lvl.spec_free(
            (#[trigger] lvl.goal_region@[i]).0 as int,
            lvl.goal_region@[i].1 as int,
        ) by {
            assert(!(lvl.tiles@[40].obstacle matches Some(ObstacleKind::Block)));
        }
        assert(!(lvl.tiles@[40].obstacle matches Some(ObstacleKind::Block)));
    }
    lvl
}

/// An open island with no obstacles at a brisker tempo.
pub fn level6() -> (r: LevelDesc)
    ensures
        r.width == 8,
        r.height == 8,
        r.bpm == 138,
        r.wf(),
{
    let mut pool: Vec<SymbolEntry> = Vec::new();
    pool.push(entry("中", vec!['z', 'h', 'o', 'n', 'g', '1']));
    pool.push(entry("国", vec!['g', 'u', 'o', '2']));
    pool.push(entry("学", vec!['x', 'u', 'e', '2']));
    pool.push(entry("校", vec!['x', 'i', 'a', 'o', '4']));
    pool.push(entry("天", vec!['t', 'i', 'a', 'n', '1']));
    pool.push(entry("气", vec!['q', 'i', '4']));
    pool.push(entry("火", vec!['h', 'u', 'o', '3']));
    pool.push(entry("水", vec!['s', 'h', 'u', 'i', '3']));
    pool.push(entry("山", vec!['s', 'h', 'a', 'n', '1']));
    pool.push(entry("海", vec!['h', 'a', 'i', '3']));
    let lvl = LevelDesc {
        name: String::from_str("Crystal Isle"),
        width: 8,
        height: 8,
        bpm: 138,
        tiles: empty_tiles(64),
        spawn_points: vec![(3u8, 0u8), (4u8, 0u8), (0u8, 3u8)],
        goal_region: vec![(3u8, 7u8), (4u8, 7u8)],
        symbol_pool: pool,
    };
    proof {
        assert forall|i: int| 0 <= i < lvl.spawn_points@.len() implies lvl.spec_free(
            (#[trigger] lvl.spawn_points@[i]).0 as int,
            lvl.spawn_points@[i].1 as int,
        ) by {
            assert(lvl.tiles@[idx_of(8, lvl.spawn_points@[i].0 as int,
                lvl.spawn_points@[i].1 as int)].obstacle is None);
        }
        assert forall|i: int| 0 <= i < lvl.goal_region@.len() implies lvl.spec_free(
            (#[trigger] lvl.goal_region@[i]).0 as int,
            lvl.goal_region@[i].1 as int,
        ) by {
            assert(lvl.tiles@[idx_of(8, lvl.goal_region@[i].0 as int,
                lvl.goal_region@[i].1 as int)].obstacle is None);
        }
        assert(!(lvl.tiles@[0].obstacle matches Some(ObstacleKind::Block)));
    }
    lvl
}

/// The final board: narrow corridors between block columns, a conveyor row,
/// a central tempo shift and a score doubler near the goal.
pub fn level7() -> (r: LevelDesc)
    ensures
        r.width == 10,
        r.height == 8,
        r.bpm == 150,
        r.wf(),
{
    let mut tiles = empty_tiles(80);
    let ghost t0 = tiles@;
    let mut y: usize = 2;
    while y < 5
        invariant
            tiles@.len() == 80,
            2 <= y <= 5,
            forall|j: int| 0 <= j < 80 ==> LevelDesc::tile_wf(#[trigger] tiles@[j], 10, 8),
            forall|j: int| (0 <= j < 80 && !(22 <= j <= 47 && (j % 10 == 2 || j % 10 == 7)))
                ==> (#[trigger] tiles@[j]) == t0[j],
        decreases 5 - y,
    {
        assert((10 * (y as int) + 2) % 10 == 2 && (10 * (y as int) + 7) % 10 == 7)
            by (nonlinear_arith)
            requires
                0 <= (y as int) < 8,
        ;
        put_obstacle(&mut tiles, 10 * y + 2, ObstacleKind::Block, 10, 8);
        put_obstacle(&mut tiles, 10 * y + 7, ObstacleKind::Block, 10, 8);
        y = y + 1;
    }
    put_obstacle(&mut tiles, 10 + 3, ObstacleKind::Conveyor { dx: 1, dy: 0 }, 10, 8);
    put_obstacle(&mut tiles, 10 + 4, ObstacleKind::Conveyor { dx: 1, dy: 0 }, 10, 8);
    put_obstacle(&mut tiles, 10 + 5, ObstacleKind::Conveyor { dx: 1, dy: 0 }, 10, 8);
    put_obstacle(&mut tiles, 10 * 4 + 4,
        ObstacleKind::TempoShift { mult: Ratio { num: 3, den: 2 }, beats: 6 }, 10, 8);
    put_modifier(&mut tiles, 10 * 6 + 6,
        ModifierKind::ScoreMult { factor: Ratio { num: 2, den: 1 }, beats: 6 }, 10, 8);
    let mut pool: Vec<SymbolEntry> = Vec::new();
    pool.push(entry("老", vec!['l', 'a', 'o', '3']));
    pool.push(entry("师", vec!['s', 'h', 'i', '1']));
    pool.push(entry("朋", vec!['p', 'e', 'n', 'g', '2']));
    pool.push(entry("友", vec!['y', 'o', 'u', '3']));
    pool.push(entry("电", vec!['d', 'i', 'a', 'n', '4']));
    pool.push(entry("脑", vec!['n', 'a', 'o', '3']));
    pool.push(entry("手", vec!['s', 'h', 'o', 'u', '3']));
    pool.push(entry("机", vec!['j', 'i', '1']));
    pool.push(entry("语", vec!['y', 'u', '3']));
    pool.push(entry("言", vec!['y', 'a', 'n', '2']));
    pool.push(entry("食", vec!['s', 'h', 'i', '2']));
    pool.push(entry("物", vec!['w', 'u', '4']));
    let lvl = LevelDesc {
        name: String::from_str("Neon Bastion"),
        width: 10,
        height: 8,
        bpm: 150,
        tiles,
        spawn_points: vec![(0u8, 0u8), (9u8, 0u8), (5u8, 0u8)],
        goal_region: vec![(4u8, 7u8), (5u8, 7u8), (6u8, 7u8)],
        symbol_pool: pool,
    };
    proof {
        assert forall|i: int| 0 <= i < lvl.spawn_points@.len() implies lvl.spec_free(
            (#[trigger] lvl.spawn_points@[i]).0 as int,
            lvl.spawn_points@[i].1 as int,
        ) by {
            let c = idx_of(10, lvl.spawn_points@[i].0 as int, lvl.spawn_points@[i].1 as int);
            assert(!(lvl.tiles@[c].obstacle matches Some(ObstacleKind::Block)));
        }
        assert forall|i: int| 0 <= i < lvl.goal_region@.len() implies lvl.spec_free(
            (#[trigger] lvl.goal_region@[i]).0 as int,
            lvl.goal_region@[i].1 as int,
        ) by {
            let c = idx_of(10, lvl.goal_region@[i].0 as int, lvl.goal_region@[i].1 as int);
            assert(!(lvl.tiles@[c].obstacle matches Some(ObstacleKind::Block)));
        }
        assert(!(lvl.tiles@[0].obstacle matches Some(ObstacleKind::Block)));
    }
    lvl
}

/// The full built-in level sequence, in play order. Every board is
/// well-formed, so constructing a session on it together with
/// [`score_thresholds`] is always accepted.
pub fn levels() -> (r: Vec<LevelDesc>)
    ensures
        r@.len() == 7,
        forall|i: int| 0 <= i < r@.len() ==> (#[trigger] r@[i]).wf(),
{
    let mut v: Vec<LevelDesc> = Vec::new();
    v.push(level1());
    v.push(level2());
    v.push(level3());
    v.push(level4());
    v.push(level5());
    v.push(level6());
    v.push(level7());
    v
}

/// The score thresholds that unlock each level; index 0 is always zero.
pub fn score_thresholds() -> (r: Vec<i64>)
    ensures
        r@.len() == 7,
        r@[0] == 0,
{
    let mut v: Vec<i64> = Vec::new();
    v.push(0);
    v.push(2500);
    v.push(6000);
    v.push(12000);
    v.push(20000);
    v.push(32000);
    v.push(50000);
    v
}

/// A fresh session on the built-in level sequence. The built-in boards are
/// proven well-formed, so this construction never fails: it starts on the
/// first level with zero score and full lives.
pub fn builtin_session(seed: u64, now: i64) -> (s: BoardState)
    requires
        0 <= now <= TIME_LIMIT_MS,
    ensures
        s.wf(),
        s.level_index == 0,
        s.score == 0,
        s.lives == MAX_LIVES,
        !s.game_over,
        s.typing@.len() == 0,
        s.beat.start_ms == now,
        s.beat.last_beat_idx == -1,
{
    let l = levels();
    let t = score_thresholds();
    match BoardState::new(l, t, seed, now) {
        Ok(s) => s,
        Err(_) => {
            proof {
                assert(false);
            }
            vstd::pervasive::unreached()
        },
    }
}

} // verus!
