// Engine-level tests: the beat clock, level tile access, and movement
// selection.

use hanzi_cat::level::{LevelDesc, ObstacleKind, SymbolEntry, TileDesc};
use hanzi_cat::{choose_next_for_piece, choose_next_step, BeatClock, Piece};

// Helper to build a simple LevelDesc with optional blocked tiles.
fn make_level_with_tiles(
    width: u8,
    height: u8,
    obstacle_positions: &[(u8, u8)],
    goals: &[(u8, u8)],
) -> LevelDesc {
    let mut tiles: Vec<TileDesc> = Vec::new();
    for _ in 0..(width as usize * height as usize) {
        tiles.push(TileDesc {
            obstacle: None,
            modifier: None,
        });
    }
    for &(ox, oy) in obstacle_positions.iter() {
        let idx = oy as usize * width as usize + ox as usize;
        tiles[idx] = TileDesc {
            obstacle: Some(ObstacleKind::Block),
            modifier: None,
        };
    }
    LevelDesc {
        name: "test-level".to_string(),
        width,
        height,
        bpm: 120,
        tiles,
        spawn_points: vec![(0u8, 0u8)],
        goal_region: goals.to_vec(),
        symbol_pool: vec![SymbolEntry::new("你".to_string(), "ni3".chars().collect())],
    }
}

#[test]
fn test_beatclock() {
    let start = 1_000;
    let clock = BeatClock::new(120, start);
    assert_eq!(clock.beat_duration_ms(), 500);
    assert_eq!(clock.current_beat(start), 0);
    assert_eq!(clock.current_beat(start + 500), 1);
}

#[test]
fn test_level_tile_access() {
    let lvl = make_level_with_tiles(2, 2, &[], &[(1, 1)]);
    let t = lvl.tile(1, 0);
    assert!(t.obstacle.is_none());
    let g = lvl.tile(1, 1);
    assert!(g.obstacle.is_none());
}

#[test]
fn test_choose_next_step_prefers_unblocked_direction() {
    // Create 3x3 level with (1,0) blocked so (0,0) should move down to (0,1)
    let lvl = make_level_with_tiles(3, 3, &[(1, 0)], &[(2, 2)]);
    let step = choose_next_step(&lvl, 0, 0);
    assert_eq!(step, Some((0, 1)));
}

#[test]
fn test_choose_next_for_piece_momentum() {
    let lvl = make_level_with_tiles(3, 3, &[], &[(2, 2)]);
    let mut p = Piece::new("你".to_string(), "ni3".chars().collect(), 1, 1, 0, 200);
    p.flight.dir_dx = 1;
    p.flight.dir_dy = 0;
    p.flight.momentum = 1;
    let next = choose_next_for_piece(&lvl, &p);
    assert_eq!(next, Some((2, 1)));
}

#[test]
fn choose_next_step_never_returns_block_or_out_of_bounds() {
    // A board whose only open neighbors sit next to walls: every answer must
    // stay on the board and off the blocks.
    let blocks = [(0, 1), (1, 1), (2, 1)];
    let lvl = make_level_with_tiles(3, 3, &blocks, &[(2, 2)]);
    for x in 0..3u8 {
        for y in 0..3u8 {
            if let Some((nx, ny)) = choose_next_step(&lvl, x, y) {
                assert!(nx < 3 && ny < 3);
                assert!(!blocks.contains(&(nx, ny)));
            }
        }
    }
}

#[test]
fn choose_next_for_piece_prefers_adjacent_jump_pad() {
    let mut lvl = make_level_with_tiles(3, 3, &[], &[(0, 0)]);
    lvl.tiles[1 * 3 + 2] = TileDesc {
        obstacle: Some(ObstacleKind::JumpPad {
            dx: 0,
            dy: 1,
            strength: 1,
        }),
        modifier: None,
    };
    // Without momentum the piece at (1,1) prefers the pad at (2,1) even
    // though the goal lies the other way.
    let p = Piece::new("你".to_string(), "ni3".chars().collect(), 1, 1, 0, 200);
    assert_eq!(choose_next_for_piece(&lvl, &p), Some((2, 1)));
}

#[test]
fn momentum_stops_at_board_edge() {
    let lvl = make_level_with_tiles(3, 3, &[], &[(2, 2)]);
    let mut p = Piece::new("你".to_string(), "ni3".chars().collect(), 2, 1, 0, 200);
    p.flight.dir_dx = 1;
    p.flight.dir_dy = 0;
    p.flight.momentum = 1;
    // Straight continuation would leave the board; the greedy fallback walks
    // toward the goal instead.
    assert_eq!(choose_next_for_piece(&lvl, &p), Some((2, 2)));
}
