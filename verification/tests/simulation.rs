// End-to-end scenarios of the simulation state machine: typed matches,
// tile effects, timed expiries, level progression and the terminal state.

use hanzi_cat::level::{LevelDesc, ModifierKind, ObstacleKind, SymbolEntry, TileDesc};
use hanzi_cat::sim::{BoardState, ConfigError, KeyEvent};
use hanzi_cat::{level1, level2, level3, level5, levels, score_thresholds, BeatClock, Ratio};

fn entry(hanzi: &str, pinyin: &str) -> SymbolEntry {
    SymbolEntry::new(hanzi.to_string(), pinyin.chars().collect())
}

// A small open level at 120 BPM whose pool holds a single known symbol.
fn small_level(width: u8, height: u8) -> LevelDesc {
    let mut tiles: Vec<TileDesc> = Vec::new();
    for _ in 0..(width as usize * height as usize) {
        tiles.push(TileDesc {
            obstacle: None,
            modifier: None,
        });
    }
    LevelDesc {
        name: "scenario".to_string(),
        width,
        height,
        bpm: 120,
        tiles,
        spawn_points: vec![(0u8, 0u8)],
        goal_region: vec![(0u8, 0u8)],
        symbol_pool: vec![entry("你", "ni3")],
    }
}

fn session(lvl: LevelDesc) -> BoardState {
    BoardState::new(vec![lvl], vec![0], 42, 0).expect("level data should validate")
}

fn type_word(s: &mut BoardState, word: &str, now: i64) {
    for c in word.chars() {
        s.on_key(KeyEvent::Char(c), now);
    }
}

fn grid_idx(s: &BoardState, x: u8, y: u8) -> usize {
    y as usize * s.levels[s.level_index].width as usize + x as usize
}

#[test]
fn builtin_levels_validate() {
    assert!(BoardState::new(levels(), score_thresholds(), 7, 0).is_ok());
}

#[test]
fn builtin_session_starts_fresh() {
    let s = hanzi_cat::builtin_session(7, 250);
    assert_eq!(s.level_index, 0);
    assert_eq!(s.score, 0);
    assert_eq!(s.lives, 3);
    assert!(!s.game_over);
    assert!(s.typing.is_empty());
    assert_eq!(s.beat.start_ms, 250);
    assert_eq!(s.beat.last_beat_idx, -1);
    assert_eq!(s.beat.bpm, 120);
}

#[test]
fn config_errors_are_reported() {
    assert_eq!(
        BoardState::new(vec![], vec![], 1, 0).unwrap_err(),
        ConfigError::NoLevels
    );
    assert_eq!(
        BoardState::new(vec![level1()], vec![0, 1], 1, 0).unwrap_err(),
        ConfigError::ThresholdMismatch
    );
    assert_eq!(
        BoardState::new(vec![level1()], vec![7], 1, 0).unwrap_err(),
        ConfigError::ThresholdMismatch
    );
    let mut broken = small_level(3, 3);
    broken.tiles.pop();
    assert_eq!(
        BoardState::new(vec![broken], vec![0], 1, 0).unwrap_err(),
        ConfigError::InvalidLevel
    );
    let mut empty_pool = small_level(3, 3);
    empty_pool.symbol_pool.clear();
    assert_eq!(
        BoardState::new(vec![empty_pool], vec![0], 1, 0).unwrap_err(),
        ConfigError::InvalidLevel
    );
}

// Scenario: a 3x9 board with no obstacles at 120 BPM; the typed buffer
// matches the occupant directly above the token, so Enter queues a hop
// there, clears the buffer, and awards the base score times the multiplier.
#[test]
fn enter_match_hops_and_awards() {
    let mut s = session({
        let mut l = small_level(3, 9);
        l.bpm = 120;
        l
    });
    assert_eq!((s.token.flight.x, s.token.flight.y), (1, 4));
    let above = grid_idx(&s, 1, 3);
    s.grid[above] = Some(entry("猫", "mao1"));
    type_word(&mut s, "mao1", 100);
    assert_eq!(s.typing.iter().collect::<String>(), "mao1");
    s.on_key(KeyEvent::Enter, 100);
    assert!(s.typing.is_empty());
    assert_eq!(s.score, 180);
    assert!(!s.token.flight.arrived);
    assert_eq!((s.token.flight.target_x, s.token.flight.target_y), (1, 3));
    assert_eq!(s.token.flight.hop_start_ms, 100);
    assert_eq!(s.token.flight.hop_duration_ms, 220);
    assert!(s.grid[above].is_none());
    assert_eq!(s.slash_effects.len(), 1);
    assert_eq!(
        (s.slash_effects[0].x, s.slash_effects[0].y, s.slash_effects[0].start_ms),
        (1, 3, 100)
    );
}

#[test]
fn enter_without_match_only_clears_buffer() {
    let mut s = session(small_level(3, 3));
    type_word(&mut s, "zz9", 50);
    // '9' is not a tone digit, so the buffer holds only letters.
    assert_eq!(s.typing.iter().collect::<String>(), "zz");
    s.on_key(KeyEvent::Enter, 50);
    assert!(s.typing.is_empty());
    assert_eq!(s.score, 0);
    assert!(s.token.flight.arrived);
}

#[test]
fn typed_buffer_rules() {
    let mut s = session(small_level(3, 3));
    s.on_key(KeyEvent::Char('1'), 0);
    assert!(s.typing.is_empty()); // tone digit needs a letter before it
    s.on_key(KeyEvent::Char('N'), 0);
    assert_eq!(s.typing, vec!['n']); // uppercase folds to lowercase
    s.on_key(KeyEvent::Char('i'), 0);
    s.on_key(KeyEvent::Char('3'), 0);
    assert_eq!(s.typing, vec!['n', 'i', '3']);
    s.on_key(KeyEvent::Char('3'), 0);
    assert_eq!(s.typing, vec!['n', 'i', '3']); // no two digits in a row
    s.on_key(KeyEvent::Char('%'), 0);
    assert_eq!(s.typing, vec!['n', 'i', '3']);
    s.on_key(KeyEvent::Backspace, 0);
    assert_eq!(s.typing, vec!['n', 'i']);
    s.on_key(KeyEvent::Escape, 0);
    assert!(s.typing.is_empty());
    s.on_key(KeyEvent::Backspace, 0); // backspace on empty buffer is a no-op
    assert!(s.typing.is_empty());
}

// Scenario: a TempoShift{mult 3/2, beats 4} arrival at beat 10 scales the
// hop-time factor by 2/3 and sets its expiry to beat 14; at beat 14 the
// factor returns to exactly one.
#[test]
fn tempo_shift_sets_factor_and_expires() {
    let mut s = session({
        let mut l = small_level(3, 3);
        l.tiles[1].obstacle = Some(ObstacleKind::TempoShift {
            mult: Ratio { num: 3, den: 2 },
            beats: 4,
        });
        l
    });
    assert_eq!((s.token.flight.x, s.token.flight.y), (1, 1));
    type_word(&mut s, "ni3", 4900);
    s.on_key(KeyEvent::Enter, 4900); // hop up onto the tempo-shift tile
    assert_eq!((s.token.flight.target_x, s.token.flight.target_y), (1, 0));
    s.step(5200); // beat 10: the hop (4900 + 220) has finished
    assert!(s.token.flight.arrived);
    assert_eq!(s.hop_time_factor, Ratio { num: 2, den: 3 });
    assert_eq!(s.hop_time_end_beat, 14);
    s.step(6999); // beat 13: not yet
    assert_eq!(s.hop_time_factor, Ratio { num: 2, den: 3 });
    s.step(7000); // beat 14: back to exactly one
    assert_eq!(s.hop_time_factor, Ratio { num: 1, den: 1 });
    assert_eq!(s.hop_time_end_beat, -1);
}

// Scenario: a Conveyor{dx 1, dy 0} arrival queues a hop to (x+1, y) with
// 0.8 times the prior duration; a conveyor pointing off the board queues
// nothing and the token stays arrived.
#[test]
fn conveyor_queues_shorter_hop() {
    let mut s = session({
        let mut l = small_level(3, 3);
        l.tiles[1].obstacle = Some(ObstacleKind::Conveyor { dx: 1, dy: 0 });
        l
    });
    type_word(&mut s, "ni3", 0);
    s.on_key(KeyEvent::Enter, 0);
    s.step(300); // arrival on the conveyor at (1,0)
    assert_eq!((s.token.flight.x, s.token.flight.y), (1, 0));
    assert!(!s.token.flight.arrived);
    assert_eq!((s.token.flight.target_x, s.token.flight.target_y), (2, 0));
    assert_eq!(s.token.flight.hop_duration_ms, 176); // 220 * 4 / 5
}

#[test]
fn conveyor_pointing_off_board_does_nothing() {
    let mut s = session({
        let mut l = small_level(3, 3);
        l.tiles[1 * 3 + 2].obstacle = Some(ObstacleKind::Conveyor { dx: 1, dy: 0 });
        l
    });
    let right = grid_idx(&s, 2, 1);
    s.grid[right] = Some(entry("猫", "mao1"));
    type_word(&mut s, "mao1", 0);
    s.on_key(KeyEvent::Enter, 0);
    s.step(300); // arrival on the conveyor at (2,1), which points off-board
    assert!(s.token.flight.arrived);
    assert_eq!((s.token.flight.x, s.token.flight.y), (2, 1));
    assert_eq!((s.token.flight.target_x, s.token.flight.target_y), (2, 1));
}

#[test]
fn jump_pad_launches_over_tiles() {
    let mut s = session({
        let mut l = small_level(5, 3);
        l.tiles[2].obstacle = Some(ObstacleKind::JumpPad {
            dx: 1,
            dy: 0,
            strength: 2,
        });
        l
    });
    assert_eq!((s.token.flight.x, s.token.flight.y), (2, 1));
    type_word(&mut s, "ni3", 0);
    s.on_key(KeyEvent::Enter, 0); // hop up onto the pad at (2,0)
    s.step(300);
    assert!(!s.token.flight.arrived);
    assert_eq!((s.token.flight.target_x, s.token.flight.target_y), (4, 0));
    assert_eq!(s.token.flight.hop_duration_ms, 132); // 220 * 3 / 5
    assert_eq!(s.token.flight.momentum, 0); // a jump breaks sliding momentum
}

#[test]
fn teleport_relocates_and_consumes_destination() {
    let mut s = session({
        let mut l = small_level(3, 3);
        l.tiles[1].obstacle = Some(ObstacleKind::Teleport { to: (2, 2) });
        l
    });
    let dest = grid_idx(&s, 2, 2);
    assert!(s.grid[dest].is_some());
    type_word(&mut s, "ni3", 0);
    s.on_key(KeyEvent::Enter, 0);
    s.step(300); // arrival on the teleport at (1,0)
    assert_eq!((s.token.flight.x, s.token.flight.y), (2, 2));
    assert!(s.token.flight.arrived); // no follow-up hop is queued
    assert!(s.grid[dest].is_none());
}

#[test]
fn ice_grants_momentum_and_slides_on_the_beat() {
    let mut s = session({
        let mut l = small_level(5, 3);
        l.tiles[1 * 5 + 1].obstacle = Some(ObstacleKind::Ice);
        l
    });
    let left = grid_idx(&s, 1, 1);
    s.grid[left] = Some(entry("猫", "mao1"));
    type_word(&mut s, "mao1", 0);
    s.on_key(KeyEvent::Enter, 0); // hop left onto the ice at (1,1)
    s.step(300); // arrival: momentum granted, direction kept
    assert!(s.token.flight.arrived);
    assert_eq!((s.token.flight.x, s.token.flight.y), (1, 1));
    assert_eq!(s.token.flight.momentum, 1);
    assert_eq!((s.token.flight.dir_dx, s.token.flight.dir_dy), (-1, 0));
    s.step(501); // the next whole beat: the slide continues straight
    assert!(!s.token.flight.arrived);
    assert_eq!((s.token.flight.target_x, s.token.flight.target_y), (0, 1));
}

#[test]
fn transform_map_rewrites_token_symbol() {
    let mut s = session({
        let mut l = small_level(3, 3);
        l.tiles[1].obstacle = Some(ObstacleKind::Transform);
        l.tiles[1].modifier = Some(ModifierKind::TransformMap {
            pairs: vec![("你".to_string(), "好".to_string())],
        });
        l
    });
    s.token.hanzi = "你".to_string();
    let pinyin_before = s.token.pinyin.clone();
    type_word(&mut s, "ni3", 0);
    s.on_key(KeyEvent::Enter, 0);
    s.step(300);
    assert_eq!(s.token.hanzi, "好");
    assert_eq!(s.token.pinyin, pinyin_before); // pronunciation unchanged
}

#[test]
fn score_multiplier_applies_and_expires() {
    let mut s = session({
        let mut l = small_level(3, 3);
        l.tiles[1].modifier = Some(ModifierKind::ScoreMult {
            factor: Ratio { num: 2, den: 1 },
            beats: 4,
        });
        l
    });
    type_word(&mut s, "ni3", 0);
    s.on_key(KeyEvent::Enter, 0);
    assert_eq!(s.score, 180); // multiplier still one when the hop is queued
    s.step(300); // arrival on the multiplier tile at beat 0
    assert_eq!(s.score_multiplier, Ratio { num: 2, den: 1 });
    assert_eq!(s.score_mult_end_beat, 4);
    // A second match under the doubled multiplier awards 360.
    let below = grid_idx(&s, 1, 1);
    s.grid[below] = Some(entry("猫", "mao1"));
    type_word(&mut s, "mao1", 320);
    s.on_key(KeyEvent::Enter, 320);
    assert_eq!(s.score, 180 + 360);
    // On the first step at or past beat 4 the multiplier resets, not before.
    s.step(1999); // beat 3
    assert_eq!(s.score_multiplier, Ratio { num: 2, den: 1 });
    s.step(2000); // beat 4
    assert_eq!(s.score_multiplier, Ratio { num: 1, den: 1 });
    assert_eq!(s.score_mult_end_beat, -1);
}

// Scenario: once the score reaches the next threshold, the level switches
// and all per-level dynamic state resets; the score itself is kept.
#[test]
fn level_switch_resets_dynamic_state() {
    let mut s = BoardState::new(vec![level1(), level2()], vec![0, 2500], 9, 0).unwrap();
    s.score = 2500;
    s.hop_time_factor = Ratio { num: 2, den: 3 };
    s.hop_time_end_beat = 9;
    s.score_multiplier = Ratio { num: 2, den: 1 };
    s.score_mult_end_beat = 9;
    s.step(100);
    assert_eq!(s.level_index, 1);
    assert_eq!(s.score, 2500);
    assert_eq!(s.hop_time_factor, Ratio { num: 1, den: 1 });
    assert_eq!(s.score_multiplier, Ratio { num: 1, den: 1 });
    assert_eq!(s.hop_time_end_beat, -1);
    assert_eq!(s.score_mult_end_beat, -1);
    assert_eq!(
        s.beat,
        BeatClock {
            bpm: 126,
            start_ms: 100,
            last_beat_idx: -1
        }
    );
}

// Scenario: reaching zero lives sets the terminal flag permanently; later
// beats refill nothing and typed advancement is refused.
#[test]
fn game_over_is_permanent_and_suppresses_play() {
    let mut s = session(small_level(3, 3));
    s.lose_life();
    s.lose_life();
    assert!(!s.game_over);
    s.lose_life();
    assert!(s.game_over);
    assert_eq!(s.lives, 0);
    let corner = grid_idx(&s, 0, 0);
    s.grid[corner] = None;
    s.step(600); // a whole beat passes, but no refill happens
    assert!(s.grid[corner].is_none());
    assert!(s.game_over);
    type_word(&mut s, "ni3", 700);
    s.on_key(KeyEvent::Enter, 700); // a matching neighbor exists, but no match fires
    assert_eq!(s.score, 0);
    assert!(s.token.flight.arrived);
    assert!(s.typing.is_empty());
    s.lose_life(); // already over: nothing changes
    assert_eq!(s.lives, 0);
    assert!(s.game_over);
}

// The occupant-grid invariant: the token's cell is empty after any sequence
// of steps and inputs.
#[test]
fn token_cell_stays_empty() {
    let mut s = session(small_level(3, 9));
    let token_cell = |s: &BoardState| grid_idx(s, s.token.flight.x, s.token.flight.y);
    assert!(s.grid[token_cell(&s)].is_none());
    type_word(&mut s, "ni3", 0);
    s.on_key(KeyEvent::Enter, 0);
    assert!(s.grid[token_cell(&s)].is_none());
    for t in [300, 600, 1100, 2600] {
        s.step(t);
        assert!(s.grid[token_cell(&s)].is_none());
    }
}

#[test]
fn missed_beats_all_fire() {
    let mut s = session(small_level(3, 3));
    let corner = grid_idx(&s, 0, 0);
    s.grid[corner] = None;
    s.step(2600); // five whole beats at once
    assert_eq!(s.beat.last_beat_idx, 5);
    assert!(s.grid[corner].is_some()); // refill ran
}

#[test]
fn jump_pad_with_no_direction_launches_toward_goal() {
    let mut s = session({
        let mut l = small_level(3, 3);
        l.goal_region = vec![(0, 0)];
        l.tiles[1].obstacle = Some(ObstacleKind::JumpPad {
            dx: 0,
            dy: 0,
            strength: 1,
        });
        l
    });
    type_word(&mut s, "ni3", 0);
    s.on_key(KeyEvent::Enter, 0); // hop up onto the pad at (1,0)
    s.step(300);
    // The pad derives its direction toward the first goal cell, (0,0).
    assert_eq!((s.token.flight.target_x, s.token.flight.target_y), (0, 0));
    assert!(!s.token.flight.arrived);
}

#[test]
fn score_saturates_instead_of_overflowing() {
    let mut s = session(small_level(3, 3));
    s.score = i64::MAX - 10;
    type_word(&mut s, "ni3", 0);
    s.on_key(KeyEvent::Enter, 0);
    assert_eq!(s.score, i64::MAX);
}

#[test]
fn built_in_boards_hold_their_special_tiles() {
    let l3 = level3();
    assert!(matches!(
        l3.tiles[8].obstacle,
        Some(ObstacleKind::Teleport { to: (0, 8) })
    ));
    assert!(matches!(
        l3.tiles[9 * 4 + 2].obstacle,
        Some(ObstacleKind::TempoShift {
            mult: Ratio { num: 3, den: 2 },
            beats: 3
        })
    ));
    assert!(matches!(l3.tiles[9 * 2 + 5].obstacle, Some(ObstacleKind::Block)));
    let l5 = level5();
    assert!(matches!(
        l5.tiles[16].obstacle,
        Some(ObstacleKind::Teleport { to: (7, 1) })
    ));
    assert!(matches!(l5.tiles[40].obstacle, Some(ObstacleKind::Transform)));
    assert!(matches!(
        l5.tiles[70].modifier,
        Some(ModifierKind::SlowHop {
            factor: Ratio { num: 3, den: 2 },
            beats: 3
        })
    ));
    let l2 = level2();
    assert!(matches!(
        l2.tiles[2].obstacle,
        Some(ObstacleKind::Conveyor { dx: 0, dy: 1 })
    ));
    assert!(matches!(
        l2.tiles[9 * 5 + 5].obstacle,
        Some(ObstacleKind::TempoShift {
            mult: Ratio { num: 27, den: 20 },
            beats: 4
        })
    ));
}

#[test]
fn pointer_hover_tracks_tiles() {
    let mut s = session(small_level(3, 3));
    s.on_pointer_move(2, 1);
    assert_eq!(s.hover_tile, Some((2, 1)));
    s.on_pointer_move(3, 1); // off the board
    assert_eq!(s.hover_tile, None);
    s.on_pointer_move(0, 0);
    s.on_pointer_leave();
    assert_eq!(s.hover_tile, None);
}

#[test]
fn draw_model_reflects_state() {
    let mut s = session(small_level(3, 9));
    type_word(&mut s, "ni3", 0);
    s.on_key(KeyEvent::Enter, 0);
    let m = s.draw_model(110); // halfway through the 220 ms hop
    assert_eq!((m.width, m.height), (3, 9));
    assert_eq!(m.score, 180);
    assert_eq!(m.lives, 3);
    assert!(!m.game_over);
    assert_eq!(m.progress_permille, 500);
    assert!(m.typing.is_empty());
    assert_eq!(m.slash_effects.len(), 1);
}
