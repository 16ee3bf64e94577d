//! The simulation state and its step machine.
//!
//! A [`BoardState`] owns everything: the ordered level list with score
//! thresholds, the beat clock, the mutable occupant grid, the single active
//! token, score / lives / timed-effect state, the typed buffer and the
//! transient visual effects. A host drives it by calling [`BoardState::step`]
//! once per frame with a timestamp and feeding key events through
//! [`BoardState::on_key`]; it never blocks and never polls a device.

use vstd::prelude::*;

use crate::beat::BeatClock;
use crate::beat::TIME_LIMIT_MS;
use crate::level::idx_of;
use crate::level::LevelDesc;
use crate::level::ModifierKind;
use crate::level::ObstacleKind;
use crate::level::SymbolEntry;
use crate::level::TileDesc;
use crate::movement::choose_next_step;
use crate::movement::spec_next_step;
use crate::ratio::Ratio;
use crate::rng::lcg_next;
use crate::rng::Lcg;
use crate::token::begin_hop_spec;
use crate::token::sign_step;
use crate::token::spec_sign;
use crate::token::Flight;
use crate::token::Piece;
use crate::token::HOP_BASE_MS;
use crate::token::HOP_MS_LIMIT;

verus! {

/// Score awarded for a typed match before the multiplier is applied.
pub const BASE_AWARD: i64 = 180;

/// How long a transient slash effect stays visible, in milliseconds.
pub const SLASH_FADE_MS: i64 = 300;

/// Lives a fresh session starts with.
pub const MAX_LIVES: u8 = 3;

/// Largest value a timed-effect expiry beat can take: the largest whole
/// beat plus the largest `beats` field of a tile.
pub const EXPIRY_LIMIT: i64 = 0x2000_0000_0000_0000 + 0xffff_ffff;

/// Why a level list was rejected at construction time.
#[derive(Clone, Copy, Debug, PartialEq, Eq, Structural)]
pub enum ConfigError {
    /// The level list was empty.
    NoLevels,
    /// The threshold list did not parallel the level list, or its first
    /// entry was not zero.
    ThresholdMismatch,
    /// Some level failed validation ([`LevelDesc::wf`]).
    InvalidLevel,
}

/// A transient claw-slash visual effect, keyed to a cell and a start time.
#[derive(Clone, Copy, Debug, PartialEq, Eq, Structural)]
pub struct SlashEffect {
    pub x: u8,
    pub y: u8,
    pub start_ms: i64,
}

/// One logical key delivered by the host input source.
#[derive(Clone, Copy, Debug, PartialEq, Eq, Structural)]
pub enum KeyEvent {
    /// A printable character.
    Char(char),
    Backspace,
    Enter,
    Escape,
}

/// The order in which a level list and its parallel threshold list are
/// rejected; `None` means the configuration is accepted.
pub open spec fn spec_config_error(levels: Seq<LevelDesc>, thresholds: Seq<i64>) -> Option<
    ConfigError,
> {
    if levels.len() == 0 {
        Some(ConfigError::NoLevels)
    } else if thresholds.len() != levels.len() || thresholds[0] != 0 {
        Some(ConfigError::ThresholdMismatch)
    } else if exists|i: int| 0 <= i < levels.len() && !(#[trigger] levels[i]).wf() {
        Some(ConfigError::InvalidLevel)
    } else {
        None
    }
}

/// Runtime state of one simulation session.
#[derive(Debug)]
pub struct BoardState {
    /// The ordered, immutable level list.
    pub levels: Vec<LevelDesc>,
    /// Parallel score thresholds; index 0 is always zero.
    pub thresholds: Vec<i64>,
    /// Index of the current level.
    pub level_index: usize,
    /// The beat clock for the current level's tempo.
    pub beat: BeatClock,
    /// Occupant grid parallel to the current level's tiles: blocked cells
    /// and the token's cell are always empty.
    pub grid: Vec<Option<SymbolEntry>>,
    /// The single active token.
    pub token: Piece,
    /// Accumulated score; never reset (it is the progression currency).
    pub score: i64,
    /// Current score multiplier; exactly one when no effect is active.
    pub score_multiplier: Ratio,
    /// Whole beat at which the score multiplier expires, `-1` for none.
    pub score_mult_end_beat: i64,
    /// Current hop-duration factor; exactly one when no effect is active.
    pub hop_time_factor: Ratio,
    /// Whole beat at which the hop-time factor expires, `-1` for none.
    pub hop_time_end_beat: i64,
    /// Remaining lives; reaching zero is the terminal game-over transition.
    pub lives: u8,
    /// Set permanently when `lives` reaches zero.
    pub game_over: bool,
    /// The pinyin buffer the player is typing.
    pub typing: Vec<char>,
    /// Active transient visual effects.
    pub slash_effects: Vec<SlashEffect>,
    /// The tile under the pointer, if any.
    pub hover_tile: Option<(u8, u8)>,
    /// Generator for symbol draws.
    pub rng: Lcg,
}

impl BoardState {
    /// The current level.
    pub open spec fn spec_level(&self) -> LevelDesc {
        self.levels@[self.level_index as int]
    }

    /// Flat grid index of the token's current cell.
    pub open spec fn token_idx(&self) -> int {
        idx_of(self.spec_level().width as int, self.token.flight.x as int,
            self.token.flight.y as int)
    }

    /// A legal expiry-beat value.
    pub open spec fn expiry_wf(e: i64) -> bool {
        -1 <= e <= EXPIRY_LIMIT
    }

    /// The occupant-grid invariant: blocked cells are always empty, and the
    /// token's current cell is always empty.
    pub open spec fn grid_inv(&self) -> bool {
        &&& self.grid@.len() == self.spec_level().width as int * self.spec_level().height as int
        &&& forall|i: int| (0 <= i < self.grid@.len()
            && ((#[trigger] self.spec_level().tiles@[i]).obstacle matches Some(
            ObstacleKind::Block,
        ))) ==> self.grid@[i] is None
        &&& self.grid@[self.token_idx()] is None
    }

    /// The full state invariant: every constructor establishes it and every
    /// step preserves it.
    pub open spec fn wf(&self) -> bool {
        &&& self.level_index < self.levels@.len()
        &&& forall|i: int| 0 <= i < self.levels@.len() ==> (#[trigger] self.levels@[i]).wf()
        &&& self.thresholds@.len() == self.levels@.len()
        &&& self.beat.wf()
        &&& self.beat.bpm == self.spec_level().bpm
        &&& self.token.flight.wf(self.spec_level().width as int, self.spec_level().height as int)
        &&& self.grid_inv()
        &&& self.score_multiplier.wf()
        &&& self.hop_time_factor.wf()
        &&& Self::expiry_wf(self.score_mult_end_beat)
        &&& Self::expiry_wf(self.hop_time_end_beat)
        &&& 0 <= self.score
        &&& self.lives <= MAX_LIVES
        &&& (self.game_over <==> self.lives == 0)
        &&& forall|i: int| 0 <= i < self.slash_effects@.len()
            ==> 0 <= (#[trigger] self.slash_effects@[i]).start_ms <= TIME_LIMIT_MS
    }

    /// Flat index of the first non-block tile, scanning row-major from `i`.
    pub open spec fn first_free_from(l: &LevelDesc, i: int) -> int
        decreases l.tiles@.len() - i,
    {
        if i < 0 || i >= l.tiles@.len() {
            0
        } else if !(l.tiles@[i].obstacle matches Some(ObstacleKind::Block)) {
            i
        } else {
            Self::first_free_from(l, i + 1)
        }
    }

    /// Where a fresh token is placed on `l`: the board center if it is not
    /// blocked, otherwise the first non-block cell in row-major order.
    pub open spec fn spec_start_pos(l: &LevelDesc) -> (u8, u8) {
        let cx = (l.width / 2) as int;
        let cy = (l.height / 2) as int;
        if !l.spec_is_block(cx, cy) {
            (l.width / 2, l.height / 2)
        } else {
            let i = Self::first_free_from(l, 0);
            ((i % l.width as int) as u8, (i / l.width as int) as u8)
        }
    }
}

/// Whether `e` carries the same symbol data as some entry of `l`'s pool.
pub open spec fn from_pool(l: &LevelDesc, hanzi: Seq<char>, pinyin: Seq<char>) -> bool {
    exists|k: int| 0 <= k < l.symbol_pool@.len() && hanzi == (#[trigger] l.symbol_pool@[k]).hanzi@
        && pinyin == l.symbol_pool@[k].pinyin@
}

/// What one freshly seeded grid cell holds: nothing on a blocked tile, a
/// pool symbol anywhere else.
pub open spec fn seeded_cell(l: &LevelDesc, g: Seq<Option<SymbolEntry>>, j: int) -> bool {
    if l.tiles@[j].obstacle matches Some(ObstacleKind::Block) {
        g[j] is None
    } else {
        g[j] matches Some(e) && from_pool(l, e.hanzi@, e.pinyin@)
    }
}

impl BoardState {
    /// Places a fresh token: the board center when it is free, otherwise the
    /// first non-block cell scanning row-major.
    fn find_start_pos(l: &LevelDesc) -> (r: (u8, u8))
        requires
            l.wf(),
        ensures
            r == Self::spec_start_pos(l),
            l.spec_free(r.0 as int, r.1 as int),
    {
        let cx = l.width / 2;
        let cy = l.height / 2;
        if !(matches!(l.tile(cx, cy).obstacle, Some(ObstacleKind::Block))) {
            return (cx, cy);
        }
        let n = l.tiles.len();
        let mut i: usize = 0;
        while i < n
            invariant
                l.wf(),
                n == l.tiles@.len(),
                0 <= i <= n,
                l.spec_is_block((l.width / 2) as int, (l.height / 2) as int),
                forall|j: int| 0 <= j < i
                    ==> (#[trigger] l.tiles@[j]).obstacle matches Some(ObstacleKind::Block),
                Self::first_free_from(l, 0) == Self::first_free_from(l, i as int),
            decreases n - i,
        {
            if !(matches!(l.tiles[i].obstacle, Some(ObstacleKind::Block))) {
                assert(Self::first_free_from(l, i as int) == i as int);
                assert((i as int) % (l.width as int) < (l.width as int) && (i as int) / (
                l.width as int) < (l.height as int) && ((i as int) / (l.width as int)) * (
                l.width as int) + (i as int) % (l.width as int) == i as int) by (nonlinear_arith)
                    requires
                        1 <= (l.width as int),
                        1 <= (l.height as int),
                        0 <= (i as int) < (l.width as int) * (l.height as int),
                ;
                let x = (i % l.width as usize) as u8;
                let y = (i / l.width as usize) as u8;
                return (x, y);
            }
            i = i + 1;
        }
        // Unreachable: a well-formed level has at least one non-block tile.
        proof {
            assert(false);
        }
        (0, 0)
    }

    /// Switches to the level at `new_index` and reinitializes all per-level
    /// dynamic state: the occupant grid is rebuilt from the level's pool,
    /// the token is replaced wholesale on the start cell, the beat clock
    /// restarts at the new tempo with no beat processed, and both timed
    /// factors reset to one with their expiries cleared. Score, lives and
    /// the game-over flag are never touched by a level switch.
    pub fn set_level(&mut self, new_index: usize, now: i64)
        requires
            forall|i: int| 0 <= i < old(self).levels@.len()
                ==> (#[trigger] old(self).levels@[i]).wf(),
            old(self).thresholds@.len() == old(self).levels@.len(),
            new_index < old(self).levels@.len(),
            0 <= now <= TIME_LIMIT_MS,
            old(self).lives <= MAX_LIVES,
            old(self).game_over <==> old(self).lives == 0,
            0 <= old(self).score,
            forall|i: int| 0 <= i < old(self).slash_effects@.len()
                ==> 0 <= (#[trigger] old(self).slash_effects@[i]).start_ms <= TIME_LIMIT_MS,
        ensures
            final(self).wf(),
            final(self).level_index == new_index,
            final(self).levels == old(self).levels,
            final(self).thresholds == old(self).thresholds,
            final(self).score == old(self).score,
            final(self).lives == old(self).lives,
            final(self).game_over == old(self).game_over,
            final(self).typing == old(self).typing,
            final(self).slash_effects == old(self).slash_effects,
            final(self).hover_tile == old(self).hover_tile,
            final(self).hop_time_factor == (Ratio { num: 1, den: 1 }),
            final(self).score_multiplier == (Ratio { num: 1, den: 1 }),
            final(self).hop_time_end_beat == -1,
            final(self).score_mult_end_beat == -1,
            final(self).beat == (BeatClock {
                bpm: old(self).levels@[new_index as int].bpm,
                start_ms: now,
                last_beat_idx: -1int as i64,
            }),
            final(self).token.flight == ({
                let start = Self::spec_start_pos(&old(self).levels@[new_index as int]);
                Flight {
                    x: start.0,
                    y: start.1,
                    target_x: start.0,
                    target_y: start.1,
                    hop_start_ms: now,
                    hop_duration_ms: HOP_BASE_MS,
                    arrived: true,
                    dir_dx: 0i8,
                    dir_dy: 0i8,
                    momentum: 0u8,
                }
            }),
            from_pool(&old(self).levels@[new_index as int], final(self).token.hanzi@,
                final(self).token.pinyin@),
            final(self).grid@.len() == old(self).levels@[new_index as int].width as int
                * old(self).levels@[new_index as int].height as int,
            forall|j: int| (0 <= j < final(self).grid@.len() && j != final(self).token_idx())
                ==> #[trigger] seeded_cell(&old(self).levels@[new_index as int], final(self).grid@,
                j),
            final(self).grid@[final(self).token_idx()] is None,
    {
        let w = self.levels[new_index].width;
        let h = self.levels[new_index].height;
        let bpm = self.levels[new_index].bpm;
        assert((w as int) * (h as int) <= 255 * 255) by (nonlinear_arith)
            requires
                0 <= (w as int) <= 255,
                0 <= (h as int) <= 255,
        ;
        let total = w as usize * h as usize;
        let mut grid: Vec<Option<SymbolEntry>> = Vec::new();
        let mut i: usize = 0;
        while i < total
            invariant
                forall|q: int| 0 <= q < self.levels@.len() ==> (#[trigger] self.levels@[q]).wf(),
                new_index < self.levels@.len(),
                w == self.levels@[new_index as int].width,
                h == self.levels@[new_index as int].height,
                total == (w as int) * (h as int),
                total == self.levels@[new_index as int].tiles@.len(),
                grid@.len() == i,
                0 <= i <= total,
                forall|j: int| 0 <= j < i ==> #[trigger] seeded_cell(
                    &self.levels@[new_index as int], grid@, j),
                self.levels == old(self).levels,
                self.thresholds == old(self).thresholds,
                self.token == old(self).token,
                self.score == old(self).score,
                self.lives == old(self).lives,
                self.game_over == old(self).game_over,
                self.typing == old(self).typing,
                self.slash_effects == old(self).slash_effects,
                self.hover_tile == old(self).hover_tile,
            decreases total - i,
        {
            let ghost g0 = grid@;
            let ghost lvl = self.levels@[new_index as int];
            if matches!(self.levels[new_index].tiles[i].obstacle, Some(ObstacleKind::Block)) {
                grid.push(None);
                proof {
                    assert forall|j: int| 0 <= j <= i as int implies #[trigger] seeded_cell(
                        &lvl,
                        grid@,
                        j,
                    ) by {
                        if j < i as int {
                            assert(grid@[j] == g0[j]);
                            assert(seeded_cell(&lvl, g0, j));
                        } else {
                            assert(grid@[j] is None);
                        }
                    }
                }
            } else {
                let e = pick_symbol(&self.levels[new_index].symbol_pool, &mut self.rng);
                let ghost eh = e.hanzi@;
                let ghost ep = e.pinyin@;
                proof {
                    assert(from_pool(&lvl, eh, ep));
                }
                grid.push(Some(e));
                proof {
                    assert forall|j: int| 0 <= j <= i as int implies #[trigger] seeded_cell(
                        &lvl,
                        grid@,
                        j,
                    ) by {
                        if j < i as int {
                            assert(grid@[j] == g0[j]);
                            assert(seeded_cell(&lvl, g0, j));
                        } else {
                            assert(grid@[j] matches Some(q) && q.hanzi@ == eh && q.pinyin@ == ep);
                        }
                    }
                }
            }
            i = i + 1;
        }
        let start = Self::find_start_pos(&self.levels[new_index]);
        let (sx, sy) = start;
        assert((sy as int) * (w as int) + (sx as int) < (w as int) * (h as int) && (sy as int) * (
        w as int) >= 0) by (nonlinear_arith)
            requires
                0 <= (sx as int) < (w as int),
                0 <= (sy as int) < (h as int),
        ;
        let tidx = sy as usize * w as usize + sx as usize;
        let ghost gpre = grid@;
        let ghost lvl = self.levels@[new_index as int];
        grid[tidx] = None;
        proof {
            assert forall|j: int| (0 <= j < grid@.len() && j != tidx as int)
                implies #[trigger] seeded_cell(&lvl, grid@, j) by {
                assert(grid@[j] == gpre[j]);
                assert(seeded_cell(&lvl, gpre, j));
            }
        }
        let e = pick_symbol(&self.levels[new_index].symbol_pool, &mut self.rng);
        self.token = Piece::new(e.hanzi, e.pinyin, sx, sy, now, HOP_BASE_MS);
        self.grid = grid;
        self.level_index = new_index;
        self.beat = BeatClock::new(bpm, now);
        self.hop_time_factor = Ratio::one();
        self.hop_time_end_beat = -1;
        self.score_multiplier = Ratio::one();
        self.score_mult_end_beat = -1;
        proof {
            assert(self.token_idx() == tidx as int);
            assert forall|j: int| (0 <= j < self.grid@.len() && (
            (#[trigger] self.spec_level().tiles@[j]).obstacle matches Some(ObstacleKind::Block)))
                implies self.grid@[j] is None by {
                if j != tidx as int {
                    assert(seeded_cell(&lvl, self.grid@, j));
                }
            }
        }
    }

    /// Builds a fresh session from a level list and its parallel score
    /// thresholds, rejecting malformed configuration data; a valid session
    /// starts on the first level with zero score, full lives, an empty
    /// typed buffer, and a beat clock that has processed no beat.
    pub fn new(levels: Vec<LevelDesc>, thresholds: Vec<i64>, seed: u64, now: i64) -> (r: Result<
        BoardState,
        ConfigError,
    >)
        requires
            0 <= now <= TIME_LIMIT_MS,
        ensures
            r is Ok <==> spec_config_error(levels@, thresholds@) is None,
            r matches Err(e) ==> Some(e) == spec_config_error(levels@, thresholds@),
            r matches Ok(s) ==> {
                &&& s.wf()
                &&& s.levels == levels
                &&& s.thresholds == thresholds
                &&& s.level_index == 0
                &&& s.score == 0
                &&& s.lives == MAX_LIVES
                &&& !s.game_over
                &&& s.typing@.len() == 0
                &&& s.slash_effects@.len() == 0
                &&& s.hover_tile is None
                &&& s.score_multiplier == (Ratio { num: 1, den: 1 })
                &&& s.hop_time_factor == (Ratio { num: 1, den: 1 })
                &&& s.score_mult_end_beat == -1
                &&& s.hop_time_end_beat == -1
                &&& s.beat == (BeatClock {
                    bpm: levels@[0].bpm,
                    start_ms: now,
                    last_beat_idx: -1int as i64,
                })
                &&& s.token.flight == ({
                    let start = Self::spec_start_pos(&levels@[0]);
                    Flight {
                        x: start.0,
                        y: start.1,
                        target_x: start.0,
                        target_y: start.1,
                        hop_start_ms: now,
                        hop_duration_ms: HOP_BASE_MS,
                        arrived: true,
                        dir_dx: 0i8,
                        dir_dy: 0i8,
                        momentum: 0u8,
                    }
                })
                &&& from_pool(&levels@[0], s.token.hanzi@, s.token.pinyin@)
                &&& s.grid@.len() == levels@[0].width as int * levels@[0].height as int
                &&& forall|j: int| (0 <= j < s.grid@.len() && j != s.token_idx())
                    ==> #[trigger] seeded_cell(&levels@[0], s.grid@, j)
                &&& s.grid@[s.token_idx()] is None
            },
    {
        if levels.len() == 0 {
            return Err(ConfigError::NoLevels);
        }
        if thresholds.len() != levels.len() || thresholds[0] != 0 {
            return Err(ConfigError::ThresholdMismatch);
        }
        let mut i: usize = 0;
        while i < levels.len()
            invariant
                0 <= i <= levels@.len(),
                forall|j: int| 0 <= j < i ==> (#[trigger] levels@[j]).wf(),
                levels@.len() > 0,
                thresholds@.len() == levels@.len(),
                thresholds@[0] == 0,
            decreases levels@.len() - i,
        {
            if !levels[i].validate() {
                return Err(ConfigError::InvalidLevel);
            }
            i = i + 1;
        }
        let e = SymbolEntry::new(String::new(), Vec::new());
        let mut s = BoardState {
            levels,
            thresholds,
            level_index: 0,
            beat: BeatClock::new(1, now),
            grid: Vec::new(),
            token: Piece::new(e.hanzi, e.pinyin, 0, 0, now, HOP_BASE_MS),
            score: 0,
            score_multiplier: Ratio::one(),
            score_mult_end_beat: -1,
            hop_time_factor: Ratio::one(),
            hop_time_end_beat: -1,
            lives: MAX_LIVES,
            game_over: false,
            typing: Vec::new(),
            slash_effects: Vec::new(),
            hover_tile: None,
            rng: Lcg::new(seed),
        };
        s.set_level(0, now);
        Ok(s)
    }
}

/// Duration of the short hop a conveyor queues: four fifths of the hop that
/// just finished, never below one millisecond.
pub open spec fn spec_conveyor_dur(d: int) -> int {
    let s = d * 4 / 5;
    if s < 1 {
        1
    } else {
        s
    }
}

/// Duration of the fast hop a jump pad queues: three fifths of the hop that
/// just finished, never below one millisecond.
pub open spec fn spec_jump_dur(d: int) -> int {
    let s = d * 3 / 5;
    if s < 1 {
        1
    } else {
        s
    }
}

/// Where a jump pad launch from `(x, y)` lands: walk up to `k` cells in
/// direction `(dx, dy)`, stopping before the board edge or any block.
pub open spec fn spec_jump_dest(l: &LevelDesc, x: int, y: int, dx: int, dy: int, k: int) -> (
    int,
    int,
)
    decreases k,
{
    if k <= 0 {
        (x, y)
    } else if l.spec_free(x + dx, y + dy) {
        spec_jump_dest(l, x + dx, y + dy, dx, dy, k - 1)
    } else {
        (x, y)
    }
}

/// The direction a jump pad launches in: its own direction, or toward the
/// first goal cell when it has none, or nowhere when there is no goal.
pub open spec fn spec_jump_dir(l: &LevelDesc, x: int, y: int, dx: int, dy: int) -> (int, int) {
    if dx == 0 && dy == 0 {
        if l.goal_region@.len() > 0 {
            (
                spec_sign(l.goal_region@[0].0 as int, x) as int,
                spec_sign(l.goal_region@[0].1 as int, y) as int,
            )
        } else {
            (0int, 0int)
        }
    } else {
        (dx, dy)
    }
}

/// What the arrival tile's obstacle does to the token's kinematic state.
/// Teleport relocates instantly (no new hop, no re-resolution); a conveyor
/// queues a short hop when its neighbor is free; a tempo shift leaves the
/// flight alone; ice grants sliding momentum, picking a greedy direction
/// first if the token has none; a jump pad launches a fast hop to the
/// furthest reachable cell and clears momentum. Out-of-bounds or blocked
/// destinations silently cancel only the sub-effect that needs them.
pub open spec fn flight_after_obstacle(l: &LevelDesc, f: Flight, now: i64) -> Flight {
    match l.spec_obstacle(f.x as int, f.y as int) {
        Some(ObstacleKind::Teleport { to }) => Flight { x: to.0, y: to.1, ..f },
        Some(ObstacleKind::Conveyor { dx, dy }) => {
            let nx = f.x as int + dx as int;
            let ny = f.y as int + dy as int;
            if l.spec_free(nx, ny) {
                begin_hop_spec(f, nx as u8, ny as u8, now, spec_conveyor_dur(
                    f.hop_duration_ms as int) as i64)
            } else {
                f
            }
        },
        Some(ObstacleKind::Ice) => {
            let f1 = if f.dir_dx == 0 && f.dir_dy == 0 {
                match spec_next_step(l, f.x as int, f.y as int) {
                    Some(n) => Flight {
                        dir_dx: spec_sign(n.0 as int, f.x as int),
                        dir_dy: spec_sign(n.1 as int, f.y as int),
                        ..f
                    },
                    None => f,
                }
            } else {
                f
            };
            Flight { momentum: 1u8, ..f1 }
        },
        Some(ObstacleKind::JumpPad { dx, dy, strength }) => {
            let d = spec_jump_dir(l, f.x as int, f.y as int, dx as int, dy as int);
            let dest = spec_jump_dest(l, f.x as int, f.y as int, d.0, d.1, strength as int);
            Flight {
                momentum: 0u8,
                ..begin_hop_spec(f, dest.0 as u8, dest.1 as u8, now, spec_jump_dur(
                    f.hop_duration_ms as int) as i64)
            }
        },
        _ => f,
    }
}

/// What the arrival tile's obstacle does to the occupant grid: a teleport
/// consumes the occupant of its destination cell (the token's cell is
/// always empty); nothing else touches the grid.
pub open spec fn grid_after_obstacle(l: &LevelDesc, f: Flight, g: Seq<Option<SymbolEntry>>) -> Seq<
    Option<SymbolEntry>,
> {
    match l.spec_obstacle(f.x as int, f.y as int) {
        Some(ObstacleKind::Teleport { to }) => g.update(
            idx_of(l.width as int, to.0 as int, to.1 as int),
            None,
        ),
        _ => g,
    }
}

/// The hop-time factor and its expiry after the whole arrival: a tempo
/// shift multiplies by the reciprocal of its tempo multiplier (a faster
/// tempo means shorter hops), then a slow-hop modifier multiplies by its
/// factor; each sets the expiry `beats` whole beats after `beat`.
pub open spec fn hop_pair_after(l: &LevelDesc, f: Flight, beat: int, hf: Ratio, he: i64) -> (
    Ratio,
    i64,
) {
    let after_obstacle = match l.spec_obstacle(f.x as int, f.y as int) {
        Some(ObstacleKind::TempoShift { mult, beats }) => (
            hf.spec_mul_bounded(Ratio { num: mult.den, den: mult.num }),
            (beat + beats) as i64,
        ),
        _ => (hf, he),
    };
    match l.spec_tile(f.x as int, f.y as int).modifier {
        Some(ModifierKind::SlowHop { factor, beats }) => (
            after_obstacle.0.spec_mul_bounded(factor),
            (beat + beats) as i64,
        ),
        _ => after_obstacle,
    }
}

/// The score multiplier and its expiry after the arrival: a score-multiplier
/// modifier multiplies the factor and replaces the expiry.
pub open spec fn score_pair_after(l: &LevelDesc, f: Flight, beat: int, sf: Ratio, se: i64) -> (
    Ratio,
    i64,
) {
    match l.spec_tile(f.x as int, f.y as int).modifier {
        Some(ModifierKind::ScoreMult { factor, beats }) => (
            sf.spec_mul_bounded(factor),
            (beat + beats) as i64,
        ),
        _ => (sf, se),
    }
}

/// The first pair whose left side matches `h` replaces it; later pairs are
/// ignored.
pub open spec fn spec_transformed(pairs: Seq<(String, String)>, h: Seq<char>) -> Seq<char>
    decreases pairs.len(),
{
    if pairs.len() == 0 {
        h
    } else if pairs[0].0@ == h {
        pairs[0].1@
    } else {
        spec_transformed(pairs.drop_first(), h)
    }
}

/// The token's displayed symbol after the arrival: rewritten by a co-located
/// transform map, untouched otherwise. The pronunciation never changes.
pub open spec fn hanzi_after(l: &LevelDesc, f: Flight, h: Seq<char>) -> Seq<char> {
    match l.spec_tile(f.x as int, f.y as int).modifier {
        Some(ModifierKind::TransformMap { pairs }) => spec_transformed(pairs@, h),
        _ => h,
    }
}

/// Whether resolving an arrival with flight `f` consumes cell `j` through a
/// teleport: the landing tile is a teleport and `j` is its destination.
pub open spec fn teleport_consumes(l: &LevelDesc, f: Flight, j: int) -> bool {
    l.spec_obstacle(f.x as int, f.y as int) matches Some(ObstacleKind::Teleport { to })
        && j == idx_of(l.width as int, to.0 as int, to.1 as int)
}

/// Which grid cells the refill scheduler must leave alone: blocked cells,
/// the token's current cell, and the destination of a hop in flight.
pub open spec fn refill_skip(l: &LevelDesc, f: Flight, j: int) -> bool {
    ||| l.tiles@[j].obstacle matches Some(ObstacleKind::Block)
    ||| j == idx_of(l.width as int, f.x as int, f.y as int)
    ||| (!f.arrived && j == idx_of(l.width as int, f.target_x as int, f.target_y as int))
}

impl BoardState {
    /// Whether the token, standing still with momentum, will slide this
    /// beat: it has a direction and the straight continuation is free.
    pub open spec fn spec_slides(&self) -> bool {
        &&& self.token.flight.arrived
        &&& self.token.flight.momentum > 0
        &&& (self.token.flight.dir_dx != 0 || self.token.flight.dir_dy != 0)
        &&& self.spec_level().spec_free(
            self.token.flight.x as int + self.token.flight.dir_dx as int,
            self.token.flight.y as int + self.token.flight.dir_dy as int,
        )
    }

    /// The tile effect resolver, invoked once per tile arrival with the
    /// token standing on the arrival cell. The obstacle fires first, then
    /// the co-located modifier; both may fire on the same arrival.
    /// Resolution never fails: an effect whose destination would be out of
    /// bounds or blocked is silently skipped, and nothing else of it runs.
    #[verifier::rlimit(30)]
    pub fn apply_tile_effects(&mut self, current_beat: i64, now: i64)
        requires
            old(self).wf(),
            0 <= now <= TIME_LIMIT_MS,
            -1 <= current_beat <= TIME_LIMIT_MS,
        ensures
            final(self).wf(),
            final(self).token.flight == flight_after_obstacle(&old(self).spec_level(),
                old(self).token.flight, now),
            final(self).token.pinyin == old(self).token.pinyin,
            final(self).token.hanzi@ == hanzi_after(&old(self).spec_level(),
                old(self).token.flight, old(self).token.hanzi@),
            final(self).grid@ == grid_after_obstacle(&old(self).spec_level(),
                old(self).token.flight, old(self).grid@),
            (final(self).hop_time_factor, final(self).hop_time_end_beat) == hop_pair_after(
                &old(self).spec_level(),
                old(self).token.flight,
                current_beat as int,
                old(self).hop_time_factor,
                old(self).hop_time_end_beat,
            ),
            (final(self).score_multiplier, final(self).score_mult_end_beat) == score_pair_after(
                &old(self).spec_level(),
                old(self).token.flight,
                current_beat as int,
                old(self).score_multiplier,
                old(self).score_mult_end_beat,
            ),
            *final(self) == (BoardState {
                token: final(self).token,
                grid: final(self).grid,
                hop_time_factor: final(self).hop_time_factor,
                hop_time_end_beat: final(self).hop_time_end_beat,
                score_multiplier: final(self).score_multiplier,
                score_mult_end_beat: final(self).score_mult_end_beat,
                ..*old(self)
            }),
    {
        let ghost l0 = self.spec_level();
        let x = self.token.flight.x;
        let y = self.token.flight.y;
        let w = self.levels[self.level_index].width;
        let h = self.levels[self.level_index].height;
        proof {
            assert(l0.tiles@.len() == (w as int) * (h as int));
            assert((y as int) * (w as int) + (x as int) < (w as int) * (h as int))
                by (nonlinear_arith)
                requires
                    0 <= (x as int) < (w as int),
                    0 <= (y as int) < (h as int),
            ;
            assert(LevelDesc::tile_wf(l0.tiles@[idx_of(w as int, x as int, y as int)], w as int,
                h as int));
        }
        let obs: Option<ObstacleKind> = self.levels[self.level_index].tile(x, y).obstacle;
        match obs {
            Some(ObstacleKind::Teleport { to }) => {
                let (tx, ty) = to;
                self.token.flight.x = tx;
                self.token.flight.y = ty;
                assert((ty as int) * (w as int) + (tx as int) < (w as int) * (h as int) && 0 <= (
                ty as int) * (w as int) <= 255 * 255) by (nonlinear_arith)
                    requires
                        0 <= (tx as int) < (w as int) <= 255,
                        0 <= (ty as int) < (h as int) <= 255,
                ;
                let idx = ty as usize * w as usize + tx as usize;
                self.grid[idx] = None;
            },
            Some(ObstacleKind::Conveyor { dx, dy }) => {
                let nx_w = x as i32 + dx as i32;
                let ny_w = y as i32 + dy as i32;
                if nx_w >= 0 && ny_w >= 0 && nx_w < w as i32 && ny_w < h as i32 {
                    let nx = nx_w as u8;
                    let ny = ny_w as u8;
                    if self.levels[self.level_index].free(nx, ny) {
                        let d = self.token.flight.hop_duration_ms;
                        assert((d as int) * 4 / 5 <= (d as int)) by (nonlinear_arith)
                            requires
                                1 <= (d as int),
                        ;
                        let mut nd = d * 4 / 5;
                        if nd < 1 {
                            nd = 1;
                        }
                        self.token.begin_hop(nx, ny, now, nd);
                    }
                }
            },
            Some(ObstacleKind::TempoShift { mult, beats }) => {
                self.hop_time_factor = self.hop_time_factor.mul_bounded(mult.invert());
                self.hop_time_end_beat = current_beat + beats as i64;
            },
            Some(ObstacleKind::Ice) => {
                if self.token.flight.dir_dx == 0 && self.token.flight.dir_dy == 0 {
                    match choose_next_step(&self.levels[self.level_index], x, y) {
                        Some((nx, ny)) => {
                            self.token.flight.dir_dx = sign_step(nx, x);
                            self.token.flight.dir_dy = sign_step(ny, y);
                        },
                        None => {},
                    }
                }
                self.token.flight.momentum = 1;
            },
            Some(ObstacleKind::JumpPad { dx, dy, strength }) => {
                let mut ldx = dx;
                let mut ldy = dy;
                if ldx == 0 && ldy == 0 {
                    if self.levels[self.level_index].goal_region.len() > 0 {
                        let g = self.levels[self.level_index].goal_region[0];
                        ldx = sign_step(g.0, x);
                        ldy = sign_step(g.1, y);
                    }
                }
                let mut tx = x;
                let mut ty = y;
                let mut k: u8 = 0;
                let mut done = false;
                while k < strength && !done
                    invariant
                        *self == *old(self),
                        forall|q: int| 0 <= q < self.levels@.len() ==> (
                        #[trigger] self.levels@[q]).wf(),
                        self.level_index < self.levels@.len(),
                        l0 == self.spec_level(),
                        w == l0.width,
                        h == l0.height,
                        0 <= k <= strength,
                        l0.spec_in_bounds(tx as int, ty as int),
                        -1 <= ldx <= 1,
                        -1 <= ldy <= 1,
                        spec_jump_dest(&l0, x as int, y as int, ldx as int, ldy as int,
                            strength as int) == (if done {
                            (tx as int, ty as int)
                        } else {
                            spec_jump_dest(&l0, tx as int, ty as int, ldx as int, ldy as int, (
                            strength - k) as int)
                        }),
                    decreases strength - k, (if done { 0int } else { 1int }),
                {
                    let nx_w = tx as i32 + ldx as i32;
                    let ny_w = ty as i32 + ldy as i32;
                    if nx_w >= 0 && ny_w >= 0 && nx_w < w as i32 && ny_w < h as i32
                        && self.levels[self.level_index].free(nx_w as u8, ny_w as u8) {
                        tx = nx_w as u8;
                        ty = ny_w as u8;
                        k = k + 1;
                    } else {
                        done = true;
                    }
                }
                proof {
                    if !done {
                        assert(spec_jump_dest(&l0, tx as int, ty as int, ldx as int, ldy as int, 0)
                            == (tx as int, ty as int));
                    }
                }
                let d = self.token.flight.hop_duration_ms;
                assert((d as int) * 3 / 5 <= (d as int)) by (nonlinear_arith)
                    requires
                        1 <= (d as int),
                ;
                let mut nd = d * 3 / 5;
                if nd < 1 {
                    nd = 1;
                }
                self.token.begin_hop(tx, ty, now, nd);
                self.token.flight.momentum = 0;
            },
            _ => {},
        }
        // Modifier phase: resolved against the arrival tile, after the
        // obstacle, even when the obstacle relocated the token.
        if let Some(ModifierKind::ScoreMult { factor, beats }) = &self.levels[self.level_index]
            .tile(x, y)
            .modifier {
            let f = *factor;
            let b = *beats;
            self.score_multiplier = self.score_multiplier.mul_bounded(f);
            self.score_mult_end_beat = current_beat + b as i64;
        }
        if let Some(ModifierKind::SlowHop { factor, beats }) = &self.levels[self.level_index]
            .tile(x, y)
            .modifier {
            let f = *factor;
            let b = *beats;
            self.hop_time_factor = self.hop_time_factor.mul_bounded(f);
            self.hop_time_end_beat = current_beat + b as i64;
        }
        let has_map = matches!(
            self.levels[self.level_index].tile(x, y).modifier,
            Some(ModifierKind::TransformMap { .. })
        );
        if has_map {
            let ghost h0 = self.token.hanzi@;
            let n = if let Some(ModifierKind::TransformMap { pairs }) = &self.levels[self
                .level_index].tile(x, y).modifier {
                pairs.len()
            } else {
                0
            };
            proof {
                if let Some(ModifierKind::TransformMap { pairs }) = l0.spec_tile(x as int,
                    y as int).modifier {
                    assert(pairs@.skip(0) =~= pairs@);
                }
            }
            let ghost s0 = *self;
            let mut kk: usize = 0;
            let mut matched = false;
            while kk < n && !matched
                invariant
                    *self == (BoardState {
                        token: Piece { hanzi: self.token.hanzi, ..s0.token },
                        ..s0
                    }),
                    forall|q: int| 0 <= q < self.levels@.len() ==> (
                    #[trigger] self.levels@[q]).wf(),
                    self.level_index < self.levels@.len(),
                    l0 == self.spec_level(),
                    l0.dims_ok(),
                    l0.spec_in_bounds(x as int, y as int),
                    l0.spec_tile(x as int, y as int).modifier matches Some(
                        ModifierKind::TransformMap { pairs },
                    ) && n == pairs@.len(),
                    0 <= kk <= n,
                    !matched ==> self.token.hanzi@ == h0,
                    l0.spec_tile(x as int, y as int).modifier matches Some(
                        ModifierKind::TransformMap { pairs },
                    ) ==> spec_transformed(pairs@, h0) == (if matched {
                        self.token.hanzi@
                    } else {
                        spec_transformed(pairs@.skip(kk as int), h0)
                    }),
                decreases n - kk, (if matched { 0int } else { 1int }),
            {
                if let Some(ModifierKind::TransformMap { pairs }) = &self.levels[self.level_index]
                    .tile(x, y)
                    .modifier {
                    if self.token.hanzi == pairs[kk].0 {
                        self.token.hanzi = pairs[kk].1.clone();
                        matched = true;
                    }
                }
                proof {
                    if let Some(ModifierKind::TransformMap { pairs }) = l0.spec_tile(x as int,
                        y as int).modifier {
                        assert(pairs@.skip(kk as int).drop_first() =~= pairs@.skip(kk as int + 1));
                    }
                }
                kk = kk + 1;
            }
        }
    }

    /// Timed-effect expiry, run once per simulation step with the current
    /// whole beat: a factor whose expiry beat has been reached resets to
    /// exactly one and its expiry clears; a factor whose expiry beat has not
    /// been reached (or that has none) is untouched.
    pub fn expire_effects(&mut self, current_beat: i64)
        ensures
            final(self).score_multiplier == (if old(self).score_mult_end_beat >= 0 && current_beat
                >= old(self).score_mult_end_beat {
                Ratio { num: 1, den: 1 }
            } else {
                old(self).score_multiplier
            }),
            final(self).score_mult_end_beat == (if old(self).score_mult_end_beat >= 0
                && current_beat >= old(self).score_mult_end_beat {
                -1int as i64
            } else {
                old(self).score_mult_end_beat
            }),
            final(self).hop_time_factor == (if old(self).hop_time_end_beat >= 0 && current_beat
                >= old(self).hop_time_end_beat {
                Ratio { num: 1, den: 1 }
            } else {
                old(self).hop_time_factor
            }),
            final(self).hop_time_end_beat == (if old(self).hop_time_end_beat >= 0 && current_beat
                >= old(self).hop_time_end_beat {
                -1int as i64
            } else {
                old(self).hop_time_end_beat
            }),
            *final(self) == (BoardState {
                score_multiplier: final(self).score_multiplier,
                score_mult_end_beat: final(self).score_mult_end_beat,
                hop_time_factor: final(self).hop_time_factor,
                hop_time_end_beat: final(self).hop_time_end_beat,
                ..*old(self)
            }),
    {
        if self.score_mult_end_beat >= 0 && current_beat >= self.score_mult_end_beat {
            self.score_multiplier = Ratio::one();
            self.score_mult_end_beat = -1;
        }
        if self.hop_time_end_beat >= 0 && current_beat >= self.hop_time_end_beat {
            self.hop_time_factor = Ratio::one();
            self.hop_time_end_beat = -1;
        }
    }

    /// The external life-loss hook. Losing the last life fires the terminal
    /// transition: `game_over` is set and never cleared again. Calling this
    /// after the game is over changes nothing.
    pub fn lose_life(&mut self)
        requires
            old(self).game_over <==> old(self).lives == 0,
        ensures
            final(self).lives == (if old(self).lives > 0 {
                (old(self).lives - 1) as u8
            } else {
                0u8
            }),
            final(self).game_over == (old(self).game_over || old(self).lives <= 1),
            final(self).game_over <==> final(self).lives == 0,
            old(self).game_over ==> final(self).game_over,
            *final(self) == (BoardState {
                lives: final(self).lives,
                game_over: final(self).game_over,
                ..*old(self)
            }),
    {
        if self.lives > 0 {
            self.lives = self.lives - 1;
            if self.lives == 0 {
                self.game_over = true;
            }
        }
    }

    /// One whole-beat event. Unless the game is over: a token standing
    /// still with momentum first continues its slide (this is what makes ice
    /// carry the token), then every empty cell that is not blocked, not the
    /// token's cell and not the destination of the hop in flight is refilled
    /// with a symbol drawn from the level's pool. After game over a beat
    /// changes nothing.
    pub fn on_new_beat(&mut self, now: i64)
        requires
            old(self).wf(),
            0 <= now <= TIME_LIMIT_MS,
        ensures
            final(self).wf(),
            old(self).game_over ==> *final(self) == *old(self),
            *final(self) == (BoardState {
                token: final(self).token,
                grid: final(self).grid,
                rng: final(self).rng,
                ..*old(self)
            }),
            !old(self).game_over && old(self).spec_slides() ==> final(self).token.flight
                == begin_hop_spec(
                old(self).token.flight,
                (old(self).token.flight.x as int + old(self).token.flight.dir_dx as int) as u8,
                (old(self).token.flight.y as int + old(self).token.flight.dir_dy as int) as u8,
                now,
                old(self).hop_time_factor.spec_scale(HOP_BASE_MS),
            ) && final(self).token.hanzi == old(self).token.hanzi && final(self).token.pinyin
                == old(self).token.pinyin,
            !(!old(self).game_over && old(self).spec_slides()) ==> final(self).token == old(
                self,
            ).token,
            !old(self).game_over ==> {
                &&& final(self).grid@.len() == old(self).grid@.len()
                &&& forall|j: int| 0 <= j < final(self).grid@.len() && #[trigger] refill_skip(
                    &old(self).spec_level(),
                    final(self).token.flight,
                    j,
                ) ==> final(self).grid@[j] == old(self).grid@[j]
                &&& forall|j: int| (0 <= j < final(self).grid@.len() && !refill_skip(
                    &old(self).spec_level(),
                    final(self).token.flight,
                    j,
                ) && old(self).grid@[j] is Some) ==> final(self).grid@[j] == old(self).grid@[j]
                &&& forall|j: int| (0 <= j < final(self).grid@.len() && !refill_skip(
                    &old(self).spec_level(),
                    final(self).token.flight,
                    j,
                ) && old(self).grid@[j] is None) ==> ({
                    let c = #[trigger] final(self).grid@[j];
                    c matches Some(e) && from_pool(&old(self).spec_level(), e.hanzi@, e.pinyin@)
                })
            },
    {
        if self.game_over {
            return;
        }
        // Beat-gated slide: momentum carries the token straight on.
        if self.token.flight.arrived && self.token.flight.momentum > 0 && (
        self.token.flight.dir_dx != 0 || self.token.flight.dir_dy != 0) {
            let nx_w = self.token.flight.x as i32 + self.token.flight.dir_dx as i32;
            let ny_w = self.token.flight.y as i32 + self.token.flight.dir_dy as i32;
            let lvl = &self.levels[self.level_index];
            if nx_w >= 0 && ny_w >= 0 && nx_w < lvl.width as i32 && ny_w < lvl.height as i32 {
                let nx = nx_w as u8;
                let ny = ny_w as u8;
                if lvl.free(nx, ny) {
                    let dur = self.hop_time_factor.scale_ms(HOP_BASE_MS);
                    self.token.begin_hop(nx, ny, now, dur);
                }
            }
        }
        // Refill every empty, unreserved cell from the level's pool.
        let w = self.levels[self.level_index].width;
        let h = self.levels[self.level_index].height;
        assert((self.token.flight.y as int) * (w as int) + (self.token.flight.x as int) < (
        w as int) * (h as int) && (self.token.flight.target_y as int) * (w as int) + (
        self.token.flight.target_x as int) < (w as int) * (h as int) && (w as int) * (h as int)
            <= 255 * 255) by (nonlinear_arith)
            requires
                0 <= (self.token.flight.x as int) < (w as int) <= 255,
                0 <= (self.token.flight.y as int) < (h as int) <= 255,
                0 <= (self.token.flight.target_x as int) < (w as int),
                0 <= (self.token.flight.target_y as int) < (h as int),
        ;
        let tix = self.token.flight.y as usize * w as usize + self.token.flight.x as usize;
        let dix = self.token.flight.target_y as usize * w as usize
            + self.token.flight.target_x as usize;
        let in_flight = !self.token.flight.arrived;
        let n = self.grid.len();
        let ghost g0 = self.grid@;
        let ghost lvl0 = self.spec_level();
        let ghost tok0 = self.token.flight;
        let ghost tok_full = self.token;
        let mut j: usize = 0;
        while j < n
            invariant
                forall|q: int| 0 <= q < self.levels@.len() ==> (#[trigger] self.levels@[q]).wf(),
                self.level_index < self.levels@.len(),
                n == self.grid@.len(),
                g0.len() == n,
                0 <= j <= n,
                lvl0 == self.spec_level(),
                tok0 == self.token.flight,
                w == lvl0.width,
                n == lvl0.width as int * lvl0.height as int,
                tix == idx_of(lvl0.width as int, tok0.x as int, tok0.y as int),
                dix == idx_of(lvl0.width as int, tok0.target_x as int, tok0.target_y as int),
                in_flight == !tok0.arrived,
                forall|k: int| j <= k < n ==> self.grid@[k] == g0[k],
                forall|k: int| 0 <= k < j && #[trigger] refill_skip(&lvl0, tok0, k)
                    ==> self.grid@[k] == g0[k],
                forall|k: int| (0 <= k < j && !refill_skip(&lvl0, tok0, k) && g0[k] is Some)
                    ==> self.grid@[k] == g0[k],
                forall|k: int| (0 <= k < j && !refill_skip(&lvl0, tok0, k) && g0[k] is None) ==> ({
                    let c = #[trigger] self.grid@[k];
                    c matches Some(e) && from_pool(&lvl0, e.hanzi@, e.pinyin@)
                }),
                self.token == tok_full,
                self.levels == old(self).levels,
                self.thresholds == old(self).thresholds,
                self.level_index == old(self).level_index,
                self.beat == old(self).beat,
                self.score == old(self).score,
                self.score_multiplier == old(self).score_multiplier,
                self.score_mult_end_beat == old(self).score_mult_end_beat,
                self.hop_time_factor == old(self).hop_time_factor,
                self.hop_time_end_beat == old(self).hop_time_end_beat,
                self.lives == old(self).lives,
                self.game_over == old(self).game_over,
                self.typing == old(self).typing,
                self.slash_effects == old(self).slash_effects,
                self.hover_tile == old(self).hover_tile,
            decreases n - j,
        {
            let blocked = matches!(
                self.levels[self.level_index].tiles[j].obstacle,
                Some(ObstacleKind::Block)
            );
            let reserved = j == tix || (in_flight && j == dix);
            if !blocked && !reserved && self.grid[j].is_none() {
                let e = pick_symbol(&self.levels[self.level_index].symbol_pool, &mut self.rng);
                let ghost eh = e.hanzi@;
                let ghost ep = e.pinyin@;
                proof {
                    assert(from_pool(&lvl0, eh, ep));
                }
                let ghost gpre = self.grid@;
                self.grid[j] = Some(e);
                proof {
                    assert(self.grid@[j as int] matches Some(q) && q.hanzi@ == eh && q.pinyin@
                        == ep);
                    assert(forall|k: int| 0 <= k < n && k != j as int ==> self.grid@[k]
                        == gpre[k]);
                }
            }
            j = j + 1;
        }
        proof {
            assert(refill_skip(&lvl0, tok0, self.token_idx()));
            assert forall|k: int| (0 <= k < self.grid@.len() && (
            (#[trigger] self.spec_level().tiles@[k]).obstacle matches Some(ObstacleKind::Block)))
                implies self.grid@[k] is None by {
                assert(refill_skip(&lvl0, tok0, k));
                assert(self.grid@[k] == g0[k]);
            }
        }
    }
}

impl BoardState {
    /// Whether the score threshold for the next level is reached.
    pub open spec fn spec_will_switch(&self) -> bool {
        self.level_index as int + 1 < self.levels@.len() && self.score >= self.thresholds@[
            self.level_index as int + 1]
    }

    /// Whether the hop in flight completes at `now`, which runs the tile
    /// effect resolver against the landing tile.
    pub open spec fn spec_arrives(&self, now: int) -> bool {
        !self.token.flight.arrived && self.token.flight.spec_hop_done(now)
    }

    /// The token's kinematic state once the beat events of a step at `now`
    /// have fired: when at least one whole beat is crossed, the game is not
    /// over and the token slides, the slide hop begins on the first crossed
    /// beat (later beats find it in flight); otherwise the token is
    /// untouched by the beats.
    pub open spec fn spec_token_after_beats(&self, now: i64) -> Flight {
        if self.beat.spec_whole_beat(now as int) > self.beat.last_beat_idx && !self.game_over
            && self.spec_slides() {
            begin_hop_spec(
                self.token.flight,
                (self.token.flight.x as int + self.token.flight.dir_dx as int) as u8,
                (self.token.flight.y as int + self.token.flight.dir_dy as int) as u8,
                now,
                self.hop_time_factor.spec_scale(HOP_BASE_MS),
            )
        } else {
            self.token.flight
        }
    }

    /// Advances the hop in flight. When it completes, the token's canonical
    /// position becomes the hop target, the landing tile's occupant is
    /// consumed (so the token's cell stays empty), and the tile effect
    /// resolver runs once against the landing tile. A token with no hop in
    /// flight, or one whose hop has not finished, is untouched.
    pub fn update_pieces(&mut self, now: i64, whole_beat: i64)
        requires
            old(self).wf(),
            0 <= now <= TIME_LIMIT_MS,
            -1 <= whole_beat <= TIME_LIMIT_MS,
        ensures
            final(self).wf(),
            !old(self).spec_arrives(now as int) ==> *final(self) == *old(self),
            old(self).spec_arrives(now as int) ==> ({
                let lvl = &old(self).spec_level();
                let lf = Flight {
                    x: old(self).token.flight.target_x,
                    y: old(self).token.flight.target_y,
                    arrived: true,
                    ..old(self).token.flight
                };
                let g1 = old(self).grid@.update(
                    idx_of(lvl.width as int, lf.x as int, lf.y as int),
                    None,
                );
                &&& final(self).token.flight == flight_after_obstacle(lvl, lf, now)
                &&& final(self).token.pinyin == old(self).token.pinyin
                &&& final(self).token.hanzi@ == hanzi_after(lvl, lf, old(self).token.hanzi@)
                &&& final(self).grid@ == grid_after_obstacle(lvl, lf, g1)
                &&& (final(self).hop_time_factor, final(self).hop_time_end_beat) == hop_pair_after(
                    lvl,
                    lf,
                    whole_beat as int,
                    old(self).hop_time_factor,
                    old(self).hop_time_end_beat,
                )
                &&& (final(self).score_multiplier, final(self).score_mult_end_beat)
                    == score_pair_after(
                    lvl,
                    lf,
                    whole_beat as int,
                    old(self).score_multiplier,
                    old(self).score_mult_end_beat,
                )
                &&& *final(self) == (BoardState {
                    token: final(self).token,
                    grid: final(self).grid,
                    hop_time_factor: final(self).hop_time_factor,
                    hop_time_end_beat: final(self).hop_time_end_beat,
                    score_multiplier: final(self).score_multiplier,
                    score_mult_end_beat: final(self).score_mult_end_beat,
                    ..*old(self)
                })
            }),
    {
        if self.token.flight.arrived {
            return;
        }
        if now - self.token.flight.hop_start_ms < self.token.flight.hop_duration_ms {
            return;
        }
        self.token.flight.x = self.token.flight.target_x;
        self.token.flight.y = self.token.flight.target_y;
        self.token.flight.arrived = true;
        let w = self.levels[self.level_index].width;
        let h = self.levels[self.level_index].height;
        assert((self.token.flight.y as int) * (w as int) + (self.token.flight.x as int) < (
        w as int) * (h as int) && 0 <= (self.token.flight.y as int) * (w as int) <= 255 * 255)
            by (nonlinear_arith)
            requires
                0 <= (self.token.flight.x as int) < (w as int) <= 255,
                0 <= (self.token.flight.y as int) < (h as int) <= 255,
        ;
        let idx = self.token.flight.y as usize * w as usize + self.token.flight.x as usize;
        self.grid[idx] = None;
        self.apply_tile_effects(whole_beat, now);
    }

    /// After each step: if a next level exists and the score has reached its
    /// threshold, switch to it.
    pub fn check_level_progression(&mut self, now: i64)
        requires
            old(self).wf(),
            0 <= now <= TIME_LIMIT_MS,
        ensures
            final(self).wf(),
            !old(self).spec_will_switch() ==> *final(self) == *old(self),
            old(self).spec_will_switch() ==> {
                &&& final(self).level_index == old(self).level_index + 1
                &&& final(self).levels == old(self).levels
                &&& final(self).thresholds == old(self).thresholds
                &&& final(self).score == old(self).score
                &&& final(self).lives == old(self).lives
                &&& final(self).game_over == old(self).game_over
                &&& final(self).typing == old(self).typing
                &&& final(self).slash_effects == old(self).slash_effects
                &&& final(self).hover_tile == old(self).hover_tile
                &&& final(self).hop_time_factor == (Ratio { num: 1, den: 1 })
                &&& final(self).score_multiplier == (Ratio { num: 1, den: 1 })
                &&& final(self).hop_time_end_beat == -1
                &&& final(self).score_mult_end_beat == -1
                &&& final(self).beat == (BeatClock {
                    bpm: old(self).levels@[old(self).level_index as int + 1].bpm,
                    start_ms: now,
                    last_beat_idx: -1int as i64,
                })
                &&& final(self).token.flight == ({
                    let start = Self::spec_start_pos(
                        &old(self).levels@[old(self).level_index as int + 1],
                    );
                    Flight {
                        x: start.0,
                        y: start.1,
                        target_x: start.0,
                        target_y: start.1,
                        hop_start_ms: now,
                        hop_duration_ms: HOP_BASE_MS,
                        arrived: true,
                        dir_dx: 0i8,
                        dir_dy: 0i8,
                        momentum: 0u8,
                    }
                })
                &&& from_pool(&old(self).levels@[old(self).level_index as int + 1],
                    final(self).token.hanzi@, final(self).token.pinyin@)
                &&& final(self).grid@.len() == old(self).levels@[old(self).level_index as int
                    + 1].width as int * old(self).levels@[old(self).level_index as int
                    + 1].height as int
                &&& forall|j: int| (0 <= j < final(self).grid@.len() && j != final(
                    self).token_idx()) ==> #[trigger] seeded_cell(
                    &old(self).levels@[old(self).level_index as int + 1],
                    final(self).grid@,
                    j,
                )
                &&& final(self).grid@[final(self).token_idx()] is None
            },
    {
        if self.level_index < self.levels.len() - 1 {
            let next = self.level_index + 1;
            if self.score >= self.thresholds[next] {
                self.set_level(next, now);
            }
        }
    }

    /// One simulation step, driven by a host-supplied timestamp. Every
    /// whole beat crossed since the last step fires in ascending order (a
    /// frame that skips several beats drops none of them); timed factors
    /// whose expiry beat has been reached reset to exactly one; the hop in
    /// flight advances and its arrival is resolved; the level switches when
    /// the score threshold is reached; transient effects older than the
    /// fade time are discarded. A step never changes score, lives or the
    /// game-over flag.
    pub fn step(&mut self, now: i64)
        requires
            old(self).wf(),
            0 <= now <= TIME_LIMIT_MS,
        ensures
            final(self).wf(),
            final(self).score == old(self).score,
            final(self).lives == old(self).lives,
            final(self).game_over == old(self).game_over,
            final(self).levels == old(self).levels,
            final(self).thresholds == old(self).thresholds,
            final(self).typing == old(self).typing,
            final(self).hover_tile == old(self).hover_tile,
            final(self).slash_effects@ == old(self).slash_effects@.filter(
                |e: SlashEffect| now - e.start_ms < SLASH_FADE_MS,
            ),
            ({
                let wb = old(self).beat.spec_whole_beat(now as int);
                &&& (old(self).score_mult_end_beat >= 0 && wb >= old(self).score_mult_end_beat
                    && !old(self).spec_arrives(now as int)) ==> final(self).score_multiplier == (
                Ratio { num: 1, den: 1 })
                &&& ((old(self).score_mult_end_beat < 0 || wb < old(self).score_mult_end_beat)
                    && !old(self).spec_arrives(now as int) && !old(self).spec_will_switch())
                    ==> final(self).score_multiplier == old(self).score_multiplier
                    && final(self).score_mult_end_beat == old(self).score_mult_end_beat
                &&& (old(self).hop_time_end_beat >= 0 && wb >= old(self).hop_time_end_beat
                    && !old(self).spec_arrives(now as int))
                    ==> final(self).hop_time_factor == (Ratio { num: 1, den: 1 })
                &&& ((old(self).hop_time_end_beat < 0 || wb < old(self).hop_time_end_beat)
                    && !old(self).spec_arrives(now as int) && !old(self).spec_will_switch())
                    ==> final(self).hop_time_factor == old(self).hop_time_factor
                    && final(self).hop_time_end_beat == old(self).hop_time_end_beat
            }),
            !old(self).spec_will_switch() ==> final(self).level_index == old(self).level_index,
            old(self).spec_will_switch() ==> final(self).level_index == old(self).level_index + 1,
            ({
                let lvl = &old(self).spec_level();
                let wb = old(self).beat.spec_whole_beat(now as int);
                let crossed = wb > old(self).beat.last_beat_idx;
                let tok1 = old(self).spec_token_after_beats(now);
                let arrives = !tok1.arrived && tok1.spec_hop_done(now as int);
                let landed = Flight { x: tok1.target_x, y: tok1.target_y, arrived: true, ..tok1 };
                let switch = old(self).spec_will_switch();
                &&& !switch ==> final(self).beat == (BeatClock {
                    last_beat_idx: if crossed {
                        wb as i64
                    } else {
                        old(self).beat.last_beat_idx
                    },
                    ..old(self).beat
                })
                &&& switch ==> final(self).beat == (BeatClock {
                    bpm: old(self).levels@[old(self).level_index as int + 1].bpm,
                    start_ms: now,
                    last_beat_idx: -1int as i64,
                })
                &&& !switch ==> final(self).token.flight == (if arrives {
                    flight_after_obstacle(lvl, landed, now)
                } else {
                    tok1
                })
                &&& !switch ==> final(self).token.pinyin == old(self).token.pinyin
                &&& !switch ==> final(self).token.hanzi@ == (if arrives {
                    hanzi_after(lvl, landed, old(self).token.hanzi@)
                } else {
                    old(self).token.hanzi@
                })
                &&& (!switch && !(crossed && !old(self).game_over)) ==> final(self).grid@ == (
                if arrives {
                    grid_after_obstacle(lvl, landed, old(self).grid@.update(
                        idx_of(lvl.width as int, landed.x as int, landed.y as int),
                        None,
                    ))
                } else {
                    old(self).grid@
                })
                &&& (!switch && crossed && !old(self).game_over) ==> {
                    &&& final(self).grid@.len() == old(self).grid@.len()
                    &&& forall|j: int| (0 <= j < final(self).grid@.len() && #[trigger] refill_skip(
                        lvl,
                        tok1,
                        j,
                    ) && !(arrives && j == idx_of(lvl.width as int, landed.x as int,
                        landed.y as int)) && !(arrives && teleport_consumes(lvl, landed, j)))
                        ==> final(self).grid@[j] == old(self).grid@[j]
                    &&& forall|j: int| (0 <= j < final(self).grid@.len() && !refill_skip(
                        lvl,
                        tok1,
                        j,
                    ) && !(arrives && teleport_consumes(lvl, landed, j)) && old(self).grid@[j]
                        is Some) ==> final(self).grid@[j] == old(self).grid@[j]
                    &&& forall|j: int| (0 <= j < final(self).grid@.len() && !refill_skip(
                        lvl,
                        tok1,
                        j,
                    ) && !(arrives && teleport_consumes(lvl, landed, j)) && old(self).grid@[j]
                        is None) ==> ({
                        let c = #[trigger] final(self).grid@[j];
                        c matches Some(e) && from_pool(lvl, e.hanzi@, e.pinyin@)
                    })
                }
            }),
    {
        let ghost lvl0 = self.spec_level();
        let ghost tok1 = self.spec_token_after_beats(now);
        let ghost g0 = self.grid@;
        let whole = self.beat.current_beat(now);
        if whole > self.beat.last_beat_idx {
            let mut b = self.beat.last_beat_idx;
            while b < whole
                invariant
                    self.wf(),
                    0 <= now <= TIME_LIMIT_MS,
                    -1 <= b <= whole <= TIME_LIMIT_MS,
                    old(self).beat.last_beat_idx <= b,
                    self.beat == old(self).beat,
                    self.levels == old(self).levels,
                    self.thresholds == old(self).thresholds,
                    self.level_index == old(self).level_index,
                    self.score == old(self).score,
                    self.score_multiplier == old(self).score_multiplier,
                    self.score_mult_end_beat == old(self).score_mult_end_beat,
                    self.hop_time_factor == old(self).hop_time_factor,
                    self.hop_time_end_beat == old(self).hop_time_end_beat,
                    self.lives == old(self).lives,
                    self.game_over == old(self).game_over,
                    self.typing == old(self).typing,
                    self.slash_effects == old(self).slash_effects,
                    self.hover_tile == old(self).hover_tile,
                    lvl0 == self.spec_level(),
                    tok1 == old(self).spec_token_after_beats(now),
                    whole == old(self).beat.spec_whole_beat(now as int),
                    whole > old(self).beat.last_beat_idx,
                    self.grid@.len() == g0.len(),
                    g0 == old(self).grid@,
                    b == old(self).beat.last_beat_idx ==> self.token == old(self).token
                        && self.grid@ == g0,
                    b > old(self).beat.last_beat_idx ==> self.token.flight == tok1
                        && self.token.hanzi == old(self).token.hanzi && self.token.pinyin == old(
                        self,
                    ).token.pinyin,
                    (b > old(self).beat.last_beat_idx && old(self).game_over) ==> self.grid@ == g0,
                    (b > old(self).beat.last_beat_idx && !old(self).game_over) ==> {
                        &&& forall|k: int| (0 <= k < g0.len() && #[trigger] refill_skip(
                            &lvl0,
                            tok1,
                            k,
                        )) ==> self.grid@[k] == g0[k]
                        &&& forall|k: int| (0 <= k < g0.len() && !refill_skip(&lvl0, tok1, k)
                            && g0[k] is Some) ==> self.grid@[k] == g0[k]
                        &&& forall|k: int| (0 <= k < g0.len() && !refill_skip(&lvl0, tok1, k)
                            && g0[k] is None) ==> ({
                            let c = #[trigger] self.grid@[k];
                            c matches Some(e) && from_pool(&lvl0, e.hanzi@, e.pinyin@)
                        })
                    },
                decreases whole - b,
            {
                b = b + 1;
                self.on_new_beat(now);
            }
            self.beat.last_beat_idx = whole;
        }
        let ghost g_beats = self.grid@;
        self.expire_effects(whole);
        self.update_pieces(now, whole);
        self.check_level_progression(now);
        proof {
            let crossed = whole > old(self).beat.last_beat_idx;
            let arrives = !tok1.arrived && tok1.spec_hop_done(now as int);
            let landed = Flight { x: tok1.target_x, y: tok1.target_y, arrived: true, ..tok1 };
            let switch = old(self).spec_will_switch();
            let idxl = idx_of(lvl0.width as int, landed.x as int, landed.y as int);
            if !switch && crossed && !old(self).game_over {
                assert(landed.x < lvl0.width && landed.y < lvl0.height);
                assert(0 <= idxl < (lvl0.width as int) * (lvl0.height as int))
                    by (nonlinear_arith)
                    requires
                        idxl == (landed.y as int) * (lvl0.width as int) + (landed.x as int),
                        0 <= (landed.x as int) < (lvl0.width as int),
                        0 <= (landed.y as int) < (lvl0.height as int),
                ;
                assert(g_beats.len() == g0.len());
                assert forall|j: int| (0 <= j < self.grid@.len() && #[trigger] refill_skip(
                    &lvl0,
                    tok1,
                    j,
                ) && !(arrives && j == idxl) && !(arrives && teleport_consumes(&lvl0, landed, j)))
                    implies self.grid@[j] == g0[j] by {
                    assert(g_beats[j] == g0[j]);
                    if arrives {
                        assert(self.grid@ == grid_after_obstacle(&lvl0, landed, g_beats.update(
                            idxl, None)));
                        if let Some(ObstacleKind::Teleport { to }) = lvl0.spec_obstacle(
                            landed.x as int, landed.y as int) {
                            assert(to.0 < lvl0.width && to.1 < lvl0.height);
                            assert(0 <= (to.1 as int) * (lvl0.width as int) + (to.0 as int) < (
                            lvl0.width as int) * (lvl0.height as int)) by (nonlinear_arith)
                                requires
                                    0 <= (to.0 as int) < (lvl0.width as int),
                                    0 <= (to.1 as int) < (lvl0.height as int),
                            ;
                            assert(j != idx_of(lvl0.width as int, to.0 as int, to.1 as int));
                        }
                        assert(self.grid@[j] == g_beats.update(idxl, None)[j]);
                        assert(g_beats.update(idxl, None)[j] == g_beats[j]);
                    }
                }
                assert forall|j: int| (0 <= j < self.grid@.len() && !refill_skip(&lvl0, tok1, j)
                    && !(arrives && teleport_consumes(&lvl0, landed, j)) && g0[j] is Some)
                    implies self.grid@[j] == g0[j] by {
                    assert(g_beats[j] == g0[j]);
                    if arrives {
                        assert(!tok1.arrived);
                        assert(j != idxl);
                        assert(self.grid@ == grid_after_obstacle(&lvl0, landed, g_beats.update(
                            idxl, None)));
                        if let Some(ObstacleKind::Teleport { to }) = lvl0.spec_obstacle(
                            landed.x as int, landed.y as int) {
                            assert(to.0 < lvl0.width && to.1 < lvl0.height);
                            assert(0 <= (to.1 as int) * (lvl0.width as int) + (to.0 as int) < (
                            lvl0.width as int) * (lvl0.height as int)) by (nonlinear_arith)
                                requires
                                    0 <= (to.0 as int) < (lvl0.width as int),
                                    0 <= (to.1 as int) < (lvl0.height as int),
                            ;
                            assert(j != idx_of(lvl0.width as int, to.0 as int, to.1 as int));
                        }
                        assert(self.grid@[j] == g_beats.update(idxl, None)[j]);
                        assert(g_beats.update(idxl, None)[j] == g_beats[j]);
                    }
                }
                assert forall|j: int| (0 <= j < self.grid@.len() && !refill_skip(&lvl0, tok1, j)
                    && !(arrives && teleport_consumes(&lvl0, landed, j)) && g0[j] is None)
                    implies ({
                    let c = self.grid@[j];
                    c matches Some(e) && from_pool(&lvl0, e.hanzi@, e.pinyin@)
                }) by {
                    assert(g_beats[j] matches Some(e) && from_pool(&lvl0, e.hanzi@, e.pinyin@));
                    if arrives {
                        assert(!tok1.arrived);
                        assert(j != idxl);
                        assert(self.grid@ == grid_after_obstacle(&lvl0, landed, g_beats.update(
                            idxl, None)));
                        if let Some(ObstacleKind::Teleport { to }) = lvl0.spec_obstacle(
                            landed.x as int, landed.y as int) {
                            assert(to.0 < lvl0.width && to.1 < lvl0.height);
                            assert(0 <= (to.1 as int) * (lvl0.width as int) + (to.0 as int) < (
                            lvl0.width as int) * (lvl0.height as int)) by (nonlinear_arith)
                                requires
                                    0 <= (to.0 as int) < (lvl0.width as int),
                                    0 <= (to.1 as int) < (lvl0.height as int),
                            ;
                            assert(j != idx_of(lvl0.width as int, to.0 as int, to.1 as int));
                        }
                        assert(self.grid@[j] == g_beats.update(idxl, None)[j]);
                        assert(g_beats.update(idxl, None)[j] == g_beats[j]);
                    } else {
                        assert(self.grid@[j] == g_beats[j]);
                    }
                }
            }
        }
        // Age transient effects out.
        let n = self.slash_effects.len();
        let mut kept: Vec<SlashEffect> = Vec::new();
        let mut i: usize = 0;
        while i < n
            invariant
                n == self.slash_effects@.len(),
                0 <= i <= n,
                0 <= now <= TIME_LIMIT_MS,
                forall|k: int| 0 <= k < self.slash_effects@.len() ==> 0 <= (
                #[trigger] self.slash_effects@[k]).start_ms <= TIME_LIMIT_MS,
                kept@ == self.slash_effects@.take(i as int).filter(
                    |e: SlashEffect| now - e.start_ms < SLASH_FADE_MS,
                ),
                forall|k: int| 0 <= k < kept@.len() ==> 0 <= (#[trigger] kept@[k]).start_ms
                    <= TIME_LIMIT_MS,
            decreases n - i,
        {
            let ghost pred = |e: SlashEffect| now - e.start_ms < SLASH_FADE_MS;
            let ghost pre = self.slash_effects@.take(i as int);
            let e = self.slash_effects[i];
            if now - e.start_ms < SLASH_FADE_MS {
                kept.push(e);
            }
            proof {
                reveal(Seq::filter);
                assert(self.slash_effects@.take(i as int + 1).drop_last() =~= pre);
                assert(self.slash_effects@.take(i as int + 1).last() == e);
            }
            i = i + 1;
        }
        proof {
            assert(self.slash_effects@.take(n as int) =~= self.slash_effects@);
        }
        self.slash_effects = kept;
    }
}

/// A lowercase Latin letter, the only letters a pinyin buffer holds.
pub open spec fn is_lower_letter(c: char) -> bool {
    'a' <= c <= 'z'
}

/// What one printable character does to the typed buffer: lowercase letters
/// append; uppercase letters append their lowercase form; the tone digits
/// one to five append only directly after a letter; everything else is
/// ignored.
pub open spec fn spec_typed_after_char(t: Seq<char>, c: char) -> Seq<char> {
    if is_lower_letter(c) {
        t.push(c)
    } else if 'A' <= c <= 'Z' {
        t.push(((c as u8) + 32) as char)
    } else if '1' <= c <= '5' && t.len() > 0 && is_lower_letter(t.last()) {
        t.push(c)
    } else {
        t
    }
}

/// The neighbor scan order of a typed match: up, right, down, left.
pub open spec fn key_dir(i: int) -> (int, int) {
    if i == 0 {
        (0int, -1int)
    } else if i == 1 {
        (1int, 0int)
    } else if i == 2 {
        (0int, 1int)
    } else {
        (-1int, 0int)
    }
}

/// The first orthogonal neighbor of `(x, y)`, scanning from direction `i`,
/// that is free and whose occupant's pronunciation equals `typed`.
pub open spec fn match_from(
    l: &LevelDesc,
    g: Seq<Option<SymbolEntry>>,
    x: int,
    y: int,
    typed: Seq<char>,
    i: int,
) -> Option<(u8, u8)>
    decreases 4 - i,
{
    if i >= 4 {
        None
    } else {
        let nx = x + key_dir(i).0;
        let ny = y + key_dir(i).1;
        if l.spec_free(nx, ny) && (g[idx_of(l.width as int, nx, ny)] matches Some(e)
            && e.pinyin@ == typed) {
            Some((nx as u8, ny as u8))
        } else {
            match_from(l, g, x, y, typed, i + 1)
        }
    }
}

/// The score awarded by one typed match under multiplier `m`.
pub open spec fn spec_award(m: Ratio) -> int {
    BASE_AWARD * m.num as int / m.den as int
}

/// Whether two character buffers hold the same characters.
fn chars_eq(a: &Vec<char>, b: &Vec<char>) -> (r: bool)
    ensures
        r == (a@ == b@),
{
    if a.len() != b.len() {
        return false;
    }
    let mut i: usize = 0;
    while i < a.len()
        invariant
            a@.len() == b@.len(),
            0 <= i <= a@.len(),
            forall|j: int| 0 <= j < i ==> a@[j] == b@[j],
        decreases a@.len() - i,
    {
        if a[i] != b[i] {
            return false;
        }
        i = i + 1;
    }
    proof {
        assert(a@ =~= b@);
    }
    true
}

/// The neighbor direction with index `i` in the typed-match scan order.
fn key_dir_at(i: usize) -> (r: (i8, i8))
    requires
        i < 4,
    ensures
        (r.0 as int, r.1 as int) == key_dir(i as int),
{
    if i == 0 {
        (0, -1)
    } else if i == 1 {
        (1, 0)
    } else if i == 2 {
        (0, 1)
    } else {
        (-1, 0)
    }
}

impl BoardState {
    /// Applies one key event, synchronously between steps.
    ///
    /// Printable characters edit the typed buffer (see
    /// [`spec_typed_after_char`]); `Backspace` pops its last character;
    /// `Escape` clears it. `Enter` with a nonempty buffer scans the four
    /// orthogonal neighbors of the token, in a fixed order, for the first
    /// whose occupant's pronunciation equals the buffer: on a match a hop
    /// toward that cell is queued, the occupant is consumed immediately,
    /// the score grows by the base award times the current multiplier
    /// (saturating), and a transient effect is registered at that cell; the
    /// buffer is cleared whether or not anything matched. After game over,
    /// `Enter` still clears the buffer but never matches, scores or moves.
    pub fn on_key(&mut self, key: KeyEvent, now: i64)
        requires
            old(self).wf(),
            0 <= now <= TIME_LIMIT_MS,
        ensures
            final(self).wf(),
            final(self).lives == old(self).lives,
            final(self).game_over == old(self).game_over,
            final(self).score >= old(self).score,
            key matches KeyEvent::Escape ==> final(self).typing@ == Seq::<char>::empty()
                && *final(self) == (BoardState { typing: final(self).typing, ..*old(self) }),
            key matches KeyEvent::Backspace ==> final(self).typing@ == (if old(self).typing@.len() > 0 {
                old(self).typing@.drop_last()
            } else {
                old(self).typing@
            }) && *final(self) == (BoardState { typing: final(self).typing, ..*old(self) }),
            key matches KeyEvent::Char(c) ==> final(self).typing@ == spec_typed_after_char(
                old(self).typing@,
                c,
            ) && *final(self) == (BoardState { typing: final(self).typing, ..*old(self) }),
            key matches KeyEvent::Enter ==> final(self).typing@ == Seq::<char>::empty(),
            key matches KeyEvent::Enter && (old(self).typing@.len() == 0 || old(self).game_over)
                ==> *final(self) == (BoardState { typing: final(self).typing, ..*old(self) }),
            key matches KeyEvent::Enter && old(self).typing@.len() > 0 && !old(self).game_over
                ==> ({
                let m = match_from(
                    &old(self).spec_level(),
                    old(self).grid@,
                    old(self).token.flight.x as int,
                    old(self).token.flight.y as int,
                    old(self).typing@,
                    0,
                );
                match m {
                    None => *final(self) == (BoardState {
                        typing: final(self).typing,
                        ..*old(self)
                    }),
                    Some(cell) => {
                        let gi = idx_of(old(self).spec_level().width as int, cell.0 as int,
                            cell.1 as int);
                        &&& final(self).token.flight == begin_hop_spec(
                            old(self).token.flight,
                            cell.0,
                            cell.1,
                            now,
                            old(self).hop_time_factor.spec_scale(HOP_BASE_MS),
                        )
                        &&& final(self).token.hanzi == old(self).token.hanzi
                        &&& final(self).token.pinyin == old(self).token.pinyin
                        &&& final(self).grid@ == old(self).grid@.update(gi, None)
                        &&& final(self).score == (if old(self).score + spec_award(
                            old(self).score_multiplier,
                        ) <= i64::MAX {
                            old(self).score + spec_award(old(self).score_multiplier)
                        } else {
                            i64::MAX as int
                        })
                        &&& final(self).slash_effects@ == old(self).slash_effects@.push(
                            SlashEffect { x: cell.0, y: cell.1, start_ms: now },
                        )
                        &&& *final(self) == (BoardState {
                            typing: final(self).typing,
                            token: final(self).token,
                            grid: final(self).grid,
                            score: final(self).score,
                            slash_effects: final(self).slash_effects,
                            ..*old(self)
                        })
                    },
                }
            }),
    {
        match key {
            KeyEvent::Escape => {
                self.typing.clear();
            },
            KeyEvent::Backspace => {
                if self.typing.len() > 0 {
                    self.typing.pop();
                }
            },
            KeyEvent::Char(c) => {
                if 'a' <= c && c <= 'z' {
                    self.typing.push(c);
                } else if 'A' <= c && c <= 'Z' {
                    self.typing.push((c as u8 + 32) as char);
                } else if '1' <= c && c <= '5' {
                    if self.typing.len() > 0 {
                        let lc = self.typing[self.typing.len() - 1];
                        if 'a' <= lc && lc <= 'z' {
                            self.typing.push(c);
                        }
                    }
                }
            },
            KeyEvent::Enter => {
                if self.typing.len() == 0 {
                    return;
                }
                if self.game_over {
                    self.typing.clear();
                    return;
                }
                let ghost l0 = self.spec_level();
                let ghost g0 = self.grid@;
                let ghost t0 = self.typing@;
                let x = self.token.flight.x;
                let y = self.token.flight.y;
                let w = self.levels[self.level_index].width;
                let h = self.levels[self.level_index].height;
                let mut found_x: u8 = 0;
                let mut found_y: u8 = 0;
                let mut gidx: usize = 0;
                let mut done = false;
                let mut i: usize = 0;
                while i < 4 && !done
                    invariant
                        self.wf(),
                        *self == *old(self),
                        l0 == self.spec_level(),
                        g0 == self.grid@,
                        t0 == self.typing@,
                        x == self.token.flight.x,
                        y == self.token.flight.y,
                        w == l0.width,
                        h == l0.height,
                        0 <= i <= 4,
                        match_from(&l0, g0, x as int, y as int, t0, 0) == (if done {
                            Some((found_x, found_y))
                        } else {
                            match_from(&l0, g0, x as int, y as int, t0, i as int)
                        }),
                        done ==> l0.spec_free(found_x as int, found_y as int) && gidx == idx_of(
                            w as int,
                            found_x as int,
                            found_y as int,
                        ) && gidx < g0.len() && (found_x != x || found_y != y),
                    decreases 4 - i, (if done {
                        0int
                    } else {
                        1int
                    }),
                {
                    let (dx, dy) = key_dir_at(i);
                    let nx_w = x as i32 + dx as i32;
                    let ny_w = y as i32 + dy as i32;
                    if nx_w >= 0 && ny_w >= 0 && nx_w < w as i32 && ny_w < h as i32 {
                        let nx = nx_w as u8;
                        let ny = ny_w as u8;
                        if self.levels[self.level_index].free(nx, ny) {
                            assert((ny as int) * (w as int) + (nx as int) < (w as int) * (h as int)
                                && 0 <= (ny as int) * (w as int) <= 255 * 255) by (nonlinear_arith)
                                requires
                                    0 <= (nx as int) < (w as int) <= 255,
                                    0 <= (ny as int) < (h as int) <= 255,
                            ;
                            let idx = ny as usize * w as usize + nx as usize;
                            let hit = match &self.grid[idx] {
                                Some(e) => chars_eq(&e.pinyin, &self.typing),
                                None => false,
                            };
                            if hit {
                                found_x = nx;
                                found_y = ny;
                                gidx = idx;
                                done = true;
                            }
                        }
                    }
                    if !done {
                        i = i + 1;
                    }
                }
                if done {
                    assert((found_y as int) * (w as int) + (found_x as int) != (y as int) * (
                    w as int) + (x as int)) by (nonlinear_arith)
                        requires
                            0 <= (found_x as int) < (w as int),
                            0 <= (x as int) < (w as int),
                            0 <= (found_y as int),
                            0 <= (y as int),
                            (found_x as int) != (x as int) || (found_y as int) != (y as int),
                    ;
                    let dur = self.hop_time_factor.scale_ms(HOP_BASE_MS);
                    self.token.begin_hop(found_x, found_y, now, dur);
                    self.grid[gidx] = None;
                    let m = self.score_multiplier;
                    let award = BASE_AWARD * (m.num as i64) / (m.den as i64);
                    if self.score <= i64::MAX - award {
                        self.score = self.score + award;
                    } else {
                        self.score = i64::MAX;
                    }
                    self.slash_effects.push(
                        SlashEffect { x: found_x, y: found_y, start_ms: now },
                    );
                    proof {
                        assert((y as int) * (w as int) + (x as int) < (w as int) * (h as int))
                            by (nonlinear_arith)
                            requires
                                0 <= (x as int) < (w as int),
                                0 <= (y as int) < (h as int),
                        ;
                        assert(self.token_idx() == idx_of(w as int, x as int, y as int));
                        assert(gidx as int != self.token_idx());
                        assert(self.grid@[self.token_idx()] == g0[self.token_idx()]);
                    }
                }
                self.typing.clear();
            },
        }
    }
}

/// The read-only snapshot the core emits once per frame: level geometry,
/// occupant grid, token position with hop progress, transient effects,
/// score, lives, the typed buffer and the terminal flag. The render surface
/// consumes this and never influences simulation state.
pub struct DrawModel<'a> {
    pub width: u8,
    pub height: u8,
    pub tiles: &'a Vec<TileDesc>,
    pub grid: &'a Vec<Option<SymbolEntry>>,
    pub token: &'a Piece,
    /// How far the hop in flight has progressed, in thousandths.
    pub progress_permille: i64,
    /// How far the current beat has progressed, in thousandths.
    pub beat_phase_permille: i64,
    pub score: i64,
    pub lives: u8,
    pub typing: &'a Vec<char>,
    pub slash_effects: &'a Vec<SlashEffect>,
    pub hover_tile: Option<(u8, u8)>,
    pub game_over: bool,
}

impl BoardState {
    /// Records the tile under the pointer; coordinates off the board clear
    /// the hover state.
    pub fn on_pointer_move(&mut self, x: u8, y: u8)
        requires
            old(self).wf(),
        ensures
            final(self).wf(),
            final(self).hover_tile == (if old(self).spec_level().spec_in_bounds(
                x as int,
                y as int,
            ) {
                Some((x, y))
            } else {
                None::<(u8, u8)>
            }),
            *final(self) == (BoardState { hover_tile: final(self).hover_tile, ..*old(self) }),
    {
        let lvl = &self.levels[self.level_index];
        if x < lvl.width && y < lvl.height {
            self.hover_tile = Some((x, y));
        } else {
            self.hover_tile = None;
        }
    }

    /// Clears the hover state when the pointer leaves the board.
    pub fn on_pointer_leave(&mut self)
        requires
            old(self).wf(),
        ensures
            final(self).wf(),
            final(self).hover_tile is None,
            *final(self) == (BoardState { hover_tile: final(self).hover_tile, ..*old(self) }),
    {
        self.hover_tile = None;
    }

    /// Emits the per-frame draw model: a read-only snapshot of the current
    /// level geometry, occupant grid, token state with interpolation
    /// progress, transient effects and counters.
    pub fn draw_model(&self, now: i64) -> (r: DrawModel<'_>)
        requires
            self.wf(),
            0 <= now <= TIME_LIMIT_MS,
        ensures
            r.width == self.spec_level().width,
            r.height == self.spec_level().height,
            r.tiles@ == self.spec_level().tiles@,
            r.grid@ == self.grid@,
            *r.token == self.token,
            0 <= r.progress_permille <= 1000,
            self.token.flight.arrived ==> r.progress_permille == 1000,
            0 <= r.beat_phase_permille < 1000,
            r.score == self.score,
            r.lives == self.lives,
            r.typing@ == self.typing@,
            r.slash_effects@ == self.slash_effects@,
            r.hover_tile == self.hover_tile,
            r.game_over == self.game_over,
    {
        let lvl = &self.levels[self.level_index];
        DrawModel {
            width: lvl.width,
            height: lvl.height,
            tiles: &lvl.tiles,
            grid: &self.grid,
            token: &self.token,
            progress_permille: self.token.progress_permille(now),
            beat_phase_permille: self.beat.beat_phase_permille(now),
            score: self.score,
            lives: self.lives,
            typing: &self.typing,
            slash_effects: &self.slash_effects,
            hover_tile: self.hover_tile,
            game_over: self.game_over,
        }
    }
}

/// Draws one symbol uniformly from the pool, advancing the generator once.
fn pick_symbol(pool: &Vec<SymbolEntry>, rng: &mut Lcg) -> (r: SymbolEntry)
    requires
        pool@.len() >= 1,
    ensures
        final(rng).state == lcg_next(old(rng).state),
        ({
            let k = final(rng).state as int % pool@.len() as int;
            r.hanzi@ == pool@[k].hanzi@ && r.pinyin@ == pool@[k].pinyin@
        }),
{
    let k = rng.next_index(pool.len());
    pool[k].clone()
}

} // verus!
