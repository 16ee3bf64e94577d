//! The immutable level model: a rectangular grid of tiles, each carrying an
//! optional obstacle and an optional modifier, plus spawn and goal regions
//! and the pool of symbols the refill scheduler draws from.
//!
//! Levels are plain owned values, constructed once and validated at load
//! time; malformed level data is a construction error, never discovered
//! mid-simulation.

use vstd::prelude::*;

use crate::beat::BPM_LIMIT;
use crate::ratio::Ratio;

verus! {

/// One symbol the player can be asked to type: the displayed glyph and its
/// romanized pronunciation (the pronunciation is kept as characters so the
/// typed buffer can be matched against it exactly).
#[derive(Debug)]
pub struct SymbolEntry {
    pub hanzi: String,
    pub pinyin: Vec<char>,
}

impl SymbolEntry {
    /// Builds an entry from string data.
    pub fn new(hanzi: String, pinyin: Vec<char>) -> (r: SymbolEntry)
        ensures
            r.hanzi@ == hanzi@,
            r.pinyin@ == pinyin@,
    {
        SymbolEntry { hanzi, pinyin }
    }
}

impl Clone for SymbolEntry {
    fn clone(&self) -> (r: Self)
        ensures
            r.hanzi@ == self.hanzi@,
            r.pinyin@ == self.pinyin@,
    {
        let pinyin = self.pinyin.clone();
        proof {
            assert(pinyin@ =~= self.pinyin@);
        }
        SymbolEntry { hanzi: self.hanzi.clone(), pinyin }
    }
}

/// Kinds of obstacles that occupy or affect tiles.
#[derive(Clone, Copy, Debug)]
pub enum ObstacleKind {
    /// Impassable; movement never targets such a tile.
    Block,
    /// Arrival relocates the token instantly; the destination tile is not
    /// re-resolved.
    Teleport { to: (u8, u8) },
    /// Arrival queues an immediate short hop one cell in this direction.
    Conveyor { dx: i8, dy: i8 },
    /// Arrival scales the hop-time factor by the reciprocal of `mult` for
    /// `beats` whole beats.
    TempoShift { mult: Ratio, beats: u32 },
    /// Frictionless: an arriving token keeps sliding in its incoming
    /// direction on subsequent beats.
    Ice,
    /// Launches the token up to `strength` tiles in the given direction
    /// (toward the first goal cell when the direction is zero).
    JumpPad { dx: i8, dy: i8, strength: u8 },
    /// Marker; the actual symbol remap lives in a co-located
    /// [`ModifierKind::TransformMap`].
    Transform,
}

/// Tile modifiers, resolved after the tile's obstacle on the same arrival.
#[derive(Debug)]
pub enum ModifierKind {
    /// Scales the score multiplier by `factor` for `beats` whole beats.
    ScoreMult { factor: Ratio, beats: u32 },
    /// Scales the hop-time factor by `factor` for `beats` whole beats.
    SlowHop { factor: Ratio, beats: u32 },
    /// Rewrites the token's displayed symbol: the first pair whose left side
    /// matches replaces it with its right side (pronunciation unchanged).
    TransformMap { pairs: Vec<(String, String)> },
}

/// One cell of the static board: both facets are optional and independent.
#[derive(Debug)]
pub struct TileDesc {
    pub obstacle: Option<ObstacleKind>,
    pub modifier: Option<ModifierKind>,
}

/// Immutable level descriptor. Tiles are a flat row-major array of length
/// `width * height`.
#[derive(Debug)]
pub struct LevelDesc {
    pub name: String,
    pub width: u8,
    pub height: u8,
    pub bpm: u32,
    pub tiles: Vec<TileDesc>,
    pub spawn_points: Vec<(u8, u8)>,
    pub goal_region: Vec<(u8, u8)>,
    pub symbol_pool: Vec<SymbolEntry>,
}

/// Index of cell `(x, y)` in a row-major array of width `w`.
pub open spec fn idx_of(w: int, x: int, y: int) -> int {
    y * w + x
}

impl LevelDesc {
    /// Positive dimensions with a tile for every cell; the part of
    /// well-formedness that tile lookups rely on.
    pub open spec fn dims_ok(&self) -> bool {
        &&& 1 <= self.width
        &&& 1 <= self.height
        &&& self.tiles@.len() == self.width as int * self.height as int
    }

    pub open spec fn spec_in_bounds(&self, x: int, y: int) -> bool {
        0 <= x < self.width && 0 <= y < self.height
    }

    pub open spec fn spec_tile(&self, x: int, y: int) -> TileDesc {
        self.tiles@[idx_of(self.width as int, x, y)]
    }

    pub open spec fn spec_obstacle(&self, x: int, y: int) -> Option<ObstacleKind> {
        self.spec_tile(x, y).obstacle
    }

    /// Whether cell `(x, y)` holds an impassable block.
    pub open spec fn spec_is_block(&self, x: int, y: int) -> bool {
        self.spec_obstacle(x, y) matches Some(ObstacleKind::Block)
    }

    /// A cell movement may target: in bounds and not a block.
    pub open spec fn spec_free(&self, x: int, y: int) -> bool {
        self.spec_in_bounds(x, y) && !self.spec_is_block(x, y)
    }

    /// Obstacle data is internally consistent for a `w`-by-`h` board.
    pub open spec fn obstacle_wf(o: ObstacleKind, w: int, h: int) -> bool {
        match o {
            ObstacleKind::Teleport { to } => 0 <= to.0 < w && 0 <= to.1 < h,
            ObstacleKind::Conveyor { dx, dy } => -1 <= dx <= 1 && -1 <= dy <= 1,
            ObstacleKind::TempoShift { mult, beats } => mult.wf(),
            ObstacleKind::JumpPad { dx, dy, strength } => -1 <= dx <= 1 && -1 <= dy <= 1,
            _ => true,
        }
    }

    pub open spec fn modifier_wf(m: ModifierKind) -> bool {
        match m {
            ModifierKind::ScoreMult { factor, beats } => factor.wf(),
            ModifierKind::SlowHop { factor, beats } => factor.wf(),
            ModifierKind::TransformMap { pairs } => true,
        }
    }

    pub open spec fn tile_wf(t: TileDesc, w: int, h: int) -> bool {
        &&& (t.obstacle matches Some(o) ==> Self::obstacle_wf(o, w, h))
        &&& (t.modifier matches Some(m) ==> Self::modifier_wf(m))
    }

    /// Well-formed level data: positive dimensions, a tile for every cell, a
    /// tempo the beat clock accepts, spawn and goal coordinates on free
    /// cells, internally consistent tiles, a nonempty symbol pool, and at
    /// least one free cell to place the token on.
    pub open spec fn wf(&self) -> bool {
        &&& self.dims_ok()
        &&& 1 <= self.bpm <= BPM_LIMIT
        &&& forall|i: int| #![auto] 0 <= i < self.spawn_points@.len()
            ==> self.spec_free(self.spawn_points@[i].0 as int, self.spawn_points@[i].1 as int)
        &&& forall|i: int| #![auto] 0 <= i < self.goal_region@.len()
            ==> self.spec_free(self.goal_region@[i].0 as int, self.goal_region@[i].1 as int)
        &&& forall|i: int| #![auto] 0 <= i < self.tiles@.len()
            ==> Self::tile_wf(self.tiles@[i], self.width as int, self.height as int)
        &&& self.symbol_pool@.len() >= 1
        &&& exists|i: int| 0 <= i < self.tiles@.len()
            && !((#[trigger] self.tiles@[i]).obstacle matches Some(ObstacleKind::Block))
    }

    /// The tile at cell `(x, y)`.
    pub fn tile(&self, x: u8, y: u8) -> (r: &TileDesc)
        requires
            self.dims_ok(),
            self.spec_in_bounds(x as int, y as int),
        ensures
            *r == self.spec_tile(x as int, y as int),
    {
        assert((y as int) * (self.width as int) + (x as int)
            < (self.width as int) * (self.height as int) && (y as int) * (self.width as int)
            <= 255 * 255) by (nonlinear_arith)
            requires
                0 <= (x as int) < (self.width as int) <= 255,
                0 <= (y as int) < (self.height as int) <= 255,
        ;
        let idx = y as usize * self.width as usize + x as usize;
        &self.tiles[idx]
    }

    /// Whether `(x, y)` lies on the board.
    pub fn in_bounds(&self, x: u8, y: u8) -> (r: bool)
        ensures
            r == self.spec_in_bounds(x as int, y as int),
    {
        x < self.width && y < self.height
    }

    /// Runtime check of one tile's internal consistency.
    fn check_tile(t: &TileDesc, w: u8, h: u8) -> (r: bool)
        ensures
            r == Self::tile_wf(*t, w as int, h as int),
    {
        let obstacle_ok = match &t.obstacle {
            Some(ObstacleKind::Teleport { to }) => to.0 < w && to.1 < h,
            Some(ObstacleKind::Conveyor { dx, dy }) => -1 <= *dx && *dx <= 1 && -1 <= *dy
                && *dy <= 1,
            Some(ObstacleKind::TempoShift { mult, beats: _ }) => mult.is_wf(),
            Some(ObstacleKind::JumpPad { dx, dy, strength: _ }) => -1 <= *dx && *dx <= 1
                && -1 <= *dy && *dy <= 1,
            _ => true,
        };
        let modifier_ok = match &t.modifier {
            Some(ModifierKind::ScoreMult { factor, beats: _ }) => factor.is_wf(),
            Some(ModifierKind::SlowHop { factor, beats: _ }) => factor.is_wf(),
            _ => true,
        };
        obstacle_ok && modifier_ok
    }

    /// Full runtime validation of the level data, equivalent to [`LevelDesc::wf`].
    /// Malformed levels are rejected when a simulation is constructed, never
    /// discovered mid-game.
    pub fn validate(&self) -> (r: bool)
        ensures
            r == self.wf(),
    {
        if self.width < 1 || self.height < 1 {
            return false;
        }
        assert((self.width as int) * (self.height as int) <= 255 * 255) by (nonlinear_arith)
            requires
                0 <= (self.width as int) <= 255,
                0 <= (self.height as int) <= 255,
        ;
        if self.tiles.len() != self.width as usize * self.height as usize {
            return false;
        }
        if self.bpm < 1 || self.bpm > BPM_LIMIT {
            return false;
        }
        let mut i: usize = 0;
        while i < self.tiles.len()
            invariant
                0 <= i <= self.tiles@.len(),
                forall|j: int| #![auto] 0 <= j < i
                    ==> Self::tile_wf(self.tiles@[j], self.width as int, self.height as int),
            decreases self.tiles@.len() - i,
        {
            if !Self::check_tile(&self.tiles[i], self.width, self.height) {
                return false;
            }
            i = i + 1;
        }
        let mut i: usize = 0;
        while i < self.spawn_points.len()
            invariant
                self.dims_ok(),
                0 <= i <= self.spawn_points@.len(),
                forall|j: int| #![auto] 0 <= j < i
                    ==> self.spec_free(
                        self.spawn_points@[j].0 as int,
                        self.spawn_points@[j].1 as int,
                    ),
            decreases self.spawn_points@.len() - i,
        {
            let p = self.spawn_points[i];
            if !self.free(p.0, p.1) {
                return false;
            }
            i = i + 1;
        }
        let mut i: usize = 0;
        while i < self.goal_region.len()
            invariant
                self.dims_ok(),
                0 <= i <= self.goal_region@.len(),
                forall|j: int| #![auto] 0 <= j < i
                    ==> self.spec_free(
                        self.goal_region@[j].0 as int,
                        self.goal_region@[j].1 as int,
                    ),
            decreases self.goal_region@.len() - i,
        {
            let p = self.goal_region[i];
            if !self.free(p.0, p.1) {
                return false;
            }
            i = i + 1;
        }
        if self.symbol_pool.len() < 1 {
            return false;
        }
        self.has_free_tile()
    }

    /// Whether any tile of the board is not a block.
    fn has_free_tile(&self) -> (r: bool)
        ensures
            r == exists|i: int| 0 <= i < self.tiles@.len()
                && !((#[trigger] self.tiles@[i]).obstacle matches Some(ObstacleKind::Block)),
    {
        let mut i: usize = 0;
        while i < self.tiles.len()
            invariant
                0 <= i <= self.tiles@.len(),
                forall|j: int| 0 <= j < i
                    ==> (#[trigger] self.tiles@[j]).obstacle matches Some(ObstacleKind::Block),
            decreases self.tiles@.len() - i,
        {
            if !(matches!(self.tiles[i].obstacle, Some(ObstacleKind::Block))) {
                return true;
            }
            i = i + 1;
        }
        false
    }

    /// Whether `(x, y)` is on the board and not a block.
    pub fn free(&self, x: u8, y: u8) -> (r: bool)
        requires
            self.dims_ok(),
        ensures
            r == self.spec_free(x as int, y as int),
    {
        if !self.in_bounds(x, y) {
            return false;
        }
        !(matches!(self.tile(x, y).obstacle, Some(ObstacleKind::Block)))
    }
}

} // verus!
