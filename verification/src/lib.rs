//! Core engine of a grid-based rhythm / typing minigame.
//!
//! A player-controlled token occupies a tile on a rectangular board. Tiles
//! carry optional obstacles and modifiers; a musical beat clock drives the
//! periodic board refill and timed effect expiry. The player advances by
//! typing the romanized pronunciation of a symbol shown on an adjacent tile,
//! which triggers a hop, a score award, and consumption of that tile.
//!
//! Everything here is pure, deterministic state: a host wraps it with a
//! frame clock, a render surface, and an input source, feeding timestamps
//! and key events in and reading a draw model back out.

pub mod beat;
pub mod boards;
pub mod data;
pub mod level;
pub mod movement;
pub mod ratio;
pub mod rng;
pub mod sim;
pub mod token;

pub use beat::BeatClock;
pub use boards::builtin_session;
pub use boards::level1;
pub use boards::level2;
pub use boards::level3;
pub use boards::level4;
pub use boards::level5;
pub use boards::level6;
pub use boards::level7;
pub use boards::levels;
pub use boards::score_thresholds;
pub use data::multi_hanzi;
pub use data::single_hanzi;
pub use level::LevelDesc;
pub use level::ModifierKind;
pub use level::ObstacleKind;
pub use level::SymbolEntry;
pub use level::TileDesc;
pub use movement::choose_next_for_piece;
pub use movement::choose_next_step;
pub use ratio::Ratio;
pub use rng::Lcg;
pub use sim::BoardState;
pub use sim::ConfigError;
pub use sim::KeyEvent;
pub use sim::SlashEffect;
pub use token::Flight;
pub use token::Piece;
