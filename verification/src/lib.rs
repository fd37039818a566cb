//! Rules engine for Arrata dice pools: the roll of a stat with advantage and
//! disadvantage, the notation for stats and obstacles, and the character
//! sheet that carries the stats.

pub mod character;
pub mod dice;
pub mod notation;
pub mod obstacle;
pub mod quality;
pub mod quirk;
pub mod stat;

pub use character::{Character, Item};
pub use dice::{roll_faces, roll_stat, RollResult, MAX_DICE};
pub use notation::ParseError;
pub use obstacle::Obstacle;
pub use quality::Quality;
pub use quirk::{Inspiration, Quirk, QuirkCategory};
pub use stat::Stat;
