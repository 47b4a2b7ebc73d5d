//! Fixed parameters of the canonical ruleset.

use vstd::prelude::*;

verus! {

/// The number of rounds after which the game ends.
pub const ROUND_LIMIT: usize = 30;

/// The coal budget every ship starts with.
pub const START_COAL: i32 = 6;

/// The lowest speed a ship can have.
pub const MIN_SPEED: i32 = 1;

/// The highest speed a ship can have.
pub const MAX_SPEED: i32 = 6;

/// The per-turn free acceleration credit.
pub const FREE_ACC: i32 = 1;

/// The points awarded for finishing.
pub const FINISH_POINTS: usize = 6;

/// The points awarded per passenger on board.
pub const POINTS_PER_PASSENGER: i32 = 5;

/// The points awarded per segment travelled.
pub const POINTS_PER_SEGMENT: i32 = 5;

/// The number of passengers available on the board.
pub const NUMBER_OF_PASSENGERS: usize = 5;

/// The number of field columns in a segment.
pub const SEGMENT_FIELDS_WIDTH: usize = 4;

/// The number of field rows in a segment.
pub const SEGMENT_FIELDS_HEIGHT: usize = 5;

/// The number of segments on the full river.
pub const NUMBER_OF_SEGMENTS: usize = 8;

/// The largest number of special fields per segment (sandbanks are disabled).
pub const MAX_SPECIAL: usize = 0;

/// The smallest number of special fields per segment.
pub const MIN_SPECIAL: usize = 0;

/// The largest number of islands per segment.
pub const MAX_ISLANDS: usize = 3;

/// The smallest number of islands per segment.
pub const MIN_ISLANDS: usize = 2;

} // verus!
