//! Terrain classification of a single hex cell.

use vstd::prelude::*;
use crate::cube::CubeDir;

verus! {

/// The terrain of one hex cell of the river.
#[derive(Debug, Clone, Copy, PartialEq, Eq, Structural)]
pub enum Field {
    /// Open water.
    Water,
    /// An island that blocks ships.
    Island,
    /// A passenger pickup spot: the direction a ship must approach from and
    /// how many passengers remain.
    Passenger { direction: CubeDir, passenger: usize },
    /// A goal field.
    Goal,
    /// A sandbank that caps a ship's movement until cleared.
    Sandbank,
}

impl Field {
    /// Whether a ship can occupy the field: water, goal and sandbank fields
    /// are free, islands block, and a passenger field blocks while it still
    /// carries a passenger.
    pub open spec fn spec_is_empty(self) -> bool {
        match self {
            Field::Island => false,
            Field::Passenger { direction, passenger } => passenger == 0,
            _ => true,
        }
    }

    /// Whether the field is empty.
    pub fn is_empty(self) -> (r: bool)
        ensures
            r == self.spec_is_empty(),
    {
        match self {
            Field::Island => false,
            Field::Passenger { direction: _, passenger } => passenger == 0,
            _ => true,
        }
    }
}

} // verus!
