//! The four kinds of actions a move is made of.

use vstd::prelude::*;
use crate::cube::CubeDir;

verus! {

/// Acceleration by the given amount.
#[derive(Debug, Copy, Clone, PartialEq, Eq, Hash, Structural)]
pub struct Accelerate {
    /// The amount to accelerate by. May be negative, but not zero.
    pub acc: i32,
}

impl Accelerate {
    /// Creates a new acceleration with the given amount to accelerate by.
    pub fn new(acc: i32) -> (r: Accelerate)
        ensures
            r.acc == acc,
    {
        Accelerate { acc }
    }
}

/// Advancement in the direction of movement.
#[derive(Debug, Copy, Clone, PartialEq, Eq, Hash, Structural)]
pub struct Advance {
    /// The number of fields to move.
    pub distance: i32,
}

impl Advance {
    /// Creates a new advancement with the given distance.
    pub fn new(distance: i32) -> (r: Advance)
        ensures
            r.distance == distance,
    {
        Advance { distance }
    }
}

/// Nudging another ship.
#[derive(Debug, Copy, Clone, PartialEq, Eq, Hash, Structural)]
pub struct Push {
    /// The direction to nudge in.
    pub direction: CubeDir,
}

impl Push {
    /// Creates a new push with the given direction.
    pub fn new(direction: CubeDir) -> (r: Push)
        ensures
            r.direction == direction,
    {
        Push { direction }
    }
}

/// A turn of the ship.
#[derive(Debug, Copy, Clone, PartialEq, Eq, Hash, Structural)]
pub struct Turn {
    /// The direction to turn into.
    pub direction: CubeDir,
}

impl Turn {
    /// Creates a new turn with the given direction.
    pub fn new(direction: CubeDir) -> (r: Turn)
        ensures
            r.direction == direction,
    {
        Turn { direction }
    }
}

/// An action to take during a move.
#[derive(Debug, Copy, Clone, PartialEq, Eq, Hash, Structural)]
pub enum Action {
    /// Acceleration by the given amount.
    Accelerate(Accelerate),
    /// Advancement in the direction of movement.
    Advance(Advance),
    /// Nudging another ship.
    Push(Push),
    /// A turn of the ship.
    Turn(Turn),
}

impl Action {
    /// The numbers carried by the action stay within the engine's working
    /// range, so that cost and movement arithmetic cannot overflow.
    pub open spec fn bounded(self) -> bool {
        match self {
            Action::Accelerate(a) => -1_000_000 <= a.acc <= 1_000_000,
            Action::Advance(a) => -1_000_000 <= a.distance <= 1_000_000,
            _ => true,
        }
    }

    /// Creates an acceleration action.
    pub fn accelerate(acc: i32) -> (r: Action)
        ensures
            r == Action::Accelerate(Accelerate { acc }),
    {
        Action::Accelerate(Accelerate { acc })
    }

    /// Creates an advancement action.
    pub fn advance(distance: i32) -> (r: Action)
        ensures
            r == Action::Advance(Advance { distance }),
    {
        Action::Advance(Advance { distance })
    }

    /// Creates a push action.
    pub fn push(direction: CubeDir) -> (r: Action)
        ensures
            r == Action::Push(Push { direction }),
    {
        Action::Push(Push { direction })
    }

    /// Creates a turn action.
    pub fn turn(direction: CubeDir) -> (r: Action)
        ensures
            r == Action::Turn(Turn { direction }),
    {
        Action::Turn(Turn { direction })
    }
}

} // verus!
