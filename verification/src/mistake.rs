//! Legality-violation kinds: the per-action problems and the move-level
//! mistakes. These are expected, recoverable outcomes, never faults.

use vstd::prelude::*;

verus! {

/// Why an acceleration is illegal.
#[derive(Debug, Copy, Clone, PartialEq, Eq, Hash, Structural)]
pub enum AccelerateProblem {
    /// The amount was zero.
    ZeroAcc,
    /// The ship is already above the maximum speed.
    AboveMaxSpeed,
    /// The ship is already below the minimum speed.
    BelowMinSpeed,
    /// The ship sits on a sandbank.
    OnSandbank,
    /// The acceleration would leave the ship with negative coal.
    InsufficientCoal,
}

/// Why an advancement is illegal.
#[derive(Debug, Copy, Clone, PartialEq, Eq, Hash)]
pub enum AdvanceProblem {
    /// The ship's movement budget does not cover the advancement.
    MovementPointsMissing { distance: Option<i32>, movement: i32 },
    /// The opposing ship occupies the target and no movement remains to push.
    InsufficientPush,
    /// The requested distance is outside the legal range.
    InvalidDistance { distance: i32 },
    /// The opposing ship occupies the target cell.
    ShipAlreadyInTarget,
    /// A non-empty field blocks the path.
    FieldIsBlocked,
    /// The path reaches a sandbank before the movement is used up.
    MoveEndOnSandbank,
}

/// Why a push is illegal.
#[derive(Debug, Copy, Clone, PartialEq, Eq, Hash, Structural)]
pub enum PushProblem {
    /// The pushing ship is not on the same field as the opponent.
    InvalidFieldPush,
    /// The target field of the push is blocked.
    BlockedFieldPush,
    /// The push would leave the opponent on the same field.
    SameFieldPush,
    /// The push starts from a sandbank.
    SandbankPush,
    /// The push may not go backwards against the incoming direction.
    BackwardPushingRestricted,
}

/// Why a turn is illegal.
#[derive(Debug, Copy, Clone, PartialEq, Eq, Hash, Structural)]
pub enum TurnProblem {
    /// Turning on a sandbank is not allowed.
    RotationOnSandbankNotAllowed,
    /// The ship's coal does not cover the rotation.
    NotEnoughCoalForRotation,
}

/// A problem with a single action, tagged by the action's kind.
#[derive(Debug, Copy, Clone, PartialEq, Eq, Hash)]
pub enum ActionProblem {
    Accelerate(AccelerateProblem),
    Advance(AdvanceProblem),
    Push(PushProblem),
    Turn(TurnProblem),
}

/// A problem with a whole move.
#[derive(Debug, Copy, Clone, PartialEq, Eq, Hash)]
pub enum MoveMistake {
    /// The move holds no actions.
    NoActions,
    /// A push is owed but the next action is not a push.
    PushActionRequired,
    /// An action other than the first happens while the ship sits on a
    /// sandbank.
    SandbankEnd,
    /// An acceleration appears anywhere but as the first action.
    FirstActionAccelerate,
    /// The move leaves the given number of movement points unused.
    MovementPointsLeft(i32),
    /// The move overspends the movement budget by the given number of points.
    MovementPointsMissing(i32),
    /// An action of the move failed with the given problem.
    ActionFailed(ActionProblem),
}

} // verus!
