//! One team's game piece and its acceleration bookkeeping.

use vstd::prelude::*;
use crate::action::{Accelerate, Turn};
use crate::cube::{abs_int, CubeDir, CubeVec};
use crate::team::Team;

verus! {

/// All the ship's numeric fields lie within the given magnitude.
pub open spec fn fields_within(s: Ship, k: int) -> bool {
    &&& -k <= s.speed <= k
    &&& -k <= s.coal <= k
    &&& -k <= s.free_turns <= k
    &&& -k <= s.points <= k
    &&& -k <= s.movement <= k
    &&& -k <= s.free_acc <= k
    &&& s.passengers <= k
}

/// A player's game piece.
#[derive(Debug, Clone, Copy, PartialEq, Eq, Structural)]
pub struct Ship {
    pub team: Team,
    pub position: CubeVec,
    pub direction: CubeDir,
    pub speed: i32,
    pub coal: i32,
    pub passengers: usize,
    pub free_turns: i32,
    pub points: i32,
    pub movement: i32,
    pub free_acc: i32,
}

impl Ship {
    /// The ship's position satisfies the cube invariant and stays in the
    /// coordinate range of a real board, and its numeric fields are far from
    /// the integer limits.
    pub open spec fn sane(self) -> bool {
        &&& self.position.wf()
        &&& self.position.small(2_000_000)
        &&& fields_within(self, 1_000_000_000)
    }

    /// The ship after `accelerate`: speed and remaining movement both grow by
    /// the amount.
    pub open spec fn spec_accelerated(self, amount: int) -> Ship {
        Ship { speed: (self.speed + amount) as i32, movement: (self.movement + amount) as i32, ..self }
    }

    /// The ship after a full acceleration action: the coal cost is the part
    /// of the amount's magnitude not covered by the free acceleration credit;
    /// if the credit covers everything, the unused remainder of the credit is
    /// kept, otherwise the credit is used up.
    pub open spec fn spec_apply_acceleration(self, acc: Accelerate) -> Ship {
        let used_coal = abs_int(acc.acc as int) - self.free_acc;
        let paid = if used_coal > 0 {
            Ship { coal: (self.coal - used_coal) as i32, free_acc: 0i32, ..self }
        } else {
            Ship { free_acc: (-used_coal) as i32, ..self }
        };
        paid.spec_accelerated(acc.acc as int)
    }

    /// Accelerates the ship by the given amount.
    pub fn accelerate(&mut self, amount: i32)
        requires
            fields_within(*old(self), 2_100_000_000),
            -10_000_000 <= amount <= 10_000_000,
        ensures
            *final(self) == old(self).spec_accelerated(amount as int),
    {
        self.speed = self.speed + amount;
        self.movement = self.movement + amount;
    }

    /// The ship after being accelerated by the given amount.
    pub fn accelerated(self, amount: i32) -> (r: Ship)
        requires
            fields_within(self, 2_100_000_000),
            -10_000_000 <= amount <= 10_000_000,
        ensures
            r == self.spec_accelerated(amount as int),
    {
        let mut s = self;
        s.accelerate(amount);
        s
    }

    /// Applies a full acceleration action: pays the coal cost, updates the
    /// free acceleration credit, and accelerates.
    pub fn apply_acceleration(&mut self, acc: Accelerate)
        requires
            fields_within(*old(self), 1_010_000_000),
            0 <= old(self).free_acc,
            -1_000_000 <= acc.acc <= 1_000_000,
        ensures
            *final(self) == old(self).spec_apply_acceleration(acc),
    {
        let amount = acc.acc;
        let magnitude = if amount < 0 { -amount } else { amount };
        let used_coal = magnitude - self.free_acc;
        if used_coal > 0 {
            self.coal = self.coal - used_coal;
            self.free_acc = 0;
        } else {
            self.free_acc = -used_coal;
        }
        self.accelerate(amount);
    }
}

impl Default for Ship {
    /// A fresh first-team ship at the origin: minimum speed, the full
    /// starting coal, one free turn and one free acceleration credit.
    fn default() -> (r: Ship)
        ensures
            r == (Ship {
                team: Team::One,
                position: CubeVec { q: 0, r: 0, s: 0 },
                direction: CubeDir::Right,
                speed: 1,
                coal: 6,
                passengers: 0,
                free_turns: 1,
                points: 0,
                movement: 1,
                free_acc: 1,
            }),
    {
        Ship {
            team: Team::One,
            position: CubeVec { q: 0, r: 0, s: 0 },
            direction: CubeDir::Right,
            speed: 1,
            coal: 6,
            passengers: 0,
            free_turns: 1,
            points: 0,
            movement: 1,
            free_acc: 1,
        }
    }
}

impl Turn {
    /// The cost in coal for the given ship: the turn distance less the free
    /// turn credit, but never negative.
    pub fn coal_cost(self, ship: Ship) -> (r: i32)
        requires
            -1_000_000_000 <= ship.free_turns <= 1_000_000_000,
        ensures
            r == if abs_int(ship.direction.spec_turn_count_to(self.direction)) - ship.free_turns
                >= 0 {
                abs_int(ship.direction.spec_turn_count_to(self.direction)) - ship.free_turns
            } else {
                0
            },
    {
        let count = ship.direction.turn_count_to(self.direction);
        let magnitude = if count < 0 { -count } else { count };
        let cost = magnitude - ship.free_turns;
        if cost >= 0 { cost } else { 0 }
    }
}

} // verus!
