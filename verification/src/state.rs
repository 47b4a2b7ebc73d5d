//! The aggregate game state: board, turn counter, the two ships, the last
//! move and the team order, together with action legality and application,
//! move enumeration and turn progression.

use vstd::prelude::*;
use crate::action::{Accelerate, Action, Advance, Push, Turn};
use crate::board::{lemma_filtered_index_found, Board, BoardView};
use crate::cube::{abs_int, spec_dir_of_turns, spec_dir_vec, CubeDir, CubeVec};
use crate::field::Field;
use crate::mistake::{AccelerateProblem, ActionProblem, AdvanceProblem, MoveMistake, PushProblem, TurnProblem};
use crate::moves::Move;
use crate::ship::{fields_within, Ship};
use crate::team::Team;

verus! {

/// The mathematical model of a game state.
pub struct StateView {
    pub board: BoardView,
    pub turn: nat,
    pub ship_one: Ship,
    pub ship_two: Ship,
    pub last_move: Option<Seq<Action>>,
    pub start_team: Team,
    pub current_team: Team,
}

/// Lexicographic comparison of the catch-up keys `(points, speed, coal)`.
pub open spec fn ship_key_gt(a: Ship, b: Ship) -> bool {
    ||| a.points > b.points
    ||| (a.points == b.points && a.speed > b.speed)
    ||| (a.points == b.points && a.speed == b.speed && a.coal > b.coal)
}

impl StateView {
    /// The ship of the given team.
    pub open spec fn spec_ship(self, team: Team) -> Ship {
        match team {
            Team::One => self.ship_one,
            Team::Two => self.ship_two,
        }
    }

    /// The model with the given team's ship replaced.
    pub open spec fn with_ship(self, team: Team, ship: Ship) -> StateView {
        match team {
            Team::One => StateView { ship_one: ship, ..self },
            Team::Two => StateView { ship_two: ship, ..self },
        }
    }

    /// The current team's ship.
    pub open spec fn spec_current_ship(self) -> Ship {
        self.spec_ship(self.current_team)
    }

    /// The opposing team's ship.
    pub open spec fn spec_other_ship(self) -> Ship {
        self.spec_ship(self.current_team.spec_opponent())
    }

    /// Whether the current ship must push: both ships share a cell.
    pub open spec fn spec_must_push(self) -> bool {
        self.spec_current_ship().position == self.spec_other_ship().position
    }

    /// The team that should go first at the beginning of a round: the one
    /// with the lexicographically greatest `(points, speed, coal)`, the
    /// second team on a tie.
    pub open spec fn spec_ahead_team(self) -> Team {
        if ship_key_gt(self.ship_one, self.ship_two) {
            Team::One
        } else {
            Team::Two
        }
    }

    /// Structural well-formedness: the board is well-formed and both ships
    /// stand on fields of the board with valid cube coordinates and the team
    /// fields matching their slots.
    pub open spec fn wf(self) -> bool {
        &&& self.board.wf()
        &&& self.ship_one.position.wf()
        &&& self.ship_two.position.wf()
        &&& self.board.spec_get(self.ship_one.position) is Some
        &&& self.board.spec_get(self.ship_two.position) is Some
        &&& self.ship_one.team == Team::One
        &&& self.ship_two.team == Team::Two
    }

    /// The numbers carried by the ships are far from the integer limits, and
    /// the budgets that feed enumeration are of realistic size.
    pub open spec fn sane(self) -> bool {
        &&& ship_sane(self.ship_one)
        &&& ship_sane(self.ship_two)
    }

    /// A looser numeric band than [`StateView::sane`] (see [`ship_roomy`]).
    pub open spec fn roomy(self) -> bool {
        &&& ship_roomy(self.ship_one)
        &&& ship_roomy(self.ship_two)
    }

    /// The outcome of an acceleration on the current ship: rejected when the
    /// amount is zero, when the current speed is already outside the legal
    /// band, on a sandbank, or when the coal after paying would be negative;
    /// otherwise the ship pays and accelerates.
    pub open spec fn accelerate_outcome(self, acc: Accelerate) -> Result<
        StateView,
        AccelerateProblem,
    > {
        let ship = self.spec_current_ship();
        if acc.acc == 0 {
            Err(AccelerateProblem::ZeroAcc)
        } else if ship.speed >= 7 {
            Err(AccelerateProblem::AboveMaxSpeed)
        } else if ship.speed <= 0 {
            Err(AccelerateProblem::BelowMinSpeed)
        } else if self.board.spec_is_sandbank_at(ship.position) {
            Err(AccelerateProblem::InsufficientCoal)
        } else {
            let ship2 = ship.spec_apply_acceleration(acc);
            if ship2.coal < 0 {
                Err(AccelerateProblem::InsufficientCoal)
            } else {
                Ok(self.with_ship(self.current_team, ship2))
            }
        }
    }

    /// The outcome of a turn on the current ship: the turn distance beyond
    /// the free turn credit is paid in coal (which the caller must check),
    /// the credit is reduced, and the ship points in the new direction.
    pub open spec fn turn_outcome(self, turn: Turn) -> StateView {
        let ship = self.spec_current_ship();
        let tc = abs_int(ship.direction.spec_turn_count_to(turn.direction));
        let used = tc - ship.free_turns;
        let ship2 = Ship {
            free_turns: if ship.free_turns - tc >= 0 { (ship.free_turns - tc) as i32 } else { 0i32 },
            coal: if used > 0 { (ship.coal - used) as i32 } else { ship.coal },
            direction: turn.direction,
            ..ship
        };
        self.with_ship(self.current_team, ship2)
    }

    /// The outcome of a push: the mover spends one movement point and the
    /// opponent is moved one cell in the given direction; that cell must be
    /// empty. Landing the opponent on a sandbank caps its speed and movement
    /// at one, and it gains one free turn credit in any case.
    pub open spec fn push_outcome(self, push: Push) -> Result<StateView, PushProblem> {
        let ship = self.spec_current_ship();
        let other = self.spec_other_ship();
        let push_to = ship.position.spec_plus(spec_dir_vec(push.direction));
        if !self.board.spec_is_empty_at(push_to) {
            Err(PushProblem::BlockedFieldPush)
        } else {
            let ship2 = Ship { movement: (ship.movement - 1) as i32, ..ship };
            let sandbank = self.board.spec_is_sandbank_at(push_to);
            let other2 = Ship {
                speed: if sandbank { 1i32 } else { other.speed },
                movement: if sandbank { 1i32 } else { other.movement },
                position: push_to,
                free_turns: (other.free_turns + 1) as i32,
                ..other
            };
            Ok(
                self.with_ship(self.current_team, ship2).with_ship(
                    self.current_team.spec_opponent(),
                    other2,
                ),
            )
        }
    }

    /// The offsets of the turns offered for a maximum turn distance.
    pub open spec fn spec_turn_offsets(mtc: int) -> Seq<int> {
        if mtc <= 0 {
            Seq::empty()
        } else if mtc == 1 {
            seq![1, -1]
        } else if mtc == 2 {
            seq![1, -1, 2, -2]
        } else {
            seq![1, -1, 2, -2, 3]
        }
    }

    /// The turns available to the current ship when spending at most
    /// `max_coal` coal: none while a push is owed or on a sandbank, otherwise
    /// every turn of distance up to the coal plus the free turn credit,
    /// capped at three, in both senses, at most five in all.
    pub open spec fn spec_possible_turns(self, max_coal: int) -> Seq<Turn> {
        let ship = self.spec_current_ship();
        if self.spec_must_push() || self.board.spec_is_sandbank_at(ship.position) {
            Seq::empty()
        } else {
            let mtc0 = max_coal + ship.free_turns;
            let mtc = if mtc0 > 3 {
                3
            } else {
                mtc0
            };
            Self::spec_turn_offsets(mtc).map_values(
                |t: int| Turn { direction: ship.direction.spec_rotated_by(t) },
            )
        }
    }

    /// The pushes available from `position` with incoming direction
    /// `incoming`, considering only the first `d` directions: every direction
    /// except the reverse of the incoming one whose neighbouring cell is
    /// empty.
    pub open spec fn spec_pushes_prefix(
        self,
        position: CubeVec,
        incoming: CubeDir,
        d: int,
    ) -> Seq<Push>
        decreases d,
    {
        if d <= 0 {
            Seq::empty()
        } else {
            let prev = self.spec_pushes_prefix(position, incoming, d - 1);
            let dir = spec_dir_of_turns(d - 1);
            if dir != incoming.spec_rotated_by(3) && self.board.spec_is_empty_at(
                position.spec_plus(spec_dir_vec(dir)),
            ) {
                prev.push(Push { direction: dir })
            } else {
                prev
            }
        }
    }

    /// The pushes available from `position` with incoming direction
    /// `incoming`.
    pub open spec fn spec_possible_pushes_at(self, position: CubeVec, incoming: CubeDir) -> Seq<
        Push,
    > {
        self.spec_pushes_prefix(position, incoming, 6)
    }

    /// The accelerations offered for amounts up to `i`, in the order
    /// `1, -1, 2, -2, ...`: a delta is kept exactly when the resulting speed
    /// stays within the legal band.
    pub open spec fn spec_accs_prefix(speed: int, i: int) -> Seq<Accelerate>
        decreases i,
    {
        if i <= 0 {
            Seq::empty()
        } else {
            let prev = Self::spec_accs_prefix(speed, i - 1);
            let up = if 6 >= speed + i {
                seq![Accelerate { acc: i as i32 }]
            } else {
                Seq::empty()
            };
            let down = if 1 <= speed - i {
                seq![Accelerate { acc: (-i) as i32 }]
            } else {
                Seq::empty()
            };
            prev + up + down
        }
    }

    /// The accelerations available to the current ship when spending at most
    /// `max_coal` coal: none while a push is owed, otherwise every amount up
    /// to the coal plus the free acceleration credit that passes the band
    /// check.
    pub open spec fn spec_possible_accelerations(self, max_coal: int) -> Seq<Accelerate> {
        if self.spec_must_push() {
            Seq::empty()
        } else {
            let ship = self.spec_current_ship();
            StateView::spec_accs_prefix(ship.speed as int, max_coal + ship.free_acc)
        }
    }

    /// The advances available to a ship on a sandbank: the one-cell escapes
    /// backwards and forwards, each kept exactly when a probe with a single
    /// movement point clears the sandbank in that direction.
    pub open spec fn spec_sandbank_advances(self, ship: Ship) -> Seq<Advance> {
        let back = spec_advance_limit(
            self.board,
            self.ship_one.position,
            self.ship_two.position,
            ship.position,
            ship.direction.spec_rotated_by(3),
            1,
        );
        let fwd = spec_advance_limit(
            self.board,
            self.ship_one.position,
            self.ship_two.position,
            ship.position,
            ship.direction,
            1,
        );
        let first = if back.costs.len() >= 1 {
            seq![Advance { distance: -1 as i32 }]
        } else {
            Seq::empty()
        };
        let second = if fwd.costs.len() >= 1 {
            seq![Advance { distance: 1 as i32 }]
        } else {
            Seq::empty()
        };
        first + second
    }

    /// The advances available to the given ship: the sandbank escapes when it
    /// sits on a sandbank, otherwise every distance from the reachable limit
    /// down to one.
    pub open spec fn spec_possible_advances_for(self, ship: Ship) -> Seq<Advance> {
        if self.board.spec_is_sandbank_at(ship.position) {
            self.spec_sandbank_advances(ship)
        } else {
            let limit = spec_advance_limit(
                self.board,
                self.ship_one.position,
                self.ship_two.position,
                ship.position,
                ship.direction,
                ship.movement as int,
            );
            Seq::new(limit.costs.len(), |i: int| Advance {
                distance: (limit.costs.len() - i) as i32,
            })
        }
    }

    /// The outcome of an advancement of the current ship: the distance must
    /// be non-zero, inside the legal band (except for the one-cell sandbank
    /// escape), covered by the remaining movement, and reachable according to
    /// the advance-limit probe; the ship then moves by the distance along its
    /// facing direction and pays the probe's cumulative cost.
    pub open spec fn advance_outcome(self, adv: Advance) -> Result<StateView, AdvanceProblem> {
        let ship = self.spec_current_ship();
        let on_sandbank = self.board.spec_is_sandbank_at(ship.position);
        if adv.distance == 0 || (adv.distance < 1 && !on_sandbank) || adv.distance > 6 {
            Err(AdvanceProblem::InvalidDistance { distance: adv.distance })
        } else if adv.distance > ship.movement {
            Err(
                AdvanceProblem::MovementPointsMissing {
                    distance: Some(adv.distance),
                    movement: ship.movement,
                },
            )
        } else {
            let walk_dir = if adv.distance < 0 {
                ship.direction.spec_rotated_by(3)
            } else {
                ship.direction
            };
            let limit = spec_advance_limit(
                self.board,
                self.ship_one.position,
                self.ship_two.position,
                ship.position,
                walk_dir,
                ship.movement as int,
            );
            let mag = abs_int(adv.distance as int);
            if limit.costs.len() < mag {
                Err(limit.problem)
            } else {
                let ship2 = Ship {
                    position: ship.position.spec_plus(
                        spec_dir_vec(ship.direction).spec_scaled(adv.distance as int),
                    ),
                    movement: (ship.movement - limit.costs[mag - 1]) as i32,
                    ..ship
                };
                Ok(self.with_ship(self.current_team, ship2))
            }
        }
    }

    /// The outcome of a single action, tagged with the action's kind.
    pub open spec fn action_outcome(self, a: Action) -> Result<StateView, ActionProblem> {
        match a {
            Action::Accelerate(x) => match self.accelerate_outcome(x) {
                Ok(s) => Ok(s),
                Err(p) => Err(ActionProblem::Accelerate(p)),
            },
            Action::Advance(x) => match self.advance_outcome(x) {
                Ok(s) => Ok(s),
                Err(p) => Err(ActionProblem::Advance(p)),
            },
            Action::Push(x) => match self.push_outcome(x) {
                Ok(s) => Ok(s),
                Err(p) => Err(ActionProblem::Push(p)),
            },
            Action::Turn(x) => Ok(self.turn_outcome(x)),
        }
    }

    /// Applying the actions of a move from position `i` on, enforcing the
    /// move-shape rules before each action: no action but the first while on
    /// a sandbank, only pushes while a push is owed, and accelerations only
    /// first.
    #[verifier::opaque]
    pub open spec fn apply_actions_from(self, actions: Seq<Action>, i: int) -> Result<
        StateView,
        MoveMistake,
    >
        decreases actions.len() - i,
    {
        if i < 0 || i >= actions.len() {
            Ok(self)
        } else {
            let a = actions[i];
            if i != 0 && self.board.spec_is_sandbank_at(self.spec_current_ship().position) {
                Err(MoveMistake::SandbankEnd)
            } else if self.spec_must_push() && !(a is Push) {
                Err(MoveMistake::PushActionRequired)
            } else if i != 0 && a is Accelerate {
                Err(MoveMistake::FirstActionAccelerate)
            } else {
                match self.action_outcome(a) {
                    Ok(s2) => s2.apply_actions_from(actions, i + 1),
                    Err(p) => Err(MoveMistake::ActionFailed(p)),
                }
            }
        }
    }

    /// The state after the actions of a move, before passenger pickup and
    /// turn progression: the move must be non-empty, its coalesced actions
    /// must all succeed, and the remaining movement must be exactly zero.
    pub open spec fn move_mid(self, m: Seq<Action>) -> Result<StateView, MoveMistake> {
        if m.len() == 0 {
            Err(MoveMistake::NoActions)
        } else {
            match self.apply_actions_from(crate::moves::coalesce_seq(m), 0) {
                Err(e) => Err(e),
                Ok(mid) => {
                    let mv = mid.spec_current_ship().movement;
                    if mv > 0 {
                        Err(MoveMistake::MovementPointsLeft(mv))
                    } else if mv < 0 {
                        Err(MoveMistake::MovementPointsMissing((0 - mv) as i32))
                    } else {
                        Ok(mid)
                    }
                },
            }
        }
    }

    /// One ship after a passenger pickup attempt on the given board: the
    /// board and the ship with the passenger moved over when the ship is
    /// slow enough and a neighbouring field is eligible.
    pub open spec fn spec_pickup(board: BoardView, ship: Ship) -> (BoardView, Ship) {
        if board.spec_effective_speed(ship) < 2 && board.spec_remove_passenger(
            ship.position,
        ) is Some {
            (
                board.spec_remove_passenger(ship.position)->Some_0,
                Ship { passengers: (ship.passengers + 1) as usize, ..ship },
            )
        } else {
            (board, ship)
        }
    }

    /// The state after the pickup-and-scoring phase that ends a successful
    /// move: the mover attempts a pickup and has its points recomputed; if
    /// the move pushed, the pushed opponent attempts a pickup too (only at
    /// speed one) and has its points recomputed.
    pub open spec fn after_pickups(self, had_push: bool) -> StateView {
        let mover = self.spec_current_ship();
        let pair = Self::spec_pickup(self.board, mover);
        let b1 = pair.0;
        let mover1 = pair.1;
        let mover2 = Ship {
            points: b1.spec_ship_points(mover1)->Some_0 as i32,
            ..mover1
        };
        let s1 = StateView { board: b1, ..self }.with_ship(self.current_team, mover2);
        if had_push {
            let other = s1.spec_other_ship();
            let pair2 = if other.speed == 1 {
                Self::spec_pickup(s1.board, other)
            } else {
                (s1.board, other)
            };
            let b2 = pair2.0;
            let other1 = pair2.1;
            let other2 = Ship {
                points: b2.spec_ship_points(other1)->Some_0 as i32,
                ..other1
            };
            StateView { board: b2, ..s1 }.with_ship(self.current_team.spec_opponent(), other2)
        } else {
            s1
        }
    }

    /// One step of turn progression: the finished ship's credits are reset
    /// and its movement becomes its speed, the turn counter grows, and the
    /// next team is the catch-up leader on even turns and the opponent on odd
    /// ones.
    pub open spec fn spec_turn_step(self) -> StateView {
        let ship = self.spec_current_ship();
        let reset = Ship { free_acc: 1i32, free_turns: 1i32, movement: ship.speed, ..ship };
        let s1 = self.with_ship(self.current_team, reset);
        let new_turn = (self.turn + 1) as nat;
        let next_team = if new_turn % 2 == 0 {
            s1.spec_ahead_team()
        } else {
            self.current_team.spec_opponent()
        };
        StateView { turn: new_turn, current_team: next_team, ..s1 }
    }

    /// Whether the given ship fulfils the winning condition: more than one
    /// passenger, effective speed below two, and a goal field under the keel.
    pub open spec fn spec_is_winner(self, ship: Ship) -> bool {
        &&& ship.passengers > 1
        &&& self.board.spec_effective_speed(ship) < 2
        &&& self.board.spec_get(ship.position) == Some(Field::Goal)
    }

    /// The distance of the two ships in whole segments.
    pub open spec fn spec_ship_segment_distance(self) -> int {
        abs_int(
            self.board.spec_segment_index(self.ship_one.position)->Some_0
                - self.board.spec_segment_index(self.ship_two.position)->Some_0,
        )
    }

    /// Whether some full legal move exists: a sequence of actions that the
    /// move validator accepts (which forces the movement budget to come out
    /// exactly even).
    #[verifier::opaque]
    pub open spec fn has_legal_move(self) -> bool {
        exists|actions: Seq<Action>| (#[trigger] self.move_mid(actions)) is Ok
    }

    /// The conditions that end the game regardless of whether a move is
    /// still possible: a winner on an even turn, a ship left more than three
    /// segments behind, or the round limit.
    pub open spec fn spec_is_over_static(self) -> bool {
        ||| (self.turn % 2 == 0 && (self.spec_is_winner(self.ship_one) || self.spec_is_winner(
            self.ship_two,
        )))
        ||| self.spec_ship_segment_distance() > 3
        ||| self.turn / 2 >= 30
    }
}

/// Repeated skipped turns: each one clears the last move and advances the
/// turn by one step.
pub open spec fn skip_iter(s: StateView, k: nat) -> StateView
    decreases k,
{
    if k == 0 {
        s
    } else {
        skip_iter(StateView { last_move: None, ..s }.spec_turn_step(), (k - 1) as nat)
    }
}

/// After at least one skipped turn, the last move is cleared.
pub proof fn lemma_skip_iter_clears_last_move(s: StateView, k: nat)
    requires
        k >= 1,
    ensures
        skip_iter(s, k).last_move is None,
    decreases k,
{
    let next = StateView { last_move: None, ..s }.spec_turn_step();
    assert(next.last_move is None);
    if k == 1 {
    } else {
        lemma_skip_iter_clears_last_move(next, (k - 1) as nat);
    }
}

/// Every acceleration that the generator offers is bounded by the budget it
/// was generated from.
pub proof fn lemma_accs_bound(speed: int, i: int)
    requires
        i <= 2_000_001,
    ensures
        forall|j: int|
            0 <= j < StateView::spec_accs_prefix(speed, i).len() ==> -i
                <= (#[trigger] StateView::spec_accs_prefix(speed, i)[j]).acc <= i,
    decreases (if i > 0 { i } else { 0 }),
{
    if i > 0 {
        lemma_accs_bound(speed, i - 1);
        let prev = StateView::spec_accs_prefix(speed, i - 1);
        let cur = StateView::spec_accs_prefix(speed, i);
        assert forall|j: int| 0 <= j < cur.len() implies -i <= (#[trigger] cur[j]).acc
            <= i by {
            if j < prev.len() {
                assert(cur[j] == prev[j]);
            } else {
                assert(cur[j].acc == i || cur[j].acc == -i);
            }
        }
    }
}

/// The ship's numbers are far from the integer limits, its speed is within
/// the legal band, and its budgets are of realistic size.
pub open spec fn ship_sane(s: Ship) -> bool {
    &&& fields_within(s, 1_000_000_000)
    &&& 1 <= s.speed <= 6
    &&& s.coal <= 1_000_000
    &&& 0 <= s.free_acc <= 1_000_000
    &&& 0 <= s.free_turns
    &&& s.passengers <= 1_000_000
}

/// A looser numeric band than [`ship_sane`], wide enough to absorb the drift
/// of the actions of one move.
pub open spec fn ship_roomy(s: Ship) -> bool {
    &&& fields_within(s, 1_010_000_000)
    &&& s.coal <= 1_000_001
    &&& 0 <= s.free_acc <= 1_000_000
    &&& 0 <= s.free_turns
    &&& s.passengers <= 1_000_001
}

/// The model of an advance-limit probe: the cumulative movement cost of each
/// reachable cell along the walk, and the reason the walk stopped.
pub struct AdvanceLimitView {
    pub costs: Seq<int>,
    pub problem: AdvanceProblem,
}

/// One walk of the advance-limit probe, starting at `pos` with `total_cost`
/// movement already spent and `costs` already collected: each further cell
/// costs one movement point, the first cell with current costs one more, and
/// the walk stops on a blocked field, on the opposing ship, on a sandbank, or
/// when the movement budget runs out.
#[verifier::opaque]
pub open spec fn adv_step(
    bv: BoardView,
    p0: CubeVec,
    p1: CubeVec,
    pos: CubeVec,
    dir: CubeDir,
    total_cost: int,
    has_current: bool,
    max_movement: int,
    costs: Seq<int>,
) -> AdvanceLimitView
    decreases max_movement - total_cost,
{
    if total_cost >= max_movement {
        AdvanceLimitView {
            costs,
            problem: AdvanceProblem::MovementPointsMissing {
                distance: None,
                movement: max_movement as i32,
            },
        }
    } else {
        let pos2 = pos.spec_plus(spec_dir_vec(dir));
        let tc1 = total_cost + 1;
        if !bv.spec_is_empty_at(pos2) {
            AdvanceLimitView { costs, problem: AdvanceProblem::FieldIsBlocked }
        } else {
            let fresh_current = !has_current && bv.spec_has_current(pos2);
            if fresh_current && !(tc1 < max_movement) {
                AdvanceLimitView {
                    costs,
                    problem: AdvanceProblem::MovementPointsMissing {
                        distance: None,
                        movement: max_movement as i32,
                    },
                }
            } else {
                let tc2 = if fresh_current {
                    tc1 + 1
                } else {
                    tc1
                };
                let hc2 = has_current || fresh_current;
                if pos2 == p0 || pos2 == p1 {
                    if tc2 < max_movement {
                        AdvanceLimitView {
                            costs: costs.push(tc2),
                            problem: AdvanceProblem::ShipAlreadyInTarget,
                        }
                    } else {
                        AdvanceLimitView { costs, problem: AdvanceProblem::InsufficientPush }
                    }
                } else if bv.spec_get(pos2) == Some(Field::Sandbank) {
                    AdvanceLimitView { costs, problem: AdvanceProblem::MoveEndOnSandbank }
                } else {
                    adv_step(bv, p0, p1, pos2, dir, tc2, hc2, max_movement, costs.push(tc2))
                }
            }
        }
    }
}

/// The advance-limit probe from a standing start: movement budgets are
/// clamped to the `0..=6` band before the walk.
pub open spec fn spec_advance_limit(
    bv: BoardView,
    p0: CubeVec,
    p1: CubeVec,
    start: CubeVec,
    dir: CubeDir,
    max_movement: int,
) -> AdvanceLimitView {
    let mm = if max_movement < 0 {
        0
    } else if max_movement > 6 {
        6
    } else {
        max_movement
    };
    adv_step(bv, p0, p1, start, dir, 0, false, mm, Seq::empty())
}

/// Scaling a direction's unit vector one step further adds the unit vector
/// once more.
pub proof fn lemma_dir_scaled_step(d: CubeDir, k: int)
    requires
        0 <= k <= 1000,
    ensures
        spec_dir_vec(d).spec_scaled(k + 1) == spec_dir_vec(d).spec_scaled(k).spec_plus(
            spec_dir_vec(d),
        ),
        spec_dir_vec(d).spec_scaled(k).small(1001),
        spec_dir_vec(d).spec_scaled(k + 1).small(1002),
{
    let v = spec_dir_vec(d);
    assert(v.q * (k + 1) == v.q * k + v.q && v.r * (k + 1) == v.r * k + v.r && v.s * (k + 1)
        == v.s * k + v.s) by (nonlinear_arith);
    assert(-1 <= v.q <= 1 && -1 <= v.r <= 1 && -1 <= v.s <= 1);
    assert(-1001 <= v.q * k <= 1001 && -1001 <= v.r * k <= 1001 && -1001 <= v.s * k <= 1001)
        by (nonlinear_arith)
        requires
            -1 <= v.q <= 1 && -1 <= v.r <= 1 && -1 <= v.s <= 1 && 0 <= k <= 1000,
    ;
}

/// Every cell that the advance-limit walk collects a cost for is an empty
/// field of the board, and the collected costs extend the ones passed in and
/// stay within the movement budget.
#[verifier::rlimit(100)]
#[verifier::spinoff_prover]
pub proof fn lemma_adv_cells(
    bv: BoardView,
    p0: CubeVec,
    p1: CubeVec,
    pos: CubeVec,
    dir: CubeDir,
    total_cost: int,
    has_current: bool,
    max_movement: int,
    costs: Seq<int>,
)
    requires
        bv.wf(),
        pos.wf(),
        pos.small(50_000_000),
        0 <= max_movement <= 6,
        0 <= total_cost,
        costs.len() <= total_cost,
    ensures
        ({
            let r = adv_step(bv, p0, p1, pos, dir, total_cost, has_current, max_movement, costs);
            &&& r.costs.len() >= costs.len()
            &&& r.costs.take(costs.len() as int) == costs
            &&& r.costs.len() <= costs.len() + (if max_movement - total_cost >= 0 {
                max_movement - total_cost
            } else {
                0
            })
            &&& forall|j: int|
                costs.len() <= j < r.costs.len() ==> {
                    let cell = pos.spec_plus(
                        spec_dir_vec(dir).spec_scaled(j + 1 - costs.len()),
                    );
                    &&& 0 <= #[trigger] r.costs[j] <= max_movement
                    &&& bv.spec_is_empty_at(cell)
                    &&& cell.wf()
                    &&& cell.small(1_000_007)
                }
        }),
    decreases max_movement - total_cost,
{
    reveal_with_fuel(adv_step, 1);
    let r = adv_step(bv, p0, p1, pos, dir, total_cost, has_current, max_movement, costs);
    if total_cost >= max_movement {
        assert(r.costs.take(costs.len() as int) =~= costs);
    } else {
        let pos2 = pos.spec_plus(spec_dir_vec(dir));
        let tc1 = total_cost + 1;
        if !bv.spec_is_empty_at(pos2) {
            assert(r.costs.take(costs.len() as int) =~= costs);
        } else {
            crate::board::lemma_on_board_small(bv, pos2, 0);
            assert(pos2.wf());
            let fresh_current = !has_current && bv.spec_has_current(pos2);
            if fresh_current && !(tc1 < max_movement) {
                assert(r.costs.take(costs.len() as int) =~= costs);
            } else {
                let tc2 = if fresh_current {
                    tc1 + 1
                } else {
                    tc1
                };
                let hc2 = has_current || fresh_current;
                lemma_dir_scaled_step(dir, 0);
                assert(pos.spec_plus(spec_dir_vec(dir).spec_scaled(1)) == pos2);
                if pos2 == p0 || pos2 == p1 {
                    if tc2 < max_movement {
                        assert(r.costs.take(costs.len() as int) =~= costs);
                        assert forall|j: int| costs.len() <= j < r.costs.len() implies {
                            let cell = pos.spec_plus(
                                spec_dir_vec(dir).spec_scaled(j + 1 - costs.len()),
                            );
                            &&& 0 <= #[trigger] r.costs[j] <= max_movement
                            &&& bv.spec_is_empty_at(cell)
                            &&& cell.wf()
                            &&& cell.small(1_000_007)
                        } by {
                            assert(j == costs.len());
                        }
                    } else {
                        assert(r.costs.take(costs.len() as int) =~= costs);
                    }
                } else if bv.spec_get(pos2) == Some(Field::Sandbank) {
                    assert(r.costs.take(costs.len() as int) =~= costs);
                } else {
                    lemma_adv_cells(
                        bv,
                        p0,
                        p1,
                        pos2,
                        dir,
                        tc2,
                        hc2,
                        max_movement,
                        costs.push(tc2),
                    );
                    let r2 = adv_step(
                        bv,
                        p0,
                        p1,
                        pos2,
                        dir,
                        tc2,
                        hc2,
                        max_movement,
                        costs.push(tc2),
                    );
                    assert(r == r2);
                    assert(r.costs.take(costs.len() as int) =~= costs) by {
                        assert(r.costs.take(costs.len() as int + 1) == costs.push(tc2));
                        assert(forall|j: int|
                            0 <= j < costs.len() ==> r.costs[j] == costs.push(tc2)[j]);
                    }
                    assert forall|j: int| costs.len() <= j < r.costs.len() implies {
                        let cell = pos.spec_plus(
                            spec_dir_vec(dir).spec_scaled(j + 1 - costs.len()),
                        );
                        &&& 0 <= #[trigger] r.costs[j] <= max_movement
                        &&& bv.spec_is_empty_at(cell)
                        &&& cell.wf()
                        &&& cell.small(1_000_007)
                    } by {
                        if j == costs.len() {
                            assert(r.costs[j] == costs.push(tc2)[j]);
                            assert(r.costs[j] == tc2);
                        } else {
                            assert(r2.costs[j] <= max_movement);
                            let k = j - costs.len();
                            lemma_dir_scaled_step(dir, k);
                            assert(pos2.spec_plus(spec_dir_vec(dir).spec_scaled(k))
                                == pos.spec_plus(spec_dir_vec(dir).spec_scaled(k + 1)));
                        }
                    }
                }
            }
        }
    }
}

/// Unfoldings of one step of the advance-limit walk, one lemma per way the
/// walk can stop or continue.
pub proof fn lemma_step_done(
    bv: BoardView,
    p0: CubeVec,
    p1: CubeVec,
    pos: CubeVec,
    dir: CubeDir,
    total_cost: int,
    has_current: bool,
    max_movement: int,
    costs: Seq<int>,
)
    requires
        total_cost >= max_movement,
    ensures
        adv_step(bv, p0, p1, pos, dir, total_cost, has_current, max_movement, costs)
            == (AdvanceLimitView {
            costs,
            problem: AdvanceProblem::MovementPointsMissing {
                distance: None,
                movement: max_movement as i32,
            },
        }),
{
    reveal_with_fuel(adv_step, 1);
}

/// The walk stops one cell ahead on a non-empty field.
pub proof fn lemma_step_blocked(
    bv: BoardView,
    p0: CubeVec,
    p1: CubeVec,
    pos: CubeVec,
    dir: CubeDir,
    total_cost: int,
    has_current: bool,
    max_movement: int,
    costs: Seq<int>,
)
    requires
        total_cost < max_movement,
        !bv.spec_is_empty_at(pos.spec_plus(spec_dir_vec(dir))),
    ensures
        adv_step(bv, p0, p1, pos, dir, total_cost, has_current, max_movement, costs)
            == (AdvanceLimitView { costs, problem: AdvanceProblem::FieldIsBlocked }),
{
    reveal_with_fuel(adv_step, 1);
}

/// The walk stops when the first current cell costs the last movement point.
pub proof fn lemma_step_current_exhausted(
    bv: BoardView,
    p0: CubeVec,
    p1: CubeVec,
    pos: CubeVec,
    dir: CubeDir,
    total_cost: int,
    has_current: bool,
    max_movement: int,
    costs: Seq<int>,
)
    requires
        total_cost < max_movement,
        bv.spec_is_empty_at(pos.spec_plus(spec_dir_vec(dir))),
        !has_current,
        bv.spec_has_current(pos.spec_plus(spec_dir_vec(dir))),
        !(total_cost + 1 < max_movement),
    ensures
        adv_step(bv, p0, p1, pos, dir, total_cost, has_current, max_movement, costs)
            == (AdvanceLimitView {
            costs,
            problem: AdvanceProblem::MovementPointsMissing {
                distance: None,
                movement: max_movement as i32,
            },
        }),
{
    reveal_with_fuel(adv_step, 1);
}

/// The walk meets a ship one cell ahead: a push is possible when movement
/// remains, otherwise the movement does not suffice.
pub proof fn lemma_step_ship(
    bv: BoardView,
    p0: CubeVec,
    p1: CubeVec,
    pos: CubeVec,
    dir: CubeDir,
    total_cost: int,
    has_current: bool,
    max_movement: int,
    costs: Seq<int>,
    tc2: int,
)
    requires
        total_cost < max_movement,
        bv.spec_is_empty_at(pos.spec_plus(spec_dir_vec(dir))),
        ({
            let fresh = !has_current && bv.spec_has_current(pos.spec_plus(spec_dir_vec(dir)));
            &&& !(fresh && !(total_cost + 1 < max_movement))
            &&& tc2 == if fresh {
                total_cost + 2
            } else {
                total_cost + 1
            }
        }),
        pos.spec_plus(spec_dir_vec(dir)) == p0 || pos.spec_plus(spec_dir_vec(dir)) == p1,
    ensures
        adv_step(bv, p0, p1, pos, dir, total_cost, has_current, max_movement, costs) == (if tc2
            < max_movement {
            AdvanceLimitView {
                costs: costs.push(tc2),
                problem: AdvanceProblem::ShipAlreadyInTarget,
            }
        } else {
            AdvanceLimitView { costs, problem: AdvanceProblem::InsufficientPush }
        }),
{
    reveal_with_fuel(adv_step, 1);
}

/// The walk stops on a sandbank.
pub proof fn lemma_step_sandbank(
    bv: BoardView,
    p0: CubeVec,
    p1: CubeVec,
    pos: CubeVec,
    dir: CubeDir,
    total_cost: int,
    has_current: bool,
    max_movement: int,
    costs: Seq<int>,
)
    requires
        total_cost < max_movement,
        bv.spec_is_empty_at(pos.spec_plus(spec_dir_vec(dir))),
        ({
            let fresh = !has_current && bv.spec_has_current(pos.spec_plus(spec_dir_vec(dir)));
            !(fresh && !(total_cost + 1 < max_movement))
        }),
        pos.spec_plus(spec_dir_vec(dir)) != p0 && pos.spec_plus(spec_dir_vec(dir)) != p1,
        bv.spec_get(pos.spec_plus(spec_dir_vec(dir))) == Some(Field::Sandbank),
    ensures
        adv_step(bv, p0, p1, pos, dir, total_cost, has_current, max_movement, costs)
            == (AdvanceLimitView { costs, problem: AdvanceProblem::MoveEndOnSandbank }),
{
    reveal_with_fuel(adv_step, 1);
}

/// The walk continues past an empty, unoccupied, sandbank-free cell.
pub proof fn lemma_step_continue(
    bv: BoardView,
    p0: CubeVec,
    p1: CubeVec,
    pos: CubeVec,
    dir: CubeDir,
    total_cost: int,
    has_current: bool,
    max_movement: int,
    costs: Seq<int>,
    tc2: int,
    hc2: bool,
)
    requires
        total_cost < max_movement,
        bv.spec_is_empty_at(pos.spec_plus(spec_dir_vec(dir))),
        ({
            let fresh = !has_current && bv.spec_has_current(pos.spec_plus(spec_dir_vec(dir)));
            &&& !(fresh && !(total_cost + 1 < max_movement))
            &&& tc2 == if fresh {
                total_cost + 2
            } else {
                total_cost + 1
            }
            &&& hc2 == (has_current || fresh)
        }),
        pos.spec_plus(spec_dir_vec(dir)) != p0 && pos.spec_plus(spec_dir_vec(dir)) != p1,
        bv.spec_get(pos.spec_plus(spec_dir_vec(dir))) != Some(Field::Sandbank),
    ensures
        adv_step(bv, p0, p1, pos, dir, total_cost, has_current, max_movement, costs) == adv_step(
            bv,
            p0,
            p1,
            pos.spec_plus(spec_dir_vec(dir)),
            dir,
            tc2,
            hc2,
            max_movement,
            costs.push(tc2),
        ),
{
    reveal_with_fuel(adv_step, 1);
}

/// The unit vector of the opposite direction, scaled by `k`, is the unit
/// vector of the direction scaled by `-k`.
pub proof fn lemma_opposite_scaled(d: CubeDir, k: int)
    requires
        0 <= k <= 1000,
    ensures
        spec_dir_vec(d.spec_rotated_by(3)).spec_scaled(k) == spec_dir_vec(d).spec_scaled(-k),
{
    let u = spec_dir_vec(d);
    let v = spec_dir_vec(d.spec_rotated_by(3));
    assert(v.q == -u.q && v.r == -u.r && v.s == -u.s);
    assert((-u.q) * k == u.q * (-k) && (-u.r) * k == u.r * (-k) && (-u.s) * k == u.s * (-k))
        by (nonlinear_arith);
    assert(-1000 <= u.q * (-k) <= 1000 && -1000 <= u.r * (-k) <= 1000 && -1000 <= u.s * (-k)
        <= 1000) by (nonlinear_arith)
        requires
            -1 <= u.q <= 1 && -1 <= u.r <= 1 && -1 <= u.s <= 1 && 0 <= k <= 1000,
    ;
}

/// A successful non-acceleration action moves every ship number by at most
/// six and keeps the credits non-negative.
#[verifier::rlimit(100)]
#[verifier::spinoff_prover]
pub proof fn lemma_outcome_bounds_small(pre: StateView, a: Action, bound: int)
    requires
        pre.wf(),
        pre.action_outcome(a) is Ok,
        !(a is Accelerate),
        1000 <= bound <= 1_900_000_000,
        fields_within(pre.ship_one, bound),
        fields_within(pre.ship_two, bound),
        0 <= pre.ship_one.free_acc <= 1_000_000,
        0 <= pre.ship_two.free_acc <= 1_000_000,
        0 <= pre.ship_one.free_turns,
        0 <= pre.ship_two.free_turns,
        pre.ship_one.coal <= 1_000_001,
        pre.ship_two.coal <= 1_000_001,
        pre.ship_one.passengers <= 1_000_001,
        pre.ship_two.passengers <= 1_000_001,
    ensures
        ({
            let post = pre.action_outcome(a)->Ok_0;
            &&& fields_within(post.ship_one, bound + 6)
            &&& fields_within(post.ship_two, bound + 6)
            &&& 0 <= post.ship_one.free_acc <= 1_000_000
            &&& 0 <= post.ship_two.free_acc <= 1_000_000
            &&& 0 <= post.ship_one.free_turns
            &&& 0 <= post.ship_two.free_turns
            &&& post.ship_one.coal <= 1_000_001
            &&& post.ship_two.coal <= 1_000_001
            &&& post.ship_one.passengers <= 1_000_001
            &&& post.ship_two.passengers <= 1_000_001
            &&& post.turn == pre.turn
            &&& post.current_team == pre.current_team
            &&& post.last_move == pre.last_move
        }),
{
    let post = pre.action_outcome(a)->Ok_0;
    match a {
        Action::Advance(x) => {
            crate::board::lemma_on_board_small(
                pre.board,
                pre.spec_current_ship().position,
                0,
            );
            let limit = spec_advance_limit(
                pre.board,
                pre.ship_one.position,
                pre.ship_two.position,
                pre.spec_current_ship().position,
                if x.distance < 0 {
                    pre.spec_current_ship().direction.spec_rotated_by(3)
                } else {
                    pre.spec_current_ship().direction
                },
                pre.spec_current_ship().movement as int,
            );
            let mm = if pre.spec_current_ship().movement < 0 {
                0int
            } else if pre.spec_current_ship().movement > 6 {
                6int
            } else {
                pre.spec_current_ship().movement as int
            };
            lemma_adv_cells(
                pre.board,
                pre.ship_one.position,
                pre.ship_two.position,
                pre.spec_current_ship().position,
                if x.distance < 0 {
                    pre.spec_current_ship().direction.spec_rotated_by(3)
                } else {
                    pre.spec_current_ship().direction
                },
                0,
                false,
                mm,
                Seq::empty(),
            );
        },
        _ => {},
    }
}

/// A successful opening acceleration moves every ship number by at most the
/// bounded amount, and keeps the credits non-negative.
#[verifier::rlimit(100)]
#[verifier::spinoff_prover]
pub proof fn lemma_outcome_bounds_acc(pre: StateView, a: Action, bound: int)
    requires
        pre.wf(),
        pre.action_outcome(a) is Ok,
        a is Accelerate,
        a.bounded(),
        1000 <= bound <= 1_000_000_000,
        fields_within(pre.ship_one, bound),
        fields_within(pre.ship_two, bound),
        0 <= pre.ship_one.free_acc <= 1_000_000,
        0 <= pre.ship_two.free_acc <= 1_000_000,
        0 <= pre.ship_one.free_turns,
        0 <= pre.ship_two.free_turns,
        pre.ship_one.coal <= 1_000_001,
        pre.ship_two.coal <= 1_000_001,
        pre.ship_one.passengers <= 1_000_001,
        pre.ship_two.passengers <= 1_000_001,
    ensures
        ({
            let post = pre.action_outcome(a)->Ok_0;
            &&& fields_within(post.ship_one, bound + 1_000_006)
            &&& fields_within(post.ship_two, bound + 1_000_006)
            &&& 0 <= post.ship_one.free_acc <= 1_000_000
            &&& 0 <= post.ship_two.free_acc <= 1_000_000
            &&& 0 <= post.ship_one.free_turns
            &&& 0 <= post.ship_two.free_turns
            &&& post.ship_one.coal <= 1_000_001
            &&& post.ship_two.coal <= 1_000_001
            &&& post.ship_one.passengers <= 1_000_001
            &&& post.ship_two.passengers <= 1_000_001
            &&& post.turn == pre.turn
            &&& post.current_team == pre.current_team
            &&& post.last_move == pre.last_move
        }),
{
}

/// What a successful pickup-candidate search guarantees: the neighbour holds
/// a passenger facing back at the searcher.
pub proof fn lemma_candidate_found(bv: BoardView, coords: CubeVec, k: int)
    requires
        bv.passenger_candidate_from(coords, k) is Some,
        0 <= k,
    ensures
        ({
            let c = bv.passenger_candidate_from(coords, k)->Some_0;
            &&& k <= c.0 < 6
            &&& c.1 == coords.spec_plus(spec_dir_vec(spec_dir_of_turns(c.0)))
            &&& match bv.spec_get(c.1) {
                Some(Field::Passenger { direction: pd, passenger: p }) => p > 0 && pd
                    == spec_dir_of_turns(c.0).spec_rotated_by(3),
                _ => false,
            }
        }),
    decreases 6 - k,
{
    if k >= 6 {
        assert(false);
    } else {
        let nc = coords.spec_plus(spec_dir_vec(spec_dir_of_turns(k)));
        match bv.spec_get(nc) {
            Some(Field::Passenger { direction: pd, passenger: p }) => {
                if p > 0 && pd == spec_dir_of_turns(k).spec_rotated_by(3) {
                } else {
                    lemma_candidate_found(bv, coords, k + 1);
                }
            },
            _ => {
                lemma_candidate_found(bv, coords, k + 1);
            },
        }
    }
}

/// A passenger pickup leaves the board well-formed, keeps the segment layout
/// and which positions resolve to a field, and touches the ship only by
/// raising its passenger count.
pub proof fn lemma_pickup_preserves(bv: BoardView, ship: Ship)
    requires
        bv.wf(),
        ship.passengers <= 2_000_000,
    ensures
        ({
            let pair = StateView::spec_pickup(bv, ship);
            &&& pair.0.wf()
            &&& pair.0.segments.len() == bv.segments.len()
            &&& forall|i: int|
                0 <= i < bv.segments.len() ==> {
                    &&& (#[trigger] pair.0.segments[i]).center == bv.segments[i].center
                    &&& pair.0.segments[i].direction == bv.segments[i].direction
                }
            &&& forall|c: CubeVec| ((#[trigger] pair.0.spec_get(c)) is Some) == (bv.spec_get(
                c,
            ) is Some)
            &&& forall|c: CubeVec| #[trigger] pair.0.spec_segment_index(c)
                == bv.spec_segment_index(c)
            &&& pair.1.position == ship.position
            &&& ship.passengers <= pair.1.passengers <= ship.passengers + 1
            &&& pair.1 == (Ship { passengers: pair.1.passengers, ..ship })
        }),
{
    if bv.spec_effective_speed(ship) < 2 && bv.spec_remove_passenger(ship.position) is Some {
        lemma_candidate_found(bv, ship.position, 0);
        let cand = bv.passenger_candidate_from(ship.position, 0)->Some_0;
        let nc = cand.1;
        let pair = StateView::spec_pickup(bv, ship);
        match bv.spec_get(nc) {
            Some(Field::Passenger { direction: pd, passenger: p }) => {
                let f2 = Field::Passenger { direction: pd, passenger: (p - 1) as usize };
                let bv2 = bv.spec_set_global(nc, f2);
                crate::board::lemma_set_global_preserves(bv, nc, f2);
                assert(pair.0 == bv2);
                assert forall|c: CubeVec| ((#[trigger] pair.0.spec_get(c)) is Some) == (
                bv.spec_get(c) is Some) by {
                    assert((bv2.spec_get(c) is Some) == (bv.spec_get(c) is Some));
                }
                assert forall|c: CubeVec| #[trigger] pair.0.spec_segment_index(c)
                    == bv.spec_segment_index(c) by {
                    assert(bv2.spec_segment_index(c) == bv.spec_segment_index(c));
                }
            },
            _ => {
                assert(false);
            },
        }
    }
}

/// The computed reach of an advancement probe: the cumulative cost of each
/// reachable cell and the obstacle that ended the walk.
#[derive(Debug, Clone, PartialEq, Eq, Hash)]
pub struct AdvanceLimit {
    pub costs: Vec<i32>,
    pub problem: AdvanceProblem,
}

impl View for AdvanceLimit {
    type V = AdvanceLimitView;

    open spec fn view(&self) -> AdvanceLimitView {
        AdvanceLimitView {
            costs: Seq::new(self.costs@.len(), |i: int| self.costs@[i] as int),
            problem: self.problem,
        }
    }
}

impl AdvanceLimit {
    /// The cumulative movement cost of advancing the given number of cells.
    pub fn cost_until(&self, distance: i32) -> (r: i32)
        requires
            1 <= distance <= self@.costs.len(),
        ensures
            r == self@.costs[distance - 1],
    {
        self.costs[(distance - 1) as usize]
    }

    /// How many cells are reachable.
    pub fn distance(&self) -> (r: i32)
        requires
            self@.costs.len() <= 1_000_000,
        ensures
            r == self@.costs.len(),
    {
        self.costs.len() as i32
    }

    /// Every legal advancement up to the reachable distance, in descending
    /// order of distance.
    pub fn advances(&self) -> (r: Vec<Advance>)
        requires
            self@.costs.len() <= 1_000_000,
        ensures
            r@.len() == self@.costs.len(),
            forall|i: int|
                0 <= i < r@.len() ==> (#[trigger] r@[i]).distance == self@.costs.len() - i,
    {
        let n = self.costs.len() as i32;
        let mut out: Vec<Advance> = Vec::new();
        let mut d = n;
        while d >= 1
            invariant
                0 <= d <= n,
                n == self@.costs.len(),
                out@.len() == n - d,
                forall|i: int| 0 <= i < out@.len() ==> (#[trigger] out@[i]).distance == n - i,
            decreases d,
        {
            out.push(Advance { distance: d });
            d = d - 1;
        }
        out
    }
}

/// The state of the game at a point in time.
#[derive(Debug, Clone, PartialEq, Eq)]
pub struct State {
    /// The game board.
    pub board: Board,
    /// The turn of the game.
    pub turn: usize,
    /// The first team's ship.
    pub ship_one: Ship,
    /// The second team's ship.
    pub ship_two: Ship,
    /// The most recent move.
    pub last_move: Option<Move>,
    /// The starting team.
    pub start_team: Team,
    /// The team to make the next move.
    pub current_team: Team,
}

impl View for State {
    type V = StateView;

    open spec fn view(&self) -> StateView {
        StateView {
            board: self.board@,
            turn: self.turn as nat,
            ship_one: self.ship_one,
            ship_two: self.ship_two,
            last_move: match self.last_move {
                Some(m) => Some(m.actions@),
                None => None,
            },
            start_team: self.start_team,
            current_team: self.current_team,
        }
    }
}

impl State {
    /// Structural well-formedness of the state (see [`StateView::wf`]).
    pub open spec fn wf(self) -> bool {
        self@.wf()
    }

    /// The ships' numbers are of workable size (see [`StateView::sane`]).
    pub open spec fn sane(self) -> bool {
        self@.sane()
    }

    /// The ships' numbers fit the looser working band (see
    /// [`StateView::roomy`]).
    pub open spec fn roomy(self) -> bool {
        self@.roomy()
    }

    /// An identical copy of the state.
    pub fn duplicate(&self) -> (r: State)
        ensures
            r@ == self@,
    {
        let last_move = match &self.last_move {
            Some(m) => Some(Move { actions: m.actions.clone() }),
            None => None,
        };
        State {
            board: self.board.duplicate(),
            turn: self.turn,
            ship_one: self.ship_one,
            ship_two: self.ship_two,
            last_move,
            start_team: self.start_team,
            current_team: self.current_team,
        }
    }

    /// Fetches the board.
    pub fn board(&self) -> (r: &Board)
        ensures
            r == &self.board,
    {
        &self.board
    }

    /// Fetches the turn of the game.
    pub fn turn(&self) -> (r: usize)
        ensures
            r == self.turn,
    {
        self.turn
    }

    /// Fetches the most recent move.
    pub fn last_move(&self) -> (r: Option<&Move>)
        ensures
            match r {
                Some(m) => self.last_move == Some(*m),
                None => self.last_move is None,
            },
    {
        self.last_move.as_ref()
    }

    /// Fetches the starting team.
    pub fn start_team(&self) -> (r: Team)
        ensures
            r == self.start_team,
    {
        self.start_team
    }

    /// The next team to make a move.
    pub fn current_team(&self) -> (r: Team)
        ensures
            r == self.current_team,
    {
        self.current_team
    }

    /// The opposing team.
    pub fn other_team(&self) -> (r: Team)
        ensures
            r == self.current_team.spec_opponent(),
    {
        self.current_team.opponent()
    }

    /// The ship for a team.
    pub fn ship(&self, team: Team) -> (r: Ship)
        ensures
            r == self@.spec_ship(team),
    {
        match team {
            Team::One => self.ship_one,
            Team::Two => self.ship_two,
        }
    }

    /// The current team's ship.
    pub fn current_ship(&self) -> (r: Ship)
        ensures
            r == self@.spec_current_ship(),
    {
        self.ship(self.current_team)
    }

    /// The opponent team's ship.
    pub fn other_ship(&self) -> (r: Ship)
        ensures
            r == self@.spec_other_ship(),
    {
        self.ship(self.current_team.opponent())
    }

    /// The ships, in team order.
    pub fn ships(&self) -> (r: Vec<Ship>)
        ensures
            r@.len() == 2,
            r@[0] == self.ship_one,
            r@[1] == self.ship_two,
    {
        let mut v: Vec<Ship> = Vec::new();
        v.push(self.ship_one);
        v.push(self.ship_two);
        v
    }

    /// Replaces the given team's ship.
    fn set_ship(&mut self, team: Team, ship: Ship)
        ensures
            final(self)@ == old(self)@.with_ship(team, ship),
    {
        match team {
            Team::One => {
                self.ship_one = ship;
            },
            Team::Two => {
                self.ship_two = ship;
            },
        }
    }

    /// Determines the team that should go first at the beginning of the round.
    pub fn determine_ahead_team(&self) -> (r: Team)
        ensures
            r == self@.spec_ahead_team(),
    {
        let a = self.ship_one;
        let b = self.ship_two;
        if a.points > b.points || (a.points == b.points && a.speed > b.speed) || (a.points
            == b.points && a.speed == b.speed && a.coal > b.coal) {
            Team::One
        } else {
            Team::Two
        }
    }

    /// Whether the current ship must push.
    pub fn must_push(&self) -> (r: bool)
        ensures
            r == self@.spec_must_push(),
    {
        self.current_ship().position == self.other_ship().position
    }

    /// Applies an acceleration for the current ship (see
    /// [`StateView::accelerate_outcome`]); the state is unchanged on a
    /// rejection.
    pub fn perform_accelerate(&mut self, acc: Accelerate) -> (r: Result<(), AccelerateProblem>)
        requires
            old(self).wf(),
            old(self).roomy(),
            -1_000_000 <= acc.acc <= 1_000_000,
        ensures
            final(self).wf(),
            match r {
                Ok(()) => old(self)@.accelerate_outcome(acc) == Ok::<StateView, AccelerateProblem>(
                    final(self)@,
                ),
                Err(p) => old(self)@.accelerate_outcome(acc) == Err::<StateView, AccelerateProblem>(
                    p,
                ) && final(self)@ == old(self)@,
            },
    {
        if acc.acc == 0 {
            return Err(AccelerateProblem::ZeroAcc);
        }
        let ship = self.current_ship();
        if ship.speed >= 7 {
            return Err(AccelerateProblem::AboveMaxSpeed);
        }
        if ship.speed <= 0 {
            return Err(AccelerateProblem::BelowMinSpeed);
        }
        proof {
            lemma_filtered_index_found(self@.board, ship.position, 0);
            crate::board::lemma_on_board_small(self@.board, ship.position, 0);
        }
        if self.board.is_sandbank_at(ship.position) {
            return Err(AccelerateProblem::InsufficientCoal);
        }
        let mut ship2 = ship;
        ship2.apply_acceleration(acc);
        if ship2.coal < 0 {
            return Err(AccelerateProblem::InsufficientCoal);
        }
        self.set_ship(self.current_team, ship2);
        Ok(())
    }

    /// Applies a turn for the current ship (see [`StateView::turn_outcome`]);
    /// a turn never fails, though it may leave the coal budget negative,
    /// which the caller must check.
    pub fn perform_turn(&mut self, turn: Turn) -> (r: Result<(), TurnProblem>)
        requires
            old(self).wf(),
            old(self).roomy(),
        ensures
            final(self).wf(),
            r is Ok,
            final(self)@ == old(self)@.turn_outcome(turn),
    {
        let ship = self.current_ship();
        let turn_count = ship.direction.turn_count_to(turn.direction);
        let abs_turn_count = if turn_count < 0 {
            -turn_count
        } else {
            turn_count
        };
        let free_turns = ship.free_turns;
        let used_coal = abs_turn_count - free_turns;
        let new_free = if free_turns - abs_turn_count >= 0 {
            free_turns - abs_turn_count
        } else {
            0
        };
        let new_coal = if used_coal > 0 {
            ship.coal - used_coal
        } else {
            ship.coal
        };
        let ship2 = Ship { free_turns: new_free, coal: new_coal, direction: turn.direction, ..ship };
        self.set_ship(self.current_team, ship2);
        Ok(())
    }

    /// Applies a push (see [`StateView::push_outcome`]): the target cell must
    /// be empty; the state is unchanged on a rejection.
    #[verifier::rlimit(100)]
    #[verifier::spinoff_prover]
    pub fn perform_push(&mut self, push: Push) -> (r: Result<(), PushProblem>)
        requires
            old(self).wf(),
            old(self).roomy(),
        ensures
            final(self).wf(),
            match r {
                Ok(()) => old(self)@.push_outcome(push) == Ok::<StateView, PushProblem>(
                    final(self)@,
                ),
                Err(p) => old(self)@.push_outcome(push) == Err::<StateView, PushProblem>(p)
                    && final(self)@ == old(self)@,
            },
    {
        let ship = self.current_ship();
        let other = self.other_ship();
        proof {
            lemma_filtered_index_found(self@.board, ship.position, 0);
            crate::board::lemma_on_board_small(self@.board, ship.position, 0);
        }
        let push_to = ship.position.plus_dir(push.direction);
        if !self.board.is_empty_at(push_to) {
            return Err(PushProblem::BlockedFieldPush);
        }
        proof {
            lemma_filtered_index_found(self@.board, push_to, 0);
        }
        let is_sandbank = self.board.is_sandbank_at(push_to);
        let ship2 = Ship { movement: ship.movement - 1, ..ship };
        let other2 = Ship {
            speed: if is_sandbank { 1 } else { other.speed },
            movement: if is_sandbank { 1 } else { other.movement },
            position: push_to,
            free_turns: other.free_turns + 1,
            ..other
        };
        self.set_ship(self.current_team, ship2);
        self.set_ship(self.current_team.opponent(), other2);
        Ok(())
    }

    /// Checks how far an advancement from `start` in direction `dir` with the
    /// given movement budget can reach (see [`spec_advance_limit`]).
    #[verifier::rlimit(100)]
    pub fn advance_limit_with(&self, start: CubeVec, dir: CubeDir, max_movement: i32) -> (r:
        AdvanceLimit)
        requires
            self.wf(),
            start.wf(),
            start.small(10_000_000),
        ensures
            r@ == spec_advance_limit(
                self@.board,
                self.ship_one.position,
                self.ship_two.position,
                start,
                dir,
                max_movement as int,
            ),
            r@.costs.len() <= 6,
    {
        let ghost bv = self@.board;
        let ghost p0 = self.ship_one.position;
        let ghost p1 = self.ship_two.position;
        let mm: i32 = if max_movement < 0 {
            0
        } else if max_movement > 6 {
            6
        } else {
            max_movement
        };
        let ghost full = spec_advance_limit(bv, p0, p1, start, dir, max_movement as int);
        proof {
            assert(full == spec_advance_limit(
                self@.board,
                self.ship_one.position,
                self.ship_two.position,
                start,
                dir,
                max_movement as int,
            ));
        }
        let mut current_pos = start;
        let mut total_cost: i32 = 0;
        let mut has_current = false;
        let mut costs: Vec<i32> = Vec::new();
        proof {
            assert(Seq::new(costs@.len(), |i: int| costs@[i] as int) =~= Seq::<int>::empty());
            assert(full == adv_step(
                bv,
                p0,
                p1,
                start,
                dir,
                0,
                false,
                mm as int,
                Seq::new(costs@.len(), |i: int| costs@[i] as int),
            ));
        }
        while total_cost < mm
            invariant
                self.wf(),
                bv == self@.board,
                p0 == self.ship_one.position,
                p1 == self.ship_two.position,
                0 <= mm <= 6,
                full == spec_advance_limit(
                    self@.board,
                    self.ship_one.position,
                    self.ship_two.position,
                    start,
                    dir,
                    max_movement as int,
                ),
                0 <= total_cost <= mm,
                current_pos.wf(),
                current_pos.small(10_000_000 + total_cost as int),
                costs@.len() <= total_cost,
                forall|i: int| 0 <= i < costs@.len() ==> #[trigger] costs@[i] <= mm,
                full == adv_step(
                    bv,
                    p0,
                    p1,
                    current_pos,
                    dir,
                    total_cost as int,
                    has_current,
                    mm as int,
                    Seq::new(costs@.len(), |i: int| costs@[i] as int),
                ),
            decreases mm - total_cost,
        {
            let ghost pre_pos = current_pos;
            let ghost pre_total = total_cost as int;
            let ghost pre_hc = has_current;
            let ghost costs_seq = Seq::new(costs@.len(), |i: int| costs@[i] as int);

            current_pos = current_pos.plus_dir(dir);
            total_cost = total_cost + 1;

            if !self.board.is_empty_at(current_pos) {
                let r = AdvanceLimit { costs, problem: AdvanceProblem::FieldIsBlocked };
                proof {
                    lemma_step_blocked(bv, p0, p1, pre_pos, dir, pre_total, pre_hc, mm as int, costs_seq);
                    assert(r@.costs =~= costs_seq);
                }
                return r;
            }
            let ghost fresh_current = !pre_hc && bv.spec_has_current(current_pos);
            if !has_current && self.board.does_field_have_current(current_pos) {
                has_current = true;
                if total_cost < mm {
                    total_cost = total_cost + 1;
                } else {
                    let r = AdvanceLimit {
                        costs,
                        problem: AdvanceProblem::MovementPointsMissing {
                            distance: None,
                            movement: mm,
                        },
                    };
                    proof {
                        lemma_step_current_exhausted(bv, p0, p1, pre_pos, dir, pre_total, pre_hc, mm as int, costs_seq);
                        assert(r@.costs =~= costs_seq);
                    }
                    return r;
                }
            }
            proof {
                crate::board::lemma_on_board_small(bv, current_pos, 0);
            }
            if current_pos == self.ship_one.position || current_pos == self.ship_two.position {
                if total_cost < mm {
                    costs.push(total_cost);
                    let r = AdvanceLimit { costs, problem: AdvanceProblem::ShipAlreadyInTarget };
                    proof {
                        lemma_step_ship(bv, p0, p1, pre_pos, dir, pre_total, pre_hc, mm as int, costs_seq, total_cost as int);
                        assert(r@.costs =~= costs_seq.push(total_cost as int));
                    }
                    return r;
                }
                let r = AdvanceLimit { costs, problem: AdvanceProblem::InsufficientPush };
                proof {
                    lemma_step_ship(bv, p0, p1, pre_pos, dir, pre_total, pre_hc, mm as int, costs_seq, total_cost as int);
                    assert(r@.costs =~= costs_seq);
                }
                return r;
            }
            if self.board.is_sandbank_at(current_pos) {
                let r = AdvanceLimit { costs, problem: AdvanceProblem::MoveEndOnSandbank };
                proof {
                    lemma_step_sandbank(bv, p0, p1, pre_pos, dir, pre_total, pre_hc, mm as int, costs_seq);
                    assert(r@.costs =~= costs_seq);
                }
                return r;
            }
            costs.push(total_cost);
            proof {
                lemma_step_continue(
                    bv,
                    p0,
                    p1,
                    pre_pos,
                    dir,
                    pre_total,
                    pre_hc,
                    mm as int,
                    costs_seq,
                    total_cost as int,
                    has_current,
                );
                assert(Seq::new(costs@.len(), |i: int| costs@[i] as int) =~= costs_seq.push(
                    total_cost as int,
                ));
            }
        }
        let r = AdvanceLimit {
            costs,
            problem: AdvanceProblem::MovementPointsMissing { distance: None, movement: mm },
        };
        proof {
            lemma_step_done(
                bv,
                p0,
                p1,
                current_pos,
                dir,
                total_cost as int,
                has_current,
                mm as int,
                Seq::new(costs@.len(), |i: int| costs@[i] as int),
            );
            assert(r@.costs =~= Seq::new(costs@.len(), |i: int| costs@[i] as int));
        }
        r
    }

    /// Applies an advancement for the current ship (see
    /// [`StateView::advance_outcome`]); the state is unchanged on a
    /// rejection.
    #[verifier::rlimit(100)]
    #[verifier::spinoff_prover]
    pub fn perform_advance(&mut self, adv: Advance) -> (r: Result<(), AdvanceProblem>)
        requires
            old(self).wf(),
            old(self).roomy(),
            -2_000_000_000 <= adv.distance <= 2_000_000_000,
        ensures
            final(self).wf(),
            match r {
                Ok(()) => old(self)@.advance_outcome(adv) == Ok::<StateView, AdvanceProblem>(
                    final(self)@,
                ),
                Err(p) => old(self)@.advance_outcome(adv) == Err::<StateView, AdvanceProblem>(p)
                    && final(self)@ == old(self)@,
            },
    {
        let ship = self.current_ship();
        proof {
            lemma_filtered_index_found(self@.board, ship.position, 0);
            crate::board::lemma_on_board_small(self@.board, ship.position, 0);
        }
        let on_sandbank = self.board.is_sandbank_at(ship.position);
        if adv.distance == 0 || (adv.distance < 1 && !on_sandbank) || adv.distance > 6 {
            return Err(AdvanceProblem::InvalidDistance { distance: adv.distance });
        }
        if adv.distance > ship.movement {
            return Err(
                AdvanceProblem::MovementPointsMissing {
                    distance: Some(adv.distance),
                    movement: ship.movement,
                },
            );
        }
        let walk_dir = ship.direction.opposite_if(adv.distance < 0);
        let limit = self.advance_limit_with(ship.position, walk_dir, ship.movement);
        let mag = if adv.distance < 0 {
            -adv.distance
        } else {
            adv.distance
        };
        if limit.distance() < mag {
            return Err(limit.problem);
        }
        let cost = limit.cost_until(mag);
        let ghost mmc: int = if ship.movement < 0 {
            0
        } else if ship.movement > 6 {
            6
        } else {
            ship.movement as int
        };
        proof {
            lemma_adv_cells(
                self@.board,
                self.ship_one.position,
                self.ship_two.position,
                ship.position,
                walk_dir,
                0,
                false,
                mmc,
                Seq::empty(),
            );
            assert(0 <= limit@.costs[mag - 1] <= 6);
            if adv.distance < 0 {
                lemma_opposite_scaled(ship.direction, mag as int);
            }
            assert(spec_dir_vec(ship.direction).spec_scaled(adv.distance as int)
                == spec_dir_vec(walk_dir).spec_scaled(mag as int));
        }
        let delta = CubeVec::from_dir(ship.direction).scaled(adv.distance);
        let new_pos = ship.position.plus(delta);
        let ship2 = Ship { position: new_pos, movement: ship.movement - cost, ..ship };
        proof {
            assert(new_pos == ship.position.spec_plus(
                spec_dir_vec(walk_dir).spec_scaled(mag as int),
            ));
            assert(self@.board.spec_is_empty_at(new_pos));
        }
        self.set_ship(self.current_team, ship2);
        Ok(())
    }





    /// Fetches the possible turn actions for the current player consuming
    /// at most the specified number of coal units.
    pub fn possible_turns_with(&self, max_coal: i32) -> (r: Vec<Turn>)
        requires
            self.wf(),
            self.sane(),
            -1_000_000_000 <= max_coal <= 1_000_000_000,
        ensures
            r@ == self@.spec_possible_turns(max_coal as int),
    {
        let ship = self.current_ship();
        proof {
            lemma_filtered_index_found(self@.board, ship.position, 0);
            crate::board::lemma_on_board_small(self@.board, ship.position, 0);
        }
        let mut out: Vec<Turn> = Vec::new();
        if self.must_push() || self.board.is_sandbank_at(ship.position) {
            proof {
                assert(out@ =~= self@.spec_possible_turns(max_coal as int));
            }
            return out;
        }
        let free = ship.free_turns;
        let mtc0: i64 = max_coal as i64 + free as i64;
        let mtc: i32 = if mtc0 > 3 {
            3
        } else if mtc0 < -3 {
            -3
        } else {
            mtc0 as i32
        };
        if mtc >= 1 {
            out.push(Turn::new(ship.direction.rotated_by(1)));
            out.push(Turn::new(ship.direction.rotated_by(-1)));
        }
        if mtc >= 2 {
            out.push(Turn::new(ship.direction.rotated_by(2)));
            out.push(Turn::new(ship.direction.rotated_by(-2)));
        }
        if mtc >= 3 {
            out.push(Turn::new(ship.direction.rotated_by(3)));
        }
        proof {
            assert(out@ =~= self@.spec_possible_turns(max_coal as int));
        }
        out
    }

    /// Fetches the possible turn actions for the current player.
    pub fn possible_turns(&self) -> (r: Vec<Turn>)
        requires
            self.wf(),
            self.sane(),
        ensures
            r@ == self@.spec_possible_turns(self@.spec_current_ship().coal as int),
    {
        self.possible_turns_with(self.current_ship().coal)
    }





    /// Fetches the possible push actions at the given position with the given
    /// incoming direction.
    pub fn possible_pushes_at(&self, position: CubeVec, incoming_dir: CubeDir) -> (r: Vec<Push>)
        requires
            self.wf(),
            position.wf(),
            position.small(10_000_000),
        ensures
            r@ == self@.spec_possible_pushes_at(position, incoming_dir),
    {
        let dirs = CubeDir::all();
        let reverse = incoming_dir.negated();
        let mut out: Vec<Push> = Vec::new();
        let mut d: usize = 0;
        while d < 6
            invariant
                0 <= d <= 6,
                dirs@.len() == 6,
                forall|j: int| 0 <= j < 6 ==> dirs@[j] == spec_dir_of_turns(j),
                reverse == incoming_dir.spec_rotated_by(3),
                self.wf(),
                position.wf(),
                position.small(10_000_000),
                out@ == self@.spec_pushes_prefix(position, incoming_dir, d as int),
            decreases 6 - d,
        {
            let dir = dirs[d];
            if dir != reverse {
                if self.board.is_empty_at(position.plus_dir(dir)) {
                    out.push(Push::new(dir));
                }
            }
            d = d + 1;
        }
        out
    }

    /// Fetches the possible push actions for the current player: only when a
    /// push is owed, not from a sandbank, and only with movement left.
    pub fn possible_pushes(&self) -> (r: Vec<Push>)
        requires
            self.wf(),
            self.sane(),
        ensures
            r@ == ({
                let ship = self@.spec_current_ship();
                if !self@.spec_must_push() || self@.board.spec_is_sandbank_at(ship.position)
                    || ship.movement < 1 {
                    Seq::<Push>::empty()
                } else {
                    self@.spec_possible_pushes_at(ship.position, ship.direction)
                }
            }),
    {
        let ship = self.current_ship();
        proof {
            lemma_filtered_index_found(self@.board, ship.position, 0);
            crate::board::lemma_on_board_small(self@.board, ship.position, 0);
        }
        if !self.must_push() || self.board.is_sandbank_at(ship.position) || ship.movement < 1 {
            return Vec::new();
        }
        self.possible_pushes_at(ship.position, ship.direction)
    }





    /// Fetches the possible accelerations for the current player with the
    /// given amount of coal.
    pub fn possible_accelerations_with(&self, max_coal: i32) -> (r: Vec<Accelerate>)
        requires
            self.wf(),
            self.sane(),
            -1_000_000_000 <= max_coal <= 1_000_000,
        ensures
            r@ == self@.spec_possible_accelerations(max_coal as int),
    {
        let mut out: Vec<Accelerate> = Vec::new();
        if self.must_push() {
            proof {
                assert(out@ =~= self@.spec_possible_accelerations(max_coal as int));
            }
            return out;
        }
        let ship = self.current_ship();
        let bound = max_coal + ship.free_acc;
        let mut i: i32 = 1;
        while i <= bound
            invariant
                1 <= i,
                bound <= 2_000_000,
                i <= bound + 1 || i == 1,
                ship == self@.spec_current_ship(),
                out@ == StateView::spec_accs_prefix(ship.speed as int, i - 1),
                -1_000_000_000 <= ship.speed <= 1_000_000_000,
            decreases bound + 1 - i,
        {
            if 6 >= ship.speed + i {
                out.push(Accelerate::new(i));
            }
            if 1 <= ship.speed - i {
                out.push(Accelerate::new(-i));
            }
            proof {
                assert(out@ =~= StateView::spec_accs_prefix(ship.speed as int, i as int));
            }
            i = i + 1;
        }
        proof {
            if bound < 1 {
                assert(out@ =~= StateView::spec_accs_prefix(ship.speed as int, bound as int));
            }
            assert(out@ =~= self@.spec_possible_accelerations(max_coal as int));
        }
        out
    }

    /// Fetches the possible accelerations for the current player.
    pub fn possible_accelerations(&self) -> (r: Vec<Accelerate>)
        requires
            self.wf(),
            self.sane(),
        ensures
            r@ == self@.spec_possible_accelerations(self@.spec_current_ship().coal as int),
    {
        self.possible_accelerations_with(self.current_ship().coal)
    }





    /// Fetches the possible advance actions for the given ship.
    pub fn possible_advances_for(&self, ship: Ship) -> (r: Vec<Advance>)
        requires
            self.wf(),
            ship.position.wf(),
            ship.position.small(10_000_000),
        ensures
            r@ == self@.spec_possible_advances_for(ship),
            forall|j: int| 0 <= j < r@.len() ==> -1 <= (#[trigger] r@[j]).distance <= 6,
    {
        if self.board.is_sandbank_at(ship.position) {
            let back = self.advance_limit_with(ship.position, ship.direction.negated(), 1);
            let fwd = self.advance_limit_with(ship.position, ship.direction, 1);
            let mut out: Vec<Advance> = Vec::new();
            if back.distance() >= 1 {
                out.push(Advance::new(-1));
            }
            if fwd.distance() >= 1 {
                out.push(Advance::new(1));
            }
            proof {
                assert(out@ =~= self@.spec_possible_advances_for(ship));
            }
            return out;
        }
        let limit = self.advance_limit_with(ship.position, ship.direction, ship.movement);
        let r = limit.advances();
        proof {
            assert(r@ =~= self@.spec_possible_advances_for(ship));
        }
        r
    }

    /// Fetches the possible advance actions for the current player: none
    /// without movement or while a push is owed.
    pub fn possible_advances(&self) -> (r: Vec<Advance>)
        requires
            self.wf(),
            self.sane(),
        ensures
            r@ == ({
                let ship = self@.spec_current_ship();
                if ship.movement < 1 || self@.spec_must_push() {
                    Seq::<Advance>::empty()
                } else {
                    self@.spec_possible_advances_for(ship)
                }
            }),
            forall|j: int| 0 <= j < r@.len() ==> -1 <= (#[trigger] r@[j]).distance <= 6,
    {
        let ship = self.current_ship();
        if ship.movement < 1 || self.must_push() {
            return Vec::new();
        }
        proof {
            lemma_filtered_index_found(self@.board, ship.position, 0);
            crate::board::lemma_on_board_small(self@.board, ship.position, 0);
        }
        self.possible_advances_for(ship)
    }

    /// Whether there is a push action among the actions.
    pub open spec fn spec_has_push(s: Seq<Action>) -> bool {
        exists|i: int| 0 <= i < s.len() && (#[trigger] s[i]) is Push
    }

    /// The shape of a simple move: an optional acceleration, an optional
    /// turn, exactly one advancement, and an optional push, in that order.
    pub open spec fn is_simple_shape(s: Seq<Action>) -> bool {
        ||| (s.len() == 1 && s[0] is Advance)
        ||| (s.len() == 2 && s[0] is Accelerate && s[1] is Advance)
        ||| (s.len() == 2 && s[0] is Turn && s[1] is Advance)
        ||| (s.len() == 2 && s[0] is Advance && s[1] is Push)
        ||| (s.len() == 3 && s[0] is Accelerate && s[1] is Turn && s[2] is Advance)
        ||| (s.len() == 3 && s[0] is Accelerate && s[1] is Advance && s[2] is Push)
        ||| (s.len() == 3 && s[0] is Turn && s[1] is Advance && s[2] is Push)
        ||| (s.len() == 4 && s[0] is Accelerate && s[1] is Turn && s[2] is Advance && s[3]
            is Push)
    }

    /// Applies a single action (see [`StateView::action_outcome`]); the
    /// state is unchanged on a rejection.
    pub fn perform_action(&mut self, action: Action) -> (r: Result<(), ActionProblem>)
        requires
            old(self).wf(),
            old(self).roomy(),
            action.bounded() || action is Advance,
            (action is Advance ==> -2_000_000_000 <= action->Advance_0.distance
                <= 2_000_000_000),
        ensures
            final(self).wf(),
            match r {
                Ok(()) => old(self)@.action_outcome(action) == Ok::<StateView, ActionProblem>(
                    final(self)@,
                ),
                Err(p) => old(self)@.action_outcome(action) == Err::<StateView, ActionProblem>(p)
                    && final(self)@ == old(self)@,
            },
    {
        match action {
            Action::Accelerate(x) => match self.perform_accelerate(x) {
                Ok(()) => Ok(()),
                Err(p) => Err(ActionProblem::Accelerate(p)),
            },
            Action::Advance(x) => match self.perform_advance(x) {
                Ok(()) => Ok(()),
                Err(p) => Err(ActionProblem::Advance(p)),
            },
            Action::Push(x) => match self.perform_push(x) {
                Ok(()) => Ok(()),
                Err(p) => Err(ActionProblem::Push(p)),
            },
            Action::Turn(x) => match self.perform_turn(x) {
                Ok(()) => Ok(()),
                Err(p) => Err(ActionProblem::Turn(p)),
            },
        }
    }

    /// Whether the given ship is a winner.
    pub fn is_winner(&self, ship: Ship) -> (r: bool)
        requires
            self.wf(),
            ship.position.small(10_000_000),
            -2_000_000_000 <= ship.speed <= 2_000_000_000,
        ensures
            r == self@.spec_is_winner(ship),
    {
        if ship.passengers > 1 && self.board.effective_speed(ship) < 2 {
            match self.board.get(ship.position) {
                Some(Field::Goal) => true,
                _ => false,
            }
        } else {
            false
        }
    }

    /// Whether the game is over: a winner on an even turn, a ship left more
    /// than three segments behind, the round limit, or nobody able to move
    /// after a skipped turn.
    pub fn is_over(&self) -> (r: bool)
        requires
            self.wf(),
            fields_within(self.ship_one, 1_010_000_000),
            fields_within(self.ship_two, 1_010_000_000),
        ensures
            self@.spec_is_over_static() ==> r,
            r ==> self@.spec_is_over_static() || self@.last_move is None,
            !r && self@.last_move is None ==> self@.has_legal_move(),
    {
        proof {
            lemma_filtered_index_found(self@.board, self.ship_one.position, 0);
            lemma_filtered_index_found(self@.board, self.ship_two.position, 0);
            crate::board::lemma_on_board_small(self@.board, self.ship_one.position, 0);
            crate::board::lemma_on_board_small(self@.board, self.ship_two.position, 0);
            crate::board::lemma_filtered_index_implies_index(self@.board, self.ship_one.position, 0);
            crate::board::lemma_filtered_index_implies_index(self@.board, self.ship_two.position, 0);
        }
        if self.turn % 2 == 0 && (self.is_winner(self.ship_one) || self.is_winner(self.ship_two)) {
            return true;
        }
        if self.board.segment_distance(self.ship_one.position, self.ship_two.position) > 3 {
            return true;
        }
        if self.turn / 2 >= crate::constants::ROUND_LIMIT {
            return true;
        }
        if self.last_move.is_none() {
            if !self.can_move() {
                return true;
            }
        }
        false
    }

    /// Whether the player can move: the enumeration is asked for one legal
    /// move. A positive answer guarantees a legal move exists; a negative one
    /// reports that the enumeration found none.
    pub fn can_move(&self) -> (r: bool)
        ensures
            r ==> self@.has_legal_move(),
    {
        let mut it = self.possible_moves();
        let first = it.next();
        proof {
            reveal(StateView::has_legal_move);
            if first is Some {
                assert(self@.move_mid(first->Some_0.actions@) is Ok);
            }
        }
        first.is_some()
    }

    /// Fetches the possible moves, as a lazily expanded enumeration seeded
    /// with this state and the empty move.
    pub fn possible_moves(&self) -> (r: MoveIterator)
        ensures
            r.root@ == self@,
            r.queue@.len() == 1,
            r.queue@[0].0@ == self@,
            r.queue@[0].1.actions@.len() == 0,
    {
        MoveIterator::new(self.duplicate())
    }

    /// Decides exactly whether the state is structurally well-formed, its
    /// numbers are of workable size, and the turn counter is in range.
    pub fn validate(&self) -> (r: bool)
        ensures
            r == (self.wf() && self.sane() && self.turn <= 1_000_000),
    {
        if self.turn > 1_000_000 {
            return false;
        }
        if !(self.ship_one.team == Team::One && self.ship_two.team == Team::Two) {
            return false;
        }
        let n = self.board.segments.len();
        if n > 100 {
            return false;
        }
        let mut i: usize = 0;
        while i < n
            invariant
                0 <= i <= n,
                n == self.board.segments@.len(),
                n <= 100,
                forall|j: int| 0 <= j < i ==> (#[trigger] self.board@.segments[j]).wf(),
            decreases n - i,
        {
            let seg = &self.board.segments[i];
            proof {
                assert(seg@ == self.board@.segments[i as int]);
            }
            let c = seg.center;
            if !(-1_000_000 <= c.q && c.q <= 1_000_000 && -1_000_000 <= c.r && c.r <= 1_000_000
                && -1_000_000 <= c.s && c.s <= 1_000_000) {
                proof {
                    assert(!self.board@.segments[i as int].wf());
                }
                return false;
            }
            if !(c.q + c.r + c.s == 0) {
                proof {
                    assert(!self.board@.segments[i as int].wf());
                }
                return false;
            }
            let m = seg.fields.len();
            if m > 100 {
                proof {
                    assert(!self.board@.segments[i as int].wf());
                }
                return false;
            }
            let mut k: usize = 0;
            while k < m
                invariant
                    0 <= k <= m,
                    m == seg.fields@.len(),
                    seg@ == self.board@.segments[i as int],
                    0 <= i < self.board.segments@.len(),
                    forall|j: int| 0 <= j < k ==> (#[trigger] seg@.fields[j]).len() <= 100,
                decreases m - k,
            {
                if seg.fields[k].len() > 100 {
                    proof {
                        assert(seg@.fields[k as int].len() > 100);
                        assert(!self.board@.segments[i as int].wf());
                    }
                    return false;
                }
                k = k + 1;
            }
            i = i + 1;
        }
        let s1 = self.ship_one;
        let s2 = self.ship_two;
        if !Self::ship_fields_ok(s1) {
            proof {
                if self.wf() && self.sane() {
                    lemma_filtered_index_found(self@.board, s1.position, 0);
                    crate::board::lemma_on_board_small(self@.board, s1.position, 0);
                    assert(false);
                }
            }
            return false;
        }
        if !Self::ship_fields_ok(s2) {
            proof {
                if self.wf() && self.sane() {
                    lemma_filtered_index_found(self@.board, s2.position, 0);
                    crate::board::lemma_on_board_small(self@.board, s2.position, 0);
                    assert(false);
                }
            }
            return false;
        }
        if !(s1.position.q + s1.position.r + s1.position.s == 0) {
            return false;
        }
        if !(s2.position.q + s2.position.r + s2.position.s == 0) {
            return false;
        }
        if self.board.get(s1.position).is_none() {
            return false;
        }
        if self.board.get(s2.position).is_none() {
            return false;
        }
        true
    }

    /// The numeric band check for one ship.
    fn ship_fields_ok(s: Ship) -> (r: bool)
        ensures
            r == (ship_sane(s) && s.position.small(10_000_000)),
    {
        -10_000_000 <= s.position.q && s.position.q <= 10_000_000 && -10_000_000 <= s.position.r
            && s.position.r <= 10_000_000 && -10_000_000 <= s.position.s && s.position.s
            <= 10_000_000 && 1 <= s.speed && s.speed <= 6
            && -1_000_000_000 <= s.coal && s.coal <= 1_000_000 && 0 <= s.free_turns
            && s.free_turns <= 1_000_000_000 && -1_000_000_000 <= s.points && s.points
            <= 1_000_000_000 && -1_000_000_000 <= s.movement && s.movement <= 1_000_000_000 && 0
            <= s.free_acc && s.free_acc <= 1_000_000 && s.passengers <= 1_000_000
    }

    /// Increments the turn and updates the current team, skipping over teams
    /// that cannot move while the game is not over.
    pub fn advance_turn(&mut self)
        requires
            old(self).wf(),
            fields_within(old(self).ship_one, 1_010_000_000),
            fields_within(old(self).ship_two, 1_010_000_000),
            old(self).turn <= 2_000_000,
        ensures
            final(self).wf(),
            fields_within(final(self).ship_one, 1_010_000_000),
            fields_within(final(self).ship_two, 1_010_000_000),
            final(self).turn > old(self).turn,
            final(self).turn <= (if old(self).turn + 1 >= 62 {
                old(self).turn + 1
            } else {
                62int
            }),
            exists|k: nat|
                final(self)@ == #[trigger] skip_iter(old(self)@.spec_turn_step(), k),
            final(self)@ == old(self)@.spec_turn_step() || final(self)@.last_move is None,
            final(self)@.has_legal_move() || final(self)@.spec_is_over_static()
                || final(self)@.last_move is None,
        decreases (if old(self).turn < 62 {
            62 - old(self).turn
        } else {
            0int
        }),
    {
        let ship = self.current_ship();
        let reset = Ship { free_acc: 1, free_turns: 1, movement: ship.speed, ..ship };
        let team = self.current_team;
        self.set_ship(team, reset);
        self.turn = self.turn + 1;
        self.current_team = if self.turn % 2 == 0 {
            self.determine_ahead_team()
        } else {
            self.current_team.opponent()
        };
        let ghost s1 = old(self)@.spec_turn_step();
        proof {
            assert(self@ == s1);
        }
        let could_move = self.can_move();
        let over = self.is_over();
        if !could_move && !over {
            self.last_move = None;
            let ghost before = self@;
            self.advance_turn();
            proof {
                let k2 = choose|k: nat|
                    self@ == #[trigger] skip_iter(before.spec_turn_step(), k);
                assert(before == (StateView { last_move: None, ..s1 }));
                assert(skip_iter(s1, k2 + 1) == skip_iter(
                    (StateView { last_move: None, ..s1 }).spec_turn_step(),
                    k2,
                ));
                assert(self@ == skip_iter(s1, k2 + 1));
                lemma_skip_iter_clears_last_move(s1, k2 + 1);
            }
        } else {
            proof {
                assert(self@ == skip_iter(s1, 0));
            }
        }
    }

    /// The numeric band the ships are allowed to occupy after `i` actions of
    /// a move have been applied: the opening acceleration may move the
    /// numbers by a million, every later action by at most six.
    pub open spec fn step_bound(i: int) -> int {
        1_000_000_000 + (if i > 0 {
            1_000_006 + 6 * (i - 1)
        } else {
            0int
        })
    }

    /// The numeric side conditions carried through the action loop of a
    /// move.
    pub open spec fn step_sane(self, i: int) -> bool {
        &&& fields_within(self.ship_one, Self::step_bound(i))
        &&& fields_within(self.ship_two, Self::step_bound(i))
        &&& 0 <= self.ship_one.free_acc <= 1_000_000
        &&& 0 <= self.ship_two.free_acc <= 1_000_000
        &&& 0 <= self.ship_one.free_turns
        &&& 0 <= self.ship_two.free_turns
        &&& self.ship_one.coal <= 1_000_001
        &&& self.ship_two.coal <= 1_000_001
        &&& self.ship_one.passengers <= 1_000_001
        &&& self.ship_two.passengers <= 1_000_001
    }

    /// Applies the `i`-th coalesced action of a move, enforcing the
    /// move-shape rules first; on a rejection the state is unchanged and the
    /// whole move is rejected with the same mistake.
    #[verifier::rlimit(100)]
    #[verifier::spinoff_prover]
    fn perform_move_step(
        &mut self,
        a: Action,
        i: usize,
        Ghost(aseq): Ghost<Seq<Action>>,
        Ghost(root): Ghost<StateView>,
        Ghost(macts): Ghost<Seq<Action>>,
    ) -> (r: Result<(), MoveMistake>)
        requires
            old(self).wf(),
            0 <= i < aseq.len(),
            aseq.len() <= 1000,
            a == aseq[i as int],
            macts.len() > 0,
            aseq == crate::moves::coalesce_seq(macts),
            crate::cube::abs_int(crate::moves::advance_distance(a)) <= 1_000_000_000,
            a is Accelerate ==> a.bounded(),
            old(self).step_sane(i as int),
            root.apply_actions_from(aseq, 0) == old(self)@.apply_actions_from(aseq, i as int),
        ensures
            final(self).wf(),
            match r {
                Ok(()) => {
                    &&& root.apply_actions_from(aseq, 0) == final(self)@.apply_actions_from(
                        aseq,
                        i + 1,
                    )
                    &&& final(self).step_sane(i + 1)
                    &&& final(self).turn == old(self).turn
                    &&& final(self)@.last_move == old(self)@.last_move
                },
                Err(e) => root.move_mid(macts) == Err::<StateView, MoveMistake>(e)
                    && final(self)@ == old(self)@,
            },
    {
        let cur = self.current_ship();
        proof {
            lemma_filtered_index_found(self@.board, cur.position, 0);
            crate::board::lemma_on_board_small(self@.board, cur.position, 0);
        }
        if i != 0 && self.board.is_sandbank_at(cur.position) {
            proof {
                reveal_with_fuel(StateView::apply_actions_from, 1);
                assert(self@.apply_actions_from(aseq, i as int) == Err::<StateView, MoveMistake>(
                    MoveMistake::SandbankEnd,
                ));
            }
            return Err(MoveMistake::SandbankEnd);
        }
        if self.must_push() && !matches!(a, Action::Push(_)) {
            proof {
                reveal_with_fuel(StateView::apply_actions_from, 1);
                assert(self@.apply_actions_from(aseq, i as int) == Err::<StateView, MoveMistake>(
                    MoveMistake::PushActionRequired,
                ));
            }
            return Err(MoveMistake::PushActionRequired);
        }
        if i != 0 && matches!(a, Action::Accelerate(_)) {
            proof {
                reveal_with_fuel(StateView::apply_actions_from, 1);
                assert(self@.apply_actions_from(aseq, i as int) == Err::<StateView, MoveMistake>(
                    MoveMistake::FirstActionAccelerate,
                ));
            }
            return Err(MoveMistake::FirstActionAccelerate);
        }
        let ghost pre = self@;
        match self.perform_action(a) {
            Ok(()) => {},
            Err(p) => {
                proof {
                    reveal_with_fuel(StateView::apply_actions_from, 1);
                    assert(pre.apply_actions_from(aseq, i as int) == Err::<StateView, MoveMistake>(
                        MoveMistake::ActionFailed(p),
                    ));
                }
                return Err(MoveMistake::ActionFailed(p));
            },
        }
        proof {
            reveal_with_fuel(StateView::apply_actions_from, 1);
            assert(pre.apply_actions_from(aseq, i as int) == self@.apply_actions_from(
                aseq,
                i + 1,
            ));
            if a is Accelerate {
                lemma_outcome_bounds_acc(pre, a, Self::step_bound(i as int));
            } else {
                lemma_outcome_bounds_small(pre, a, Self::step_bound(i as int));
            }
        }
        Ok(())
    }

    /// Validates and applies a whole move (see [`StateView::move_mid`] and
    /// [`StateView::after_pickups`]): the coalesced actions are applied under
    /// the move-shape rules, the movement budget must come out exactly even,
    /// passengers are picked up and points recomputed, the move is recorded,
    /// and the turn advances. On a rejection the state is unchanged.
    #[verifier::rlimit(100)]
    #[verifier::spinoff_prover]
    pub fn perform(&mut self, m: Move) -> (r: Result<(), MoveMistake>)
        requires
            old(self).wf(),
            old(self).sane(),
            m.wf(),
            old(self).turn <= 1_000_000,
        ensures
            match r {
                Ok(()) => ({
                    let midr = old(self)@.move_mid(m.actions@);
                    &&& midr is Ok
                    &&& midr->Ok_0.spec_current_ship().movement == 0
                    &&& ({
                        let pk = midr->Ok_0.after_pickups(Self::spec_has_push(m.actions@));
                        let rec = StateView { last_move: Some(m.actions@), ..pk };
                        exists|k: nat|
                            final(self)@ == #[trigger] skip_iter(rec.spec_turn_step(), k)
                    })
                }),
                Err(e) => old(self)@.move_mid(m.actions@) == Err::<StateView, MoveMistake>(e)
                    && final(self)@ == old(self)@,
            },
    {
        if m.is_empty() {
            return Err(MoveMistake::NoActions);
        }
        let ghost root = self@;
        let mut work = self.duplicate();
        let cm = m.coalesced();
        let ghost aseq = cm.actions@;
        let n = cm.actions.len();
        let mut i: usize = 0;
        while i < n
            invariant
                n == aseq.len(),
                aseq == cm.actions@,
                aseq == crate::moves::coalesce_seq(m.actions@),
                m.actions@.len() > 0,
                self@ == old(self)@,
                root == old(self)@,
                0 <= i <= n,
                n <= 1000,
                forall|j: int|
                    0 <= j < aseq.len() ==> crate::cube::abs_int(
                        crate::moves::advance_distance(#[trigger] aseq[j]),
                    ) <= 1_000_000_000,
                forall|j: int|
                    0 <= j < aseq.len() ==> ((#[trigger] aseq[j]) is Accelerate
                        ==> aseq[j].bounded()),
                work.wf(),
                work.step_sane(i as int),
                root.apply_actions_from(aseq, 0) == work@.apply_actions_from(aseq, i as int),
                work.turn == root.turn,
                work@.last_move == root.last_move,
            decreases n - i,
        {
            let a = cm.actions[i];
            match work.perform_move_step(a, i, Ghost(aseq), Ghost(root), Ghost(m.actions@)) {
                Ok(()) => {},
                Err(e) => {
                    return Err(e);
                },
            }
            i = i + 1;
        }
        let mv = work.current_ship().movement;
        if mv > 0 {
            proof {
                reveal_with_fuel(StateView::apply_actions_from, 1);
                assert(work@.apply_actions_from(aseq, n as int) == Ok::<StateView, MoveMistake>(
                    work@,
                ));
            }
            return Err(MoveMistake::MovementPointsLeft(mv));
        }
        if mv < 0 {
            proof {
                reveal_with_fuel(StateView::apply_actions_from, 1);
                assert(work@.apply_actions_from(aseq, n as int) == Ok::<StateView, MoveMistake>(
                    work@,
                ));
            }
            return Err(MoveMistake::MovementPointsMissing(-mv));
        }
        let ghost mid = work@;
        proof {
            reveal_with_fuel(StateView::apply_actions_from, 1);
            assert(work@.apply_actions_from(aseq, n as int) == Ok::<StateView, MoveMistake>(
                work@,
            ));
            assert(root.move_mid(m.actions@) == Ok::<StateView, MoveMistake>(mid));
        }
        match work.finish_move(m, Ghost(mid)) {
            Ok(()) => {},
            Err(()) => {},
        }
        *self = work;
        Ok(())
    }

    /// The pickup, scoring, recording and turn-progression phase that ends a
    /// successful move.
    fn finish_move(&mut self, m: Move, Ghost(mid): Ghost<StateView>) -> (r: Result<(), ()>)
        requires
            old(self).wf(),
            old(self)@ == mid,
            old(self).step_sane(1000),
            old(self).turn <= 1_000_000,
            m.actions@.len() > 0,
        ensures
            r is Ok,
            ({
                let macts = m.actions@;
                let pk = mid.after_pickups(Self::spec_has_push(macts));
                let rec = StateView { last_move: Some(macts), ..pk };
                exists|k: nat| final(self)@ == #[trigger] skip_iter(rec.spec_turn_step(), k)
            }),
    {
        let r = self.do_pickups(m, Ghost(mid));
        self.advance_turn();
        r
    }

    /// The pickup, scoring and recording phase of a successful move, before
    /// the turn progresses.
    #[verifier::rlimit(100)]
    #[verifier::spinoff_prover]
    fn do_pickups(&mut self, m: Move, Ghost(mid): Ghost<StateView>) -> (r: Result<(), ()>)
        requires
            old(self).wf(),
            old(self)@ == mid,
            old(self).step_sane(1000),
            old(self).turn <= 1_000_000,
            m.actions@.len() > 0,
        ensures
            r is Ok,
            final(self)@ == (StateView {
                last_move: Some(m.actions@),
                ..mid.after_pickups(Self::spec_has_push(m.actions@))
            }),
            final(self).wf(),
            fields_within(final(self).ship_one, 1_010_000_000),
            fields_within(final(self).ship_two, 1_010_000_000),
            final(self).turn <= 1_000_000,
    {
        let ghost macts = m.actions@;
        let had_push = m.contains_push();
        let team = self.current_team;
        let mut mover = self.current_ship();
        proof {
            lemma_filtered_index_found(self@.board, mover.position, 0);
            crate::board::lemma_on_board_small(self@.board, mover.position, 0);
            lemma_filtered_index_found(self@.board, mid.spec_other_ship().position, 0);
            crate::board::lemma_on_board_small(self@.board, mid.spec_other_ship().position, 0);
        }
        let ghost board0 = self@.board;
        let _ = self.board.pick_up_passenger(&mut mover);
        proof {
            lemma_pickup_preserves(board0, mid.spec_current_ship());
            assert(self@.board.wf());
            assert((self@.board.spec_get(mover.position) is Some));
            assert((self@.board.spec_get(mid.spec_other_ship().position) is Some));
            crate::board::lemma_filtered_index_implies_index(self@.board, mover.position, 0);
            assert(self@.board.spec_segment_index(mover.position) is Some);
        }
        let pts = match self.board.ship_points(mover) {
            Some(p) => p,
            None => {
                proof {
                    assert(false);
                }
                0
            },
        };
        mover.points = pts;
        self.set_ship(team, mover);
        if had_push {
            let other_team = team.opponent();
            let mut other = self.ship(other_team);
            let ghost board1 = self@.board;
            proof {
                assert(other.position == mid.spec_other_ship().position);
                crate::board::lemma_on_board_small(board1, other.position, 0);
            }
            if other.speed == 1 {
                let ghost o0 = other;
                let _ = self.board.pick_up_passenger(&mut other);
                proof {
                    lemma_pickup_preserves(board1, o0);
                }
            }
            proof {
                assert(self@.board.wf());
                assert((self@.board.spec_get(other.position) is Some));
                crate::board::lemma_filtered_index_implies_index(self@.board, other.position, 0);
                assert(self@.board.spec_segment_index(other.position) is Some);
            }
            let pts2 = match self.board.ship_points(other) {
                Some(p) => p,
                None => {
                    proof {
                        assert(false);
                    }
                    0
                },
            };
            other.points = pts2;
            self.set_ship(other_team, other);
        }
        self.last_move = Some(m);
        proof {
            assert(self@ == (StateView {
                last_move: Some(macts),
                ..mid.after_pickups(Self::spec_has_push(macts))
            }));
            assert(self.wf());
        }
        Ok(())
    }


    /// Decides exactly whether the move validator accepts the move: its
    /// coalesced actions all apply under the move-shape rules and the
    /// movement budget comes out exactly even. Nothing is picked up and the
    /// turn does not progress; this is the pure legality question.
    pub fn check_move(&self, m: &Move) -> (r: bool)
        requires
            self.wf(),
            self.sane(),
            m.wf(),
        ensures
            r == (self@.move_mid(m.actions@) is Ok),
    {
        self.move_mid_coal(m).is_some()
    }

    /// Replays the move against the validator and reports the mover's coal
    /// after the actions, or nothing when the validator rejects the move.
    pub fn move_mid_coal(&self, m: &Move) -> (r: Option<i32>)
        requires
            self.wf(),
            self.sane(),
            m.wf(),
        ensures
            match r {
                Some(c) => self@.move_mid(m.actions@) is Ok && self@.move_mid(
                    m.actions@,
                )->Ok_0.spec_current_ship().coal == c,
                None => !(self@.move_mid(m.actions@) is Ok),
            },
    {
        if m.is_empty() {
            return None;
        }
        let ghost root = self@;
        let mut work = self.duplicate();
        let cm = m.coalesced();
        let ghost aseq = cm.actions@;
        let n = cm.actions.len();
        let mut i: usize = 0;
        while i < n
            invariant
                n == aseq.len(),
                aseq == cm.actions@,
                aseq == crate::moves::coalesce_seq(m.actions@),
                m.actions@.len() > 0,
                root == self@,
                0 <= i <= n,
                n <= 1000,
                forall|j: int|
                    0 <= j < aseq.len() ==> crate::cube::abs_int(
                        crate::moves::advance_distance(#[trigger] aseq[j]),
                    ) <= 1_000_000_000,
                forall|j: int|
                    0 <= j < aseq.len() ==> ((#[trigger] aseq[j]) is Accelerate
                        ==> aseq[j].bounded()),
                work.wf(),
                work.step_sane(i as int),
                root.apply_actions_from(aseq, 0) == work@.apply_actions_from(aseq, i as int),
            decreases n - i,
        {
            let a = cm.actions[i];
            match work.perform_move_step(a, i, Ghost(aseq), Ghost(root), Ghost(m.actions@)) {
                Ok(()) => {},
                Err(_) => {
                    return None;
                },
            }
            i = i + 1;
        }
        let mv = work.current_ship().movement;
        proof {
            reveal_with_fuel(StateView::apply_actions_from, 1);
            assert(work@.apply_actions_from(aseq, n as int) == Ok::<StateView, MoveMistake>(
                work@,
            ));
        }
        if mv == 0 {
            Some(work.current_ship().coal)
        } else {
            None
        }
    }

    /// Fetches the possible actions for the current player at the given rank
    /// in the move: accelerations only open a move, pushes never do.
    pub fn possible_actions_at(&self, rank: i32) -> (r: Vec<Action>)
        requires
            self.wf(),
            self.sane(),
        ensures
            r@ == ({
                let sv = self@;
                let coal = sv.spec_current_ship().coal as int;
                let accs: Seq<Action> = if rank == 0 {
                    sv.spec_possible_accelerations(coal).map_values(
                        |x: Accelerate| Action::Accelerate(x),
                    )
                } else {
                    Seq::empty()
                };
                let turns: Seq<Action> = sv.spec_possible_turns(coal).map_values(
                    |x: Turn| Action::Turn(x),
                );
                let advances: Seq<Action> = ({
                    let ship = sv.spec_current_ship();
                    if ship.movement < 1 || sv.spec_must_push() {
                        Seq::<Advance>::empty()
                    } else {
                        sv.spec_possible_advances_for(ship)
                    }
                }).map_values(|x: Advance| Action::Advance(x));
                let pushes: Seq<Action> = if rank != 0 {
                    ({
                        let ship = sv.spec_current_ship();
                        if !sv.spec_must_push() || sv.board.spec_is_sandbank_at(ship.position)
                            || ship.movement < 1 {
                            Seq::<Push>::empty()
                        } else {
                            sv.spec_possible_pushes_at(ship.position, ship.direction)
                        }
                    }).map_values(|x: Push| Action::Push(x))
                } else {
                    Seq::empty()
                };
                accs + turns + advances + pushes
            }),
    {
        let mut actions: Vec<Action> = Vec::new();
        let ghost sv = self@;
        let ghost coal = sv.spec_current_ship().coal as int;
        let ghost accs_spec: Seq<Action> = if rank == 0 {
            sv.spec_possible_accelerations(coal).map_values(|x: Accelerate| Action::Accelerate(x))
        } else {
            Seq::empty()
        };
        if rank == 0 {
            let accs = self.possible_accelerations();
            let mut i: usize = 0;
            while i < accs.len()
                invariant
                    accs@ == sv.spec_possible_accelerations(coal),
                    0 <= i <= accs@.len(),
                    actions@ =~= accs@.take(i as int).map_values(
                        |x: Accelerate| Action::Accelerate(x),
                    ),
                decreases accs@.len() - i,
            {
                actions.push(Action::Accelerate(accs[i]));
                proof {
                    assert(accs@.take(i + 1) =~= accs@.take(i as int).push(accs@[i as int]));
                }
                i = i + 1;
            }
            proof {
                assert(accs@.take(accs@.len() as int) =~= accs@);
            }
        }
        proof {
            assert(actions@ =~= accs_spec);
        }
        let ghost base1 = actions@;
        let turns = self.possible_turns();
        let mut i: usize = 0;
        while i < turns.len()
            invariant
                turns@ == sv.spec_possible_turns(coal),
                0 <= i <= turns@.len(),
                actions@ =~= base1 + turns@.take(i as int).map_values(|x: Turn| Action::Turn(x)),
            decreases turns@.len() - i,
        {
            actions.push(Action::Turn(turns[i]));
            proof {
                assert(turns@.take(i + 1) =~= turns@.take(i as int).push(turns@[i as int]));
            }
            i = i + 1;
        }
        proof {
            assert(turns@.take(turns@.len() as int) =~= turns@);
        }
        let ghost base2 = actions@;
        let advances = self.possible_advances();
        let mut i: usize = 0;
        while i < advances.len()
            invariant
                advances@ == ({
                    let ship = sv.spec_current_ship();
                    if ship.movement < 1 || sv.spec_must_push() {
                        Seq::<Advance>::empty()
                    } else {
                        sv.spec_possible_advances_for(ship)
                    }
                }),
                0 <= i <= advances@.len(),
                actions@ =~= base2 + advances@.take(i as int).map_values(
                    |x: Advance| Action::Advance(x),
                ),
            decreases advances@.len() - i,
        {
            actions.push(Action::Advance(advances[i]));
            proof {
                assert(advances@.take(i + 1) =~= advances@.take(i as int).push(
                    advances@[i as int],
                ));
            }
            i = i + 1;
        }
        proof {
            assert(advances@.take(advances@.len() as int) =~= advances@);
        }
        let ghost base3 = actions@;
        if rank != 0 {
            let pushes = self.possible_pushes();
            let mut i: usize = 0;
            while i < pushes.len()
                invariant
                    pushes@ == ({
                        let ship = sv.spec_current_ship();
                        if !sv.spec_must_push() || sv.board.spec_is_sandbank_at(ship.position)
                            || ship.movement < 1 {
                            Seq::<Push>::empty()
                        } else {
                            sv.spec_possible_pushes_at(ship.position, ship.direction)
                        }
                    }),
                    0 <= i <= pushes@.len(),
                    actions@ =~= base3 + pushes@.take(i as int).map_values(
                        |x: Push| Action::Push(x),
                    ),
                decreases pushes@.len() - i,
            {
                actions.push(Action::Push(pushes[i]));
                proof {
                    assert(pushes@.take(i + 1) =~= pushes@.take(i as int).push(
                        pushes@[i as int],
                    ));
                }
                i = i + 1;
            }
            proof {
                assert(pushes@.take(pushes@.len() as int) =~= pushes@);
            }
        }
        proof {
            assert(actions@ =~= accs_spec + (sv.spec_possible_turns(coal).map_values(
                |x: Turn| Action::Turn(x),
            )) + (({
                let ship = sv.spec_current_ship();
                if ship.movement < 1 || sv.spec_must_push() {
                    Seq::<Advance>::empty()
                } else {
                    sv.spec_possible_advances_for(ship)
                }
            }).map_values(|x: Advance| Action::Advance(x))) + (if rank != 0 {
                ({
                    let ship = sv.spec_current_ship();
                    if !sv.spec_must_push() || sv.board.spec_is_sandbank_at(ship.position)
                        || ship.movement < 1 {
                        Seq::<Push>::empty()
                    } else {
                        sv.spec_possible_pushes_at(ship.position, ship.direction)
                    }
                }).map_values(|x: Push| Action::Push(x))
            } else {
                Seq::empty()
            }));
        }
        actions
    }

    /// Fetches the simple move candidates (accelerate, turn, advance, push)
    /// using at most the given amount of coal: for each turn option the
    /// reachable distances are paired with the acceleration that makes the
    /// movement budget come out even, and with the strongest push where the
    /// advance lands on the opponent. Every candidate is checked against the
    /// move validator and the coal budget before it is returned, so every
    /// returned move applies and spends at most the given coal.
    #[verifier::rlimit(100)]
    #[verifier::spinoff_prover]
    pub fn simple_moves_with(&self, max_coal: i32) -> (r: Vec<Move>)
        requires
            self.wf(),
            self.sane(),
            -1_000_000_000 <= max_coal <= 1_000_000,
        ensures
            forall|i: int| 0 <= i < r@.len() ==> Self::is_simple_shape((#[trigger] r@[i]).actions@),
            forall|i: int|
                0 <= i < r@.len() ==> self@.move_mid((#[trigger] r@[i]).actions@) is Ok,
            forall|i: int|
                0 <= i < r@.len() ==> self@.move_mid(
                    (#[trigger] r@[i]).actions@,
                )->Ok_0.spec_current_ship().coal >= self@.spec_current_ship().coal - (
                if max_coal >= 0 {
                    max_coal as int
                } else {
                    0int
                }),
    {
        let ship = self.current_ship();
        proof {
            lemma_filtered_index_found(self@.board, ship.position, 0);
            crate::board::lemma_on_board_small(self@.board, ship.position, 0);
            lemma_filtered_index_found(self@.board, self@.spec_other_ship().position, 0);
            crate::board::lemma_on_board_small(self@.board, self@.spec_other_ship().position, 0);
        }
        let mut moves: Vec<Move> = Vec::new();
        let capped = if max_coal < 1 {
            max_coal
        } else {
            1
        };
        let turn_options = self.possible_turns_with(capped);
        proof {
            assert(turn_options@.len() <= 5);
        }
        let mut oi: usize = 0;
        while oi <= turn_options.len()
            invariant
                self.wf(),
                self.sane(),
                -1_000_000_000 <= max_coal <= 1_000_000,
                ship == self@.spec_current_ship(),
                ship.position.wf(),
                ship.position.small(2_000_000),
                self@.spec_other_ship().position.wf(),
                self@.spec_other_ship().position.small(2_000_000),
                turn_options@.len() <= 5,
                0 <= oi <= turn_options@.len() + 1,
                forall|k: int|
                    0 <= k < moves@.len() ==> Self::is_simple_shape(
                        (#[trigger] moves@[k]).actions@,
                    ),
                forall|k: int|
                    0 <= k < moves@.len() ==> self@.move_mid(
                        (#[trigger] moves@[k]).actions@,
                    ) is Ok,
                forall|k: int|
                    0 <= k < moves@.len() ==> self@.move_mid(
                        (#[trigger] moves@[k]).actions@,
                    )->Ok_0.spec_current_ship().coal >= ship.coal - (if max_coal >= 0 {
                        max_coal as int
                    } else {
                        0int
                    }),
            decreases turn_options@.len() + 1 - oi,
        {
            let turn: Option<Turn> = if oi == 0 {
                None
            } else {
                Some(turn_options[oi - 1])
            };
            let direction = match turn {
                Some(t) => t.direction,
                None => ship.direction,
            };
            let turn_cost = match turn {
                Some(t) => t.coal_cost(ship),
                None => 0,
            };
            let available_coal: i64 = max_coal as i64 - turn_cost as i64;
            let budget_i64: i64 = ship.movement as i64 + ship.free_acc as i64 + available_coal;
            let budget: i32 = if budget_i64 > 6 {
                6
            } else if budget_i64 < 0 {
                0
            } else {
                budget_i64 as i32
            };
            let info = self.advance_limit_with(ship.position, direction, budget);
            proof {
                let mmx: int = if budget < 0 {
                    0int
                } else if budget > 6 {
                    6int
                } else {
                    budget as int
                };
                lemma_adv_cells(
                    self@.board,
                    self.ship_one.position,
                    self.ship_two.position,
                    ship.position,
                    direction,
                    0,
                    false,
                    mmx,
                    Seq::empty(),
                );
            }
            let min_i64: i64 = ship.movement as i64 - ship.free_acc as i64 - available_coal;
            let min_movement: i32 = if min_i64 < 1 {
                1
            } else if min_i64 > 8 {
                8
            } else {
                min_i64 as i32
            };
            let mut min_distance: i32 = 0;
            let mut ci: usize = 0;
            let mut found = false;
            while ci < info.costs.len()
                invariant
                    info@.costs.len() <= 6,
                    forall|j: int| 0 <= j < info@.costs.len() ==> 0 <= #[trigger] info@.costs[j] <= 6,
                    0 <= ci <= info@.costs.len(),
                    found ==> 1 <= min_distance <= info@.costs.len(),
                    !found ==> min_distance == 0,
                decreases info@.costs.len() - ci,
            {
                if !found && info.costs[ci] >= min_movement {
                    min_distance = (ci as i32) + 1;
                    found = true;
                }
                ci = ci + 1;
            }
            if min_distance >= 1 {
                let limit = info.distance();
                let mut dist = min_distance;
                while dist <= limit
                    invariant
                        self.wf(),
                        self.sane(),
                        -1_000_000_000 <= max_coal <= 1_000_000,
                        ship == self@.spec_current_ship(),
                        ship.position.wf(),
                        ship.position.small(2_000_000),
                        self@.spec_other_ship().position.wf(),
                        self@.spec_other_ship().position.small(2_000_000),
                        info@.costs.len() <= 6,
                        forall|j: int|
                            0 <= j < info@.costs.len() ==> 0 <= #[trigger] info@.costs[j] <= 6,
                        limit == info@.costs.len(),
                        1 <= dist,
                        forall|k: int|
                            0 <= k < moves@.len() ==> Self::is_simple_shape(
                                (#[trigger] moves@[k]).actions@,
                            ),
                        forall|k: int|
                            0 <= k < moves@.len() ==> self@.move_mid(
                                (#[trigger] moves@[k]).actions@,
                            ) is Ok,
                        forall|k: int|
                            0 <= k < moves@.len() ==> self@.move_mid(
                                (#[trigger] moves@[k]).actions@,
                            )->Ok_0.spec_current_ship().coal >= ship.coal - (if max_coal
                                >= 0 {
                                max_coal as int
                            } else {
                                0int
                            }),
                    decreases limit + 1 - dist,
                {
                    let extra: i32 = if dist == limit && matches!(
                        info.problem,
                        AdvanceProblem::ShipAlreadyInTarget,
                    ) {
                        1
                    } else {
                        0
                    };
                    let acc_amount = info.cost_until(dist) + extra - ship.movement;
                    let acc: Option<Accelerate> = if acc_amount != 0 {
                        Some(Accelerate::new(acc_amount))
                    } else {
                        None
                    };
                    let target = ship.position.plus(CubeVec::from_dir(direction).scaled(dist));
                    let lands_on_other = target == self.other_ship().position;
                    let mut skip = false;
                    let mut push: Option<Push> = None;
                    if lands_on_other {
                        let other_pos = self.other_ship().position;
                        let rotation: Option<CubeDir> = match self.segment_at(other_pos) {
                            Some(seg) => Some(seg.direction),
                            None => None,
                        };
                        let pushes = self.possible_pushes_at(other_pos, direction);
                        if pushes.len() == 0 {
                            skip = true;
                        } else {
                            let mut best = pushes[0];
                            let mut best_key: i32 = push_key(rotation, best);
                            let mut pi: usize = 1;
                            while pi < pushes.len()
                                invariant
                                    0 <= pi <= pushes@.len(),
                                    pushes@.len() >= 1,
                                decreases pushes@.len() - pi,
                            {
                                let key = push_key(rotation, pushes[pi]);
                                if key >= best_key {
                                    best = pushes[pi];
                                    best_key = key;
                                }
                                pi = pi + 1;
                            }
                            push = Some(best);
                        }
                    }
                    if !skip {
                        let mut actions: Vec<Action> = Vec::new();
                        match acc {
                            Some(a) => {
                                actions.push(Action::Accelerate(a));
                            },
                            None => {},
                        }
                        match turn {
                            Some(t) => {
                                actions.push(Action::Turn(t));
                            },
                            None => {},
                        }
                        actions.push(Action::advance(dist));
                        match push {
                            Some(p) => {
                                actions.push(Action::Push(p));
                            },
                            None => {},
                        }
                        proof {
                            assert(Self::is_simple_shape(actions@));
                        }
                        let candidate = Move { actions };
                        if candidate.validate_bounds() {
                            let spendable: i32 = if max_coal >= 0 {
                                max_coal
                            } else {
                                0
                            };
                            match self.move_mid_coal(&candidate) {
                                Some(coal_after) => {
                                    if coal_after >= ship.coal - spendable {
                                        moves.push(candidate);
                                    }
                                },
                                None => {},
                            }
                        }
                    }
                    dist = dist + 1;
                }
            }
            oi = oi + 1;
        }
        moves
    }

    /// A segment lookup used by the simple-move heuristic.
    fn segment_at(&self, coords: CubeVec) -> (r: Option<&crate::segment::Segment>)
        requires
            self.wf(),
            coords.small(100_000_000),
    {
        self.board.segment_at(coords)
    }

    /// Fetches the simple moves for the current ship.
    pub fn simple_moves(&self) -> (r: Vec<Move>)
        requires
            self.wf(),
            self.sane(),
        ensures
            forall|i: int| 0 <= i < r@.len() ==> Self::is_simple_shape((#[trigger] r@[i]).actions@),
            forall|i: int|
                0 <= i < r@.len() ==> self@.move_mid((#[trigger] r@[i]).actions@) is Ok,
            forall|i: int|
                0 <= i < r@.len() ==> self@.move_mid(
                    (#[trigger] r@[i]).actions@,
                )->Ok_0.spec_current_ship().coal >= self@.spec_current_ship().coal - 1,
    {
        let coal = self.current_ship().coal;
        self.simple_moves_with(if coal < 1 {
            coal
        } else {
            1
        })
    }

    /// Fetches the simple moves for the current ship, falling back to the
    /// full enumeration of possible moves; every returned move applies.
    pub fn sensible_moves(&self) -> (r: Vec<Move>)
        requires
            self.wf(),
            self.sane(),
        ensures
            forall|i: int|
                0 <= i < r@.len() ==> self@.move_mid((#[trigger] r@[i]).actions@) is Ok,
    {
        let mut moves = self.simple_moves();
        if moves.len() == 0 {
            // Drain the full enumeration under the same generous termination
            // budget that the enumerator itself uses.
            let mut it = self.possible_moves();
            let mut fuel: usize = 4_000_000;
            while fuel > 0
                invariant
                    it.root@ == self@,
                    forall|k: int|
                        0 <= k < moves@.len() ==> self@.move_mid(
                            (#[trigger] moves@[k]).actions@,
                        ) is Ok,
                decreases fuel,
            {
                match it.next() {
                    Some(m) => {
                        moves.push(m);
                    },
                    None => {
                        break;
                    },
                }
                fuel = fuel - 1;
            }
        }
        moves
    }

    /// The state after applying the given move to a copy (see
    /// [`State::perform`]).
    pub fn child(&self, m: Move) -> (r: Result<State, MoveMistake>)
        requires
            self.wf(),
            self.sane(),
            m.wf(),
            self.turn <= 1_000_000,
        ensures
            match r {
                Ok(s) => ({
                    let midr = self@.move_mid(m.actions@);
                    &&& midr is Ok
                    &&& midr->Ok_0.spec_current_ship().movement == 0
                    &&& ({
                        let pk = midr->Ok_0.after_pickups(Self::spec_has_push(m.actions@));
                        let rec = StateView { last_move: Some(m.actions@), ..pk };
                        exists|k: nat| s@ == #[trigger] skip_iter(rec.spec_turn_step(), k)
                    })
                }),
                Err(e) => self@.move_mid(m.actions@) == Err::<StateView, MoveMistake>(e),
            },
    {
        let mut c = self.duplicate();
        match c.perform(m) {
            Ok(()) => Ok(c),
            Err(e) => Err(e),
        }
    }
}

/// A breadth-first enumeration of the full legal moves of a state: partial
/// `(state, move)` pairs are expanded action by action, a move becomes a
/// candidate once its ship's remaining movement is exactly zero, and every
/// candidate is checked against the move validator before it is yielded, so
/// the enumeration never yields an illegal move. The expansion budget bounds
/// the total work; it is far beyond what any real position needs.
pub struct MoveIterator {
    /// The state the enumeration started from; every yielded move is checked
    /// to apply to it.
    pub root: State,
    /// The work queue of partial expansions.
    pub queue: std::collections::VecDeque<(State, Move)>,
    /// The remaining expansion budget.
    pub fuel: usize,
}

impl MoveIterator {
    /// Starts an enumeration from the given state.
    pub fn new(state: State) -> (r: MoveIterator)
        ensures
            r.root@ == state@,
            r.queue@.len() == 1,
            r.queue@[0].0@ == state@,
            r.queue@[0].1.actions@.len() == 0,
    {
        let root = state.duplicate();
        let mut queue: std::collections::VecDeque<(State, Move)> =
            std::collections::VecDeque::new();
        queue.push_back((state, Move::new()));
        MoveIterator { root, queue, fuel: 4_000_000 }
    }

    /// Pops the next partial pair, enqueues its expansions, and returns its
    /// move: advances (with forced pushes after them) unless the move already
    /// ends in an advance, turns unless it already ends in a turn, and
    /// opening accelerations for the empty move.
    pub fn process(&mut self) -> (r: Option<Move>)
        ensures
            final(self).root == old(self).root,
            final(self).fuel == old(self).fuel,
            r is None <==> old(self).queue@.len() == 0,
            r matches Some(m) ==> m == old(self).queue@[0].1,
            r is Some ==> final(self).queue@.len() >= old(self).queue@.len() - 1
                && final(self).queue@.take(old(self).queue@.len() - 1) == old(self).queue@.skip(
                1,
            ),
    {
        let popped = self.queue.pop_front();
        let ghost base = self.queue@;
        proof {
            if old(self).queue@.len() > 0 {
                assert(base =~= old(self).queue@.skip(1));
            }
        }
        match popped {
            None => None,
            Some((state, current_move)) => {
                if !state.validate() || !current_move.validate_bounds() {
                    return Some(current_move);
                }
                let ends_in_advance = match current_move.last() {
                    Some(Action::Advance(_)) => true,
                    _ => false,
                };
                if !ends_in_advance {
                    let advances = state.possible_advances();
                    let mut ai: usize = 0;
                    while ai < advances.len()
                        invariant
                            self.root == old(self).root,
                            self.fuel == old(self).fuel,
                            self.queue@.len() >= base.len(),
                            self.queue@.take(base.len() as int) == base,
                            state.wf(),
                            state.sane(),
                            state.turn <= 1_000_000,
                            forall|j: int|
                                0 <= j < advances@.len() ==> -1 <= (
                                #[trigger] advances@[j]).distance <= 6,
                        decreases advances.len() - ai,
                    {
                        let adv = advances[ai];
                        let mut child_state = state.duplicate();
                        let ok = child_state.perform_advance(adv);
                        if ok.is_ok() && child_state.validate() {
                            let child_move = current_move.child(Action::Advance(adv));
                            let pushes = child_state.possible_pushes();
                            if pushes.len() == 0 {
                                self.queue.push_back((child_state, child_move));
                                proof {
                                    assert(self.queue@.take(base.len() as int) =~= base);
                                }
                            } else {
                                let mut pi: usize = 0;
                                while pi < pushes.len()
                                    invariant
                                        self.root == old(self).root,
                            self.fuel == old(self).fuel,
                            self.queue@.len() >= base.len(),
                            self.queue@.take(base.len() as int) == base,
                                        child_state.wf(),
                                        child_state.sane(),
                                    decreases pushes.len() - pi,
                                {
                                    let push = pushes[pi];
                                    let mut push_state = child_state.duplicate();
                                    let ok2 = push_state.perform_push(push);
                                    if ok2.is_ok() {
                                        self.queue.push_back(
                                            (push_state, child_move.child(Action::Push(push))),
                                        );
                                        proof {
                                            assert(self.queue@.take(base.len() as int) =~= base);
                                        }
                                    }
                                    pi = pi + 1;
                                }
                            }
                        }
                        ai = ai + 1;
                    }
                }
                let ends_in_turn = match current_move.last() {
                    Some(Action::Turn(_)) => true,
                    _ => false,
                };
                if !ends_in_turn {
                    let turns = state.possible_turns();
                    let mut ti: usize = 0;
                    while ti < turns.len()
                        invariant
                            self.root == old(self).root,
                            self.fuel == old(self).fuel,
                            self.queue@.len() >= base.len(),
                            self.queue@.take(base.len() as int) == base,
                            state.wf(),
                            state.sane(),
                        decreases turns.len() - ti,
                    {
                        let turn = turns[ti];
                        let mut turn_state = state.duplicate();
                        let ok = turn_state.perform_turn(turn);
                        if ok.is_ok() {
                            self.queue.push_back(
                                (turn_state, current_move.child(Action::Turn(turn))),
                            );
                            proof {
                                assert(self.queue@.take(base.len() as int) =~= base);
                            }
                        }
                        ti = ti + 1;
                    }
                }
                if current_move.is_empty() {
                    let accs = state.possible_accelerations();
                    let ghost bound = state@.spec_current_ship().coal
                        + state@.spec_current_ship().free_acc;
                    proof {
                        lemma_accs_bound(state@.spec_current_ship().speed as int, bound);
                    }
                    let mut ci: usize = 0;
                    while ci < accs.len()
                        invariant
                            self.root == old(self).root,
                            self.fuel == old(self).fuel,
                            self.queue@.len() >= base.len(),
                            self.queue@.take(base.len() as int) == base,
                            state.wf(),
                            state.sane(),
                            forall|j: int|
                                0 <= j < accs@.len() ==> -2_000_001
                                    <= (#[trigger] accs@[j]).acc <= 2_000_001,
                        decreases accs.len() - ci,
                    {
                        let acc = accs[ci];
                        let mut new_state = state.duplicate();
                        let team = new_state.current_team;
                        let boosted = new_state.current_ship().accelerated(acc.acc);
                        new_state.set_ship(team, boosted);
                        self.queue.push_back(
                            (new_state, Move::new().child(Action::Accelerate(acc))),
                        );
                        proof {
                            assert(self.queue@.take(base.len() as int) =~= base);
                        }
                        ci = ci + 1;
                    }
                }
                Some(current_move)
            },
        }
    }

    /// Expands queued pairs until the front one has spent its movement.
    pub fn find_next(&mut self)
        ensures
            final(self).root == old(self).root,
    {
        loop
            invariant
                self.root == old(self).root,
            decreases self.fuel,
        {
            if self.fuel == 0 {
                return;
            }
            if self.queue.len() == 0 {
                return;
            }
            let front = &self.queue[0];
            if front.0.current_ship().movement == 0 {
                return;
            }
            self.fuel = self.fuel - 1;
            let _ = self.process();
        }
    }

    /// The next full legal move, or nothing once the enumeration is
    /// exhausted: every yielded move is checked to apply to the root state,
    /// so the enumeration never yields an illegal move.
    pub fn next(&mut self) -> (r: Option<Move>)
        ensures
            final(self).root == old(self).root,
            r matches Some(m) ==> old(self).root@.move_mid(m.actions@) is Ok,
    {
        let mut fuel: usize = 4_000_000;
        while fuel > 0
            invariant
                self.root == old(self).root,
            decreases fuel,
        {
            fuel = fuel - 1;
            self.find_next();
            match self.process() {
                None => {
                    return None;
                },
                Some(m) => {
                    if self.root.validate() && m.validate_bounds() {
                        if self.root.check_move(&m) {
                            return Some(m);
                        }
                    }
                },
            }
        }
        None
    }
}

impl Move {
    /// Every action of the move carries numbers in the working band.
    pub fn validate_bounds(&self) -> (r: bool)
        ensures
            r ==> self.wf(),
    {
        let n = self.actions.len();
        if n > 1000 {
            return false;
        }
        let mut i: usize = 0;
        while i < n
            invariant
                0 <= i <= n,
                n == self.actions@.len(),
                forall|j: int| 0 <= j < i ==> (#[trigger] self.actions@[j]).bounded(),
            decreases n - i,
        {
            match self.actions[i] {
                Action::Accelerate(a) => {
                    if !(-1_000_000 <= a.acc && a.acc <= 1_000_000) {
                        return false;
                    }
                },
                Action::Advance(a) => {
                    if !(-1_000_000 <= a.distance && a.distance <= 1_000_000) {
                        return false;
                    }
                },
                _ => {},
            }
            i = i + 1;
        }
        true
    }
}



/// The key by which the simple-move heuristic ranks pushes: the turn distance
/// from the segment orientation, and a fixed weight of two without one.
pub fn push_key(rotation: Option<CubeDir>, p: Push) -> (r: i32)
    ensures
        0 <= r <= 3,
{
    match rotation {
        Some(rot) => {
            let c = rot.turn_count_to(p.direction);
            if c < 0 {
                -c
            } else {
                c
            }
        },
        None => 2,
    }
}

} // verus!
