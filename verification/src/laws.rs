//! The general laws of the engine, stated and proved once over the spec-level
//! models that the executable functions' contracts are written in.

use vstd::prelude::*;
use crate::action::{Accelerate, Action, Advance};
use crate::cube::{spec_dir_vec, CubeDir, CubeVec};
use crate::moves::coalesce_seq;
use crate::state::{adv_step, spec_advance_limit, StateView};

verus! {

/// Turning a direction onto itself takes no turns.
pub proof fn law_turn_count_to_self(d: CubeDir)
    ensures
        d.spec_turn_count_to(d) == 0,
{
}

/// Rotating a direction by `t` turns, for `t` in the reported band `-2..=3`,
/// is undone exactly by the shortest-turn count: the count back to the
/// rotated direction is `t` itself.
pub proof fn law_turn_count_to_rotated(d: CubeDir, t: int)
    requires
        -2 <= t <= 3,
    ensures
        d.spec_turn_count_to(d.spec_rotated_by(t)) == t,
{
}

/// Rotating a direction by its shortest-turn count to a target reaches the
/// target.
pub proof fn law_rotated_by_turn_count(d: CubeDir, target: CubeDir)
    ensures
        d.spec_rotated_by(d.spec_turn_count_to(target)) == target,
{
}

/// Rotating a vector by a whole revolution changes nothing; rotating by
/// nothing changes nothing either.
pub proof fn law_rotate_full_revolution(v: CubeVec)
    ensures
        v.spec_rotated_by(6) == v,
        v.spec_rotated_by(0) == v,
{
}

/// Rotation preserves the cube invariant.
pub proof fn law_rotate_preserves_invariant(v: CubeVec, n: int)
    requires
        v.wf(),
        v.small(1_000_000_000),
    ensures
        v.spec_rotated_by(n).wf(),
{
}

/// Rotation preserves the squared length of a vector.
pub proof fn law_rotate_preserves_squared_length(v: CubeVec, n: int)
    requires
        v.small(1_000_000_000),
    ensures
        ({
            let w = v.spec_rotated_by(n);
            w.q * w.q + w.r * w.r + w.s * w.s == v.q * v.q + v.r * v.r + v.s * v.s
        }),
{
    let w = v.spec_rotated_by(n);
    assert(w.q * w.q + w.r * w.r + w.s * w.s == v.q * v.q + v.r * v.r + v.s * v.s)
        by (nonlinear_arith)
        requires
            (w.q == v.q || w.q == v.r || w.q == v.s || w.q == -v.q || w.q == -v.r || w.q == -v.s)
                && (w.r == v.q || w.r == v.r || w.r == v.s || w.r == -v.q || w.r == -v.r || w.r
                == -v.s) && (w.s == v.q || w.s == v.r || w.s == v.s || w.s == -v.q || w.s == -v.r
                || w.s == -v.s) && ({
                ||| (w.q == v.q && w.r == v.r && w.s == v.s)
                ||| (w.q == v.r && w.r == v.s && w.s == v.q)
                ||| (w.q == v.s && w.r == v.q && w.s == v.r)
                ||| (w.q == -v.q && w.r == -v.r && w.s == -v.s)
                ||| (w.q == -v.r && w.r == -v.s && w.s == -v.q)
                ||| (w.q == -v.s && w.r == -v.q && w.s == -v.r)
            }),
    ;
}

/// Rotating a vector by half a revolution more negates the rotation: for
/// every `n`, the rotation by `n` is the negation of the rotation by `n + 3`.
pub proof fn law_rotate_opposite(v: CubeVec, n: int)
    requires
        v.small(1_000_000_000),
    ensures
        v.spec_rotated_by(n) == v.spec_rotated_by(n + 3).spec_negated(),
{
    let a = v.spec_rotated_by(n);
    let b = v.spec_rotated_by(n + 3);
    assert((n + 3) % 3 == n % 3);
    assert((n + 3) % 2 == (n + 1) % 2);
}

/// A move that the validator accepts spends the mover's movement budget
/// exactly: the state after the actions, before pickups and turn
/// progression, has zero movement left.
pub proof fn law_applied_move_has_zero_movement(sv: StateView, actions: Seq<Action>)
    requires
        sv.move_mid(actions) is Ok,
    ensures
        sv.move_mid(actions)->Ok_0.spec_current_ship().movement == 0,
{
}

/// Coalescing merges only advancements: it never lengthens a move, and a
/// move without consecutive advancements is kept as it is.
pub proof fn law_coalesce_shortens(actions: Seq<Action>)
    ensures
        coalesce_seq(actions).len() <= actions.len(),
{
    crate::moves::lemma_coalesce_len(actions);
}

/// The unit vectors of a direction and of its opposite cancel.
pub proof fn law_opposite_direction_cancels(d: CubeDir)
    ensures
        spec_dir_vec(d).spec_plus(spec_dir_vec(d.spec_rotated_by(3))) == (CubeVec {
            q: 0,
            r: 0,
            s: 0,
        }),
{
}

/// The opening scenario: a fresh ship (speed one, a free acceleration
/// credit, full movement) that accelerates by one and advances two cells
/// over open water ends its move with speed two, its coal untouched, its
/// movement spent exactly, and its position two cells ahead.
#[verifier::rlimit(100)]
#[verifier::spinoff_prover]
pub proof fn law_opening_acceleration_and_advance(sv: StateView)
    requires
        ({
            let ship = sv.spec_current_ship();
            let c1 = ship.position.spec_plus(spec_dir_vec(ship.direction));
            let c2 = c1.spec_plus(spec_dir_vec(ship.direction));
            &&& ship.speed == 1
            &&& ship.coal == 6
            &&& ship.free_turns == 1
            &&& ship.free_acc == 1
            &&& ship.movement == 1
            &&& ship.position.wf()
            &&& ship.position.small(1_000_000)
            &&& !sv.spec_must_push()
            &&& !sv.board.spec_is_sandbank_at(ship.position)
            &&& sv.board.spec_is_empty_at(c1)
            &&& sv.board.spec_is_empty_at(c2)
            &&& !sv.board.spec_has_current(c1)
            &&& !sv.board.spec_has_current(c2)
            &&& !sv.board.spec_is_sandbank_at(c1)
            &&& !sv.board.spec_is_sandbank_at(c2)
            &&& c1 != sv.ship_one.position && c1 != sv.ship_two.position
            &&& c2 != sv.ship_one.position && c2 != sv.ship_two.position
        }),
    ensures
        ({
            let m = seq![
                Action::Accelerate(Accelerate { acc: 1 }),
                Action::Advance(Advance { distance: 2 }),
            ];
            let ship = sv.spec_current_ship();
            &&& sv.move_mid(m) is Ok
            &&& sv.move_mid(m)->Ok_0.spec_current_ship() == (AdjustedShip {
                speed: 2,
                movement: 0,
                free_acc: 0,
                position: ship.position.spec_plus(spec_dir_vec(ship.direction).spec_scaled(2)),
                ship,
            }).value()
        }),
{
    reveal_with_fuel(StateView::apply_actions_from, 3);
    reveal_with_fuel(adv_step, 3);
    reveal_with_fuel(crate::moves::coalesce_seq, 3);
    let ship = sv.spec_current_ship();
    let dv = spec_dir_vec(ship.direction);
    let c1 = ship.position.spec_plus(dv);
    let c2 = c1.spec_plus(dv);
    let a0 = Action::Accelerate(Accelerate { acc: 1 });
    let a1 = Action::Advance(Advance { distance: 2 });
    let m = seq![a0, a1];
    assert(m.drop_last() =~= seq![a0]);
    assert(seq![a0].drop_last() =~= Seq::<Action>::empty());
    assert(coalesce_seq(Seq::<Action>::empty()) =~= Seq::<Action>::empty());
    assert(coalesce_seq(seq![a0]) =~= seq![a0]);
    assert(coalesce_seq(m) =~= m);

    let out0 = sv.accelerate_outcome(Accelerate { acc: 1 });
    let ship1 = ship.spec_apply_acceleration(Accelerate { acc: 1 });
    assert(ship1 == (AdjustedShip { speed: 2, movement: 2, free_acc: 0, position: ship.position, ship })
        .value());
    assert(out0 == Ok::<StateView, crate::mistake::AccelerateProblem>(
        sv.with_ship(sv.current_team, ship1),
    ));
    let sv1 = sv.with_ship(sv.current_team, ship1);
    assert(sv1.spec_current_ship() == ship1);
    assert(sv1.spec_other_ship() == sv.spec_other_ship());
    assert(sv1.ship_one.position == sv.ship_one.position);
    assert(sv1.ship_two.position == sv.ship_two.position);
    assert(!sv1.spec_must_push());

    crate::state::lemma_dir_scaled_step(ship.direction, 0);
    crate::state::lemma_dir_scaled_step(ship.direction, 1);
    assert(dv.spec_scaled(1) == dv);
    assert(ship.position.spec_plus(dv.spec_scaled(2)) == c2);

    let limit = spec_advance_limit(
        sv1.board,
        sv1.ship_one.position,
        sv1.ship_two.position,
        ship1.position,
        ship1.direction,
        2,
    );
    assert(limit.costs =~= seq![1int, 2int]);
    let out1 = sv1.advance_outcome(Advance { distance: 2 });
    let ship2 = (AdjustedShip {
        speed: 2,
        movement: 0,
        free_acc: 0,
        position: c2,
        ship,
    }).value();
    assert(out1 == Ok::<StateView, crate::mistake::AdvanceProblem>(
        sv1.with_ship(sv1.current_team, ship2),
    ));
    let sv2 = sv1.with_ship(sv1.current_team, ship2);
    assert(sv.apply_actions_from(m, 0) == Ok::<StateView, crate::mistake::MoveMistake>(sv2));
    assert(sv2.spec_current_ship() == ship2);
    assert(sv.move_mid(m) == Ok::<StateView, crate::mistake::MoveMistake>(sv2));
}

/// A ship record with the scenario's changed fields substituted, used to
/// state [`law_opening_acceleration_and_advance`] compactly.
pub ghost struct AdjustedShip {
    pub speed: i32,
    pub movement: i32,
    pub free_acc: i32,
    pub position: CubeVec,
    pub ship: crate::ship::Ship,
}

impl AdjustedShip {
    /// The substituted ship.
    pub open spec fn value(self) -> crate::ship::Ship {
        crate::ship::Ship {
            speed: self.speed,
            movement: self.movement,
            free_acc: self.free_acc,
            position: self.position,
            ..self.ship
        }
    }
}

} // verus!
