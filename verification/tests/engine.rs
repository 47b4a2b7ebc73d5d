//! Tests of the game engine: direction arithmetic, legality queries, move
//! application and enumeration, and termination detection.

use socha_client_2024::action::{Accelerate, Action, Advance};
use socha_client_2024::board::Board;
use socha_client_2024::cube::{CubeDir, CubeVec};
use socha_client_2024::field::Field;
use socha_client_2024::moves::Move;
use socha_client_2024::segment::Segment;
use socha_client_2024::ship::Ship;
use socha_client_2024::state::State;
use socha_client_2024::team::Team;

fn water_segment(center: CubeVec) -> Segment {
    Segment {
        direction: CubeDir::Right,
        center,
        fields: vec![vec![Field::Water; 5]; 4],
    }
}

fn ship(team: Team, position: CubeVec) -> Ship {
    Ship {
        team,
        position,
        direction: CubeDir::Right,
        speed: 1,
        coal: 6,
        passengers: 0,
        free_turns: 1,
        points: 0,
        movement: 1,
        free_acc: 1,
    }
}

fn open_state() -> State {
    State {
        board: Board {
            segments: vec![water_segment(CubeVec::new(0, 0, 0))],
            next_direction: CubeDir::DownRight,
        },
        turn: 0,
        ship_one: ship(Team::One, CubeVec::new(-1, -1, 2)),
        ship_two: ship(Team::Two, CubeVec::new(-2, 1, 1)),
        last_move: None,
        start_team: Team::One,
        current_team: Team::One,
    }
}

#[test]
fn test_turn_counts() {
    assert_eq!(CubeDir::Right.turn_count_to(CubeDir::Right), 0);
    assert_eq!(CubeDir::Right.turn_count_to(CubeDir::DownRight), 1);
    assert_eq!(CubeDir::Right.turn_count_to(CubeDir::DownLeft), 2);
    assert_eq!(CubeDir::Right.turn_count_to(CubeDir::Left), 3);
    assert_eq!(CubeDir::Right.turn_count_to(CubeDir::UpLeft), -2);
    assert_eq!(CubeDir::Right.turn_count_to(CubeDir::UpRight), -1);

    assert_eq!(CubeDir::DownRight.turn_count_to(CubeDir::Right), -1);
    assert_eq!(CubeDir::DownRight.turn_count_to(CubeDir::DownRight), 0);
    assert_eq!(CubeDir::DownRight.turn_count_to(CubeDir::DownLeft), 1);
    assert_eq!(CubeDir::DownRight.turn_count_to(CubeDir::Left), 2);
    assert_eq!(CubeDir::DownRight.turn_count_to(CubeDir::UpLeft), 3);
    assert_eq!(CubeDir::DownRight.turn_count_to(CubeDir::UpRight), -2);
}

#[test]
fn test_rotation_laws() {
    let v = CubeVec::new(2, -3, 1);
    assert_eq!(v.rotated_by(6), v);
    for n in -6..=6 {
        assert_eq!(v.rotated_by(n), v.rotated_by(n + 3).negated());
    }
    for t in -2..=3 {
        for d in [
            CubeDir::Right,
            CubeDir::DownRight,
            CubeDir::DownLeft,
            CubeDir::Left,
            CubeDir::UpLeft,
            CubeDir::UpRight,
        ] {
            assert_eq!(d.turn_count_to(d.rotated_by(t)), t);
        }
    }
}

#[test]
fn test_legality_queries_do_not_mutate() {
    let state = open_state();
    let snapshot = state.duplicate();
    let turns_a = state.possible_turns();
    let advances_a = state.possible_advances();
    let pushes_a = state.possible_pushes();
    let accs_a = state.possible_accelerations();
    let turns_b = state.possible_turns();
    let advances_b = state.possible_advances();
    let pushes_b = state.possible_pushes();
    let accs_b = state.possible_accelerations();
    assert_eq!(turns_a, turns_b);
    assert_eq!(advances_a, advances_b);
    assert_eq!(pushes_a, pushes_b);
    assert_eq!(accs_a, accs_b);
    assert_eq!(state, snapshot);
}

#[test]
fn test_possible_moves_all_apply() {
    let state = open_state();
    let mut it = state.possible_moves();
    let mut count = 0;
    while let Some(m) = it.next() {
        if m.is_empty() {
            continue;
        }
        if let Err(e) = state.child(m.clone()) {
            panic!("enumerated move {:?} could not be applied: {:?}", m, e);
        }
        count += 1;
        if count > 500 {
            break;
        }
    }
    assert!(count > 0, "expected at least one legal move");
}

#[test]
fn test_accelerate_then_advance() {
    let state = open_state();
    let m = Move {
        actions: vec![Action::accelerate(1), Action::advance(2)],
    };
    let next = state.child(m).expect("the opening move should be legal");
    let moved = next.ship(Team::One);
    assert_eq!(moved.speed, 2);
    assert_eq!(moved.coal, 6);
    assert_eq!(moved.position, CubeVec::new(1, -1, 0));
    // The move spent the budget exactly; afterwards the ship's movement is
    // reset to its speed for the next turn.
    assert_eq!(moved.movement, moved.speed);
}

#[test]
fn test_must_push_blocks_other_actions() {
    let mut state = open_state();
    state.ship_two.position = state.ship_one.position;
    assert!(state.must_push());
    assert!(state.possible_advances().is_empty());
    assert!(state.possible_turns().is_empty());
    state.ship_one.movement = 1;
    assert!(!state.possible_pushes().is_empty());
}

#[test]
fn test_sandbank_advances_are_single_steps() {
    let mut state = open_state();
    let mut fields = vec![vec![Field::Water; 5]; 4];
    // Put the ship on a sandbank at (0, -1, 1), local column 1, row 1; both
    // neighbours along its facing axis are open water.
    fields[1][1] = Field::Sandbank;
    state.board.segments[0].fields = fields;
    state.ship_one.position = CubeVec::new(0, -1, 1);
    let advances = state.possible_advances();
    assert_eq!(advances, vec![Advance::new(-1), Advance::new(1)]);

    // Block the forward escape: only the backward one remains.
    state.board.segments[0].fields[2][1] = Field::Island;
    let advances = state.possible_advances();
    assert_eq!(advances, vec![Advance::new(-1)]);
}

#[test]
fn test_is_over_on_goal() {
    let mut state = open_state();
    let mut fields = vec![vec![Field::Water; 5]; 4];
    fields[0][1] = Field::Goal;
    state.board.segments[0].fields = fields;
    state.ship_one.passengers = 2;
    state.ship_one.speed = 1;
    assert!(state.is_over());
}

#[test]
fn test_not_over_at_start() {
    let state = open_state();
    assert!(!state.is_over());
}

#[test]
fn test_coalesced_merges_advances() {
    let m = Move {
        actions: vec![
            Action::advance(1),
            Action::advance(2),
            Action::turn(CubeDir::Left),
            Action::advance(3),
        ],
    };
    let c = m.coalesced();
    assert_eq!(
        c.actions,
        vec![Action::advance(3), Action::turn(CubeDir::Left), Action::advance(3)]
    );
}

#[test]
fn test_check_move_decides_legality() {
    let state = open_state();
    let good = Move {
        actions: vec![Action::accelerate(1), Action::advance(2)],
    };
    assert!(state.check_move(&good));
    assert_eq!(state.move_mid_coal(&good), Some(6));
    let empty = Move::new();
    assert!(!state.check_move(&empty));
    let leftover = Move {
        actions: vec![Action::accelerate(1), Action::advance(1)],
    };
    assert!(!state.check_move(&leftover), "a move leaving movement unspent is illegal");
}

#[test]
fn test_empty_move_is_rejected() {
    let mut state = open_state();
    let err = state.perform(Move::new()).unwrap_err();
    assert_eq!(err, socha_client_2024::mistake::MoveMistake::NoActions);
}

#[test]
fn test_accelerations_respect_budget() {
    let state = open_state();
    let accs = state.possible_accelerations();
    assert!(accs.contains(&Accelerate::new(1)));
    assert!(accs.iter().all(|a| a.acc != 0 && a.acc.abs() <= 7));
    // Every offered delta keeps the resulting speed within the legal band.
    let speed = state.ship(Team::One).speed;
    assert!(accs.iter().all(|a| (1..=6).contains(&(speed + a.acc))));
    // From speed 2 a slow-down below the minimum speed is not offered.
    let mut faster = open_state();
    faster.ship_one.speed = 2;
    faster.ship_one.movement = 2;
    let accs = faster.possible_accelerations();
    assert!(accs.contains(&Accelerate::new(-1)));
    assert!(!accs.contains(&Accelerate::new(-2)));
}

#[test]
fn test_sensible_moves_apply() {
    let state = open_state();
    let moves = state.sensible_moves();
    assert!(!moves.is_empty());
    for m in moves {
        assert!(state.child(m.clone()).is_ok(), "sensible move could not be applied");
    }
}

#[test]
fn test_pick_up_passenger_adjacent() {
    let mut state = open_state();
    let mut fields = vec![vec![Field::Water; 5]; 4];
    // Neighbour of the ship at (-1, -1, 2) in direction Right is (0, -1, 1),
    // local column 1, row 1: a passenger field facing back Left at the ship.
    fields[1][1] = Field::Passenger {
        direction: CubeDir::Left,
        passenger: 1,
    };
    state.board.segments[0].fields = fields;
    let mut s = state.ship_one;
    let picked = state.board.pick_up_passenger(&mut s);
    assert!(picked);
    assert_eq!(s.passengers, 1);
    let picked_again = state.board.pick_up_passenger(&mut s);
    assert!(!picked_again, "the passenger field should be exhausted");
}
