//! Conversions between the attribute tree and the engine's values: the
//! deserialization of states and the serialization of moves, together with
//! the enumeration tokens of the wire format.

use vstd::prelude::*;
use crate::action::{Accelerate, Action, Advance, Push, Turn};
use crate::board::{Board, BoardView};
use crate::cube::{CubeDir, CubeVec};
use crate::error::Error;
use crate::field::Field;
use crate::moves::Move;
use crate::numbers::{format_i32, int_to_chars, parse_i32, spec_parse_i32};
use crate::segment::{Segment, SegmentView};
use crate::ship::Ship;
use crate::state::{State, StateView};
use crate::team::Team;
use crate::xml::{spec_attr, spec_child_by_name, spec_childs_by_name, Element};

verus! {

/// The wire token of a direction.
pub open spec fn spec_dir_name(d: CubeDir) -> Seq<char> {
    match d {
        CubeDir::Right => "RIGHT"@,
        CubeDir::DownRight => "DOWN_RIGHT"@,
        CubeDir::DownLeft => "DOWN_LEFT"@,
        CubeDir::Left => "LEFT"@,
        CubeDir::UpLeft => "UP_LEFT"@,
        CubeDir::UpRight => "UP_RIGHT"@,
    }
}

/// The direction denoted by a wire token, if any.
pub open spec fn spec_parse_dir(s: Seq<char>) -> Option<CubeDir> {
    if s == "RIGHT"@ {
        Some(CubeDir::Right)
    } else if s == "DOWN_RIGHT"@ {
        Some(CubeDir::DownRight)
    } else if s == "DOWN_LEFT"@ {
        Some(CubeDir::DownLeft)
    } else if s == "LEFT"@ {
        Some(CubeDir::Left)
    } else if s == "UP_LEFT"@ {
        Some(CubeDir::UpLeft)
    } else if s == "UP_RIGHT"@ {
        Some(CubeDir::UpRight)
    } else {
        None
    }
}

/// The six direction tokens denote their directions and nothing else.
pub proof fn lemma_dir_name_roundtrip(d: CubeDir)
    ensures
        spec_parse_dir(spec_dir_name(d)) == Some(d),
{
    reveal_strlit("RIGHT");
    reveal_strlit("DOWN_RIGHT");
    reveal_strlit("DOWN_LEFT");
    reveal_strlit("LEFT");
    reveal_strlit("UP_LEFT");
    reveal_strlit("UP_RIGHT");
    assert("RIGHT"@.len() == 5);
    assert("DOWN_RIGHT"@.len() == 10);
    assert("DOWN_LEFT"@.len() == 9);
    assert("LEFT"@.len() == 4);
    assert("UP_LEFT"@.len() == 7);
    assert("UP_RIGHT"@.len() == 8);
}

/// The wire token of a direction.
pub fn dir_name(d: CubeDir) -> (r: &'static str)
    ensures
        r@ == spec_dir_name(d),
{
    match d {
        CubeDir::Right => "RIGHT",
        CubeDir::DownRight => "DOWN_RIGHT",
        CubeDir::DownLeft => "DOWN_LEFT",
        CubeDir::Left => "LEFT",
        CubeDir::UpLeft => "UP_LEFT",
        CubeDir::UpRight => "UP_RIGHT",
    }
}

/// Parses a direction token (see [`spec_parse_dir`]).
pub fn parse_dir(s: &str) -> (r: Result<CubeDir, Error>)
    ensures
        match r {
            Ok(d) => spec_parse_dir(s@) == Some(d),
            Err(_) => spec_parse_dir(s@) is None,
        },
{
    let t = s.to_owned();
    if t == "RIGHT".to_owned() {
        Ok(CubeDir::Right)
    } else if t == "DOWN_RIGHT".to_owned() {
        Ok(CubeDir::DownRight)
    } else if t == "DOWN_LEFT".to_owned() {
        Ok(CubeDir::DownLeft)
    } else if t == "LEFT".to_owned() {
        Ok(CubeDir::Left)
    } else if t == "UP_LEFT".to_owned() {
        Ok(CubeDir::UpLeft)
    } else if t == "UP_RIGHT".to_owned() {
        Ok(CubeDir::UpRight)
    } else {
        Err(Error::UnknownVariant(s.to_owned()))
    }
}

/// The wire token of a team.
pub open spec fn spec_team_name(t: Team) -> Seq<char> {
    match t {
        Team::One => "ONE"@,
        Team::Two => "TWO"@,
    }
}

/// The team denoted by a wire token, if any.
pub open spec fn spec_parse_team(s: Seq<char>) -> Option<Team> {
    if s == "ONE"@ {
        Some(Team::One)
    } else if s == "TWO"@ {
        Some(Team::Two)
    } else {
        None
    }
}

/// The two team tokens denote their teams.
pub proof fn lemma_team_name_roundtrip(t: Team)
    ensures
        spec_parse_team(spec_team_name(t)) == Some(t),
{
    reveal_strlit("ONE");
    reveal_strlit("TWO");
    assert("ONE"@.len() == 3);
    assert("TWO"@.len() == 3);
    assert("ONE"@[0] == 'O');
    assert("TWO"@[0] == 'T');
}

/// The wire token of a team.
pub fn team_name(t: Team) -> (r: &'static str)
    ensures
        r@ == spec_team_name(t),
{
    match t {
        Team::One => "ONE",
        Team::Two => "TWO",
    }
}

/// Parses a team token (see [`spec_parse_team`]).
pub fn parse_team(s: &str) -> (r: Result<Team, Error>)
    ensures
        match r {
            Ok(t) => spec_parse_team(s@) == Some(t),
            Err(_) => spec_parse_team(s@) is None,
        },
{
    let t = s.to_owned();
    if t == "ONE".to_owned() {
        Ok(Team::One)
    } else if t == "TWO".to_owned() {
        Ok(Team::Two)
    } else {
        Err(Error::UnknownVariant(s.to_owned()))
    }
}

/// Whether the element is the wire form of the given action: one tag per
/// action kind, carrying that action's numeric or direction attribute.
pub open spec fn action_elem_matches(e: Element, a: Action) -> bool {
    &&& e.attributes@.len() == 1
    &&& e.childs@.len() == 0
    &&& match a {
        Action::Accelerate(x) => e.name@ == "acceleration"@ && e.attributes@[0].0@ == "acc"@
            && e.attributes@[0].1@ == int_to_chars(x.acc as int),
        Action::Advance(x) => e.name@ == "advance"@ && e.attributes@[0].0@ == "distance"@
            && e.attributes@[0].1@ == int_to_chars(x.distance as int),
        Action::Push(x) => e.name@ == "push"@ && e.attributes@[0].0@ == "direction"@
            && e.attributes@[0].1@ == spec_dir_name(x.direction),
        Action::Turn(x) => e.name@ == "turn"@ && e.attributes@[0].0@ == "direction"@
            && e.attributes@[0].1@ == spec_dir_name(x.direction),
    }
}

/// The action denoted by an element, if any.
pub open spec fn spec_parse_action(e: Element) -> Option<Action> {
    if e.name@ == "acceleration"@ {
        match spec_attr(e, "acc"@) {
            Some(v) => match spec_parse_i32(v) {
                Some(n) => Some(Action::Accelerate(Accelerate { acc: n })),
                None => None,
            },
            None => None,
        }
    } else if e.name@ == "advance"@ {
        match spec_attr(e, "distance"@) {
            Some(v) => match spec_parse_i32(v) {
                Some(n) => Some(Action::Advance(Advance { distance: n })),
                None => None,
            },
            None => None,
        }
    } else if e.name@ == "push"@ {
        match spec_attr(e, "direction"@) {
            Some(v) => match spec_parse_dir(v) {
                Some(d) => Some(Action::Push(Push { direction: d })),
                None => None,
            },
            None => None,
        }
    } else if e.name@ == "turn"@ {
        match spec_attr(e, "direction"@) {
            Some(v) => match spec_parse_dir(v) {
                Some(d) => Some(Action::Turn(Turn { direction: d })),
                None => None,
            },
            None => None,
        }
    } else {
        None
    }
}

/// An element in the wire form of an action denotes exactly that action.
pub proof fn lemma_action_roundtrip(e: Element, a: Action)
    requires
        action_elem_matches(e, a),
    ensures
        spec_parse_action(e) == Some(a),
{
    reveal_strlit("acceleration");
    reveal_strlit("advance");
    reveal_strlit("push");
    reveal_strlit("turn");
    reveal_strlit("acc");
    reveal_strlit("distance");
    reveal_strlit("direction");
    assert("acceleration"@.len() == 12);
    assert("advance"@.len() == 7);
    assert("push"@.len() == 4);
    assert("turn"@.len() == 4);
    assert("push"@[0] == 'p');
    assert("turn"@[0] == 't');
    assert("acc"@.len() == 3);
    assert("distance"@.len() == 8);
    assert("direction"@.len() == 9);
    assert(spec_attr(e, e.attributes@[0].0@) == Some(e.attributes@[0].1@));
    match a {
        Action::Accelerate(x) => {
            crate::numbers::lemma_parse_format_roundtrip(x.acc as int);
        },
        Action::Advance(x) => {
            crate::numbers::lemma_parse_format_roundtrip(x.distance as int);
        },
        Action::Push(x) => {
            lemma_dir_name_roundtrip(x.direction);
        },
        Action::Turn(x) => {
            lemma_dir_name_roundtrip(x.direction);
        },
    }
}

impl Action {
    /// The wire form of the action (see [`action_elem_matches`]).
    pub fn to_element(&self) -> (r: Element)
        ensures
            action_elem_matches(r, *self),
    {
        match self {
            Action::Accelerate(x) => {
                let v = format_i32(x.acc);
                Element::new("acceleration").attribute("acc", v.as_str()).build()
            },
            Action::Advance(x) => {
                let v = format_i32(x.distance);
                Element::new("advance").attribute("distance", v.as_str()).build()
            },
            Action::Push(x) => Element::new("push").attribute(
                "direction",
                dir_name(x.direction),
            ).build(),
            Action::Turn(x) => Element::new("turn").attribute(
                "direction",
                dir_name(x.direction),
            ).build(),
        }
    }

    /// Parses an action from its wire form (see [`spec_parse_action`]).
    pub fn from_element(e: &Element) -> (r: Result<Action, Error>)
        ensures
            match r {
                Ok(a) => spec_parse_action(*e) == Some(a),
                Err(_) => spec_parse_action(*e) is None,
            },
    {
        let name = e.name().clone();
        if name == "acceleration".to_owned() {
            match e.attribute("acc") {
                Ok(v) => match parse_i32(v.as_str()) {
                    Some(n) => Ok(Action::Accelerate(Accelerate { acc: n })),
                    None => Err(Error::ParseInt(v.clone())),
                },
                Err(err) => Err(err),
            }
        } else if name == "advance".to_owned() {
            match e.attribute("distance") {
                Ok(v) => match parse_i32(v.as_str()) {
                    Some(n) => Ok(Action::Advance(Advance { distance: n })),
                    None => Err(Error::ParseInt(v.clone())),
                },
                Err(err) => Err(err),
            }
        } else if name == "push".to_owned() {
            match e.attribute("direction") {
                Ok(v) => match parse_dir(v.as_str()) {
                    Ok(d) => Ok(Action::Push(Push { direction: d })),
                    Err(err) => Err(err),
                },
                Err(err) => Err(err),
            }
        } else if name == "turn".to_owned() {
            match e.attribute("direction") {
                Ok(v) => match parse_dir(v.as_str()) {
                    Ok(d) => Ok(Action::Turn(Turn { direction: d })),
                    Err(err) => Err(err),
                },
                Err(err) => Err(err),
            }
        } else {
            Err(Error::UnknownElement(name))
        }
    }
}

/// The actions denoted by a sequence of elements, failing on the first
/// element that denotes none, scanning from position `k`.
pub open spec fn spec_parse_actions(childs: Seq<Element>, k: int) -> Option<Seq<Action>>
    decreases childs.len() - k,
{
    if k < 0 || k >= childs.len() {
        Some(Seq::empty())
    } else {
        match spec_parse_action(childs[k]) {
            Some(a) => match spec_parse_actions(childs, k + 1) {
                Some(rest) => Some(seq![a] + rest),
                None => None,
            },
            None => None,
        }
    }
}

/// Whether the element is the wire form of a move holding the given actions:
/// a `data` element of class `move` with one `actions` child that carries one
/// element per action.
pub open spec fn move_elem_matches(e: Element, actions: Seq<Action>) -> bool {
    &&& e.name@ == "data"@
    &&& spec_child_by_name(e, "actions"@) is Some
    &&& ({
        let ae = spec_child_by_name(e, "actions"@)->Some_0;
        &&& ae.childs@.len() == actions.len()
        &&& forall|i: int|
            0 <= i < actions.len() ==> action_elem_matches(
                #[trigger] ae.childs@[i],
                actions[i],
            )
    })
}

/// The move denoted by an element, if any.
pub open spec fn spec_parse_move(e: Element) -> Option<Seq<Action>> {
    match spec_child_by_name(e, "actions"@) {
        Some(ae) => spec_parse_actions(ae.childs@, 0),
        None => None,
    }
}

/// A suffix of elements in the wire form of actions denotes exactly those
/// actions.
pub proof fn lemma_actions_roundtrip(childs: Seq<Element>, actions: Seq<Action>, k: int)
    requires
        childs.len() == actions.len(),
        0 <= k <= childs.len(),
        forall|i: int|
            0 <= i < actions.len() ==> action_elem_matches(#[trigger] childs[i], actions[i]),
    ensures
        spec_parse_actions(childs, k) == Some(actions.skip(k)),
    decreases childs.len() - k,
{
    if k >= childs.len() {
        assert(actions.skip(k) =~= Seq::<Action>::empty());
    } else {
        lemma_action_roundtrip(childs[k], actions[k]);
        lemma_actions_roundtrip(childs, actions, k + 1);
        assert(actions.skip(k) =~= seq![actions[k]] + actions.skip(k + 1));
    }
}

/// An element in the wire form of a move denotes exactly that move's
/// actions.
pub proof fn lemma_move_roundtrip(e: Element, actions: Seq<Action>)
    requires
        move_elem_matches(e, actions),
    ensures
        spec_parse_move(e) == Some(actions),
{
    let ae = spec_child_by_name(e, "actions"@)->Some_0;
    lemma_actions_roundtrip(ae.childs@, actions, 0);
    assert(actions.skip(0) =~= actions);
}

impl Move {
    /// The wire form of the move (see [`move_elem_matches`]).
    pub fn to_element(&self) -> (r: Element)
        ensures
            move_elem_matches(r, self.actions@),
    {
        let n = self.actions.len();
        let mut children: Vec<Element> = Vec::new();
        let mut i: usize = 0;
        while i < n
            invariant
                0 <= i <= n,
                n == self.actions@.len(),
                children@.len() == i,
                forall|j: int|
                    0 <= j < i ==> action_elem_matches(
                        #[trigger] children@[j],
                        self.actions@[j],
                    ),
            decreases n - i,
        {
            children.push(self.actions[i].to_element());
            i = i + 1;
        }
        let actions_elem = Element::new("actions").childs(children).build();
        let r = Element::new("data").attribute("class", "move").child(actions_elem).build();
        proof {
            assert(crate::xml::child_from(r.childs@, "actions"@, 0) == Some(r.childs@[0]));
        }
        r
    }

    /// Parses a move from its wire form (see [`spec_parse_move`]).
    pub fn from_element(e: &Element) -> (r: Result<Move, Error>)
        ensures
            match r {
                Ok(m) => spec_parse_move(*e) == Some(m.actions@),
                Err(_) => spec_parse_move(*e) is None,
            },
    {
        let actions_elem = match e.child_by_name("actions") {
            Ok(ae) => ae,
            Err(err) => {
                return Err(err);
            },
        };
        let n = actions_elem.childs.len();
        let mut actions: Vec<Action> = Vec::new();
        let mut i: usize = 0;
        while i < n
            invariant
                0 <= i <= n,
                n == actions_elem.childs@.len(),
                actions@.len() == i,
                spec_child_by_name(*e, "actions"@) == Some(*actions_elem),
                spec_parse_actions(actions_elem.childs@, 0) == (match spec_parse_actions(
                    actions_elem.childs@,
                    i as int,
                ) {
                    Some(rest) => Some(actions@ + rest),
                    None => None::<Seq<Action>>,
                }),
            decreases n - i,
        {
            let child = &actions_elem.childs[i];
            match Action::from_element(child) {
                Ok(a) => {
                    actions.push(a);
                },
                Err(err) => {
                    return Err(err);
                },
            }
            proof {
                assert(spec_parse_actions(actions_elem.childs@, i as int) == (
                match spec_parse_actions(actions_elem.childs@, i + 1) {
                    Some(rest) => Some(seq![spec_parse_action(actions_elem.childs@[i as int])->Some_0] + rest),
                    None => None::<Seq<Action>>,
                }));
                assert(forall|rest: Seq<Action>|
                    actions@ =~= (actions@.drop_last() + (seq![actions@.last()] + rest)).take(
                        actions@.len() as int,
                    ));
            }
            i = i + 1;
            proof {
                match spec_parse_actions(actions_elem.childs@, i as int) {
                    Some(rest) => {
                        assert(actions@.drop_last() + (seq![actions@.last()] + rest) =~= actions@
                            + rest);
                    },
                    None => {},
                }
            }
        }
        proof {
            assert(actions@ + Seq::<Action>::empty() =~= actions@);
        }
        Ok(Move { actions })
    }
}

/// The position denoted by an element, if any: the three cube components as
/// attributes, each within the coordinate working range.
pub open spec fn spec_parse_vec(e: Element) -> Option<CubeVec> {
    match spec_attr(e, "q"@) {
        Some(qv) => match spec_parse_i32(qv) {
            Some(q) => match spec_attr(e, "r"@) {
                Some(rv) => match spec_parse_i32(rv) {
                    Some(r) => match spec_attr(e, "s"@) {
                        Some(sv) => match spec_parse_i32(sv) {
                            Some(s) => if -10_000_000 <= q <= 10_000_000 && -10_000_000 <= r
                                <= 10_000_000 && -10_000_000 <= s <= 10_000_000 {
                                Some(CubeVec { q, r, s })
                            } else {
                                None
                            },
                            None => None,
                        },
                        None => None,
                    },
                    None => None,
                },
                None => None,
            },
            None => None,
        },
        None => None,
    }
}

impl CubeVec {
    /// Parses a position from its wire form (see [`spec_parse_vec`]); the
    /// cube invariant is checked by the callers that require it.
    pub fn from_element(e: &Element) -> (r: Result<CubeVec, Error>)
        ensures
            match r {
                Ok(v) => spec_parse_vec(*e) == Some(v) && v.small(10_000_000),
                Err(_) => spec_parse_vec(*e) is None,
            },
    {
        let q = match e.attribute("q") {
            Ok(v) => match parse_i32(v.as_str()) {
                Some(n) => n,
                None => {
                    return Err(Error::ParseInt(v.clone()));
                },
            },
            Err(err) => {
                return Err(err);
            },
        };
        let rr = match e.attribute("r") {
            Ok(v) => match parse_i32(v.as_str()) {
                Some(n) => n,
                None => {
                    return Err(Error::ParseInt(v.clone()));
                },
            },
            Err(err) => {
                return Err(err);
            },
        };
        let s = match e.attribute("s") {
            Ok(v) => match parse_i32(v.as_str()) {
                Some(n) => n,
                None => {
                    return Err(Error::ParseInt(v.clone()));
                },
            },
            Err(err) => {
                return Err(err);
            },
        };
        if !(-10_000_000 <= q && q <= 10_000_000 && -10_000_000 <= rr && rr <= 10_000_000
            && -10_000_000 <= s && s <= 10_000_000) {
            return Err(Error::InvalidState("position out of range".to_owned()));
        }
        Ok(CubeVec { q, r: rr, s })
    }
}

/// The field denoted by an element, if any: one tag per terrain kind, with
/// the approach direction and remaining count for passenger fields.
pub open spec fn spec_parse_field(e: Element) -> Option<Field> {
    if e.name@ == "water"@ {
        Some(Field::Water)
    } else if e.name@ == "island"@ {
        Some(Field::Island)
    } else if e.name@ == "goal"@ {
        Some(Field::Goal)
    } else if e.name@ == "sandbank"@ {
        Some(Field::Sandbank)
    } else if e.name@ == "passenger"@ {
        match spec_attr(e, "direction"@) {
            Some(dv) => match spec_parse_dir(dv) {
                Some(direction) => match spec_attr(e, "passenger"@) {
                    Some(pv) => match spec_parse_i32(pv) {
                        Some(n) => if n >= 0 {
                            Some(Field::Passenger { direction, passenger: n as usize })
                        } else {
                            None
                        },
                        None => None,
                    },
                    None => None,
                },
                None => None,
            },
            None => None,
        }
    } else {
        None
    }
}

impl Field {
    /// Parses a field from its wire form (see [`spec_parse_field`]).
    pub fn from_element(e: &Element) -> (r: Result<Field, Error>)
        ensures
            match r {
                Ok(f) => spec_parse_field(*e) == Some(f),
                Err(_) => spec_parse_field(*e) is None,
            },
    {
        let name = e.name().clone();
        if name == "water".to_owned() {
            Ok(Field::Water)
        } else if name == "island".to_owned() {
            Ok(Field::Island)
        } else if name == "goal".to_owned() {
            Ok(Field::Goal)
        } else if name == "sandbank".to_owned() {
            Ok(Field::Sandbank)
        } else if name == "passenger".to_owned() {
            let direction = match e.attribute("direction") {
                Ok(v) => match parse_dir(v.as_str()) {
                    Ok(d) => d,
                    Err(err) => {
                        return Err(err);
                    },
                },
                Err(err) => {
                    return Err(err);
                },
            };
            let passenger = match e.attribute("passenger") {
                Ok(v) => match parse_i32(v.as_str()) {
                    Some(n) => {
                        if n < 0 {
                            return Err(Error::ParseInt(v.clone()));
                        }
                        n as usize
                    },
                    None => {
                        return Err(Error::ParseInt(v.clone()));
                    },
                },
                Err(err) => {
                    return Err(err);
                },
            };
            Ok(Field::Passenger { direction, passenger })
        } else {
            Err(Error::UnknownElement(name))
        }
    }
}

/// The fields denoted by a sequence of elements, failing on the first one
/// that denotes none, scanning from position `k`.
pub open spec fn spec_parse_fields(childs: Seq<Element>, k: int) -> Option<Seq<Field>>
    decreases childs.len() - k,
{
    if k < 0 || k >= childs.len() {
        Some(Seq::empty())
    } else {
        match spec_parse_field(childs[k]) {
            Some(f) => match spec_parse_fields(childs, k + 1) {
                Some(rest) => Some(seq![f] + rest),
                None => None,
            },
            None => None,
        }
    }
}

/// The field columns denoted by a sequence of `field-array` elements: each
/// column must be of bounded size and every field must parse.
pub open spec fn spec_parse_columns(cols: Seq<Element>, k: int) -> Option<Seq<Seq<Field>>>
    decreases cols.len() - k,
{
    if k < 0 || k >= cols.len() {
        Some(Seq::empty())
    } else if cols[k].childs@.len() > 100 {
        None
    } else {
        match spec_parse_fields(cols[k].childs@, 0) {
            Some(row) => match spec_parse_columns(cols, k + 1) {
                Some(rest) => Some(seq![row] + rest),
                None => None,
            },
            None => None,
        }
    }
}

/// The segment denoted by an element, if any: an orientation, a center in
/// the board's coordinate range satisfying the cube invariant, and at most a
/// hundred field columns.
pub open spec fn spec_parse_segment(e: Element) -> Option<SegmentView> {
    match spec_attr(e, "direction"@) {
        Some(dv) => match spec_parse_dir(dv) {
            Some(direction) => match spec_child_by_name(e, "center"@) {
                Some(ce) => match spec_parse_vec(ce) {
                    Some(center) => if -1_000_000 <= center.q <= 1_000_000 && -1_000_000
                        <= center.r <= 1_000_000 && -1_000_000 <= center.s <= 1_000_000
                        && center.q + center.r + center.s == 0 {
                        let cols = spec_childs_by_name(e, "field-array"@);
                        if cols.len() > 100 {
                            None
                        } else {
                            match spec_parse_columns(cols, 0) {
                                Some(fields) => Some(SegmentView { direction, center, fields }),
                                None => None,
                            }
                        }
                    } else {
                        None
                    },
                    None => None,
                },
                None => None,
            },
            None => None,
        },
        None => None,
    }
}

impl Segment {
    /// Parses a segment from its wire form (see [`spec_parse_segment`]).
    pub fn from_element(e: &Element) -> (r: Result<Segment, Error>)
        ensures
            match r {
                Ok(s) => spec_parse_segment(*e) == Some(s@) && s.wf(),
                Err(_) => spec_parse_segment(*e) is None,
            },
    {
        let direction = match e.attribute("direction") {
            Ok(v) => match parse_dir(v.as_str()) {
                Ok(d) => d,
                Err(err) => {
                    return Err(err);
                },
            },
            Err(err) => {
                return Err(err);
            },
        };
        let center = match e.child_by_name("center") {
            Ok(c) => match CubeVec::from_element(c) {
                Ok(v) => v,
                Err(err) => {
                    return Err(err);
                },
            },
            Err(err) => {
                return Err(err);
            },
        };
        if !(-1_000_000 <= center.q && center.q <= 1_000_000 && -1_000_000 <= center.r && center.r
            <= 1_000_000 && -1_000_000 <= center.s && center.s <= 1_000_000) {
            return Err(Error::InvalidState("segment center out of range".to_owned()));
        }
        if center.q + center.r + center.s != 0 {
            return Err(Error::InvalidState("segment center is no cube position".to_owned()));
        }
        let columns = e.childs_by_name("field-array");
        let ghost colseq = spec_childs_by_name(*e, "field-array"@);
        if columns.len() > 100 {
            return Err(Error::InvalidState("too many field columns".to_owned()));
        }
        proof {
            assert(spec_parse_segment(*e) == (match spec_parse_columns(colseq, 0) {
                Some(fs) => Some(SegmentView { direction, center, fields: fs }),
                None => None::<SegmentView>,
            }));
        }
        let mut fields: Vec<Vec<Field>> = Vec::new();
        let mut i: usize = 0;
        while i < columns.len()
            invariant
                0 <= i <= columns@.len(),
                columns@.len() <= 100,
                columns@.len() == colseq.len(),
                forall|j: int| 0 <= j < colseq.len() ==> *(#[trigger] columns@[j]) == colseq[j],
                fields@.len() == i,
                forall|j: int| 0 <= j < i ==> (#[trigger] fields@[j])@.len() <= 100,
                spec_parse_columns(colseq, 0) == (match spec_parse_columns(colseq, i as int) {
                    Some(rest) => Some(
                        Seq::new(fields@.len(), |j: int| fields@[j]@) + rest,
                    ),
                    None => None::<Seq<Seq<Field>>>,
                }),
                spec_parse_segment(*e) == (match spec_parse_columns(colseq, 0) {
                    Some(fs) => Some(SegmentView { direction, center, fields: fs }),
                    None => None::<SegmentView>,
                }),
            decreases columns@.len() - i,
        {
            let column = columns[i];
            proof {
                assert(*column == colseq[i as int]);
            }
            if column.childs.len() > 100 {
                proof {
                    assert(spec_parse_columns(colseq, i as int) is None);
                    assert(spec_parse_segment(*e) is None);
                }
                return Err(Error::InvalidState("too many fields in a column".to_owned()));
            }
            let ghost rowseq = column.childs@;
            let mut row: Vec<Field> = Vec::new();
            let mut k: usize = 0;
            while k < column.childs.len()
                invariant
                    0 <= k <= rowseq.len(),
                    rowseq == column.childs@,
                    rowseq.len() <= 100,
                    row@.len() == k,
                    0 <= i < colseq.len(),
                    *column == colseq[i as int],
                    spec_parse_fields(rowseq, 0) == (match spec_parse_fields(rowseq, k as int) {
                        Some(rest) => Some(row@ + rest),
                        None => None::<Seq<Field>>,
                    }),
                    spec_parse_columns(colseq, 0) == (match spec_parse_columns(
                        colseq,
                        i as int,
                    ) {
                        Some(rest) => Some(
                            Seq::new(fields@.len(), |j: int| fields@[j]@) + rest,
                        ),
                        None => None::<Seq<Seq<Field>>>,
                    }),
                    spec_parse_segment(*e) == (match spec_parse_columns(colseq, 0) {
                        Some(fs) => Some(SegmentView { direction, center, fields: fs }),
                        None => None::<SegmentView>,
                    }),
                decreases rowseq.len() - k,
            {
                match Field::from_element(&column.childs[k]) {
                    Ok(f) => {
                        let ghost prev = row@;
                        row.push(f);
                        proof {
                            match spec_parse_fields(rowseq, k + 1) {
                                Some(rest) => {
                                    assert(prev + (seq![f] + rest) =~= row@ + rest);
                                },
                                None => {},
                            }
                        }
                    },
                    Err(err) => {
                        proof {
                            assert(spec_parse_fields(rowseq, k as int) is None);
                            assert(spec_parse_fields(colseq[i as int].childs@, 0) is None);
                            assert(spec_parse_columns(colseq, i as int) is None);
                            assert(spec_parse_segment(*e) is None);
                        }
                        return Err(err);
                    },
                }
                k = k + 1;
            }
            proof {
                assert(row@ + Seq::<Field>::empty() =~= row@);
            }
            let ghost fields_prev = Seq::new(fields@.len(), |j: int| fields@[j]@);
            fields.push(row);
            proof {
                assert(Seq::new(fields@.len(), |j: int| fields@[j]@) =~= fields_prev.push(
                    fields@.last()@,
                ));
                match spec_parse_columns(colseq, i + 1) {
                    Some(rest) => {
                        assert(fields_prev + (seq![fields@.last()@] + rest) =~= Seq::new(
                            fields@.len(),
                            |j: int| fields@[j]@,
                        ) + rest);
                    },
                    None => {},
                }
            }
            i = i + 1;
        }
        proof {
            assert(Seq::new(fields@.len(), |j: int| fields@[j]@) + Seq::<Seq<Field>>::empty()
                =~= Seq::new(fields@.len(), |j: int| fields@[j]@));
        }
        let seg = Segment { direction, center, fields };
        proof {
            assert(seg@.fields =~= Seq::new(seg.fields@.len(), |j: int| seg.fields@[j]@));
            assert forall|j: int| 0 <= j < seg@.fields.len() implies (#[trigger] seg@.fields[j]).len()
                <= 100 by {
                assert(seg@.fields[j] == seg.fields@[j]@);
            }
            assert(seg.wf());
            assert(spec_parse_segment(*e) == Some(seg@));
        }
        Ok(seg)
    }
}

/// The segments denoted by a sequence of elements, failing on the first one
/// that denotes none, scanning from position `k`.
pub open spec fn spec_parse_segments(segs: Seq<Element>, k: int) -> Option<Seq<SegmentView>>
    decreases segs.len() - k,
{
    if k < 0 || k >= segs.len() {
        Some(Seq::empty())
    } else {
        match spec_parse_segment(segs[k]) {
            Some(s) => match spec_parse_segments(segs, k + 1) {
                Some(rest) => Some(seq![s] + rest),
                None => None,
            },
            None => None,
        }
    }
}

/// The board denoted by an element, if any: at most a hundred segments in
/// river order and the orientation pending for the next one.
pub open spec fn spec_parse_board(e: Element) -> Option<BoardView> {
    match spec_attr(e, "nextDirection"@) {
        Some(dv) => match spec_parse_dir(dv) {
            Some(next_direction) => {
                let segs = spec_childs_by_name(e, "segment"@);
                if segs.len() > 100 {
                    None
                } else {
                    match spec_parse_segments(segs, 0) {
                        Some(segments) => Some(BoardView { segments, next_direction }),
                        None => None,
                    }
                }
            },
            None => None,
        },
        None => None,
    }
}

impl Board {
    /// Parses a board from its wire form (see [`spec_parse_board`]).
    pub fn from_element(e: &Element) -> (r: Result<Board, Error>)
        ensures
            match r {
                Ok(b) => spec_parse_board(*e) == Some(b@) && b.wf(),
                Err(_) => spec_parse_board(*e) is None,
            },
    {
        let next_direction = match e.attribute("nextDirection") {
            Ok(v) => match parse_dir(v.as_str()) {
                Ok(d) => d,
                Err(err) => {
                    return Err(err);
                },
            },
            Err(err) => {
                return Err(err);
            },
        };
        let segment_elems = e.childs_by_name("segment");
        let ghost segseq = spec_childs_by_name(*e, "segment"@);
        if segment_elems.len() > 100 {
            return Err(Error::InvalidState("too many segments".to_owned()));
        }
        proof {
            assert(spec_parse_board(*e) == (match spec_parse_segments(segseq, 0) {
                Some(ss) => Some(BoardView { segments: ss, next_direction }),
                None => None::<BoardView>,
            }));
        }
        let mut segments: Vec<Segment> = Vec::new();
        let mut i: usize = 0;
        while i < segment_elems.len()
            invariant
                0 <= i <= segment_elems@.len(),
                segment_elems@.len() <= 100,
                segment_elems@.len() == segseq.len(),
                forall|j: int|
                    0 <= j < segseq.len() ==> *(#[trigger] segment_elems@[j]) == segseq[j],
                segments@.len() == i,
                forall|j: int| 0 <= j < i ==> (#[trigger] segments@[j]).wf(),
                spec_parse_segments(segseq, 0) == (match spec_parse_segments(segseq, i as int) {
                    Some(rest) => Some(
                        Seq::new(segments@.len(), |j: int| segments@[j]@) + rest,
                    ),
                    None => None::<Seq<SegmentView>>,
                }),
                spec_parse_board(*e) == (match spec_parse_segments(segseq, 0) {
                    Some(ss) => Some(BoardView { segments: ss, next_direction }),
                    None => None::<BoardView>,
                }),
            decreases segment_elems@.len() - i,
        {
            match Segment::from_element(segment_elems[i]) {
                Ok(s) => {
                    let ghost prev = Seq::new(segments@.len(), |j: int| segments@[j]@);
                    segments.push(s);
                    proof {
                        assert(Seq::new(segments@.len(), |j: int| segments@[j]@) =~= prev.push(
                            segments@.last()@,
                        ));
                        match spec_parse_segments(segseq, i + 1) {
                            Some(rest) => {
                                assert(prev + (seq![segments@.last()@] + rest) =~= Seq::new(
                                    segments@.len(),
                                    |j: int| segments@[j]@,
                                ) + rest);
                            },
                            None => {},
                        }
                    }
                },
                Err(err) => {
                    proof {
                        assert(spec_parse_segment(segseq[i as int]) is None);
                        assert(spec_parse_segments(segseq, i as int) is None);
                        assert(spec_parse_board(*e) is None);
                    }
                    return Err(err);
                },
            }
            i = i + 1;
        }
        proof {
            assert(Seq::new(segments@.len(), |j: int| segments@[j]@) + Seq::<SegmentView>::empty()
                =~= Seq::new(segments@.len(), |j: int| segments@[j]@));
        }
        let b = Board { segments, next_direction };
        proof {
            assert(b@.segments =~= Seq::new(b.segments@.len(), |j: int| b.segments@[j]@));
            assert forall|j: int| 0 <= j < b@.segments.len() implies (
            #[trigger] b@.segments[j]).wf() by {
                assert(b@.segments[j] == b.segments@[j]@);
            }
            assert(b.wf());
            assert(spec_parse_board(*e) == Some(b@));
        }
        Ok(b)
    }
}

/// One numeric ship attribute, kept only within the working band.
pub open spec fn spec_ship_number(e: Element, key: Seq<char>) -> Option<i32> {
    match spec_attr(e, key) {
        Some(v) => match spec_parse_i32(v) {
            Some(n) => if -1_000_000 <= n <= 1_000_000 {
                Some(n)
            } else {
                None
            },
            None => None,
        },
        None => None,
    }
}

/// The ship denoted by an element, if any: team, position (satisfying the
/// cube invariant), orientation and the five numeric attributes, with the
/// speed in its legal band and the coal, credit and passenger budgets in
/// their working bands; the remaining movement starts as the speed and the
/// free acceleration credit as one.
pub open spec fn spec_parse_ship(e: Element) -> Option<Ship> {
    match spec_attr(e, "team"@) {
        Some(tv) => match spec_parse_team(tv) {
            Some(team) => match spec_child_by_name(e, "position"@) {
                Some(pe) => match spec_parse_vec(pe) {
                    Some(position) => match spec_attr(e, "direction"@) {
                        Some(dv) => match spec_parse_dir(dv) {
                            Some(direction) => match spec_ship_number(e, "speed"@) {
                                Some(speed) => match spec_ship_number(e, "coal"@) {
                                    Some(coal) => match spec_ship_number(e, "passengers"@) {
                                        Some(passengers) => match spec_ship_number(
                                            e,
                                            "freeTurns"@,
                                        ) {
                                            Some(free_turns) => match spec_ship_number(
                                                e,
                                                "points"@,
                                            ) {
                                                Some(points) => if 1 <= speed <= 6
                                                    && free_turns >= 0 && passengers >= 0
                                                    && position.q + position.r + position.s
                                                    == 0 {
                                                    Some(
                                                        Ship {
                                                            team,
                                                            position,
                                                            direction,
                                                            speed,
                                                            coal,
                                                            passengers: passengers as usize,
                                                            free_turns,
                                                            points,
                                                            movement: speed,
                                                            free_acc: 1i32,
                                                        },
                                                    )
                                                } else {
                                                    None
                                                },
                                                None => None,
                                            },
                                            None => None,
                                        },
                                        None => None,
                                    },
                                    None => None,
                                },
                                None => None,
                            },
                            None => None,
                        },
                        None => None,
                    },
                    None => None,
                },
                None => None,
            },
            None => None,
        },
        None => None,
    }
}

impl Ship {
    /// Parses a ship from its wire form (see [`spec_parse_ship`]).
    pub fn from_element(e: &Element) -> (r: Result<Ship, Error>)
        ensures
            match r {
                Ok(s) => spec_parse_ship(*e) == Some(s) && crate::state::ship_sane(s)
                    && s.position.wf() && s.position.small(10_000_000),
                Err(_) => spec_parse_ship(*e) is None,
            },
    {
        let team = match e.attribute("team") {
            Ok(v) => match parse_team(v.as_str()) {
                Ok(t) => t,
                Err(err) => {
                    return Err(err);
                },
            },
            Err(err) => {
                return Err(err);
            },
        };
        let position = match e.child_by_name("position") {
            Ok(c) => match CubeVec::from_element(c) {
                Ok(v) => v,
                Err(err) => {
                    return Err(err);
                },
            },
            Err(err) => {
                return Err(err);
            },
        };
        let direction = match e.attribute("direction") {
            Ok(v) => match parse_dir(v.as_str()) {
                Ok(d) => d,
                Err(err) => {
                    return Err(err);
                },
            },
            Err(err) => {
                return Err(err);
            },
        };
        let speed = match ship_number(e, "speed") {
            Ok(n) => n,
            Err(err) => {
                return Err(err);
            },
        };
        let coal = match ship_number(e, "coal") {
            Ok(n) => n,
            Err(err) => {
                return Err(err);
            },
        };
        let passengers = match ship_number(e, "passengers") {
            Ok(n) => n,
            Err(err) => {
                return Err(err);
            },
        };
        let free_turns = match ship_number(e, "freeTurns") {
            Ok(n) => n,
            Err(err) => {
                return Err(err);
            },
        };
        let points = match ship_number(e, "points") {
            Ok(n) => n,
            Err(err) => {
                return Err(err);
            },
        };
        if speed < 1 || speed > 6 {
            return Err(Error::InvalidState("ship speed out of band".to_owned()));
        }
        if free_turns < 0 || passengers < 0 {
            return Err(Error::InvalidState("ship budgets out of range".to_owned()));
        }
        if position.q + position.r + position.s != 0 {
            return Err(Error::InvalidState("ship position is no cube position".to_owned()));
        }
        Ok(
            Ship {
                team,
                position,
                direction,
                speed,
                coal,
                passengers: passengers as usize,
                free_turns,
                points,
                movement: speed,
                free_acc: 1,
            },
        )
    }
}

/// Parses one numeric ship attribute (see [`spec_ship_number`]).
fn ship_number(e: &Element, key: &str) -> (r: Result<i32, Error>)
    ensures
        match r {
            Ok(n) => spec_ship_number(*e, key@) == Some(n) && -1_000_000 <= n <= 1_000_000,
            Err(_) => spec_ship_number(*e, key@) is None,
        },
{
    match e.attribute(key) {
        Ok(v) => match parse_i32(v.as_str()) {
            Some(n) => {
                if -1_000_000 <= n && n <= 1_000_000 {
                    Ok(n)
                } else {
                    Err(Error::InvalidState("ship number out of range".to_owned()))
                }
            },
            None => Err(Error::ParseInt(v.clone())),
        },
        Err(err) => Err(err),
    }
}

/// The state denoted by an element, if any: a board child, a turn counter in
/// range, exactly two ships, an optional last move (an unreadable one counts
/// as none), the team attributes, and the whole snapshot structurally
/// well-formed with workable numbers.
pub open spec fn spec_parse_state(e: Element) -> Option<StateView> {
    match spec_child_by_name(e, "board"@) {
        Some(be) => match spec_parse_board(be) {
            Some(board) => match spec_attr(e, "turn"@) {
                Some(tv) => match spec_parse_i32(tv) {
                    Some(turn) => if 0 <= turn <= 1_000_000 {
                        let ships = spec_childs_by_name(e, "ship"@);
                        if ships.len() != 2 {
                            None
                        } else {
                            match spec_parse_ship(ships[0]) {
                                Some(ship_one) => match spec_parse_ship(ships[1]) {
                                    Some(ship_two) => match spec_attr(e, "startTeam"@) {
                                        Some(sv) => match spec_parse_team(sv) {
                                            Some(start_team) => match spec_attr(
                                                e,
                                                "currentTeam"@,
                                            ) {
                                                Some(cv) => match spec_parse_team(cv) {
                                                    Some(current_team) => {
                                                        let last_move = match spec_child_by_name(
                                                            e,
                                                            "lastMove"@,
                                                        ) {
                                                            Some(me) => spec_parse_move(me),
                                                            None => None,
                                                        };
                                                        let sv = StateView {
                                                            board,
                                                            turn: turn as nat,
                                                            ship_one,
                                                            ship_two,
                                                            last_move,
                                                            start_team,
                                                            current_team,
                                                        };
                                                        if sv.wf() && sv.sane() {
                                                            Some(sv)
                                                        } else {
                                                            None
                                                        }
                                                    },
                                                    None => None,
                                                },
                                                None => None,
                                            },
                                            None => None,
                                        },
                                        None => None,
                                    },
                                    None => None,
                                },
                                None => None,
                            }
                        }
                    } else {
                        None
                    },
                    None => None,
                },
                None => None,
            },
            None => None,
        },
        None => None,
    }
}

impl State {
    /// Parses a whole state snapshot from its wire form and validates it
    /// (see [`spec_parse_state`]): on success the result is structurally
    /// well-formed and its numbers are of workable size.
    pub fn from_element(e: &Element) -> (r: Result<State, Error>)
        ensures
            match r {
                Ok(s) => spec_parse_state(*e) == Some(s@) && s.wf() && s.sane() && s.turn
                    <= 1_000_000,
                Err(_) => spec_parse_state(*e) is None,
            },
    {
        let board = match e.child_by_name("board") {
            Ok(b) => match Board::from_element(b) {
                Ok(b) => b,
                Err(err) => {
                    return Err(err);
                },
            },
            Err(err) => {
                return Err(err);
            },
        };
        let turn = match e.attribute("turn") {
            Ok(v) => match parse_i32(v.as_str()) {
                Some(n) => {
                    if 0 <= n && n <= 1_000_000 {
                        n as usize
                    } else {
                        return Err(Error::InvalidState("turn out of range".to_owned()));
                    }
                },
                None => {
                    return Err(Error::ParseInt(v.clone()));
                },
            },
            Err(err) => {
                return Err(err);
            },
        };
        let ship_elems = e.childs_by_name("ship");
        if ship_elems.len() != 2 {
            return Err(Error::InvalidState("state has wrong number of ships".to_owned()));
        }
        let ship_one = match Ship::from_element(ship_elems[0]) {
            Ok(s) => s,
            Err(err) => {
                return Err(err);
            },
        };
        let ship_two = match Ship::from_element(ship_elems[1]) {
            Ok(s) => s,
            Err(err) => {
                return Err(err);
            },
        };
        let last_move = match e.child_by_name("lastMove") {
            Ok(m) => match Move::from_element(m) {
                Ok(m) => Some(m),
                Err(_) => None,
            },
            Err(_) => None,
        };
        let start_team = match e.attribute("startTeam") {
            Ok(v) => match parse_team(v.as_str()) {
                Ok(t) => t,
                Err(err) => {
                    return Err(err);
                },
            },
            Err(err) => {
                return Err(err);
            },
        };
        let current_team = match e.attribute("currentTeam") {
            Ok(v) => match parse_team(v.as_str()) {
                Ok(t) => t,
                Err(err) => {
                    return Err(err);
                },
            },
            Err(err) => {
                return Err(err);
            },
        };
        let st = State { board, turn, ship_one, ship_two, last_move, start_team, current_team };
        if st.validate() {
            proof {
                assert(spec_parse_state(*e) == Some(st@));
            }
            Ok(st)
        } else {
            Err(Error::InvalidState("state snapshot is not well-formed".to_owned()))
        }
    }
}

} // verus!
