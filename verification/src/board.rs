//! The river board: an ordered sequence of segments plus the orientation
//! pending for the next segment, with global field lookup, current detection,
//! passenger pickup and per-ship points.

use vstd::prelude::*;
use vstd::pervasive::VecAdditionalExecFns;
use crate::cube::{spec_dir_of_turns, spec_dir_vec, CubeDir, CubeVec};
use crate::field::Field;
use crate::segment::{spec_array_x, Segment, SegmentView};
use crate::ship::Ship;

verus! {

/// The mathematical model of a board: the segment models in river order and
/// the orientation reserved for the next, not yet revealed segment.
pub struct BoardView {
    pub segments: Seq<SegmentView>,
    pub next_direction: CubeDir,
}

impl BoardView {
    /// The model is well-formed: a bounded number of well-formed segments.
    pub open spec fn wf(self) -> bool {
        &&& self.segments.len() <= 100
        &&& forall|i: int| 0 <= i < self.segments.len() ==> (#[trigger] self.segments[i]).wf()
    }

    /// The first segment index at or after `k` whose grid contains `coords`
    /// and whose center lies within hex distance 3 of it.
    pub open spec fn filtered_index_from(self, coords: CubeVec, k: int) -> Option<int>
        decreases self.segments.len() - k,
    {
        if k < 0 || k >= self.segments.len() {
            None
        } else if coords.spec_distance_to(self.segments[k].center) <= 3
            && self.segments[k].spec_get_global(coords) is Some {
            Some(k)
        } else {
            self.filtered_index_from(coords, k + 1)
        }
    }

    /// The index of the segment that the global field lookup resolves to.
    pub open spec fn spec_filtered_index(self, coords: CubeVec) -> Option<int> {
        self.filtered_index_from(coords, 0)
    }

    /// The field at the given position, or nothing for out-of-bounds
    /// positions.
    pub open spec fn spec_get(self, coords: CubeVec) -> Option<Field> {
        match self.spec_filtered_index(coords) {
            Some(i) => self.segments[i].spec_get_global(coords),
            None => None,
        }
    }

    /// The first segment index at or after `k` whose grid contains `coords`
    /// (without the distance filter of the field lookup).
    pub open spec fn index_from(self, coords: CubeVec, k: int) -> Option<int>
        decreases self.segments.len() - k,
    {
        if k < 0 || k >= self.segments.len() {
            None
        } else if self.segments[k].spec_get_global(coords) is Some {
            Some(k)
        } else {
            self.index_from(coords, k + 1)
        }
    }

    /// The index of the segment containing the given position.
    pub open spec fn spec_segment_index(self, coords: CubeVec) -> Option<int> {
        self.index_from(coords, 0)
    }

    /// Whether a ship can stand on the field at the given position; false for
    /// out-of-bounds positions.
    pub open spec fn spec_is_empty_at(self, coords: CubeVec) -> bool {
        match self.spec_get(coords) {
            Some(f) => f.spec_is_empty(),
            None => false,
        }
    }

    /// Whether the field at the given position is a sandbank.
    pub open spec fn spec_is_sandbank_at(self, coords: CubeVec) -> bool {
        self.spec_get(coords) == Some(Field::Sandbank)
    }

    /// The orientation of the segment after segment `i`: the next segment's
    /// direction, or the board's pending direction for the last segment.
    pub open spec fn spec_next_direction_of(self, i: int) -> CubeDir {
        if i + 1 < self.segments.len() {
            self.segments[i + 1].direction
        } else {
            self.next_direction
        }
    }

    /// Whether the field at the given position carries the river current: the
    /// four cells spanning the junction between its segment and the next.
    pub open spec fn spec_has_current(self, coords: CubeVec) -> bool {
        match self.spec_segment_index(coords) {
            None => false,
            Some(i) => {
                let s = self.segments[i];
                let nd = spec_dir_vec(self.spec_next_direction_of(i));
                ||| coords == s.center.spec_minus(spec_dir_vec(s.direction))
                ||| coords == s.center
                ||| coords == s.center.spec_plus(nd)
                ||| coords == s.center.spec_plus(nd.spec_scaled(2))
            },
        }
    }

    /// The ship's speed, reduced by one on a field with current.
    pub open spec fn spec_effective_speed(self, ship: Ship) -> int {
        ship.speed - if self.spec_has_current(ship.position) {
            1int
        } else {
            0int
        }
    }

    /// The board with the field that the global lookup resolves for `coords`
    /// replaced by `f`; the board itself for out-of-bounds positions.
    pub open spec fn spec_set_global(self, coords: CubeVec, f: Field) -> BoardView {
        match self.spec_filtered_index(coords) {
            None => self,
            Some(i) => BoardView {
                segments: self.segments.update(i, self.segments[i].spec_set_global(coords, f)),
                next_direction: self.next_direction,
            },
        }
    }

    /// The advance points of a ship: five per segment travelled plus the
    /// column reached within its segment, counted from one.
    pub open spec fn spec_ship_advance_points(self, ship: Ship) -> Option<int> {
        match self.spec_segment_index(ship.position) {
            None => None,
            Some(i) => Some(
                i * 5 + spec_array_x(self.segments[i].spec_global_to_local(ship.position)) + 1,
            ),
        }
    }

    /// The full points of a ship: advance points plus five per passenger.
    pub open spec fn spec_ship_points(self, ship: Ship) -> Option<int> {
        match self.spec_ship_advance_points(ship) {
            None => None,
            Some(p) => Some(p + ship.passengers * 5),
        }
    }

    /// The neighbouring passenger field a ship at `coords` may pick up from,
    /// scanned in direction order starting at direction index `d`: the
    /// adjacent field must still carry a passenger and its approach direction
    /// must point back at the ship. Yields the direction index and the
    /// neighbour's position.
    pub open spec fn passenger_candidate_from(self, coords: CubeVec, d: int) -> Option<
        (int, CubeVec),
    >
        decreases 6 - d,
    {
        if d < 0 || d >= 6 {
            None
        } else {
            let nc = coords.spec_plus(spec_dir_vec(spec_dir_of_turns(d)));
            match self.spec_get(nc) {
                Some(Field::Passenger { direction: pd, passenger: p }) => {
                    if p > 0 && pd == spec_dir_of_turns(d).spec_rotated_by(3) {
                        Some((d, nc))
                    } else {
                        self.passenger_candidate_from(coords, d + 1)
                    }
                },
                _ => self.passenger_candidate_from(coords, d + 1),
            }
        }
    }

    /// The board after a ship at `coords` removes a passenger from the first
    /// eligible neighbouring field, or nothing if no neighbour is eligible.
    pub open spec fn spec_remove_passenger(self, coords: CubeVec) -> Option<BoardView> {
        match self.passenger_candidate_from(coords, 0) {
            None => None,
            Some((d, nc)) => match self.spec_get(nc) {
                Some(Field::Passenger { direction: pd, passenger: p }) => Some(
                    self.spec_set_global(
                        nc,
                        Field::Passenger { direction: pd, passenger: (p - 1) as usize },
                    ),
                ),
                _ => None,
            },
        }
    }
}

/// Every position with a field lies within hex distance 3 of some segment
/// center, so its coordinates stay close to the board.
pub proof fn lemma_on_board_small(bv: BoardView, coords: CubeVec, k: int)
    requires
        bv.wf(),
        bv.filtered_index_from(coords, k) is Some,
    ensures
        coords.small(1_000_007),
    decreases bv.segments.len() - k,
{
    if !(0 <= k < bv.segments.len()) {
        assert(false);
    } else if coords.spec_distance_to(bv.segments[k].center) <= 3
        && bv.segments[k].spec_get_global(coords) is Some {
    } else {
        lemma_on_board_small(bv, coords, k + 1);
    }
}

/// A position that the filtered field lookup resolves is also found by the
/// unfiltered segment search.
pub proof fn lemma_filtered_index_implies_index(bv: BoardView, coords: CubeVec, k: int)
    requires
        bv.filtered_index_from(coords, k) is Some,
        0 <= k,
    ensures
        bv.index_from(coords, k) is Some,
    decreases bv.segments.len() - k,
{
    if k >= bv.segments.len() {
        assert(false);
    } else if coords.spec_distance_to(bv.segments[k].center) <= 3
        && bv.segments[k].spec_get_global(coords) is Some {
    } else if bv.segments[k].spec_get_global(coords) is Some {
    } else {
        lemma_filtered_index_implies_index(bv, coords, k + 1);
    }
}

/// What a successful filtered segment search guarantees about the index it
/// found.
pub proof fn lemma_filtered_index_found(bv: BoardView, coords: CubeVec, k: int)
    requires
        bv.filtered_index_from(coords, k) is Some,
    ensures
        ({
            let i = bv.filtered_index_from(coords, k)->Some_0;
            &&& k <= i < bv.segments.len()
            &&& coords.spec_distance_to(bv.segments[i].center) <= 3
            &&& bv.segments[i].spec_get_global(coords) is Some
        }),
    decreases bv.segments.len() - k,
{
    if !(0 <= k < bv.segments.len()) {
        assert(false);
    } else if coords.spec_distance_to(bv.segments[k].center) <= 3
        && bv.segments[k].spec_get_global(coords) is Some {
    } else {
        lemma_filtered_index_found(bv, coords, k + 1);
    }
}

/// What a successful unfiltered segment search guarantees about the index it
/// found.
pub proof fn lemma_index_found(bv: BoardView, coords: CubeVec, k: int)
    requires
        bv.index_from(coords, k) is Some,
    ensures
        ({
            let i = bv.index_from(coords, k)->Some_0;
            &&& k <= i < bv.segments.len()
            &&& bv.segments[i].spec_get_global(coords) is Some
        }),
    decreases bv.segments.len() - k,
{
    if !(0 <= k < bv.segments.len()) {
        assert(false);
    } else if bv.segments[k].spec_get_global(coords) is Some {
    } else {
        lemma_index_found(bv, coords, k + 1);
    }
}

/// The river board.
#[derive(Debug, Clone, PartialEq, Eq)]
pub struct Board {
    pub segments: Vec<Segment>,
    pub next_direction: CubeDir,
}

impl View for Board {
    type V = BoardView;

    open spec fn view(&self) -> BoardView {
        BoardView {
            segments: Seq::new(self.segments@.len(), |i: int| self.segments@[i]@),
            next_direction: self.next_direction,
        }
    }
}

impl Board {
    /// The board is well-formed (see [`BoardView::wf`]).
    pub open spec fn wf(self) -> bool {
        self@.wf()
    }

    /// An identical copy of the board.
    pub fn duplicate(&self) -> (r: Board)
        ensures
            r@ == self@,
    {
        let mut segments: Vec<Segment> = Vec::new();
        let n = self.segments.len();
        let mut i: usize = 0;
        while i < n
            invariant
                0 <= i <= n,
                n == self.segments@.len(),
                segments@.len() == i,
                forall|j: int| 0 <= j < i ==> (#[trigger] segments@[j])@ == self.segments@[j]@,
            decreases n - i,
        {
            segments.push(self.segments[i].duplicate());
            i = i + 1;
        }
        let r = Board { segments, next_direction: self.next_direction };
        proof {
            assert(r@.segments =~= self@.segments);
            assert(r@ =~= self@);
        }
        r
    }

    /// Fetches the index of the segment the global field lookup resolves to:
    /// the first segment whose center lies within hex distance 3 of the
    /// position and whose grid contains it.
    fn filtered_index_at(&self, coords: CubeVec) -> (r: Option<usize>)
        requires
            self.wf(),
            coords.small(100_000_000),
        ensures
            match r {
                Some(i) => i < self@.segments.len() && self@.spec_filtered_index(coords) == Some(
                    i as int,
                ),
                None => self@.spec_filtered_index(coords) is None,
            },
    {
        let n = self.segments.len();
        let mut i: usize = 0;
        while i < n
            invariant
                0 <= i <= n,
                n == self@.segments.len(),
                self.wf(),
                coords.small(100_000_000),
                self@.filtered_index_from(coords, 0) == self@.filtered_index_from(coords, i as int),
            decreases n - i,
        {
            let seg = &self.segments[i];
            proof {
                assert(seg@ == self@.segments[i as int]);
            }
            if coords.distance_to(seg.center) <= 3 {
                if seg.get_global(coords).is_some() {
                    return Some(i);
                }
            }
            i = i + 1;
        }
        None
    }

    /// Fetches the field at the given position.
    pub fn get(&self, coords: CubeVec) -> (r: Option<Field>)
        requires
            self.wf(),
            coords.small(100_000_000),
        ensures
            r == self@.spec_get(coords),
    {
        match self.filtered_index_at(coords) {
            Some(i) => {
                let seg = &self.segments[i];
                proof {
                    assert(seg@ == self@.segments[i as int]);
                }
                seg.get_global(coords)
            },
            None => None,
        }
    }

    /// Whether there is an empty field at the given position.
    /// Note that this is also `false` for out-of-bounds fields.
    pub fn is_empty_at(&self, coords: CubeVec) -> (r: bool)
        requires
            self.wf(),
            coords.small(100_000_000),
        ensures
            r == self@.spec_is_empty_at(coords),
    {
        match self.get(coords) {
            Some(f) => f.is_empty(),
            None => false,
        }
    }

    /// Whether there is a sandbank at the given position.
    pub fn is_sandbank_at(&self, coords: CubeVec) -> (r: bool)
        requires
            self.wf(),
            coords.small(100_000_000),
        ensures
            r == self@.spec_is_sandbank_at(coords),
    {
        match self.get(coords) {
            Some(f) => matches!(f, Field::Sandbank),
            None => false,
        }
    }

    /// Fetches the index of the segment containing the given coordinates,
    /// without the distance filter of the field lookup.
    pub fn segment_index_at(&self, coords: CubeVec) -> (r: Option<usize>)
        requires
            self.wf(),
            coords.small(100_000_000),
        ensures
            match r {
                Some(i) => i < self@.segments.len() && self@.spec_segment_index(coords) == Some(
                    i as int,
                ),
                None => self@.spec_segment_index(coords) is None,
            },
    {
        let n = self.segments.len();
        let mut i: usize = 0;
        while i < n
            invariant
                0 <= i <= n,
                n == self@.segments.len(),
                self.wf(),
                coords.small(100_000_000),
                self@.index_from(coords, 0) == self@.index_from(coords, i as int),
            decreases n - i,
        {
            let seg = &self.segments[i];
            proof {
                assert(seg@ == self@.segments[i as int]);
            }
            if seg.get_global(coords).is_some() {
                return Some(i);
            }
            i = i + 1;
        }
        None
    }

    /// Fetches the segment containing the given coordinates.
    pub fn segment_at(&self, coords: CubeVec) -> (r: Option<&Segment>)
        requires
            self.wf(),
            coords.small(100_000_000),
        ensures
            match r {
                Some(seg) => {
                    &&& self@.spec_segment_index(coords) is Some
                    &&& 0 <= self@.spec_segment_index(coords)->Some_0 < self@.segments.len()
                    &&& seg@ == self@.segments[self@.spec_segment_index(coords)->Some_0]
                },
                None => self@.spec_segment_index(coords) is None,
            },
    {
        match self.segment_index_at(coords) {
            Some(i) => {
                let seg = &self.segments[i];
                proof {
                    assert(seg@ == self@.segments[i as int]);
                }
                Some(seg)
            },
            None => None,
        }
    }

    /// Fetches the index of the segment containing the given coordinates,
    /// together with the segment.
    pub fn segment_with_index_at(&self, coords: CubeVec) -> (r: Option<(usize, &Segment)>)
        requires
            self.wf(),
            coords.small(100_000_000),
        ensures
            match r {
                Some(p) => {
                    &&& (p.0 as int) < self@.segments.len()
                    &&& self@.spec_segment_index(coords) == Some(p.0 as int)
                    &&& p.1@ == self@.segments[p.0 as int]
                },
                None => self@.spec_segment_index(coords) is None,
            },
    {
        match self.segment_index_at(coords) {
            Some(i) => {
                let seg = &self.segments[i];
                proof {
                    assert(seg@ == self@.segments[i as int]);
                }
                Some((i, seg))
            },
            None => None,
        }
    }

    /// Checks whether the field has a current.
    pub fn does_field_have_current(&self, coords: CubeVec) -> (r: bool)
        requires
            self.wf(),
            coords.small(100_000_000),
        ensures
            r == self@.spec_has_current(coords),
    {
        match self.segment_index_at(coords) {
            None => false,
            Some(i) => {
                let seg = &self.segments[i];
                proof {
                    assert(seg@ == self@.segments[i as int]);
                }
                let next_dir = if i + 1 < self.segments.len() {
                    self.segments[i + 1].direction
                } else {
                    self.next_direction
                };
                let nd = CubeVec::from_dir(next_dir);
                let c = seg.center;
                let a = c.minus(CubeVec::from_dir(seg.direction));
                let b = c.plus(nd);
                let d = c.plus(nd.scaled(2));
                coords == a || coords == c || coords == b || coords == d
            },
        }
    }

    /// Fetches the distance between two fields as the number of segments.
    pub fn segment_distance(&self, coords1: CubeVec, coords2: CubeVec) -> (r: usize)
        requires
            self.wf(),
            coords1.small(100_000_000),
            coords2.small(100_000_000),
            self@.spec_segment_index(coords1) is Some,
            self@.spec_segment_index(coords2) is Some,
        ensures
            r == abs_int_board(
                self@.spec_segment_index(coords1)->Some_0
                    - self@.spec_segment_index(coords2)->Some_0,
            ),
    {
        let i1 = self.segment_index_at(coords1).unwrap();
        let i2 = self.segment_index_at(coords2).unwrap();
        if i1 >= i2 {
            i1 - i2
        } else {
            i2 - i1
        }
    }

    /// Fetches a list of the six neighboring fields, in direction order.
    pub fn neighbors(&self, coords: CubeVec) -> (r: Vec<Option<Field>>)
        requires
            self.wf(),
            coords.small(10_000_000),
        ensures
            r@.len() == 6,
            forall|d: int|
                0 <= d < 6 ==> r@[d] == self@.spec_get(
                    coords.spec_plus(spec_dir_vec(spec_dir_of_turns(d))),
                ),
    {
        let dirs = CubeDir::all();
        let mut out: Vec<Option<Field>> = Vec::new();
        let mut d: usize = 0;
        while d < 6
            invariant
                0 <= d <= 6,
                dirs@.len() == 6,
                forall|j: int| 0 <= j < 6 ==> dirs@[j] == spec_dir_of_turns(j),
                self.wf(),
                coords.small(10_000_000),
                out@.len() == d,
                forall|j: int|
                    0 <= j < d ==> out@[j] == self@.spec_get(
                        coords.spec_plus(spec_dir_vec(spec_dir_of_turns(j))),
                    ),
            decreases 6 - d,
        {
            out.push(self.get(coords.plus_dir(dirs[d])));
            d = d + 1;
        }
        out
    }

    /// The effective speed of the given ship, depending on current.
    pub fn effective_speed(&self, ship: Ship) -> (r: i32)
        requires
            self.wf(),
            ship.position.small(100_000_000),
            -2_000_000_000 <= ship.speed <= 2_000_000_000,
        ensures
            r == self@.spec_effective_speed(ship),
    {
        let has_current = self.does_field_have_current(ship.position);
        ship.speed - if has_current { 1 } else { 0 }
    }

    /// Replaces the field that the global lookup resolves for `coords`; does
    /// nothing for out-of-bounds positions.
    fn set_field_at(&mut self, coords: CubeVec, f: Field)
        requires
            old(self).wf(),
            coords.small(100_000_000),
        ensures
            final(self)@ == old(self)@.spec_set_global(coords, f),
            final(self).wf(),
    {
        let idx = self.filtered_index_at(coords);
        match idx {
            None => {},
            Some(i) => {
                proof {
                    assert(self.segments@[i as int]@ == self@.segments[i as int]);
                    lemma_filtered_index_found(self@, coords, 0);
                }
                let local = self.segments[i].global_to_local(coords);
                let x = local.array_x() + 1;
                let y = local.r + 2;
                proof {
                    assert(self@.segments[i as int].spec_get_local(local) is Some);
                }
                let xi = x as usize;
                let yi = y as usize;
                let mut seg_tmp = Segment {
                    direction: CubeDir::Right,
                    center: CubeVec { q: 0, r: 0, s: 0 },
                    fields: Vec::new(),
                };
                self.segments.set_and_swap(i, &mut seg_tmp);
                let mut row_tmp: Vec<Field> = Vec::new();
                seg_tmp.fields.set_and_swap(xi, &mut row_tmp);
                row_tmp.set(yi, f);
                seg_tmp.fields.set_and_swap(xi, &mut row_tmp);
                self.segments.set_and_swap(i, &mut seg_tmp);
                proof {
                    let ov = old(self)@;
                    let target = ov.segments[i as int].spec_set_global(coords, f);
                    assert(self.segments@[i as int]@.fields =~= target.fields);
                    assert(self.segments@[i as int]@ =~= target);
                    assert(self@.segments =~= ov.segments.update(i as int, target));
                    assert(self@ =~= ov.spec_set_global(coords, f));
                }
            },
        }
    }

    /// Removes a passenger next to the given position: the first neighbouring
    /// field, in direction order, that still carries a passenger and whose
    /// approach direction points back at the position.
    pub fn remove_passenger_at(&mut self, coords: CubeVec) -> (r: bool)
        requires
            old(self).wf(),
            coords.small(10_000_000),
        ensures
            match old(self)@.spec_remove_passenger(coords) {
                Some(bv) => r == true && final(self)@ == bv,
                None => r == false && final(self)@ == old(self)@,
            },
            final(self).wf(),
    {
        let dirs = CubeDir::all();
        let mut d: usize = 0;
        while d < 6
            invariant
                0 <= d <= 6,
                dirs@.len() == 6,
                forall|j: int| 0 <= j < 6 ==> dirs@[j] == spec_dir_of_turns(j),
                self.wf(),
                *self == *old(self),
                coords.small(10_000_000),
                old(self)@.passenger_candidate_from(coords, 0) == old(self)@.passenger_candidate_from(
                    coords,
                    d as int,
                ),
            decreases 6 - d,
        {
            let nc = coords.plus_dir(dirs[d]);
            match self.get(nc) {
                Some(Field::Passenger { direction: pd, passenger: p }) => {
                    if p > 0 && pd == dirs[d].negated() {
                        self.set_field_at(
                            nc,
                            Field::Passenger { direction: pd, passenger: p - 1 },
                        );
                        return true;
                    }
                },
                _ => {},
            }
            d = d + 1;
        }
        false
    }

    /// Picks up a passenger: succeeds only if the ship's effective speed is
    /// below two and a neighbouring field is eligible; the field's passenger
    /// count then drops by one and the ship's grows by one.
    pub fn pick_up_passenger(&mut self, ship: &mut Ship) -> (r: bool)
        requires
            old(self).wf(),
            old(ship).position.small(10_000_000),
            -2_000_000_000 <= old(ship).speed <= 2_000_000_000,
            old(ship).passengers <= 2_000_000,
        ensures
            final(self).wf(),
            ({
                let eligible = old(self)@.spec_effective_speed(*old(ship)) < 2;
                if eligible && old(self)@.spec_remove_passenger(old(ship).position) is Some {
                    &&& r == true
                    &&& final(self)@ == old(self)@.spec_remove_passenger(old(ship).position)->Some_0
                    &&& *final(ship) == Ship {
                        passengers: (old(ship).passengers + 1) as usize,
                        ..*old(ship)
                    }
                } else {
                    &&& r == false
                    &&& final(self)@ == old(self)@
                    &&& *final(ship) == *old(ship)
                }
            }),
    {
        if self.effective_speed(*ship) < 2 {
            if self.remove_passenger_at(ship.position) {
                ship.passengers = ship.passengers + 1;
                return true;
            }
        }
        false
    }

    /// The advance points for the given ship.
    #[verifier::rlimit(60)]
    #[verifier::spinoff_prover]
    pub fn ship_advance_points(&self, ship: Ship) -> (r: Option<i32>)
        requires
            self.wf(),
            ship.position.small(10_000_000),
        ensures
            match r {
                Some(p) => self@.spec_ship_advance_points(ship) == Some(p as int)
                    && -100_000_000 <= p <= 100_000_000,
                None => self@.spec_ship_advance_points(ship) is None,
            },
    {
        match self.segment_with_index_at(ship.position) {
            None => None,
            Some((i, segment)) => {
                proof {
                    assert(self@.segments[i as int].wf());
                }
                let local = segment.global_to_local(ship.position);
                Some((i as i32) * 5 + local.array_x() + 1)
            },
        }
    }

    /// The computed points for the given ship.
    pub fn ship_points(&self, ship: Ship) -> (r: Option<i32>)
        requires
            self.wf(),
            ship.position.small(10_000_000),
            ship.passengers <= 2_000_000,
        ensures
            match r {
                Some(p) => self@.spec_ship_points(ship) == Some(p as int) && -200_000_000 <= p
                    <= 200_000_000,
                None => self@.spec_ship_points(ship) is None,
            },
    {
        match self.ship_advance_points(ship) {
            None => None,
            Some(p) => Some(p + (ship.passengers as i32) * 5),
        }
    }
}

/// Two boards whose segments sit at the same centers with the same
/// orientations and grid shapes resolve every position to the same segment
/// index.
pub proof fn lemma_index_congruent(a: BoardView, b: BoardView, c: CubeVec, k: int)
    requires
        a.segments.len() == b.segments.len(),
        forall|i: int|
            0 <= i < a.segments.len() ==> {
                &&& (#[trigger] a.segments[i]).center == b.segments[i].center
                &&& a.segments[i].direction == b.segments[i].direction
                &&& (a.segments[i].spec_get_global(c) is Some) == (b.segments[i].spec_get_global(
                    c,
                ) is Some)
            },
    ensures
        a.index_from(c, k) == b.index_from(c, k),
        a.filtered_index_from(c, k) == b.filtered_index_from(c, k),
    decreases a.segments.len() - k,
{
    if 0 <= k < a.segments.len() {
        lemma_index_congruent(a, b, c, k + 1);
    }
}

/// Replacing one field of the board preserves well-formedness, the segment
/// layout, and which positions resolve to a field at all.
pub proof fn lemma_set_global_preserves(bv: BoardView, coords: CubeVec, f: Field)
    requires
        bv.wf(),
    ensures
        ({
            let bv2 = bv.spec_set_global(coords, f);
            &&& bv2.wf()
            &&& bv2.segments.len() == bv.segments.len()
            &&& bv2.next_direction == bv.next_direction
            &&& forall|i: int|
                0 <= i < bv.segments.len() ==> {
                    &&& (#[trigger] bv2.segments[i]).center == bv.segments[i].center
                    &&& bv2.segments[i].direction == bv.segments[i].direction
                }
            &&& forall|c: CubeVec| #[trigger] bv2.index_from(c, 0) == bv.index_from(c, 0)
            &&& forall|c: CubeVec| #[trigger] bv2.filtered_index_from(c, 0)
                == bv.filtered_index_from(c, 0)
            &&& forall|c: CubeVec| ((#[trigger] bv2.spec_get(c)) is Some) == (bv.spec_get(
                c,
            ) is Some)
            &&& forall|c: CubeVec| #[trigger] bv2.spec_segment_index(c) == bv.spec_segment_index(c)
        }),
{
    let bv2 = bv.spec_set_global(coords, f);
    match bv.spec_filtered_index(coords) {
        None => {
            assert(bv2 == bv);
        },
        Some(i) => {
            lemma_filtered_index_found(bv, coords, 0);
            let seg = bv.segments[i];
            let seg2 = seg.spec_set_global(coords, f);
            assert(seg2.center == seg.center && seg2.direction == seg.direction);
            assert(seg2.fields.len() == seg.fields.len());
            assert(forall|x: int|
                0 <= x < seg.fields.len() ==> (#[trigger] seg2.fields[x]).len()
                    == seg.fields[x].len());
            assert(seg2.wf());
            assert forall|c: CubeVec| (#[trigger] seg2.spec_get_global(c)) is Some
                <==> seg.spec_get_global(c) is Some by {
                assert(seg2.spec_global_to_local(c) == seg.spec_global_to_local(c));
            }
            assert forall|c: CubeVec| #[trigger] bv2.index_from(c, 0) == bv.index_from(
                c,
                0,
            ) by {
                lemma_index_congruent(bv2, bv, c, 0);
            }
            assert forall|c: CubeVec| #[trigger] bv2.filtered_index_from(c, 0)
                == bv.filtered_index_from(c, 0) by {
                lemma_index_congruent(bv2, bv, c, 0);
            }
            assert forall|c: CubeVec| ((#[trigger] bv2.spec_get(c)) is Some) == (bv.spec_get(
                c,
            ) is Some) by {
                lemma_index_congruent(bv2, bv, c, 0);
                if bv.filtered_index_from(c, 0) is Some {
                    lemma_filtered_index_found(bv, c, 0);
                    lemma_filtered_index_found(bv2, c, 0);
                }
            }
            assert forall|c: CubeVec| #[trigger] bv2.spec_segment_index(c)
                == bv.spec_segment_index(c) by {
                lemma_index_congruent(bv2, bv, c, 0);
            }
            assert forall|j: int| 0 <= j < bv2.segments.len() implies (
            #[trigger] bv2.segments[j]).wf() by {
                if j != i {
                    assert(bv2.segments[j] == bv.segments[j]);
                }
            }
            assert(bv2.wf());
        },
    }
}

/// Signed halving as the hardware division computes it: toward zero.
pub open spec fn halved_toward_zero(a: int) -> int {
    if a >= 0 {
        a / 2
    } else {
        -((-a) / 2)
    }
}

/// The exact bounding-box fold over the first `k` segment centers, with two
/// cells of margin before and three after, in direct coordinates: the tuple
/// holds the running x start, x end, y start and y end, all starting at zero.
pub open spec fn spec_bounds_fold(segs: Seq<SegmentView>, k: int) -> (int, int, int, int)
    decreases k,
{
    if k <= 0 {
        (0, 0, 0, 0)
    } else {
        let p = spec_bounds_fold(segs, k - 1);
        let c = segs[k - 1].center;
        let x = halved_toward_zero(2 * c.q + c.r);
        (
            if x - 2 < p.0 {
                x - 2
            } else {
                p.0
            },
            if x + 3 > p.1 {
                x + 3
            } else {
                p.1
            },
            if c.r - 2 < p.2 {
                c.r - 2
            } else {
                p.2
            },
            if c.r + 3 > p.3 {
                c.r + 3
            } else {
                p.3
            },
        )
    }
}

/// The bounding box of the segment centers, with two cells of margin before
/// and three after, in direct coordinates.
impl Board {
    /// The bounding box of the segments as `(min_x..(max_x + 1), min_y..(max_y + 1))`.
    pub fn bounds(&self) -> (r: (core::ops::Range<i32>, core::ops::Range<i32>))
        requires
            self.wf(),
        ensures
            ({
                let b = spec_bounds_fold(self@.segments, self@.segments.len() as int);
                r.0.start == b.0 && r.0.end == b.1 && r.1.start == b.2 && r.1.end == b.3
            }),
            -3_000_000 <= r.0.start <= 0 && 0 <= r.0.end <= 3_000_000,
            -3_000_000 <= r.1.start <= 0 && 0 <= r.1.end <= 3_000_000,
            self@.segments.len() == 0 ==> r.0.start == 0 && r.0.end == 0 && r.1.start == 0
                && r.1.end == 0,
            self@.segments.len() > 0 ==> r.0.end - r.0.start >= 5 && r.1.end - r.1.start >= 5,
            forall|i: int|
                0 <= i < self@.segments.len() ==> {
                    let c = (#[trigger] self@.segments[i]).center;
                    let x = halved_toward_zero(2 * c.q + c.r);
                    &&& r.0.start <= x - 2 && x + 3 <= r.0.end
                    &&& r.1.start <= c.r - 2 && c.r + 3 <= r.1.end
                },
    {
        let n = self.segments.len();
        let mut xs_start: i32 = 0;
        let mut xs_end: i32 = 0;
        let mut ys_start: i32 = 0;
        let mut ys_end: i32 = 0;
        let mut i: usize = 0;
        while i < n
            invariant
                0 <= i <= n,
                n == self@.segments.len(),
                self.wf(),
                xs_start <= 0 && xs_end >= 0 && ys_start <= 0 && ys_end >= 0,
                -3_000_000 <= xs_start && xs_end <= 3_000_000,
                -3_000_000 <= ys_start && ys_end <= 3_000_000,
                i == 0 ==> xs_start == 0 && xs_end == 0 && ys_start == 0 && ys_end == 0,
                (xs_start as int, xs_end as int, ys_start as int, ys_end as int)
                    == spec_bounds_fold(self@.segments, i as int),
                forall|j: int|
                    0 <= j < i ==> {
                        let c = (#[trigger] self@.segments[j]).center;
                        let x = halved_toward_zero(2 * c.q + c.r);
                        &&& xs_start <= x - 2 && x + 3 <= xs_end
                        &&& ys_start <= c.r - 2 && c.r + 3 <= ys_end
                    },
            decreases n - i,
        {
            let seg = &self.segments[i];
            proof {
                assert(seg@ == self@.segments[i as int]);
            }
            let center = seg.center;
            let xd = center.x();
            let x = if xd >= 0 {
                xd / 2
            } else {
                -((-xd) / 2)
            };
            proof {
                assert(x == halved_toward_zero(2 * center.q + center.r));
            }
            let y = center.y();
            if x - 2 < xs_start {
                xs_start = x - 2;
            }
            if x + 3 > xs_end {
                xs_end = x + 3;
            }
            if y - 2 < ys_start {
                ys_start = y - 2;
            }
            if y + 3 > ys_end {
                ys_end = y + 3;
            }
            i = i + 1;
        }
        proof {
            if n > 0 {
                let c = self@.segments[0].center;
                let x = halved_toward_zero(2 * c.q + c.r);
                assert(xs_start <= x - 2 && x + 3 <= xs_end);
                assert(ys_start <= c.r - 2 && c.r + 3 <= ys_end);
            }
        }
        (xs_start..xs_end, ys_start..ys_end)
    }

    /// The size of the bounding box: the spans of the two ranges that
    /// `bounds` computes; zero for an empty board and at least five in each
    /// direction once a segment is placed.
    pub fn rectangle_size(&self) -> (r: crate::vec2::Vec2<crate::vec2::Direct>)
        requires
            self.wf(),
        ensures
            ({
                let b = spec_bounds_fold(self@.segments, self@.segments.len() as int);
                r.x == b.1 - b.0 && r.y == b.3 - b.2
            }),
            r.x >= 0,
            r.y >= 0,
            self@.segments.len() == 0 ==> r.x == 0 && r.y == 0,
            self@.segments.len() > 0 ==> r.x >= 5 && r.y >= 5,
    {
        let (xs, ys) = self.bounds();
        let x = xs.end - xs.start;
        let y = ys.end - ys.start;
        crate::vec2::Vec2::new(x, y)
    }
}

/// The magnitude of an integer (module-local alias used in contracts).
pub open spec fn abs_int_board(x: int) -> int {
    crate::cube::abs_int(x)
}

} // verus!
