//! A fixed-size patch of fields placed and oriented in global space, with the
//! local/global coordinate transforms.

use vstd::prelude::*;
use crate::cube::{CubeDir, CubeVec};
use crate::field::Field;

verus! {

/// The mathematical model of a segment: its orientation, its center in
/// global coordinates, and its grid of fields as a sequence of columns.
pub struct SegmentView {
    pub direction: CubeDir,
    pub center: CubeVec,
    pub fields: Seq<Seq<Field>>,
}

/// The local array column of a local coordinate: the larger of `q` and `-s`.
pub open spec fn spec_array_x(c: CubeVec) -> int {
    if c.q >= -c.s {
        c.q as int
    } else {
        -(c.s as int)
    }
}

impl SegmentView {
    /// The model is well-formed: the center satisfies the cube invariant and
    /// stays in the coordinate range of a real board, and the grid is of
    /// bounded size.
    pub open spec fn wf(self) -> bool {
        &&& self.center.wf()
        &&& self.center.small(1_000_000)
        &&& self.fields.len() <= 100
        &&& forall|i: int| 0 <= i < self.fields.len() ==> (#[trigger] self.fields[i]).len() <= 100
    }

    /// The global position of a local coordinate: rotate by the segment's
    /// orientation and translate by its center.
    pub open spec fn spec_local_to_global(self, coords: CubeVec) -> CubeVec {
        coords.spec_rotated_by(
            CubeDir::Right.spec_turn_count_to(self.direction),
        ).spec_plus(self.center)
    }

    /// The local coordinate of a global position: translate by the center and
    /// rotate back.
    pub open spec fn spec_global_to_local(self, coords: CubeVec) -> CubeVec {
        coords.spec_minus(self.center).spec_rotated_by(
            self.direction.spec_turn_count_to(CubeDir::Right),
        )
    }

    /// The field at a local coordinate, or nothing if the coordinate lies
    /// outside the grid.
    pub open spec fn spec_get_local(self, coords: CubeVec) -> Option<Field> {
        let x = spec_array_x(coords) + 1;
        let y = coords.r + 2;
        if 0 <= x < self.fields.len() && 0 <= y < self.fields[x].len() {
            Some(self.fields[x][y])
        } else {
            None
        }
    }

    /// The field at a global position, or nothing if it lies outside the
    /// segment.
    pub open spec fn spec_get_global(self, coords: CubeVec) -> Option<Field> {
        self.spec_get_local(self.spec_global_to_local(coords))
    }

    /// The segment with the field at the given global position replaced by
    /// `f`; the segment itself if the position lies outside the grid.
    pub open spec fn spec_set_global(self, coords: CubeVec, f: Field) -> SegmentView {
        let local = self.spec_global_to_local(coords);
        let x = spec_array_x(local) + 1;
        let y = local.r + 2;
        if 0 <= x < self.fields.len() && 0 <= y < self.fields[x].len() {
            SegmentView { fields: self.fields.update(x, self.fields[x].update(y, f)), ..self }
        } else {
            self
        }
    }
}

/// A tile of the river board: a grid of fields with an orientation and a
/// center in global space.
#[derive(Debug, Clone, PartialEq, Eq)]
pub struct Segment {
    pub direction: CubeDir,
    pub center: CubeVec,
    pub fields: Vec<Vec<Field>>,
}

impl View for Segment {
    type V = SegmentView;

    open spec fn view(&self) -> SegmentView {
        SegmentView {
            direction: self.direction,
            center: self.center,
            fields: Seq::new(self.fields@.len(), |i: int| self.fields@[i]@),
        }
    }
}

impl Segment {
    /// The segment is well-formed (see [`SegmentView::wf`]).
    pub open spec fn wf(self) -> bool {
        self@.wf()
    }

    /// An identical copy of the segment.
    pub fn duplicate(&self) -> (r: Segment)
        ensures
            r@ == self@,
    {
        let mut fields: Vec<Vec<Field>> = Vec::new();
        let n = self.fields.len();
        let mut i: usize = 0;
        while i < n
            invariant
                0 <= i <= n,
                n == self.fields@.len(),
                fields@.len() == i,
                forall|j: int| 0 <= j < i ==> (#[trigger] fields@[j])@ == self.fields@[j]@,
            decreases n - i,
        {
            let row = &self.fields[i];
            let m = row.len();
            let mut new_row: Vec<Field> = Vec::new();
            let mut k: usize = 0;
            while k < m
                invariant
                    0 <= k <= m,
                    m == row@.len(),
                    new_row@ == row@.take(k as int),
                decreases m - k,
            {
                new_row.push(row[k]);
                proof {
                    assert(row@.take(k + 1) =~= row@.take(k as int).push(row@[k as int]));
                }
                k = k + 1;
            }
            proof {
                assert(row@.take(m as int) =~= row@);
            }
            fields.push(new_row);
            i = i + 1;
        }
        let r = Segment { direction: self.direction, center: self.center, fields };
        proof {
            assert(r@.fields =~= self@.fields);
            assert(r@ =~= self@);
        }
        r
    }

    /// The position of the segment's tip: half the grid width ahead of the
    /// center in the segment's direction.
    pub fn tip(&self) -> (r: CubeVec)
        requires
            self.wf(),
        ensures
            r == crate::cube::spec_dir_vec(self.direction).spec_scaled(
                self@.fields.len() as int / 2,
            ).spec_plus(self.center),
    {
        let half = self.fields.len() / 2;
        CubeVec::from_dir(self.direction).scaled(half as i32).plus(self.center)
    }

    /// Converts local to global coordinates.
    pub fn local_to_global(&self, coords: CubeVec) -> (r: CubeVec)
        requires
            self.wf(),
            coords.small(900_000_000),
        ensures
            r == self@.spec_local_to_global(coords),
    {
        coords.rotated_by(CubeDir::Right.turn_count_to(self.direction)).plus(self.center)
    }

    /// Converts global to local coordinates.
    pub fn global_to_local(&self, coords: CubeVec) -> (r: CubeVec)
        requires
            self.wf(),
            coords.small(900_000_000),
        ensures
            r == self@.spec_global_to_local(coords),
    {
        coords.minus(self.center).rotated_by(self.direction.turn_count_to(CubeDir::Right))
    }

    /// Fetches the field at the given local position.
    pub fn get_local(&self, coords: CubeVec) -> (r: Option<Field>)
        requires
            self.wf(),
            coords.small(1_000_000_000),
        ensures
            r == self@.spec_get_local(coords),
    {
        let x = coords.array_x() + 1;
        let y = coords.r + 2;
        if 0 <= x && (x as usize) < self.fields.len() {
            let row = &self.fields[x as usize];
            if 0 <= y && (y as usize) < row.len() {
                return Some(row[y as usize]);
            }
        }
        None
    }

    /// Fetches the field at the given global position.
    pub fn get_global(&self, coords: CubeVec) -> (r: Option<Field>)
        requires
            self.wf(),
            coords.small(900_000_000),
        ensures
            r == self@.spec_get_global(coords),
    {
        self.get_local(self.global_to_local(coords))
    }
}

} // verus!
