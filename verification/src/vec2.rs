//! Two-dimensional integer vectors in direct or doubled hex coordinates.

use vstd::prelude::*;

verus! {

/// Marker type for direct coordinates.
#[derive(Debug, Clone, Copy, PartialEq, Eq, Hash, Structural)]
pub struct Direct;

/// Marker type for doubled coordinates.
#[derive(Debug, Clone, Copy, PartialEq, Eq, Hash, Structural)]
pub struct Doubled;

/// A position on the board or 2D integer vector.
/// Either uses direct or doubled hex coordinates.
#[derive(Debug)]
pub struct Vec2<C> {
    pub x: i32,
    pub y: i32,
    pub phantom: core::marker::PhantomData<C>,
}

/// The remainder of `y` by two with the sign of `y`, as the hardware division
/// computes it.
pub open spec fn rem2(y: int) -> int {
    if y % 2 == 0 {
        0
    } else if y < 0 {
        -1
    } else {
        1
    }
}

impl<C> Vec2<C> {
    /// Creates a new vector from the given x- and y-components.
    pub fn new(x: i32, y: i32) -> (v: Vec2<C>)
        ensures
            v.x == x,
            v.y == y,
    {
        Vec2 { x, y, phantom: core::marker::PhantomData }
    }

    /// The area of the rectangle spanned by this vector.
    pub fn area(self) -> (r: i32)
        requires
            -30_000 <= self.x <= 30_000,
            -30_000 <= self.y <= 30_000,
        ensures
            r == crate::cube::abs_int(self.x * self.y),
    {
        proof {
            assert(-900_000_000 <= self.x * self.y <= 900_000_000) by (nonlinear_arith)
                requires
                    -30_000 <= self.x <= 30_000,
                    -30_000 <= self.y <= 30_000,
            ;
        }
        let p = self.x * self.y;
        if p < 0 {
            -p
        } else {
            p
        }
    }

    /// The squared length of this vector.
    pub fn squared_length(self) -> (r: i32)
        requires
            -30_000 <= self.x <= 30_000,
            -30_000 <= self.y <= 30_000,
        ensures
            r == self.x * self.x + self.y * self.y,
    {
        proof {
            assert(0 <= self.x * self.x <= 900_000_000 && 0 <= self.y * self.y <= 900_000_000)
                by (nonlinear_arith)
                requires
                    -30_000 <= self.x <= 30_000,
                    -30_000 <= self.y <= 30_000,
            ;
        }
        self.x * self.x + self.y * self.y
    }

    /// The component-wise sum.
    pub fn plus(self, rhs: Vec2<C>) -> (v: Vec2<C>)
        requires
            -1_000_000_000 <= self.x + rhs.x <= 1_000_000_000,
            -1_000_000_000 <= self.y + rhs.y <= 1_000_000_000,
        ensures
            v.x == self.x + rhs.x,
            v.y == self.y + rhs.y,
    {
        Vec2 { x: self.x + rhs.x, y: self.y + rhs.y, phantom: core::marker::PhantomData }
    }
}

impl Vec2<Direct> {
    /// Fetches the four cardinal neighbors.
    pub fn cardinal_neighbors(self) -> (r: Vec<Vec2<Direct>>)
        requires
            -1_000_000 <= self.x <= 1_000_000,
            -1_000_000 <= self.y <= 1_000_000,
        ensures
            r@.len() == 4,
            r@[0].x == self.x - 1 && r@[0].y == self.y,
            r@[1].x == self.x + 1 && r@[1].y == self.y,
            r@[2].x == self.x && r@[2].y == self.y - 1,
            r@[3].x == self.x && r@[3].y == self.y + 1,
    {
        let mut v: Vec<Vec2<Direct>> = Vec::new();
        v.push(Vec2::new(self.x - 1, self.y));
        v.push(Vec2::new(self.x + 1, self.y));
        v.push(Vec2::new(self.x, self.y - 1));
        v.push(Vec2::new(self.x, self.y + 1));
        v
    }

    /// A convenience method for converting to doubled coordinates: the x
    /// component is doubled and shifted by the row parity.
    pub fn to_doubled(self) -> (r: Vec2<Doubled>)
        requires
            -1_000_000 <= self.x <= 1_000_000,
            -1_000_000 <= self.y <= 1_000_000,
        ensures
            r.x == 2 * self.x + rem2(self.y as int),
            r.y == self.y,
    {
        Vec2 { x: self.x * 2 + self.y % 2, y: self.y, phantom: core::marker::PhantomData }
    }
}

impl Vec2<Doubled> {
    /// Whether the vector is parallel to a hex axis.
    pub fn straight(self) -> (r: bool)
        requires
            -1_000_000_000 < self.x <= 1_000_000_000,
            -1_000_000_000 < self.y <= 1_000_000_000,
        ensures
            r == (crate::cube::abs_int(self.x as int) == crate::cube::abs_int(self.y as int)
                || (rem2(self.x as int) == 0 && self.y == 0)),
    {
        let ax = if self.x < 0 { -self.x } else { self.x };
        let ay = if self.y < 0 { -self.y } else { self.y };
        ax == ay || (self.x % 2 == 0 && self.y == 0)
    }

    /// Fetches the 6 hex neighbors, in the fixed order left, up-left,
    /// up-right, right, down-right, down-left.
    pub fn hex_neighbors(self) -> (r: Vec<Vec2<Doubled>>)
        requires
            -1_000_000 <= self.x <= 1_000_000,
            -1_000_000 <= self.y <= 1_000_000,
        ensures
            r@.len() == 6,
            r@[0].x == self.x + 2 && r@[0].y == self.y,
            r@[1].x == self.x - 1 && r@[1].y == self.y - 1,
            r@[2].x == self.x + 1 && r@[2].y == self.y - 1,
            r@[3].x == self.x - 2 && r@[3].y == self.y,
            r@[4].x == self.x + 1 && r@[4].y == self.y + 1,
            r@[5].x == self.x - 1 && r@[5].y == self.y + 1,
    {
        let mut v: Vec<Vec2<Doubled>> = Vec::new();
        v.push(Vec2::new(self.x + 2, self.y));
        v.push(Vec2::new(self.x - 1, self.y - 1));
        v.push(Vec2::new(self.x + 1, self.y - 1));
        v.push(Vec2::new(self.x - 2, self.y));
        v.push(Vec2::new(self.x + 1, self.y + 1));
        v.push(Vec2::new(self.x - 1, self.y + 1));
        v
    }

    /// A convenience method for converting to direct coordinates: the x
    /// component is halved towards zero.
    pub fn to_direct(self) -> (r: Vec2<Direct>)
        requires
            -1_000_000_000 < self.x <= 1_000_000_000,
        ensures
            r.y == self.y,
            r.x == (if self.x >= 0 {
                self.x as int / 2
            } else {
                -((-self.x) as int / 2)
            }),
    {
        Vec2 { x: self.x / 2, y: self.y, phantom: core::marker::PhantomData }
    }
}

impl Default for Vec2<Direct> {
    /// The coordinate origin.
    fn default() -> (v: Vec2<Direct>)
        ensures
            v.x == 0 && v.y == 0,
    {
        Vec2 { x: 0, y: 0, phantom: core::marker::PhantomData }
    }
}

} // verus!
