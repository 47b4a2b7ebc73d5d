//! Cube coordinates for the hexagonal board: the six directions and the
//! three-component coordinate vectors with the invariant `q + r + s == 0`.

use vstd::prelude::*;

verus! {

/// A cube coordinate direction, one of the six hex orientations spaced 60
/// degrees apart, counted clockwise starting at `Right`.
#[derive(Debug, Default, Clone, Copy, PartialEq, Eq, Hash, Structural)]
pub enum CubeDir {
    #[default]
    Right,
    DownRight,
    DownLeft,
    Left,
    UpLeft,
    UpRight,
}

/// The number of clockwise turns from `Right` that produce the direction.
pub open spec fn spec_turns(d: CubeDir) -> int {
    match d {
        CubeDir::Right => 0,
        CubeDir::DownRight => 1,
        CubeDir::DownLeft => 2,
        CubeDir::Left => 3,
        CubeDir::UpLeft => 4,
        CubeDir::UpRight => 5,
    }
}

/// The direction reached after `n` clockwise turns from `Right`, for `n` in
/// `0..6`.
pub open spec fn spec_dir_of_turns(n: int) -> CubeDir {
    if n == 0 {
        CubeDir::Right
    } else if n == 1 {
        CubeDir::DownRight
    } else if n == 2 {
        CubeDir::DownLeft
    } else if n == 3 {
        CubeDir::Left
    } else if n == 4 {
        CubeDir::UpLeft
    } else {
        CubeDir::UpRight
    }
}

impl CubeDir {
    /// The shortest clockwise turn count from `self` to `target`, in `-2..=3`:
    /// positive values turn right, negative values turn left, and a tie at
    /// half a revolution is reported as `3`.
    pub open spec fn spec_turn_count_to(self, target: CubeDir) -> int {
        let diff = (spec_turns(target) - spec_turns(self)) % 6;
        if diff > 3 {
            diff - 6
        } else {
            diff
        }
    }

    /// The direction after rotating `self` clockwise by `n` turns (negative
    /// `n` rotates counterclockwise).
    pub open spec fn spec_rotated_by(self, n: int) -> CubeDir {
        spec_dir_of_turns((spec_turns(self) + n) % 6)
    }

    /// Every available direction, in turn order.
    pub fn all() -> (r: Vec<CubeDir>)
        ensures
            r@.len() == 6,
            forall|i: int| 0 <= i < 6 ==> r@[i] == spec_dir_of_turns(i),
    {
        let mut v: Vec<CubeDir> = Vec::new();
        v.push(CubeDir::Right);
        v.push(CubeDir::DownRight);
        v.push(CubeDir::DownLeft);
        v.push(CubeDir::Left);
        v.push(CubeDir::UpLeft);
        v.push(CubeDir::UpRight);
        v
    }

    /// The number of turns from the default direction (right).
    pub fn turns(self) -> (r: i32)
        ensures
            r == spec_turns(self),
    {
        match self {
            CubeDir::Right => 0,
            CubeDir::DownRight => 1,
            CubeDir::DownLeft => 2,
            CubeDir::Left => 3,
            CubeDir::UpLeft => 4,
            CubeDir::UpRight => 5,
        }
    }

    /// Clockwise turns to the target (in `(-2)..=3`).
    pub fn turn_count_to(self, target: CubeDir) -> (r: i32)
        ensures
            r == self.spec_turn_count_to(target),
            -2 <= r <= 3,
    {
        let d = target.turns() - self.turns();
        let m = if d < 0 { d + 6 } else { d };
        if m > 3 { m - 6 } else { m }
    }

    /// Rotates the direction by the given number of turns.
    pub fn rotated_by(self, turns: i32) -> (r: CubeDir)
        requires
            -2_147_483_000 <= turns <= 2_147_483_000,
        ensures
            r == self.spec_rotated_by(turns as int),
    {
        let sum = self.turns() + turns;
        let m = sum % 6;
        let k = if m < 0 { m + 6 } else { m };
        if k == 0 {
            CubeDir::Right
        } else if k == 1 {
            CubeDir::DownRight
        } else if k == 2 {
            CubeDir::DownLeft
        } else if k == 3 {
            CubeDir::Left
        } else if k == 4 {
            CubeDir::UpLeft
        } else {
            CubeDir::UpRight
        }
    }

    /// The opposite direction, half a revolution away.
    pub fn negated(self) -> (r: CubeDir)
        ensures
            r == self.spec_rotated_by(3),
    {
        match self {
            CubeDir::Right => CubeDir::Left,
            CubeDir::DownRight => CubeDir::UpLeft,
            CubeDir::DownLeft => CubeDir::UpRight,
            CubeDir::Left => CubeDir::Right,
            CubeDir::UpLeft => CubeDir::DownRight,
            CubeDir::UpRight => CubeDir::DownLeft,
        }
    }

    /// The opposite direction if the given condition is satisfied.
    pub fn opposite_if(self, condition: bool) -> (r: CubeDir)
        ensures
            r == if condition { self.spec_rotated_by(3) } else { self },
    {
        if condition { self.negated() } else { self }
    }
}

/// The magnitude of an integer.
pub open spec fn abs_int(x: int) -> int {
    if x < 0 { -x } else { x }
}

/// A cube coordinate vector (or position). Well-formed vectors satisfy
/// `q + r + s == 0`.
#[derive(Debug, Clone, Copy, PartialEq, Eq, Hash, Structural)]
pub struct CubeVec {
    pub q: i32,
    pub r: i32,
    pub s: i32,
}

/// The unit vector of a direction.
pub open spec fn spec_dir_vec(d: CubeDir) -> CubeVec {
    match d {
        CubeDir::Right => CubeVec { q: 1i32, r: 0i32, s: -1i32 },
        CubeDir::DownRight => CubeVec { q: 0i32, r: 1i32, s: -1i32 },
        CubeDir::DownLeft => CubeVec { q: -1i32, r: 1i32, s: 0i32 },
        CubeDir::Left => CubeVec { q: -1i32, r: 0i32, s: 1i32 },
        CubeDir::UpLeft => CubeVec { q: 0i32, r: -1i32, s: 1i32 },
        CubeDir::UpRight => CubeVec { q: 1i32, r: -1i32, s: 0i32 },
    }
}

impl CubeVec {
    /// The cube invariant: the three components cancel.
    pub open spec fn wf(self) -> bool {
        self.q + self.r + self.s == 0
    }

    /// All three components have magnitude at most `k`.
    pub open spec fn small(self, k: int) -> bool {
        -k <= self.q <= k && -k <= self.r <= k && -k <= self.s <= k
    }

    /// The component-wise sum of two vectors.
    pub open spec fn spec_plus(self, rhs: CubeVec) -> CubeVec {
        CubeVec { q: (self.q + rhs.q) as i32, r: (self.r + rhs.r) as i32, s: (self.s + rhs.s) as i32 }
    }

    /// The component-wise difference of two vectors.
    pub open spec fn spec_minus(self, rhs: CubeVec) -> CubeVec {
        CubeVec { q: (self.q - rhs.q) as i32, r: (self.r - rhs.r) as i32, s: (self.s - rhs.s) as i32 }
    }

    /// The vector scaled by an integer factor.
    pub open spec fn spec_scaled(self, k: int) -> CubeVec {
        CubeVec { q: (self.q * k) as i32, r: (self.r * k) as i32, s: (self.s * k) as i32 }
    }

    /// The vector with every component negated.
    pub open spec fn spec_negated(self) -> CubeVec {
        CubeVec { q: (-self.q) as i32, r: (-self.r) as i32, s: (-self.s) as i32 }
    }

    /// The hex distance between two positions: half the sum of the component
    /// distances.
    pub open spec fn spec_distance_to(self, rhs: CubeVec) -> int {
        (abs_int(self.q - rhs.q) + abs_int(self.r - rhs.r) + abs_int(self.s - rhs.s)) / 2
    }

    /// The vector rotated clockwise by `n` turns: components are permuted
    /// cyclically by `n` modulo 3 and negated when `n` is odd.
    pub open spec fn spec_rotated_by(self, n: int) -> CubeVec {
        let k = n % 3;
        let permuted = if k == 0 {
            self
        } else if k == 1 {
            CubeVec { q: self.r, r: self.s, s: self.q }
        } else {
            CubeVec { q: self.s, r: self.q, s: self.r }
        };
        if n % 2 == 1 {
            permuted.spec_negated()
        } else {
            permuted
        }
    }

    /// Creates a new vector from the given cube components, which must
    /// satisfy the cube invariant.
    pub fn new(q: i32, r: i32, s: i32) -> (v: CubeVec)
        requires
            q + r + s == 0,
        ensures
            v == (CubeVec { q, r, s }),
            v.wf(),
    {
        CubeVec { q, r, s }
    }

    /// Creates a new vector from the given q/r components.
    pub fn qr(q: i32, r: i32) -> (v: CubeVec)
        requires
            -1_000_000_000 <= q <= 1_000_000_000,
            -1_000_000_000 <= r <= 1_000_000_000,
        ensures
            v == (CubeVec { q, r, s: (-q - r) as i32 }),
            v.wf(),
    {
        CubeVec { q, r, s: -q - r }
    }

    /// Creates a new vector from the given r/q components.
    pub fn rq(r: i32, q: i32) -> (v: CubeVec)
        requires
            -1_000_000_000 <= q <= 1_000_000_000,
            -1_000_000_000 <= r <= 1_000_000_000,
        ensures
            v == (CubeVec { q, r, s: (-q - r) as i32 }),
            v.wf(),
    {
        CubeVec { q, r, s: -q - r }
    }

    /// The zero vector, the coordinate origin.
    pub fn zero() -> (v: CubeVec)
        ensures
            v == (CubeVec { q: 0, r: 0, s: 0 }),
    {
        CubeVec { q: 0, r: 0, s: 0 }
    }

    /// The unit vector pointing in the given direction.
    pub fn from_dir(d: CubeDir) -> (v: CubeVec)
        ensures
            v == spec_dir_vec(d),
            v.wf(),
            v.small(1),
    {
        match d {
            CubeDir::Right => CubeVec { q: 1, r: 0, s: -1 },
            CubeDir::DownRight => CubeVec { q: 0, r: 1, s: -1 },
            CubeDir::DownLeft => CubeVec { q: -1, r: 1, s: 0 },
            CubeDir::Left => CubeVec { q: -1, r: 0, s: 1 },
            CubeDir::UpLeft => CubeVec { q: 0, r: -1, s: 1 },
            CubeDir::UpRight => CubeVec { q: 1, r: -1, s: 0 },
        }
    }

    /// The first component of this vector.
    pub fn q(self) -> (r: i32)
        ensures
            r == self.q,
    {
        self.q
    }

    /// The second component of this vector.
    pub fn r(self) -> (r: i32)
        ensures
            r == self.r,
    {
        self.r
    }

    /// The third component of this vector.
    pub fn s(self) -> (r: i32)
        ensures
            r == self.s,
    {
        self.s
    }

    /// The inferred x component.
    pub fn x(self) -> (r: i32)
        requires
            self.small(500_000_000),
        ensures
            r == 2 * self.q + self.r,
    {
        self.q * 2 + self.r
    }

    /// Alias for the r component.
    pub fn y(self) -> (r: i32)
        ensures
            r == self.r,
    {
        self.r
    }

    /// The array x-component of this vector: the larger of `q` and `-s`.
    pub fn array_x(self) -> (r: i32)
        requires
            self.small(1_000_000_000),
        ensures
            r == if self.q >= -self.s { self.q as int } else { -self.s },
    {
        if self.q >= -self.s { self.q } else { -self.s }
    }

    /// The squared length of this vector.
    pub fn squared_length(self) -> (r: i32)
        requires
            self.small(26_000),
        ensures
            r == self.q * self.q + self.r * self.r + self.s * self.s,
    {
        proof {
            assert(0 <= self.q * self.q <= 676_000_000 && 0 <= self.r * self.r <= 676_000_000
                && 0 <= self.s * self.s <= 676_000_000) by (nonlinear_arith)
                requires
                    -26_000 <= self.q <= 26_000,
                    -26_000 <= self.r <= 26_000,
                    -26_000 <= self.s <= 26_000,
            ;
        }
        self.q * self.q + self.r * self.r + self.s * self.s
    }

    /// The component-wise sum.
    pub fn plus(self, rhs: CubeVec) -> (v: CubeVec)
        requires
            self.small(1_000_000_000),
            rhs.small(1_000_000_000),
        ensures
            v == self.spec_plus(rhs),
            v.q == self.q + rhs.q,
            v.r == self.r + rhs.r,
            v.s == self.s + rhs.s,
    {
        CubeVec { q: self.q + rhs.q, r: self.r + rhs.r, s: self.s + rhs.s }
    }

    /// The sum of this vector and the unit vector of a direction.
    pub fn plus_dir(self, d: CubeDir) -> (v: CubeVec)
        requires
            self.small(1_000_000_000),
        ensures
            v == self.spec_plus(spec_dir_vec(d)),
    {
        self.plus(Self::from_dir(d))
    }

    /// The component-wise difference.
    pub fn minus(self, rhs: CubeVec) -> (v: CubeVec)
        requires
            self.small(1_000_000_000),
            rhs.small(1_000_000_000),
        ensures
            v == self.spec_minus(rhs),
            v.q == self.q - rhs.q,
            v.r == self.r - rhs.r,
            v.s == self.s - rhs.s,
    {
        CubeVec { q: self.q - rhs.q, r: self.r - rhs.r, s: self.s - rhs.s }
    }

    /// The vector scaled by an integer factor.
    pub fn scaled(self, k: i32) -> (v: CubeVec)
        requires
            self.small(1_000_000),
            -1000 <= k <= 1000,
        ensures
            v == self.spec_scaled(k as int),
            v.q == self.q * k,
            v.r == self.r * k,
            v.s == self.s * k,
    {
        proof {
            assert(-1_000_000_000 <= self.q * k <= 1_000_000_000
                && -1_000_000_000 <= self.r * k <= 1_000_000_000
                && -1_000_000_000 <= self.s * k <= 1_000_000_000) by (nonlinear_arith)
                requires
                    self.small(1_000_000),
                    -1000 <= k <= 1000,
            ;
        }
        CubeVec { q: self.q * k, r: self.r * k, s: self.s * k }
    }

    /// The vector with every component negated.
    pub fn negated(self) -> (v: CubeVec)
        requires
            self.small(1_000_000_000),
        ensures
            v == self.spec_negated(),
    {
        CubeVec { q: -self.q, r: -self.r, s: -self.s }
    }

    /// The distance to the given position.
    pub fn distance_to(self, rhs: CubeVec) -> (r: u32)
        requires
            self.small(500_000_000),
            rhs.small(500_000_000),
        ensures
            r == self.spec_distance_to(rhs),
    {
        let dq: u32 = if self.q >= rhs.q { (self.q - rhs.q) as u32 } else { (rhs.q - self.q) as u32 };
        let dr: u32 = if self.r >= rhs.r { (self.r - rhs.r) as u32 } else { (rhs.r - self.r) as u32 };
        let ds: u32 = if self.s >= rhs.s { (self.s - rhs.s) as u32 } else { (rhs.s - self.s) as u32 };
        (dq + dr + ds) / 2
    }

    /// Rotates the vector by the given number of turns to the right.
    pub fn rotated_by(self, turns: i32) -> (v: CubeVec)
        requires
            self.small(1_000_000_000),
        ensures
            v == self.spec_rotated_by(turns as int),
    {
        let m3 = turns % 3;
        let k = if m3 < 0 { m3 + 3 } else { m3 };
        let permuted = if k == 0 {
            self
        } else if k == 1 {
            CubeVec { q: self.r, r: self.s, s: self.q }
        } else {
            CubeVec { q: self.s, r: self.q, s: self.r }
        };
        if turns % 2 != 0 {
            CubeVec { q: -permuted.q, r: -permuted.r, s: -permuted.s }
        } else {
            permuted
        }
    }

    /// Fetches the 6 hex neighbors, in direction order.
    pub fn hex_neighbors(self) -> (r: Vec<CubeVec>)
        requires
            self.small(1_000_000_000),
        ensures
            r@.len() == 6,
            forall|i: int|
                0 <= i < 6 ==> r@[i] == self.spec_plus(spec_dir_vec(spec_dir_of_turns(i))),
    {
        let mut v: Vec<CubeVec> = Vec::new();
        v.push(self.plus_dir(CubeDir::Right));
        v.push(self.plus_dir(CubeDir::DownRight));
        v.push(self.plus_dir(CubeDir::DownLeft));
        v.push(self.plus_dir(CubeDir::Left));
        v.push(self.plus_dir(CubeDir::UpLeft));
        v.push(self.plus_dir(CubeDir::UpRight));
        v
    }
}

impl Default for CubeVec {
    /// The zero vector.
    fn default() -> (v: CubeVec)
        ensures
            v == (CubeVec { q: 0, r: 0, s: 0 }),
    {
        CubeVec { q: 0, r: 0, s: 0 }
    }
}

} // verus!
