use vstd::prelude::*;

verus! {

/// How many fixed-point steps make one whole unit.
pub const UNITS_PER_WHOLE: i32 = 1000;

/// The square of an integer.
pub open spec fn square(v: int) -> int {
    v * v
}

/// Whether a length whose square is `distance_squared` is strictly greater
/// than `limit`. No length is negative, so every length exceeds a negative
/// limit.
pub open spec fn longer_than(distance_squared: int, limit: int) -> bool {
    limit < 0 || distance_squared > square(limit)
}

/// A point or direction in world space, in thousandths of a world unit.
#[derive(Clone, Copy, Debug, PartialEq, Eq, Structural)]
pub struct DbVector3 {
    pub x: i32,
    pub y: i32,
    pub z: i32,
}

impl Default for DbVector3 {
    fn default() -> (v: Self)
        ensures
            v == (DbVector3 { x: 0, y: 0, z: 0 }),
    {
        DbVector3 { x: 0, y: 0, z: 0 }
    }
}

/// A direction on a plane, in thousandths.
#[derive(Clone, Copy, Debug, PartialEq, Eq, Structural)]
pub struct DbVector2 {
    pub x: i32,
    pub y: i32,
}

impl Default for DbVector2 {
    fn default() -> (v: Self)
        ensures
            v == (DbVector2 { x: 0, y: 0 }),
    {
        DbVector2 { x: 0, y: 0 }
    }
}

/// Who a caller is: 256 bits, held as two halves.
#[derive(Clone, Copy, Debug, PartialEq, Eq, Structural)]
pub struct Identity {
    pub high: u128,
    pub low: u128,
}

/// The square of the difference of two coordinates.
pub fn squared_difference(a: i32, b: i32) -> (r: u128)
    ensures
        r == square(a - b),
        r <= 0xFFFF_FFFE_0000_0001,
{
    let d: i64 = a as i64 - b as i64;
    let m: u128 = if d < 0 {
        (-d) as u128
    } else {
        d as u128
    };
    assert(m * m == square(a - b)) by (nonlinear_arith)
        requires
            m == a - b || m == -(a - b),
    ;
    assert(m * m <= 0xFFFF_FFFE_0000_0001) by (nonlinear_arith)
        requires
            m <= 0xFFFF_FFFF,
    ;
    m * m
}

/// The largest integer whose square does not exceed `n`.
pub fn integer_sqrt(n: u128) -> (r: u64)
    ensures
        square(r as int) <= n,
        n < square(r + 1),
{
    let mut lo: u128 = 0;
    let mut hi: u128 = 0x1_0000_0000_0000_0000;
    assert(square(0x1_0000_0000_0000_0000) > u128::MAX);
    while hi - lo > 1
        invariant
            lo < hi <= 0x1_0000_0000_0000_0000,
            square(lo as int) <= n,
            n < square(hi as int),
        decreases hi - lo,
    {
        let mid: u128 = lo + (hi - lo) / 2;
        assert(mid * mid <= u128::MAX) by (nonlinear_arith)
            requires
                mid <= 0xFFFF_FFFF_FFFF_FFFF,
        ;
        if mid * mid <= n {
            lo = mid;
        } else {
            hi = mid;
        }
    }
    lo as u64
}

impl DbVector3 {
    /// The square of the straight-line distance to `other`.
    pub open spec fn distance_squared(self, other: DbVector3) -> int {
        square(self.x - other.x) + square(self.y - other.y) + square(self.z - other.z)
    }

    /// The square of the distance to `other` when both are projected on the
    /// ground plane: height is left out.
    pub open spec fn horizontal_distance_squared(self, other: DbVector3) -> int {
        square(self.x - other.x) + square(self.z - other.z)
    }

    /// Computes `distance_squared`.
    pub fn squared_distance(&self, other: &DbVector3) -> (r: u128)
        ensures
            r == self.distance_squared(*other),
    {
        squared_difference(self.x, other.x) + squared_difference(self.y, other.y)
            + squared_difference(self.z, other.z)
    }

    /// Computes `horizontal_distance_squared`.
    pub fn squared_horizontal_distance(&self, other: &DbVector3) -> (r: u128)
        ensures
            r == self.horizontal_distance_squared(*other),
            r <= 0x1_FFFF_FFFC_0000_0002,
    {
        squared_difference(self.x, other.x) + squared_difference(self.z, other.z)
    }

    /// The straight-line distance to `other`, rounded down to a whole step.
    pub fn distance(&self, other: &DbVector3) -> (r: u64)
        ensures
            square(r as int) <= self.distance_squared(*other),
            self.distance_squared(*other) < square(r + 1),
    {
        integer_sqrt(self.squared_distance(other))
    }

    /// Whether `other` lies strictly farther away than `limit`.
    pub fn farther_than(&self, other: &DbVector3, limit: i32) -> (r: bool)
        ensures
            r == longer_than(self.distance_squared(*other), limit as int),
    {
        if limit < 0 {
            true
        } else {
            let l: u128 = limit as u128;
            assert(l * l == square(limit as int));
            assert(l * l <= 0xFFFF_FFFE_0000_0001) by (nonlinear_arith)
                requires
                    l <= 0xFFFF_FFFF,
            ;
            self.squared_distance(other) > l * l
        }
    }
}

} // verus!
