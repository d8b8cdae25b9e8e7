//! Points of the playfield and the proximity test between them.

use vstd::prelude::*;

verus! {

/// Sub-units in one playfield unit.
pub const UNIT: i64 = 1_000;

/// Largest magnitude of a coordinate that the simulation works with.
pub const COORD_MAX: i64 = 1_000_000_000_000_000;

/// A point of the plane, in unbounded sub-units.
pub struct Point {
    pub x: int,
    pub y: int,
}

/// A position on the playfield, in sub-units.
#[derive(Clone, Copy, Debug, PartialEq, Eq)]
pub struct Position {
    pub x: i64,
    pub y: i64,
}

impl View for Position {
    type V = Point;

    open spec fn view(&self) -> Point {
        Point { x: self.x as int, y: self.y as int }
    }
}

impl Point {
    /// Both coordinates lie within `COORD_MAX` of the origin.
    pub open spec fn in_range(self) -> bool {
        &&& -COORD_MAX <= self.x <= COORD_MAX
        &&& -COORD_MAX <= self.y <= COORD_MAX
    }

    /// Square of the Euclidean distance to `other`.
    pub open spec fn dist_sq(self, other: Point) -> int {
        (self.x - other.x) * (self.x - other.x) + (self.y - other.y) * (self.y - other.y)
    }

    /// The Euclidean distance to `other` is strictly less than `radius`.
    pub open spec fn within(self, other: Point, radius: int) -> bool {
        radius > 0 && self.dist_sq(other) < radius * radius
    }
}

impl Position {
    pub fn new(x: i64, y: i64) -> (p: Position)
        ensures
            p@ == (Point { x: x as int, y: y as int }),
    {
        Position { x, y }
    }

    /// Whether both coordinates lie within `COORD_MAX` of the origin.
    pub fn in_range(&self) -> (b: bool)
        ensures
            b == self@.in_range(),
    {
        -COORD_MAX <= self.x && self.x <= COORD_MAX && -COORD_MAX <= self.y && self.y <= COORD_MAX
    }
}

proof fn lemma_square_grows(a: int, b: int)
    by (nonlinear_arith)
    requires
        0 <= a <= b,
    ensures
        a * a <= b * b,
        0 <= a * a,
{
}

proof fn lemma_square_of_negation(a: int)
    by (nonlinear_arith)
    ensures
        (-a) * (-a) == a * a,
        0 <= a * a,
{
}

/// Whether `a` and `b` are closer to each other than `radius`.
///
/// The test is exact for all coordinates: no square root and no rounding.
pub fn within(a: Position, b: Position, radius: i64) -> (near: bool)
    ensures
        near == a@.within(b@, radius as int),
{
    if radius <= 0 {
        return false;
    }
    let r: i128 = radius as i128;
    let dx: i128 = a.x as i128 - b.x as i128;
    let dy: i128 = a.y as i128 - b.y as i128;
    let ax: i128 = if dx < 0 { -dx } else { dx };
    let ay: i128 = if dy < 0 { -dy } else { dy };
    proof {
        lemma_square_of_negation(dx as int);
        lemma_square_of_negation(dy as int);
        if ax >= r {
            lemma_square_grows(r as int, ax as int);
        } else {
            lemma_square_grows(ax as int, r as int - 1);
        }
        if ay >= r {
            lemma_square_grows(r as int, ay as int);
        } else {
            lemma_square_grows(ay as int, r as int - 1);
        }
        lemma_square_grows(r as int, i64::MAX as int);
        lemma_square_grows(r as int - 1, i64::MAX as int);
    }
    if ax >= r || ay >= r {
        return false;
    }
    ax * ax + ay * ay < r * r
}

} // verus!
