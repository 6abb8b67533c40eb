//! Points and traced contours.
use vstd::prelude::*;

verus! {

/// A pixel position: `x` counts columns from the left, `y` rows from the top.
#[derive(Clone, Copy, PartialEq, Eq, Debug)]
pub struct Point {
    pub x: i32,
    pub y: i32,
}

impl Point {
    /// The point at column `x` and row `y`.
    pub fn new(x: i32, y: i32) -> (p: Point)
        ensures
            p.x == x,
            p.y == y,
    {
        Point { x, y }
    }
}

/// A list of contours, each an ordered list of points, as sequences.
pub open spec fn contours_view(cs: Seq<Vec<Point>>) -> Seq<Seq<Point>> {
    cs.map_values(|c: Vec<Point>| c@)
}

} // verus!
