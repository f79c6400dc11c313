//! Points, rectangles and the saturating arithmetic that all positions use.

use vstd::prelude::*;

verus! {

/// The value that positions take when a sum leaves the range of `i64`.
///
/// Sums of lengths never wrap: they stop at the end of the range, so an
/// unbounded extent (`i64::MAX`) stays unbounded when something is added.
pub open spec fn clamp(v: int) -> i64 {
    if v > i64::MAX {
        i64::MAX
    } else if v < i64::MIN {
        i64::MIN
    } else {
        v as i64
    }
}

/// Whether `v` lies strictly within the range of `i64`. A sum that is held
/// within the range and comes out inside it is the true sum.
pub open spec fn inside(v: i64) -> bool {
    i64::MIN < v < i64::MAX
}

/// `a + b`, held within `i64`.
pub fn sat_add(a: i64, b: i64) -> (r: i64)
    ensures
        r == clamp(a + b),
{
    match a.checked_add(b) {
        Some(v) => v,
        None => if a > 0 {
            i64::MAX
        } else {
            i64::MIN
        },
    }
}

/// `a - b`, held within `i64`.
pub fn sat_sub(a: i64, b: i64) -> (r: i64)
    ensures
        r == clamp(a - b),
{
    match a.checked_sub(b) {
        Some(v) => v,
        None => if a >= 0 {
            i64::MAX
        } else {
            i64::MIN
        },
    }
}

/// Half of `a`, rounded towards negative infinity.
pub fn half(a: i64) -> (r: i64)
    ensures
        r == a / 2,
{
    if a >= 0 {
        a / 2
    } else {
        let p: i64 = -(a + 1);
        -(p / 2) - 1
    }
}

/// A position, or an offset between two positions. `y` grows downwards.
#[derive(Clone, Copy, Debug, PartialEq, Eq, Hash, Structural)]
pub struct Point {
    pub x: i64,
    pub y: i64,
}

impl Point {
    /// The point moved by `by`, each coordinate held within `i64`.
    pub open spec fn spec_offset(self, by: Point) -> Point {
        Point { x: clamp(self.x + by.x), y: clamp(self.y + by.y) }
    }

    /// The point moved by `by`.
    pub fn offset(self, by: Point) -> (r: Point)
        ensures
            r == self.spec_offset(by),
    {
        Point { x: sat_add(self.x, by.x), y: sat_add(self.y, by.y) }
    }
}

/// The greatest width and height that a section may take; `i64::MAX` stands
/// for no limit.
#[derive(Clone, Copy, Debug, PartialEq, Eq, Hash, Structural)]
pub struct Bounds {
    pub width: i64,
    pub height: i64,
}

impl Bounds {
    /// Whether there is any room within the bounds: they have a width and a
    /// height.
    pub open spec fn has_room(self) -> bool {
        self.width > 0 && self.height > 0
    }
}

/// An axis-aligned rectangle given by its top-left and bottom-right corners.
#[derive(Clone, Copy, Debug, PartialEq, Eq, Hash, Structural)]
pub struct Rect {
    pub min: Point,
    pub max: Point,
}

impl Rect {
    /// The rectangle moved by `by`.
    pub open spec fn spec_offset(self, by: Point) -> Rect {
        Rect { min: self.min.spec_offset(by), max: self.max.spec_offset(by) }
    }

    /// The rectangle moved by `by`.
    pub fn offset(self, by: Point) -> (r: Rect)
        ensures
            r == self.spec_offset(by),
    {
        Rect { min: self.min.offset(by), max: self.max.offset(by) }
    }

    /// Whether `inner` lies within this rectangle.
    pub open spec fn holds(self, inner: Rect) -> bool {
        &&& self.min.x <= inner.min.x
        &&& self.min.y <= inner.min.y
        &&& inner.max.x <= self.max.x
        &&& inner.max.y <= self.max.y
    }

    /// The smallest rectangle that holds this one and `other`.
    pub open spec fn spec_union(self, other: Rect) -> Rect {
        Rect {
            min: Point {
                x: if other.min.x < self.min.x {
                    other.min.x
                } else {
                    self.min.x
                },
                y: if other.min.y < self.min.y {
                    other.min.y
                } else {
                    self.min.y
                },
            },
            max: Point {
                x: if other.max.x > self.max.x {
                    other.max.x
                } else {
                    self.max.x
                },
                y: if other.max.y > self.max.y {
                    other.max.y
                } else {
                    self.max.y
                },
            },
        }
    }

    /// The smallest rectangle that holds this one and `other`.
    pub fn union(self, other: Rect) -> (r: Rect)
        ensures
            r == self.spec_union(other),
    {
        Rect {
            min: Point {
                x: if other.min.x < self.min.x {
                    other.min.x
                } else {
                    self.min.x
                },
                y: if other.min.y < self.min.y {
                    other.min.y
                } else {
                    self.min.y
                },
            },
            max: Point {
                x: if other.max.x > self.max.x {
                    other.max.x
                } else {
                    self.max.x
                },
                y: if other.max.y > self.max.y {
                    other.max.y
                } else {
                    self.max.y
                },
            },
        }
    }
}

} // verus!
