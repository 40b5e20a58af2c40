use vstd::prelude::*;
use crate::geometry::point::Point;

verus! {

/// An axis-aligned rectangle. `x1`/`y1` are inclusive, `x2`/`y2` exclusive.
#[derive(Clone, Copy, PartialEq, Eq, Hash, Debug, Structural)]
pub struct Rect {
    pub x1: i32,
    pub x2: i32,
    pub y1: i32,
    pub y2: i32,
}

impl Rect {
    /// Whether `p` lies inside the rectangle (right and bottom edges excluded).
    pub open spec fn contains_spec(self, p: Point) -> bool {
        self.x1 <= p.x < self.x2 && self.y1 <= p.y < self.y2
    }

    /// The cells of the rectangle, row by row from `y1`, each row from `x1`.
    pub open spec fn cells_spec(self) -> Seq<Point> {
        let w = self.x2 - self.x1;
        let h = self.y2 - self.y1;
        if w <= 0 || h <= 0 {
            Seq::empty()
        } else {
            Seq::new(
                (w * h) as nat,
                |i: int| Point { x: (self.x1 + i % w) as i32, y: (self.y1 + i / w) as i32 },
            )
        }
    }

    /// Creates a rectangle from its two corners.
    pub fn with_exact(x1: i32, y1: i32, x2: i32, y2: i32) -> (r: Rect)
        ensures
            r == (Rect { x1, x2, y1, y2 }),
    {
        Rect { x1, x2, y1, y2 }
    }

    /// Creates a rectangle from its top-left corner and its size.
    pub fn with_size(x: i32, y: i32, w: i32, h: i32) -> (r: Rect)
        requires
            i32::MIN <= x + w <= i32::MAX,
            i32::MIN <= y + h <= i32::MAX,
        ensures
            r == (Rect { x1: x, x2: (x + w) as i32, y1: y, y2: (y + h) as i32 }),
    {
        Rect { x1: x, x2: x + w, y1: y, y2: y + h }
    }

    /// Returns true if the point lies inside the rectangle.
    pub fn point_in_rect(&self, point: Point) -> (b: bool)
        ensures
            b == self.contains_spec(point),
    {
        point.x >= self.x1 && point.x < self.x2 && point.y >= self.y1 && point.y < self.y2
    }
}

} // verus!
