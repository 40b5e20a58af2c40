use vstd::prelude::*;
use crate::geometry::point::Point;
use crate::geometry::rect::Rect;

verus! {

/// A two-dimensional capsule: every grid point within `radius` of the segment
/// from `start` to `end`.
#[derive(Clone, Copy, PartialEq, Eq, Debug, Structural)]
pub struct Capsule {
    /// The center point of the first rounded end.
    pub start: Point,
    /// The center point of the second rounded end.
    pub end: Point,
    /// The radius of the rounded ends and half-width of the capsule.
    pub radius: i32,
}

/// Squared distance between two points.
pub open spec fn dist_sq(a: Point, b: Point) -> int {
    (a.x - b.x) * (a.x - b.x) + (a.y - b.y) * (a.y - b.y)
}

/// Whether the squared distance from `p` to the closest point of the segment
/// `a`..`b` is at most `r2`. The closest point is the projection of `p` onto
/// the segment's line, clamped to the segment; when it lies strictly inside
/// the segment the squared distance is `cross * cross / len2`.
pub open spec fn segment_within(a: Point, b: Point, p: Point, r2: int) -> bool {
    let dx = b.x - a.x;
    let dy = b.y - a.y;
    let ox = p.x - a.x;
    let oy = p.y - a.y;
    let len2 = dx * dx + dy * dy;
    let t = ox * dx + oy * dy;
    if len2 == 0 || t <= 0 {
        dist_sq(p, a) <= r2
    } else if t >= len2 {
        dist_sq(p, b) <= r2
    } else {
        (ox * dy - oy * dx) * (ox * dy - oy * dx) <= r2 * len2
    }
}

/// Whether `a` comes strictly before `b` when cells are walked row by row.
pub open spec fn row_major_lt(a: Point, b: Point) -> bool {
    a.y < b.y || (a.y == b.y && a.x < b.x)
}

/// Radii whose square fits in an `i32`.
pub open spec fn radius_ok(radius: i32) -> bool {
    -46340 <= radius <= 46340
}

impl Capsule {
    /// The radius taken by its absolute value.
    pub open spec fn abs_radius(self) -> int {
        if self.radius < 0 { -self.radius } else { self.radius as int }
    }

    /// Whether the point lies inside the capsule.
    pub open spec fn contains_spec(self, p: Point) -> bool {
        segment_within(self.start, self.end, p, self.abs_radius() * self.abs_radius())
    }

    /// The smallest axis-aligned rectangle around the capsule, as integers.
    pub open spec fn bounds_spec(self) -> (int, int, int, int) {
        let r = self.abs_radius();
        let minx = if self.start.x <= self.end.x { self.start.x } else { self.end.x };
        let miny = if self.start.y <= self.end.y { self.start.y } else { self.end.y };
        let maxx = if self.start.x >= self.end.x { self.start.x } else { self.end.x };
        let maxy = if self.start.y >= self.end.y { self.start.y } else { self.end.y };
        (minx - r, miny - r, maxx + r + 1, maxy + r + 1)
    }

    /// The bounding rectangle fits in `i32` coordinates.
    pub open spec fn bounds_fit(self) -> bool {
        let (x1, y1, x2, y2) = self.bounds_spec();
        &&& radius_ok(self.radius)
        &&& i32::MIN <= x1 && i32::MIN <= y1
        &&& x2 <= i32::MAX && y2 <= i32::MAX
    }

    /// Create a new capsule from a center line and radius.
    pub fn new(start: Point, end: Point, radius: i32) -> (c: Capsule)
        ensures
            c.start == start,
            c.end == end,
            c.radius == radius,
    {
        Capsule { start, end, radius }
    }

    /// Returns true if a point is inside the capsule.
    pub fn point_in_capsule(&self, point: Point) -> (inside: bool)
        requires
            radius_ok(self.radius),
        ensures
            inside == self.contains_spec(point),
    {
        let r: i128 = if self.radius < 0 { -(self.radius as i128) } else { self.radius as i128 };
        assert(0 <= r <= 46340);
        assert(r * r <= 46340 * 46340) by (nonlinear_arith)
            requires 0 <= r <= 46340;
        let r2: i128 = r * r;
        let dx: i128 = self.end.x as i128 - self.start.x as i128;
        let dy: i128 = self.end.y as i128 - self.start.y as i128;
        let ox: i128 = point.x as i128 - self.start.x as i128;
        let oy: i128 = point.y as i128 - self.start.y as i128;
        let ex: i128 = point.x as i128 - self.end.x as i128;
        let ey: i128 = point.y as i128 - self.end.y as i128;
        proof {
            lemma_small_products(dx, dy, ox, oy);
            lemma_small_products(ex, ey, ox, oy);
        }
        let len2: i128 = dx * dx + dy * dy;
        let t: i128 = ox * dx + oy * dy;
        if len2 == 0 || t <= 0 {
            ox * ox + oy * oy <= r2
        } else if t >= len2 {
            ex * ex + ey * ey <= r2
        } else {
            let cross: i128 = ox * dy - oy * dx;
            let limit: i128 = 0x1_0000_0000_0000;
            assert(r2 * len2 < 0x1_0000_0000_0000_0000_0000_0000) by (nonlinear_arith)
                requires
                    0 <= r2 <= 46340 * 46340,
                    0 <= len2 <= 2 * 0x1_0000_0000_0000_0000,
                    limit == 0x1_0000_0000_0000;
            if cross >= limit || cross <= -limit {
                assert(cross * cross >= 0x1_0000_0000_0000_0000_0000_0000) by (nonlinear_arith)
                    requires cross >= limit || cross <= -limit, limit == 0x1_0000_0000_0000;
                false
            } else {
                assert(0 <= cross * cross < 0x1_0000_0000_0000_0000_0000_0000) by (nonlinear_arith)
                    requires -limit < cross < limit, limit == 0x1_0000_0000_0000;
                cross * cross <= r2 * len2
            }
        }
    }

    /// Returns the smallest axis-aligned rectangle that contains the capsule.
    pub fn bounding_rect(&self) -> (rect: Rect)
        requires
            self.bounds_fit(),
        ensures
            rect.x1 == self.bounds_spec().0,
            rect.y1 == self.bounds_spec().1,
            rect.x2 == self.bounds_spec().2,
            rect.y2 == self.bounds_spec().3,
    {
        let radius = if self.radius < 0 { -self.radius } else { self.radius };
        let minx = if self.start.x <= self.end.x { self.start.x } else { self.end.x };
        let miny = if self.start.y <= self.end.y { self.start.y } else { self.end.y };
        let maxx = if self.start.x >= self.end.x { self.start.x } else { self.end.x };
        let maxy = if self.start.y >= self.end.y { self.start.y } else { self.end.y };
        Rect::with_exact(minx - radius, miny - radius, maxx + radius + 1, maxy + radius + 1)
    }

    /// Whether `p` lies in the bounding rectangle.
    pub open spec fn in_bounds(self, p: Point) -> bool {
        let (x1, y1, x2, y2) = self.bounds_spec();
        x1 <= p.x < x2 && y1 <= p.y < y2
    }

    /// Lists every point of the capsule, walking its bounding rectangle row
    /// by row from the top-left corner.
    pub fn cells(&self) -> (pts: Vec<Point>)
        requires
            self.bounds_fit(),
        ensures
            forall|i: int, j: int| 0 <= i < j < pts@.len() ==> row_major_lt(pts@[i], pts@[j]),
            forall|p: Point| pts@.contains(p) <==> self.contains_spec(p),
    {
        let rect = self.bounding_rect();
        let mut pts: Vec<Point> = Vec::new();
        let mut y: i32 = rect.y1;
        while y < rect.y2
            invariant
                self.bounds_fit(),
                rect.x1 == self.bounds_spec().0,
                rect.y1 == self.bounds_spec().1,
                rect.x2 == self.bounds_spec().2,
                rect.y2 == self.bounds_spec().3,
                rect.x1 < rect.x2,
                rect.y1 <= y <= rect.y2,
                forall|i: int, j: int| 0 <= i < j < pts@.len() ==> row_major_lt(pts@[i], pts@[j]),
                forall|i: int| 0 <= i < pts@.len() ==> pts@[i].y < y,
                forall|p: Point|
                    pts@.contains(p) <==> (self.in_bounds(p) && p.y < y && self.contains_spec(p)),
            decreases rect.y2 - y,
        {
            let mut x: i32 = rect.x1;
            while x < rect.x2
                invariant
                    self.bounds_fit(),
                    rect.x1 == self.bounds_spec().0,
                    rect.y1 == self.bounds_spec().1,
                    rect.x2 == self.bounds_spec().2,
                    rect.y2 == self.bounds_spec().3,
                    rect.y1 <= y < rect.y2,
                    rect.x1 <= x <= rect.x2,
                    forall|i: int, j: int|
                        0 <= i < j < pts@.len() ==> row_major_lt(pts@[i], pts@[j]),
                    forall|i: int|
                        0 <= i < pts@.len() ==> row_major_lt(pts@[i], Point { x, y }),
                    forall|p: Point|
                        pts@.contains(p) <==> (self.in_bounds(p) && row_major_lt(p, Point { x, y })
                            && self.contains_spec(p)),
                decreases rect.x2 - x,
            {
                let p = Point::new(x, y);
                let inside = self.point_in_capsule(p);
                let ghost old_pts = pts@;
                if inside {
                    pts.push(p);
                }
                proof {
                    assert forall|q: Point|
                        pts@.contains(q) <==> (self.in_bounds(q) && row_major_lt(
                            q,
                            Point { x: (x + 1) as i32, y },
                        ) && self.contains_spec(q)) by {
                        if pts@.contains(q) && q != p {
                            let k = choose|k: int| 0 <= k < pts@.len() && pts@[k] == q;
                            assert(old_pts[k] == q);
                        }
                        if q != p && self.in_bounds(q) && row_major_lt(q, Point { x: (x + 1) as i32, y })
                            && self.contains_spec(q) {
                            assert(old_pts.contains(q));
                            let k = choose|k: int| 0 <= k < old_pts.len() && old_pts[k] == q;
                            assert(pts@[k] == q);
                        }
                        if q == p && inside {
                            assert(pts@[pts@.len() - 1] == q);
                        }
                    }
                }
                x = x + 1;
            }
            proof {
                assert forall|q: Point|
                    pts@.contains(q) <==> (self.in_bounds(q) && q.y < y + 1 && self.contains_spec(q))
                by {
                    if self.in_bounds(q) && q.y < y + 1 && self.contains_spec(q) {
                        assert(row_major_lt(q, Point { x, y }));
                    }
                }
            }
            y = y + 1;
        }
        proof {
            assert forall|q: Point| pts@.contains(q) <==> self.contains_spec(q) by {
                if self.contains_spec(q) {
                    lemma_capsule_within_bounds(*self, q);
                }
            }
        }
        pts
    }

    /// Calls a function for each point in the capsule, in the order of
    /// [`Capsule::cells`].
    pub fn for_each<F: Fn(Point)>(&self, f: F)
        requires
            self.bounds_fit(),
            forall|p: Point| self.contains_spec(p) ==> call_requires(f, (p,)),
    {
        let pts = self.cells();
        let mut i: usize = 0;
        while i < pts.len()
            invariant
                forall|p: Point| self.contains_spec(p) ==> call_requires(f, (p,)),
                forall|p: Point| pts@.contains(p) <==> self.contains_spec(p),
                i <= pts.len(),
            decreases pts.len() - i,
        {
            let p = pts[i];
            assert(pts@.contains(p));
            assert(self.contains_spec(p));
            assert(call_requires(f, (p,)));
            f(p);
            i = i + 1;
        }
    }

    /// Gets the set of all tiles in the capsule, each listed once.
    pub fn point_set(&self) -> (set: Vec<Point>)
        requires
            self.bounds_fit(),
        ensures
            set@.no_duplicates(),
            forall|p: Point| set@.contains(p) <==> self.contains_spec(p),
    {
        let pts = self.cells();
        proof {
            assert forall|i: int, j: int| 0 <= i < pts@.len() && 0 <= j < pts@.len() && i != j
                implies pts@[i] != pts@[j] by {
                if i < j {
                    assert(row_major_lt(pts@[i], pts@[j]));
                } else {
                    assert(row_major_lt(pts@[j], pts@[i]));
                }
            }
        }
        pts
    }
}

/// A value whose square is at most `r * r` lies within `r` of zero.
proof fn lemma_square_bound(a: int, r: int)
    requires
        r >= 0,
        a * a <= r * r,
    ensures
        -r <= a <= r,
{
    if a > r {
        assert(a * a > r * r) by (nonlinear_arith)
            requires a > r, r >= 0;
    }
    if a < -r {
        assert(a * a > r * r) by (nonlinear_arith)
            requires a < -r, r >= 0;
    }
}

/// One coordinate of a point lies within `r` of the coordinate range of the
/// segment when the perpendicular distance to the segment interior is at most
/// `r`. `o` is the offset of the point from the start and `d` the segment.
proof fn lemma_interior_axis(o: int, oo: int, d: int, dd: int, r: int)
    requires
        r >= 0,
        dd * dd + d * d > 0,
        0 < o * d + oo * dd < dd * dd + d * d,
        (o * dd - oo * d) * (o * dd - oo * d) <= r * r * (dd * dd + d * d),
    ensures
        (if d >= 0 { 0 } else { d }) - r <= o <= (if d >= 0 { d } else { 0 }) + r,
{
    let len2 = dd * dd + d * d;
    let t = o * d + oo * dd;
    let cross = o * dd - oo * d;
    // The offset from the projected point, scaled by len2, is dd * cross.
    assert(o * len2 - t * d == dd * cross) by (nonlinear_arith)
        requires len2 == dd * dd + d * d, t == o * d + oo * dd, cross == o * dd - oo * d;
    assert((dd * cross) * (dd * cross) <= (r * len2) * (r * len2)) by (nonlinear_arith)
        requires
            cross * cross <= r * r * len2,
            len2 == dd * dd + d * d,
            r >= 0;
    assert(r * len2 >= 0) by (nonlinear_arith) requires r >= 0, len2 > 0;
    lemma_square_bound(dd * cross, r * len2);
    assert(-(r * len2) <= o * len2 - t * d <= r * len2);
    if d >= 0 {
        assert(0 <= t * d <= len2 * d) by (nonlinear_arith) requires 0 < t < len2, d >= 0;
        assert(o * len2 <= (d + r) * len2) by (nonlinear_arith)
            requires o * len2 - t * d <= r * len2, t * d <= len2 * d;
        assert(o * len2 >= (0 - r) * len2) by (nonlinear_arith)
            requires -(r * len2) <= o * len2 - t * d, t * d >= 0;
        assert(o <= d + r) by (nonlinear_arith) requires o * len2 <= (d + r) * len2, len2 > 0;
        assert(o >= -r) by (nonlinear_arith) requires o * len2 >= (0 - r) * len2, len2 > 0;
    } else {
        assert(len2 * d <= t * d <= 0) by (nonlinear_arith) requires 0 < t < len2, d < 0;
        assert(o * len2 <= r * len2) by (nonlinear_arith)
            requires o * len2 - t * d <= r * len2, t * d <= 0;
        assert(o * len2 >= (d - r) * len2) by (nonlinear_arith)
            requires -(r * len2) <= o * len2 - t * d, t * d >= len2 * d;
        assert(o <= r) by (nonlinear_arith) requires o * len2 <= r * len2, len2 > 0;
        assert(o >= d - r) by (nonlinear_arith) requires o * len2 >= (d - r) * len2, len2 > 0;
    }
}

/// Every point inside a capsule lies inside its bounding rectangle.
pub proof fn lemma_capsule_within_bounds(c: Capsule, p: Point)
    requires
        c.contains_spec(p),
    ensures
        c.bounds_spec().0 <= p.x < c.bounds_spec().2,
        c.bounds_spec().1 <= p.y < c.bounds_spec().3,
{
    let r = c.abs_radius();
    let a = c.start;
    let b = c.end;
    let dx = b.x - a.x;
    let dy = b.y - a.y;
    let ox = p.x - a.x;
    let oy = p.y - a.y;
    let len2 = dx * dx + dy * dy;
    let t = ox * dx + oy * dy;
    assert(dx * dx >= 0 && dy * dy >= 0) by (nonlinear_arith);
    if len2 == 0 || t <= 0 {
        assert(ox * ox <= r * r && oy * oy <= r * r) by (nonlinear_arith)
            requires ox * ox + oy * oy <= r * r;
        lemma_square_bound(ox, r);
        lemma_square_bound(oy, r);
    } else if t >= len2 {
        let ex = p.x - b.x;
        let ey = p.y - b.y;
        assert(ex * ex <= r * r && ey * ey <= r * r) by (nonlinear_arith)
            requires ex * ex + ey * ey <= r * r;
        lemma_square_bound(ex, r);
        lemma_square_bound(ey, r);
    } else {
        assert(r * r * len2 == (r * r) * len2) by (nonlinear_arith);
        lemma_interior_axis(ox, oy, dx, dy, r);
        assert((oy * dx - ox * dy) * (oy * dx - ox * dy) == (ox * dy - oy * dx) * (ox * dy - oy * dx))
            by (nonlinear_arith);
        lemma_interior_axis(oy, ox, dy, dx, r);
    }
}

/// The end of the capsule whose `x` is least (the start on a tie).
pub open spec fn left_end(c: Capsule) -> Point {
    if c.start.x <= c.end.x { c.start } else { c.end }
}

/// The end of the capsule whose `x` is greatest (the start on a tie).
pub open spec fn right_end(c: Capsule) -> Point {
    if c.start.x >= c.end.x { c.start } else { c.end }
}

/// The end of the capsule whose `y` is least (the start on a tie).
pub open spec fn top_end(c: Capsule) -> Point {
    if c.start.y <= c.end.y { c.start } else { c.end }
}

/// The end of the capsule whose `y` is greatest (the start on a tie).
pub open spec fn bottom_end(c: Capsule) -> Point {
    if c.start.y >= c.end.y { c.start } else { c.end }
}

/// The point `r` away from an end along one axis is in the capsule when the
/// step points away from the other end.
proof fn lemma_outer_point(c: Capsule, p: Point, from_start: bool)
    requires
        (if from_start { dist_sq(p, c.start) } else { dist_sq(p, c.end) }) == c.abs_radius() * c.abs_radius(),
        from_start ==> (p.x - c.start.x) * (c.end.x - c.start.x) + (p.y - c.start.y) * (c.end.y - c.start.y) <= 0,
        !from_start ==> (p.x - c.start.x) * (c.end.x - c.start.x) + (p.y - c.start.y) * (c.end.y - c.start.y) >= (
        c.end.x - c.start.x) * (c.end.x - c.start.x) + (c.end.y - c.start.y) * (c.end.y - c.start.y),
    ensures
        c.contains_spec(p),
{
    let dx = c.end.x - c.start.x;
    let dy = c.end.y - c.start.y;
    let len2 = dx * dx + dy * dy;
    assert(dx * dx >= 0 && dy * dy >= 0) by (nonlinear_arith);
    if len2 == 0 {
        assert(dx == 0 && dy == 0) by (nonlinear_arith)
            requires dx * dx + dy * dy == 0;
    }
}

/// The bounding rectangle is the smallest that holds the capsule: each of
/// its four edges has a cell of the capsule on it.
pub proof fn lemma_bounding_rect_tight(c: Capsule)
    requires
        c.bounds_fit(),
    ensures
        c.contains_spec(Point { x: c.bounds_spec().0 as i32, y: left_end(c).y }),
        c.contains_spec(Point { x: (c.bounds_spec().2 - 1) as i32, y: right_end(c).y }),
        c.contains_spec(Point { x: top_end(c).x, y: c.bounds_spec().1 as i32 }),
        c.contains_spec(Point { x: bottom_end(c).x, y: (c.bounds_spec().3 - 1) as i32 }),
{
    let r = c.abs_radius();
    let dx = c.end.x - c.start.x;
    let dy = c.end.y - c.start.y;
    let len2 = dx * dx + dy * dy;
    let pl = Point { x: c.bounds_spec().0 as i32, y: left_end(c).y };
    let pr = Point { x: (c.bounds_spec().2 - 1) as i32, y: right_end(c).y };
    let pt = Point { x: top_end(c).x, y: c.bounds_spec().1 as i32 };
    let pb = Point { x: bottom_end(c).x, y: (c.bounds_spec().3 - 1) as i32 };
    if c.start.x <= c.end.x {
        assert(dist_sq(pl, c.start) == r * r) by (nonlinear_arith)
            requires pl.x - c.start.x == -r, pl.y == c.start.y;
        assert((pl.x - c.start.x) * dx + (pl.y - c.start.y) * dy == -r * dx) by (nonlinear_arith)
            requires pl.x - c.start.x == -r, pl.y == c.start.y;
        assert(-r * dx <= 0) by (nonlinear_arith) requires r >= 0, dx >= 0;
        lemma_outer_point(c, pl, true);
    } else {
        assert(dist_sq(pl, c.end) == r * r) by (nonlinear_arith)
            requires pl.x - c.end.x == -r, pl.y == c.end.y;
        assert((pl.x - c.start.x) * dx + (pl.y - c.start.y) * dy == len2 - r * dx) by (nonlinear_arith)
            requires pl.x - c.start.x == dx - r, pl.y - c.start.y == dy, len2 == dx * dx + dy * dy;
        assert(r * dx <= 0) by (nonlinear_arith) requires r >= 0, dx < 0;
        lemma_outer_point(c, pl, false);
    }
    if c.start.x >= c.end.x {
        assert(dist_sq(pr, c.start) == r * r) by (nonlinear_arith)
            requires pr.x - c.start.x == r, pr.y == c.start.y;
        assert((pr.x - c.start.x) * dx + (pr.y - c.start.y) * dy == r * dx) by (nonlinear_arith)
            requires pr.x - c.start.x == r, pr.y == c.start.y;
        assert(r * dx <= 0) by (nonlinear_arith) requires r >= 0, dx <= 0;
        lemma_outer_point(c, pr, true);
    } else {
        assert(dist_sq(pr, c.end) == r * r) by (nonlinear_arith)
            requires pr.x - c.end.x == r, pr.y == c.end.y;
        assert((pr.x - c.start.x) * dx + (pr.y - c.start.y) * dy == len2 + r * dx) by (nonlinear_arith)
            requires pr.x - c.start.x == dx + r, pr.y - c.start.y == dy, len2 == dx * dx + dy * dy;
        assert(r * dx >= 0) by (nonlinear_arith) requires r >= 0, dx > 0;
        lemma_outer_point(c, pr, false);
    }
    if c.start.y <= c.end.y {
        assert(dist_sq(pt, c.start) == r * r) by (nonlinear_arith)
            requires pt.y - c.start.y == -r, pt.x == c.start.x;
        assert((pt.x - c.start.x) * dx + (pt.y - c.start.y) * dy == -r * dy) by (nonlinear_arith)
            requires pt.y - c.start.y == -r, pt.x == c.start.x;
        assert(-r * dy <= 0) by (nonlinear_arith) requires r >= 0, dy >= 0;
        lemma_outer_point(c, pt, true);
    } else {
        assert(dist_sq(pt, c.end) == r * r) by (nonlinear_arith)
            requires pt.y - c.end.y == -r, pt.x == c.end.x;
        assert((pt.x - c.start.x) * dx + (pt.y - c.start.y) * dy == len2 - r * dy) by (nonlinear_arith)
            requires pt.y - c.start.y == dy - r, pt.x - c.start.x == dx, len2 == dx * dx + dy * dy;
        assert(r * dy <= 0) by (nonlinear_arith) requires r >= 0, dy < 0;
        lemma_outer_point(c, pt, false);
    }
    if c.start.y >= c.end.y {
        assert(dist_sq(pb, c.start) == r * r) by (nonlinear_arith)
            requires pb.y - c.start.y == r, pb.x == c.start.x;
        assert((pb.x - c.start.x) * dx + (pb.y - c.start.y) * dy == r * dy) by (nonlinear_arith)
            requires pb.y - c.start.y == r, pb.x == c.start.x;
        assert(r * dy <= 0) by (nonlinear_arith) requires r >= 0, dy <= 0;
        lemma_outer_point(c, pb, true);
    } else {
        assert(dist_sq(pb, c.end) == r * r) by (nonlinear_arith)
            requires pb.y - c.end.y == r, pb.x == c.end.x;
        assert((pb.x - c.start.x) * dx + (pb.y - c.start.y) * dy == len2 + r * dy) by (nonlinear_arith)
            requires pb.y - c.start.y == dy + r, pb.x - c.start.x == dx, len2 == dx * dx + dy * dy;
        assert(r * dy >= 0) by (nonlinear_arith) requires r >= 0, dy > 0;
        lemma_outer_point(c, pb, false);
    }
}

/// `p` lies on the segment from `a` to `b`: on the line through them and
/// between them (for a segment of one point, `p` is that point).
pub open spec fn on_segment(a: Point, b: Point, p: Point) -> bool {
    let dx = b.x - a.x;
    let dy = b.y - a.y;
    let ox = p.x - a.x;
    let oy = p.y - a.y;
    if dx == 0 && dy == 0 {
        p == a
    } else {
        &&& ox * dy - oy * dx == 0
        &&& 0 <= ox * dx + oy * dy <= dx * dx + dy * dy
    }
}

/// The point with its coordinates exchanged.
pub open spec fn swap_axes(p: Point) -> Point {
    Point { x: p.y, y: p.x }
}

/// `|o|^2 |d|^2 = (o . d)^2 + (o x d)^2`.
proof fn lemma_lagrange(ox: int, oy: int, dx: int, dy: int)
    ensures
        (ox * ox + oy * oy) * (dx * dx + dy * dy) == (ox * dx + oy * dy) * (ox * dx + oy * dy) + (ox * dy - oy
            * dx) * (ox * dy - oy * dx),
{
    let a = ox * dx;
    let b = oy * dy;
    let c = ox * dy;
    let e = oy * dx;
    assert((a + b) * (a + b) == a * a + 2 * (a * b) + b * b) by (nonlinear_arith);
    assert((c - e) * (c - e) == c * c - 2 * (c * e) + e * e) by (nonlinear_arith);
    assert(a * b == c * e) by (nonlinear_arith)
        requires a == ox * dx, b == oy * dy, c == ox * dy, e == oy * dx;
    assert(a * a == (ox * ox) * (dx * dx)) by (nonlinear_arith)
        requires a == ox * dx;
    assert(b * b == (oy * oy) * (dy * dy)) by (nonlinear_arith)
        requires b == oy * dy;
    assert(c * c == (ox * ox) * (dy * dy)) by (nonlinear_arith)
        requires c == ox * dy;
    assert(e * e == (oy * oy) * (dx * dx)) by (nonlinear_arith)
        requires e == oy * dx;
    let p = ox * ox;
    let q = oy * oy;
    let u = dx * dx;
    let v = dy * dy;
    assert((p + q) * (u + v) == p * u + p * v + q * u + q * v) by (nonlinear_arith);
}

/// `|o - d|^2 = |o|^2 - 2 (o . d) + |d|^2`.
proof fn lemma_diff_square(ox: int, oy: int, dx: int, dy: int)
    by (nonlinear_arith)
    ensures
        (ox - dx) * (ox - dx) + (oy - dy) * (oy - dy) == ox * ox + oy * oy - 2 * (ox * dx + oy * dy) + (dx * dx + dy
            * dy),
{
}

/// Every point of the centre segment, from `start` to `end` in any
/// direction, lies inside the capsule.
pub proof fn lemma_segment_points_inside(c: Capsule, p: Point)
    requires
        on_segment(c.start, c.end, p),
    ensures
        c.contains_spec(p),
{
    let dx = c.end.x - c.start.x;
    let dy = c.end.y - c.start.y;
    let ox = p.x - c.start.x;
    let oy = p.y - c.start.y;
    let len2 = dx * dx + dy * dy;
    let t = ox * dx + oy * dy;
    let o2 = ox * ox + oy * oy;
    let r = c.abs_radius();
    assert(r * r >= 0) by (nonlinear_arith);
    assert(len2 >= 0 && o2 >= 0) by (nonlinear_arith)
        requires len2 == dx * dx + dy * dy, o2 == ox * ox + oy * oy;
    lemma_lagrange(ox, oy, dx, dy);
    lemma_diff_square(ox, oy, dx, dy);
    if dx == 0 && dy == 0 {
        assert(dist_sq(p, c.start) == 0);
    } else {
        assert(len2 > 0) by (nonlinear_arith)
            requires !(dx == 0 && dy == 0), len2 == dx * dx + dy * dy;
        if t <= 0 {
            assert(o2 * len2 == 0);
            assert(o2 == 0) by (nonlinear_arith)
                requires o2 * len2 == 0, len2 > 0, o2 >= 0;
        } else if t >= len2 {
            assert(o2 * len2 == len2 * len2);
            assert(o2 == len2) by (nonlinear_arith)
                requires o2 * len2 == len2 * len2, len2 > 0;
            assert(dist_sq(p, c.end) == 0);
        } else {
            assert(0 <= r * r * len2) by (nonlinear_arith)
                requires r * r >= 0, len2 >= 0;
        }
    }
}

/// Every point within the radius of either end lies inside the capsule.
pub proof fn lemma_ends_inside(c: Capsule, p: Point)
    requires
        dist_sq(p, c.start) <= c.abs_radius() * c.abs_radius() || dist_sq(p, c.end) <= c.abs_radius()
            * c.abs_radius(),
    ensures
        c.contains_spec(p),
{
    if dist_sq(p, c.start) <= c.abs_radius() * c.abs_radius() {
        lemma_near_start_inside(c, p);
    } else {
        let flipped = Capsule { start: c.end, end: c.start, radius: c.radius };
        lemma_near_start_inside(flipped, p);
        lemma_ends_swap(c, p);
    }
}

/// Every point within the radius of the start lies inside the capsule.
proof fn lemma_near_start_inside(c: Capsule, p: Point)
    requires
        dist_sq(p, c.start) <= c.abs_radius() * c.abs_radius(),
    ensures
        c.contains_spec(p),
{
    let dx = c.end.x - c.start.x;
    let dy = c.end.y - c.start.y;
    let ox = p.x - c.start.x;
    let oy = p.y - c.start.y;
    let len2 = dx * dx + dy * dy;
    let t = ox * dx + oy * dy;
    let o2 = ox * ox + oy * oy;
    let r2 = c.abs_radius() * c.abs_radius();
    let cross = ox * dy - oy * dx;
    lemma_lagrange(ox, oy, dx, dy);
    lemma_diff_square(ox, oy, dx, dy);
    assert(len2 >= 0) by (nonlinear_arith)
        requires len2 == dx * dx + dy * dy;
    assert(t * t >= 0) by (nonlinear_arith);
    if len2 == 0 || t <= 0 {
    } else if t >= len2 {
        assert(dist_sq(p, c.end) == o2 - 2 * t + len2);
    } else {
        assert(cross * cross <= o2 * len2);
        assert(o2 * len2 <= r2 * len2) by (nonlinear_arith)
            requires o2 <= r2, len2 >= 0;
    }
}

/// Exchanging the two ends gives the same capsule.
pub proof fn lemma_ends_swap(c: Capsule, p: Point)
    ensures
        (Capsule { start: c.end, end: c.start, radius: c.radius }).contains_spec(p) == c.contains_spec(p),
{
    let f = Capsule { start: c.end, end: c.start, radius: c.radius };
    let dx = c.end.x - c.start.x;
    let dy = c.end.y - c.start.y;
    let ox = p.x - c.start.x;
    let oy = p.y - c.start.y;
    let len2 = dx * dx + dy * dy;
    let t = ox * dx + oy * dy;
    let cross = ox * dy - oy * dx;
    let fdx = f.end.x - f.start.x;
    let fdy = f.end.y - f.start.y;
    let fox = p.x - f.start.x;
    let foy = p.y - f.start.y;
    let flen2 = fdx * fdx + fdy * fdy;
    let ft = fox * fdx + foy * fdy;
    let fcross = fox * fdy - foy * fdx;
    assert(fdx == -dx && fdy == -dy && fox == ox - dx && foy == oy - dy);
    assert(flen2 == len2) by (nonlinear_arith)
        requires fdx == -dx, fdy == -dy, flen2 == fdx * fdx + fdy * fdy, len2 == dx * dx + dy * dy;
    assert(ft == len2 - t) by (nonlinear_arith)
        requires
            fdx == -dx,
            fdy == -dy,
            fox == ox - dx,
            foy == oy - dy,
            ft == fox * fdx + foy * fdy,
            len2 == dx * dx + dy * dy,
            t == ox * dx + oy * dy;
    assert(fcross * fcross == cross * cross) by (nonlinear_arith)
        requires
            fdx == -dx,
            fdy == -dy,
            fox == ox - dx,
            foy == oy - dy,
            fcross == fox * fdy - foy * fdx,
            cross == ox * dy - oy * dx;
    let r2 = c.abs_radius() * c.abs_radius();
    assert(f.abs_radius() == c.abs_radius());
    assert(len2 >= 0) by (nonlinear_arith)
        requires len2 == dx * dx + dy * dy;
    if len2 == 0 {
        assert(dx == 0 && dy == 0) by (nonlinear_arith)
            requires len2 == dx * dx + dy * dy, len2 == 0;
        assert(c.start == c.end);
        assert(c.contains_spec(p) == (dist_sq(p, c.start) <= r2));
        assert(f.contains_spec(p) == (dist_sq(p, f.start) <= r2));
    } else if t <= 0 {
        assert(c.contains_spec(p) == (dist_sq(p, c.start) <= r2));
        assert(ft >= flen2);
        assert(f.contains_spec(p) == (dist_sq(p, f.end) <= r2));
    } else if t >= len2 {
        assert(c.contains_spec(p) == (dist_sq(p, c.end) <= r2));
        assert(ft <= 0);
        assert(f.contains_spec(p) == (dist_sq(p, f.start) <= r2));
    } else {
        assert(c.contains_spec(p) == (cross * cross <= r2 * len2));
        assert(0 < ft < flen2);
        assert(f.contains_spec(p) == (fcross * fcross <= r2 * flen2));
    }
}

/// Containment does not depend on which axis is which: exchanging the
/// coordinates of the capsule's ends and of the point gives the same answer.
pub proof fn lemma_axes_swap(c: Capsule, p: Point)
    ensures
        (Capsule { start: swap_axes(c.start), end: swap_axes(c.end), radius: c.radius }).contains_spec(swap_axes(p))
            == c.contains_spec(p),
{
    let dx = c.end.x - c.start.x;
    let dy = c.end.y - c.start.y;
    let ox = p.x - c.start.x;
    let oy = p.y - c.start.y;
    let cross = ox * dy - oy * dx;
    let scross = oy * dx - ox * dy;
    assert(scross * scross == cross * cross) by (nonlinear_arith)
        requires scross == -cross;
    assert(dy * dy + dx * dx == dx * dx + dy * dy);
    assert(oy * dy + ox * dx == ox * dx + oy * dy);
}

/// Bounds on the coordinate differences and their products used by the
/// capsule test.
proof fn lemma_small_products(dx: i128, dy: i128, ox: i128, oy: i128)
    requires
        -0x1_0000_0000 <= dx <= 0x1_0000_0000,
        -0x1_0000_0000 <= dy <= 0x1_0000_0000,
        -0x1_0000_0000 <= ox <= 0x1_0000_0000,
        -0x1_0000_0000 <= oy <= 0x1_0000_0000,
    ensures
        0 <= dx * dx <= 0x1_0000_0000_0000_0000,
        0 <= dy * dy <= 0x1_0000_0000_0000_0000,
        0 <= ox * ox <= 0x1_0000_0000_0000_0000,
        0 <= oy * oy <= 0x1_0000_0000_0000_0000,
        -0x1_0000_0000_0000_0000 <= ox * dx <= 0x1_0000_0000_0000_0000,
        -0x1_0000_0000_0000_0000 <= oy * dy <= 0x1_0000_0000_0000_0000,
        -0x1_0000_0000_0000_0000 <= ox * dy <= 0x1_0000_0000_0000_0000,
        -0x1_0000_0000_0000_0000 <= oy * dx <= 0x1_0000_0000_0000_0000,
{
    assert(0 <= dx * dx <= 0x1_0000_0000_0000_0000) by (nonlinear_arith)
        requires -0x1_0000_0000 <= dx <= 0x1_0000_0000;
    assert(0 <= dy * dy <= 0x1_0000_0000_0000_0000) by (nonlinear_arith)
        requires -0x1_0000_0000 <= dy <= 0x1_0000_0000;
    assert(0 <= ox * ox <= 0x1_0000_0000_0000_0000) by (nonlinear_arith)
        requires -0x1_0000_0000 <= ox <= 0x1_0000_0000;
    assert(0 <= oy * oy <= 0x1_0000_0000_0000_0000) by (nonlinear_arith)
        requires -0x1_0000_0000 <= oy <= 0x1_0000_0000;
    assert(-0x1_0000_0000_0000_0000 <= ox * dx <= 0x1_0000_0000_0000_0000) by (nonlinear_arith)
        requires -0x1_0000_0000 <= dx <= 0x1_0000_0000, -0x1_0000_0000 <= ox <= 0x1_0000_0000;
    assert(-0x1_0000_0000_0000_0000 <= oy * dy <= 0x1_0000_0000_0000_0000) by (nonlinear_arith)
        requires -0x1_0000_0000 <= dy <= 0x1_0000_0000, -0x1_0000_0000 <= oy <= 0x1_0000_0000;
    assert(-0x1_0000_0000_0000_0000 <= ox * dy <= 0x1_0000_0000_0000_0000) by (nonlinear_arith)
        requires -0x1_0000_0000 <= dy <= 0x1_0000_0000, -0x1_0000_0000 <= ox <= 0x1_0000_0000;
    assert(-0x1_0000_0000_0000_0000 <= oy * dx <= 0x1_0000_0000_0000_0000) by (nonlinear_arith)
        requires -0x1_0000_0000 <= dx <= 0x1_0000_0000, -0x1_0000_0000 <= oy <= 0x1_0000_0000;
}

} // verus!
