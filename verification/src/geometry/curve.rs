use vstd::prelude::*;
use crate::geometry::point::Point;

verus! {

/// A two-dimensional curve, given by its control points.
///
/// The type stores the shared curve data; it does not assume a specific
/// interpolation or evaluation strategy.
#[derive(Clone, Debug, PartialEq, Eq)]
pub struct Curve {
    /// The points controlling the curve shape.
    pub control_points: Vec<Point>,
}

impl Curve {
    /// Creates a new curve from a set of control points.
    pub fn new(control_points: Vec<Point>) -> (c: Curve)
        ensures
            c.control_points == control_points,
    {
        Curve { control_points }
    }

    /// Returns the control points as a slice.
    pub fn control_points(&self) -> (pts: &[Point])
        ensures
            pts@ == self.control_points@,
    {
        self.control_points.as_slice()
    }

    /// Returns the number of control points in the curve.
    pub fn len(&self) -> (n: usize)
        ensures
            n == self.control_points@.len(),
    {
        self.control_points.len()
    }

    /// Returns true if the curve has no control points.
    pub fn is_empty(&self) -> (b: bool)
        ensures
            b <==> self.control_points@.len() == 0,
    {
        self.control_points.len() == 0
    }

    /// Returns the first control point, if one is defined.
    pub fn first(&self) -> (p: Option<Point>)
        ensures
            p == (if self.control_points@.len() == 0 {
                None
            } else {
                Some(self.control_points@[0])
            }),
    {
        if self.control_points.len() == 0 {
            None
        } else {
            Some(self.control_points[0])
        }
    }

    /// Returns the last control point, if one is defined.
    pub fn last(&self) -> (p: Option<Point>)
        ensures
            p == (if self.control_points@.len() == 0 {
                None
            } else {
                Some(self.control_points@.last())
            }),
    {
        let n = self.control_points.len();
        if n == 0 {
            None
        } else {
            Some(self.control_points[n - 1])
        }
    }
}

impl Default for Curve {
    fn default() -> (c: Curve)
        ensures
            c.control_points@ == Seq::<Point>::empty(),
    {
        Curve { control_points: Vec::new() }
    }
}

impl From<Vec<Point>> for Curve {
    fn from(control_points: Vec<Point>) -> (c: Curve) {
        Curve::new(control_points)
    }
}

impl vstd::std_specs::convert::FromSpecImpl<Vec<Point>> for Curve {
    open spec fn obeys_from_spec() -> bool {
        true
    }

    open spec fn from_spec(v: Vec<Point>) -> Curve {
        Curve { control_points: v }
    }
}

impl<'a> From<&'a [Point]> for Curve {
    fn from(control_points: &'a [Point]) -> (c: Curve)
        ensures
            c.control_points@ == control_points@,
    {
        Curve::new(vstd::slice::slice_to_vec(control_points))
    }
}

/// A slice gives a fresh vector with the same elements; which vector value
/// that is cannot be named, so conversion from a slice is specified by its
/// control points (see the `ensures` of `from`) rather than by `from_spec`.
impl<'a> vstd::std_specs::convert::FromSpecImpl<&'a [Point]> for Curve {
    open spec fn obeys_from_spec() -> bool {
        false
    }

    open spec fn from_spec(v: &'a [Point]) -> Curve {
        choose|c: Curve| c.control_points@ == v@
    }
}

} // verus!
