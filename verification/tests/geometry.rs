use bracket::geometry::capsule::Capsule;
use bracket::geometry::curve::Curve;
use bracket::geometry::point::Point;
use bracket::geometry::rect::Rect;
use std::cell::RefCell;
use std::collections::HashSet;

#[test]
fn capsule_test_new() {
    let capsule = Capsule::new(Point::new(0, 0), Point::new(10, 0), 2);
    assert_eq!(capsule.start, Point::new(0, 0));
    assert_eq!(capsule.end, Point::new(10, 0));
    assert_eq!(capsule.radius, 2);
}

#[test]
fn test_point_on_center_line_is_inside() {
    let capsule = Capsule::new(Point::new(0, 0), Point::new(10, 0), 2);
    assert!(capsule.point_in_capsule(Point::new(5, 0)));
}

#[test]
fn test_point_within_radius_is_inside() {
    let capsule = Capsule::new(Point::new(0, 0), Point::new(10, 0), 2);
    assert!(capsule.point_in_capsule(Point::new(5, 2)));
}

#[test]
fn test_point_outside_radius_is_outside() {
    let capsule = Capsule::new(Point::new(0, 0), Point::new(10, 0), 2);
    assert!(!capsule.point_in_capsule(Point::new(5, 3)));
}

#[test]
fn test_point_near_rounded_end_is_inside() {
    let capsule = Capsule::new(Point::new(0, 0), Point::new(10, 0), 2);
    assert!(capsule.point_in_capsule(Point::new(-1, 1)));
}

#[test]
fn test_point_past_rounded_end_is_outside() {
    let capsule = Capsule::new(Point::new(0, 0), Point::new(10, 0), 2);
    assert!(!capsule.point_in_capsule(Point::new(-3, 0)));
}

#[test]
fn test_zero_length_capsule_behaves_like_circle() {
    let capsule = Capsule::new(Point::new(0, 0), Point::new(0, 0), 2);
    assert!(capsule.point_in_capsule(Point::new(1, 1)));
    assert!(!capsule.point_in_capsule(Point::new(3, 0)));
}

#[test]
fn test_diagonal_capsule() {
    let capsule = Capsule::new(Point::new(0, 0), Point::new(10, 10), 2);
    assert!(capsule.point_in_capsule(Point::new(5, 5)));
    assert!(capsule.point_in_capsule(Point::new(5, 6)));
    assert!(!capsule.point_in_capsule(Point::new(5, 9)));
}

#[test]
fn test_bounding_rect() {
    let capsule = Capsule::new(Point::new(0, 0), Point::new(10, 0), 2);
    assert_eq!(capsule.bounding_rect(), Rect::with_exact(-2, -2, 13, 3));
}

#[test]
fn test_capsule_set() {
    let capsule = Capsule::new(Point::new(0, 0), Point::new(1, 0), 1);
    let points = capsule.point_set();
    assert!(points.contains(&Point::new(0, 0)));
    assert!(points.contains(&Point::new(1, 0)));
    assert!(points.contains(&Point::new(0, 1)));
    assert!(points.contains(&Point::new(1, -1)));
    assert!(!points.contains(&Point::new(0, 2)));
}

#[test]
fn test_capsule_callback() {
    let capsule = Capsule::new(Point::new(0, 0), Point::new(1, 0), 1);
    let points: RefCell<HashSet<Point>> = RefCell::new(HashSet::new());
    capsule.for_each(|point| {
        points.borrow_mut().insert(point);
    });
    let points = points.into_inner();
    assert!(points.contains(&Point::new(0, 0)));
    assert!(points.contains(&Point::new(1, 0)));
    assert!(!points.contains(&Point::new(0, 2)));
}

#[test]
fn capsule_negative_radius_acts_as_its_absolute_value() {
    let capsule = Capsule::new(Point::new(0, 0), Point::new(10, 0), -2);
    assert!(capsule.point_in_capsule(Point::new(5, 2)));
    assert!(!capsule.point_in_capsule(Point::new(5, 3)));
    assert_eq!(capsule.bounding_rect(), Rect::with_exact(-2, -2, 13, 3));
}

#[test]
fn capsule_cells_come_row_by_row_without_repeats() {
    let capsule = Capsule::new(Point::new(0, 0), Point::new(1, 0), 1);
    let cells = capsule.cells();
    assert_eq!(
        cells,
        vec![
            Point::new(0, -1),
            Point::new(1, -1),
            Point::new(-1, 0),
            Point::new(0, 0),
            Point::new(1, 0),
            Point::new(2, 0),
            Point::new(0, 1),
            Point::new(1, 1),
        ]
    );
    let set: HashSet<Point> = capsule.point_set().into_iter().collect();
    assert_eq!(set.len(), cells.len());
}

#[test]
fn capsule_cells_lie_in_bounding_rect() {
    let capsule = Capsule::new(Point::new(-3, 4), Point::new(5, -2), 3);
    let rect = capsule.bounding_rect();
    for p in capsule.cells() {
        assert!(rect.point_in_rect(p));
        assert!(capsule.point_in_capsule(p));
    }
}

#[test]
fn capsule_for_each_visits_every_cell_once() {
    let capsule = Capsule::new(Point::new(2, 2), Point::new(6, 5), 2);
    let seen: RefCell<Vec<Point>> = RefCell::new(Vec::new());
    capsule.for_each(|p| seen.borrow_mut().push(p));
    assert_eq!(seen.into_inner(), capsule.cells());
}

#[test]
fn new_curve_stores_control_points() {
    let points = vec![Point::new(0, 0), Point::new(4, 8), Point::new(9, 2)];
    let curve = Curve::new(points.clone());

    assert_eq!(curve.control_points(), points.as_slice());
    assert_eq!(curve.len(), 3);
}

#[test]
fn empty_curve_has_no_endpoints() {
    let curve = Curve::default();

    assert!(curve.is_empty());
    assert_eq!(curve.first(), None);
    assert_eq!(curve.last(), None);
}

#[test]
fn curve_exposes_endpoints() {
    let curve = Curve::new(vec![Point::new(1, 2), Point::new(3, 4), Point::new(5, 6)]);

    assert_eq!(curve.first(), Some(Point::new(1, 2)));
    assert_eq!(curve.last(), Some(Point::new(5, 6)));
}

#[test]
fn curve_can_be_created_from_points() {
    let points = [Point::new(2, 3), Point::new(4, 5)];
    let curve = Curve::from(points.as_slice());

    assert_eq!(curve.control_points(), &points);
}

#[test]
fn curve_from_vec_keeps_order() {
    let curve = Curve::from(vec![Point::new(7, 7), Point::new(1, 1)]);
    assert_eq!(curve.len(), 2);
    assert!(!curve.is_empty());
    assert_eq!(curve.first(), Some(Point::new(7, 7)));
    assert_eq!(curve.last(), Some(Point::new(1, 1)));
}

#[test]
fn rect_with_size_and_membership() {
    let r = Rect::with_size(1, 2, 3, 4);
    assert_eq!(r, Rect::with_exact(1, 2, 4, 6));
    assert!(r.point_in_rect(Point::new(1, 2)));
    assert!(r.point_in_rect(Point::new(3, 5)));
    assert!(!r.point_in_rect(Point::new(4, 5)));
    assert!(!r.point_in_rect(Point::new(3, 6)));
}

#[test]
fn capsule_bounding_rect_edges_touch_the_capsule() {
    let capsule = Capsule::new(Point::new(10, 3), Point::new(0, 0), 2);
    let r = capsule.bounding_rect();
    assert_eq!(r, Rect::with_exact(-2, -2, 13, 6));
    assert!(capsule.point_in_capsule(Point::new(r.x1, 0)));
    assert!(capsule.point_in_capsule(Point::new(r.x2 - 1, 3)));
    assert!(capsule.point_in_capsule(Point::new(0, r.y1)));
    assert!(capsule.point_in_capsule(Point::new(10, r.y2 - 1)));
    assert!(!capsule.point_in_capsule(Point::new(r.x1 - 1, 0)));
}
