use num_bigint::BigInt;
use rgeometry::convex::{ConvexPolygon, PointLocation};
use rgeometry::geometry::{Orientation, Point, RationalPoint, Vector};
use rgeometry::polygon::{Error, Polygon};

fn pt(x: i64, y: i64) -> Point {
    Point { x: BigInt::from(x), y: BigInt::from(y) }
}

fn square() -> Polygon {
    Polygon::new(vec![pt(0, 0), pt(4, 0), pt(4, 4), pt(0, 4)]).unwrap()
}

#[test]
fn triangle_signed_area() {
    let p = Polygon::new(vec![pt(0, 0), pt(4, 0), pt(0, 3)]).unwrap();
    let a2 = p.signed_area_2x();
    assert_eq!(a2.num, BigInt::from(12));
    assert_eq!(a2.den, BigInt::from(1));
    let a = p.signed_area();
    assert_eq!(a.num, BigInt::from(12));
    assert_eq!(a.den, BigInt::from(2));
    assert_eq!(&a.num, &(BigInt::from(6) * &a.den));
}

#[test]
fn clockwise_triangle_is_rejected() {
    let r = Polygon::new(vec![pt(0, 0), pt(0, 3), pt(4, 0)]);
    assert!(matches!(r, Err(Error::ClockWiseViolation)));
}

#[test]
fn two_points_are_rejected() {
    let r = Polygon::new(vec![pt(0, 0), pt(1, 0)]);
    assert!(matches!(r, Err(Error::InsufficientVertices)));
}

#[test]
fn empty_input_is_rejected() {
    let r = Polygon::new(vec![]);
    assert!(matches!(r, Err(Error::InsufficientVertices)));
}

#[test]
fn zero_area_ring_is_accepted() {
    let p = Polygon::new(vec![pt(0, 0), pt(1, 0), pt(2, 0)]).unwrap();
    assert_eq!(p.signed_area_2x().num, BigInt::from(0));
    assert!(p.validate().is_ok());
}

#[test]
fn square_centroid() {
    let c = square().centroid();
    assert_eq!(c.x, BigInt::from(2) * &c.den);
    assert_eq!(c.y, BigInt::from(2) * &c.den);
    assert_eq!(c.den, BigInt::from(96));
}

#[test]
fn construct_keeps_structure() {
    let p = square();
    assert_eq!(p.boundary(), 4);
    assert!(p.holes().is_empty());
    assert_eq!(p.denominator(), &BigInt::from(1));
    assert_eq!(p.points().len(), 4);
    assert!(p.validate_weakly().is_ok());
}

#[test]
fn vertex_wraps_both_ways() {
    let p = square();
    assert_eq!(p.vertex(-1).x, BigInt::from(0));
    assert_eq!(p.vertex(-1).y, BigInt::from(4));
    assert_eq!(p.vertex(5).x, BigInt::from(4));
    assert_eq!(p.vertex(5).y, BigInt::from(0));
    assert_eq!(p.vertex(-8).x, BigInt::from(0));
    assert_eq!(p.vertex(2).y, BigInt::from(4));
}

#[test]
fn orientation_at_vertices() {
    let p = square();
    assert_eq!(p.vertex_orientation(0), Orientation::CounterClockWise);
    assert_eq!(p.vertex_orientation(-1), Orientation::CounterClockWise);
    let flat = Polygon::new(vec![pt(0, 0), pt(2, 0), pt(4, 0), pt(4, 4)]).unwrap();
    assert_eq!(flat.vertex_orientation(1), Orientation::CoLinear);
    let dent = Polygon::new(vec![pt(0, 0), pt(4, 0), pt(2, 1), pt(4, 4), pt(0, 4)]).unwrap();
    assert_eq!(dent.vertex_orientation(2), Orientation::ClockWise);
}

#[test]
fn boundary_edges_wrap() {
    let p = square();
    let (a, b) = p.boundary_edge(3);
    assert_eq!(a.y, BigInt::from(4));
    assert_eq!(b.x, BigInt::from(0));
    assert_eq!(b.y, BigInt::from(0));
}

#[test]
fn convex_validation() {
    let c = ConvexPolygon::new(square()).unwrap();
    assert!(c.validate().is_ok());
    let flat = Polygon::new(vec![pt(0, 0), pt(2, 0), pt(4, 0), pt(4, 4)]).unwrap();
    assert!(matches!(ConvexPolygon::new(flat), Err(Error::ConvexViolation)));
    let dent = Polygon::new(vec![pt(0, 0), pt(4, 0), pt(2, 1), pt(4, 4), pt(0, 4)]).unwrap();
    assert!(matches!(ConvexPolygon::new(dent), Err(Error::ConvexViolation)));
    let two = Polygon::from_scaled(vec![pt(0, 0), pt(1, 0)], BigInt::from(1));
    assert!(matches!(ConvexPolygon::new(two), Err(Error::ConvexViolation)));
}

fn rpt(x: i64, y: i64, den: i64) -> RationalPoint {
    RationalPoint { x: BigInt::from(x), y: BigInt::from(y), den: BigInt::from(den) }
}

#[test]
fn locate_in_square() {
    let c = ConvexPolygon::new(square()).unwrap();
    assert_eq!(c.locate(&rpt(2, 2, 1)), PointLocation::Inside);
    assert_eq!(c.locate(&rpt(1, 1, 4)), PointLocation::Inside);
    assert_eq!(c.locate(&rpt(4, 2, 1)), PointLocation::OnBoundary);
    assert_eq!(c.locate(&rpt(0, 0, 1)), PointLocation::OnBoundary);
    assert_eq!(c.locate(&rpt(9, 2, 2)), PointLocation::Outside);
    assert_eq!(c.locate(&rpt(-1, 2, 1)), PointLocation::Outside);
}

#[test]
fn sort_around_orders_by_angle() {
    let v = |x: i64, y: i64| Vector { x: BigInt::from(x), y: BigInt::from(y) };
    let sorted = rgeometry::convex::sort_around(vec![v(0, -1), v(-1, 0), v(1, 0), v(0, 1), v(1, 1)]);
    let got: Vec<(BigInt, BigInt)> = sorted.into_iter().map(|w| (w.x, w.y)).collect();
    let want: Vec<(BigInt, BigInt)> = [(1, 0), (1, 1), (0, 1), (-1, 0), (0, -1)]
        .iter()
        .map(|&(x, y)| (BigInt::from(x), BigInt::from(y)))
        .collect();
    assert_eq!(got, want);
}

#[test]
fn prefix_points_are_running_sums() {
    let v = |x: i64, y: i64| Vector { x: BigInt::from(x), y: BigInt::from(y) };
    let pts = rgeometry::convex::prefix_points(&vec![v(1, 0), v(0, 1), v(-1, -1)]);
    assert_eq!((pts[1].x.clone(), pts[1].y.clone()), (BigInt::from(1), BigInt::from(1)));
    assert_eq!((pts[2].x.clone(), pts[2].y.clone()), (BigInt::from(0), BigInt::from(0)));
}

#[test]
fn edge_vectors_make_a_centred_triangle() {
    let v = |x: i64, y: i64| Vector { x: BigInt::from(x), y: BigInt::from(y) };
    let c = ConvexPolygon::from_edge_vectors(vec![v(0, 3), v(4, 0), v(-4, -3)], 2);
    assert!(c.validate().is_ok());
    let p = c.polygon();
    // Vertices (4,0), (4,3), (0,0) with area 12 and centroid (8/3, 1).
    assert_eq!(p.denominator(), &BigInt::from(72));
    let sum_x: BigInt = p.points().iter().map(|q| q.x.clone()).sum();
    let sum_y: BigInt = p.points().iter().map(|q| q.y.clone()).sum();
    assert_eq!(sum_x, BigInt::from(0));
    assert_eq!(sum_y, BigInt::from(0));
    assert_eq!(p.points()[0].x, BigInt::from(4 * 36 - 96));
}

#[test]
fn map_points_keeps_structure() {
    let p = square().map_points(|q| Point { x: q.x + BigInt::from(1), y: q.y });
    assert_eq!(p.points()[0].x, BigInt::from(1));
    assert_eq!(p.points()[2].x, BigInt::from(5));
    assert_eq!(p.boundary(), 4);
    assert!(p.holes().is_empty());
    let flipped = square().map_points(|q| Point { x: -q.x, y: q.y });
    assert!(matches!(flipped.validate(), Err(Error::ClockWiseViolation)));
}

#[test]
fn scaled_coordinates_keep_orientation() {
    let p = Polygon::from_scaled(vec![pt(0, 0), pt(8, 0), pt(0, 6)], BigInt::from(2));
    assert!(p.validate().is_ok());
    let a = p.signed_area_2x();
    assert_eq!(a.num, BigInt::from(48));
    assert_eq!(a.den, BigInt::from(4));
    let c = ConvexPolygon::new(p).unwrap();
    assert_eq!(c.locate(&rpt(1, 1, 1)), PointLocation::Inside);
    assert_eq!(c.locate(&rpt(4, 0, 1)), PointLocation::OnBoundary);
    assert_eq!(c.locate(&rpt(5, 0, 1)), PointLocation::Outside);
}
