//! Exact polygon kernel: validated counter-clockwise polygons with integer
//! homogeneous coordinates, their area, centroid and turn predicates, and a
//! generator of random convex polygons.
pub mod scalar;
pub mod geometry;
pub mod polygon;
pub mod partition;
pub mod convex;

pub use convex::{ConvexPolygon, PointLocation};
pub use geometry::{Orientation, Point, Rational, RationalPoint, Vector};
pub use partition::{random_between, random_between_zero, random_vectors};
pub use polygon::{Error, Polygon};
