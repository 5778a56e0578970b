//! Polygons whose outer ring is wound counter-clockwise.
use crate::geometry::{cross, cross_value, orientation_of, turn, Orientation, Point, Rational, RationalPoint};
use crate::scalar::{big_add, big_from_usize, big_mul, big_sign, big_value};
use num_bigint::BigInt;
use vstd::arithmetic::div_mod::lemma_fundamental_div_mod_converse;
use vstd::prelude::*;

verus! {

/// Why a sequence of vertices is not an acceptable polygon.
#[derive(Debug, Clone, Copy, PartialEq, Eq, Structural)]
pub enum Error {
    InsufficientVertices,
    SelfIntersections,
    /// Two consecutive line segments are either colinear or oriented clockwise.
    ConvexViolation,
    ClockWiseViolation,
}

/// The index that follows `i` on a ring of `len` vertices.
pub open spec fn next_index(len: int, i: int) -> int {
    if i + 1 < len {
        i + 1
    } else {
        0
    }
}

/// The sum of `cross(p, q)` over the first `k` edges `(p, q)` of the ring.
pub open spec fn shoelace_upto(pts: Seq<(int, int)>, k: int) -> int
    decreases k,
{
    if k <= 0 {
        0
    } else {
        shoelace_upto(pts, k - 1) + cross(pts[k - 1], pts[next_index(pts.len() as int, k - 1)])
    }
}

/// Twice the signed area of the ring (shoelace formula).
pub open spec fn shoelace(pts: Seq<(int, int)>) -> int {
    shoelace_upto(pts, pts.len() as int)
}

/// The sum of `(p + q) * cross(p, q)` over the first `k` edges of the ring.
pub open spec fn moment_upto(pts: Seq<(int, int)>, k: int) -> (int, int)
    decreases k,
{
    if k <= 0 {
        (0, 0)
    } else {
        let p = pts[k - 1];
        let q = pts[next_index(pts.len() as int, k - 1)];
        let m = moment_upto(pts, k - 1);
        (m.0 + (p.0 + q.0) * cross(p, q), m.1 + (p.1 + q.1) * cross(p, q))
    }
}

/// Six times the signed area times the centroid of the ring.
pub open spec fn moment(pts: Seq<(int, int)>) -> (int, int) {
    moment_upto(pts, pts.len() as int)
}

/// What validation reports of a ring: too few vertices, a clockwise winding,
/// or nothing.
pub open spec fn outline_check(pts: Seq<(int, int)>) -> Result<(), Error> {
    if pts.len() < 3 {
        Err(Error::InsufficientVertices)
    } else if shoelace(pts) < 0 {
        Err(Error::ClockWiseViolation)
    } else {
        Ok(())
    }
}

/// Twice the signed area of the triangle at vertex `i` of the ring and its
/// two neighbours, with indices taken cyclically.
pub open spec fn vertex_turn(pts: Seq<(int, int)>, i: int) -> int {
    let n = pts.len() as int;
    turn(pts[(i - 1) % n], pts[i % n], pts[(i + 1) % n])
}

/// A polygon: an outer ring of vertices followed by any hole rings. All
/// coordinates are integers over one positive common denominator, so the
/// vertex `k` stands at `(x_k / den, y_k / den)`.
pub struct Polygon {
    points: Vec<Point>,
    denom: BigInt,
    boundary: usize,
    holes: Vec<usize>,
}

impl View for Polygon {
    type V = Seq<(int, int)>;

    /// The integer numerators of the vertices, in order.
    closed spec fn view(&self) -> Seq<(int, int)> {
        self.points@.map_values(|p: Point| p@)
    }
}

impl Polygon {
    /// The common denominator of the coordinates.
    pub closed spec fn den(&self) -> int {
        big_value(self.denom)
    }

    /// The end of the outer ring.
    pub closed spec fn boundary_spec(&self) -> usize {
        self.boundary
    }

    /// The start of each hole ring.
    pub closed spec fn holes_spec(&self) -> Seq<usize> {
        self.holes@
    }

    /// The structural invariant: a positive denominator, and ring indices
    /// within the vertex sequence.
    pub closed spec fn wf(&self) -> bool {
        &&& big_value(self.denom) > 0
        &&& self.boundary <= self.points.len()
        &&& forall|k: int| 0 <= k < self.holes@.len() ==> self.holes@[k] < self.points.len()
    }

    /// A polygon of the given vertices and common denominator, without checks.
    pub(crate) fn from_outline(points: Vec<Point>, denom: BigInt) -> (r: Polygon)
        requires
            big_value(denom) > 0,
        ensures
            r.wf(),
            r@ == points@.map_values(|p: Point| p@),
            r.den() == big_value(denom),
            r.boundary_spec() == points.len(),
            r.holes_spec() == Seq::<usize>::empty(),
    {
        let len = points.len();
        Polygon { points, denom, boundary: len, holes: Vec::new() }
    }

    /// The vertices themselves, in order.
    pub closed spec fn vertices(&self) -> Seq<Point> {
        self.points@
    }

    /// A polygon of the given vertex numerators over a positive common
    /// denominator, with no hole. It is not validated: call `validate`.
    pub fn from_scaled(points: Vec<Point>, denom: BigInt) -> (r: Polygon)
        requires
            big_value(denom) > 0,
        ensures
            r.wf(),
            r@ == points@.map_values(|p: Point| p@),
            r.den() == big_value(denom),
            r.boundary_spec() == points.len(),
            r.holes_spec() == Seq::<usize>::empty(),
    {
        Polygon::from_outline(points, denom)
    }

    /// Replaces every vertex by `f` of it, keeping the denominator, the
    /// boundary and the holes. The result is not validated again.
    pub fn map_points<F: Fn(Point) -> Point>(self, f: F) -> (r: Polygon)
        requires
            forall|k: int| 0 <= k < self.vertices().len() ==> f.requires((#[trigger] self.vertices()[k],)),
        ensures
            r.vertices().len() == self.vertices().len(),
            forall|k: int| 0 <= k < r.vertices().len() ==> f.ensures((self.vertices()[k],), #[trigger] r.vertices()[k]),
            r.den() == self.den(),
            r.boundary_spec() == self.boundary_spec(),
            r.holes_spec() == self.holes_spec(),
            self.wf() ==> r.wf(),
    {
        let ghost orig = self.points@;
        let n = self.points.len();
        let mut pts = self.points;
        let mut rev: Vec<Point> = Vec::new();
        while pts.len() > 0
            invariant
                pts@.len() + rev@.len() == n,
                n == orig.len(),
                forall|k: int| 0 <= k < pts@.len() ==> pts@[k] == orig[k],
                forall|k: int| 0 <= k < rev@.len() ==> #[trigger] rev@[k] == orig[n - 1 - k],
            decreases pts@.len(),
        {
            let p = pts.pop().unwrap();
            rev.push(p);
        }
        assert forall|k: int| 0 <= k < n implies f.requires((#[trigger] orig[k],)) by {
            assert(self.vertices()[k] == orig[k]);
        }
        let mut out: Vec<Point> = Vec::new();
        while rev.len() > 0
            invariant
                rev@.len() + out@.len() == n,
                n == orig.len(),
                forall|k: int| 0 <= k < rev@.len() ==> #[trigger] rev@[k] == orig[n - 1 - k],
                forall|k: int| 0 <= k < n ==> f.requires((#[trigger] orig[k],)),
                forall|k: int| 0 <= k < out@.len() ==> f.ensures((orig[k],), #[trigger] out@[k]),
            decreases rev@.len(),
        {
            let p = rev.pop().unwrap();
            assert(p == orig[out@.len() as int]);
            let q = f(p);
            out.push(q);
        }
        Polygon { points: out, denom: self.denom, boundary: self.boundary, holes: self.holes }
    }

    /// Builds a polygon from its vertices and validates it.
    pub fn new(points: Vec<Point>) -> (r: Result<Polygon, Error>)
        ensures
            r is Ok <==> outline_check(points@.map_values(|p: Point| p@)) is Ok,
            r is Err ==> r == Err::<Polygon, Error>(
                outline_check(points@.map_values(|p: Point| p@))->Err_0,
            ),
            r matches Ok(p) ==> {
                &&& p.wf()
                &&& p@ == points@.map_values(|p: Point| p@)
                &&& p.den() == 1
                &&& p.boundary_spec() == points.len()
                &&& p.holes_spec() == Seq::<usize>::empty()
            },
    {
        let one = big_from_usize(1);
        let p = Polygon::from_outline(points, one);
        match p.validate() {
            Ok(()) => Ok(p),
            Err(e) => Err(e),
        }
    }

    /// Checks that the polygon is simple. Of simplicity, the vertex count and
    /// the winding are checked; self-intersections and duplicate vertices are
    /// not looked for.
    pub fn validate(&self) -> (r: Result<(), Error>)
        requires
            self.wf(),
        ensures
            r == outline_check(self@),
    {
        self.validate_weakly()
    }

    /// Checks that the polygon has at least three vertices and is wound
    /// counter-clockwise (or has zero area).
    pub fn validate_weakly(&self) -> (r: Result<(), Error>)
        requires
            self.wf(),
        ensures
            r == outline_check(self@),
    {
        if self.points.len() < 3 {
            return Err(Error::InsufficientVertices);
        }
        let s = self.shoelace_value();
        if big_sign(&s) < 0 {
            return Err(Error::ClockWiseViolation);
        }
        Ok(())
    }

    /// The exact value of `shoelace(self@)`.
    fn shoelace_value(&self) -> (r: BigInt)
        ensures
            big_value(r) == shoelace(self@),
    {
        let n = self.points.len();
        let mut acc = big_from_usize(0);
        let mut i: usize = 0;
        while i < n
            invariant
                n == self.points.len(),
                n == self@.len(),
                i <= n,
                big_value(acc) == shoelace_upto(self@, i as int),
            decreases n - i,
        {
            let j: usize = if i + 1 < n { i + 1 } else { 0 };
            let t = cross_value(&self.points[i], &self.points[j]);
            acc = big_add(&acc, &t);
            i = i + 1;
        }
        acc
    }

    /// Twice the signed area: `shoelace(self@) / den²`.
    pub fn signed_area_2x(&self) -> (r: Rational)
        requires
            self.wf(),
        ensures
            big_value(r.num) == shoelace(self@),
            big_value(r.den) == self.den() * self.den(),
    {
        let num = self.shoelace_value();
        let den = big_mul(&self.denom, &self.denom);
        Rational { num, den }
    }

    /// The signed area: `shoelace(self@) / (2 den²)`.
    pub fn signed_area(&self) -> (r: Rational)
        requires
            self.wf(),
        ensures
            big_value(r.num) == shoelace(self@),
            big_value(r.den) == 2 * (self.den() * self.den()),
    {
        let a = self.signed_area_2x();
        let two = big_from_usize(2);
        let den = big_mul(&two, &a.den);
        Rational { num: a.num, den }
    }

    /// The centroid of the outer ring: `moment(self@) / (3 shoelace(self@) den)`.
    /// The ring must not have zero area.
    pub fn centroid(&self) -> (r: RationalPoint)
        requires
            self.wf(),
            shoelace(self@) != 0,
        ensures
            big_value(r.x) == moment(self@).0,
            big_value(r.y) == moment(self@).1,
            big_value(r.den) == 3 * shoelace(self@) * self.den(),
    {
        let n = self.points.len();
        let mut mx = big_from_usize(0);
        let mut my = big_from_usize(0);
        let mut i: usize = 0;
        while i < n
            invariant
                n == self.points.len(),
                n == self@.len(),
                i <= n,
                big_value(mx) == moment_upto(self@, i as int).0,
                big_value(my) == moment_upto(self@, i as int).1,
            decreases n - i,
        {
            let j: usize = if i + 1 < n { i + 1 } else { 0 };
            let p = &self.points[i];
            let q = &self.points[j];
            let c = cross_value(p, q);
            let sx = big_add(&p.x, &q.x);
            let sy = big_add(&p.y, &q.y);
            let tx = big_mul(&sx, &c);
            let ty = big_mul(&sy, &c);
            mx = big_add(&mx, &tx);
            my = big_add(&my, &ty);
            i = i + 1;
        }
        let s = self.shoelace_value();
        let three = big_from_usize(3);
        let t = big_mul(&three, &s);
        let den = big_mul(&t, &self.denom);
        RationalPoint { x: mx, y: my, den }
    }

    /// The vertex at `idx` taken cyclically: negative and out-of-range
    /// indices wrap around (Euclidean remainder).
    pub fn vertex(&self, idx: isize) -> (r: &Point)
        requires
            self@.len() > 0,
        ensures
            r@ == self@[idx as int % self@.len() as int],
    {
        let n = self.points.len();
        let k: usize = if idx >= 0 {
            (idx as usize) % n
        } else {
            let a: usize = (-(idx + 1)) as usize;
            let m: usize = a % n;
            proof {
                let q = a as int / n as int;
                assert(a as int == q * n as int + m as int) by (nonlinear_arith)
                    requires
                        n > 0,
                        q == a as int / n as int,
                        m as int == a as int % n as int,
                ;
                assert(idx as int == (-q - 1) * n as int + (n as int - 1 - m as int))
                    by (nonlinear_arith)
                    requires
                        a as int == q * n as int + m as int,
                        a as int == -(idx as int + 1),
                ;
                lemma_fundamental_div_mod_converse(
                    idx as int,
                    n as int,
                    -q - 1,
                    n as int - 1 - m as int,
                );
            }
            n - 1 - m
        };
        &self.points[k]
    }

    /// The orientation of the turn at vertex `idx`, from its cyclic
    /// predecessor and successor.
    pub fn vertex_orientation(&self, idx: isize) -> (o: Orientation)
        requires
            self@.len() > 0,
            idx > isize::MIN,
            idx < isize::MAX,
        ensures
            o == orientation_of(vertex_turn(self@, idx as int)),
    {
        let p1 = self.vertex(idx - 1);
        let p2 = self.vertex(idx);
        let p3 = self.vertex(idx + 1);
        p1.orientation(p2, p3)
    }

    /// The orientation of the turn at vertex `i`, for an index within the ring.
    pub(crate) fn orientation_at(&self, i: usize) -> (o: Orientation)
        requires
            i < self@.len(),
        ensures
            o == orientation_of(vertex_turn(self@, i as int)),
    {
        let n = self.points.len();
        let prev: usize = if i == 0 { n - 1 } else { i - 1 };
        let next: usize = if i == n - 1 { 0 } else { i + 1 };
        proof {
            lemma_fundamental_div_mod_converse(i as int, n as int, 0, i as int);
            if i == 0 {
                lemma_fundamental_div_mod_converse(-1, n as int, -1, n as int - 1);
            } else {
                lemma_fundamental_div_mod_converse(i as int - 1, n as int, 0, i as int - 1);
            }
            if i == n - 1 {
                lemma_fundamental_div_mod_converse(n as int, n as int, 1, 0);
            } else {
                lemma_fundamental_div_mod_converse(i as int + 1, n as int, 0, i as int + 1);
            }
        }
        self.points[prev].orientation(&self.points[i], &self.points[next])
    }

    /// The edge from vertex `i` to the next vertex of the ring.
    pub fn boundary_edge(&self, i: usize) -> (r: (&Point, &Point))
        requires
            i < self@.len(),
        ensures
            r.0@ == self@[i as int],
            r.1@ == self@[next_index(self@.len() as int, i as int)],
    {
        let j: usize = if i < self.points.len() - 1 { i + 1 } else { 0 };
        (&self.points[i], &self.points[j])
    }

    /// The vertices, in order.
    pub fn points(&self) -> (r: &Vec<Point>)
        ensures
            r@.map_values(|p: Point| p@) == self@,
    {
        &self.points
    }

    /// The common denominator of the coordinates.
    pub fn denominator(&self) -> (r: &BigInt)
        ensures
            big_value(*r) == self.den(),
    {
        &self.denom
    }

    /// The end of the outer ring.
    pub fn boundary(&self) -> (r: usize)
        ensures
            r == self.boundary_spec(),
    {
        self.boundary
    }

    /// The start of each hole ring.
    pub fn holes(&self) -> (r: &Vec<usize>)
        ensures
            r@ == self.holes_spec(),
    {
        &self.holes
    }
}

} // verus!
