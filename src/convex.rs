//! Convex polygons: validation, point location and random generation.
use crate::geometry::{cross, turn, Orientation, Point, RationalPoint, Vector};
use crate::partition::{lemma_sum_push, random_vectors, sum_of, xs_of, ys_of};
use crate::polygon::{moment, next_index, outline_check, shoelace, vertex_turn, Error, Polygon};
use crate::scalar::{big_add, big_clone, big_from_usize, big_mul, big_sign, big_sub, big_value};
use num_bigint::BigInt;
use rand::rngs::StdRng;
use vstd::prelude::*;

verus! {

/// Where a point lies relative to a convex region.
#[derive(Debug, Clone, Copy, PartialEq, Eq, Structural)]
pub enum PointLocation {
    Inside,
    OnBoundary,
    Outside,
}

/// Every vertex of the ring is a strict left turn.
pub open spec fn all_left_turns(pts: Seq<(int, int)>) -> bool {
    forall|i: int| 0 <= i < pts.len() ==> vertex_turn(pts, i) > 0
}

/// What convex validation reports of a ring: a vertex that is not a strict
/// left turn, else what the polygon's own validation reports.
pub open spec fn convex_check(pts: Seq<(int, int)>) -> Result<(), Error> {
    if !all_left_turns(pts) {
        Err(Error::ConvexViolation)
    } else {
        outline_check(pts)
    }
}

/// A point scaled by an integer factor.
pub open spec fn scaled(p: (int, int), k: int) -> (int, int) {
    (p.0 * k, p.1 * k)
}

/// On which side of edge `i` the point `q / e` lies, for a ring whose
/// vertices stand at `pts[k] / d`: positive on the left, zero on the edge's
/// line. Both sides are scaled by `d * e`, which keeps the sign.
pub open spec fn edge_side(pts: Seq<(int, int)>, d: int, q: (int, int), e: int, i: int) -> int {
    turn(scaled(pts[i], e), scaled(pts[next_index(pts.len() as int, i)], e), scaled(q, d))
}

/// The location of `q / e` against a counter-clockwise convex ring: outside
/// where it lies strictly right of some edge, on the boundary where it lies on
/// some edge's line and right of none, inside where it is strictly left of
/// every edge.
pub open spec fn location_of(pts: Seq<(int, int)>, d: int, q: (int, int), e: int) -> PointLocation {
    if exists|i: int| 0 <= i < pts.len() && #[trigger] edge_side(pts, d, q, e, i) < 0 {
        PointLocation::Outside
    } else if exists|i: int| 0 <= i < pts.len() && #[trigger] edge_side(pts, d, q, e, i) == 0 {
        PointLocation::OnBoundary
    } else {
        PointLocation::Inside
    }
}

/// A polygon that is also convex: every vertex is a strict left turn.
pub struct ConvexPolygon(Polygon);

impl ConvexPolygon {
    /// The wrapped polygon.
    pub closed spec fn poly(&self) -> Polygon {
        self.0
    }

    /// Wraps a polygon after checking, as `validate` does, that it is convex.
    pub fn new(p: Polygon) -> (r: Result<ConvexPolygon, Error>)
        requires
            p.wf(),
        ensures
            r is Ok <==> convex_check(p@) is Ok,
            r is Err ==> r == Err::<ConvexPolygon, Error>(convex_check(p@)->Err_0),
            r matches Ok(c) ==> c.poly() == p,
    {
        let c = ConvexPolygon(p);
        match c.validate() {
            Ok(()) => Ok(c),
            Err(e) => Err(e),
        }
    }

    /// Checks that every vertex is a strict left turn, stopping at the first
    /// that is not, and then validates the polygon itself.
    pub fn validate(&self) -> (r: Result<(), Error>)
        requires
            self.poly().wf(),
        ensures
            r == convex_check(self.poly()@),
    {
        let n = self.0.points().len();
        let mut i: usize = 0;
        while i < n
            invariant
                n == self.poly()@.len(),
                i <= n,
                forall|k: int| 0 <= k < i ==> vertex_turn(self.poly()@, k) > 0,
            decreases n - i,
        {
            if self.0.orientation_at(i) != Orientation::CounterClockWise {
                return Err(Error::ConvexViolation);
            }
            i = i + 1;
        }
        self.0.validate()
    }

    /// Locates the point `(pt.x / pt.den, pt.y / pt.den)`: inside, on the
    /// boundary (on an edge or a vertex), or outside. Each edge's line splits
    /// the plane; the point is tested against all of them.
    pub fn locate(&self, pt: &RationalPoint) -> (r: PointLocation)
        requires
            self.poly().wf(),
            big_value(pt.den) > 0,
        ensures
            r == location_of(
                self.poly()@,
                self.poly().den(),
                (big_value(pt.x), big_value(pt.y)),
                big_value(pt.den),
            ),
    {
        let p = &self.0;
        let n = p.points().len();
        let d = p.denominator();
        let q = Point { x: big_mul(&pt.x, d), y: big_mul(&pt.y, d) };
        let ghost qv = (big_value(pt.x), big_value(pt.y));
        let ghost e = big_value(pt.den);
        let mut on_edge = false;
        let mut i: usize = 0;
        while i < n
            invariant
                n == p@.len(),
                i <= n,
                *p == self.poly(),
                e == big_value(pt.den),
                qv == (big_value(pt.x), big_value(pt.y)),
                q@ == scaled(qv, p.den()),
                forall|k: int| 0 <= k < i ==> #[trigger] edge_side(p@, p.den(), qv, e, k) >= 0,
                on_edge <==> exists|k: int| 0 <= k < i && #[trigger] edge_side(p@, p.den(), qv, e, k) == 0,
            decreases n - i,
        {
            let (a, b) = p.boundary_edge(i);
            let sa = scale_point(a, &pt.den);
            let sb = scale_point(b, &pt.den);
            let o = sa.orientation(&sb, &q);
            assert(sa@ == scaled(p@[i as int], e));
            assert(sb@ == scaled(p@[next_index(n as int, i as int)], e));
            assert(q@ == scaled(qv, p.den()));
            assert(edge_side(p@, p.den(), qv, e, i as int) == turn(sa@, sb@, q@));
            if o == Orientation::ClockWise {
                assert(edge_side(p@, p.den(), qv, e, i as int) < 0);
                return PointLocation::Outside;
            }
            if o == Orientation::CoLinear {
                on_edge = true;
            }
            i = i + 1;
        }
        if on_edge {
            PointLocation::OnBoundary
        } else {
            PointLocation::Inside
        }
    }

    /// The polygon whose edges are the given vectors in angular order: their
    /// running sums give the vertices, which are then moved so that the
    /// centroid is the origin (when the area is positive) and shrunk by
    /// `max`. Where the vectors sum to zero and no two point the same way,
    /// the result is convex and counter-clockwise.
    pub fn from_edge_vectors(vs: Vec<Vector>, max: usize) -> (r: ConvexPolygon)
        requires
            max >= 1,
        ensures
            r.poly().wf(),
            r.poly()@.len() == vs@.len(),
            r.poly().boundary_spec() == vs@.len(),
            r.poly().holes_spec() == Seq::<usize>::empty(),
            exists|e: Seq<(int, int)>|
                {
                    &&& angle_sorted(e)
                    &&& e.to_multiset() == vector_views(vs@).to_multiset()
                    &&& sum_of(firsts(e)) == sum_of(firsts(vector_views(vs@)))
                    &&& sum_of(seconds(e)) == sum_of(seconds(vector_views(vs@)))
                    &&& r.poly()@ == recentered(prefix_sums(e))
                    &&& r.poly().den() == recentered_den(prefix_sums(e), max as int)
                },
    {
        let ghost n = vs@.len();
        let sorted = sort_around(vs);
        let ghost e = vector_views(sorted@);
        proof {
            e.to_multiset_ensures();
            vector_views(vs@).to_multiset_ensures();
        }
        let pts = prefix_points(&sorted);
        let one = big_from_usize(1);
        let outline = Polygon::from_outline(pts, one);
        let p = recenter(&outline, max);
        assert(p@ == recentered(prefix_sums(e)));
        ConvexPolygon(p)
    }

    /// A random convex polygon with `n` vertices (three where `n < 3`): `n`
    /// random edge vectors that sum to zero, with components drawn from
    /// partitions of `max`, put together by `from_edge_vectors`. Two edge
    /// vectors may point the same way (or be zero), and then the polygon has
    /// collinear vertices; an outline of zero area is only scaled, not moved.
    pub fn random(n: usize, max: usize, rng: &mut StdRng) -> (r: ConvexPolygon)
        requires
            max >= 1,
            n < usize::MAX,
        ensures
            r.poly().wf(),
            r.poly()@.len() == (if n < 3 { 3 } else { n }),
            r.poly().boundary_spec() == r.poly()@.len(),
            r.poly().holes_spec() == Seq::<usize>::empty(),
            exists|e: Seq<(int, int)>|
                {
                    &&& e.len() == r.poly()@.len()
                    &&& angle_sorted(e)
                    &&& sum_of(firsts(e)) == 0
                    &&& sum_of(seconds(e)) == 0
                    &&& r.poly()@ == recentered(prefix_sums(e))
                    &&& r.poly().den() == recentered_den(prefix_sums(e), max as int)
                },
    {
        let m: usize = if n < 3 { 3 } else { n };
        let vs = random_vectors(m, max, rng);
        assert(firsts(vector_views(vs@)) =~= xs_of(vs@));
        assert(seconds(vector_views(vs@)) =~= ys_of(vs@));
        let r = ConvexPolygon::from_edge_vectors(vs, max);
        proof {
            let e = choose|e: Seq<(int, int)>|
                {
                    &&& angle_sorted(e)
                    &&& e.to_multiset() == vector_views(vs@).to_multiset()
                    &&& sum_of(firsts(e)) == sum_of(firsts(vector_views(vs@)))
                    &&& sum_of(seconds(e)) == sum_of(seconds(vector_views(vs@)))
                    &&& r.poly()@ == recentered(prefix_sums(e))
                    &&& r.poly().den() == recentered_den(prefix_sums(e), max as int)
                };
            e.to_multiset_ensures();
            vector_views(vs@).to_multiset_ensures();
            assert(e.len() == r.poly()@.len());
        }
        r
    }

    /// The wrapped polygon.
    pub fn polygon(&self) -> (r: &Polygon)
        ensures
            *r == self.poly(),
    {
        &self.0
    }

    /// The wrapped polygon, taken out of the wrapper.
    pub fn into_polygon(self) -> (r: Polygon)
        ensures
            r == self.poly(),
    {
        self.0
    }
}

/// Which half of the plane of directions a vector points into: 0 for angles
/// in `[0, pi)`, 1 for angles in `[pi, 2 pi)`, 2 for the zero vector.
pub open spec fn half(v: (int, int)) -> int {
    if v.1 > 0 || (v.1 == 0 && v.0 > 0) {
        0
    } else if v.1 < 0 || v.0 < 0 {
        1
    } else {
        2
    }
}

/// `u` comes strictly before `v` when ordered by polar angle.
pub open spec fn angle_before(u: (int, int), v: (int, int)) -> bool {
    half(u) < half(v) || (half(u) == half(v) && cross(u, v) > 0)
}

/// No vector comes strictly before the one it follows.
pub open spec fn angle_sorted(s: Seq<(int, int)>) -> bool {
    forall|i: int| 0 <= i < s.len() - 1 ==> !angle_before(#[trigger] s[i + 1], s[i])
}

/// The components of a sequence of vectors.
pub open spec fn vector_views(s: Seq<Vector>) -> Seq<(int, int)> {
    s.map_values(|v: Vector| v@)
}

/// The x components of a sequence of vectors.
pub open spec fn firsts(e: Seq<(int, int)>) -> Seq<int> {
    e.map_values(|v: (int, int)| v.0)
}

/// The y components of a sequence of vectors.
pub open spec fn seconds(e: Seq<(int, int)>) -> Seq<int> {
    e.map_values(|v: (int, int)| v.1)
}

proof fn lemma_sum_insert(s: Seq<int>, i: int, v: int)
    requires
        0 <= i <= s.len(),
    ensures
        sum_of(s.insert(i, v)) == sum_of(s) + v,
    decreases s.len(),
{
    if i == s.len() {
        assert(s.insert(i, v) =~= s.push(v));
        lemma_sum_push(s, v);
    } else {
        lemma_sum_insert(s.drop_last(), i, v);
        assert(s.insert(i, v).drop_last() =~= s.drop_last().insert(i, v));
    }
}

/// The running sums of a sequence of vectors, starting from the first.
pub open spec fn prefix_sums(e: Seq<(int, int)>) -> Seq<(int, int)> {
    Seq::new(
        e.len(),
        |i: int|
            (
                sum_of(e.take(i + 1).map_values(|v: (int, int)| v.0)),
                sum_of(e.take(i + 1).map_values(|v: (int, int)| v.1)),
            ),
    )
}

/// The numerators of a ring of integer vertices moved so that its centroid
/// is the origin (when its area is positive) and shrunk by `max`.
pub open spec fn recentered(pts: Seq<(int, int)>) -> Seq<(int, int)> {
    let s = shoelace(pts);
    let m = moment(pts);
    if s > 0 {
        Seq::new(pts.len(), |i: int| (3 * s * pts[i].0 - m.0, 3 * s * pts[i].1 - m.1))
    } else {
        pts
    }
}

/// The common denominator that goes with `recentered(pts)`.
pub open spec fn recentered_den(pts: Seq<(int, int)>, max: int) -> int {
    if shoelace(pts) > 0 {
        3 * shoelace(pts) * max
    } else {
        max
    }
}

/// Which half of the plane of directions a vector points into.
fn half_of(v: &Vector) -> (r: u8)
    ensures
        r as int == half(v@),
{
    let sy = big_sign(&v.y);
    let sx = big_sign(&v.x);
    if sy > 0 || (sy == 0 && sx > 0) {
        0
    } else if sy < 0 || sx < 0 {
        1
    } else {
        2
    }
}

/// Whether `u` comes strictly before `v` by polar angle.
fn comes_before(u: &Vector, v: &Vector) -> (r: bool)
    ensures
        r == angle_before(u@, v@),
{
    let hu = half_of(u);
    let hv = half_of(v);
    if hu != hv {
        return hu < hv;
    }
    let l = big_mul(&u.x, &v.y);
    let r = big_mul(&v.x, &u.y);
    let c = big_sub(&l, &r);
    big_sign(&c) > 0
}

/// Sorts vectors by polar angle, counter-clockwise from the positive x axis;
/// zero vectors come last.
pub fn sort_around(vs: Vec<Vector>) -> (r: Vec<Vector>)
    ensures
        angle_sorted(vector_views(r@)),
        vector_views(r@).to_multiset() == vector_views(vs@).to_multiset(),
        sum_of(firsts(vector_views(r@))) == sum_of(firsts(vector_views(vs@))),
        sum_of(seconds(vector_views(r@))) == sum_of(seconds(vector_views(vs@))),
{
    broadcast use vstd::multiset::group_multiset_axioms, vstd::multiset::lemma_multiset_empty_len, vstd::seq_lib::group_to_multiset_ensures;

    let mut rest = vs;
    let mut out: Vec<Vector> = Vec::new();
    proof {
        assert(firsts(vector_views(out@)) =~= Seq::<int>::empty());
        assert(seconds(vector_views(out@)) =~= Seq::<int>::empty());
        assert(vector_views(out@) =~= Seq::<(int, int)>::empty());
        assert(vector_views(out@).to_multiset().len() == 0);
        assert(vector_views(out@).to_multiset().add(vector_views(rest@).to_multiset())
            =~= vector_views(vs@).to_multiset());
    }
    while rest.len() > 0
        invariant
            angle_sorted(vector_views(out@)),
            vector_views(out@).to_multiset().add(vector_views(rest@).to_multiset())
                == vector_views(vs@).to_multiset(),
            sum_of(firsts(vector_views(out@))) + sum_of(firsts(vector_views(rest@)))
                == sum_of(firsts(vector_views(vs@))),
            sum_of(seconds(vector_views(out@))) + sum_of(seconds(vector_views(rest@)))
                == sum_of(seconds(vector_views(vs@))),
        decreases rest@.len(),
    {
        let ghost rest_before = rest@;
        let v = rest.pop().unwrap();
        proof {
            assert(vector_views(rest_before) =~= vector_views(rest@).push(v@));
            assert(firsts(vector_views(rest_before)) =~= firsts(vector_views(rest@)).push(v@.0));
            assert(seconds(vector_views(rest_before)) =~= seconds(vector_views(rest@)).push(v@.1));
            lemma_sum_push(firsts(vector_views(rest@)), v@.0);
            lemma_sum_push(seconds(vector_views(rest@)), v@.1);
        }
        let mut pos: usize = 0;
        while pos < out.len() && !comes_before(&v, &out[pos])
            invariant
                pos <= out@.len(),
                pos > 0 ==> !angle_before(v@, out@[pos - 1]@),
            decreases out@.len() - pos,
        {
            pos = pos + 1;
        }
        let ghost before = out@;
        out.insert(pos, v);
        proof {
            assert(vector_views(out@) =~= vector_views(before).insert(pos as int, v@));
            vstd::seq_lib::to_multiset_insert(vector_views(before), pos as int, v@);
            assert(firsts(vector_views(out@)) =~= firsts(vector_views(before)).insert(pos as int, v@.0));
            assert(seconds(vector_views(out@)) =~= seconds(vector_views(before)).insert(pos as int, v@.1));
            lemma_sum_insert(firsts(vector_views(before)), pos as int, v@.0);
            lemma_sum_insert(seconds(vector_views(before)), pos as int, v@.1);
            vstd::seq_lib::to_multiset_build(vector_views(rest@), v@);
            assert(vector_views(out@).to_multiset().add(vector_views(rest@).to_multiset())
                =~= vector_views(before).to_multiset().add(vector_views(rest_before).to_multiset()));
            let w = vector_views(out@);
            let b = vector_views(before);
            assert forall|i: int| 0 <= i < w.len() - 1 implies !angle_before(#[trigger] w[i + 1], w[i]) by {
                if i + 1 < pos {
                    assert(w[i + 1] == b[i + 1]);
                    assert(w[i] == b[i]);
                    assert(!angle_before(b[i + 1], b[i]));
                } else if i + 1 == pos {
                    assert(w[i + 1] == v@);
                    assert(w[i] == b[i]);
                    assert(b[i] == before[pos - 1]@);
                } else if i == pos {
                    assert(w[i] == v@);
                    assert(w[i + 1] == b[i]);
                    assert(b[i] == before[pos as int]@);
                    let u = w[i + 1];
                    assert(angle_before(v@, u));
                    assert(cross(u, v@) == -cross(v@, u));
                } else {
                    assert(w[i + 1] == b[i]);
                    assert(w[i] == b[i - 1]);
                    assert(!angle_before(b[(i - 1) + 1], b[i - 1]));
                }
            }
        }
    }
    proof {
        assert(vector_views(rest@) =~= Seq::<(int, int)>::empty());
        assert(firsts(vector_views(rest@)) =~= Seq::<int>::empty());
        assert(seconds(vector_views(rest@)) =~= Seq::<int>::empty());
        assert(vector_views(rest@).to_multiset().len() == 0);
        assert(vector_views(out@).to_multiset() =~= vector_views(out@).to_multiset().add(
            vector_views(rest@).to_multiset(),
        ));
    }
    out
}

/// The running sums of the vectors, as points.
pub fn prefix_points(vs: &Vec<Vector>) -> (r: Vec<Point>)
    ensures
        r@.map_values(|p: Point| p@) == prefix_sums(vector_views(vs@)),
{
    let ghost e = vector_views(vs@);
    let mut out: Vec<Point> = Vec::new();
    let mut x = big_from_usize(0);
    let mut y = big_from_usize(0);
    let mut i: usize = 0;
    while i < vs.len()
        invariant
            e == vector_views(vs@),
            i <= vs@.len(),
            out@.len() == i,
            big_value(x) == sum_of(e.take(i as int).map_values(|v: (int, int)| v.0)),
            big_value(y) == sum_of(e.take(i as int).map_values(|v: (int, int)| v.1)),
            forall|k: int| 0 <= k < i ==> #[trigger] out@[k]@ == prefix_sums(e)[k],
        decreases vs@.len() - i,
    {
        proof {
            assert(e.take(i + 1).map_values(|v: (int, int)| v.0).drop_last()
                =~= e.take(i as int).map_values(|v: (int, int)| v.0));
            assert(e.take(i + 1).map_values(|v: (int, int)| v.1).drop_last()
                =~= e.take(i as int).map_values(|v: (int, int)| v.1));
        }
        x = big_add(&x, &vs[i].x);
        y = big_add(&y, &vs[i].y);
        let p = Point { x: big_clone(&x), y: big_clone(&y) };
        out.push(p);
        i = i + 1;
    }
    assert(out@.map_values(|p: Point| p@) =~= prefix_sums(e));
    out
}

/// Moves a polygon of integer vertices so that its centroid is the origin
/// (when its area is positive) and shrinks it by `max`.
fn recenter(p: &Polygon, max: usize) -> (r: Polygon)
    requires
        p.wf(),
        p.den() == 1,
        max >= 1,
    ensures
        r.wf(),
        r@ == recentered(p@),
        r.den() == recentered_den(p@, max as int),
        r.boundary_spec() == p@.len(),
        r.holes_spec() == Seq::<usize>::empty(),
{
    let m = big_from_usize(max);
    let area = p.signed_area_2x();
    let pts = p.points();
    let n = pts.len();
    let mut out: Vec<Point> = Vec::new();
    let mut i: usize = 0;
    if big_sign(&area.num) > 0 {
        let c = p.centroid();
        let ghost s = shoelace(p@);
        let ghost mo = moment(p@);
        while i < n
            invariant
                n == p@.len(),
                pts@.map_values(|q: Point| q@) == p@,
                big_value(c.den) == 3 * s * 1,
                big_value(c.x) == mo.0,
                big_value(c.y) == mo.1,
                i <= n,
                out@.len() == i,
                forall|k: int| 0 <= k < i ==> #[trigger] out@[k]@ == (3 * s * p@[k].0 - mo.0, 3 * s * p@[k].1 - mo.1),
            decreases n - i,
        {
            let ax = big_mul(&c.den, &pts[i].x);
            let ay = big_mul(&c.den, &pts[i].y);
            let q = Point { x: big_sub(&ax, &c.x), y: big_sub(&ay, &c.y) };
            assert(pts@[i as int]@ == p@[i as int]);
            out.push(q);
            i = i + 1;
        }
        let den = big_mul(&c.den, &m);
        assert(3 * s * 1 * max > 0) by (nonlinear_arith)
            requires
                s > 0,
                max >= 1,
        ;
        assert(out@.map_values(|q: Point| q@) =~= recentered(p@));
        Polygon::from_outline(out, den)
    } else {
        while i < n
            invariant
                n == p@.len(),
                pts@.map_values(|q: Point| q@) == p@,
                i <= n,
                out@.len() == i,
                forall|k: int| 0 <= k < i ==> #[trigger] out@[k]@ == p@[k],
            decreases n - i,
        {
            let q = pts[i].copy();
            assert(pts@[i as int]@ == p@[i as int]);
            out.push(q);
            i = i + 1;
        }
        assert(out@.map_values(|q: Point| q@) =~= p@);
        Polygon::from_outline(out, m)
    }
}

/// A point scaled by an integer factor.
fn scale_point(p: &Point, k: &BigInt) -> (r: Point)
    ensures
        r@ == scaled(p@, big_value(*k)),
{
    Point { x: big_mul(&p.x, k), y: big_mul(&p.y, k) }
}

} // verus!
