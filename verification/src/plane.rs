//! A plane through three points, with the normal that the points define.

use vstd::prelude::*;
use crate::error::Error;
use crate::measurement::Measurement;
use crate::vector::{cross, dot, Point2, Point3, Vec3, Vector3};

verus! {

/// Largest magnitude of a coordinate or height that a plane accepts: two to
/// the power 29. Below it every quantity that this crate derives from two
/// planes fits in an `i128`.
pub const COORD_LIMIT: i64 = 536_870_912;

/// The normal that three points `a`, `b`, `c` define: `(c - a) x (b - a)`.
pub open spec fn normal_of(points: Seq<Vec3>) -> Vec3 {
    points[2].minus(points[0]).cross(points[1].minus(points[0]))
}

/// All three points lie within the coordinate limit.
pub open spec fn in_range(points: Seq<Vec3>) -> bool {
    &&& points[0].within(COORD_LIMIT as int)
    &&& points[1].within(COORD_LIMIT as int)
    &&& points[2].within(COORD_LIMIT as int)
}

/// The three points lie on one line.
pub open spec fn collinear(points: Seq<Vec3>) -> bool {
    normal_of(points).is_zero()
}

/// Why three points are refused as a plane, if they are.
pub open spec fn refusal(points: Seq<Vec3>) -> Option<Error> {
    if !in_range(points) {
        Some(Error::OutOfRange)
    } else if collinear(points) {
        Some(Error::DegenerateFrame)
    } else {
        None
    }
}

/// The model of three points given as an array.
pub open spec fn model_of(points: [Point3; 3]) -> Seq<Vec3> {
    seq![points[0]@, points[1]@, points[2]@]
}

/// The three points at height zero that six layout values `x0, y0, x1, y1,
/// x2, y2` describe.
pub open spec fn flat_layout(values: Seq<i64>) -> Seq<Vec3> {
    seq![
        Vec3 { x: values[0] as int, y: values[1] as int, z: 0 },
        Vec3 { x: values[2] as int, y: values[3] as int, z: 0 },
        Vec3 { x: values[4] as int, y: values[5] as int, z: 0 },
    ]
}

/// The three points at height zero above three positions of the XY plane.
pub open spec fn flat_points(points: [Point2; 3]) -> Seq<Vec3> {
    seq![
        Vec3 { x: points[0].x as int, y: points[0].y as int, z: 0 },
        Vec3 { x: points[1].x as int, y: points[1].y as int, z: 0 },
        Vec3 { x: points[2].x as int, y: points[2].y as int, z: 0 },
    ]
}

/// The points with each height replaced by the reading of its sensor.
pub open spec fn with_heights(points: Seq<Vec3>, reading: Measurement) -> Seq<Vec3> {
    seq![
        Vec3 { x: points[0].x, y: points[0].y, z: reading.0 as int },
        Vec3 { x: points[1].x, y: points[1].y, z: reading.1 as int },
        Vec3 { x: points[2].x, y: points[2].y, z: reading.2 as int },
    ]
}

/// The points moved by one offset.
pub open spec fn shifted(points: Seq<Vec3>, offset: Vec3) -> Seq<Vec3> {
    seq![points[0].plus(offset), points[1].plus(offset), points[2].plus(offset)]
}

/// `r` is what constructing a plane from `points` gives: the plane with
/// exactly these points, or the reason why they are refused.
pub open spec fn built_from(r: Result<Plane, Error>, points: Seq<Vec3>) -> bool {
    match r {
        Ok(p) => refusal(points) is None && p@ == points && p.wf(),
        Err(e) => refusal(points) == Some(e),
    }
}

/// The coefficients of the plane equation `a*x + b*y + c*z = d`.
#[derive(Clone, Copy, Debug, PartialEq, Eq, Structural)]
pub struct CartesianCoefficients {
    pub a: i128,
    pub b: i128,
    pub c: i128,
    pub d: i128,
}

/// Three points that do not lie on one line, and the normal of the plane
/// through them.
#[derive(Clone, Copy, Debug, PartialEq, Eq)]
pub struct Plane {
    points: [Point3; 3],
    normal: Vector3,
}

impl View for Plane {
    type V = Seq<Vec3>;

    closed spec fn view(&self) -> Seq<Vec3> {
        model_of(self.points)
    }
}

impl Plane {
    /// The stored normal.
    pub closed spec fn spec_normal(&self) -> Vec3 {
        self.normal@
    }

    /// What holds of every plane: three points within the limit, not on one
    /// line, and the stored normal is the one they define.
    #[verifier::type_invariant]
    pub open spec fn wf(&self) -> bool {
        &&& self@.len() == 3
        &&& refusal(self@) is None
        &&& self.spec_normal() == normal_of(self@)
    }

    /// The plane through three points.
    pub fn new(points: [Point3; 3]) -> (r: Result<Plane, Error>)
        ensures
            built_from(r, model_of(points)),
    {
        if !(point_in_range(&points[0]) && point_in_range(&points[1]) && point_in_range(
            &points[2],
        )) {
            return Err(Error::OutOfRange);
        }
        let v1 = points[2].offset_from(&points[0]);
        let v2 = points[1].offset_from(&points[0]);
        let normal = cross(&v1, &v2);
        if normal.x == 0 && normal.y == 0 && normal.z == 0 {
            return Err(Error::DegenerateFrame);
        }
        Ok(Plane { points, normal })
    }

    /// The plane at height zero through the points `(x0, y0)`, `(x1, y1)`,
    /// `(x2, y2)`, given as `[x0, y0, x1, y1, x2, y2]`.
    pub fn from_vec(points: &[i64; 6]) -> (r: Result<Plane, Error>)
        ensures
            built_from(r, flat_layout(points@)),
    {
        let points3 = [
            Point3 { x: points[0], y: points[1], z: 0 },
            Point3 { x: points[2], y: points[3], z: 0 },
            Point3 { x: points[4], y: points[5], z: 0 },
        ];
        assert(model_of(points3) == flat_layout(points@));
        Plane::new(points3)
    }

    /// The plane at height zero through three points of the XY plane.
    pub fn from_xy(points: &[Point2; 3]) -> (r: Result<Plane, Error>)
        ensures
            built_from(r, flat_points(*points)),
    {
        let values = [
            points[0].x,
            points[0].y,
            points[1].x,
            points[1].y,
            points[2].x,
            points[2].y,
        ];
        assert(flat_layout(values@) == flat_points(*points));
        Plane::from_vec(&values)
    }

    /// The plane that a configured layout describes: exactly six values, read
    /// as by [`Plane::from_vec`].
    pub fn from_layout(values: &[i64]) -> (r: Result<Plane, Error>)
        ensures
            values@.len() != 6 ==> r == Err::<Plane, Error>(
                Error::MalformedLayout(values@.len() as usize),
            ),
            values@.len() == 6 ==> built_from(r, flat_layout(values@)),
    {
        if values.len() != 6 {
            return Err(Error::MalformedLayout(values.len()));
        }
        let points = [values[0], values[1], values[2], values[3], values[4], values[5]];
        assert(flat_layout(points@) == flat_layout(values@));
        Plane::from_vec(&points)
    }

    /// The plane over the same XY positions whose heights are the readings
    /// of the three sensors.
    pub fn new_reading(&self, measurements: &Measurement) -> (r: Result<Plane, Error>)
        ensures
            built_from(r, with_heights(self@, *measurements)),
    {
        let mut points = self.points;
        points[0].z = measurements.0;
        points[1].z = measurements.1;
        points[2].z = measurements.2;
        assert(model_of(points) == with_heights(self@, *measurements));
        Plane::new(points)
    }

    /// The plane moved by `offset`, which keeps its normal. It is refused
    /// when a moved point leaves the coordinate range.
    pub(crate) fn translated(&self, offset: &Vector3) -> (r: Result<Plane, Error>)
        ensures
            r is Ok <==> in_range(shifted(self@, offset@)),
            r matches Ok(p) ==> p@ == shifted(self@, offset@) && p.wf(),
            r matches Err(e) ==> e == Error::OutOfRange,
    {
        proof {
            use_type_invariant(self);
            lemma_shift_keeps_normal(self@, offset@);
        }
        let moved = [
            moved_point(&self.points[0], offset),
            moved_point(&self.points[1], offset),
            moved_point(&self.points[2], offset),
        ];
        match (moved[0], moved[1], moved[2]) {
            (Some(a), Some(b), Some(c)) => {
                let points = [a, b, c];
                assert(model_of(points) == shifted(self@, offset@));
                Plane::new(points)
            },
            _ => Err(Error::OutOfRange),
        }
    }

    /// The coefficients of the plane equation: `a`, `b`, `c` are the normal
    /// and `d` is its dot product with the first point.
    pub fn cartesian_coefficients(&self) -> (r: CartesianCoefficients)
        ensures
            r.a == normal_of(self@).x,
            r.b == normal_of(self@).y,
            r.c == normal_of(self@).z,
            r.d == self@[0].dot(normal_of(self@)),
    {
        proof {
            use_type_invariant(self);
            lemma_normal_bound(self@);
        }
        let first = Vector3 {
            x: self.points[0].x as i128,
            y: self.points[0].y as i128,
            z: self.points[0].z as i128,
        };
        let d = dot(&first, &self.normal);
        CartesianCoefficients { a: self.normal.x, b: self.normal.y, c: self.normal.z, d }
    }

    /// The three points, in their order.
    pub fn points(&self) -> (r: [Point3; 3])
        ensures
            model_of(r) == self@,
    {
        self.points
    }

    /// The normal `(c - a) x (b - a)` of the points `a`, `b`, `c`; it is
    /// never zero.
    pub fn normal(&self) -> (r: Vector3)
        ensures
            r@ == normal_of(self@),
            !r@.is_zero(),
    {
        proof {
            use_type_invariant(self);
        }
        self.normal
    }
}

/// `point + offset` if it lies within the coordinate limit.
fn moved_point(point: &Point3, offset: &Vector3) -> (r: Option<Point3>)
    requires
        point@.within(COORD_LIMIT as int),
    ensures
        r is Some <==> point@.plus(offset@).within(COORD_LIMIT as int),
        r matches Some(p) ==> p@ == point@.plus(offset@),
{
    let x = moved_coordinate(point.x, offset.x);
    let y = moved_coordinate(point.y, offset.y);
    let z = moved_coordinate(point.z, offset.z);
    match (x, y, z) {
        (Some(x), Some(y), Some(z)) => Some(Point3 { x, y, z }),
        _ => None,
    }
}

fn moved_coordinate(c: i64, offset: i128) -> (r: Option<i64>)
    requires
        -COORD_LIMIT <= c <= COORD_LIMIT,
    ensures
        r is Some <==> -COORD_LIMIT <= c + offset <= COORD_LIMIT,
        r matches Some(m) ==> m == c + offset,
{
    let low: i128 = -(COORD_LIMIT as i128);
    let high: i128 = COORD_LIMIT as i128;
    if offset < 2 * low || offset > 2 * high {
        return None;
    }
    let m: i128 = c as i128 + offset;
    if low <= m && m <= high {
        Some(m as i64)
    } else {
        None
    }
}

/// The magnitude of a product is at most the product of the bounds.
pub proof fn lemma_product_bound(a: int, b: int, bound_a: int, bound_b: int)
    requires
        -bound_a <= a <= bound_a,
        -bound_b <= b <= bound_b,
    ensures
        -(bound_a * bound_b) <= a * b <= bound_a * bound_b,
{
    assert(-(bound_a * bound_b) <= a * b <= bound_a * bound_b) by (nonlinear_arith)
        requires
            -bound_a <= a <= bound_a,
            -bound_b <= b <= bound_b,
    ;
}

/// The cross product of two vectors within `bound` lies within twice the
/// square of `bound`.
pub proof fn lemma_cross_bound(a: Vec3, b: Vec3, bound: int)
    requires
        a.within(bound),
        b.within(bound),
    ensures
        a.cross(b).within(2 * (bound * bound)),
{
    lemma_product_bound(a.y, b.z, bound, bound);
    lemma_product_bound(a.z, b.y, bound, bound);
    lemma_product_bound(a.z, b.x, bound, bound);
    lemma_product_bound(a.x, b.z, bound, bound);
    lemma_product_bound(a.x, b.y, bound, bound);
    lemma_product_bound(a.y, b.x, bound, bound);
}

/// The normal of three points within the coordinate limit lies within two
/// to the power 61.
pub proof fn lemma_normal_bound(points: Seq<Vec3>)
    requires
        in_range(points),
    ensures
        normal_of(points).within(0x2000_0000_0000_0000),
{
    let v1 = points[2].minus(points[0]);
    let v2 = points[1].minus(points[0]);
    lemma_cross_bound(v1, v2, 2 * COORD_LIMIT);
    assert((2 * COORD_LIMIT) * (2 * COORD_LIMIT) == 0x1000_0000_0000_0000) by (nonlinear_arith);
}

/// Moving all three points by one offset does not change the normal.
pub proof fn lemma_shift_keeps_normal(points: Seq<Vec3>, offset: Vec3)
    ensures
        normal_of(shifted(points, offset)) == normal_of(points),
{
    let moved = shifted(points, offset);
    assert(moved[2].minus(moved[0]) == points[2].minus(points[0]));
    assert(moved[1].minus(moved[0]) == points[1].minus(points[0]));
}

/// A new reading changes neither the X nor the Y coordinates, and the Z
/// component of the normal depends on nothing else than these.
pub proof fn lemma_reading_keeps_normal_z(points: Seq<Vec3>, reading: Measurement)
    ensures
        normal_of(with_heights(points, reading)).z == normal_of(points).z,
{
}

/// A plane whose normal is not horizontal never degenerates under a new
/// reading: whatever the heights, the three points stay off one line. Every
/// plane of a flat layout is of this kind.
pub proof fn lemma_reading_is_never_degenerate(points: Seq<Vec3>, reading: Measurement)
    requires
        normal_of(points).z != 0,
    ensures
        !collinear(with_heights(points, reading)),
        refusal(with_heights(points, reading)) != Some(Error::DegenerateFrame),
{
    lemma_reading_keeps_normal_z(points, reading);
}

/// The normal of a flat layout is vertical, so a flat layout that is a plane
/// has a normal with a Z component other than zero.
pub proof fn lemma_flat_layout_is_upright(values: Seq<i64>)
    ensures
        normal_of(flat_layout(values)).x == 0,
        normal_of(flat_layout(values)).y == 0,
        !collinear(flat_layout(values)) ==> normal_of(flat_layout(values)).z != 0,
{
    let points = flat_layout(values);
    let v1 = points[2].minus(points[0]);
    let v2 = points[1].minus(points[0]);
    assert(v1.z == 0 && v2.z == 0);
    assert(v1.y * v2.z == 0 && v1.z * v2.y == 0 && v1.z * v2.x == 0 && v1.x * v2.z == 0)
        by (nonlinear_arith)
        requires
            v1.z == 0,
            v2.z == 0,
    ;
}

/// All three points satisfy the plane equation `a*x + b*y + c*z = d` of
/// [`Plane::cartesian_coefficients`]: the dot product with the normal is the
/// same for each of them.
pub proof fn lemma_points_satisfy_equation(points: Seq<Vec3>)
    ensures
        points[1].dot(normal_of(points)) == points[0].dot(normal_of(points)),
        points[2].dot(normal_of(points)) == points[0].dot(normal_of(points)),
{
    let n = normal_of(points);
    let v1 = points[2].minus(points[0]);
    let v2 = points[1].minus(points[0]);
    lemma_cross_is_orthogonal(v1, v2);
    lemma_dot_of_sum(points[0], v1, n);
    lemma_dot_of_sum(points[0], v2, n);
    assert(points[0].plus(v1) == points[2]);
    assert(points[0].plus(v2) == points[1]);
}

/// The cross product of two vectors is orthogonal to both.
pub proof fn lemma_cross_is_orthogonal(a: Vec3, b: Vec3)
    ensures
        a.dot(a.cross(b)) == 0,
        b.dot(a.cross(b)) == 0,
{
    assert(a.x * (a.y * b.z - a.z * b.y) + a.y * (a.z * b.x - a.x * b.z) + a.z * (a.x * b.y - a.y
        * b.x) == 0) by (nonlinear_arith);
    assert(b.x * (a.y * b.z - a.z * b.y) + b.y * (a.z * b.x - a.x * b.z) + b.z * (a.x * b.y - a.y
        * b.x) == 0) by (nonlinear_arith);
}

/// The dot product distributes over a sum in its first argument.
pub proof fn lemma_dot_of_sum(a: Vec3, b: Vec3, n: Vec3)
    ensures
        a.plus(b).dot(n) == a.dot(n) + b.dot(n),
{
    assert((a.x + b.x) * n.x == a.x * n.x + b.x * n.x) by (nonlinear_arith);
    assert((a.y + b.y) * n.y == a.y * n.y + b.y * n.y) by (nonlinear_arith);
    assert((a.z + b.z) * n.z == a.z * n.z + b.z * n.z) by (nonlinear_arith);
}

fn coordinate_in_range(c: i64) -> (b: bool)
    ensures
        b <==> -COORD_LIMIT <= c <= COORD_LIMIT,
{
    -COORD_LIMIT <= c && c <= COORD_LIMIT
}

fn point_in_range(p: &Point3) -> (b: bool)
    ensures
        b <==> p@.within(COORD_LIMIT as int),
{
    coordinate_in_range(p.x) && coordinate_in_range(p.y) && coordinate_in_range(p.z)
}

} // verus!
