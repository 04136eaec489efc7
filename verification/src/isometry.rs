//! The rigid motion that carries one plane onto another.
//!
//! The motion is anchored at the last of the three points: it turns about
//! the cross product of the two normals and then moves the last point of the
//! source onto the last point of the target. The other two points are not
//! fitted.

use vstd::prelude::*;
use crate::error::Error;
use crate::measurement::Measurement;
use crate::plane::{
    in_range, lemma_cross_bound, lemma_normal_bound, lemma_product_bound,
    lemma_reading_keeps_normal_z, lemma_shift_keeps_normal, normal_of, refusal, shifted,
    with_heights, Plane,
};
use crate::vector::{cross, dot, Point3, Vec3, Vector3};

verus! {

/// A rigid motion between two planes, described exactly.
#[derive(Clone, Copy, Debug, PartialEq, Eq, Structural)]
pub enum Isometry {
    /// The normals point the same way: no rotation, only this translation.
    Translation(Vector3),
    /// The normals differ. With `n1`, `n2` the normals of source and target,
    /// `axis` is `n1 x n2` and `dot` is `n1 . n2`, so that the angle between
    /// the normals has the cosine `dot / h` and the sine `|axis| / h`, where
    /// `h` is the square root of `|axis|^2 + dot^2`. The rotation is the one
    /// whose scaled axis is `(axis / h)` times that angle, and the
    /// translation is `target` minus the rotated `source`.
    Rotation { axis: Vector3, dot: i128, source: Point3, target: Point3 },
}

/// The cross product of the normals of two planes.
pub open spec fn axis_between(source: Seq<Vec3>, target: Seq<Vec3>) -> Vec3 {
    normal_of(source).cross(normal_of(target))
}

/// The dot product of the normals of two planes.
pub open spec fn dot_between(source: Seq<Vec3>, target: Seq<Vec3>) -> int {
    normal_of(source).dot(normal_of(target))
}

/// The vector from the last point of `source` to the last point of `target`.
pub open spec fn anchor_offset(source: Seq<Vec3>, target: Seq<Vec3>) -> Vec3 {
    target[2].minus(source[2])
}

/// The motion that carries the plane `source` onto the plane `target`.
///
/// Normals that point in opposite directions leave the axis of the rotation
/// undefined; such a pair is refused.
pub open spec fn isometry_between(source: Seq<Vec3>, target: Seq<Vec3>) -> Result<
    Isometry,
    Error,
> {
    if !axis_between(source, target).is_zero() {
        Ok(
            Isometry::Rotation {
                axis: axis_between(source, target).to_vector(),
                dot: dot_between(source, target) as i128,
                source: source[2].to_point(),
                target: target[2].to_point(),
            },
        )
    } else if dot_between(source, target) > 0 {
        Ok(Isometry::Translation(anchor_offset(source, target).to_vector()))
    } else {
        Err(Error::OpposedNormals)
    }
}

/// The points of a plane after a motion: moved by the translation, or the
/// reason why they are not given.
pub open spec fn applied(points: Seq<Vec3>, isometry: Isometry) -> Result<Seq<Vec3>, Error> {
    match isometry {
        Isometry::Translation(t) => if in_range(shifted(points, t@)) {
            Ok(shifted(points, t@))
        } else {
            Err(Error::OutOfRange)
        },
        Isometry::Rotation { .. } => Err(Error::RotationNotExact),
    }
}

impl Plane {
    /// The plane that the motion makes of `self`. A translation moves every
    /// point and keeps the normal; the result is refused when a moved point
    /// leaves the coordinate range. A rotation is not applied exactly.
    pub fn apply_isometry(&self, isometry: &Isometry) -> (r: Result<Plane, Error>)
        ensures
            match r {
                Ok(plane) => applied(self@, *isometry) == Ok::<Seq<Vec3>, Error>(plane@)
                    && plane.wf(),
                Err(e) => applied(self@, *isometry) == Err::<Seq<Vec3>, Error>(e),
            },
    {
        match isometry {
            Isometry::Translation(t) => self.translated(t),
            Isometry::Rotation { .. } => Err(Error::RotationNotExact),
        }
    }

    /// The motion that carries `self` onto `other`.
    pub fn isometry_from(&self, other: &Plane) -> (r: Result<Isometry, Error>)
        ensures
            r == isometry_between(self@, other@),
    {
        proof {
            use_type_invariant(self);
            use_type_invariant(other);
            lemma_normal_bound(self@);
            lemma_normal_bound(other@);
        }
        let n1 = self.normal();
        let n2 = other.normal();
        let axis = cross(&n1, &n2);
        let d = dot(&n1, &n2);
        let source = self.points()[2];
        let target = other.points()[2];
        if axis.x != 0 || axis.y != 0 || axis.z != 0 {
            Ok(Isometry::Rotation { axis, dot: d, source, target })
        } else if d > 0 {
            Ok(Isometry::Translation(target.offset_from(&source)))
        } else {
            Err(Error::OpposedNormals)
        }
    }
}

/// Lagrange's identity: `|a x b|^2 + (a . b)^2 = |a|^2 |b|^2`.
pub proof fn lemma_lagrange(a: Vec3, b: Vec3)
    ensures
        a.cross(b).dot(a.cross(b)) + a.dot(b) * a.dot(b) == a.dot(a) * b.dot(b),
{
    let (xx, xy, xz) = (a.x * b.x, a.x * b.y, a.x * b.z);
    let (yx, yy, yz) = (a.y * b.x, a.y * b.y, a.y * b.z);
    let (zx, zy, zz) = (a.z * b.x, a.z * b.y, a.z * b.z);
    // The mixed products of the two sides agree ...
    assert(yz * zy == yy * zz) by (nonlinear_arith)
        requires
            yz == a.y * b.z,
            zy == a.z * b.y,
            yy == a.y * b.y,
            zz == a.z * b.z,
    ;
    assert(zx * xz == xx * zz) by (nonlinear_arith)
        requires
            zx == a.z * b.x,
            xz == a.x * b.z,
            zz == a.z * b.z,
            xx == a.x * b.x,
    ;
    assert(xy * yx == xx * yy) by (nonlinear_arith)
        requires
            xy == a.x * b.y,
            yx == a.y * b.x,
            xx == a.x * b.x,
            yy == a.y * b.y,
    ;
    // ... so they cancel, and the squares of all nine products are left.
    lemma_square_of_difference(yz, zy);
    lemma_square_of_difference(zx, xz);
    lemma_square_of_difference(xy, yx);
    lemma_square_of_sum(xx, yy, zz);
    lemma_square_of_product(a.x, b.x);
    lemma_square_of_product(a.x, b.y);
    lemma_square_of_product(a.x, b.z);
    lemma_square_of_product(a.y, b.x);
    lemma_square_of_product(a.y, b.y);
    lemma_square_of_product(a.y, b.z);
    lemma_square_of_product(a.z, b.x);
    lemma_square_of_product(a.z, b.y);
    lemma_square_of_product(a.z, b.z);
    let (ax, ay, az) = (a.x * a.x, a.y * a.y, a.z * a.z);
    let (bx, by, bz) = (b.x * b.x, b.y * b.y, b.z * b.z);
    assert((ax + ay + az) * (bx + by + bz) == ax * bx + ax * by + ax * bz + ay * bx + ay * by + ay
        * bz + az * bx + az * by + az * bz) by (nonlinear_arith);
}

proof fn lemma_square_of_difference(u: int, v: int)
    ensures
        (u - v) * (u - v) == u * u - 2 * (u * v) + v * v,
{
    assert((u - v) * (u - v) == u * u - 2 * (u * v) + v * v) by (nonlinear_arith);
}

proof fn lemma_square_of_sum(u: int, v: int, w: int)
    ensures
        (u + v + w) * (u + v + w) == u * u + v * v + w * w + 2 * (u * v) + 2 * (u * w) + 2 * (v
            * w),
{
    assert((u + v + w) * (u + v + w) == u * u + v * v + w * w + 2 * (u * v) + 2 * (u * w) + 2 * (v
        * w)) by (nonlinear_arith);
}

/// The square of a product is the product of the squares.
proof fn lemma_square_of_product(a: int, b: int)
    ensures
        (a * b) * (a * b) == (a * a) * (b * b),
{
    assert((a * b) * (a * b) == (a * a) * (b * b)) by (nonlinear_arith);
}

/// A vector other than zero has a positive square.
pub proof fn lemma_square_is_positive(a: Vec3)
    requires
        !a.is_zero(),
    ensures
        a.dot(a) > 0,
{
    assert(a.x * a.x >= 0 && a.y * a.y >= 0 && a.z * a.z >= 0) by (nonlinear_arith);
    assert(a.x != 0 ==> a.x * a.x > 0) by (nonlinear_arith);
    assert(a.y != 0 ==> a.y * a.y > 0) by (nonlinear_arith);
    assert(a.z != 0 ==> a.z * a.z > 0) by (nonlinear_arith);
}

/// Two vectors other than zero whose cross product is zero point the same
/// way or in opposite directions: their dot product is not zero.
pub proof fn lemma_aligned_is_not_orthogonal(a: Vec3, b: Vec3)
    requires
        !a.is_zero(),
        !b.is_zero(),
        a.cross(b).is_zero(),
    ensures
        a.dot(b) != 0,
{
    lemma_lagrange(a, b);
    lemma_square_is_positive(a);
    lemma_square_is_positive(b);
    let d = a.dot(b);
    let aa = a.dot(a);
    let bb = b.dot(b);
    assert(aa * bb > 0) by (nonlinear_arith)
        requires
            aa > 0,
            bb > 0,
    ;
    assert(d == 0 ==> d * d == 0) by (nonlinear_arith);
}

/// A pair of planes is refused exactly when the normals are aligned and
/// point in opposite directions.
pub proof fn lemma_refused_means_opposed(source: Seq<Vec3>, target: Seq<Vec3>)
    requires
        refusal(source) is None,
        refusal(target) is None,
    ensures
        isometry_between(source, target) is Err <==> axis_between(source, target).is_zero()
            && dot_between(source, target) < 0,
{
    if axis_between(source, target).is_zero() {
        lemma_aligned_is_not_orthogonal(normal_of(source), normal_of(target));
    }
}

/// What [`Plane::isometry_from`] returns holds the exact values: no
/// component is cut to fit its type.
pub proof fn lemma_isometry_is_exact(source: Seq<Vec3>, target: Seq<Vec3>)
    requires
        refusal(source) is None,
        refusal(target) is None,
    ensures
        match isometry_between(source, target) {
            Ok(Isometry::Translation(t)) => t@ == anchor_offset(source, target),
            Ok(Isometry::Rotation { axis, dot, source: from, target: to }) => {
                &&& axis@ == axis_between(source, target)
                &&& dot == dot_between(source, target)
                &&& from@ == source[2]
                &&& to@ == target[2]
            },
            Err(_) => true,
        },
{
    lemma_normal_bound(source);
    lemma_normal_bound(target);
    let n1 = normal_of(source);
    let n2 = normal_of(target);
    let bound = 0x2000_0000_0000_0000int;
    lemma_cross_bound(n1, n2, bound);
    lemma_product_bound(n1.x, n2.x, bound, bound);
    lemma_product_bound(n1.y, n2.y, bound, bound);
    lemma_product_bound(n1.z, n2.z, bound, bound);
    assert(bound * bound == 0x400_0000_0000_0000_0000_0000_0000_0000) by (nonlinear_arith)
        requires
            bound == 0x2000_0000_0000_0000,
    ;
}

/// The motion from a plane onto itself is the identity: no rotation and a
/// translation by zero.
pub proof fn lemma_isometry_onto_itself(plane: Seq<Vec3>)
    requires
        refusal(plane) is None,
    ensures
        isometry_between(plane, plane) == Ok::<Isometry, Error>(
            Isometry::Translation(Vector3 { x: 0, y: 0, z: 0 }),
        ),
{
    lemma_isometry_onto_shifted(plane, Vec3::zero());
    assert(plane[2].plus(Vec3::zero()).minus(plane[2]) == Vec3::zero());
}

/// The motion from a plane onto the same plane moved by `offset` has no
/// rotation, and its translation is `offset`. In particular, raising all
/// three heights by one amount gives the translation by that amount along Z.
pub proof fn lemma_isometry_onto_shifted(plane: Seq<Vec3>, offset: Vec3)
    requires
        refusal(plane) is None,
    ensures
        isometry_between(plane, shifted(plane, offset)) == Ok::<Isometry, Error>(
            Isometry::Translation(offset.to_vector()),
        ),
{
    let moved = shifted(plane, offset);
    lemma_shift_keeps_normal(plane, offset);
    let n = normal_of(plane);
    assert(n.cross(n).is_zero()) by (nonlinear_arith);
    lemma_square_is_positive(n);
    assert(moved[2].minus(plane[2]) == offset);
}

/// Raising the three heights of a reading by one amount `delta` is a motion
/// without rotation, whose translation is `delta` along Z.
pub proof fn lemma_isometry_onto_raised_reading(
    plane: Seq<Vec3>,
    low: Measurement,
    high: Measurement,
    delta: int,
)
    requires
        refusal(with_heights(plane, low)) is None,
        high.0 == low.0 + delta,
        high.1 == low.1 + delta,
        high.2 == low.2 + delta,
    ensures
        isometry_between(
            with_heights(plane, low),
            with_heights(plane, high),
        ) == Ok::<Isometry, Error>(
            Isometry::Translation(Vec3 { x: 0, y: 0, z: delta }.to_vector()),
        ),
{
    let source = with_heights(plane, low);
    let offset = Vec3 { x: 0, y: 0, z: delta };
    lemma_isometry_onto_shifted(source, offset);
    assert(shifted(source, offset) == with_heights(plane, high));
}

/// The anchoring of a motion without rotation: applied to the source, it
/// reproduces the last point of the target exactly.
pub proof fn lemma_translation_meets_anchor(source: Seq<Vec3>, target: Seq<Vec3>)
    requires
        refusal(source) is None,
        refusal(target) is None,
        isometry_between(source, target) matches Ok(Isometry::Translation(_)),
    ensures
        isometry_between(source, target) matches Ok(motion) && (applied(source, motion) matches Ok(
            moved,
        ) ==> moved[2] == target[2]),
{
    lemma_isometry_is_exact(source, target);
}

/// Measuring the motion that a translation has made gives that translation
/// back: from a plane onto what the translation makes of it, the motion is
/// the translation.
pub proof fn lemma_applied_translation_is_measured(plane: Seq<Vec3>, t: Vector3)
    requires
        refusal(plane) is None,
        applied(plane, Isometry::Translation(t)) is Ok,
    ensures
        applied(plane, Isometry::Translation(t)) matches Ok(moved) && isometry_between(
            plane,
            moved,
        ) == Ok::<Isometry, Error>(Isometry::Translation(t)),
{
    lemma_isometry_onto_shifted(plane, t@);
}

/// Two readings of one plane whose normal is not horizontal are never
/// refused: their normals cannot point in opposite directions.
pub proof fn lemma_readings_are_never_opposed(
    plane: Seq<Vec3>,
    first: Measurement,
    second: Measurement,
)
    requires
        normal_of(plane).z != 0,
    ensures
        isometry_between(
            with_heights(plane, first),
            with_heights(plane, second),
        ) is Ok,
{
    let source = with_heights(plane, first);
    let target = with_heights(plane, second);
    lemma_reading_keeps_normal_z(plane, first);
    lemma_reading_keeps_normal_z(plane, second);
    let n1 = normal_of(source);
    let n2 = normal_of(target);
    let z = normal_of(plane).z;
    if n1.cross(n2).is_zero() {
        // The X and Y components of the cross product vanish, and the Z
        // components of the normals agree: the normals are equal.
        assert(n1.y * z - z * n2.y == 0);
        assert(z * n2.x - n1.x * z == 0);
        assert(n1.y == n2.y) by (nonlinear_arith)
            requires
                n1.y * z - z * n2.y == 0,
                z != 0,
        ;
        assert(n1.x == n2.x) by (nonlinear_arith)
            requires
                z * n2.x - n1.x * z == 0,
                z != 0,
        ;
        assert(n1 == n2);
        lemma_square_is_positive(n1);
    }
}

} // verus!
