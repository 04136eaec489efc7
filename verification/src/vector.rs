//! Points and vectors with integer coordinates, and their mathematical model.

use vstd::prelude::*;

verus! {

/// Largest magnitude of a component for which [`cross`] and [`dot`] are
/// free of overflow: two to the power 62.
pub const PRODUCT_LIMIT: i128 = 4_611_686_018_427_387_904;

/// A vector of three mathematical integers: the model of [`Point3`] and
/// [`Vector3`].
pub struct Vec3 {
    pub x: int,
    pub y: int,
    pub z: int,
}

impl Vec3 {
    /// The vector of no length.
    pub open spec fn zero() -> Vec3 {
        Vec3 { x: 0, y: 0, z: 0 }
    }

    /// All three components are zero.
    pub open spec fn is_zero(self) -> bool {
        self.x == 0 && self.y == 0 && self.z == 0
    }

    /// The sum, component by component.
    pub open spec fn plus(self, other: Vec3) -> Vec3 {
        Vec3 { x: self.x + other.x, y: self.y + other.y, z: self.z + other.z }
    }

    /// The difference, component by component.
    pub open spec fn minus(self, other: Vec3) -> Vec3 {
        Vec3 { x: self.x - other.x, y: self.y - other.y, z: self.z - other.z }
    }

    /// The right-handed cross product.
    pub open spec fn cross(self, other: Vec3) -> Vec3 {
        Vec3 {
            x: self.y * other.z - self.z * other.y,
            y: self.z * other.x - self.x * other.z,
            z: self.x * other.y - self.y * other.x,
        }
    }

    /// The dot product.
    pub open spec fn dot(self, other: Vec3) -> int {
        self.x * other.x + self.y * other.y + self.z * other.z
    }

    /// Every component lies in `-limit ..= limit`.
    pub open spec fn within(self, limit: int) -> bool {
        &&& -limit <= self.x <= limit
        &&& -limit <= self.y <= limit
        &&& -limit <= self.z <= limit
    }
}

/// A position in the XY plane.
#[derive(Clone, Copy, Debug, PartialEq, Eq, Structural)]
pub struct Point2 {
    pub x: i64,
    pub y: i64,
}

/// A position in space.
#[derive(Clone, Copy, Debug, PartialEq, Eq, Structural)]
pub struct Point3 {
    pub x: i64,
    pub y: i64,
    pub z: i64,
}

/// A displacement or direction in space.
#[derive(Clone, Copy, Debug, PartialEq, Eq, Structural)]
pub struct Vector3 {
    pub x: i128,
    pub y: i128,
    pub z: i128,
}

impl View for Point3 {
    type V = Vec3;

    open spec fn view(&self) -> Vec3 {
        Vec3 { x: self.x as int, y: self.y as int, z: self.z as int }
    }
}

impl View for Vector3 {
    type V = Vec3;

    open spec fn view(&self) -> Vec3 {
        Vec3 { x: self.x as int, y: self.y as int, z: self.z as int }
    }
}

impl Vec3 {
    /// The vector with these components, which must fit in an `i128`.
    pub open spec fn to_vector(self) -> Vector3 {
        Vector3 { x: self.x as i128, y: self.y as i128, z: self.z as i128 }
    }

    /// The point with these coordinates, which must fit in an `i64`.
    pub open spec fn to_point(self) -> Point3 {
        Point3 { x: self.x as i64, y: self.y as i64, z: self.z as i64 }
    }
}

impl Point3 {
    /// The vector that leads from `origin` to `self`.
    pub fn offset_from(&self, origin: &Point3) -> (r: Vector3)
        ensures
            r@ == self@.minus(origin@),
    {
        Vector3 {
            x: self.x as i128 - origin.x as i128,
            y: self.y as i128 - origin.y as i128,
            z: self.z as i128 - origin.z as i128,
        }
    }
}

/// Calls `Matrix::cross` of nalgebra on two column vectors of `i128`. For
/// three rows that method returns `(ay*bz - az*by, az*bx - ax*bz, ax*by -
/// ay*bx)`, computed in `i128`; within the limit no product or difference
/// leaves that type.
#[verifier::external_body]
pub(crate) fn cross(a: &Vector3, b: &Vector3) -> (r: Vector3)
    requires
        a@.within(PRODUCT_LIMIT as int),
        b@.within(PRODUCT_LIMIT as int),
    ensures
        r@ == a@.cross(b@),
{
    let c = nalgebra::Vector3::new(a.x, a.y, a.z).cross(&nalgebra::Vector3::new(b.x, b.y, b.z));
    Vector3 { x: c.x, y: c.y, z: c.z }
}

/// Calls `Matrix::dot` of nalgebra on two column vectors of `i128`. For three
/// rows that method returns `ax*bx + ay*by + az*bz`, summed from the left in
/// `i128`; within the limit no product or partial sum leaves that type.
#[verifier::external_body]
pub(crate) fn dot(a: &Vector3, b: &Vector3) -> (r: i128)
    requires
        a@.within(PRODUCT_LIMIT as int),
        b@.within(PRODUCT_LIMIT as int),
    ensures
        r == a@.dot(b@),
{
    nalgebra::Vector3::new(a.x, a.y, a.z).dot(&nalgebra::Vector3::new(b.x, b.y, b.z))
}

} // verus!
