//! Points and directions in the plane.
use vstd::prelude::*;
use crate::scalar::Scalar;
use crate::primitives::float3::Float3;

verus! {

/// A pair of scalars: a screen position, a texture coordinate, a direction.
#[derive(Clone, Copy, Debug, PartialEq, Eq, Structural)]
pub struct Float2 {
    pub x: Scalar,
    pub y: Scalar,
}

impl Float2 {
    pub open spec fn new_spec(x: Scalar, y: Scalar) -> Float2 {
        Float2 { x, y }
    }

    pub open spec fn zero_spec() -> Float2 {
        Float2 { x: Scalar::zero(), y: Scalar::zero() }
    }

    pub open spec fn one_spec() -> Float2 {
        Float2 { x: Scalar::one(), y: Scalar::one() }
    }

    pub open spec fn add_spec(self, rhs: Float2) -> Float2 {
        Float2 { x: self.x.add(rhs.x), y: self.y.add(rhs.y) }
    }

    pub open spec fn sub_spec(self, rhs: Float2) -> Float2 {
        Float2 { x: self.x.sub(rhs.x), y: self.y.sub(rhs.y) }
    }

    pub open spec fn mul_spec(self, rhs: Float2) -> Float2 {
        Float2 { x: self.x.mul(rhs.x), y: self.y.mul(rhs.y) }
    }

    pub open spec fn div_spec(self, rhs: Float2) -> Float2 {
        Float2 { x: self.x.div(rhs.x), y: self.y.div(rhs.y) }
    }

    pub open spec fn scale_spec(self, k: Scalar) -> Float2 {
        Float2 { x: self.x.mul(k), y: self.y.mul(k) }
    }

    pub open spec fn shrink_spec(self, k: Scalar) -> Float2 {
        Float2 { x: self.x.div(k), y: self.y.div(k) }
    }

    pub open spec fn dot_spec(self, rhs: Float2) -> Scalar {
        self.x.mul(rhs.x).add(self.y.mul(rhs.y))
    }

    pub open spec fn sqr_magnitude_spec(self) -> Scalar {
        self.dot_spec(self)
    }

    /// Square root of the exact sum of the squared components.
    pub open spec fn length_spec(self) -> Scalar {
        Scalar::norm(self.x, self.y, Scalar::zero(), Scalar::zero())
    }

    pub open spec fn normalized_spec(self) -> Float2 {
        let len = self.length_spec();
        if len.raw == 0 {
            Float2::zero_spec()
        } else {
            self.shrink_spec(len)
        }
    }

    pub open spec fn lerp_spec(self, rhs: Float2, t: Scalar) -> Float2 {
        let t = t.clamp(Scalar::zero(), Scalar::one());
        self.add_spec(rhs.sub_spec(self).scale_spec(t))
    }

    pub open spec fn approx_eq_spec(lhs: Float2, rhs: Float2, eps: Scalar) -> bool {
        lhs.sub_spec(rhs).length_spec().raw < eps.raw
    }

    pub open spec fn floor_spec(self) -> Float2 {
        Float2 { x: self.x.floor(), y: self.y.floor() }
    }

    /// Twice the signed area of the triangle `a`, `b`, `c`: positive when
    /// the three points turn clockwise in a frame whose second axis points
    /// up, which is counter-clockwise on a screen whose rows grow downward.
    pub open spec fn signed_area_spec(a: Float2, b: Float2, c: Float2) -> Scalar {
        c.x.sub(a.x).mul(b.y.sub(a.y)).add(c.y.sub(a.y).mul(a.x.sub(b.x)))
    }

    /// The vector turned a quarter turn: `(-y, x)`.
    pub open spec fn perpendicular_spec(self) -> Float2 {
        Float2 { x: self.y.neg(), y: self.x }
    }

    /// The two-dimensional cross product of `self` and `rhs` and its
    /// opposite, as the two components of a vector.
    pub open spec fn cross_spec(self, rhs: Float2) -> Float2 {
        Float2 {
            x: self.x.mul(rhs.y).sub(self.y.mul(rhs.x)),
            y: self.y.mul(rhs.x).sub(self.x.mul(rhs.y)),
        }
    }

    /// Whether `self` lies on the side of the line from `a` to `b` that the
    /// perpendicular of the line points to, the line itself included.
    pub open spec fn right_side_spec(self, a: Float2, b: Float2) -> bool {
        b.sub_spec(a).perpendicular_spec().dot_spec(self.sub_spec(a)).raw >= 0
    }

    /// Whether `self` lies on the same side of all three edges of the
    /// triangle `a`, `b`, `c`.
    pub open spec fn in_triangle_spec(self, a: Float2, b: Float2, c: Float2) -> bool {
        self.right_side_spec(a, b) == self.right_side_spec(b, c) && self.right_side_spec(b, c)
            == self.right_side_spec(c, a)
    }

    pub open spec fn get_spec(self, i: usize) -> Scalar {
        if i == 0 {
            self.x
        } else {
            self.y
        }
    }

    #[verifier::when_used_as_spec(new_spec)]
    pub fn new(x: Scalar, y: Scalar) -> (r: Float2)
        ensures
            r == Float2::new_spec(x, y),
    {
        Float2 { x, y }
    }

    /// The origin.
    #[verifier::when_used_as_spec(zero_spec)]
    pub fn zero() -> (r: Float2)
        ensures
            r == Float2::zero_spec(),
    {
        Float2 { x: Scalar::zero(), y: Scalar::zero() }
    }

    /// The point `(1, 1)`.
    #[verifier::when_used_as_spec(one_spec)]
    pub fn one() -> (r: Float2)
        ensures
            r == Float2::one_spec(),
    {
        Float2 { x: Scalar::one(), y: Scalar::one() }
    }

    /// The unit vector along the first axis.
    pub fn right() -> (r: Float2)
        ensures
            r == Float2::new_spec(Scalar::one(), Scalar::zero()),
    {
        Float2 { x: Scalar::one(), y: Scalar::zero() }
    }

    /// The unit vector along the second axis.
    pub fn up() -> (r: Float2)
        ensures
            r == Float2::new_spec(Scalar::zero(), Scalar::one()),
    {
        Float2 { x: Scalar::zero(), y: Scalar::one() }
    }

    /// Drops the third component of a vector in space.
    pub fn from_float3(v: Float3) -> (r: Float2)
        ensures
            r == Float2::new_spec(v.x, v.y),
    {
        Float2 { x: v.x, y: v.y }
    }

    /// Component-wise sum.
    #[verifier::when_used_as_spec(add_spec)]
    pub fn add(self, rhs: Float2) -> (r: Float2)
        ensures
            r == self.add_spec(rhs),
    {
        Float2 { x: self.x.add(rhs.x), y: self.y.add(rhs.y) }
    }

    /// Component-wise difference.
    #[verifier::when_used_as_spec(sub_spec)]
    pub fn sub(self, rhs: Float2) -> (r: Float2)
        ensures
            r == self.sub_spec(rhs),
    {
        Float2 { x: self.x.sub(rhs.x), y: self.y.sub(rhs.y) }
    }

    /// Component-wise product.
    #[verifier::when_used_as_spec(mul_spec)]
    pub fn mul(self, rhs: Float2) -> (r: Float2)
        ensures
            r == self.mul_spec(rhs),
    {
        Float2 { x: self.x.mul(rhs.x), y: self.y.mul(rhs.y) }
    }

    /// Component-wise quotient.
    #[verifier::when_used_as_spec(div_spec)]
    pub fn div(self, rhs: Float2) -> (r: Float2)
        ensures
            r == self.div_spec(rhs),
    {
        Float2 { x: self.x.div(rhs.x), y: self.y.div(rhs.y) }
    }

    /// Every component multiplied by `k`.
    #[verifier::when_used_as_spec(scale_spec)]
    pub fn scale(self, k: Scalar) -> (r: Float2)
        ensures
            r == self.scale_spec(k),
    {
        Float2 { x: self.x.mul(k), y: self.y.mul(k) }
    }

    /// Every component divided by `k`.
    #[verifier::when_used_as_spec(shrink_spec)]
    pub fn shrink(self, k: Scalar) -> (r: Float2)
        ensures
            r == self.shrink_spec(k),
    {
        Float2 { x: self.x.div(k), y: self.y.div(k) }
    }

    /// Dot product.
    #[verifier::when_used_as_spec(dot_spec)]
    pub fn dot(self, rhs: Float2) -> (r: Scalar)
        ensures
            r == self.dot_spec(rhs),
    {
        self.x.mul(rhs.x).add(self.y.mul(rhs.y))
    }

    /// Squared length.
    #[verifier::when_used_as_spec(sqr_magnitude_spec)]
    pub fn sqr_magnitude(self) -> (r: Scalar)
        ensures
            r == self.sqr_magnitude_spec(),
    {
        self.dot(self)
    }

    /// Length.
    #[verifier::when_used_as_spec(length_spec)]
    pub fn length(self) -> (r: Scalar)
        ensures
            r == self.length_spec(),
    {
        Scalar::norm(self.x, self.y, Scalar::zero(), Scalar::zero())
    }

    /// The vector divided by its length; the zero vector where the length
    /// is zero.
    #[verifier::when_used_as_spec(normalized_spec)]
    pub fn normalized(self) -> (r: Float2)
        ensures
            r == self.normalized_spec(),
    {
        let len = self.length();
        if len.raw == 0 {
            Float2::zero()
        } else {
            self.shrink(len)
        }
    }

    /// Interpolates from `self` at `t = 0` to `rhs` at `t = 1`; `t` is limited
    /// to `[0, 1]` first.
    #[verifier::when_used_as_spec(lerp_spec)]
    pub fn lerp(self, rhs: Float2, t: Scalar) -> (r: Float2)
        ensures
            r == self.lerp_spec(rhs, t),
    {
        let t = t.clamp(Scalar::zero(), Scalar::one());
        self.add(rhs.sub(self).scale(t))
    }

    /// Whether two vectors are less than `eps` apart.
    #[verifier::when_used_as_spec(approx_eq_spec)]
    pub fn approx_eq(lhs: Float2, rhs: Float2, eps: Scalar) -> (r: bool)
        ensures
            r == Float2::approx_eq_spec(lhs, rhs, eps),
    {
        lhs.sub(rhs).length().raw < eps.raw
    }

    /// Both components rounded down to whole numbers.
    #[verifier::when_used_as_spec(floor_spec)]
    pub fn floor(self) -> (r: Float2)
        ensures
            r == self.floor_spec(),
    {
        Float2 { x: self.x.floor(), y: self.y.floor() }
    }

    /// Twice the signed area of the triangle `a`, `b`, `c`.
    #[verifier::when_used_as_spec(signed_area_spec)]
    pub fn signed_area(a: Float2, b: Float2, c: Float2) -> (r: Scalar)
        ensures
            r == Float2::signed_area_spec(a, b, c),
    {
        c.x.sub(a.x).mul(b.y.sub(a.y)).add(c.y.sub(a.y).mul(a.x.sub(b.x)))
    }

    /// The vector turned a quarter turn: `(-y, x)`.
    #[verifier::when_used_as_spec(perpendicular_spec)]
    pub fn perpendicular(self) -> (r: Float2)
        ensures
            r == self.perpendicular_spec(),
    {
        Float2 { x: self.y.neg(), y: self.x }
    }

    /// The two-dimensional cross product of `self` and `rhs` and its
    /// opposite, as the two components of a vector.
    #[verifier::when_used_as_spec(cross_spec)]
    pub fn cross(self, rhs: Float2) -> (r: Float2)
        ensures
            r == self.cross_spec(rhs),
    {
        Float2 {
            x: self.x.mul(rhs.y).sub(self.y.mul(rhs.x)),
            y: self.y.mul(rhs.x).sub(self.x.mul(rhs.y)),
        }
    }

    /// Whether `self` lies on the side of the line from `a` to `b` that the
    /// perpendicular of the line points to, the line itself included.
    #[verifier::when_used_as_spec(right_side_spec)]
    pub fn right_side(self, a: Float2, b: Float2) -> (r: bool)
        ensures
            r == self.right_side_spec(a, b),
    {
        let abperp = b.sub(a).perpendicular();
        let ap = self.sub(a);
        abperp.dot(ap).raw >= 0
    }

    /// Whether `self` lies inside the triangle `a`, `b`, `c`, whichever way
    /// it is wound: on the same side of all three edges.
    #[verifier::when_used_as_spec(in_triangle_spec)]
    pub fn in_triangle(self, a: Float2, b: Float2, c: Float2) -> (r: bool)
        ensures
            r == self.in_triangle_spec(a, b, c),
    {
        let sideab = self.right_side(a, b);
        let sidebc = self.right_side(b, c);
        let sideca = self.right_side(c, a);
        sideab == sidebc && sidebc == sideca
    }

    /// Component `i`: 0 is `x`, 1 is `y`.
    #[verifier::when_used_as_spec(get_spec)]
    pub fn get(self, i: usize) -> (r: Scalar)
        requires
            i < 2,
        ensures
            r == self.get_spec(i),
    {
        if i == 0 {
            self.x
        } else {
            self.y
        }
    }

    /// Replaces component `i`: 0 is `x`, 1 is `y`.
    pub fn set(&mut self, i: usize, v: Scalar)
        requires
            i < 2,
        ensures
            final(self).get_spec(i) == v,
            forall|j: usize| j < 2 && j != i ==> final(self).get_spec(j) == old(self).get_spec(j),
    {
        if i == 0 {
            self.x = v;
        } else {
            self.y = v;
        }
    }
}

} // verus!
