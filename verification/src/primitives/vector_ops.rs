//! What vectors of two and of three components have in common.
use vstd::prelude::*;
use crate::scalar::Scalar;
use crate::primitives::float2::Float2;
use crate::primitives::float3::Float3;

verus! {

/// The operations that rest on the dot product, for vectors of any number
/// of components.
pub trait VectorOps: Sized + Copy {
    spec fn spec_zero() -> Self;

    spec fn spec_dot(self, rhs: Self) -> Scalar;

    spec fn spec_cross(self, rhs: Self) -> Self;

    spec fn spec_length(self) -> Scalar;

    spec fn spec_normalized(self) -> Self;

    spec fn spec_lerp(self, rhs: Self, t: Scalar) -> Self;

    spec fn spec_distance(lhs: Self, rhs: Self) -> Scalar;

    /// The vector of zeros.
    fn zero() -> (r: Self)
        ensures
            r == Self::spec_zero(),
    ;

    /// Sum of the products of matching components.
    fn dot(self, rhs: Self) -> (r: Scalar)
        ensures
            r == self.spec_dot(rhs),
    ;

    /// Cross product.
    fn cross(self, rhs: Self) -> (r: Self)
        ensures
            r == self.spec_cross(rhs),
    ;

    /// The dot product of the vector with itself.
    fn sqr_magnitude(self) -> (r: Scalar)
        ensures
            r == self.spec_dot(self),
    ;

    /// Length.
    fn length(self) -> (r: Scalar)
        ensures
            r == self.spec_length(),
    ;

    /// The vector divided by its length; the zero vector where the length
    /// is zero.
    fn normalized(self) -> (r: Self)
        ensures
            r == self.spec_normalized(),
    ;

    /// Interpolates from `self` at `t = 0` to `rhs` at `t = 1`; `t` is
    /// limited to `[0, 1]` first.
    fn lerp(self, rhs: Self, t: Scalar) -> (r: Self)
        ensures
            r == self.spec_lerp(rhs, t),
    ;

    /// Whether two vectors are less than `eps` apart.
    fn approx_eq(lhs: Self, rhs: Self, eps: Scalar) -> (r: bool)
        ensures
            r == (Self::spec_distance(lhs, rhs).raw < eps.raw),
    ;
}

impl VectorOps for Float2 {
    open spec fn spec_zero() -> Float2 {
        Float2::zero_spec()
    }

    open spec fn spec_dot(self, rhs: Float2) -> Scalar {
        self.dot_spec(rhs)
    }

    open spec fn spec_cross(self, rhs: Float2) -> Float2 {
        self.cross_spec(rhs)
    }

    open spec fn spec_length(self) -> Scalar {
        self.length_spec()
    }

    open spec fn spec_normalized(self) -> Float2 {
        self.normalized_spec()
    }

    open spec fn spec_lerp(self, rhs: Float2, t: Scalar) -> Float2 {
        self.lerp_spec(rhs, t)
    }

    open spec fn spec_distance(lhs: Float2, rhs: Float2) -> Scalar {
        lhs.sub_spec(rhs).length_spec()
    }

    fn zero() -> (r: Float2) {
        Float2::zero()
    }

    fn dot(self, rhs: Float2) -> (r: Scalar) {
        Float2::dot(self, rhs)
    }

    fn cross(self, rhs: Float2) -> (r: Float2) {
        Float2::cross(self, rhs)
    }

    fn sqr_magnitude(self) -> (r: Scalar) {
        Float2::sqr_magnitude(self)
    }

    fn length(self) -> (r: Scalar) {
        Float2::length(self)
    }

    fn normalized(self) -> (r: Float2) {
        Float2::normalized(self)
    }

    fn lerp(self, rhs: Float2, t: Scalar) -> (r: Float2) {
        Float2::lerp(self, rhs, t)
    }

    fn approx_eq(lhs: Float2, rhs: Float2, eps: Scalar) -> (r: bool) {
        Float2::approx_eq(lhs, rhs, eps)
    }
}

impl VectorOps for Float3 {
    open spec fn spec_zero() -> Float3 {
        Float3::zero_spec()
    }

    open spec fn spec_dot(self, rhs: Float3) -> Scalar {
        self.dot_spec(rhs)
    }

    open spec fn spec_cross(self, rhs: Float3) -> Float3 {
        self.cross_spec(rhs)
    }

    open spec fn spec_length(self) -> Scalar {
        self.length_spec()
    }

    open spec fn spec_normalized(self) -> Float3 {
        self.normalized_spec()
    }

    open spec fn spec_lerp(self, rhs: Float3, t: Scalar) -> Float3 {
        self.lerp_spec(rhs, t)
    }

    open spec fn spec_distance(lhs: Float3, rhs: Float3) -> Scalar {
        lhs.sub_spec(rhs).length_spec()
    }

    fn zero() -> (r: Float3) {
        Float3::zero()
    }

    fn dot(self, rhs: Float3) -> (r: Scalar) {
        Float3::dot(self, rhs)
    }

    fn cross(self, rhs: Float3) -> (r: Float3) {
        Float3::cross(self, rhs)
    }

    fn sqr_magnitude(self) -> (r: Scalar) {
        Float3::sqr_magnitude(self)
    }

    fn length(self) -> (r: Scalar) {
        Float3::length(self)
    }

    fn normalized(self) -> (r: Float3) {
        Float3::normalized(self)
    }

    fn lerp(self, rhs: Float3, t: Scalar) -> (r: Float3) {
        Float3::lerp(self, rhs, t)
    }

    fn approx_eq(lhs: Float3, rhs: Float3, eps: Scalar) -> (r: bool) {
        Float3::approx_eq(lhs, rhs, eps)
    }
}

} // verus!
