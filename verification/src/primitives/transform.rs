//! Placement in space: scale, then rotation, then translation.
use vstd::prelude::*;
use crate::scalar::{
    lemma_mul_near_one, lemma_mul_one, lemma_reciprocal_times_self, Scalar, ONE_RAW,
};
use crate::primitives::float3::Float3;
use crate::primitives::quaternion::{
    can_turn, lemma_conjugate_twice, lemma_mul_inverse_is_identity, lemma_rotate_by_identity,
    lemma_rotate_is_odd, Quaternion, QuaternionParts,
};
use crate::primitives::triangle::Tri;

verus! {

/// A transform as plain values: what [`Transform`] holds, with the rotation
/// as its four parts.
#[derive(Clone, Copy, Debug, PartialEq, Eq, Structural)]
pub struct TransformParts {
    pub position: Float3,
    pub scale: Float3,
    pub rotation: QuaternionParts,
}

impl TransformParts {
    pub open spec fn identity() -> TransformParts {
        TransformParts {
            position: Float3::zero(),
            scale: Float3::one(),
            rotation: QuaternionParts::identity(),
        }
    }

    /// Whether no axis is scaled by zero.
    pub open spec fn invertible(self) -> bool {
        self.scale.x.raw != 0 && self.scale.y.raw != 0 && self.scale.z.raw != 0
    }

    /// `rotate(p · scale) + position`.
    pub open spec fn apply(self, p: Float3) -> Float3 {
        self.rotation.rotate(p.mul(self.scale)).add(self.position)
    }

    /// `rotate⁻¹(p − position) / scale`.
    pub open spec fn apply_inv(self, p: Float3) -> Float3 {
        self.rotation.conjugate().rotate(p.sub(self.position)).div(self.scale)
    }

    /// The transform with the opposite rotation, the reciprocal scale and
    /// the position that sends this transform's position to the origin.
    pub open spec fn inverse(self) -> TransformParts {
        let inv_rotation = self.rotation.conjugate();
        let inv_scale = Float3::one().div(self.scale);
        TransformParts {
            position: inv_rotation.rotate(self.position.mul(inv_scale).neg()),
            scale: inv_scale,
            rotation: inv_rotation,
        }
    }

    /// The transform that applies `local` in the space of `self`.
    pub open spec fn compose(self, local: TransformParts) -> TransformParts {
        TransformParts {
            position: self.rotation.rotate(local.position.mul(self.scale)).add(self.position),
            scale: self.scale.mul(local.scale),
            rotation: self.rotation.mul(local.rotation).normalized(),
        }
    }
}

/// A transform with a zero scale component has no inverse.
#[derive(Clone, Copy, Debug, PartialEq, Eq, Structural)]
pub struct NonInvertibleError {}

/// Position, per-axis scale and rotation of one frame in another.
#[derive(Clone, Copy, Debug)]
pub struct Transform {
    pub position: Float3,
    pub scale: Float3,
    pub rotation: Quaternion,
}

impl View for Transform {
    type V = TransformParts;

    open spec fn view(&self) -> TransformParts {
        TransformParts { position: self.position, scale: self.scale, rotation: self.rotation@ }
    }
}

impl Default for Transform {
    /// The identity transform.
    fn default() -> (r: Transform)
        ensures
            r@ == TransformParts::identity(),
    {
        Transform {
            position: Float3::zero(),
            scale: Float3::one(),
            rotation: Quaternion::identity(),
        }
    }
}

impl Transform {
    /// The transform that only rotates.
    pub fn from_rotation(rotation: Quaternion) -> (r: Transform)
        ensures
            r@ == (TransformParts {
                position: Float3::zero(),
                scale: Float3::one(),
                rotation: rotation@,
            }),
    {
        Transform { position: Float3::zero(), scale: Float3::one(), rotation }
    }

    /// The inverse transform, or an error where a scale component is zero.
    pub fn inverse(&self) -> (r: Result<Transform, NonInvertibleError>)
        ensures
            r.is_ok() == self@.invertible(),
            r matches Ok(t) ==> t@ == self@.inverse(),
    {
        if self.scale.x.raw == 0 || self.scale.y.raw == 0 || self.scale.z.raw == 0 {
            return Err(NonInvertibleError {});
        }
        let inv_rotation = self.rotation.inverse();
        let inv_scale = Float3::one().div(self.scale);
        let inv_position = inv_rotation.rotate(self.position.mul(inv_scale).neg());
        Ok(Transform { rotation: inv_rotation, scale: inv_scale, position: inv_position })
    }

    /// The point `p` of this frame, in the outer frame.
    pub fn apply(&self, p: Float3) -> (r: Float3)
        ensures
            r == self@.apply(p),
    {
        self.rotation.rotate(p.mul(self.scale)).add(self.position)
    }

    /// The point `p` of the outer frame, in this frame; an error where a
    /// scale component is zero.
    pub fn apply_inv(&self, p: Float3) -> (r: Result<Float3, NonInvertibleError>)
        ensures
            r.is_ok() == self@.invertible(),
            r matches Ok(q) ==> q == self@.apply_inv(p),
    {
        if self.scale.x.raw == 0 || self.scale.y.raw == 0 || self.scale.z.raw == 0 {
            return Err(NonInvertibleError {});
        }
        Ok(self.rotation.inverse().rotate(p.sub(self.position)).div(self.scale))
    }

    /// [`Transform::apply`] on each corner.
    pub fn apply_tri(&self, t: &Tri<Float3>) -> (r: Tri<Float3>)
        ensures
            r.vertices[0] == self@.apply(t.vertices[0]),
            r.vertices[1] == self@.apply(t.vertices[1]),
            r.vertices[2] == self@.apply(t.vertices[2]),
    {
        Tri::new(self.apply(t.vertices[0]), self.apply(t.vertices[1]), self.apply(t.vertices[2]))
    }

    /// [`Transform::apply_inv`] on each corner.
    pub fn apply_tri_inv(&self, t: &Tri<Float3>) -> (r: Result<Tri<Float3>, NonInvertibleError>)
        ensures
            r.is_ok() == self@.invertible(),
            r matches Ok(u) ==> {
                &&& u.vertices[0] == self@.apply_inv(t.vertices[0])
                &&& u.vertices[1] == self@.apply_inv(t.vertices[1])
                &&& u.vertices[2] == self@.apply_inv(t.vertices[2])
            },
    {
        match self.apply_inv(t.vertices[0]) {
            Err(e) => Err(e),
            Ok(v0) => match self.apply_inv(t.vertices[1]) {
                Err(e) => Err(e),
                Ok(v1) => match self.apply_inv(t.vertices[2]) {
                    Err(e) => Err(e),
                    Ok(v2) => Ok(Tri::new(v0, v1, v2)),
                },
            },
        }
    }

    /// The transform that applies `local` in the space of `self`.
    pub fn compose(&self, local: &Transform) -> (r: Transform)
        ensures
            r@ == self@.compose(local@),
    {
        let scaled_position = local.position.mul(self.scale);
        let rotated_position = self.rotation.rotate(scaled_position);
        Transform {
            position: rotated_position.add(self.position),
            scale: self.scale.mul(local.scale),
            rotation: self.rotation.mul(local.rotation),
        }
    }
}

/// The identity transform leaves every point where it is, exactly.
pub proof fn lemma_identity_applies_to_nothing(p: Float3)
    ensures
        TransformParts::identity().apply(p) == p,
{
    lemma_mul_one(p.x);
    lemma_mul_one(p.y);
    lemma_mul_one(p.z);
    lemma_rotate_by_identity(p);
}

/// The inverse of a transform composed with the transform is the identity
/// up to the rounding of the reciprocal scale: it turns nothing, moves
/// nothing, and scales each axis by the reciprocal of the scale times the
/// scale.
///
/// The rotation has to be one that a [`Quaternion`] can hold, and the
/// position divided by the scale must stay below `2^26`, so that turning
/// it does not saturate.
pub proof fn lemma_inverse_then_transform(w: TransformParts)
    requires
        w.rotation.is_bounded(),
        can_turn(w.position.mul(Float3::one().div(w.scale))),
    ensures
        w.inverse().compose(w) == (TransformParts {
            position: Float3::zero(),
            scale: Float3::one().div(w.scale).mul(w.scale),
            rotation: QuaternionParts::identity(),
        }),
        forall|p: Float3|
            #[trigger] w.inverse().compose(w).apply(p) == p.mul(
                Float3::one().div(w.scale).mul(w.scale),
            ),
{
    let inv = w.inverse();
    let back = w.rotation.conjugate();
    let v = w.position.mul(Float3::one().div(w.scale));
    lemma_conjugate_twice(w.rotation);
    lemma_mul_inverse_is_identity(back);
    lemma_rotate_is_odd(back, v);
    let r = inv.compose(w);
    assert(r.rotation == QuaternionParts::identity());
    assert(r.position == back.rotate(v).add(back.rotate(v.neg())));
    assert forall|p: Float3| #[trigger] r.apply(p) == p.mul(r.scale) by {
        lemma_rotate_by_identity(p.mul(r.scale));
    }
}

/// Whether a scale is between `2^-16` and `2^15` in magnitude, so that its
/// reciprocal does not saturate.
pub open spec fn has_reciprocal(s: Scalar) -> bool {
    0x1_0000 <= s.raw <= 0x8000_0000_0000 || -0x8000_0000_0000 <= s.raw <= -0x1_0000
}

/// By how many units of the last place the reciprocal of `s` times `s` may
/// fall short of one: the magnitude of `s`, rounded down, and two.
pub open spec fn shortfall(s: Scalar) -> int {
    (if s.raw < 0 { -s.raw } else { s.raw as int }) / (ONE_RAW as int) + 2
}

/// Whether `r` is `p` moved toward zero by no more than the magnitude of
/// `p` times `units` units of the last place, and one unit more.
pub open spec fn moved_by_at_most(p: Scalar, r: Scalar, units: int) -> bool {
    if p.raw >= 0 {
        0 <= r.raw <= p.raw && (p.raw - r.raw) * ONE_RAW <= p.raw * units + ONE_RAW
    } else {
        p.raw <= r.raw <= 0 && (r.raw - p.raw) * ONE_RAW <= (-p.raw) * units + ONE_RAW
    }
}

/// The inverse of a transform composed with the transform moves a point
/// by no more than rounding: each coordinate moves toward zero by at most
/// its magnitude times the magnitude of the scale, in units of the last
/// place.  For a scale of at most `2^15` that is less than one part in a
/// hundred thousand.
pub proof fn lemma_inverse_then_transform_is_near(w: TransformParts, p: Float3)
    requires
        w.rotation.is_bounded(),
        can_turn(w.position.mul(Float3::one().div(w.scale))),
        has_reciprocal(w.scale.x),
        has_reciprocal(w.scale.y),
        has_reciprocal(w.scale.z),
    ensures
        ({
            let r = w.inverse().compose(w).apply(p);
            &&& moved_by_at_most(p.x, r.x, shortfall(w.scale.x))
            &&& moved_by_at_most(p.y, r.y, shortfall(w.scale.y))
            &&& moved_by_at_most(p.z, r.z, shortfall(w.scale.z))
        }),
{
    lemma_inverse_then_transform(w);
    let back = Float3::one().div(w.scale).mul(w.scale);
    assert(w.inverse().compose(w).apply(p) == p.mul(back));
    lemma_reciprocal_times_self(w.scale.x);
    lemma_reciprocal_times_self(w.scale.y);
    lemma_reciprocal_times_self(w.scale.z);
    lemma_mul_near_one(p.x, back.x, shortfall(w.scale.x));
    lemma_mul_near_one(p.y, back.y, shortfall(w.scale.y));
    lemma_mul_near_one(p.z, back.z, shortfall(w.scale.z));
}

} // verus!
