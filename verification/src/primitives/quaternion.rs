//! Rotations as unit quaternions.
use vstd::prelude::*;
use vstd::std_specs::ops::MulSpecImpl;
use crate::scalar::{
    choose_floor_sqrt, lemma_div_self, lemma_floor_sqrt_exists, lemma_floor_sqrt_unique,
    lemma_mul_one, lemma_mul_small, lemma_mul_unit, lemma_mul_zero, lemma_square_bounds,
    sum_of_squares, Scalar, ONE_RAW,
};
use crate::primitives::float3::Float3;

verus! {

/// Four scalars `w + i·x + j·y + k·z` of any length: the algebra that
/// rotations are computed in.
#[derive(Clone, Copy, Debug, PartialEq, Eq, Structural)]
pub struct QuaternionParts {
    pub w: Scalar,
    pub i: Scalar,
    pub j: Scalar,
    pub k: Scalar,
}

impl QuaternionParts {
    /// Whether no part exceeds one in magnitude, as holds of every
    /// normalised quaternion.
    pub open spec fn is_bounded(self) -> bool {
        &&& -ONE_RAW <= self.w.raw <= ONE_RAW
        &&& -ONE_RAW <= self.i.raw <= ONE_RAW
        &&& -ONE_RAW <= self.j.raw <= ONE_RAW
        &&& -ONE_RAW <= self.k.raw <= ONE_RAW
    }

    pub open spec fn identity_spec() -> QuaternionParts {
        QuaternionParts { w: Scalar::one(), i: Scalar::zero(), j: Scalar::zero(), k: Scalar::zero() }
    }

    /// The point `v` as a quaternion without a real part.
    pub open spec fn from_float3_spec(v: Float3) -> QuaternionParts {
        QuaternionParts { w: Scalar::zero(), i: v.x, j: v.y, k: v.z }
    }

    /// The imaginary part as a point.
    pub open spec fn to_float3_spec(self) -> Float3 {
        Float3 { x: self.i, y: self.j, z: self.k }
    }

    /// The Hamilton product: `self` after `rhs` when both are rotations.
    #[verifier::opaque]
    pub open spec fn mul_spec(self, rhs: QuaternionParts) -> QuaternionParts {
        QuaternionParts {
            w: self.w.mul(rhs.w).sub(self.i.mul(rhs.i)).sub(self.j.mul(rhs.j)).sub(
                self.k.mul(rhs.k),
            ),
            i: self.w.mul(rhs.i).add(self.i.mul(rhs.w)).add(self.j.mul(rhs.k)).sub(
                self.k.mul(rhs.j),
            ),
            j: self.w.mul(rhs.j).sub(self.i.mul(rhs.k)).add(self.j.mul(rhs.w)).add(
                self.k.mul(rhs.i),
            ),
            k: self.w.mul(rhs.k).add(self.i.mul(rhs.j)).sub(self.j.mul(rhs.i)).add(
                self.k.mul(rhs.w),
            ),
        }
    }

    pub open spec fn conjugate_spec(self) -> QuaternionParts {
        QuaternionParts { w: self.w, i: self.i.neg(), j: self.j.neg(), k: self.k.neg() }
    }

    pub open spec fn neg_spec(self) -> QuaternionParts {
        QuaternionParts { w: self.w.neg(), i: self.i.neg(), j: self.j.neg(), k: self.k.neg() }
    }

    /// Sum of the products of matching components.
    pub open spec fn pairwise_mul_spec(self, rhs: QuaternionParts) -> Scalar {
        self.w.mul(rhs.w).add(self.i.mul(rhs.i)).add(self.j.mul(rhs.j)).add(self.k.mul(rhs.k))
    }

    /// Square root of the exact sum of the squared parts.
    pub open spec fn length_spec(self) -> Scalar {
        Scalar::norm(self.w, self.i, self.j, self.k)
    }

    /// The parts divided by their length; the identity where the length is
    /// zero.
    #[verifier::opaque]
    pub open spec fn normalized_spec(self) -> QuaternionParts {
        let len = self.length_spec();
        if len.raw != 0 {
            QuaternionParts {
                w: self.w.div(len),
                i: self.i.div(len),
                j: self.j.div(len),
                k: self.k.div(len),
            }
        } else {
            QuaternionParts::identity_spec()
        }
    }

    /// `self · a + rhs · b`, component by component.
    pub open spec fn blend_spec(self, rhs: QuaternionParts, a: Scalar, b: Scalar) -> QuaternionParts {
        QuaternionParts {
            w: self.w.mul(a).add(rhs.w.mul(b)),
            i: self.i.mul(a).add(rhs.i.mul(b)),
            j: self.j.mul(a).add(rhs.j.mul(b)),
            k: self.k.mul(a).add(rhs.k.mul(b)),
        }
    }

    /// The point `v` turned by `self`: the imaginary part of
    /// `self · v · conjugate(self)`.
    pub open spec fn rotate_spec(self, v: Float3) -> Float3 {
        self.mul_spec(QuaternionParts::from_float3_spec(v)).mul_spec(
            self.conjugate_spec(),
        ).to_float3_spec()
    }

    /// The parts of a rotation about `axis`, from the sine and the cosine
    /// of half its angle.  The axis is brought to unit length first.
    pub open spec fn axis_angle_spec(axis: Float3, half_sin: Scalar, half_cos: Scalar) -> QuaternionParts {
        let axis = axis.normalized();
        QuaternionParts {
            w: half_cos,
            i: axis.x.mul(half_sin),
            j: axis.y.mul(half_sin),
            k: axis.z.mul(half_sin),
        }
    }

    #[verifier::when_used_as_spec(identity_spec)]
    pub fn identity() -> (r: QuaternionParts)
        ensures
            r == QuaternionParts::identity_spec(),
    {
        QuaternionParts { w: Scalar::one(), i: Scalar::zero(), j: Scalar::zero(), k: Scalar::zero() }
    }

    /// The point `v` as a quaternion without a real part.
    #[verifier::when_used_as_spec(from_float3_spec)]
    pub fn from_float3(v: Float3) -> (r: QuaternionParts)
        ensures
            r == QuaternionParts::from_float3_spec(v),
    {
        QuaternionParts { w: Scalar::zero(), i: v.x, j: v.y, k: v.z }
    }

    /// The imaginary part as a point.
    #[verifier::when_used_as_spec(to_float3_spec)]
    pub fn to_float3(self) -> (r: Float3)
        ensures
            r == self.to_float3_spec(),
    {
        Float3 { x: self.i, y: self.j, z: self.k }
    }

    /// The Hamilton product.
    #[verifier::when_used_as_spec(mul_spec)]
    pub fn mul(self, rhs: QuaternionParts) -> (r: QuaternionParts)
        ensures
            r == self.mul_spec(rhs),
    {
        reveal(QuaternionParts::mul_spec);
        QuaternionParts {
            w: self.w.mul(rhs.w).sub(self.i.mul(rhs.i)).sub(self.j.mul(rhs.j)).sub(
                self.k.mul(rhs.k),
            ),
            i: self.w.mul(rhs.i).add(self.i.mul(rhs.w)).add(self.j.mul(rhs.k)).sub(
                self.k.mul(rhs.j),
            ),
            j: self.w.mul(rhs.j).sub(self.i.mul(rhs.k)).add(self.j.mul(rhs.w)).add(
                self.k.mul(rhs.i),
            ),
            k: self.w.mul(rhs.k).add(self.i.mul(rhs.j)).sub(self.j.mul(rhs.i)).add(
                self.k.mul(rhs.w),
            ),
        }
    }

    /// The conjugate: the imaginary part negated.
    #[verifier::when_used_as_spec(conjugate_spec)]
    pub fn conjugate(self) -> (r: QuaternionParts)
        ensures
            r == self.conjugate_spec(),
    {
        QuaternionParts { w: self.w, i: self.i.neg(), j: self.j.neg(), k: self.k.neg() }
    }

    /// All four parts negated: the same rotation, the other sign.
    #[verifier::when_used_as_spec(neg_spec)]
    pub fn neg(self) -> (r: QuaternionParts)
        ensures
            r == self.neg_spec(),
    {
        QuaternionParts { w: self.w.neg(), i: self.i.neg(), j: self.j.neg(), k: self.k.neg() }
    }

    /// Sum of the products of matching components.
    #[verifier::when_used_as_spec(pairwise_mul_spec)]
    pub fn pairwise_mul(self, rhs: QuaternionParts) -> (r: Scalar)
        ensures
            r == self.pairwise_mul_spec(rhs),
    {
        self.w.mul(rhs.w).add(self.i.mul(rhs.i)).add(self.j.mul(rhs.j)).add(self.k.mul(rhs.k))
    }

    /// Length of the four parts as a vector.
    #[verifier::when_used_as_spec(length_spec)]
    pub fn length(self) -> (r: Scalar)
        ensures
            r == self.length_spec(),
    {
        Scalar::norm(self.w, self.i, self.j, self.k)
    }

    /// The parts divided by their length; the identity where the length is
    /// zero.
    #[verifier::when_used_as_spec(normalized_spec)]
    pub fn normalized(self) -> (r: QuaternionParts)
        ensures
            r == self.normalized_spec(),
            r.is_bounded(),
    {
        reveal(QuaternionParts::normalized_spec);
        proof {
            lemma_normalized_is_bounded(self);
        }
        let len = self.length();
        if len.raw != 0 {
            QuaternionParts {
                w: self.w.div(len),
                i: self.i.div(len),
                j: self.j.div(len),
                k: self.k.div(len),
            }
        } else {
            QuaternionParts::identity()
        }
    }

    /// `self · a + rhs · b`, component by component.
    #[verifier::when_used_as_spec(blend_spec)]
    pub fn blend(self, rhs: QuaternionParts, a: Scalar, b: Scalar) -> (r: QuaternionParts)
        ensures
            r == self.blend_spec(rhs, a, b),
    {
        QuaternionParts {
            w: self.w.mul(a).add(rhs.w.mul(b)),
            i: self.i.mul(a).add(rhs.i.mul(b)),
            j: self.j.mul(a).add(rhs.j.mul(b)),
            k: self.k.mul(a).add(rhs.k.mul(b)),
        }
    }

    /// The point `v` turned by `self`.
    #[verifier::when_used_as_spec(rotate_spec)]
    pub fn rotate(self, v: Float3) -> (r: Float3)
        ensures
            r == self.rotate_spec(v),
    {
        self.mul(QuaternionParts::from_float3(v)).mul(self.conjugate()).to_float3()
    }
}

/// What [`Quaternion::slerp`] decides before any angle is computed.
#[derive(Clone, Copy, Debug)]
pub struct SlerpArc {
    /// The end of the arc: the second rotation, negated where that makes
    /// the arc the shorter one.
    pub target: Quaternion,
    /// Cosine of the angle between start and target; never negative unless
    /// saturated.
    pub cos_theta: Scalar,
    /// Whether start and target are so close that the arc is replaced by a
    /// straight line.
    pub linear: bool,
}

/// Raw value of 0.9995, the cosine above which an arc counts as straight.
pub const NEARLY_PARALLEL_RAW: i64 = 0xffdf_3b64;

/// A rotation.  Every way to make one ends in a normalisation, so a value
/// of this type always has unit length up to rounding.
#[derive(Clone, Copy, Debug)]
pub struct Quaternion {
    parts: QuaternionParts,
}

impl View for Quaternion {
    type V = QuaternionParts;

    closed spec fn view(&self) -> QuaternionParts {
        self.parts
    }
}

impl Quaternion {
    #[verifier::type_invariant]
    spec fn inv(self) -> bool {
        self.parts.is_bounded()
    }

    /// The start, the end and the kind of the arc from `self` to `rhs`.
    pub open spec fn slerp_arc_spec(self, rhs: Quaternion) -> (QuaternionParts, Scalar, bool) {
        let dot = self@.pairwise_mul(rhs@);
        let cos_theta = if dot.raw < 0 {
            dot.neg()
        } else {
            dot
        };
        let target = if dot.raw < 0 {
            rhs@.neg()
        } else {
            rhs@
        };
        (target, cos_theta, cos_theta.raw > NEARLY_PARALLEL_RAW)
    }

    /// What an interpolation gives: along a straight arc the normalised
    /// component-wise interpolation at `t`, else the blend of start and
    /// target with the two weights, normalised.
    pub open spec fn slerp_spec(
        self,
        rhs: Quaternion,
        t: Scalar,
        from_weight: Scalar,
        to_weight: Scalar,
    ) -> QuaternionParts {
        let (target, cos_theta, linear) = self.slerp_arc_spec(rhs);
        if linear {
            Quaternion::lerp_spec(self@, target, t)
        } else {
            self@.blend(target, from_weight, to_weight).normalized()
        }
    }

    /// An interpolation starts at its first rotation and ends at its
    /// second, normalised once more; the end is the second rotation
    /// itself or its negation, which turns every point the same way.
    pub proof fn lemma_slerp_endpoints(self, rhs: Quaternion)
        ensures
            self.slerp_spec(rhs, Scalar::zero(), Scalar::one(), Scalar::zero())
                == self@.normalized(),
            self.slerp_spec(rhs, Scalar::one(), Scalar::zero(), Scalar::one())
                == self.slerp_arc_spec(rhs).0.normalized(),
            self.slerp_arc_spec(rhs).0 == rhs@ || self.slerp_arc_spec(rhs).0 == rhs@.neg(),
    {
        lemma_blend_endpoints(self@, self.slerp_arc_spec(rhs).0);
    }

    /// Normalised component-wise interpolation.
    pub open spec fn lerp_spec(a: QuaternionParts, b: QuaternionParts, t: Scalar) -> QuaternionParts {
        a.blend(b, Scalar::one().sub(t), t).normalized()
    }

    /// The rotation that turns nothing.
    pub fn identity() -> (r: Quaternion)
        ensures
            r@ == QuaternionParts::identity_spec(),
    {
        Quaternion { parts: QuaternionParts::identity() }
    }

    /// The rotation whose parts are `parts` brought to unit length.
    pub fn from_parts(parts: QuaternionParts) -> (r: Quaternion)
        ensures
            r@ == parts.normalized(),
    {
        Quaternion { parts: parts.normalized() }
    }

    /// The four parts.
    pub fn parts(self) -> (r: QuaternionParts)
        ensures
            r == self@,
            r.is_bounded(),
    {
        proof {
            use_type_invariant(&self);
        }
        self.parts
    }

    /// The rotation about `axis` whose half angle has sine `half_sin` and
    /// cosine `half_cos`.  The axis is normalised first and the result once
    /// more, so neither needs unit length; a zero axis gives the rotation
    /// `(half_cos, 0, 0, 0)` normalised.
    pub fn from_axis_angle(axis: Float3, half_sin: Scalar, half_cos: Scalar) -> (r: Quaternion)
        ensures
            r@ == QuaternionParts::axis_angle_spec(axis, half_sin, half_cos).normalized(),
    {
        let axis = axis.normalized();
        let parts = QuaternionParts {
            w: half_cos,
            i: axis.x.mul(half_sin),
            j: axis.y.mul(half_sin),
            k: axis.z.mul(half_sin),
        };
        Quaternion { parts: parts.normalized() }
    }

    /// Rotation about the first axis, from the sine and cosine of half the
    /// angle.
    pub fn from_x_angle(half_sin: Scalar, half_cos: Scalar) -> (r: Quaternion)
        ensures
            r@ == QuaternionParts::axis_angle_spec(
                Float3::new(Scalar::one(), Scalar::zero(), Scalar::zero()),
                half_sin,
                half_cos,
            ).normalized(),
    {
        Quaternion::from_axis_angle(Float3::right(), half_sin, half_cos)
    }

    /// Rotation about the second axis, from the sine and cosine of half the
    /// angle.
    pub fn from_y_angle(half_sin: Scalar, half_cos: Scalar) -> (r: Quaternion)
        ensures
            r@ == QuaternionParts::axis_angle_spec(
                Float3::new(Scalar::zero(), Scalar::one(), Scalar::zero()),
                half_sin,
                half_cos,
            ).normalized(),
    {
        Quaternion::from_axis_angle(Float3::up(), half_sin, half_cos)
    }

    /// Rotation about the third axis, from the sine and cosine of half the
    /// angle.
    pub fn from_z_angle(half_sin: Scalar, half_cos: Scalar) -> (r: Quaternion)
        ensures
            r@ == QuaternionParts::axis_angle_spec(
                Float3::new(Scalar::zero(), Scalar::zero(), Scalar::one()),
                half_sin,
                half_cos,
            ).normalized(),
    {
        Quaternion::from_axis_angle(Float3::forward(), half_sin, half_cos)
    }

    /// Composition: the rotation that applies `rhs` first and `self` second,
    /// normalised.
    pub fn mul(self, rhs: Quaternion) -> (r: Quaternion)
        ensures
            r@ == self@.mul(rhs@).normalized(),
    {
        Quaternion { parts: self.parts.mul(rhs.parts).normalized() }
    }

    /// The point `v` turned by this rotation.
    pub fn rotate(self, v: Float3) -> (r: Float3)
        ensures
            r == self@.rotate(v),
    {
        self.parts.rotate(v)
    }

    /// Length of the four parts; one up to rounding.
    pub fn length(self) -> (r: Scalar)
        ensures
            r == self@.length(),
    {
        self.parts.length()
    }

    /// The rotation brought to unit length again, against drift.
    pub fn normalized(self) -> (r: Quaternion)
        ensures
            r@ == self@.normalized(),
    {
        Quaternion { parts: self.parts.normalized() }
    }

    /// The opposite rotation: the conjugate, which is the inverse at unit
    /// length.
    pub fn inverse(self) -> (r: Quaternion)
        ensures
            r@ == self@.conjugate(),
    {
        proof {
            use_type_invariant(&self);
        }
        Quaternion { parts: self.parts.conjugate() }
    }

    /// Normalised component-wise interpolation from `self` to `rhs`.
    pub fn lerp(self, rhs: Quaternion, t: Scalar) -> (r: Quaternion)
        ensures
            r@ == Quaternion::lerp_spec(self@, rhs@, t),
    {
        Quaternion { parts: self.parts.blend(rhs.parts, Scalar::one().sub(t), t).normalized() }
    }

    /// The arc that an interpolation from `self` to `rhs` follows: the end
    /// is `rhs`, or its negation where the dot product of the two is
    /// negative; the arc counts as straight where the cosine of its angle
    /// is above 0.9995.
    pub fn slerp_arc(self, rhs: Quaternion) -> (arc: SlerpArc)
        ensures
            (arc.target@, arc.cos_theta, arc.linear) == self.slerp_arc_spec(rhs),
    {
        proof {
            use_type_invariant(&rhs);
        }
        let dot = self.parts.pairwise_mul(rhs.parts);
        if dot.raw < 0 {
            let cos_theta = dot.neg();
            SlerpArc {
                target: Quaternion { parts: rhs.parts.neg() },
                cos_theta,
                linear: cos_theta.raw > NEARLY_PARALLEL_RAW,
            }
        } else {
            SlerpArc { target: rhs, cos_theta: dot, linear: dot.raw > NEARLY_PARALLEL_RAW }
        }
    }

    /// Spherical interpolation from `self` at `t = 0` to `rhs` at `t = 1`
    /// along the shorter arc.
    ///
    /// `from_weight` and `to_weight` are `sin((1 - t)·θ) / sin θ` and
    /// `sin(t·θ) / sin θ` for the angle `θ` whose cosine
    /// [`Quaternion::slerp_arc`] reports; they are not looked at where the
    /// arc counts as straight.
    pub fn slerp(self, rhs: Quaternion, t: Scalar, from_weight: Scalar, to_weight: Scalar) -> (r:
        Quaternion)
        requires
            Scalar::zero().raw <= t.raw <= Scalar::one().raw,
        ensures
            r@ == self.slerp_spec(rhs, t, from_weight, to_weight),
    {
        let arc = self.slerp_arc(rhs);
        if arc.linear {
            self.lerp(arc.target, t)
        } else {
            Quaternion { parts: self.parts.blend(arc.target.parts, from_weight, to_weight).normalized() }
        }
    }
}

impl Quaternion {
    /// The composition of two rotations as a rotation: what `self * rhs`
    /// gives.  Its parts are those of [`Quaternion::mul`].
    pub closed spec fn composed(self, rhs: Quaternion) -> Quaternion {
        Quaternion { parts: self.parts.mul(rhs.parts).normalized() }
    }

    /// The parts of a composition are the normalised Hamilton product of
    /// the parts.
    pub proof fn lemma_composed_parts(self, rhs: Quaternion)
        ensures
            self.composed(rhs)@ == self@.mul(rhs@).normalized(),
    {
    }
}

impl core::ops::Mul for Quaternion {
    type Output = Quaternion;

    fn mul(self, rhs: Quaternion) -> (r: Quaternion) {
        Quaternion { parts: self.parts.mul(rhs.parts).normalized() }
    }
}

impl MulSpecImpl for Quaternion {
    open spec fn obeys_mul_spec() -> bool {
        true
    }

    open spec fn mul_req(self, rhs: Quaternion) -> bool {
        true
    }

    open spec fn mul_spec(self, rhs: Quaternion) -> Quaternion {
        self.composed(rhs)
    }
}

/// A part divided by a length that is at least as large, or that is
/// saturated, is at most one in magnitude.
pub proof fn lemma_part_over_length(c: Scalar, len: Scalar)
    requires
        len.raw > 0,
        -len.raw - 1 <= c.raw <= len.raw + 1,
        (-len.raw <= c.raw <= len.raw) || len.raw > ONE_RAW,
    ensures
        -ONE_RAW <= c.div(len).raw <= ONE_RAW,
{
    let m = if c.raw >= 0 { c.raw as int } else { -c.raw };
    let one = ONE_RAW as int;
    let l = len.raw as int;
    assert(0 <= (m * one) / l <= one) by (nonlinear_arith)
        requires
            l > 0,
            0 <= m <= l + 1,
            m <= l || l > one,
            one == 0x1_0000_0000,
    ;
    assert(c.raw * ONE_RAW == if c.raw >= 0 { m * one } else { -(m * one) }) by (nonlinear_arith)
        requires
            m == if c.raw >= 0 { c.raw as int } else { -c.raw },
            one == ONE_RAW,
    ;
}

/// Normalising leaves no part larger than one in magnitude.
pub proof fn lemma_normalized_is_bounded(p: QuaternionParts)
    ensures
        p.normalized().is_bounded(),
{
    reveal(QuaternionParts::normalized_spec);
    let len = p.length_spec();
    if len.raw != 0 {
        let total = sum_of_squares(p.w, p.i, p.j, p.k);
        lemma_square_bounds(p.w.raw as int);
        lemma_square_bounds(p.i.raw as int);
        lemma_square_bounds(p.j.raw as int);
        lemma_square_bounds(p.k.raw as int);
        lemma_floor_sqrt_exists(total);
        let root = choose_floor_sqrt(total);
        lemma_root_covers(p.w.raw as int, total, root);
        lemma_root_covers(p.i.raw as int, total, root);
        lemma_root_covers(p.j.raw as int, total, root);
        lemma_root_covers(p.k.raw as int, total, root);
        lemma_part_over_length(p.w, len);
        lemma_part_over_length(p.i, len);
        lemma_part_over_length(p.j, len);
        lemma_part_over_length(p.k, len);
    }
}

/// No component exceeds the rounded-down root of a sum of squares that its
/// own square is part of.
pub proof fn lemma_root_covers(c: int, total: int, root: int)
    requires
        0 <= root,
        c * c <= total,
        total < (root + 1) * (root + 1),
    ensures
        -root <= c <= root,
{
    assert(-root <= c <= root) by (nonlinear_arith)
        requires
            0 <= root,
            c * c < (root + 1) * (root + 1),
    ;
}

/// The length of a quaternion with a single non-negative part is that
/// part.
pub proof fn lemma_norm_of_real(s: Scalar)
    requires
        s.raw >= 0,
    ensures
        Scalar::norm(s, Scalar::zero(), Scalar::zero(), Scalar::zero()) == s,
{
    let total = sum_of_squares(s, Scalar::zero(), Scalar::zero(), Scalar::zero());
    assert(total == s.raw * s.raw);
    assert(crate::scalar::is_floor_sqrt(total, s.raw as int)) by (nonlinear_arith)
        requires
            total == s.raw * s.raw,
            s.raw >= 0,
    ;
    lemma_floor_sqrt_unique(total, s.raw as int, choose_floor_sqrt(total));
}

/// A rotation composed with its inverse is the identity, exactly: the
/// Hamilton product of bounded parts with their conjugate has no imaginary
/// part, and normalising what is left gives one.
pub proof fn lemma_mul_inverse_is_identity(q: QuaternionParts)
    requires
        q.is_bounded(),
    ensures
        q.mul(q.conjugate()).normalized() == QuaternionParts::identity(),
{
    reveal(QuaternionParts::mul_spec);
    reveal(QuaternionParts::normalized_spec);
    lemma_mul_small(q.w, q.w);
    lemma_mul_small(q.i, q.i);
    lemma_mul_small(q.j, q.j);
    lemma_mul_small(q.k, q.k);
    lemma_mul_small(q.w, q.i);
    lemma_mul_small(q.i, q.w);
    lemma_mul_small(q.w, q.j);
    lemma_mul_small(q.j, q.w);
    lemma_mul_small(q.w, q.k);
    lemma_mul_small(q.k, q.w);
    lemma_mul_small(q.i, q.j);
    lemma_mul_small(q.j, q.i);
    lemma_mul_small(q.i, q.k);
    lemma_mul_small(q.k, q.i);
    lemma_mul_small(q.j, q.k);
    lemma_mul_small(q.k, q.j);
    lemma_square_is_small(q.w);
    lemma_square_is_small(q.i);
    lemma_square_is_small(q.j);
    lemma_square_is_small(q.k);
    lemma_product_is_small(q.w, q.i);
    lemma_product_is_small(q.w, q.j);
    lemma_product_is_small(q.w, q.k);
    lemma_product_is_small(q.i, q.j);
    lemma_product_is_small(q.i, q.k);
    lemma_product_is_small(q.j, q.k);
    let p = q.mul(q.conjugate());
    assert(p.i.raw == 0);
    assert(p.j.raw == 0);
    assert(p.k.raw == 0);
    assert(p.w.raw >= 0);
    lemma_norm_of_real(p.w);
    if p.w.raw != 0 {
        lemma_div_self(p.w);
    }
}

/// The square of a part of bounded parts lies between zero and one.
pub proof fn lemma_square_is_small(c: Scalar)
    requires
        -ONE_RAW <= c.raw <= ONE_RAW,
    ensures
        0 <= c.mul(c).raw <= ONE_RAW,
{
    lemma_product_is_small(c, c);
    assert(c.raw * c.raw >= 0) by (nonlinear_arith);
}

/// The product of two parts of bounded parts is at most one in magnitude.
pub proof fn lemma_product_is_small(a: Scalar, b: Scalar)
    requires
        -ONE_RAW <= a.raw <= ONE_RAW,
        -ONE_RAW <= b.raw <= ONE_RAW,
    ensures
        -ONE_RAW <= a.mul(b).raw <= ONE_RAW,
{
    let p = a.raw * b.raw;
    assert(-0x1_0000_0000_0000_0000 <= p <= 0x1_0000_0000_0000_0000) by (nonlinear_arith)
        requires
            p == a.raw * b.raw,
            -0x1_0000_0000 <= a.raw <= 0x1_0000_0000,
            -0x1_0000_0000 <= b.raw <= 0x1_0000_0000,
    ;
}

/// With the weights one and zero an interpolation gives its start, and
/// with zero and one its end, each normalised: whether the arc counts as
/// straight or not.
pub proof fn lemma_blend_endpoints(a: QuaternionParts, b: QuaternionParts)
    ensures
        a.blend(b, Scalar::one(), Scalar::zero()) == a,
        a.blend(b, Scalar::zero(), Scalar::one()) == b,
        Quaternion::lerp_spec(a, b, Scalar::zero()) == a.normalized(),
        Quaternion::lerp_spec(a, b, Scalar::one()) == b.normalized(),
{
    lemma_mul_one(a.w);
    lemma_mul_one(a.i);
    lemma_mul_one(a.j);
    lemma_mul_one(a.k);
    lemma_mul_one(b.w);
    lemma_mul_one(b.i);
    lemma_mul_one(b.j);
    lemma_mul_one(b.k);
    lemma_mul_zero(a.w);
    lemma_mul_zero(a.i);
    lemma_mul_zero(a.j);
    lemma_mul_zero(a.k);
    lemma_mul_zero(b.w);
    lemma_mul_zero(b.i);
    lemma_mul_zero(b.j);
    lemma_mul_zero(b.k);
}

/// The largest raw magnitude of a coordinate for which turning a point
/// stays clear of saturation: `2^58`.
pub const ROTATION_LIMIT_RAW: i64 = 0x0400_0000_0000_0000;

/// Whether a point is small enough to be turned without saturation.
pub open spec fn can_turn(v: Float3) -> bool {
    &&& -ROTATION_LIMIT_RAW <= v.x.raw <= ROTATION_LIMIT_RAW
    &&& -ROTATION_LIMIT_RAW <= v.y.raw <= ROTATION_LIMIT_RAW
    &&& -ROTATION_LIMIT_RAW <= v.z.raw <= ROTATION_LIMIT_RAW
}

/// Conjugating twice gives the parts back.
pub proof fn lemma_conjugate_twice(q: QuaternionParts)
    requires
        q.is_bounded(),
    ensures
        q.conjugate().conjugate() == q,
        q.conjugate().is_bounded(),
{
}

/// Sums and differences of four terms of moderate size are odd in the
/// terms and at most four times as large.
proof fn lemma_chains_are_odd(t0: Scalar, t1: Scalar, t2: Scalar, t3: Scalar, limit: int)
    requires
        0 <= limit <= 0x1000_0000_0000_0000,
        -limit <= t0.raw <= limit,
        -limit <= t1.raw <= limit,
        -limit <= t2.raw <= limit,
        -limit <= t3.raw <= limit,
    ensures
        t0.neg().sub(t1.neg()).sub(t2.neg()).sub(t3.neg()) == t0.sub(t1).sub(t2).sub(t3).neg(),
        t0.neg().add(t1.neg()).add(t2.neg()).sub(t3.neg()) == t0.add(t1).add(t2).sub(t3).neg(),
        t0.neg().sub(t1.neg()).add(t2.neg()).add(t3.neg()) == t0.sub(t1).add(t2).add(t3).neg(),
        t0.neg().add(t1.neg()).sub(t2.neg()).add(t3.neg()) == t0.add(t1).sub(t2).add(t3).neg(),
        -4 * limit <= t0.sub(t1).sub(t2).sub(t3).raw <= 4 * limit,
        -4 * limit <= t0.add(t1).add(t2).sub(t3).raw <= 4 * limit,
        -4 * limit <= t0.sub(t1).add(t2).add(t3).raw <= 4 * limit,
        -4 * limit <= t0.add(t1).sub(t2).add(t3).raw <= 4 * limit,
{
}

/// The `w` part of a Hamilton product, as a chain of four products of a
/// bounded factor with a factor of moderate size, is odd in the factors of
/// moderate size and at most four times as large.
proof fn lemma_w_part_is_odd(
    a0: Scalar,
    b0: Scalar,
    a1: Scalar,
    b1: Scalar,
    a2: Scalar,
    b2: Scalar,
    a3: Scalar,
    b3: Scalar,
    limit: int,
)
    requires
        0 <= limit <= 0x1000_0000_0000_0000,
        -ONE_RAW <= a0.raw <= ONE_RAW,
        -ONE_RAW <= a1.raw <= ONE_RAW,
        -ONE_RAW <= a2.raw <= ONE_RAW,
        -ONE_RAW <= a3.raw <= ONE_RAW,
        -limit <= b0.raw <= limit,
        -limit <= b1.raw <= limit,
        -limit <= b2.raw <= limit,
        -limit <= b3.raw <= limit,
    ensures
        a0.mul(b0.neg()).sub(a1.mul(b1.neg())).sub(a2.mul(b2.neg())).sub(a3.mul(b3.neg())) == a0.mul(b0).sub(a1.mul(b1)).sub(a2.mul(b2)).sub(a3.mul(b3)).neg(),
        b0.neg().mul(a0).sub(b1.neg().mul(a1)).sub(b2.neg().mul(a2)).sub(b3.neg().mul(a3)) == b0.mul(a0).sub(b1.mul(a1)).sub(b2.mul(a2)).sub(b3.mul(a3)).neg(),
        b0.mul(a0).sub(b1.mul(a1)).sub(b2.mul(a2)).sub(b3.mul(a3)) == a0.mul(b0).sub(a1.mul(b1)).sub(a2.mul(b2)).sub(a3.mul(b3)),
        -4 * limit <= a0.mul(b0).sub(a1.mul(b1)).sub(a2.mul(b2)).sub(a3.mul(b3)).raw <= 4 * limit,
{
    lemma_mul_unit(a0, b0);
    lemma_mul_unit(a1, b1);
    lemma_mul_unit(a2, b2);
    lemma_mul_unit(a3, b3);
    lemma_mul_unit(a0, b0.neg());
    lemma_mul_unit(a1, b1.neg());
    lemma_mul_unit(a2, b2.neg());
    lemma_mul_unit(a3, b3.neg());
    lemma_chains_are_odd(a0.mul(b0), a1.mul(b1), a2.mul(b2), a3.mul(b3), limit);
}

/// The `i` part of a Hamilton product, as a chain of four products of a
/// bounded factor with a factor of moderate size, is odd in the factors of
/// moderate size and at most four times as large.
proof fn lemma_i_part_is_odd(
    a0: Scalar,
    b0: Scalar,
    a1: Scalar,
    b1: Scalar,
    a2: Scalar,
    b2: Scalar,
    a3: Scalar,
    b3: Scalar,
    limit: int,
)
    requires
        0 <= limit <= 0x1000_0000_0000_0000,
        -ONE_RAW <= a0.raw <= ONE_RAW,
        -ONE_RAW <= a1.raw <= ONE_RAW,
        -ONE_RAW <= a2.raw <= ONE_RAW,
        -ONE_RAW <= a3.raw <= ONE_RAW,
        -limit <= b0.raw <= limit,
        -limit <= b1.raw <= limit,
        -limit <= b2.raw <= limit,
        -limit <= b3.raw <= limit,
    ensures
        a0.mul(b0.neg()).add(a1.mul(b1.neg())).add(a2.mul(b2.neg())).sub(a3.mul(b3.neg())) == a0.mul(b0).add(a1.mul(b1)).add(a2.mul(b2)).sub(a3.mul(b3)).neg(),
        b0.neg().mul(a0).add(b1.neg().mul(a1)).add(b2.neg().mul(a2)).sub(b3.neg().mul(a3)) == b0.mul(a0).add(b1.mul(a1)).add(b2.mul(a2)).sub(b3.mul(a3)).neg(),
        b0.mul(a0).add(b1.mul(a1)).add(b2.mul(a2)).sub(b3.mul(a3)) == a0.mul(b0).add(a1.mul(b1)).add(a2.mul(b2)).sub(a3.mul(b3)),
        -4 * limit <= a0.mul(b0).add(a1.mul(b1)).add(a2.mul(b2)).sub(a3.mul(b3)).raw <= 4 * limit,
{
    lemma_mul_unit(a0, b0);
    lemma_mul_unit(a1, b1);
    lemma_mul_unit(a2, b2);
    lemma_mul_unit(a3, b3);
    lemma_mul_unit(a0, b0.neg());
    lemma_mul_unit(a1, b1.neg());
    lemma_mul_unit(a2, b2.neg());
    lemma_mul_unit(a3, b3.neg());
    lemma_chains_are_odd(a0.mul(b0), a1.mul(b1), a2.mul(b2), a3.mul(b3), limit);
}

/// The `j` part of a Hamilton product, as a chain of four products of a
/// bounded factor with a factor of moderate size, is odd in the factors of
/// moderate size and at most four times as large.
proof fn lemma_j_part_is_odd(
    a0: Scalar,
    b0: Scalar,
    a1: Scalar,
    b1: Scalar,
    a2: Scalar,
    b2: Scalar,
    a3: Scalar,
    b3: Scalar,
    limit: int,
)
    requires
        0 <= limit <= 0x1000_0000_0000_0000,
        -ONE_RAW <= a0.raw <= ONE_RAW,
        -ONE_RAW <= a1.raw <= ONE_RAW,
        -ONE_RAW <= a2.raw <= ONE_RAW,
        -ONE_RAW <= a3.raw <= ONE_RAW,
        -limit <= b0.raw <= limit,
        -limit <= b1.raw <= limit,
        -limit <= b2.raw <= limit,
        -limit <= b3.raw <= limit,
    ensures
        a0.mul(b0.neg()).sub(a1.mul(b1.neg())).add(a2.mul(b2.neg())).add(a3.mul(b3.neg())) == a0.mul(b0).sub(a1.mul(b1)).add(a2.mul(b2)).add(a3.mul(b3)).neg(),
        b0.neg().mul(a0).sub(b1.neg().mul(a1)).add(b2.neg().mul(a2)).add(b3.neg().mul(a3)) == b0.mul(a0).sub(b1.mul(a1)).add(b2.mul(a2)).add(b3.mul(a3)).neg(),
        b0.mul(a0).sub(b1.mul(a1)).add(b2.mul(a2)).add(b3.mul(a3)) == a0.mul(b0).sub(a1.mul(b1)).add(a2.mul(b2)).add(a3.mul(b3)),
        -4 * limit <= a0.mul(b0).sub(a1.mul(b1)).add(a2.mul(b2)).add(a3.mul(b3)).raw <= 4 * limit,
{
    lemma_mul_unit(a0, b0);
    lemma_mul_unit(a1, b1);
    lemma_mul_unit(a2, b2);
    lemma_mul_unit(a3, b3);
    lemma_mul_unit(a0, b0.neg());
    lemma_mul_unit(a1, b1.neg());
    lemma_mul_unit(a2, b2.neg());
    lemma_mul_unit(a3, b3.neg());
    lemma_chains_are_odd(a0.mul(b0), a1.mul(b1), a2.mul(b2), a3.mul(b3), limit);
}

/// The `k` part of a Hamilton product, as a chain of four products of a
/// bounded factor with a factor of moderate size, is odd in the factors of
/// moderate size and at most four times as large.
proof fn lemma_k_part_is_odd(
    a0: Scalar,
    b0: Scalar,
    a1: Scalar,
    b1: Scalar,
    a2: Scalar,
    b2: Scalar,
    a3: Scalar,
    b3: Scalar,
    limit: int,
)
    requires
        0 <= limit <= 0x1000_0000_0000_0000,
        -ONE_RAW <= a0.raw <= ONE_RAW,
        -ONE_RAW <= a1.raw <= ONE_RAW,
        -ONE_RAW <= a2.raw <= ONE_RAW,
        -ONE_RAW <= a3.raw <= ONE_RAW,
        -limit <= b0.raw <= limit,
        -limit <= b1.raw <= limit,
        -limit <= b2.raw <= limit,
        -limit <= b3.raw <= limit,
    ensures
        a0.mul(b0.neg()).add(a1.mul(b1.neg())).sub(a2.mul(b2.neg())).add(a3.mul(b3.neg())) == a0.mul(b0).add(a1.mul(b1)).sub(a2.mul(b2)).add(a3.mul(b3)).neg(),
        b0.neg().mul(a0).add(b1.neg().mul(a1)).sub(b2.neg().mul(a2)).add(b3.neg().mul(a3)) == b0.mul(a0).add(b1.mul(a1)).sub(b2.mul(a2)).add(b3.mul(a3)).neg(),
        b0.mul(a0).add(b1.mul(a1)).sub(b2.mul(a2)).add(b3.mul(a3)) == a0.mul(b0).add(a1.mul(b1)).sub(a2.mul(b2)).add(a3.mul(b3)),
        -4 * limit <= a0.mul(b0).add(a1.mul(b1)).sub(a2.mul(b2)).add(a3.mul(b3)).raw <= 4 * limit,
{
    lemma_mul_unit(a0, b0);
    lemma_mul_unit(a1, b1);
    lemma_mul_unit(a2, b2);
    lemma_mul_unit(a3, b3);
    lemma_mul_unit(a0, b0.neg());
    lemma_mul_unit(a1, b1.neg());
    lemma_mul_unit(a2, b2.neg());
    lemma_mul_unit(a3, b3.neg());
    lemma_chains_are_odd(a0.mul(b0), a1.mul(b1), a2.mul(b2), a3.mul(b3), limit);
}

/// The Hamilton product of bounded parts with parts of moderate size, in
/// either order, is odd in the parts of moderate size and at most four
/// times as large.
proof fn lemma_mul_is_odd_right(q: QuaternionParts, p: QuaternionParts, limit: int)
    requires
        q.is_bounded(),
        0 <= limit <= 0x1000_0000_0000_0000,
        -limit <= p.w.raw <= limit,
        -limit <= p.i.raw <= limit,
        -limit <= p.j.raw <= limit,
        -limit <= p.k.raw <= limit,
    ensures
        q.mul(p.neg()) == q.mul(p).neg(),
        p.neg().mul(q) == p.mul(q).neg(),
        -4 * limit <= q.mul(p).w.raw <= 4 * limit,
        -4 * limit <= q.mul(p).i.raw <= 4 * limit,
        -4 * limit <= q.mul(p).j.raw <= 4 * limit,
        -4 * limit <= q.mul(p).k.raw <= 4 * limit,
        -4 * limit <= p.mul(q).w.raw <= 4 * limit,
        -4 * limit <= p.mul(q).i.raw <= 4 * limit,
        -4 * limit <= p.mul(q).j.raw <= 4 * limit,
        -4 * limit <= p.mul(q).k.raw <= 4 * limit,
{
    reveal(QuaternionParts::mul_spec);
    lemma_w_part_is_odd(q.w, p.w, q.i, p.i, q.j, p.j, q.k, p.k, limit);
    lemma_w_part_is_odd(q.w, p.w, q.i, p.i, q.j, p.j, q.k, p.k, limit);
    lemma_i_part_is_odd(q.w, p.i, q.i, p.w, q.j, p.k, q.k, p.j, limit);
    lemma_i_part_is_odd(q.i, p.w, q.w, p.i, q.k, p.j, q.j, p.k, limit);
    lemma_j_part_is_odd(q.w, p.j, q.i, p.k, q.j, p.w, q.k, p.i, limit);
    lemma_j_part_is_odd(q.j, p.w, q.k, p.i, q.w, p.j, q.i, p.k, limit);
    lemma_k_part_is_odd(q.w, p.k, q.i, p.j, q.j, p.i, q.k, p.w, limit);
    lemma_k_part_is_odd(q.k, p.w, q.j, p.i, q.i, p.j, q.w, p.k, limit);
}

/// Turning the opposite point gives the opposite of the turned point, and
/// a point added to its opposite is the origin.
pub proof fn lemma_rotate_is_odd(q: QuaternionParts, v: Float3)
    requires
        q.is_bounded(),
        can_turn(v),
    ensures
        q.rotate(v.neg()) == q.rotate(v).neg(),
        q.rotate(v).add(q.rotate(v.neg())) == Float3::zero(),
{
    let p = QuaternionParts::from_float3(v);
    assert(QuaternionParts::from_float3(v.neg()) == p.neg());
    lemma_mul_is_odd_right(q, p, ROTATION_LIMIT_RAW as int);
    let first = q.mul(p);
    lemma_mul_is_odd_right(q.conjugate(), first, 4 * ROTATION_LIMIT_RAW);
    assert(q.rotate(v.neg()) == first.neg().mul(q.conjugate()).to_float3());
    assert(first.neg().mul(q.conjugate()) == first.mul(q.conjugate()).neg());
}

/// The identity turns nothing, exactly.
pub proof fn lemma_rotate_by_identity(v: Float3)
    ensures
        QuaternionParts::identity().rotate(v) == v,
{
    reveal(QuaternionParts::mul_spec);
    lemma_mul_one(v.x);
    lemma_mul_one(v.y);
    lemma_mul_one(v.z);
    lemma_mul_zero(v.x);
    lemma_mul_zero(v.y);
    lemma_mul_zero(v.z);
    lemma_mul_zero(Scalar::zero());
    lemma_mul_zero(Scalar::one());
    lemma_mul_one(Scalar::zero());
}

} // verus!
