//! Points, directions and colours in space.
use vstd::prelude::*;
use crate::scalar::{Scalar, ONE_RAW};
use crate::primitives::float2::Float2;

verus! {

/// A triple of scalars: a position, a direction, a scale or an RGB colour.
#[derive(Clone, Copy, Debug, PartialEq, Eq, Structural)]
pub struct Float3 {
    pub x: Scalar,
    pub y: Scalar,
    pub z: Scalar,
}

/// A colour channel in `[0, 1]` as a byte: the channel is limited to that
/// interval, multiplied by 255 and rounded down.
pub open spec fn channel_byte(c: Scalar) -> int {
    (c.clamp(Scalar::zero(), Scalar::one()).raw * 255) / (ONE_RAW as int)
}

fn channel_to_byte(c: Scalar) -> (r: u8)
    ensures
        r == channel_byte(c),
{
    let c = c.clamp(Scalar::zero(), Scalar::one());
    ((c.raw * 255) / ONE_RAW) as u8
}

impl Float3 {
    pub open spec fn new_spec(x: Scalar, y: Scalar, z: Scalar) -> Float3 {
        Float3 { x, y, z }
    }

    pub open spec fn zero_spec() -> Float3 {
        Float3 { x: Scalar::zero(), y: Scalar::zero(), z: Scalar::zero() }
    }

    pub open spec fn one_spec() -> Float3 {
        Float3 { x: Scalar::one(), y: Scalar::one(), z: Scalar::one() }
    }

    pub open spec fn add_spec(self, rhs: Float3) -> Float3 {
        Float3 { x: self.x.add(rhs.x), y: self.y.add(rhs.y), z: self.z.add(rhs.z) }
    }

    pub open spec fn sub_spec(self, rhs: Float3) -> Float3 {
        Float3 { x: self.x.sub(rhs.x), y: self.y.sub(rhs.y), z: self.z.sub(rhs.z) }
    }

    pub open spec fn mul_spec(self, rhs: Float3) -> Float3 {
        Float3 { x: self.x.mul(rhs.x), y: self.y.mul(rhs.y), z: self.z.mul(rhs.z) }
    }

    pub open spec fn div_spec(self, rhs: Float3) -> Float3 {
        Float3 { x: self.x.div(rhs.x), y: self.y.div(rhs.y), z: self.z.div(rhs.z) }
    }

    pub open spec fn scale_spec(self, k: Scalar) -> Float3 {
        Float3 { x: self.x.mul(k), y: self.y.mul(k), z: self.z.mul(k) }
    }

    pub open spec fn shrink_spec(self, k: Scalar) -> Float3 {
        Float3 { x: self.x.div(k), y: self.y.div(k), z: self.z.div(k) }
    }

    pub open spec fn neg_spec(self) -> Float3 {
        Float3 { x: self.x.neg(), y: self.y.neg(), z: self.z.neg() }
    }

    pub open spec fn dot_spec(self, rhs: Float3) -> Scalar {
        self.x.mul(rhs.x).add(self.y.mul(rhs.y)).add(self.z.mul(rhs.z))
    }

    pub open spec fn cross_spec(self, rhs: Float3) -> Float3 {
        Float3 {
            x: self.y.mul(rhs.z).sub(self.z.mul(rhs.y)),
            y: self.z.mul(rhs.x).sub(self.x.mul(rhs.z)),
            z: self.x.mul(rhs.y).sub(self.y.mul(rhs.x)),
        }
    }

    pub open spec fn sqr_magnitude_spec(self) -> Scalar {
        self.dot_spec(self)
    }

    /// Square root of the exact sum of the squared components.
    pub open spec fn length_spec(self) -> Scalar {
        Scalar::norm(self.x, self.y, self.z, Scalar::zero())
    }

    pub open spec fn normalized_spec(self) -> Float3 {
        let len = self.length_spec();
        if len.raw == 0 {
            Float3::zero_spec()
        } else {
            self.shrink_spec(len)
        }
    }

    pub open spec fn lerp_spec(self, rhs: Float3, t: Scalar) -> Float3 {
        let t = t.clamp(Scalar::zero(), Scalar::one());
        self.add_spec(rhs.sub_spec(self).scale_spec(t))
    }

    pub open spec fn approx_eq_spec(lhs: Float3, rhs: Float3, eps: Scalar) -> bool {
        lhs.sub_spec(rhs).length_spec().raw < eps.raw
    }

    pub open spec fn get_spec(self, i: usize) -> Scalar {
        if i == 0 {
            self.x
        } else if i == 1 {
            self.y
        } else {
            self.z
        }
    }

    #[verifier::when_used_as_spec(new_spec)]
    pub fn new(x: Scalar, y: Scalar, z: Scalar) -> (r: Float3)
        ensures
            r == Float3::new_spec(x, y, z),
    {
        Float3 { x, y, z }
    }

    /// The origin; as a colour, black.
    #[verifier::when_used_as_spec(zero_spec)]
    pub fn zero() -> (r: Float3)
        ensures
            r == Float3::zero_spec(),
    {
        Float3 { x: Scalar::zero(), y: Scalar::zero(), z: Scalar::zero() }
    }

    /// The point `(1, 1, 1)`; as a colour, white.
    #[verifier::when_used_as_spec(one_spec)]
    pub fn one() -> (r: Float3)
        ensures
            r == Float3::one_spec(),
    {
        Float3 { x: Scalar::one(), y: Scalar::one(), z: Scalar::one() }
    }

    /// The unit vector along the first axis.
    pub fn right() -> (r: Float3)
        ensures
            r == Float3::new_spec(Scalar::one(), Scalar::zero(), Scalar::zero()),
    {
        Float3 { x: Scalar::one(), y: Scalar::zero(), z: Scalar::zero() }
    }

    /// The unit vector along the second axis.
    pub fn up() -> (r: Float3)
        ensures
            r == Float3::new_spec(Scalar::zero(), Scalar::one(), Scalar::zero()),
    {
        Float3 { x: Scalar::zero(), y: Scalar::one(), z: Scalar::zero() }
    }

    /// The unit vector along the third axis.
    pub fn forward() -> (r: Float3)
        ensures
            r == Float3::new_spec(Scalar::zero(), Scalar::zero(), Scalar::one()),
    {
        Float3 { x: Scalar::zero(), y: Scalar::zero(), z: Scalar::one() }
    }

    /// A planar vector placed in the plane `z = 0`.
    pub fn from_float2(v: Float2) -> (r: Float3)
        ensures
            r == Float3::new_spec(v.x, v.y, Scalar::zero()),
    {
        Float3 { x: v.x, y: v.y, z: Scalar::zero() }
    }

    /// Component-wise sum.
    #[verifier::when_used_as_spec(add_spec)]
    pub fn add(self, rhs: Float3) -> (r: Float3)
        ensures
            r == self.add_spec(rhs),
    {
        Float3 { x: self.x.add(rhs.x), y: self.y.add(rhs.y), z: self.z.add(rhs.z) }
    }

    /// Component-wise difference.
    #[verifier::when_used_as_spec(sub_spec)]
    pub fn sub(self, rhs: Float3) -> (r: Float3)
        ensures
            r == self.sub_spec(rhs),
    {
        Float3 { x: self.x.sub(rhs.x), y: self.y.sub(rhs.y), z: self.z.sub(rhs.z) }
    }

    /// Component-wise product.
    #[verifier::when_used_as_spec(mul_spec)]
    pub fn mul(self, rhs: Float3) -> (r: Float3)
        ensures
            r == self.mul_spec(rhs),
    {
        Float3 { x: self.x.mul(rhs.x), y: self.y.mul(rhs.y), z: self.z.mul(rhs.z) }
    }

    /// Component-wise quotient.
    #[verifier::when_used_as_spec(div_spec)]
    pub fn div(self, rhs: Float3) -> (r: Float3)
        ensures
            r == self.div_spec(rhs),
    {
        Float3 { x: self.x.div(rhs.x), y: self.y.div(rhs.y), z: self.z.div(rhs.z) }
    }

    /// Every component multiplied by `k`.
    #[verifier::when_used_as_spec(scale_spec)]
    pub fn scale(self, k: Scalar) -> (r: Float3)
        ensures
            r == self.scale_spec(k),
    {
        Float3 { x: self.x.mul(k), y: self.y.mul(k), z: self.z.mul(k) }
    }

    /// Every component divided by `k`.
    #[verifier::when_used_as_spec(shrink_spec)]
    pub fn shrink(self, k: Scalar) -> (r: Float3)
        ensures
            r == self.shrink_spec(k),
    {
        Float3 { x: self.x.div(k), y: self.y.div(k), z: self.z.div(k) }
    }

    /// The opposite vector.
    #[verifier::when_used_as_spec(neg_spec)]
    pub fn neg(self) -> (r: Float3)
        ensures
            r == self.neg_spec(),
    {
        Float3 { x: self.x.neg(), y: self.y.neg(), z: self.z.neg() }
    }

    /// Dot product.
    #[verifier::when_used_as_spec(dot_spec)]
    pub fn dot(self, rhs: Float3) -> (r: Scalar)
        ensures
            r == self.dot_spec(rhs),
    {
        self.x.mul(rhs.x).add(self.y.mul(rhs.y)).add(self.z.mul(rhs.z))
    }

    /// Cross product, right-handed.
    #[verifier::when_used_as_spec(cross_spec)]
    pub fn cross(self, rhs: Float3) -> (r: Float3)
        ensures
            r == self.cross_spec(rhs),
    {
        Float3 {
            x: self.y.mul(rhs.z).sub(self.z.mul(rhs.y)),
            y: self.z.mul(rhs.x).sub(self.x.mul(rhs.z)),
            z: self.x.mul(rhs.y).sub(self.y.mul(rhs.x)),
        }
    }

    /// Squared length.
    #[verifier::when_used_as_spec(sqr_magnitude_spec)]
    pub fn sqr_magnitude(self) -> (r: Scalar)
        ensures
            r == self.sqr_magnitude_spec(),
    {
        self.dot(self)
    }

    /// Length.
    #[verifier::when_used_as_spec(length_spec)]
    pub fn length(self) -> (r: Scalar)
        ensures
            r == self.length_spec(),
    {
        Scalar::norm(self.x, self.y, self.z, Scalar::zero())
    }

    /// The vector divided by its length; the zero vector where the length
    /// is zero.
    #[verifier::when_used_as_spec(normalized_spec)]
    pub fn normalized(self) -> (r: Float3)
        ensures
            r == self.normalized_spec(),
    {
        let len = self.length();
        if len.raw == 0 {
            Float3::zero()
        } else {
            self.shrink(len)
        }
    }

    /// Interpolates from `self` at `t = 0` to `rhs` at `t = 1`; `t` is limited
    /// to `[0, 1]` first.
    #[verifier::when_used_as_spec(lerp_spec)]
    pub fn lerp(self, rhs: Float3, t: Scalar) -> (r: Float3)
        ensures
            r == self.lerp_spec(rhs, t),
    {
        let t = t.clamp(Scalar::zero(), Scalar::one());
        self.add(rhs.sub(self).scale(t))
    }

    /// Whether two vectors are less than `eps` apart.
    #[verifier::when_used_as_spec(approx_eq_spec)]
    pub fn approx_eq(lhs: Float3, rhs: Float3, eps: Scalar) -> (r: bool)
        ensures
            r == Float3::approx_eq_spec(lhs, rhs, eps),
    {
        lhs.sub(rhs).length().raw < eps.raw
    }

    /// Component `i`: 0 is `x`, 1 is `y`, 2 is `z`.
    #[verifier::when_used_as_spec(get_spec)]
    pub fn get(self, i: usize) -> (r: Scalar)
        requires
            i < 3,
        ensures
            r == self.get_spec(i),
    {
        if i == 0 {
            self.x
        } else if i == 1 {
            self.y
        } else {
            self.z
        }
    }

    /// Replaces component `i`: 0 is `x`, 1 is `y`, 2 is `z`.
    pub fn set(&mut self, i: usize, v: Scalar)
        requires
            i < 3,
        ensures
            final(self).get_spec(i) == v,
            forall|j: usize| j < 3 && j != i ==> final(self).get_spec(j) == old(self).get_spec(j),
    {
        if i == 0 {
            self.x = v;
        } else if i == 1 {
            self.y = v;
        } else {
            self.z = v;
        }
    }

    /// The colour as red, green, blue and alpha bytes; alpha is opaque.
    pub fn to_rgba_bytes(self) -> (r: (u8, u8, u8, u8))
        ensures
            r.0 == channel_byte(self.x),
            r.1 == channel_byte(self.y),
            r.2 == channel_byte(self.z),
            r.3 == 255,
    {
        (channel_to_byte(self.x), channel_to_byte(self.y), channel_to_byte(self.z), 255)
    }

    /// The colour packed as `0x00RRGGBB`.
    pub fn to_minifb_rgb(self) -> (r: u32)
        ensures
            r == channel_byte(self.x) * 0x1_0000 + channel_byte(self.y) * 0x100 + channel_byte(
                self.z,
            ),
    {
        let r: u32 = channel_to_byte(self.x) as u32;
        let g: u32 = channel_to_byte(self.y) as u32;
        let b: u32 = channel_to_byte(self.z) as u32;
        r * 0x1_0000 + g * 0x100 + b
    }
}

} // verus!
