//! The arithmetic operators of the value types.
//!
//! Each operator is the method of the same meaning: `a + b` is `a.add(b)`,
//! a vector times a scalar is `scale`, a vector divided by a scalar is
//! `shrink`, and a rotation times a point is `rotate`.
use vstd::prelude::*;
use vstd::std_specs::ops::{AddSpecImpl, DivSpecImpl, MulSpecImpl, NegSpecImpl, RemSpecImpl, SubSpecImpl};
use crate::scalar::Scalar;
use crate::primitives::float2::Float2;
use crate::primitives::float3::Float3;
use crate::primitives::quaternion::Quaternion;

verus! {

impl core::ops::Add for Scalar {
    type Output = Scalar;

    fn add(self, rhs: Scalar) -> (r: Scalar) {
        self.add(rhs)
    }
}

impl AddSpecImpl for Scalar {
    open spec fn obeys_add_spec() -> bool {
        true
    }

    open spec fn add_req(self, rhs: Scalar) -> bool {
        true
    }

    open spec fn add_spec(self, rhs: Scalar) -> Scalar {
        Scalar::add_spec(self, rhs)
    }
}

impl core::ops::Sub for Scalar {
    type Output = Scalar;

    fn sub(self, rhs: Scalar) -> (r: Scalar) {
        self.sub(rhs)
    }
}

impl SubSpecImpl for Scalar {
    open spec fn obeys_sub_spec() -> bool {
        true
    }

    open spec fn sub_req(self, rhs: Scalar) -> bool {
        true
    }

    open spec fn sub_spec(self, rhs: Scalar) -> Scalar {
        Scalar::sub_spec(self, rhs)
    }
}

impl core::ops::Mul for Scalar {
    type Output = Scalar;

    fn mul(self, rhs: Scalar) -> (r: Scalar) {
        self.mul(rhs)
    }
}

impl MulSpecImpl for Scalar {
    open spec fn obeys_mul_spec() -> bool {
        true
    }

    open spec fn mul_req(self, rhs: Scalar) -> bool {
        true
    }

    open spec fn mul_spec(self, rhs: Scalar) -> Scalar {
        Scalar::mul_spec(self, rhs)
    }
}

impl core::ops::Div for Scalar {
    type Output = Scalar;

    fn div(self, rhs: Scalar) -> (r: Scalar) {
        self.div(rhs)
    }
}

impl DivSpecImpl for Scalar {
    open spec fn obeys_div_spec() -> bool {
        true
    }

    open spec fn div_req(self, rhs: Scalar) -> bool {
        true
    }

    open spec fn div_spec(self, rhs: Scalar) -> Scalar {
        Scalar::div_spec(self, rhs)
    }
}

impl core::ops::Add for Float2 {
    type Output = Float2;

    fn add(self, rhs: Float2) -> (r: Float2) {
        self.add(rhs)
    }
}

impl AddSpecImpl for Float2 {
    open spec fn obeys_add_spec() -> bool {
        true
    }

    open spec fn add_req(self, rhs: Float2) -> bool {
        true
    }

    open spec fn add_spec(self, rhs: Float2) -> Float2 {
        Float2::add_spec(self, rhs)
    }
}

impl core::ops::Sub for Float2 {
    type Output = Float2;

    fn sub(self, rhs: Float2) -> (r: Float2) {
        self.sub(rhs)
    }
}

impl SubSpecImpl for Float2 {
    open spec fn obeys_sub_spec() -> bool {
        true
    }

    open spec fn sub_req(self, rhs: Float2) -> bool {
        true
    }

    open spec fn sub_spec(self, rhs: Float2) -> Float2 {
        Float2::sub_spec(self, rhs)
    }
}

impl core::ops::Mul for Float2 {
    type Output = Float2;

    fn mul(self, rhs: Float2) -> (r: Float2) {
        self.mul(rhs)
    }
}

impl MulSpecImpl for Float2 {
    open spec fn obeys_mul_spec() -> bool {
        true
    }

    open spec fn mul_req(self, rhs: Float2) -> bool {
        true
    }

    open spec fn mul_spec(self, rhs: Float2) -> Float2 {
        Float2::mul_spec(self, rhs)
    }
}

impl core::ops::Div for Float2 {
    type Output = Float2;

    fn div(self, rhs: Float2) -> (r: Float2) {
        self.div(rhs)
    }
}

impl DivSpecImpl for Float2 {
    open spec fn obeys_div_spec() -> bool {
        true
    }

    open spec fn div_req(self, rhs: Float2) -> bool {
        true
    }

    open spec fn div_spec(self, rhs: Float2) -> Float2 {
        Float2::div_spec(self, rhs)
    }
}

impl core::ops::Add for Float3 {
    type Output = Float3;

    fn add(self, rhs: Float3) -> (r: Float3) {
        self.add(rhs)
    }
}

impl AddSpecImpl for Float3 {
    open spec fn obeys_add_spec() -> bool {
        true
    }

    open spec fn add_req(self, rhs: Float3) -> bool {
        true
    }

    open spec fn add_spec(self, rhs: Float3) -> Float3 {
        Float3::add_spec(self, rhs)
    }
}

impl core::ops::Sub for Float3 {
    type Output = Float3;

    fn sub(self, rhs: Float3) -> (r: Float3) {
        self.sub(rhs)
    }
}

impl SubSpecImpl for Float3 {
    open spec fn obeys_sub_spec() -> bool {
        true
    }

    open spec fn sub_req(self, rhs: Float3) -> bool {
        true
    }

    open spec fn sub_spec(self, rhs: Float3) -> Float3 {
        Float3::sub_spec(self, rhs)
    }
}

impl core::ops::Mul for Float3 {
    type Output = Float3;

    fn mul(self, rhs: Float3) -> (r: Float3) {
        self.mul(rhs)
    }
}

impl MulSpecImpl for Float3 {
    open spec fn obeys_mul_spec() -> bool {
        true
    }

    open spec fn mul_req(self, rhs: Float3) -> bool {
        true
    }

    open spec fn mul_spec(self, rhs: Float3) -> Float3 {
        Float3::mul_spec(self, rhs)
    }
}

impl core::ops::Div for Float3 {
    type Output = Float3;

    fn div(self, rhs: Float3) -> (r: Float3) {
        self.div(rhs)
    }
}

impl DivSpecImpl for Float3 {
    open spec fn obeys_div_spec() -> bool {
        true
    }

    open spec fn div_req(self, rhs: Float3) -> bool {
        true
    }

    open spec fn div_spec(self, rhs: Float3) -> Float3 {
        Float3::div_spec(self, rhs)
    }
}

impl core::ops::Rem for Scalar {
    type Output = Scalar;

    fn rem(self, rhs: Scalar) -> (r: Scalar) {
        self.rem(rhs)
    }
}

impl RemSpecImpl for Scalar {
    open spec fn obeys_rem_spec() -> bool {
        true
    }

    open spec fn rem_req(self, rhs: Scalar) -> bool {
        true
    }

    open spec fn rem_spec(self, rhs: Scalar) -> Scalar {
        Scalar::rem_spec(self, rhs)
    }
}

impl core::ops::Mul<Scalar> for Float2 {
    type Output = Float2;

    fn mul(self, rhs: Scalar) -> (r: Float2) {
        self.scale(rhs)
    }
}

impl MulSpecImpl<Scalar> for Float2 {
    open spec fn obeys_mul_spec() -> bool {
        true
    }

    open spec fn mul_req(self, rhs: Scalar) -> bool {
        true
    }

    open spec fn mul_spec(self, rhs: Scalar) -> Float2 {
        Float2::scale_spec(self, rhs)
    }
}

impl core::ops::Div<Scalar> for Float2 {
    type Output = Float2;

    fn div(self, rhs: Scalar) -> (r: Float2) {
        self.shrink(rhs)
    }
}

impl DivSpecImpl<Scalar> for Float2 {
    open spec fn obeys_div_spec() -> bool {
        true
    }

    open spec fn div_req(self, rhs: Scalar) -> bool {
        true
    }

    open spec fn div_spec(self, rhs: Scalar) -> Float2 {
        Float2::shrink_spec(self, rhs)
    }
}

impl core::ops::Mul<Scalar> for Float3 {
    type Output = Float3;

    fn mul(self, rhs: Scalar) -> (r: Float3) {
        self.scale(rhs)
    }
}

impl MulSpecImpl<Scalar> for Float3 {
    open spec fn obeys_mul_spec() -> bool {
        true
    }

    open spec fn mul_req(self, rhs: Scalar) -> bool {
        true
    }

    open spec fn mul_spec(self, rhs: Scalar) -> Float3 {
        Float3::scale_spec(self, rhs)
    }
}

impl core::ops::Div<Scalar> for Float3 {
    type Output = Float3;

    fn div(self, rhs: Scalar) -> (r: Float3) {
        self.shrink(rhs)
    }
}

impl DivSpecImpl<Scalar> for Float3 {
    open spec fn obeys_div_spec() -> bool {
        true
    }

    open spec fn div_req(self, rhs: Scalar) -> bool {
        true
    }

    open spec fn div_spec(self, rhs: Scalar) -> Float3 {
        Float3::shrink_spec(self, rhs)
    }
}

impl core::ops::Mul<Float3> for Quaternion {
    type Output = Float3;

    fn mul(self, rhs: Float3) -> (r: Float3) {
        self.rotate(rhs)
    }
}

impl MulSpecImpl<Float3> for Quaternion {
    open spec fn obeys_mul_spec() -> bool {
        true
    }

    open spec fn mul_req(self, rhs: Float3) -> bool {
        true
    }

    open spec fn mul_spec(self, rhs: Float3) -> Float3 {
        self@.rotate_spec(rhs)
    }
}

impl core::ops::Neg for Scalar {
    type Output = Scalar;

    fn neg(self) -> (r: Scalar) {
        Scalar::saturate(-(self.raw as i128))
    }
}

impl NegSpecImpl for Scalar {
    open spec fn obeys_neg_spec() -> bool {
        true
    }

    open spec fn neg_req(self) -> bool {
        true
    }

    open spec fn neg_spec(self) -> Scalar {
        Scalar::of(-self.raw)
    }
}

} // verus!
