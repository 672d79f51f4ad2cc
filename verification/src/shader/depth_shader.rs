//! Grey by distance.
use vstd::prelude::*;
use crate::scalar::Scalar;
use crate::primitives::float2::Float2;
use crate::primitives::float3::Float3;
use crate::shader::{PixelShader, ShaderGlobals};

verus! {

/// Colours a fragment grey in proportion to its depth: white at five
/// units.
#[derive(Debug)]
pub struct DepthShader();

impl PixelShader for DepthShader {
    open spec fn color_spec(
        &self,
        pixel: Float2,
        uv: Float2,
        normal: Float3,
        depth: Scalar,
        globals: ShaderGlobals,
    ) -> Float3 {
        Float3::one().scale(depth.div(Scalar::from_int_spec(5)))
    }

    fn pixel_color(
        &self,
        _pixel: Float2,
        _uv: Float2,
        _normal: Float3,
        depth: Scalar,
        _globals: &ShaderGlobals,
    ) -> (r: Float3) {
        Float3::one().scale(depth.div(Scalar::from_int(5)))
    }
}

} // verus!
