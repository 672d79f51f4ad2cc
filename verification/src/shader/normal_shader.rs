//! The normal as a colour.
use vstd::prelude::*;
use crate::scalar::Scalar;
use crate::primitives::float2::Float2;
use crate::primitives::float3::Float3;
use crate::shader::{PixelShader, ShaderGlobals};

verus! {

/// Colours a fragment with its interpolated normal.
#[derive(Debug)]
pub struct NormalShader();

impl PixelShader for NormalShader {
    open spec fn color_spec(
        &self,
        pixel: Float2,
        uv: Float2,
        normal: Float3,
        depth: Scalar,
        globals: ShaderGlobals,
    ) -> Float3 {
        normal
    }

    fn pixel_color(
        &self,
        _pixel: Float2,
        _uv: Float2,
        normal: Float3,
        _depth: Scalar,
        _globals: &ShaderGlobals,
    ) -> (r: Float3) {
        normal
    }
}

} // verus!
