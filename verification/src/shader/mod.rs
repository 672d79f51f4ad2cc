//! The interface between the rasterizer and the code that colours a pixel.
pub mod depth_shader;
pub mod lit_texture_shader;
pub mod normal_shader;
pub mod texture_shader;

pub use depth_shader::DepthShader;
pub use lit_texture_shader::LitTextureShader;
pub use normal_shader::NormalShader;
pub use texture_shader::TextureShader;

use vstd::prelude::*;
use crate::scalar::Scalar;
use crate::primitives::float2::Float2;
use crate::primitives::float3::Float3;

verus! {

/// What every shader may read of the frame being drawn.
#[derive(Clone, Copy, Debug)]
pub struct ShaderGlobals {
    /// Direction of the light, in camera space.
    pub sun_direction_cam_space: Float3,
    /// Seconds since the scene started.
    pub time: Scalar,
}

impl Default for ShaderGlobals {
    fn default() -> (r: ShaderGlobals)
        ensures
            r.sun_direction_cam_space == Float3::zero(),
            r.time == Scalar::zero(),
    {
        ShaderGlobals { sun_direction_cam_space: Float3::zero(), time: Scalar::zero() }
    }
}

/// Anything that gives a surviving fragment its colour.
///
/// A shader is a function: the colour depends on the arguments alone,
/// which `color_spec` records.  It is called once for each fragment that
/// passes the depth test.
pub trait PixelShader: Sync + Send {
    /// The colour of the fragment, as a function of the arguments.  An
    /// implementation states it here; one that does not leaves it unknown.
    open spec fn color_spec(
        &self,
        pixel: Float2,
        uv: Float2,
        normal: Float3,
        depth: Scalar,
        globals: ShaderGlobals,
    ) -> Float3 {
        arbitrary()
    }

    /// The colour of the fragment at the screen position `pixel`, with the
    /// interpolated texture coordinate, normal and depth.
    fn pixel_color(
        &self,
        pixel: Float2,
        uv: Float2,
        normal: Float3,
        depth: Scalar,
        globals: &ShaderGlobals,
    ) -> (r: Float3)
        ensures
            r == self.color_spec(pixel, uv, normal, depth, *globals),
    ;
}

} // verus!
