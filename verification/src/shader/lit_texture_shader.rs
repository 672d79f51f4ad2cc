//! A texture under a directional light.
use vstd::prelude::*;
use crate::scalar::Scalar;
use crate::primitives::float2::Float2;
use crate::primitives::float3::Float3;
use crate::shader::{PixelShader, ShaderGlobals};
use crate::texture::{lemma_complete_has_every_sample, Texture, TextureParts};

verus! {

/// Raw value of one half.
pub const HALF_RAW: i64 = 0x8000_0000;

/// Raw value of 0.4, the brightness of a surface that faces away from the
/// light.
pub const AMBIENT_RAW: i64 = 0x6666_6666;

/// Raw value of 0.6, the brightness that the light adds to a surface that
/// faces it.
pub const DIFFUSE_RAW: i64 = 0x9999_9999;

/// How brightly a surface with the given normal is lit: 0.4 where it faces
/// away from the light, 1.0 where it faces the light.
pub open spec fn brightness(normal: Float3, sun: Float3) -> Scalar {
    let facing = Scalar { raw: HALF_RAW }.mul(Scalar::one().add(normal.normalized().dot(sun)));
    Scalar { raw: AMBIENT_RAW }.add(
        Scalar { raw: DIFFUSE_RAW }.mul(facing.clamp(Scalar::zero(), Scalar::one())),
    )
}

/// Colours a fragment with the sample of a texture, dimmed by how far its
/// normal turns away from the light.  The texture is complete, so every
/// coordinate has a sample.
#[derive(Debug)]
pub struct LitTextureShader {
    texture: Texture,
}

impl LitTextureShader {
    #[verifier::type_invariant]
    spec fn inv(self) -> bool {
        &&& self.texture@.is_complete()
        &&& 0 < self.texture@.width <= usize::MAX
        &&& 0 < self.texture@.height <= usize::MAX
    }

    /// The texture that is sampled, as plain values.
    pub closed spec fn texture_parts(&self) -> TextureParts {
        self.texture@
    }

    /// A shader that samples `texture`, which has to be complete.
    pub fn new(texture: Texture) -> (r: Self)
        requires
            texture@.is_complete(),
        ensures
            r.texture_parts() == texture@,
    {
        let width = texture.width();
        let height = texture.height();
        Self { texture }
    }

    /// The texture that is sampled.
    pub fn texture(&self) -> (r: &Texture)
        ensures
            r@ == self.texture_parts(),
            r@.is_complete(),
    {
        proof {
            use_type_invariant(self);
        }
        &self.texture
    }
}

impl Clone for LitTextureShader {
    fn clone(&self) -> (r: LitTextureShader)
        ensures
            r.texture_parts() == self.texture_parts(),
    {
        proof {
            use_type_invariant(self);
        }
        LitTextureShader { texture: self.texture.clone() }
    }
}

impl PixelShader for LitTextureShader {
    open spec fn color_spec(
        &self,
        pixel: Float2,
        uv: Float2,
        normal: Float3,
        depth: Scalar,
        globals: ShaderGlobals,
    ) -> Float3 {
        self.texture_parts().data[self.texture_parts().sample_index(uv)].scale(
            brightness(normal, globals.sun_direction_cam_space),
        )
    }

    fn pixel_color(
        &self,
        _pixel: Float2,
        uv: Float2,
        normal: Float3,
        _depth: Scalar,
        globals: &ShaderGlobals,
    ) -> (r: Float3) {
        proof {
            use_type_invariant(self);
            lemma_complete_has_every_sample(self.texture@, uv);
        }
        let facing = Scalar::from_raw(HALF_RAW).mul(
            Scalar::one().add(normal.normalized().dot(globals.sun_direction_cam_space)),
        );
        let scaled = Scalar::from_raw(AMBIENT_RAW).add(
            Scalar::from_raw(DIFFUSE_RAW).mul(facing.clamp(Scalar::zero(), Scalar::one())),
        );
        self.texture.sample(uv).scale(scaled)
    }
}

} // verus!
