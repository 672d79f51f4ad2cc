//! A texture, unlit.
use vstd::prelude::*;
use crate::scalar::Scalar;
use crate::primitives::float2::Float2;
use crate::primitives::float3::Float3;
use crate::shader::{PixelShader, ShaderGlobals};
use crate::texture::{lemma_complete_has_every_sample, Texture, TextureParts};

verus! {

/// Colours a fragment with the sample of a texture at its coordinate.
/// The texture is complete, so every coordinate has a sample.
#[derive(Debug)]
pub struct TextureShader {
    texture: Texture,
}

impl TextureShader {
    #[verifier::type_invariant]
    spec fn inv(self) -> bool {
        &&& self.texture@.is_complete()
        &&& 0 < self.texture@.width <= usize::MAX
        &&& 0 < self.texture@.height <= usize::MAX
    }

    /// The texture that is sampled, as plain values.
    pub closed spec fn texture_parts(&self) -> TextureParts {
        self.texture@
    }

    /// A shader that samples `texture`, which has to be complete.
    pub fn new(texture: Texture) -> (r: Self)
        requires
            texture@.is_complete(),
        ensures
            r.texture_parts() == texture@,
    {
        let width = texture.width();
        let height = texture.height();
        Self { texture }
    }

    /// The texture that is sampled.
    pub fn texture(&self) -> (r: &Texture)
        ensures
            r@ == self.texture_parts(),
            r@.is_complete(),
    {
        proof {
            use_type_invariant(self);
        }
        &self.texture
    }
}

impl Clone for TextureShader {
    fn clone(&self) -> (r: TextureShader)
        ensures
            r.texture_parts() == self.texture_parts(),
    {
        proof {
            use_type_invariant(self);
        }
        TextureShader { texture: self.texture.clone() }
    }
}

impl PixelShader for TextureShader {
    open spec fn color_spec(
        &self,
        pixel: Float2,
        uv: Float2,
        normal: Float3,
        depth: Scalar,
        globals: ShaderGlobals,
    ) -> Float3 {
        self.texture_parts().data[self.texture_parts().sample_index(uv)]
    }

    fn pixel_color(
        &self,
        _pixel: Float2,
        uv: Float2,
        _normal: Float3,
        _depth: Scalar,
        _globals: &ShaderGlobals,
    ) -> (r: Float3) {
        proof {
            use_type_invariant(self);
            lemma_complete_has_every_sample(self.texture@, uv);
        }
        self.texture.sample(uv)
    }
}

} // verus!
