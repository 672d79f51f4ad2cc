//! Per-corner attributes under their older name.
use vstd::prelude::*;
use crate::scalar::Scalar;
use crate::primitives::float2::Float2;
use crate::primitives::float3::Float3;
use crate::primitives::triangle::Tri;

verus! {

/// The corners of a triangle on the screen with their attributes.
#[derive(Clone, Copy, Debug)]
pub struct VertexData2D {
    pub vertices: Tri<Float2>,
    pub depths: Tri<Scalar>,
    pub normals: Tri<Float3>,
    pub uvs: Tri<Float2>,
}

/// The corners of a triangle in space with their attributes.
#[derive(Clone, Copy, Debug)]
pub struct VertexData3D {
    pub vertices: Tri<Float3>,
    pub normals: Tri<Float3>,
    pub uvs: Tri<Float2>,
}

} // verus!
