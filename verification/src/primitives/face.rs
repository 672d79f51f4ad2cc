//! The attributes of one triangle of a mesh, before and after projection.
use vstd::prelude::*;
use crate::scalar::Scalar;
use crate::primitives::float2::Float2;
use crate::primitives::float3::Float3;
use crate::primitives::triangle::Tri;

verus! {

/// A triangle on the screen: where its corners are, how far each is from
/// the camera, and the normal and texture coordinate at each.
#[derive(Clone, Copy, Debug)]
pub struct FaceData2D {
    pub vertices: Tri<Float2>,
    pub depths: Tri<Scalar>,
    pub normals: Tri<Float3>,
    pub uvs: Tri<Float2>,
}

/// A triangle of a mesh: position, normal and texture coordinate of each
/// corner, in the space of the mesh.
#[derive(Clone, Copy, Debug)]
pub struct FaceData3D {
    pub vertices: Tri<Float3>,
    pub normals: Tri<Float3>,
    pub uvs: Tri<Float2>,
}

} // verus!
