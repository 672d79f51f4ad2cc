//! What the rasterizer draws: a mesh at a pose with a shader.
use vstd::prelude::*;
use std::sync::Arc;
use crate::mesh::Mesh;
use crate::shader::PixelShader;

verus! {

/// A mesh placed at a node of the pose graph and coloured by a shader.
/// Mesh and shader are shared, read-only, between entities and threads.
/// With `dyn PixelShader` for `S`, entities of different shaders fit one
/// list.
pub struct Entity<S: PixelShader + ?Sized> {
    pub pose: usize,
    pub mesh: Arc<Mesh>,
    pub shader: Arc<S>,
}

impl<S: PixelShader + ?Sized> Entity<S> {
    pub fn new(pose: usize, mesh: Arc<Mesh>, shader: Arc<S>) -> (r: Self)
        ensures
            r.pose == pose,
            r.mesh == mesh,
            r.shader == shader,
    {
        Self { pose, mesh, shader }
    }
}

} // verus!
