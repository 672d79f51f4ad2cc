//! Everything one frame is drawn from.
use vstd::prelude::*;
use crate::camera::CameraModel;
use crate::entity::Entity;
use crate::pose_graph::PoseGraph;
use crate::shader::{PixelShader, ShaderGlobals};

verus! {

/// The frames, the entities placed at them, the camera and what the
/// shaders may read.
pub struct SceneData<S: PixelShader + ?Sized, const WIDTH: usize, const HEIGHT: usize> {
    pub graph: PoseGraph,
    pub entities: Vec<(String, Entity<S>)>,
    pub cam_model: CameraModel<WIDTH, HEIGHT>,
    pub cam_pose: usize,
    pub globals: ShaderGlobals,
}

impl<S: PixelShader + ?Sized, const WIDTH: usize, const HEIGHT: usize> SceneData<S, WIDTH, HEIGHT> {
    /// Whether the graph is well formed and the camera and every entity
    /// sit at one of its nodes.
    pub open spec fn wf(&self) -> bool {
        &&& self.graph.wf()
        &&& self.cam_pose < self.graph@.len()
        &&& forall|i: int|
            0 <= i < self.entities@.len() ==> (#[trigger] self.entities@[i]).1.pose
                < self.graph@.len()
    }

    /// A scene without entities whose camera sits at the root of `graph`.
    pub fn new(graph: PoseGraph, cam_model: CameraModel<WIDTH, HEIGHT>) -> (r: Self)
        requires
            graph.wf(),
        ensures
            r.wf(),
            r.graph == graph,
            r.cam_model == cam_model,
            r.cam_pose == 0,
            r.entities@.len() == 0,
    {
        SceneData {
            graph,
            entities: Vec::new(),
            cam_model,
            cam_pose: 0,
            globals: ShaderGlobals::default(),
        }
    }
}

} // verus!
