//! The value types of the algebra.
pub mod face;
pub mod float2;
pub mod float3;
pub mod quaternion;
pub mod transform;
pub mod triangle;
pub mod vector_ops;
pub mod vertex;

pub use face::{FaceData2D, FaceData3D};
pub use float2::Float2;
pub use float3::Float3;
pub use quaternion::{Quaternion, QuaternionParts, SlerpArc};
pub use transform::{NonInvertibleError, Transform, TransformParts};
pub use triangle::Tri;
pub use vector_ops::VectorOps;
pub use vertex::{VertexData2D, VertexData3D};
