//! A software 3D rasterizer on binary fixed-point numbers.
//!
//! The crate turns a hierarchy of posed meshes, a camera and a pixel shader
//! into a colour and depth buffer.  Every number is a [`scalar::Scalar`], a
//! signed fixed-point value with 32 fractional bits whose operations round
//! toward zero and saturate instead of overflowing, so every function here
//! is total and gives the same result on every machine.
//!
//! * [`scalar`], [`primitives`], [`ops`] and [`order`]: the algebra of
//!   scalars, vectors, rotations and transforms.
//! * [`pose_graph`]: frames placed in one another, and the transforms
//!   between them.
//! * [`camera`]: projection onto the screen.
//! * [`raster`]: the two stages from triangles in space to pixels.
//! * [`render_buffer`] and [`frame`]: what is drawn into.
//! * [`shader`] and [`texture`]: how a fragment gets its colour.
//! * [`mesh`] and [`obj`]: triangle meshes and the text they are read from.
//! * [`entity`], [`scene`], [`coords`], [`input`], [`grid`]: what holds the
//!   rest together.
pub mod scalar;
pub mod grid;
pub mod primitives;
pub mod ops;
pub mod order;
pub mod pose_graph;
pub mod camera;
pub mod texture;
pub mod shader;
pub mod render_buffer;
pub mod coords;
pub mod frame;
pub mod mesh;
pub mod obj;
pub mod entity;
pub mod scene;
pub mod raster;
pub mod input;
