//! Data and logic core of a real-time 3D renderer: a typed resource arena,
//! a scene graph with hierarchical transforms, and a shading-graph compiler
//! that produces shader source and a uniform-buffer layout.

pub mod geometry;
pub mod material;
pub mod math;
pub mod resource;
pub mod scene;
pub mod texture;
pub mod utils;
