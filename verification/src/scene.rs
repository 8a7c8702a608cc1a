pub mod camera;
pub mod hierarchy;
pub mod index;
pub mod mesh;
pub mod node;
pub mod object;
pub mod propagation;
pub mod scene;
pub mod validation;
