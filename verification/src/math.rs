pub mod color;
pub mod euler;
pub mod matrix3;
pub mod matrix3gpu;
pub mod matrix4;
pub mod quaternion;
pub mod scalar;
pub mod vector3;
