pub mod add;
pub mod brdf;
pub mod const_float;
pub mod const_vector3;
pub mod emission;
pub mod float;
pub mod multiply;
pub mod node;
pub mod normal;
pub mod normal_matrix;
pub mod srgb_to_linear;
pub mod sub;
pub mod tangent_to_object_normal;
pub mod texture;
pub mod vector3;
pub mod xyz;
pub mod y;
pub mod z;
