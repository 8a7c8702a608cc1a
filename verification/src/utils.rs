pub mod gltf_loader;
pub mod material_helper;
pub mod texture_loader;
