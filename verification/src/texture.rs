pub mod sampler;
pub mod texture;
