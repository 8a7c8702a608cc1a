pub mod material;
pub mod node;
pub mod text;
pub mod uniform_layout;
