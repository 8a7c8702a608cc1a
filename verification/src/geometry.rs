pub mod attribute;
pub mod geometry;
pub mod index;
