//! Selection of the images in an object store that still lack a thumbnail of a
//! given size, and the per-image step that produces one.
pub mod text;
pub mod keys;
pub mod selection;
pub mod laws;
pub mod thumbnail;
