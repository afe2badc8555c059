pub mod bytes;
pub mod color;
pub mod config;
pub mod laws;
pub mod render;
pub mod search;
pub mod strip;
