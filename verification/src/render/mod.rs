//! Rendering. What the GPU is told about the ring's geometry, and the errors
//! the GL layer reports.

pub mod gles;
pub mod uniforms;
