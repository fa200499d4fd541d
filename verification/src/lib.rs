//! Compiler for multi-pass image-processing shader pipelines.
//!
//! Pipelines are written either as shader hooks (`cnn`) or as a pass-list
//! manifest (`pipelines`). Both are compiled into an `ExecutablePipeline`:
//! passes with their bindings resolved to physical textures that are shared
//! between logical textures whose lifetimes do not overlap.

pub mod cnn;
pub mod compare;
pub mod glsl_hook;
pub mod minify;
pub mod pattern;
pub mod pipelines;
pub mod presets;
pub mod text;

pub use cnn::cnn_glsl_to_executable_pipeline;
pub use minify::minify_wgsl;
