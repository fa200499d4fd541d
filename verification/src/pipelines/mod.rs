//! Pipeline manifests, texture allocation and compilation.

pub mod executable_pipeline;
pub mod physical_texture;
pub mod pipeline_specs;
pub mod validation;

pub use executable_pipeline::{
    CompileError, ExecutablePass, ExecutablePipeline, PhysicalTextureBinding, PipelineCompiler,
};
pub use physical_texture::{assign_physical_textures, PhysicalTexture, TextureLifetime};
pub use pipeline_specs::{
    Pass, PipelineSpec, SamplerBinding, SamplerFilterMode, ScaleFactor, ScaleFactorParseError,
    TextureBindingSpec, TextureOutput,
};
pub use validation::PipelineValidationError;
