//! Shader hooks: parsing the hook format and translating convolution stages.

pub mod convert;
pub mod error;
pub mod hook;
pub mod pipeline;

pub use convert::{ConvPatterns, StageKind, StageView, WgslStageShader, WgslStageShaderType};
pub use error::{HookError, HookFault};
pub use pipeline::{cnn_glsl_to_executable_pipeline, CnnError};
pub use hook::{ConvolutionStageType, HookView, MpvHook};
