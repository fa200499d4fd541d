use anime4k_build::cnn::pipeline::{stage_file_name, stage_pass, stages_of_source};
use anime4k_build::cnn::{cnn_glsl_to_executable_pipeline, CnnError, HookError};
use anime4k_build::minify::minify_wgsl;
use anime4k_build::pipelines::{CompileError, SamplerFilterMode, ScaleFactor};

const SOURCE: &str = "//!DESC Net-Conv-4x3x3x3\n//!HOOK MAIN\n//!BIND MAIN\n//!SAVE conv2d_tf\n//!WIDTH MAIN.w\n//!HEIGHT MAIN.h\n//!COMPONENTS 4\n#define go_0(x_off, y_off) (MAIN_texOff(vec2(x_off, y_off)))\nvec4 hook() {\n    vec4 result = mat4(0.1, 0.2, 0.3, 0.4, 0.1, 0.2, 0.3, 0.4, 0.1, 0.2, 0.3, 0.4, 0.1, 0.2, 0.3, 0.4) * go_0(0.0, 0.0);\n    result += vec4(0.1, 0.2, 0.3, 0.4);\n    return result;\n}\n//!DESC Net-Conv-4x1x1x8\n//!HOOK MAIN\n//!BIND MAIN\n//!BIND conv2d_tf\n//!SAVE conv2d_last_tf\n//!WIDTH conv2d_tf.w\n//!HEIGHT conv2d_tf.h\n//!COMPONENTS 4\n#define g_0 (max((conv2d_tf_tex(conv2d_tf_pos)), 0.0))\nvec4 hook() {\n    vec4 result = mat4(0.5, 0.5, 0.5, 0.5, 0.5, 0.5, 0.5, 0.5, 0.5, 0.5, 0.5, 0.5, 0.5, 0.5, 0.5, 0.5) * g_0;\n    return result;\n}\n//!DESC Net-Depth-to-Space\n//!HOOK MAIN\n//!BIND MAIN\n//!BIND conv2d_last_tf\n//!SAVE MAIN\n//!WIDTH conv2d_last_tf.w 2 *\n//!HEIGHT conv2d_last_tf.h 2 *\nvec4 hook() {\n    return vec4(0.0);\n}\n";

fn helper(file: &str) -> Result<String, std::io::Error> {
    if file == "depth_to_space_in1x2.wgsl" {
        Ok("// ready-made".to_string())
    } else {
        Err(std::io::Error::new(std::io::ErrorKind::NotFound, file.to_string()))
    }
}

#[test]
fn hooks_become_passes_of_one_pipeline() {
    let pipeline = cnn_glsl_to_executable_pipeline(SOURCE, helper, false).unwrap();
    assert_eq!(pipeline.id, "anime4k_cnn");
    assert_eq!(pipeline.name, "Anime4K CNN");
    assert_eq!(pipeline.description, None);
    assert_eq!(pipeline.passes.len(), 3);
    assert_eq!(pipeline.passes[0].id, "Pass 1");
    assert_eq!(pipeline.passes[2].id, "Pass 3");
    assert!(pipeline.passes[0].shader.starts_with("// Layer: Net-Conv-4x3x3x3\n"));
    assert!(pipeline.passes[1].shader.contains("fn g_0(pos: vec2i) -> vec4f {"));
    assert_eq!(pipeline.passes[2].shader, "// ready-made");
    assert_eq!(pipeline.passes[2].input_textures.len(), 2);
    assert_eq!(pipeline.passes[2].input_textures[0].logical_id, "SOURCE");
    assert_eq!(pipeline.passes[2].input_textures[0].physical_id, u32::MAX);
    assert_eq!(pipeline.passes[2].input_textures[1].logical_id, "conv2d_last_tf");
    assert_eq!(pipeline.passes[2].output_textures[0].logical_id, "RESULT");
    assert_eq!(pipeline.passes[2].output_textures[0].binding, 2);
    assert_eq!(pipeline.passes[2].samplers.len(), 1);
    assert_eq!(pipeline.passes[2].samplers[0].binding, 3);
    assert_eq!(pipeline.passes[0].samplers.len(), 0);
    assert_eq!(pipeline.required_samplers, vec![SamplerFilterMode::Linear]);
    // conv2d_tf [0,1], conv2d_last_tf [1,2], RESULT [2,2] at another scale
    assert_eq!(pipeline.physical_textures.len(), 4);
    assert_eq!(pipeline.get_result_texture_id(), Some(2));
    assert_eq!(
        pipeline.get_final_scale_factor(),
        Some((ScaleFactor::new(2, 1), ScaleFactor::new(2, 1)))
    );
    assert_eq!(
        pipeline.passes[2].compute_scale_factors,
        (ScaleFactor::new(2, 1), ScaleFactor::new(2, 1))
    );
}

#[test]
fn stages_name_their_shader_files() {
    let stages = stages_of_source(SOURCE).unwrap();
    assert_eq!(stages.len(), 3);
    assert_eq!(stage_file_name(0, &stages[0]), "pass_0.wgsl");
    assert_eq!(stage_file_name(12, &stages[1]), "pass_12.wgsl");
    assert_eq!(stage_file_name(2, &stages[2]), "depth_to_space_in1x2.wgsl");
    let pass = stage_pass(2, &stages[2]);
    assert_eq!(pass.id, "Pass 3");
    assert_eq!(pass.file, "depth_to_space_in1x2.wgsl");
    assert_eq!(pass.inputs.len(), 2);
    assert_eq!(pass.inputs[1].id, "conv2d_last_tf");
    assert_eq!(pass.inputs[1].binding, 1);
    assert_eq!(pass.outputs.len(), 1);
    assert_eq!(pass.outputs[0].id, "RESULT");
    assert_eq!(pass.outputs[0].components, 4);
    assert_eq!(pass.outputs[0].scale_factor, [ScaleFactor::new(2, 1), ScaleFactor::new(2, 1)]);
}

#[test]
fn a_source_without_hooks_is_an_empty_pipeline() {
    let pipeline = cnn_glsl_to_executable_pipeline("no hooks here\n", helper, false).unwrap();
    assert!(pipeline.passes.is_empty());
    assert_eq!(pipeline.physical_textures.len(), 1);
}

#[test]
fn hook_errors_end_the_conversion() {
    let source = SOURCE.replace("return result;", "return other;");
    match cnn_glsl_to_executable_pipeline(&source, helper, false).unwrap_err() {
        CnnError::Hook(HookError::UnexpectedLine { hook, line }) => {
            assert_eq!(hook, "Net-Conv-4x3x3x3");
            assert_eq!(line, "return other;");
        }
        other => panic!("unexpected error {other:?}"),
    }
}

#[test]
fn missing_helper_shader_ends_the_conversion() {
    let source = SOURCE.replace("conv2d_last_tf.w 2 *", "conv2d_last_tf.w 3 *").replace(
        "conv2d_last_tf.h 2 *",
        "conv2d_last_tf.h 3 *",
    );
    match cnn_glsl_to_executable_pipeline(&source, helper, false).unwrap_err() {
        CnnError::Helper { file, cause } => {
            assert_eq!(file, "depth_to_space_in1x3.wgsl");
            assert_eq!(cause.kind(), std::io::ErrorKind::NotFound);
        }
        other => panic!("unexpected error {other:?}"),
    }
}

#[test]
fn an_input_that_no_pass_saves_does_not_compile() {
    let source = "//!DESC Net-Depth-to-Space\n//!BIND HOOKED\n//!SAVE MAIN\n//!WIDTH MAIN.w\n";
    match cnn_glsl_to_executable_pipeline(source, helper, false).unwrap_err() {
        CnnError::Helper { file, .. } => assert_eq!(file, "depth_to_space_in0x1.wgsl"),
        other => panic!("unexpected error {other:?}"),
    }
    let source = "//!DESC Net-Conv-1\n//!BIND HOOKED\n//!SAVE MAIN\n//!WIDTH MAIN.w\n";
    match cnn_glsl_to_executable_pipeline(source, helper, false).unwrap_err() {
        CnnError::Compile(CompileError::UnknownTexture(0, id)) => assert_eq!(id, "HOOKED"),
        other => panic!("unexpected error {other:?}"),
    }
}

const SHADER: &str = "@group(0) @binding(0) var source_tex: texture_2d<f32>;\n@group(0) @binding(1) var dest_tex: texture_storage_2d<rgba32float, write>;\n\n@compute @workgroup_size(8, 8)\nfn main(@builtin(global_invocation_id) pixel: vec3u) {\n    let position = vec2i(pixel.xy);\n    let value = textureLoad(source_tex, position, 0);\n    textureStore(dest_tex, position, value);\n}\n";

#[test]
fn minifier_shortens_a_shader() {
    let minified = minify_wgsl(SHADER).unwrap();
    assert!(!minified.is_empty());
    assert!(minified.len() < SHADER.len());
    assert_ne!(minified, SHADER);
    assert!(minified.contains("fn main("));
    assert!(!minified.contains("source_tex"));
}

#[test]
fn minifier_refuses_what_is_no_shader() {
    assert!(minify_wgsl("this is no shader").is_err());
    assert!(minify_wgsl("fn f() -> u32 { return 1.5; }").is_err());
}

#[test]
fn shaders_go_through_the_minifier() {
    let plain = cnn_glsl_to_executable_pipeline(SOURCE, helper, false).unwrap();
    let small = cnn_glsl_to_executable_pipeline(SOURCE, helper, true).unwrap();
    assert_eq!(small.passes.len(), 3);
    for (minified, pass) in small.passes.iter().zip(plain.passes.iter()) {
        assert!(minified.shader.len() < pass.shader.len());
        assert_eq!(minified.id, pass.id);
        assert!(!minified.shader.contains("// Layer"));
    }
    assert!(small.passes[0].shader.contains("fn main("));
    assert_eq!(small.passes[2].shader, "");
}

fn broken_helper(_file: &str) -> Result<String, std::io::Error> {
    Ok("this is no shader".to_string())
}

#[test]
fn a_shader_that_is_no_wgsl_is_refused_by_the_minifier() {
    match cnn_glsl_to_executable_pipeline(SOURCE, broken_helper, true).unwrap_err() {
        CnnError::Minify(report) => assert!(!report.is_empty()),
        other => panic!("unexpected error {other:?}"),
    }
    let pipeline = cnn_glsl_to_executable_pipeline(SOURCE, broken_helper, false).unwrap();
    assert_eq!(pipeline.passes[2].shader, "this is no shader");
}
