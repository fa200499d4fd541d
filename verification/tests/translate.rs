use anime4k_build::cnn::convert::{accumulate, bias, go_macro, overlay, relu_macro};
use anime4k_build::cnn::{HookError, MpvHook, WgslStageShader, WgslStageShaderType};

const DIRECTIVES: &str = "//!DESC Test-Conv-4x3x3x3\n//!HOOK MAIN\n//!BIND MAIN\n//!SAVE conv2d_tf\n//!WIDTH MAIN.w\n//!HEIGHT MAIN.h\n//!COMPONENTS 4\n";

fn conv_code(body: &str) -> Result<String, HookError> {
    let mut map = MpvHook::new_scale_factor_map();
    let hook = MpvHook::new(&format!("{DIRECTIVES}{body}"), &mut map).unwrap();
    let stage = WgslStageShader::new(hook, &map)?;
    match stage.kind {
        WgslStageShaderType::Conv { code } => Ok(code),
        WgslStageShaderType::DepthToSpace { .. } => panic!("not a convolution stage"),
    }
}

const HEADER: &str = "// Layer: Test-Conv-4x3x3x3\n// Inputs: source\n// Output: conv2d_tf\n// Scale Factor: x1 from source\n\n@group(0) @binding(0) var source_tex: texture_2d<f32>;\n@group(0) @binding(1) var conv2d_tf_tex: texture_storage_2d<rgba32float, write>;\n\n";

const ENTRY: &str = "@compute @workgroup_size(8, 8)\nfn main(@builtin(global_invocation_id) pixel: vec3u) {\n    let out_dim: vec2u = textureDimensions(conv2d_tf_tex);\n    if (pixel.x < out_dim.x && pixel.y < out_dim.y) {\n        process(vec2i(pixel.xy));\n    }\n}\n\n@compute @workgroup_size(8, 8)\nfn main_unchecked(@builtin(global_invocation_id) pixel: vec3u) {\n    process(vec2i(pixel.xy));\n}\n\nfn process(pos: vec2i) {\n";

#[test]
fn translates_a_same_scale_convolution() {
    let body = "#define go_0(x_off, y_off) (MAIN_texOff(vec2(x_off, y_off)))\nvec4 hook() {\n    vec4 result = mat4(1.0, 2.0) * go_0(-1.0, -1.0);\n    result += mat4(3.0) * go_0(0.0, 0.0);\n    result += mat4(4.0) * go_0(1.0, 0.0);\n    result += mat4(5.0) * go_0(-1.0, 1.0);\n    result += vec4(0.1, 0.2);\n    return result;\n}\n";
    let expected = format!(
        "{HEADER}fn go_0(pos: vec2i) -> vec4f {{\n    let value = textureLoad(source_tex, pos, 0);\n    return value;\n}}\n\n{ENTRY}    let bound = vec2i(textureDimensions(conv2d_tf_tex)) - 1;\n    var result = vec4f();\n    result += mat4x4f(1.0, 2.0) * go_0(max(pos + vec2i(-1, -1), vec2i(0)));\n    result += mat4x4f(3.0) * go_0(pos);\n    result += mat4x4f(4.0) * go_0(min(pos + vec2i(1, 0), bound));\n    result += mat4x4f(5.0) * go_0(clamp(pos + vec2i(-1, 1), vec2i(0), bound));\n    result += vec4f(0.1, 0.2);\n    textureStore(conv2d_tf_tex, pos, result);\n}}\n"
    );
    assert_eq!(conv_code(body).unwrap(), expected);
}

#[test]
fn header_alone_for_a_body_of_comments() {
    assert_eq!(conv_code("// nothing here\n\n   \n").unwrap(), HEADER);
}

#[test]
fn rectified_macros_keep_their_sign() {
    let body = "#define a(x_off, y_off) (max((MAIN_texOff(vec2(x_off, y_off))), 0.0))\n#define b(x_off, y_off) (max(-(MAIN_texOff(vec2(x_off, y_off))), 0.0))\n#define c (max(-(MAIN_tex(MAIN_pos)), 0.0))\n#define d (max((MAIN_tex(MAIN_pos)), 0.0))\n";
    let expected = format!(
        "{HEADER}fn a(pos: vec2i) -> vec4f {{\n    let value = textureLoad(source_tex, pos, 0);\n    return max(value, vec4f());\n}}\n\nfn b(pos: vec2i) -> vec4f {{\n    let value = textureLoad(source_tex, pos, 0);\n    return max(-value, vec4f());\n}}\n\nfn c(pos: vec2i) -> vec4f {{\n    let value = textureLoad(source_tex, pos, 0);\n    return max(-value, vec4f());\n}}\n\nfn d(pos: vec2i) -> vec4f {{\n    let value = textureLoad(source_tex, pos, 0);\n    return max(value, vec4f());\n}}\n\n"
    );
    assert_eq!(conv_code(body).unwrap(), expected);
}

fn upscaled_stage(body: &str) -> Result<WgslStageShader, HookError> {
    let mut map = MpvHook::new_scale_factor_map();
    let first = "//!DESC First-Conv-1\n//!BIND MAIN\n//!SAVE conv\n//!WIDTH MAIN.w 2 *\n//!HEIGHT MAIN.h 2 *\n";
    MpvHook::new(first, &mut map).unwrap();
    let second = format!(
        "//!DESC Second-Conv-1\n//!HOOK MAIN\n//!BIND MAIN\n//!BIND conv\n//!SAVE MAIN\n//!WIDTH conv.w\n//!HEIGHT conv.h\n{body}"
    );
    let hook = MpvHook::new(&second, &mut map).unwrap();
    WgslStageShader::new(hook, &map)
}

#[test]
fn translates_sampled_access_and_overlay() {
    let body = "#define go_0(x_off, y_off) (max((conv_texOff(vec2(x_off, y_off))), 0.0))\n#define go_1(x_off, y_off) (max(-(MAIN_texOff(vec2(x_off, y_off) * 0.5)), 0.0))\n#define g_2 (max((conv_tex(conv_pos)), 0.0))\nvec4 hook() {\n    vec4 result = mat4(1.0) * go_1(1.0, -1.0);\n    result += mat4(2.0) * g_2;\n    result += mat4(3.0) * go_0(0.0, 1.0);\n    return result * 0.5 + MAIN_tex(MAIN_pos);\n}\n";
    let stage = upscaled_stage(body).unwrap();
    let expected = "// Layer: Second-Conv-1\n// Inputs: source, conv\n// Output: dest\n// Scale Factor: x2 from source\n\n@group(0) @binding(0) var source_tex: texture_2d<f32>;\n@group(0) @binding(1) var conv_tex: texture_2d<f32>;\n@group(0) @binding(2) var dest_tex: texture_storage_2d<rgba32float, write>;\n@group(0) @binding(3) var input_sampler: sampler;\n\nfn go_0(pos: vec2i) -> vec4f {\n    let value = textureLoad(conv_tex, pos, 0);\n    return max(value, vec4f());\n}\n\nfn go_1(uv_pos: vec2f, offset: vec2i) -> vec4f {\n    let coords = uv_pos + vec2f(offset) * 0.5 / vec2f(textureDimensions(source_tex));\n    let value = textureSampleLevel(source_tex, input_sampler, coords, 0.0);\n    return max(-value, vec4f());\n}\n\nfn g_2(pos: vec2i) -> vec4f {\n    let value = textureLoad(conv_tex, pos, 0);\n    return max(value, vec4f());\n}\n\n@compute @workgroup_size(8, 8)\nfn main(@builtin(global_invocation_id) pixel: vec3u) {\n    let out_dim: vec2u = textureDimensions(dest_tex);\n    if (pixel.x < out_dim.x && pixel.y < out_dim.y) {\n        process(vec2i(pixel.xy));\n    }\n}\n\n@compute @workgroup_size(8, 8)\nfn main_unchecked(@builtin(global_invocation_id) pixel: vec3u) {\n    process(vec2i(pixel.xy));\n}\n\nfn process(pos: vec2i) {\n    let bound = vec2i(textureDimensions(dest_tex)) - 1;\n    let uv_pos = (vec2f(pos) + 0.5) / vec2f(textureDimensions(dest_tex));\n    var result = vec4f();\n    result += mat4x4f(1.0) * go_1(uv_pos, vec2i(1, -1));\n    result += mat4x4f(2.0) * g_2(pos);\n    result += mat4x4f(3.0) * go_0(min(pos + vec2i(0, 1), bound));\n    textureStore(dest_tex, pos, result * 0.5 + textureSampleLevel(source_tex, input_sampler, uv_pos, 0.0));\n}\n";
    match &stage.kind {
        WgslStageShaderType::Conv { code } => assert_eq!(code, expected),
        other => panic!("unexpected kind {other:?}"),
    }
    assert_eq!(stage.name, "result");
    assert_eq!(stage.inputs, vec![(0, "SOURCE".to_string()), (1, "conv".to_string())]);
    assert_eq!(stage.output, (2, "RESULT".to_string()));
    assert_eq!(stage.sampler, Some(3));
    assert_eq!(stage.scale_factor, "2");
    assert_eq!(stage.source.name, "Second-Conv-1");
}

#[test]
fn overlay_at_source_scale_loads_the_source() {
    let code = conv_code("return result + MAIN_tex(MAIN_pos);\n").unwrap();
    assert_eq!(
        code,
        format!("{HEADER}    textureStore(conv2d_tf_tex, pos, result + textureLoad(source_tex, pos, 0));\n")
    );
}

#[test]
fn stage_of_a_plain_hook_has_no_sampler() {
    let mut map = MpvHook::new_scale_factor_map();
    let hook = MpvHook::new(DIRECTIVES, &mut map).unwrap();
    let stage = WgslStageShader::new(hook, &map).unwrap();
    assert_eq!(stage.name, "conv2d_tf");
    assert_eq!(stage.inputs, vec![(0, "SOURCE".to_string())]);
    assert_eq!(stage.output, (1, "conv2d_tf".to_string()));
    assert_eq!(stage.sampler, None);
    assert_eq!(stage.scale_factor, "1");
}

#[test]
fn depth_to_space_stage_counts_its_inputs() {
    let mut map = MpvHook::new_scale_factor_map();
    let first = "//!DESC First-Conv-1\n//!BIND MAIN\n//!SAVE a\n//!WIDTH MAIN.w\n";
    MpvHook::new(first, &mut map).unwrap();
    let source = "//!DESC Last-Depth-to-Space\n//!BIND MAIN\n//!BIND a\n//!SAVE MAIN\n//!WIDTH a.w 2 *\n//!HEIGHT a.h 2 *\nthis is not translated\n";
    let hook = MpvHook::new(source, &mut map).unwrap();
    let stage = WgslStageShader::new(hook, &map).unwrap();
    match stage.kind {
        WgslStageShaderType::DepthToSpace { channel_count } => assert_eq!(channel_count, 2),
        other => panic!("unexpected kind {other:?}"),
    }
    assert_eq!(stage.output, (2, "RESULT".to_string()));
    assert_eq!(stage.sampler, Some(3));
    assert_eq!(stage.scale_factor, "2");
}

#[test]
fn stray_line_fails_with_hook_and_line() {
    let body = "vec4 hook() {\n    float unrelated = 1.0;\n    return result;\n}\n";
    let error = conv_code(body).unwrap_err();
    match &error {
        HookError::UnexpectedLine { hook, line } => {
            assert_eq!(hook, "Test-Conv-4x3x3x3");
            assert_eq!(line, "float unrelated = 1.0;");
        }
        other => panic!("unexpected error {other:?}"),
    }
    assert_eq!(
        error.to_string(),
        "Unexpected line in Test-Conv-4x3x3x3 shader code: float unrelated = 1.0;"
    );
}

#[test]
fn statements_must_match_to_the_end_of_the_line() {
    assert!(matches!(
        conv_code("return result; // done\n"),
        Err(HookError::UnexpectedLine { .. })
    ));
    assert!(matches!(
        conv_code("result += mat4(1.0) * go_0(2.0, 0.0);\n"),
        Err(HookError::UnexpectedLine { .. })
    ));
}

#[test]
fn macro_on_unknown_texture_fails() {
    let error =
        conv_code("#define go_0(x_off, y_off) (other_texOff(vec2(x_off, y_off)))\n").unwrap_err();
    match &error {
        HookError::UnknownTexture(name) => assert_eq!(name, "other"),
        other => panic!("unexpected error {other:?}"),
    }
    assert_eq!(error.to_string(), "Unknown texture: other");
}

#[test]
fn fraction_needs_another_scale() {
    let error = conv_code("#define go_0(x_off, y_off) (MAIN_texOff(vec2(x_off, y_off) * 0.5))\n")
        .unwrap_err();
    assert!(matches!(error, HookError::FractionOnSameScale));
    assert_eq!(
        error.to_string(),
        "Fraction should only be used for textures with different scale factors"
    );
}

#[test]
fn another_scale_needs_a_fraction() {
    let error = upscaled_stage("#define go_0(x_off, y_off) (MAIN_texOff(vec2(x_off, y_off)))\n")
        .unwrap_err();
    assert!(matches!(error, HookError::FractionMissing));
    assert_eq!(
        error.to_string(),
        "Fraction should be used for textures with different scale factors"
    );
}

#[test]
fn plain_macro_needs_the_same_scale() {
    let error = upscaled_stage("#define g (max((MAIN_tex(MAIN_pos)), 0.0))\n").unwrap_err();
    assert!(matches!(error, HookError::PlainMacroOnOtherScale));
    assert_eq!(
        error.to_string(),
        "Non-offset macros should only be used for textures with the same scale factor"
    );
    let body = "#define go_1(x_off, y_off) (MAIN_texOff(vec2(x_off, y_off) * 0.5))\nresult += mat4(1.0) * go_1;\n";
    assert!(matches!(upscaled_stage(body), Err(HookError::PlainMacroOnOtherScale)));
}

#[test]
fn accumulation_needs_a_defined_macro() {
    let error = conv_code("vec4 result = mat4(1.0) * go_9(0.0, 0.0);\n").unwrap_err();
    match &error {
        HookError::UnknownFunction(name) => assert_eq!(name, "go_9"),
        other => panic!("unexpected error {other:?}"),
    }
    assert_eq!(error.to_string(), "Unknown function: go_9");
}

fn groups(items: &[Option<&str>]) -> Vec<Option<String>> {
    items.iter().map(|item| item.map(|text| text.to_string())).collect()
}

fn plain_hook() -> (MpvHook, vstd::hash_map::StringHashMap<u32>) {
    let mut map = MpvHook::new_scale_factor_map();
    let hook = MpvHook::new(DIRECTIVES, &mut map).unwrap();
    (hook, map)
}

#[test]
fn steps_work_on_given_groups() {
    let (hook, scales) = plain_hook();
    let mut code = String::from("x");
    let mut funcs = vstd::hash_map::StringHashMap::<u32>::new();
    let found = groups(&[Some("whole"), Some("f"), None, Some("MAIN"), None]);
    go_macro(&hook, &scales, &found, &mut code, &mut funcs).unwrap();
    assert_eq!(
        code,
        "xfn f(pos: vec2i) -> vec4f {\n    let value = textureLoad(source_tex, pos, 0);\n    return value;\n}\n\n"
    );
    assert_eq!(funcs.get("f"), Some(&1));
    let mut code = String::new();
    let found = groups(&[Some("whole"), Some("g"), Some("-"), Some("conv2d_tf")]);
    relu_macro(&hook, &scales, &found, &mut code, &mut funcs).unwrap();
    assert_eq!(
        code,
        "fn g(pos: vec2i) -> vec4f {\n    let value = textureLoad(conv2d_tf_tex, pos, 0);\n    return max(-value, vec4f());\n}\n\n"
    );
    assert_eq!(funcs.len(), 2);
    let found = groups(&[Some("whole"), None, Some("w"), Some("f"), Some("0"), Some("-1")]);
    assert_eq!(
        accumulate(&hook, &found, &funcs).unwrap(),
        "    result += mat4x4f(w) * f(max(pos + vec2i(0, -1), vec2i(0)));\n"
    );
    let found = groups(&[Some("whole"), Some("vec4 "), Some("w"), Some("f"), None, None]);
    assert_eq!(
        accumulate(&hook, &found, &funcs).unwrap(),
        "    let bound = vec2i(textureDimensions(conv2d_tf_tex)) - 1;\n    var result = vec4f();\n    result += mat4x4f(w) * f(pos);\n"
    );
    assert_eq!(bias(&groups(&[Some("whole"), Some("1, 2")])).unwrap(), "    result += vec4f(1, 2);\n");
    assert_eq!(
        overlay(&hook, &groups(&[Some("whole"), Some("")])).unwrap(),
        "    textureStore(conv2d_tf_tex, pos, result + textureLoad(source_tex, pos, 0));\n"
    );
}

#[test]
fn steps_refuse_matches_without_their_groups() {
    let (hook, scales) = plain_hook();
    let mut code = String::new();
    let mut funcs = vstd::hash_map::StringHashMap::<u32>::new();
    let short = groups(&[Some("whole")]);
    assert!(matches!(
        go_macro(&hook, &scales, &short, &mut code, &mut funcs),
        Err(HookError::Pattern)
    ));
    assert!(matches!(
        relu_macro(&hook, &scales, &short, &mut code, &mut funcs),
        Err(HookError::Pattern)
    ));
    assert!(matches!(accumulate(&hook, &short, &funcs), Err(HookError::Pattern)));
    assert!(matches!(bias(&short), Err(HookError::Pattern)));
    assert!(matches!(overlay(&hook, &short), Err(HookError::Pattern)));
    assert_eq!(HookError::Pattern.to_string(), "Line pattern not usable");
}
