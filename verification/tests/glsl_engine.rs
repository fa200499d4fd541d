use anime4k_build::glsl_hook::{
    build_texture_format_map, get_texture_format_for_channels, size_from_groups, MpvHook, SizeError,
    TextureFormat,
};
use vstd::hash_map::StringHashMap;

/// The shader text, put together with the formatting macros.
fn expected_shader(hook: &MpvHook) -> String {
    let mut shader = String::new();
    shader.push_str("#version 450\nlayout(local_size_x = 8, local_size_y = 8, local_size_z = 1) in;\n\n#define GLSL_REFERENCE_ENGINE 1\n\n");
    shader.push_str("// Global variables accessible by hook() function\n");
    shader.push_str("ivec2 gl_pos;\n");
    shader.push_str("vec2 gl_normalized_pos;\n");
    shader.push_str("ivec2 gl_output_size;\n\n");
    for input in &hook.bind {
        shader.push_str(&format!("// Variables for {input} texture\n"));
        shader.push_str(&format!("vec2 {input}_pos;\n"));
        shader.push_str(&format!("vec2 {input}_pt;\n"));
        shader.push_str(&format!("ivec2 {input}_size;\n\n"));
    }
    for (i, _) in hook.bind.iter().enumerate() {
        shader.push_str(&format!("layout(binding = {i}) uniform texture2D tex_{i};\n"));
    }
    let format_string = match hook.components {
        Some(1) => "r32f",
        Some(2) => "rg32f",
        _ => "rgba32f",
    };
    shader.push_str(&format!(
        "layout(binding = {}, {}) uniform {} image2D {};\n",
        100, format_string, "writeonly", "output_tex"
    ));
    shader.push_str("layout(binding = 200) uniform sampler g_sampler;");
    shader.push('\n');
    for (i, input) in hook.bind.iter().enumerate() {
        let tex_name = format!("tex_{i}");
        shader.push_str(&format!(
            r#"// Texture loader functions for {input} (Smart sampling strategy)
vec4 {input}_tex(vec2 pos) {{
    ivec2 input_size = textureSize({tex_name}, 0);
    ivec2 output_size = imageSize(output_tex);

    // Use direct texel fetch when dimensions match to avoid sampling artifacts
    // This preserves exact pixel values without interpolation
    if (input_size == output_size) {{
        ivec2 texel_coord = ivec2(pos * vec2(input_size));
        ivec2 clamped_coord = clamp(texel_coord, ivec2(0), input_size - 1);
        return texelFetch({tex_name}, clamped_coord, 0);
    }} else {{
        // Use hardware filtering for scaling cases
        return textureLod(sampler2D({tex_name}, g_sampler), pos, 0.0);
    }}
}}

vec4 {input}_texOff(vec2 offset) {{
    ivec2 input_size = textureSize({tex_name}, 0);
    ivec2 output_size = imageSize(output_tex);

    if (input_size == output_size) {{
        // Direct texel fetch with integer offset for same-size textures
        ivec2 base_coord = ivec2({input}_pos * vec2(input_size));
        ivec2 texel_coord = base_coord + ivec2(offset);
        ivec2 clamped_coord = clamp(texel_coord, ivec2(0), input_size - 1);
        return texelFetch({tex_name}, clamped_coord, 0);
    }} else {{
        // Convert offset to texture coordinate space and use filtering
        vec2 texel_size = 1.0 / vec2(input_size);
        vec2 texel_coord = {input}_pos + offset * texel_size;
        return textureLod(sampler2D({tex_name}, g_sampler), texel_coord, 0.0);
    }}
}}

// Extension function to force linear sampling regardless of size matching
// Useful for algorithms that specifically need interpolated values
vec4 {input}_texLinear(vec2 pos) {{
    return textureLod(sampler2D({tex_name}, g_sampler), pos, 0.0);
}}

"#
        ));
    }
    shader.push_str("// Original GLSL shader code\n");
    shader.push_str(&hook.glsl_code);
    shader.push('\n');
    shader.push('\n');
    shader.push_str("// Main compute function\n");
    let mut variable_init = String::new();
    variable_init.push_str("    // Initialize global variables\n");
    variable_init.push_str("    gl_pos = pos;\n");
    variable_init.push_str("    gl_normalized_pos = normalized_pos;\n");
    variable_init.push_str("    gl_output_size = output_size;\n\n");
    for (i, input) in hook.bind.iter().enumerate() {
        let tex_name = format!("tex_{i}");
        variable_init.push_str(&format!("    // Initialize {input} variables\n"));
        variable_init.push_str(&format!("    {input}_pos = normalized_pos;\n"));
        variable_init.push_str(&format!("    {input}_pt = vec2(1.0) / vec2(textureSize({tex_name}, 0));\n"));
        variable_init.push_str(&format!("    {input}_size = ivec2(textureSize({tex_name}, 0));\n\n"));
    }
    shader.push_str(&format!(
        r#"void main() {{
    // Get current pixel position from compute shader invocation
    ivec2 pos = ivec2(gl_GlobalInvocationID.xy);
    ivec2 output_size = imageSize(output_tex);

    // Bounds check to avoid processing pixels outside the output texture
    if (pos.x >= output_size.x || pos.y >= output_size.y) {{
        return;
    }}

    // Convert pixel position to normalized coordinates [0,1]
    // Add 0.5 offset for pixel center sampling
    vec2 normalized_pos = (vec2(pos) + vec2(0.5, 0.5)) / vec2(output_size);

{variable_init}
    // Call the original hook function to process this pixel
    vec4 result = hook();

    // Write the result to the output texture
    imageStore(output_tex, pos, result);
}}
"#
    ));
    shader
}

const SOURCE: &str = "//!DESC Luma\n//!HOOK MAIN\n//!BIND HOOKED\n//!BIND MAIN\n//!SAVE LINELUMA\n//!COMPONENTS 1\n//!WIDTH MAIN.w 2 *\n//!HEIGHT MAIN.h 2 /\n\nvec4 hook() {\n    return vec4(dot(HOOKED_tex(HOOKED_pos).rgb, vec3(0.299, 0.587, 0.114)));\n}\n//!DESC Apply\n//!HOOK MAIN\n//!BIND LINELUMA\nvec4 hook() {\n    return LINELUMA_texOff(vec2(1.0, 0.0));\n}\n//!DESC Nothing\n//!COMPONENTS 2\n//!SAVE PAIR\n";

#[test]
fn compute_shader_wraps_the_hook() {
    let hooks = MpvHook::parse_from_glsl(SOURCE);
    assert_eq!(hooks.len(), 3);
    let formats = build_texture_format_map(&hooks);
    for hook in &hooks {
        assert_eq!(hook.convert_to_compute_shader(&formats), expected_shader(hook));
    }
    let shader = hooks[0].convert_to_compute_shader(&formats);
    assert!(shader.starts_with("#version 450\n"));
    assert!(shader.contains("layout(binding = 1) uniform texture2D tex_1;\n"));
    assert!(shader.contains("layout(binding = 100, r32f) uniform writeonly image2D output_tex;\n"));
    assert!(shader.contains("vec4 MAIN_texOff(vec2 offset) {\n    ivec2 input_size = textureSize(tex_1, 0);"));
    assert!(shader.ends_with("    imageStore(output_tex, pos, result);\n}\n"));
    let none = hooks[2].convert_to_compute_shader(&formats);
    assert!(none.contains("layout(binding = 100, rg32f) uniform writeonly image2D output_tex;\nlayout(binding = 200) uniform sampler g_sampler;\n// Original GLSL shader code\n\n\n// Main compute function\nvoid main() {"));
}

#[test]
fn output_formats_follow_the_components() {
    let hooks = MpvHook::parse_from_glsl(SOURCE);
    assert_eq!(hooks[0].get_output_format(), TextureFormat::R32Float);
    assert_eq!(hooks[1].get_output_format(), TextureFormat::Rgba32Float);
    assert_eq!(hooks[2].get_output_format(), TextureFormat::Rg32Float);
    assert_eq!(get_texture_format_for_channels(true, 1), TextureFormat::R32Float);
    assert_eq!(get_texture_format_for_channels(true, 2), TextureFormat::Rg32Float);
    assert_eq!(get_texture_format_for_channels(true, 3), TextureFormat::Rgba32Float);
    assert_eq!(get_texture_format_for_channels(true, 0), TextureFormat::Rgba32Float);
    assert_eq!(get_texture_format_for_channels(false, 1), TextureFormat::R16Float);
    assert_eq!(get_texture_format_for_channels(false, 2), TextureFormat::Rg16Float);
    assert_eq!(get_texture_format_for_channels(false, 4), TextureFormat::Rgba16Float);
    assert_eq!(get_texture_format_for_channels(false, 9), TextureFormat::Rgba16Float);
}

#[test]
fn format_map_follows_the_saves() {
    let hooks = MpvHook::parse_from_glsl(SOURCE);
    let formats = build_texture_format_map(&hooks[..1]);
    assert_eq!(formats.len(), 3);
    assert_eq!(formats.get("MAIN"), Some(&TextureFormat::Rgba32Float));
    assert_eq!(formats.get("LINELUMA"), Some(&TextureFormat::R32Float));
    let formats = build_texture_format_map(&hooks);
    assert_eq!(formats.len(), 4);
    assert_eq!(formats.get("PAIR"), Some(&TextureFormat::Rg32Float));
    assert_eq!(formats.get("HOOKED"), Some(&TextureFormat::Rgba32Float));
    let hooks = MpvHook::parse_from_glsl("//!DESC a\n//!COMPONENTS 1\n//!DESC b\n//!SAVE MAIN\n//!COMPONENTS 2\n");
    let formats = build_texture_format_map(&hooks[..1]);
    assert_eq!(formats.get("MAIN"), Some(&TextureFormat::R32Float));
    assert_eq!(formats.get("HOOKED"), Some(&TextureFormat::R32Float));
    let formats = build_texture_format_map(&hooks);
    assert_eq!(formats.get("MAIN"), Some(&TextureFormat::Rg32Float));
    assert_eq!(formats.get("HOOKED"), Some(&TextureFormat::Rg32Float));
    assert_eq!(build_texture_format_map(&[]).len(), 2);
}

fn sizes() -> StringHashMap<(u32, u32)> {
    let mut sizes = StringHashMap::new();
    sizes.insert("MAIN".to_string(), (1920, 1080));
    sizes.insert("small".to_string(), (7, 5));
    sizes
}

fn hook_with(width: Option<&str>, height: Option<&str>) -> MpvHook {
    let mut source = String::from("//!DESC sized\n");
    if let Some(width) = width {
        source.push_str(&format!("//!WIDTH {width}\n"));
    }
    if let Some(height) = height {
        source.push_str(&format!("//!HEIGHT {height}\n"));
    }
    MpvHook::parse_from_glsl(&source).remove(0)
}

#[test]
fn output_size_follows_the_expressions() {
    let sizes = sizes();
    assert_eq!(hook_with(None, None).calculate_output_size(&sizes).unwrap(), (1920, 1080));
    assert_eq!(
        hook_with(Some("MAIN.w 2 *"), Some("MAIN.h 2 /")).calculate_output_size(&sizes).unwrap(),
        (3840, 540)
    );
    assert_eq!(
        hook_with(Some("small.h"), Some("small.w 2 /")).calculate_output_size(&sizes).unwrap(),
        (5, 3)
    );
    assert_eq!(
        hook_with(Some("small.w 3*"), None).calculate_output_size(&sizes).unwrap(),
        (21, 1080)
    );
    assert_eq!(
        hook_with(Some("see small.w 10 / and more"), Some("small.h 2")).calculate_output_size(&sizes).unwrap(),
        (0, 5)
    );
}

#[test]
fn output_size_errors() {
    let sizes = sizes();
    let error = hook_with(Some("MAIN"), None).calculate_output_size(&sizes).unwrap_err();
    match &error {
        SizeError::InvalidExpression(text) => assert_eq!(text, "MAIN"),
        other => panic!("unexpected error {other:?}"),
    }
    assert_eq!(error.to_string(), "Invalid dimension expression: 'MAIN'");
    let error = hook_with(Some("MAIN.w 0 *"), None).calculate_output_size(&sizes).unwrap_err();
    assert!(matches!(error, SizeError::ZeroFactor));
    assert_eq!(error.to_string(), "Factor cannot be zero in dimension expression");
    let error = hook_with(None, Some("other.h")).calculate_output_size(&sizes).unwrap_err();
    match &error {
        SizeError::TextureNotFound(name) => assert_eq!(name, "other"),
        other => panic!("unexpected error {other:?}"),
    }
    assert_eq!(error.to_string(), "Texture 'other' not found in available textures");
    let error = hook_with(Some("MAIN.w 99999999999 *"), None).calculate_output_size(&sizes).unwrap_err();
    assert!(matches!(error, SizeError::InvalidFactor));
    let error = hook_with(Some("MAIN.w 4000000 *"), None).calculate_output_size(&sizes).unwrap_err();
    assert!(matches!(error, SizeError::Overflow));
    let empty = StringHashMap::new();
    let error = hook_with(None, None).calculate_output_size(&empty).unwrap_err();
    assert!(matches!(error, SizeError::NoWidth));
    assert_eq!(error.to_string(), "No width expression and MAIN texture not available");
    let error = hook_with(Some("small.w"), None).calculate_output_size(&{
        let mut only_small = StringHashMap::new();
        only_small.insert("small".to_string(), (1, 1));
        only_small
    });
    assert!(matches!(error, Err(SizeError::NoHeight)));
    assert_eq!(SizeError::NoHeight.to_string(), "No height expression and MAIN texture not available");
}

fn groups(items: &[Option<&str>]) -> Option<Vec<Option<String>>> {
    Some(items.iter().map(|item| item.map(|text| text.to_string())).collect())
}

#[test]
fn size_from_given_groups() {
    let sizes = sizes();
    let found = groups(&[Some("small.w 2 *"), Some("small"), Some("w"), Some("2"), Some("*")]);
    assert_eq!(size_from_groups(&found, "small.w 2 *", &sizes).unwrap(), 14);
    let found = groups(&[Some("x"), Some("small"), Some("h"), Some("2"), None]);
    assert_eq!(size_from_groups(&found, "x", &sizes).unwrap(), 5);
    let found = groups(&[Some("x"), Some("small"), Some("d"), None, None]);
    let error = size_from_groups(&found, "x", &sizes).unwrap_err();
    assert_eq!(error.to_string(), "Invalid dimension 'd', expected 'w' or 'h'");
    let found = groups(&[Some("x"), Some("small"), Some("w"), Some("2"), Some("+")]);
    let error = size_from_groups(&found, "x", &sizes).unwrap_err();
    assert_eq!(error.to_string(), "Invalid operator '+', expected '*' or '/'");
    let found = groups(&[Some("x")]);
    assert!(matches!(size_from_groups(&found, "x", &sizes), Err(SizeError::Pattern)));
    assert!(matches!(size_from_groups(&None, "x", &sizes), Err(SizeError::InvalidExpression(_))));
    assert_eq!(SizeError::Pattern.to_string(), "Line pattern not usable");
    assert_eq!(SizeError::InvalidFactor.to_string(), "Invalid factor in dimension expression");
    assert_eq!(SizeError::Overflow.to_string(), "Dimension out of range");
}
