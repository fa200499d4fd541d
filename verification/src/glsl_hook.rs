//! Shader hooks as the GLSL engine runs them.
//!
//! Here a hook keeps its directives as written: the engine that runs the
//! GLSL code of a hook needs the expressions themselves, not their values.

use crate::cnn::hook::{directive, directive_value};
use crate::pattern::{
    captures, captures_view, compile, group, group_at, pattern_accepted, pattern_captures,
};
use crate::text::{
    decimal, decimal_digits, has_prefix, lemma_views_push, lines_of, parse_u32, parsed_u32,
    split_lines, starts_with, str_eq, trim, trimmed, views,
};
use vstd::hash_map::StringHashMap;
use vstd::prelude::*;
use vstd::string::StringExecFns;

verus! {

/// A shader hook with its directives as written
#[derive(Debug, Clone)]
pub struct MpvHook {
    /// Description from the `DESC` directive
    pub desc: String,
    /// Hook point from the `HOOK` directive
    pub hook: String,
    /// Input texture names from the `BIND` directives
    pub bind: Vec<String>,
    /// Output texture name from the `SAVE` directive
    pub save: Option<String>,
    /// Width expression from the `WIDTH` directive
    pub width: Option<String>,
    /// Height expression from the `HEIGHT` directive
    pub height: Option<String>,
    /// Number of components from the `COMPONENTS` directive
    pub components: Option<u32>,
    /// Condition from the `WHEN` directive
    pub when: Option<String>,
    /// The code of the hook, without the white space around it
    pub glsl_code: String,
}

/// An `MpvHook` with its texts as character sequences.
pub ghost struct GlslHookView {
    pub desc: Seq<char>,
    pub hook: Seq<char>,
    pub bind: Seq<Seq<char>>,
    pub save: Option<Seq<char>>,
    pub width: Option<Seq<char>>,
    pub height: Option<Seq<char>>,
    pub components: Option<u32>,
    pub when: Option<Seq<char>>,
    pub glsl_code: Seq<char>,
}

/// The view of an optional text.
pub open spec fn optional_view(text: Option<String>) -> Option<Seq<char>> {
    match text {
        Some(text) => Some(text@),
        None => None,
    }
}

impl View for MpvHook {
    type V = GlslHookView;

    open spec fn view(&self) -> GlslHookView {
        GlslHookView {
            desc: self.desc@,
            hook: self.hook@,
            bind: views(self.bind@),
            save: optional_view(self.save),
            width: optional_view(self.width),
            height: optional_view(self.height),
            components: self.components,
            when: optional_view(self.when),
            glsl_code: self.glsl_code@,
        }
    }
}

/// The views of a list of hooks.
pub open spec fn hook_views(hooks: Seq<MpvHook>) -> Seq<GlslHookView> {
    Seq::new(hooks.len(), |i: int| hooks[i]@)
}

/// A hook of which only the description is known.
pub open spec fn fresh_hook(desc: Seq<char>) -> GlslHookView {
    GlslHookView {
        desc,
        hook: Seq::empty(),
        bind: Seq::empty(),
        save: None,
        width: None,
        height: None,
        components: None,
        when: None,
        glsl_code: Seq::empty(),
    }
}

/// What has been read of a source: the hooks that are complete, the hook
/// that is open if there is one, and the code lines of the open hook.
pub ghost struct GlslScan {
    pub done: Seq<GlslHookView>,
    pub open: Option<GlslHookView>,
    pub code: Seq<char>,
}

/// The hooks read, with the open hook closed: it gets the code lines so
/// far, trimmed.
pub open spec fn closed(st: GlslScan) -> Seq<GlslHookView> {
    match st.open {
        Some(hook) => st.done.push(GlslHookView { glsl_code: trimmed(st.code), ..hook }),
        None => st.done,
    }
}

/// The open hook changed by a directive other than `DESC`, where the line
/// is one.
pub open spec fn directed(hook: GlslHookView, line: Seq<char>) -> Option<GlslHookView> {
    if directive(line, "//!HOOK "@) is Some {
        Some(GlslHookView { hook: directive(line, "//!HOOK "@)->0, ..hook })
    } else if directive(line, "//!BIND "@) is Some {
        Some(GlslHookView { bind: hook.bind.push(directive(line, "//!BIND "@)->0), ..hook })
    } else if directive(line, "//!SAVE "@) is Some {
        Some(GlslHookView { save: directive(line, "//!SAVE "@), ..hook })
    } else if directive(line, "//!WIDTH "@) is Some {
        Some(GlslHookView { width: directive(line, "//!WIDTH "@), ..hook })
    } else if directive(line, "//!HEIGHT "@) is Some {
        Some(GlslHookView { height: directive(line, "//!HEIGHT "@), ..hook })
    } else if directive(line, "//!COMPONENTS "@) is Some {
        Some(GlslHookView { components: parsed_u32(directive(line, "//!COMPONENTS "@)->0), ..hook })
    } else if directive(line, "//!WHEN "@) is Some {
        Some(GlslHookView { when: directive(line, "//!WHEN "@), ..hook })
    } else {
        None
    }
}

/// Whether a line is one of the directives other than `DESC`.
pub open spec fn is_directive(line: Seq<char>) -> bool {
    directed(fresh_hook(Seq::empty()), line) is Some
}

/// Whether a line that is no directive counts as code: every line but a
/// comment, and every comment that begins with `//!`.
pub open spec fn is_code(line: Seq<char>) -> bool {
    !has_prefix(line, "//"@) || has_prefix(line, "//!"@)
}

/// The effect of one line: `DESC` closes the open hook and opens a new one;
/// another directive changes the open hook; a code line is added to the
/// code of the open hook. Without an open hook, directives and code lines
/// are passed over.
pub open spec fn glsl_line(st: GlslScan, line: Seq<char>) -> GlslScan {
    if directive(line, "//!DESC "@) is Some {
        GlslScan {
            done: closed(st),
            open: Some(fresh_hook(directive(line, "//!DESC "@)->0)),
            code: Seq::empty(),
        }
    } else if is_directive(line) {
        match st.open {
            Some(hook) => GlslScan { open: directed(hook, line), ..st },
            None => st,
        }
    } else if is_code(line) && st.open is Some {
        GlslScan { code: (st.code + line).push('\n'), ..st }
    } else {
        st
    }
}

/// The effect of a run of lines.
pub open spec fn glsl_lines(lines: Seq<Seq<char>>) -> GlslScan
    decreases lines.len(),
{
    if lines.len() == 0 {
        GlslScan { done: Seq::empty(), open: None, code: Seq::empty() }
    } else {
        glsl_line(glsl_lines(lines.drop_last()), lines.last())
    }
}

/// The hooks of a source.
pub open spec fn glsl_hooks(source: Seq<char>) -> Seq<GlslHookView> {
    closed(glsl_lines(lines_of(source)))
}

/// The state that stands in the variables of the reader.
pub open spec fn scan_of(hooks: Seq<MpvHook>, current: Option<MpvHook>, code: Seq<char>) -> GlslScan {
    GlslScan {
        done: hook_views(hooks),
        open: match current {
            Some(hook) => Some(hook@),
            None => None,
        },
        code,
    }
}

/// Closes the open hook, if there is one: it gets the code lines so far,
/// trimmed, and joins the complete hooks.
fn close(hooks: &mut Vec<MpvHook>, current: Option<MpvHook>, code: &str)
    ensures
        hook_views(final(hooks)@) == closed(scan_of(old(hooks)@, current, code@)),
{
    match current {
        Some(hook) => {
            let complete = MpvHook {
                desc: hook.desc,
                hook: hook.hook,
                bind: hook.bind,
                save: hook.save,
                width: hook.width,
                height: hook.height,
                components: hook.components,
                when: hook.when,
                glsl_code: trim(code),
            };
            proof {
                assert(hook_views(hooks@.push(complete)) =~= hook_views(hooks@).push(complete@));
            }
            hooks.push(complete);
        },
        None => {},
    }
}

/// Applies a directive other than `DESC` to a hook, where the line is one.
fn direct(hook: &mut MpvHook, line: &str) -> (applied: bool)
    ensures
        applied == directed(old(hook)@, line@) is Some,
        applied == is_directive(line@),
        applied ==> final(hook)@ == directed(old(hook)@, line@)->0,
        !applied ==> *final(hook) == *old(hook),
{
    let value = directive_value(line, "//!HOOK ");
    if value.is_some() {
        hook.hook = value.unwrap();
        return true;
    }
    let value = directive_value(line, "//!BIND ");
    if value.is_some() {
        let name = value.unwrap();
        proof {
            lemma_views_push(hook.bind@, name);
        }
        hook.bind.push(name);
        return true;
    }
    let value = directive_value(line, "//!SAVE ");
    if value.is_some() {
        hook.save = value;
        return true;
    }
    let value = directive_value(line, "//!WIDTH ");
    if value.is_some() {
        hook.width = value;
        return true;
    }
    let value = directive_value(line, "//!HEIGHT ");
    if value.is_some() {
        hook.height = value;
        return true;
    }
    let value = directive_value(line, "//!COMPONENTS ");
    if value.is_some() {
        hook.components = parse_u32(value.unwrap().as_str());
        return true;
    }
    let value = directive_value(line, "//!WHEN ");
    if value.is_some() {
        hook.when = value;
        return true;
    }
    false
}

impl MpvHook {
    /// Reads the hooks of a source, each with its directives as written.
    pub fn parse_from_glsl(source: &str) -> (hooks: Vec<Self>)
        ensures
            hook_views(hooks@) == glsl_hooks(source@),
    {
        let lines = split_lines(source);
        let mut hooks: Vec<MpvHook> = Vec::new();
        let mut current: Option<MpvHook> = None;
        let mut current_code = String::new();
        let mut i: usize = 0;
        proof {
            assert(views(lines@).take(0) =~= Seq::<Seq<char>>::empty());
            assert(hook_views(hooks@) =~= Seq::<GlslHookView>::empty());
        }
        while i < lines.len()
            invariant
                i <= lines.len(),
                glsl_lines(views(lines@).take(i as int)) == scan_of(
                    hooks@,
                    current,
                    current_code@,
                ),
            decreases lines.len() - i,
        {
            let line = lines[i].as_str();
            proof {
                let now = views(lines@).take(i + 1);
                assert(now.drop_last() =~= views(lines@).take(i as int));
                assert(now.last() == line@);
            }
            let desc = directive_value(line, "//!DESC ");
            if desc.is_some() {
                close(&mut hooks, current, current_code.as_str());
                current_code = String::new();
                current = Some(
                    MpvHook {
                        desc: desc.unwrap(),
                        hook: String::new(),
                        bind: Vec::new(),
                        save: None,
                        width: None,
                        height: None,
                        components: None,
                        when: None,
                        glsl_code: String::new(),
                    },
                );
                proof {
                    assert(current->0@.bind =~= Seq::<Seq<char>>::empty());
                }
            } else {
                match current {
                    Some(mut hook) => {
                        if !direct(&mut hook, line) && (!starts_with(line, "//") || starts_with(
                            line,
                            "//!",
                        )) {
                            current_code.append(line);
                            current_code.push('\n');
                        }
                        current = Some(hook);
                    },
                    None => {},
                }
            }
            i += 1;
        }
        proof {
            assert(views(lines@).take(lines.len() as int) =~= views(lines@));
        }
        close(&mut hooks, current, current_code.as_str());
        hooks
    }
}

/// The number of workgroups of `workgroup_size` that cover `size`: the
/// quotient, rounded up.
pub fn calculate_workgroup_count(size: u32, workgroup_size: u32) -> (count: u32)
    requires
        workgroup_size > 0,
    ensures
        (count - 1) * workgroup_size < size <= count * workgroup_size,
{
    let whole: u32 = size / workgroup_size;
    let rest: u32 = size % workgroup_size;
    proof {
        assert(size == whole * workgroup_size + rest) by (nonlinear_arith)
            requires
                whole == size / workgroup_size,
                rest == size % workgroup_size,
                workgroup_size > 0,
        ;
        assert((whole + 1) * workgroup_size == whole * workgroup_size + workgroup_size)
            by (nonlinear_arith);
        assert((whole - 1) * workgroup_size == whole * workgroup_size - workgroup_size)
            by (nonlinear_arith);
        if rest > 0 {
            assert(whole < u32::MAX) by (nonlinear_arith)
                requires
                    whole * workgroup_size + rest <= u32::MAX,
                    rest > 0,
                    workgroup_size > 0,
                    rest < workgroup_size,
            ;
        }
    }
    if rest > 0 {
        whole + 1
    } else {
        whole
    }
}

/// The formats of the textures that the engines make.
#[derive(Debug, Clone, Copy, PartialEq, Eq, Structural)]
pub enum TextureFormat {
    /// One 16-bit float channel
    R16Float,
    /// Two 16-bit float channels
    Rg16Float,
    /// Four 16-bit float channels
    Rgba16Float,
    /// One 32-bit float channel
    R32Float,
    /// Two 32-bit float channels
    Rg32Float,
    /// Four 32-bit float channels
    Rgba32Float,
}

/// The 32-bit format for a number of components: one, two, or else four
/// channels. Without a number, four.
pub open spec fn format_of_components(components: Option<u32>) -> TextureFormat {
    match components {
        Some(1) => TextureFormat::R32Float,
        Some(2) => TextureFormat::Rg32Float,
        _ => TextureFormat::Rgba32Float,
    }
}

/// The format for a number of channels: one, two, or else four channels, of
/// 32 bits where such textures can be filtered and of 16 bits where not.
pub open spec fn format_of_channels(filterable: bool, channels: u32) -> TextureFormat {
    if filterable {
        format_of_components(Some(channels))
    } else if channels == 1 {
        TextureFormat::R16Float
    } else if channels == 2 {
        TextureFormat::Rg16Float
    } else {
        TextureFormat::Rgba16Float
    }
}

/// The format for a number of channels.
pub fn get_texture_format_for_channels(has_float32_filterable: bool, channels: u32) -> (out:
    TextureFormat)
    ensures
        out == format_of_channels(has_float32_filterable, channels),
{
    if !has_float32_filterable {
        match channels {
            1 => TextureFormat::R16Float,
            2 => TextureFormat::Rg16Float,
            _ => TextureFormat::Rgba16Float,
        }
    } else {
        match channels {
            1 => TextureFormat::R32Float,
            2 => TextureFormat::Rg32Float,
            _ => TextureFormat::Rgba32Float,
        }
    }
}

/// The name of a format in an image declaration: `r32f`, `rg32f`, and
/// `rgba32f` for every other format.
pub open spec fn format_name(format: TextureFormat) -> Seq<char> {
    match format {
        TextureFormat::R32Float => "r32f"@,
        TextureFormat::Rg32Float => "rg32f"@,
        _ => "rgba32f"@,
    }
}

/// The name of the texture of input `index`.
pub open spec fn texture_name(index: nat) -> Seq<char> {
    "tex_"@ + decimal_digits(index)
}

/// The variables of input `input`.
pub open spec fn input_globals_text(index: nat, input: Seq<char>) -> Seq<char> {
    "// Variables for "@
        + input
        + " texture\nvec2 "@
        + input
        + "_pos;\nvec2 "@
        + input
        + "_pt;\nivec2 "@
        + input
        + "_size;\n\n"@
}

/// The variables of the inputs.
pub open spec fn all_input_globals_text(inputs: Seq<Seq<char>>) -> Seq<char>
    decreases inputs.len(),
{
    if inputs.len() == 0 {
        Seq::empty()
    } else {
        all_input_globals_text(inputs.drop_last()) + input_globals_text(
            (inputs.len() - 1) as nat,
            inputs.last(),
        )
    }
}

/// The declaration of the texture of input `index`.
pub open spec fn texture_binding_text(index: nat, input: Seq<char>) -> Seq<char> {
    "layout(binding = "@
        + decimal_digits(index)
        + ") uniform texture2D "@
        + texture_name(index)
        + ";\n"@
}

/// The declarations of the textures of the inputs, at bindings 0, 1, 2, ...
pub open spec fn all_texture_binding_text(inputs: Seq<Seq<char>>) -> Seq<char>
    decreases inputs.len(),
{
    if inputs.len() == 0 {
        Seq::empty()
    } else {
        all_texture_binding_text(inputs.drop_last()) + texture_binding_text(
            (inputs.len() - 1) as nat,
            inputs.last(),
        )
    }
}

/// The functions that read input `input`: by texel where the input has the
/// size of the output, through the sampler where not.
pub open spec fn texture_loader_text(index: nat, input: Seq<char>) -> Seq<char> {
    "// Texture loader functions for "@
        + input
        + " (Smart sampling strategy)\nvec4 "@
        + input
        + "_tex(vec2 pos) {\n    ivec2 input_size = textureSize("@
        + texture_name(index)
        + ", 0);\n    ivec2 output_size = imageSize(output_tex);\n\n    // Use direct texel fetch when dimensions match to avoid sampling artifacts\n    // This preserves exact pixel values without interpolation\n    if (input_size == output_size) {\n        ivec2 texel_coord = ivec2(pos * vec2(input_size));\n        ivec2 clamped_coord = clamp(texel_coord, ivec2(0), input_size - 1);\n        return texelFetch("@
        + texture_name(index)
        + ", clamped_coord, 0);\n    } else {\n        // Use hardware filtering for scaling cases\n        return textureLod(sampler2D("@
        + texture_name(index)
        + ", g_sampler), pos, 0.0);\n    }\n}\n\nvec4 "@
        + input
        + "_texOff(vec2 offset) {\n    ivec2 input_size = textureSize("@
        + texture_name(index)
        + ", 0);\n    ivec2 output_size = imageSize(output_tex);\n\n    if (input_size == output_size) {\n        // Direct texel fetch with integer offset for same-size textures\n        ivec2 base_coord = ivec2("@
        + input
        + "_pos * vec2(input_size));\n        ivec2 texel_coord = base_coord + ivec2(offset);\n        ivec2 clamped_coord = clamp(texel_coord, ivec2(0), input_size - 1);\n        return texelFetch("@
        + texture_name(index)
        + ", clamped_coord, 0);\n    } else {\n        // Convert offset to texture coordinate space and use filtering\n        vec2 texel_size = 1.0 / vec2(input_size);\n        vec2 texel_coord = "@
        + input
        + "_pos + offset * texel_size;\n        return textureLod(sampler2D("@
        + texture_name(index)
        + ", g_sampler), texel_coord, 0.0);\n    }\n}\n\n// Extension function to force linear sampling regardless of size matching\n// Useful for algorithms that specifically need interpolated values\nvec4 "@
        + input
        + "_texLinear(vec2 pos) {\n    return textureLod(sampler2D("@
        + texture_name(index)
        + ", g_sampler), pos, 0.0);\n}\n\n"@
}

/// The functions that read the inputs.
pub open spec fn all_texture_loader_text(inputs: Seq<Seq<char>>) -> Seq<char>
    decreases inputs.len(),
{
    if inputs.len() == 0 {
        Seq::empty()
    } else {
        all_texture_loader_text(inputs.drop_last()) + texture_loader_text(
            (inputs.len() - 1) as nat,
            inputs.last(),
        )
    }
}

/// The initialization of the variables of input `input`.
pub open spec fn input_init_text(index: nat, input: Seq<char>) -> Seq<char> {
    "    // Initialize "@
        + input
        + " variables\n    "@
        + input
        + "_pos = normalized_pos;\n    "@
        + input
        + "_pt = vec2(1.0) / vec2(textureSize("@
        + texture_name(index)
        + ", 0));\n    "@
        + input
        + "_size = ivec2(textureSize("@
        + texture_name(index)
        + ", 0));\n\n"@
}

/// The initialization of the variables of the inputs.
pub open spec fn all_input_init_text(inputs: Seq<Seq<char>>) -> Seq<char>
    decreases inputs.len(),
{
    if inputs.len() == 0 {
        Seq::empty()
    } else {
        all_input_init_text(inputs.drop_last()) + input_init_text(
            (inputs.len() - 1) as nat,
            inputs.last(),
        )
    }
}

/// The declaration of the output image.
pub open spec fn output_image_text(format: Seq<char>) -> Seq<char> {
    "layout(binding = 100, "@
        + format
        + ") uniform writeonly image2D output_tex;\n"@
}

/// The compute shader that runs a hook: the variables that the hook's code
/// expects, the textures of its inputs, its output image in the format for
/// its number of components, a sampler, the functions that read the inputs,
/// the hook's code, and a main function that calls the hook for every pixel
/// of the output.
pub open spec fn compute_shader_text(hook: GlslHookView) -> Seq<char> {
    "#version 450\nlayout(local_size_x = 8, local_size_y = 8, local_size_z = 1) in;\n\n#define GLSL_REFERENCE_ENGINE 1\n\n// Global variables accessible by hook() function\nivec2 gl_pos;\nvec2 gl_normalized_pos;\nivec2 gl_output_size;\n\n"@
        + all_input_globals_text(hook.bind) + all_texture_binding_text(hook.bind)
        + output_image_text(format_name(format_of_components(hook.components)))
        + "layout(binding = 200) uniform sampler g_sampler;\n"@ + all_texture_loader_text(hook.bind)
        + "// Original GLSL shader code\n"@ + hook.glsl_code
        + "\n\n// Main compute function\nvoid main() {\n    // Get current pixel position from compute shader invocation\n    ivec2 pos = ivec2(gl_GlobalInvocationID.xy);\n    ivec2 output_size = imageSize(output_tex);\n\n    // Bounds check to avoid processing pixels outside the output texture\n    if (pos.x >= output_size.x || pos.y >= output_size.y) {\n        return;\n    }\n\n    // Convert pixel position to normalized coordinates [0,1]\n    // Add 0.5 offset for pixel center sampling\n    vec2 normalized_pos = (vec2(pos) + vec2(0.5, 0.5)) / vec2(output_size);\n\n    // Initialize global variables\n    gl_pos = pos;\n    gl_normalized_pos = normalized_pos;\n    gl_output_size = output_size;\n\n"@
        + all_input_init_text(hook.bind)
        + "\n    // Call the original hook function to process this pixel\n    vec4 result = hook();\n\n    // Write the result to the output texture\n    imageStore(output_tex, pos, result);\n}\n"@
}

/// The formats of the textures after the first `n` hooks: `MAIN` and
/// `HOOKED` begin with four 32-bit channels; every hook gives the texture
/// that it saves the format for its number of components; a hook that
/// saves `MAIN`, or names no texture, gives that format to `MAIN` and
/// `HOOKED`.
pub open spec fn formats_after(hooks: Seq<GlslHookView>, n: int) -> Map<Seq<char>, TextureFormat>
    decreases n,
{
    if n <= 0 {
        Map::empty().insert("MAIN"@, TextureFormat::Rgba32Float).insert(
            "HOOKED"@,
            TextureFormat::Rgba32Float,
        )
    } else {
        let before = formats_after(hooks, n - 1);
        let format = format_of_components(hooks[n - 1].components);
        let saved = match hooks[n - 1].save {
            Some(name) => name,
            None => "MAIN"@,
        };
        if saved == "MAIN"@ {
            before.insert(saved, format).insert("MAIN"@, format).insert("HOOKED"@, format)
        } else {
            before.insert(saved, format)
        }
    }
}

/// The formats of the textures after a run of hooks.
pub fn build_texture_format_map(hooks: &[MpvHook]) -> (out: StringHashMap<TextureFormat>)
    ensures
        out@ == formats_after(hook_views(hooks@), hooks@.len() as int),
{
    let mut texture_formats = StringHashMap::<TextureFormat>::new();
    texture_formats.insert("MAIN".to_owned(), TextureFormat::Rgba32Float);
    texture_formats.insert("HOOKED".to_owned(), TextureFormat::Rgba32Float);
    let mut i: usize = 0;
    while i < hooks.len()
        invariant
            i <= hooks.len(),
            texture_formats@ == formats_after(hook_views(hooks@), i as int),
        decreases hooks.len() - i,
    {
        let hook = &hooks[i];
        assert(hook_views(hooks@)[i as int] == hook@);
        let save_name: &str = match &hook.save {
            Some(name) => name.as_str(),
            None => "MAIN",
        };
        let format = hook.get_output_format();
        texture_formats.insert(save_name.to_owned(), format);
        if str_eq(save_name, "MAIN") {
            texture_formats.insert("MAIN".to_owned(), format);
            texture_formats.insert("HOOKED".to_owned(), format);
        }
        i += 1;
    }
    texture_formats
}

/// The name of the texture of input `index`.
fn name_of_texture(index: usize) -> (out: String)
    ensures
        out@ == texture_name(index as nat),
{
    "tex_".to_owned().concat(decimal(index as u64).as_str())
}

/// The variables of input `input`.
fn input_globals(index: usize, input: &str) -> (out: String)
    ensures
        out@ == input_globals_text(index as nat, input@),
{
    "// Variables for ".to_owned().concat(input).concat(" texture\nvec2 ").concat(input).concat("_pos;\nvec2 ").concat(input).concat("_pt;\nivec2 ").concat(input).concat("_size;\n\n")
}

/// The declaration of the texture of input `index`.
fn texture_binding(index: usize, input: &str) -> (out: String)
    ensures
        out@ == texture_binding_text(index as nat, input@),
{
    let tex_name = name_of_texture(index);
    "layout(binding = ".to_owned().concat(decimal(index as u64).as_str()).concat(") uniform texture2D ").concat(tex_name.as_str()).concat(";\n")
}

/// The functions that read input `input`: by texel where the input has the
/// size of the output, through the sampler where not.
fn texture_loader(index: usize, input: &str) -> (out: String)
    ensures
        out@ == texture_loader_text(index as nat, input@),
{
    let tex_name = name_of_texture(index);
    "// Texture loader functions for ".to_owned().concat(input).concat(" (Smart sampling strategy)\nvec4 ").concat(input).concat("_tex(vec2 pos) {\n    ivec2 input_size = textureSize(").concat(tex_name.as_str()).concat(", 0);\n    ivec2 output_size = imageSize(output_tex);\n\n    // Use direct texel fetch when dimensions match to avoid sampling artifacts\n    // This preserves exact pixel values without interpolation\n    if (input_size == output_size) {\n        ivec2 texel_coord = ivec2(pos * vec2(input_size));\n        ivec2 clamped_coord = clamp(texel_coord, ivec2(0), input_size - 1);\n        return texelFetch(").concat(tex_name.as_str()).concat(", clamped_coord, 0);\n    } else {\n        // Use hardware filtering for scaling cases\n        return textureLod(sampler2D(").concat(tex_name.as_str()).concat(", g_sampler), pos, 0.0);\n    }\n}\n\nvec4 ").concat(input).concat("_texOff(vec2 offset) {\n    ivec2 input_size = textureSize(").concat(tex_name.as_str()).concat(", 0);\n    ivec2 output_size = imageSize(output_tex);\n\n    if (input_size == output_size) {\n        // Direct texel fetch with integer offset for same-size textures\n        ivec2 base_coord = ivec2(").concat(input).concat("_pos * vec2(input_size));\n        ivec2 texel_coord = base_coord + ivec2(offset);\n        ivec2 clamped_coord = clamp(texel_coord, ivec2(0), input_size - 1);\n        return texelFetch(").concat(tex_name.as_str()).concat(", clamped_coord, 0);\n    } else {\n        // Convert offset to texture coordinate space and use filtering\n        vec2 texel_size = 1.0 / vec2(input_size);\n        vec2 texel_coord = ").concat(input).concat("_pos + offset * texel_size;\n        return textureLod(sampler2D(").concat(tex_name.as_str()).concat(", g_sampler), texel_coord, 0.0);\n    }\n}\n\n// Extension function to force linear sampling regardless of size matching\n// Useful for algorithms that specifically need interpolated values\nvec4 ").concat(input).concat("_texLinear(vec2 pos) {\n    return textureLod(sampler2D(").concat(tex_name.as_str()).concat(", g_sampler), pos, 0.0);\n}\n\n")
}

/// The initialization of the variables of input `input`.
fn input_init(index: usize, input: &str) -> (out: String)
    ensures
        out@ == input_init_text(index as nat, input@),
{
    let tex_name = name_of_texture(index);
    "    // Initialize ".to_owned().concat(input).concat(" variables\n    ").concat(input).concat("_pos = normalized_pos;\n    ").concat(input).concat("_pt = vec2(1.0) / vec2(textureSize(").concat(tex_name.as_str()).concat(", 0));\n    ").concat(input).concat("_size = ivec2(textureSize(").concat(tex_name.as_str()).concat(", 0));\n\n")
}

impl MpvHook {
    /// The format of the hook's output: that for its number of components.
    pub fn get_output_format(&self) -> (out: TextureFormat)
        ensures
            out == format_of_components(self.components),
    {
        match self.components {
            Some(1) => TextureFormat::R32Float,
            Some(2) => TextureFormat::Rg32Float,
            _ => TextureFormat::Rgba32Float,
        }
    }

    /// The compute shader that runs this hook. The formats of the inputs
    /// do not enter the text: inputs are read as textures, whatever their
    /// format.
    pub fn convert_to_compute_shader(&self, _texture_formats: &StringHashMap<TextureFormat>) -> (out:
        String)
        ensures
            out@ == compute_shader_text(self@),
    {
        let mut globals = String::new();
        let mut bindings = String::new();
        let mut loaders = String::new();
        let mut inits = String::new();
        let ghost inputs = views(self.bind@);
        let mut i: usize = 0;
        proof {
            assert(inputs.take(0) =~= Seq::<Seq<char>>::empty());
        }
        while i < self.bind.len()
            invariant
                i <= self.bind.len(),
                inputs == views(self.bind@),
                globals@ == all_input_globals_text(inputs.take(i as int)),
                bindings@ == all_texture_binding_text(inputs.take(i as int)),
                loaders@ == all_texture_loader_text(inputs.take(i as int)),
                inits@ == all_input_init_text(inputs.take(i as int)),
            decreases self.bind.len() - i,
        {
            let input = self.bind[i].as_str();
            proof {
                let now = inputs.take(i + 1);
                assert(now.drop_last() =~= inputs.take(i as int));
                assert(now.last() == input@);
            }
            globals.append(input_globals(i, input).as_str());
            bindings.append(texture_binding(i, input).as_str());
            loaders.append(texture_loader(i, input).as_str());
            inits.append(input_init(i, input).as_str());
            i += 1;
        }
        proof {
            assert(inputs.take(self.bind@.len() as int) =~= inputs);
        }
        let format: &str = match self.get_output_format() {
            TextureFormat::R32Float => "r32f",
            TextureFormat::Rg32Float => "rg32f",
            _ => "rgba32f",
        };
        let output = "layout(binding = 100, ".to_owned().concat(format).concat(") uniform writeonly image2D output_tex;\n");
        "#version 450\nlayout(local_size_x = 8, local_size_y = 8, local_size_z = 1) in;\n\n#define GLSL_REFERENCE_ENGINE 1\n\n// Global variables accessible by hook() function\nivec2 gl_pos;\nvec2 gl_normalized_pos;\nivec2 gl_output_size;\n\n".to_owned().concat(globals.as_str()).concat(bindings.as_str()).concat(output.as_str()).concat("layout(binding = 200) uniform sampler g_sampler;\n").concat(loaders.as_str()).concat("// Original GLSL shader code\n").concat(self.glsl_code.as_str()).concat("\n\n// Main compute function\nvoid main() {\n    // Get current pixel position from compute shader invocation\n    ivec2 pos = ivec2(gl_GlobalInvocationID.xy);\n    ivec2 output_size = imageSize(output_tex);\n\n    // Bounds check to avoid processing pixels outside the output texture\n    if (pos.x >= output_size.x || pos.y >= output_size.y) {\n        return;\n    }\n\n    // Convert pixel position to normalized coordinates [0,1]\n    // Add 0.5 offset for pixel center sampling\n    vec2 normalized_pos = (vec2(pos) + vec2(0.5, 0.5)) / vec2(output_size);\n\n    // Initialize global variables\n    gl_pos = pos;\n    gl_normalized_pos = normalized_pos;\n    gl_output_size = output_size;\n\n").concat(inits.as_str()).concat("\n    // Call the original hook function to process this pixel\n    vec4 result = hook();\n\n    // Write the result to the output texture\n    imageStore(output_tex, pos, result);\n}\n")
    }
}

/// The pattern of a size expression: a texture name, `.w` or `.h`, and
/// optionally a factor followed by `*` or `/`. Groups: name, side, factor,
/// operator.
pub const DIMENSION: &'static str = r"(\w+)\.([wh])(?:\s+(\d+)\s*([*/]))?";

/// Why the size of a hook's output cannot be told.
#[derive(Debug, Clone)]
pub enum SizeError {
    /// The pattern engine refused the pattern, or reported a match without
    /// the groups the pattern has
    Pattern,
    /// The expression holds no size expression
    InvalidExpression(String),
    /// The factor is no number that fits
    InvalidFactor,
    /// The factor is zero
    ZeroFactor,
    /// The expression names a texture that there is not
    TextureNotFound(String),
    /// The side is neither `w` nor `h`
    InvalidDimension(String),
    /// The operator is neither `*` nor `/`
    InvalidOperator(String),
    /// The size does not fit in 32 bits
    Overflow,
    /// No width expression, and no texture `MAIN` to take the width from
    NoWidth,
    /// No height expression, and no texture `MAIN` to take the height from
    NoHeight,
}

/// A `SizeError` with its texts as character sequences.
pub ghost enum SizeFault {
    Pattern,
    InvalidExpression(Seq<char>),
    InvalidFactor,
    ZeroFactor,
    TextureNotFound(Seq<char>),
    InvalidDimension(Seq<char>),
    InvalidOperator(Seq<char>),
    Overflow,
    NoWidth,
    NoHeight,
}

impl View for SizeError {
    type V = SizeFault;

    open spec fn view(&self) -> SizeFault {
        match *self {
            SizeError::Pattern => SizeFault::Pattern,
            SizeError::InvalidExpression(s) => SizeFault::InvalidExpression(s@),
            SizeError::InvalidFactor => SizeFault::InvalidFactor,
            SizeError::ZeroFactor => SizeFault::ZeroFactor,
            SizeError::TextureNotFound(s) => SizeFault::TextureNotFound(s@),
            SizeError::InvalidDimension(s) => SizeFault::InvalidDimension(s@),
            SizeError::InvalidOperator(s) => SizeFault::InvalidOperator(s@),
            SizeError::Overflow => SizeFault::Overflow,
            SizeError::NoWidth => SizeFault::NoWidth,
            SizeError::NoHeight => SizeFault::NoHeight,
        }
    }
}

/// The view of a size that may instead be a `SizeError`.
pub open spec fn size_or_fault<T>(r: Result<T, SizeError>) -> Result<T, SizeFault> {
    match r {
        Ok(size) => Ok(size),
        Err(e) => Err(e@),
    }
}

/// The error in words.
pub open spec fn size_fault_text(e: SizeFault) -> Seq<char> {
    match e {
        SizeFault::Pattern => "Line pattern not usable"@,
        SizeFault::InvalidExpression(s) => "Invalid dimension expression: '"@ + s + "'"@,
        SizeFault::InvalidFactor => "Invalid factor in dimension expression"@,
        SizeFault::ZeroFactor => "Factor cannot be zero in dimension expression"@,
        SizeFault::TextureNotFound(s) => "Texture '"@ + s + "' not found in available textures"@,
        SizeFault::InvalidDimension(s) => "Invalid dimension '"@ + s + "', expected 'w' or 'h'"@,
        SizeFault::InvalidOperator(s) => "Invalid operator '"@ + s + "', expected '*' or '/'"@,
        SizeFault::Overflow => "Dimension out of range"@,
        SizeFault::NoWidth => "No width expression and MAIN texture not available"@,
        SizeFault::NoHeight => "No height expression and MAIN texture not available"@,
    }
}

impl SizeError {
    /// The error in words.
    pub fn to_string(&self) -> (out: String)
        ensures
            out@ == size_fault_text(self@),
    {
        match self {
            SizeError::Pattern => "Line pattern not usable".to_owned(),
            SizeError::InvalidExpression(s) => "Invalid dimension expression: '".to_owned().concat(
                s.as_str(),
            ).concat("'"),
            SizeError::InvalidFactor => "Invalid factor in dimension expression".to_owned(),
            SizeError::ZeroFactor => "Factor cannot be zero in dimension expression".to_owned(),
            SizeError::TextureNotFound(s) => "Texture '".to_owned().concat(s.as_str()).concat(
                "' not found in available textures",
            ),
            SizeError::InvalidDimension(s) => "Invalid dimension '".to_owned().concat(
                s.as_str(),
            ).concat("', expected 'w' or 'h'"),
            SizeError::InvalidOperator(s) => "Invalid operator '".to_owned().concat(
                s.as_str(),
            ).concat("', expected '*' or '/'"),
            SizeError::Overflow => "Dimension out of range".to_owned(),
            SizeError::NoWidth => "No width expression and MAIN texture not available".to_owned(),
            SizeError::NoHeight => "No height expression and MAIN texture not available".to_owned(),
        }
    }
}

/// The size that a size expression gives, from what the size pattern
/// captured in it and the sizes (width, height) of the textures there are:
/// the named side of the named texture, times or divided by the factor.
pub open spec fn expression_size(
    found: Option<Seq<Option<Seq<char>>>>,
    expression: Seq<char>,
    sizes: Map<Seq<char>, (u32, u32)>,
) -> Result<u32, SizeFault> {
    match found {
        None => Err(SizeFault::InvalidExpression(expression)),
        Some(groups) => if group(groups, 1) is None || group(groups, 2) is None {
            Err(SizeFault::Pattern)
        } else {
            let name = group(groups, 1)->0;
            let side = group(groups, 2)->0;
            let scaled = group(groups, 3) is Some && group(groups, 4) is Some;
            let factor = if scaled {
                parsed_u32(group(groups, 3)->0)
            } else {
                Some(1u32)
            };
            let operator = if scaled {
                group(groups, 4)->0
            } else {
                "*"@
            };
            if factor is None {
                Err(SizeFault::InvalidFactor)
            } else if factor->0 == 0 {
                Err(SizeFault::ZeroFactor)
            } else if !sizes.contains_key(name) {
                Err(SizeFault::TextureNotFound(name))
            } else if side != "w"@ && side != "h"@ {
                Err(SizeFault::InvalidDimension(side))
            } else {
                let base = if side == "w"@ {
                    sizes[name].0
                } else {
                    sizes[name].1
                };
                if operator == "*"@ {
                    if base * factor->0 > u32::MAX {
                        Err(SizeFault::Overflow)
                    } else {
                        Ok((base * factor->0) as u32)
                    }
                } else if operator == "/"@ {
                    Ok((base / factor->0) as u32)
                } else {
                    Err(SizeFault::InvalidOperator(operator))
                }
            }
        },
    }
}

/// One side of a hook's output: what its expression gives, or without an
/// expression that side of the texture `MAIN`.
pub open spec fn side_size(
    expression: Option<Seq<char>>,
    sizes: Map<Seq<char>, (u32, u32)>,
    wide: bool,
) -> Result<u32, SizeFault> {
    match expression {
        Some(expression) => if !pattern_accepted(DIMENSION@) {
            Err(SizeFault::Pattern)
        } else {
            expression_size(pattern_captures(DIMENSION@, expression), expression, sizes)
        },
        None => if !sizes.contains_key("MAIN"@) {
            if wide {
                Err(SizeFault::NoWidth)
            } else {
                Err(SizeFault::NoHeight)
            }
        } else if wide {
            Ok(sizes["MAIN"@].0)
        } else {
            Ok(sizes["MAIN"@].1)
        },
    }
}

/// The size of a hook's output: its width, then its height.
pub open spec fn output_size(hook: GlslHookView, sizes: Map<Seq<char>, (u32, u32)>) -> Result<
    (u32, u32),
    SizeFault,
> {
    match side_size(hook.width, sizes, true) {
        Err(e) => Err(e),
        Ok(width) => match side_size(hook.height, sizes, false) {
            Err(e) => Err(e),
            Ok(height) => Ok((width, height)),
        },
    }
}

/// The size that a size expression gives, from what the size pattern
/// captured in it.
pub fn size_from_groups(
    found: &Option<Vec<Option<String>>>,
    expression: &str,
    sizes: &StringHashMap<(u32, u32)>,
) -> (out: Result<u32, SizeError>)
    ensures
        size_or_fault(out) == expression_size(captures_view(*found), expression@, sizes@),
{
    let groups = match found {
        Some(groups) => groups,
        None => { return Err(SizeError::InvalidExpression(expression.to_owned())); },
    };
    let name = match group_at(groups, 1) {
        Some(name) => name,
        None => { return Err(SizeError::Pattern); },
    };
    let side = match group_at(groups, 2) {
        Some(side) => side,
        None => { return Err(SizeError::Pattern); },
    };
    let digits = group_at(groups, 3);
    let sign = group_at(groups, 4);
    let scaled = digits.is_some() && sign.is_some();
    let factor: u32 = if scaled {
        match parse_u32(digits.unwrap()) {
            Some(factor) => factor,
            None => { return Err(SizeError::InvalidFactor); },
        }
    } else {
        1
    };
    let operator: &str = if scaled {
        sign.unwrap()
    } else {
        "*"
    };
    if factor == 0 {
        return Err(SizeError::ZeroFactor);
    }
    let size: (u32, u32) = match sizes.get(name) {
        Some(size) => *size,
        None => { return Err(SizeError::TextureNotFound(name.to_owned())); },
    };
    let base: u32 = if str_eq(side, "w") {
        size.0
    } else if str_eq(side, "h") {
        size.1
    } else {
        return Err(SizeError::InvalidDimension(side.to_owned()));
    };
    if str_eq(operator, "*") {
        match base.checked_mul(factor) {
            Some(product) => Ok(product),
            None => Err(SizeError::Overflow),
        }
    } else if str_eq(operator, "/") {
        Ok(base / factor)
    } else {
        Err(SizeError::InvalidOperator(operator.to_owned()))
    }
}

/// One side of a hook's output.
fn side(expression: &Option<String>, sizes: &StringHashMap<(u32, u32)>, wide: bool) -> (out: Result<
    u32,
    SizeError,
>)
    ensures
        size_or_fault(out) == side_size(optional_view(*expression), sizes@, wide),
{
    match expression {
        Some(expression) => {
            let pattern = match compile(DIMENSION) {
                Some(pattern) => pattern,
                None => { return Err(SizeError::Pattern); },
            };
            let found = captures(&pattern, expression.as_str());
            size_from_groups(&found, expression.as_str(), sizes)
        },
        None => match sizes.get("MAIN") {
            Some(size) => if wide {
                Ok(size.0)
            } else {
                Ok(size.1)
            },
            None => if wide {
                Err(SizeError::NoWidth)
            } else {
                Err(SizeError::NoHeight)
            },
        },
    }
}

impl MpvHook {
    /// The size of the hook's output, given the sizes (width, height) of the
    /// textures there are.
    pub fn calculate_output_size(&self, available_textures: &StringHashMap<(u32, u32)>) -> (out:
        Result<(u32, u32), SizeError>)
        ensures
            size_or_fault(out) == output_size(self@, available_textures@),
    {
        let width = match side(&self.width, available_textures, true) {
            Ok(width) => width,
            Err(e) => { return Err(e); },
        };
        let height = match side(&self.height, available_textures, false) {
            Ok(height) => height,
            Err(e) => { return Err(e); },
        };
        Ok((width, height))
    }
}

} // verus!
