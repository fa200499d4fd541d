//! Translation of a convolution hook into a compute shader.
//!
//! The hook's code is read line by line. Each line is matched against the
//! statement patterns in a fixed order, and the first pattern that matches
//! decides what is emitted. A line that is no known statement, no comment
//! and not blank stops the translation.

use crate::cnn::error::{text_or_fault, HookError, HookFault};
use crate::cnn::hook::{main_as, ConvolutionStageType, HookView, MpvHook};
use crate::pattern::{
    captures, compile, group, group_at, groups_view, pattern_accepted,
    pattern_captures, pattern_text,
};
use crate::text::{
    decimal, decimal_digits, has_prefix, join, joined, lines_of, split_lines,
    starts_with, str_eq, trim, trimmed, views,
};
use vstd::hash_map::StringHashMap;
use vstd::prelude::*;
use vstd::string::StringExecFns;

verus! {

/// An offset macro: `#define NAME(x_off, y_off) (TEX_texOff(vec2(x_off, y_off)))`,
/// with an optional `* 0.5`-like factor on the offset and an optional
/// `max(..., 0.0)` around the read. Groups: name, sign, texture, fraction.
pub const GO_MACRO: &'static str =
    r"^#define (?<name>\w+)\(x_off, y_off\) \((?:max\((?<sign>-?)\()?(?<texture>\w+)_texOff\(vec2\(x_off, y_off\)(?: \* (?<fraction>0\.\d+))?\)(?:\), 0.0\))?\)$";

/// A macro without offsets: `#define NAME (max((TEX_tex(pos)), 0.0))`.
/// Groups: name, sign, texture.
pub const G_MACRO_RELU: &'static str =
    r"^#define (?<name>\w+) \(max\((?<sign>-?)\((?<texture>\w+)_tex\(\w+\)\), 0.0\)\)$";

/// The head of the hook's function.
pub const ENTRY_BEGIN: &'static str = r"^vec4 hook\(\) \{$";

/// The end of the hook's function.
pub const ENTRY_END: &'static str = r"^\}$";

/// An accumulation: `result += mat4(...) * NAME(1.0, 0.0);`, the first one
/// written as a declaration. Groups: decl, weights, func, x_offset, y_offset.
pub const RESULT_ADD_PROD: &'static str =
    r"^(?<decl>vec4 )?result \+?= mat4\((?<weights>[^)]+)\) \* (?<func>\w+)(?:\((?<x_offset>1|0|-1)\.0, (?<y_offset>1|0|-1)\.0\))?;$";

/// A bias: `result += vec4(...);`. Group: weights.
pub const RESULT_ADD_VEC: &'static str = r"^result \+= vec4\((?<weights>[^)]+)\);$";

/// The plain return.
pub const RETURN_AS_IS: &'static str = r"^return result;$";

/// The return that adds the source pixel. Group: factor.
pub const RETURN_OVERLAY: &'static str =
    r"^return result(?<factor>(?: \* 0\.\d+)?) \+ MAIN_tex\(MAIN_pos\);$";

/// Whether the pattern engine compiles every statement pattern.
pub open spec fn patterns_accepted() -> bool {
    &&& pattern_accepted(GO_MACRO@)
    &&& pattern_accepted(G_MACRO_RELU@)
    &&& pattern_accepted(ENTRY_BEGIN@)
    &&& pattern_accepted(ENTRY_END@)
    &&& pattern_accepted(RESULT_ADD_PROD@)
    &&& pattern_accepted(RESULT_ADD_VEC@)
    &&& pattern_accepted(RETURN_AS_IS@)
    &&& pattern_accepted(RETURN_OVERLAY@)
}

/// The statement patterns, compiled.
pub struct ConvPatterns {
    go_macro: regex::Regex,
    g_macro_relu: regex::Regex,
    entry_begin: regex::Regex,
    entry_end: regex::Regex,
    result_add_prod: regex::Regex,
    result_add_vec: regex::Regex,
    return_as_is: regex::Regex,
    return_overlay: regex::Regex,
}

impl ConvPatterns {
    /// Each field is the compiled form of its pattern.
    pub closed spec fn wf(&self) -> bool {
        &&& patterns_accepted()
        &&& pattern_text(self.go_macro) == GO_MACRO@
        &&& pattern_text(self.g_macro_relu) == G_MACRO_RELU@
        &&& pattern_text(self.entry_begin) == ENTRY_BEGIN@
        &&& pattern_text(self.entry_end) == ENTRY_END@
        &&& pattern_text(self.result_add_prod) == RESULT_ADD_PROD@
        &&& pattern_text(self.result_add_vec) == RESULT_ADD_VEC@
        &&& pattern_text(self.return_as_is) == RETURN_AS_IS@
        &&& pattern_text(self.return_overlay) == RETURN_OVERLAY@
    }

    /// Compiles the statement patterns.
    pub fn new() -> (out: Option<Self>)
        ensures
            out is Some == patterns_accepted(),
            out is Some ==> out->0.wf(),
    {
        let go_macro = compile(GO_MACRO);
        let g_macro_relu = compile(G_MACRO_RELU);
        let entry_begin = compile(ENTRY_BEGIN);
        let entry_end = compile(ENTRY_END);
        let result_add_prod = compile(RESULT_ADD_PROD);
        let result_add_vec = compile(RESULT_ADD_VEC);
        let return_as_is = compile(RETURN_AS_IS);
        let return_overlay = compile(RETURN_OVERLAY);
        if go_macro.is_some() && g_macro_relu.is_some() && entry_begin.is_some()
            && entry_end.is_some() && result_add_prod.is_some() && result_add_vec.is_some()
            && return_as_is.is_some() && return_overlay.is_some() {
            Some(
                ConvPatterns {
                    go_macro: go_macro.unwrap(),
                    g_macro_relu: g_macro_relu.unwrap(),
                    entry_begin: entry_begin.unwrap(),
                    entry_end: entry_end.unwrap(),
                    result_add_prod: result_add_prod.unwrap(),
                    result_add_vec: result_add_vec.unwrap(),
                    return_as_is: return_as_is.unwrap(),
                    return_overlay: return_overlay.unwrap(),
                },
            )
        } else {
            None
        }
    }
}

/// The shader text written so far, and the scale of the texture that each
/// macro defined so far reads.
pub ghost struct ConvState {
    pub code: Seq<char>,
    pub funcs: Map<Seq<char>, u32>,
}

/// The comment lines that open a translated shader.
pub open spec fn intro_text(hook: HookView) -> Seq<char> {
    "// Layer: "@ + hook.name + "\n// Inputs: "@ + joined(hook.inputs, ", "@) + "\n// Output: "@
        + hook.output + "\n// Scale Factor: x"@ + decimal_digits(hook.scale_factor as nat)
        + " from source\n\n"@
}

/// The declaration of input `input` at binding `slot`.
pub open spec fn input_binding_text(slot: nat, input: Seq<char>) -> Seq<char> {
    "@group(0) @binding("@ + decimal_digits(slot) + ") var "@ + input + "_tex: texture_2d<f32>;\n"@
}

/// The declarations of the inputs, at bindings 0, 1, 2, ...
pub open spec fn input_bindings_text(inputs: Seq<Seq<char>>) -> Seq<char>
    decreases inputs.len(),
{
    if inputs.len() == 0 {
        Seq::empty()
    } else {
        input_bindings_text(inputs.drop_last()) + input_binding_text(
            (inputs.len() - 1) as nat,
            inputs.last(),
        )
    }
}

/// The declaration of the output at binding `slot`.
pub open spec fn output_binding_text(slot: nat, output: Seq<char>) -> Seq<char> {
    "@group(0) @binding("@ + decimal_digits(slot) + ") var "@ + output
        + "_tex: texture_storage_2d<rgba32float, write>;\n"@
}

/// The declaration of the sampler at binding `slot`.
pub open spec fn sampler_binding_text(slot: nat) -> Seq<char> {
    "@group(0) @binding("@ + decimal_digits(slot) + ") var input_sampler: sampler;\n"@
}

/// What stands before the translated statements: the comment lines, then
/// the inputs, the output, and the sampler where the hook needs one, at
/// consecutive bindings.
pub open spec fn header_text(hook: HookView) -> Seq<char> {
    if hook.needs_sampler {
        intro_text(hook) + input_bindings_text(hook.inputs) + output_binding_text(
            hook.inputs.len(),
            hook.output,
        ) + sampler_binding_text(hook.inputs.len() + 1) + "\n"@
    } else {
        intro_text(hook) + input_bindings_text(hook.inputs) + output_binding_text(
            hook.inputs.len(),
            hook.output,
        ) + "\n"@
    }
}

/// The head of an accessor that samples a texture of another scale.
pub open spec fn sampled_accessor_text(func: Seq<char>, texture: Seq<char>, fraction: Seq<char>) -> Seq<
    char,
> {
    "fn "@ + func
        + "(uv_pos: vec2f, offset: vec2i) -> vec4f {\n    let coords = uv_pos + vec2f(offset) * "@
        + fraction + " / vec2f(textureDimensions("@ + texture
        + "_tex));\n    let value = textureSampleLevel("@ + texture
        + "_tex, input_sampler, coords, 0.0);\n"@
}

/// The head of an accessor that loads from a texture of the hook's scale.
pub open spec fn loaded_accessor_text(func: Seq<char>, texture: Seq<char>) -> Seq<char> {
    "fn "@ + func + "(pos: vec2i) -> vec4f {\n    let value = textureLoad("@ + texture
        + "_tex, pos, 0);\n"@
}

/// The end of an accessor: the value as it is, or rectified where the macro
/// was written with `max`, with the macro's sign.
pub open spec fn accessor_end_text(sign: Option<Seq<char>>) -> Seq<char> {
    match sign {
        Some(sign) => "    return max("@ + sign + "value, vec4f());\n}\n\n"@,
        None => "    return value;\n}\n\n"@,
    }
}

/// The two entry points and the head of the function they share.
pub open spec fn entry_text(output: Seq<char>) -> Seq<char> {
    "@compute @workgroup_size(8, 8)\nfn main(@builtin(global_invocation_id) pixel: vec3u) {\n    let out_dim: vec2u = textureDimensions("@
        + output
        + "_tex);\n    if (pixel.x < out_dim.x && pixel.y < out_dim.y) {\n        process(vec2i(pixel.xy));\n    }\n}\n\n@compute @workgroup_size(8, 8)\nfn main_unchecked(@builtin(global_invocation_id) pixel: vec3u) {\n    process(vec2i(pixel.xy));\n}\n\nfn process(pos: vec2i) {\n"@
}

/// The upper bound for positions, where some input is read by index.
pub open spec fn bound_text(hook: HookView) -> Seq<char> {
    if hook.needs_bound {
        "    let bound = vec2i(textureDimensions("@ + hook.output + "_tex)) - 1;\n"@
    } else {
        Seq::empty()
    }
}

/// The sampling position, where some input is sampled.
pub open spec fn sampling_text(hook: HookView) -> Seq<char> {
    if hook.needs_sampler {
        "    let uv_pos = (vec2f(pos) + 0.5) / vec2f(textureDimensions("@ + hook.output
            + "_tex));\n"@
    } else {
        Seq::empty()
    }
}

/// What the first accumulation is preceded by: the bound, the sampling
/// position, and the accumulator.
pub open spec fn setup_text(hook: HookView) -> Seq<char> {
    bound_text(hook) + sampling_text(hook) + "    var result = vec4f();\n"@
}

/// Whether an offset is negative.
pub open spec fn is_negative(offset: Seq<char>) -> bool {
    has_prefix(offset, "-"@)
}

/// Whether an offset is positive: neither negative nor zero.
pub open spec fn is_positive(offset: Seq<char>) -> bool {
    !is_negative(offset) && offset != "0"@
}

/// The position that an accessor of the hook's scale reads at offset
/// (`x`, `y`): clamped against zero where an offset is negative and against
/// the bound where one is positive.
pub open spec fn position_text(x: Seq<char>, y: Seq<char>) -> Seq<char> {
    let low = is_negative(x) || is_negative(y);
    let high = is_positive(x) || is_positive(y);
    if low && high {
        "clamp(pos + vec2i("@ + x + ", "@ + y + "), vec2i(0), bound)"@
    } else if low {
        "max(pos + vec2i("@ + x + ", "@ + y + "), vec2i(0))"@
    } else if high {
        "min(pos + vec2i("@ + x + ", "@ + y + "), bound)"@
    } else {
        "pos"@
    }
}

/// One accumulation with the argument `argument` to the accessor.
pub open spec fn accumulate_text(weights: Seq<char>, func: Seq<char>, argument: Seq<char>) -> Seq<
    char,
> {
    "    result += mat4x4f("@ + weights + ") * "@ + func + "("@ + argument + ");\n"@
}

/// The argument of an accessor that samples at offset (`x`, `y`).
pub open spec fn sampled_argument_text(x: Seq<char>, y: Seq<char>) -> Seq<char> {
    "uv_pos, vec2i("@ + x + ", "@ + y + ")"@
}

/// The addition of a bias.
pub open spec fn bias_text(weights: Seq<char>) -> Seq<char> {
    "    result += vec4f("@ + weights + ");\n"@
}

/// The store of the accumulator.
pub open spec fn store_text(output: Seq<char>) -> Seq<char> {
    "    textureStore("@ + output + "_tex, pos, result);\n"@
}

/// The store of the accumulator plus the source pixel, which is loaded
/// where the hook has the source's scale and sampled where not.
pub open spec fn overlay_text(hook: HookView, factor: Seq<char>) -> Seq<char> {
    if hook.scale_factor == 1 {
        "    textureStore("@ + hook.output + "_tex, pos, result"@ + factor
            + " + textureLoad(source_tex, pos, 0));\n"@
    } else {
        "    textureStore("@ + hook.output + "_tex, pos, result"@ + factor
            + " + textureSampleLevel(source_tex, input_sampler, uv_pos, 0.0));\n"@
    }
}

/// An offset macro, from the groups of `GO_MACRO`.
pub open spec fn go_macro_step(
    hook: HookView,
    scales: Map<Seq<char>, u32>,
    st: ConvState,
    groups: Seq<Option<Seq<char>>>,
) -> Result<ConvState, HookFault> {
    if group(groups, 1) is None || group(groups, 3) is None {
        Err(HookFault::Pattern)
    } else {
        let func = group(groups, 1)->0;
        let texture = main_as(group(groups, 3)->0, "source"@);
        if !scales.contains_key(texture) {
            Err(HookFault::UnknownTexture(texture))
        } else {
            match group(groups, 4) {
                Some(fraction) => if scales[texture] == hook.scale_factor {
                    Err(HookFault::FractionOnSameScale)
                } else {
                    Ok(
                        ConvState {
                            code: st.code + sampled_accessor_text(func, texture, fraction)
                                + accessor_end_text(group(groups, 2)),
                            funcs: st.funcs.insert(func, scales[texture]),
                        },
                    )
                },
                None => if scales[texture] != hook.scale_factor {
                    Err(HookFault::FractionMissing)
                } else {
                    Ok(
                        ConvState {
                            code: st.code + loaded_accessor_text(func, texture)
                                + accessor_end_text(group(groups, 2)),
                            funcs: st.funcs.insert(func, scales[texture]),
                        },
                    )
                },
            }
        }
    }
}

/// A macro without offsets, from the groups of `G_MACRO_RELU`.
pub open spec fn relu_macro_step(
    hook: HookView,
    scales: Map<Seq<char>, u32>,
    st: ConvState,
    groups: Seq<Option<Seq<char>>>,
) -> Result<ConvState, HookFault> {
    if group(groups, 1) is None || group(groups, 2) is None || group(groups, 3) is None {
        Err(HookFault::Pattern)
    } else {
        let func = group(groups, 1)->0;
        let texture = main_as(group(groups, 3)->0, "source"@);
        if !scales.contains_key(texture) {
            Err(HookFault::UnknownTexture(texture))
        } else if scales[texture] != hook.scale_factor {
            Err(HookFault::PlainMacroOnOtherScale)
        } else {
            Ok(
                ConvState {
                    code: st.code + loaded_accessor_text(func, texture) + accessor_end_text(
                        group(groups, 2),
                    ),
                    funcs: st.funcs.insert(func, scales[texture]),
                },
            )
        }
    }
}

/// The text of an accumulation, from the groups of `RESULT_ADD_PROD` and the
/// macros defined so far. The accumulation that declares the accumulator is
/// preceded by the setup.
pub open spec fn accumulate_lines(
    hook: HookView,
    funcs: Map<Seq<char>, u32>,
    groups: Seq<Option<Seq<char>>>,
) -> Result<Seq<char>, HookFault> {
    if group(groups, 2) is None || group(groups, 3) is None {
        Err(HookFault::Pattern)
    } else {
        let weights = group(groups, 2)->0;
        let func = group(groups, 3)->0;
        if !funcs.contains_key(func) {
            Err(HookFault::UnknownFunction(func))
        } else {
            let with_offsets = group(groups, 4) is Some && group(groups, 5) is Some;
            if !with_offsets && funcs[func] != hook.scale_factor {
                Err(HookFault::PlainMacroOnOtherScale)
            } else {
                let argument = if !with_offsets {
                    "pos"@
                } else if funcs[func] != hook.scale_factor {
                    sampled_argument_text(group(groups, 4)->0, group(groups, 5)->0)
                } else {
                    position_text(group(groups, 4)->0, group(groups, 5)->0)
                };
                if group(groups, 1) is Some {
                    Ok(setup_text(hook) + accumulate_text(weights, func, argument))
                } else {
                    Ok(accumulate_text(weights, func, argument))
                }
            }
        }
    }
}

/// The text of a bias, from the groups of `RESULT_ADD_VEC`.
pub open spec fn bias_line(groups: Seq<Option<Seq<char>>>) -> Result<Seq<char>, HookFault> {
    match group(groups, 1) {
        None => Err(HookFault::Pattern),
        Some(weights) => Ok(bias_text(weights)),
    }
}

/// The text of the return that adds the source pixel, from the groups of
/// `RETURN_OVERLAY`.
pub open spec fn overlay_line(hook: HookView, groups: Seq<Option<Seq<char>>>) -> Result<
    Seq<char>,
    HookFault,
> {
    match group(groups, 1) {
        None => Err(HookFault::Pattern),
        Some(factor) => Ok(overlay_text(hook, factor)),
    }
}

/// The state after `text` has been written, where there is a text.
pub open spec fn written(st: ConvState, text: Result<Seq<char>, HookFault>) -> Result<
    ConvState,
    HookFault,
> {
    match text {
        Ok(text) => Ok(ConvState { code: st.code + text, ..st }),
        Err(e) => Err(e),
    }
}

/// Whether a trimmed line is a comment or blank.
pub open spec fn is_skipped(line: Seq<char>) -> bool {
    has_prefix(line, "//"@) || line.len() == 0
}

/// Whether a trimmed line is none of the known statements.
pub open spec fn is_no_statement(line: Seq<char>) -> bool {
    &&& pattern_captures(GO_MACRO@, line) is None
    &&& pattern_captures(G_MACRO_RELU@, line) is None
    &&& pattern_captures(ENTRY_BEGIN@, line) is None
    &&& pattern_captures(ENTRY_END@, line) is None
    &&& pattern_captures(RESULT_ADD_PROD@, line) is None
    &&& pattern_captures(RESULT_ADD_VEC@, line) is None
    &&& pattern_captures(RETURN_AS_IS@, line) is None
    &&& pattern_captures(RETURN_OVERLAY@, line) is None
}

/// The effect of one line of the hook's code: that of the first pattern
/// that matches the trimmed line; none for a comment or a blank line; a
/// failure that names the hook and the line for anything else.
pub open spec fn conv_line(
    hook: HookView,
    scales: Map<Seq<char>, u32>,
    st: ConvState,
    raw: Seq<char>,
) -> Result<ConvState, HookFault> {
    let line = trimmed(raw);
    if pattern_captures(GO_MACRO@, line) is Some {
        go_macro_step(hook, scales, st, pattern_captures(GO_MACRO@, line)->0)
    } else if pattern_captures(G_MACRO_RELU@, line) is Some {
        relu_macro_step(hook, scales, st, pattern_captures(G_MACRO_RELU@, line)->0)
    } else if pattern_captures(ENTRY_BEGIN@, line) is Some {
        Ok(ConvState { code: st.code + entry_text(hook.output), ..st })
    } else if pattern_captures(ENTRY_END@, line) is Some {
        Ok(ConvState { code: st.code + "}\n"@, ..st })
    } else if pattern_captures(RESULT_ADD_PROD@, line) is Some {
        written(st, accumulate_lines(hook, st.funcs, pattern_captures(RESULT_ADD_PROD@, line)->0))
    } else if pattern_captures(RESULT_ADD_VEC@, line) is Some {
        written(st, bias_line(pattern_captures(RESULT_ADD_VEC@, line)->0))
    } else if pattern_captures(RETURN_AS_IS@, line) is Some {
        Ok(ConvState { code: st.code + store_text(hook.output), ..st })
    } else if pattern_captures(RETURN_OVERLAY@, line) is Some {
        written(st, overlay_line(hook, pattern_captures(RETURN_OVERLAY@, line)->0))
    } else if is_skipped(line) {
        Ok(st)
    } else {
        Err(HookFault::UnexpectedLine { hook: hook.name, line })
    }
}

/// The effect of a run of lines, stopping at the first failure.
pub open spec fn conv_lines(
    hook: HookView,
    scales: Map<Seq<char>, u32>,
    st: ConvState,
    lines: Seq<Seq<char>>,
) -> Result<ConvState, HookFault>
    decreases lines.len(),
{
    if lines.len() == 0 {
        Ok(st)
    } else {
        match conv_lines(hook, scales, st, lines.drop_last()) {
            Err(e) => Err(e),
            Ok(mid) => conv_line(hook, scales, mid, lines.last()),
        }
    }
}

/// The state before the first line of code.
pub open spec fn conv_start(hook: HookView) -> ConvState {
    ConvState { code: header_text(hook), funcs: Map::empty() }
}

/// The compute shader that a convolution hook translates to.
pub open spec fn conv_code(hook: HookView, scales: Map<Seq<char>, u32>) -> Result<
    Seq<char>,
    HookFault,
> {
    if !patterns_accepted() {
        Err(HookFault::Pattern)
    } else {
        match conv_lines(hook, scales, conv_start(hook), lines_of(hook.code)) {
            Err(e) => Err(e),
            Ok(st) => Ok(st.code),
        }
    }
}

/// A failure on the first lines is the failure of the whole.
pub proof fn lemma_conv_error_stays(
    hook: HookView,
    scales: Map<Seq<char>, u32>,
    st: ConvState,
    lines: Seq<Seq<char>>,
    n: int,
)
    requires
        0 <= n <= lines.len(),
        conv_lines(hook, scales, st, lines.take(n)) is Err,
    ensures
        conv_lines(hook, scales, st, lines) == conv_lines(hook, scales, st, lines.take(n)),
    decreases lines.len() - n,
{
    if n < lines.len() {
        assert(lines.take(n + 1).drop_last() =~= lines.take(n));
        lemma_conv_error_stays(hook, scales, st, lines, n + 1);
    } else {
        assert(lines.take(n) =~= lines);
    }
}

/// A line of a convolution hook that is no known statement, no comment and
/// not blank makes the translation fail. Where the lines before it
/// translate, the failure names the hook and that line.
pub proof fn lemma_stray_line_fails(hook: HookView, scales: Map<Seq<char>, u32>, k: int)
    requires
        0 <= k < lines_of(hook.code).len(),
        is_no_statement(trimmed(lines_of(hook.code)[k])),
        !is_skipped(trimmed(lines_of(hook.code)[k])),
    ensures
        conv_code(hook, scales) is Err,
        patterns_accepted() && conv_lines(
            hook,
            scales,
            conv_start(hook),
            lines_of(hook.code).take(k),
        ) is Ok ==> conv_code(hook, scales) == Err::<Seq<char>, HookFault>(
            HookFault::UnexpectedLine { hook: hook.name, line: trimmed(lines_of(hook.code)[k]) },
        ),
{
    let lines = lines_of(hook.code);
    let upto = lines.take(k + 1);
    assert(upto.drop_last() =~= lines.take(k));
    assert(upto.last() == lines[k]);
    assert(conv_lines(hook, scales, conv_start(hook), upto) is Err);
    lemma_conv_error_stays(hook, scales, conv_start(hook), lines, k + 1);
}

/// The state that stands in `code` and `funcs`.
pub open spec fn state_of(code: Seq<char>, funcs: Map<Seq<char>, u32>) -> ConvState {
    ConvState { code, funcs }
}

/// What a step that writes to `code` and `funcs` has done, against what it
/// was to do.
pub open spec fn step_done(
    out: Result<(), HookError>,
    wanted: Result<ConvState, HookFault>,
    code: Seq<char>,
    funcs: Map<Seq<char>, u32>,
) -> bool {
    match out {
        Ok(_) => wanted == Ok::<ConvState, HookFault>(state_of(code, funcs)),
        Err(e) => wanted == Err::<ConvState, HookFault>(e@),
    }
}

/// What stands before the translated statements.
fn header(hook: &MpvHook) -> (out: String)
    requires
        hook.inputs@.len() < u32::MAX,
    ensures
        out@ == header_text(hook@),
{
    let intro = "// Layer: ".to_owned().concat(hook.name.as_str()).concat("\n// Inputs: ").concat(
        join(&hook.inputs, ", ").as_str(),
    ).concat("\n// Output: ").concat(hook.output.as_str()).concat("\n// Scale Factor: x").concat(
        decimal(hook.scale_factor as u64).as_str(),
    ).concat(" from source\n\n");
    let mut bindings = String::new();
    let mut i: usize = 0;
    proof {
        assert(views(hook.inputs@).take(0) =~= Seq::<Seq<char>>::empty());
    }
    while i < hook.inputs.len()
        invariant
            i <= hook.inputs.len(),
            bindings@ == input_bindings_text(views(hook.inputs@).take(i as int)),
        decreases hook.inputs.len() - i,
    {
        let line = "@group(0) @binding(".to_owned().concat(decimal(i as u64).as_str()).concat(
            ") var ",
        ).concat(hook.inputs[i].as_str()).concat("_tex: texture_2d<f32>;\n");
        proof {
            let now = views(hook.inputs@).take(i + 1);
            assert(now.drop_last() =~= views(hook.inputs@).take(i as int));
            assert(now.last() == hook.inputs@[i as int]@);
        }
        bindings.append(line.as_str());
        i += 1;
    }
    proof {
        assert(views(hook.inputs@).take(hook.inputs.len() as int) =~= views(hook.inputs@));
    }
    let output = "@group(0) @binding(".to_owned().concat(
        decimal(hook.inputs.len() as u64).as_str(),
    ).concat(") var ").concat(hook.output.as_str()).concat(
        "_tex: texture_storage_2d<rgba32float, write>;\n",
    );
    let head = intro.concat(bindings.as_str()).concat(output.as_str());
    if hook.needs_sampler {
        let sampler = "@group(0) @binding(".to_owned().concat(
            decimal(hook.inputs.len() as u64 + 1).as_str(),
        ).concat(") var input_sampler: sampler;\n");
        head.concat(sampler.as_str()).concat("\n")
    } else {
        head.concat("\n")
    }
}

/// The end of an accessor.
fn accessor_end(sign: Option<&str>) -> (out: String)
    ensures
        out@ == accessor_end_text(crate::pattern::slice_view(sign)),
{
    match sign {
        Some(sign) => "    return max(".to_owned().concat(sign).concat("value, vec4f());\n}\n\n"),
        None => "    return value;\n}\n\n".to_owned(),
    }
}

/// The head of an accessor that loads from a texture of the hook's scale.
fn loaded_accessor(func: &str, texture: &str) -> (out: String)
    ensures
        out@ == loaded_accessor_text(func@, texture@),
{
    "fn ".to_owned().concat(func).concat(
        "(pos: vec2i) -> vec4f {\n    let value = textureLoad(",
    ).concat(texture).concat("_tex, pos, 0);\n")
}

/// Translates an offset macro from the groups that `GO_MACRO` captured:
/// writes its accessor to `code` and enters the macro in `funcs`.
pub fn go_macro(
    hook: &MpvHook,
    scales: &StringHashMap<u32>,
    groups: &Vec<Option<String>>,
    code: &mut String,
    funcs: &mut StringHashMap<u32>,
) -> (out: Result<(), HookError>)
    ensures
        step_done(
            out,
            go_macro_step(
                hook@,
                scales@,
                state_of(old(code)@, old(funcs)@),
                groups_view(groups@),
            ),
            final(code)@,
            final(funcs)@,
        ),
{
    let func = match group_at(groups, 1) {
        Some(func) => func,
        None => { return Err(HookError::Pattern); },
    };
    let captured = match group_at(groups, 3) {
        Some(captured) => captured,
        None => { return Err(HookError::Pattern); },
    };
    let texture: &str = if str_eq(captured, "MAIN") {
        "source"
    } else {
        captured
    };
    let target: u32 = match scales.get(texture) {
        Some(target) => *target,
        None => { return Err(HookError::UnknownTexture(texture.to_owned())); },
    };
    match group_at(groups, 4) {
        Some(fraction) => {
            if target == hook.scale_factor {
                return Err(HookError::FractionOnSameScale);
            }
            let head = "fn ".to_owned().concat(func).concat(
                "(uv_pos: vec2f, offset: vec2i) -> vec4f {\n    let coords = uv_pos + vec2f(offset) * ",
            ).concat(fraction).concat(" / vec2f(textureDimensions(").concat(texture).concat(
                "_tex));\n    let value = textureSampleLevel(",
            ).concat(texture).concat("_tex, input_sampler, coords, 0.0);\n");
            code.append(head.as_str());
        },
        None => {
            if target != hook.scale_factor {
                return Err(HookError::FractionMissing);
            }
            code.append(loaded_accessor(func, texture).as_str());
        },
    }
    code.append(accessor_end(group_at(groups, 2)).as_str());
    funcs.insert(func.to_owned(), target);
    Ok(())
}

/// Translates a macro without offsets from the groups that `G_MACRO_RELU`
/// captured: writes its accessor to `code` and enters the macro in `funcs`.
pub fn relu_macro(
    hook: &MpvHook,
    scales: &StringHashMap<u32>,
    groups: &Vec<Option<String>>,
    code: &mut String,
    funcs: &mut StringHashMap<u32>,
) -> (out: Result<(), HookError>)
    ensures
        step_done(
            out,
            relu_macro_step(
                hook@,
                scales@,
                state_of(old(code)@, old(funcs)@),
                groups_view(groups@),
            ),
            final(code)@,
            final(funcs)@,
        ),
{
    let func = match group_at(groups, 1) {
        Some(func) => func,
        None => { return Err(HookError::Pattern); },
    };
    let sign = match group_at(groups, 2) {
        Some(sign) => sign,
        None => { return Err(HookError::Pattern); },
    };
    let captured = match group_at(groups, 3) {
        Some(captured) => captured,
        None => { return Err(HookError::Pattern); },
    };
    let texture: &str = if str_eq(captured, "MAIN") {
        "source"
    } else {
        captured
    };
    let target: u32 = match scales.get(texture) {
        Some(target) => *target,
        None => { return Err(HookError::UnknownTexture(texture.to_owned())); },
    };
    if target != hook.scale_factor {
        return Err(HookError::PlainMacroOnOtherScale);
    }
    code.append(loaded_accessor(func, texture).as_str());
    code.append(accessor_end(Some(sign)).as_str());
    funcs.insert(func.to_owned(), target);
    Ok(())
}

/// What the first accumulation is preceded by.
fn setup(hook: &MpvHook) -> (out: String)
    ensures
        out@ == setup_text(hook@),
{
    let bound = if hook.needs_bound {
        "    let bound = vec2i(textureDimensions(".to_owned().concat(hook.output.as_str()).concat(
            "_tex)) - 1;\n",
        )
    } else {
        String::new()
    };
    let sampling = if hook.needs_sampler {
        "    let uv_pos = (vec2f(pos) + 0.5) / vec2f(textureDimensions(".to_owned().concat(
            hook.output.as_str(),
        ).concat("_tex));\n")
    } else {
        String::new()
    };
    bound.concat(sampling.as_str()).concat("    var result = vec4f();\n")
}

/// The position that an accessor of the hook's scale reads at offset (`x`, `y`).
fn position(x: &str, y: &str) -> (out: String)
    ensures
        out@ == position_text(x@, y@),
{
    let x_negative = starts_with(x, "-");
    let y_negative = starts_with(y, "-");
    let low = x_negative || y_negative;
    let high = (!x_negative && !str_eq(x, "0")) || (!y_negative && !str_eq(y, "0"));
    if low && high {
        "clamp(pos + vec2i(".to_owned().concat(x).concat(", ").concat(y).concat(
            "), vec2i(0), bound)",
        )
    } else if low {
        "max(pos + vec2i(".to_owned().concat(x).concat(", ").concat(y).concat("), vec2i(0))")
    } else if high {
        "min(pos + vec2i(".to_owned().concat(x).concat(", ").concat(y).concat("), bound)")
    } else {
        "pos".to_owned()
    }
}

/// One accumulation with the argument `argument` to the accessor.
fn accumulate_line(weights: &str, func: &str, argument: &str) -> (out: String)
    ensures
        out@ == accumulate_text(weights@, func@, argument@),
{
    "    result += mat4x4f(".to_owned().concat(weights).concat(") * ").concat(func).concat(
        "(",
    ).concat(argument).concat(");\n")
}

/// The text of an accumulation, from the groups that `RESULT_ADD_PROD`
/// captured and the macros defined so far.
pub fn accumulate(hook: &MpvHook, groups: &Vec<Option<String>>, funcs: &StringHashMap<u32>) -> (out:
    Result<String, HookError>)
    ensures
        text_or_fault(out) == accumulate_lines(hook@, funcs@, groups_view(groups@)),
{
    let weights = match group_at(groups, 2) {
        Some(weights) => weights,
        None => { return Err(HookError::Pattern); },
    };
    let func = match group_at(groups, 3) {
        Some(func) => func,
        None => { return Err(HookError::Pattern); },
    };
    let func_scale: u32 = match funcs.get(func) {
        Some(scale) => *scale,
        None => { return Err(HookError::UnknownFunction(func.to_owned())); },
    };
    let x_offset = group_at(groups, 4);
    let y_offset = group_at(groups, 5);
    let with_offsets = x_offset.is_some() && y_offset.is_some();
    if !with_offsets && func_scale != hook.scale_factor {
        return Err(HookError::PlainMacroOnOtherScale);
    }
    let argument = if !with_offsets {
        "pos".to_owned()
    } else if func_scale != hook.scale_factor {
        "uv_pos, vec2i(".to_owned().concat(x_offset.unwrap()).concat(", ").concat(
            y_offset.unwrap(),
        ).concat(")")
    } else {
        position(x_offset.unwrap(), y_offset.unwrap())
    };
    let line = accumulate_line(weights, func, argument.as_str());
    if group_at(groups, 1).is_some() {
        Ok(setup(hook).concat(line.as_str()))
    } else {
        Ok(line)
    }
}

/// The text of a bias, from the groups that `RESULT_ADD_VEC` captured.
pub fn bias(groups: &Vec<Option<String>>) -> (out: Result<String, HookError>)
    ensures
        text_or_fault(out) == bias_line(groups_view(groups@)),
{
    match group_at(groups, 1) {
        None => Err(HookError::Pattern),
        Some(weights) => Ok("    result += vec4f(".to_owned().concat(weights).concat(");\n")),
    }
}

/// The text of the return that adds the source pixel, from the groups that
/// `RETURN_OVERLAY` captured.
pub fn overlay(hook: &MpvHook, groups: &Vec<Option<String>>) -> (out: Result<String, HookError>)
    ensures
        text_or_fault(out) == overlay_line(hook@, groups_view(groups@)),
{
    match group_at(groups, 1) {
        None => Err(HookError::Pattern),
        Some(factor) => {
            let head = "    textureStore(".to_owned().concat(hook.output.as_str()).concat(
                "_tex, pos, result",
            ).concat(factor);
            if hook.scale_factor == 1 {
                Ok(head.concat(" + textureLoad(source_tex, pos, 0));\n"))
            } else {
                Ok(
                    head.concat(
                        " + textureSampleLevel(source_tex, input_sampler, uv_pos, 0.0));\n",
                    ),
                )
            }
        },
    }
}

/// Writes `text` to `code`, where there is a text.
fn write(code: &mut String, text: Result<String, HookError>, Ghost(funcs): Ghost<
    Map<Seq<char>, u32>,
>) -> (out: Result<(), HookError>)
    ensures
        step_done(
            out,
            written(state_of(old(code)@, funcs), text_or_fault(text)),
            final(code)@,
            funcs,
        ),
{
    match text {
        Ok(text) => {
            code.append(text.as_str());
            Ok(())
        },
        Err(e) => Err(e),
    }
}

/// The two entry points and the head of the function they share.
fn entry(output: &str) -> (out: String)
    ensures
        out@ == entry_text(output@),
{
    "@compute @workgroup_size(8, 8)\nfn main(@builtin(global_invocation_id) pixel: vec3u) {\n    let out_dim: vec2u = textureDimensions(".to_owned().concat(
        output,
    ).concat(
        "_tex);\n    if (pixel.x < out_dim.x && pixel.y < out_dim.y) {\n        process(vec2i(pixel.xy));\n    }\n}\n\n@compute @workgroup_size(8, 8)\nfn main_unchecked(@builtin(global_invocation_id) pixel: vec3u) {\n    process(vec2i(pixel.xy));\n}\n\nfn process(pos: vec2i) {\n",
    )
}

/// Translates one line of a hook's code.
fn translate_line(
    patterns: &ConvPatterns,
    hook: &MpvHook,
    scales: &StringHashMap<u32>,
    raw: &str,
    code: &mut String,
    funcs: &mut StringHashMap<u32>,
) -> (out: Result<(), HookError>)
    requires
        patterns.wf(),
    ensures
        step_done(
            out,
            conv_line(hook@, scales@, state_of(old(code)@, old(funcs)@), raw@),
            final(code)@,
            final(funcs)@,
        ),
{
    let trimmed_line = trim(raw);
    let line = trimmed_line.as_str();
    match captures(&patterns.go_macro, line) {
        Some(groups) => { return go_macro(hook, scales, &groups, code, funcs); },
        None => {},
    }
    match captures(&patterns.g_macro_relu, line) {
        Some(groups) => { return relu_macro(hook, scales, &groups, code, funcs); },
        None => {},
    }
    if captures(&patterns.entry_begin, line).is_some() {
        code.append(entry(hook.output.as_str()).as_str());
        return Ok(());
    }
    if captures(&patterns.entry_end, line).is_some() {
        code.append("}\n");
        return Ok(());
    }
    match captures(&patterns.result_add_prod, line) {
        Some(groups) => { return write(code, accumulate(hook, &groups, funcs), Ghost(funcs@)); },
        None => {},
    }
    match captures(&patterns.result_add_vec, line) {
        Some(groups) => { return write(code, bias(&groups), Ghost(funcs@)); },
        None => {},
    }
    if captures(&patterns.return_as_is, line).is_some() {
        let store = "    textureStore(".to_owned().concat(hook.output.as_str()).concat(
            "_tex, pos, result);\n",
        );
        code.append(store.as_str());
        return Ok(());
    }
    match captures(&patterns.return_overlay, line) {
        Some(groups) => { return write(code, overlay(hook, &groups), Ghost(funcs@)); },
        None => {},
    }
    if starts_with(line, "//") || line.is_empty() {
        return Ok(());
    }
    Err(HookError::UnexpectedLine { hook: hook.name.clone(), line: trimmed_line })
}

/// Translates the code of a convolution hook into a compute shader.
pub fn convert_conv_hook_code(
    patterns: &ConvPatterns,
    source: &MpvHook,
    scale_factor_map: &StringHashMap<u32>,
) -> (out: Result<String, HookError>)
    requires
        patterns.wf(),
        source.inputs@.len() < u32::MAX,
    ensures
        match out {
            Ok(code) => conv_code(source@, scale_factor_map@) == Ok::<Seq<char>, HookFault>(
                code@,
            ),
            Err(e) => conv_code(source@, scale_factor_map@) == Err::<Seq<char>, HookFault>(e@),
        },
{
    let mut code = header(source);
    let mut funcs = StringHashMap::<u32>::new();
    let lines = split_lines(source.code.as_str());
    let mut i: usize = 0;
    proof {
        assert(views(lines@).take(0) =~= Seq::<Seq<char>>::empty());
    }
    while i < lines.len()
        invariant
            i <= lines.len(),
            patterns.wf(),
            views(lines@) == lines_of(source@.code),
            conv_lines(
                source@,
                scale_factor_map@,
                conv_start(source@),
                views(lines@).take(i as int),
            ) == Ok::<ConvState, HookFault>(state_of(code@, funcs@)),
        decreases lines.len() - i,
    {
        proof {
            let now = views(lines@).take(i + 1);
            assert(now.drop_last() =~= views(lines@).take(i as int));
            assert(now.last() == lines@[i as int]@);
            if conv_lines(source@, scale_factor_map@, conv_start(source@), now) is Err {
                lemma_conv_error_stays(
                    source@,
                    scale_factor_map@,
                    conv_start(source@),
                    views(lines@),
                    i + 1,
                );
            }
        }
        match translate_line(
            patterns,
            source,
            scale_factor_map,
            lines[i].as_str(),
            &mut code,
            &mut funcs,
        ) {
            Err(e) => { return Err(e); },
            Ok(_) => {},
        }
        i += 1;
    }
    proof {
        assert(views(lines@).take(lines.len() as int) =~= views(lines@));
    }
    Ok(code)
}

/// What a shader stage runs: translated code, or the ready-made
/// depth-to-space shader for a number of input textures.
#[derive(Debug)]
pub enum WgslStageShaderType {
    /// A convolution layer with its translated code
    Conv {
        /// The compute shader
        code: String,
    },
    /// A depth-to-space layer
    DepthToSpace {
        /// Number of input textures
        channel_count: u32,
    },
}

/// A shader stage made from a hook.
#[derive(Debug)]
pub struct WgslStageShader {
    /// The hook that this stage was made from
    pub source: MpvHook,
    /// Name of the stage: the hook's output, `result` for the final one
    pub name: String,
    /// What the stage runs
    pub kind: WgslStageShaderType,
    /// Input textures with their bindings, from 0 on
    pub inputs: Vec<(u32, String)>,
    /// Output texture with its binding, the one after the inputs
    pub output: (u32, String),
    /// Binding of the sampler, the one after the output, for a stage that upscales
    pub sampler: Option<u32>,
    /// Scale factor as text
    pub scale_factor: String,
}

/// A `WgslStageShaderType` with its text as a character sequence.
pub ghost enum StageKind {
    Conv { code: Seq<char> },
    DepthToSpace { channel_count: u32 },
}

impl View for WgslStageShaderType {
    type V = StageKind;

    open spec fn view(&self) -> StageKind {
        match *self {
            WgslStageShaderType::Conv { code } => StageKind::Conv { code: code@ },
            WgslStageShaderType::DepthToSpace { channel_count } => StageKind::DepthToSpace {
                channel_count,
            },
        }
    }
}

/// A `WgslStageShader` with its texts as character sequences.
pub ghost struct StageView {
    pub source: HookView,
    pub name: Seq<char>,
    pub kind: StageKind,
    pub inputs: Seq<(u32, Seq<char>)>,
    pub output: (u32, Seq<char>),
    pub sampler: Option<u32>,
    pub scale_factor: Seq<char>,
}

/// The views of bound texture names.
pub open spec fn bound_views(v: Seq<(u32, String)>) -> Seq<(u32, Seq<char>)> {
    Seq::new(v.len(), |i: int| (v[i].0, v[i].1@))
}

impl View for WgslStageShader {
    type V = StageView;

    open spec fn view(&self) -> StageView {
        StageView {
            source: self.source@,
            name: self.name@,
            kind: self.kind@,
            inputs: bound_views(self.inputs@),
            output: (self.output.0, self.output.1@),
            sampler: self.sampler,
            scale_factor: self.scale_factor@,
        }
    }
}

impl Clone for WgslStageShaderType {
    fn clone(&self) -> (out: Self)
        ensures
            out@ == self@,
    {
        match self {
            WgslStageShaderType::Conv { code } => WgslStageShaderType::Conv { code: code.clone() },
            WgslStageShaderType::DepthToSpace { channel_count } => WgslStageShaderType::DepthToSpace {
                channel_count: *channel_count,
            },
        }
    }
}

impl Clone for WgslStageShader {
    fn clone(&self) -> (out: Self)
        ensures
            out@ == self@,
    {
        let mut inputs: Vec<(u32, String)> = Vec::new();
        let mut i: usize = 0;
        while i < self.inputs.len()
            invariant
                i <= self.inputs.len(),
                inputs@.len() == i,
                forall|j: int|
                    0 <= j < i ==> (#[trigger] inputs@[j]).0 == self.inputs@[j].0 && inputs@[j].1@
                        == self.inputs@[j].1@,
            decreases self.inputs.len() - i,
        {
            inputs.push((self.inputs[i].0, self.inputs[i].1.clone()));
            i += 1;
        }
        proof {
            assert(bound_views(inputs@) =~= bound_views(self.inputs@));
        }
        WgslStageShader {
            source: self.source.clone(),
            name: self.name.clone(),
            kind: self.kind.clone(),
            inputs,
            output: (self.output.0, self.output.1.clone()),
            sampler: self.sampler,
            scale_factor: self.scale_factor.clone(),
        }
    }
}

/// `name`, or `other` in place of the name `plain`.
pub open spec fn renamed(name: Seq<char>, plain: Seq<char>, other: Seq<char>) -> Seq<char> {
    if name == plain {
        other
    } else {
        name
    }
}

/// What a stage runs, for a hook.
pub open spec fn stage_kind(hook: HookView, scales: Map<Seq<char>, u32>) -> Result<
    StageKind,
    HookFault,
> {
    match hook.stage {
        ConvolutionStageType::Conv => match conv_code(hook, scales) {
            Ok(code) => Ok(StageKind::Conv { code }),
            Err(e) => Err(e),
        },
        ConvolutionStageType::DepthToSpace => Ok(
            StageKind::DepthToSpace { channel_count: hook.inputs.len() as u32 },
        ),
    }
}

/// The inputs of a stage: the hook's inputs at bindings 0, 1, 2, ..., the
/// pipeline's source under the name `SOURCE`.
pub open spec fn stage_inputs(inputs: Seq<Seq<char>>) -> Seq<(u32, Seq<char>)> {
    Seq::new(inputs.len(), |i: int| (i as u32, renamed(inputs[i], "source"@, "SOURCE"@)))
}

/// The stage that a hook makes: its inputs at the first bindings, its output
/// at the next one, the pipeline's result under the name `RESULT`, and a
/// sampler at the binding after that where the hook upscales.
pub open spec fn stage_of_hook(hook: HookView, scales: Map<Seq<char>, u32>) -> Result<
    StageView,
    HookFault,
> {
    if hook.inputs.len() >= u32::MAX {
        Err(HookFault::TooManyInputs)
    } else {
        match stage_kind(hook, scales) {
            Err(e) => Err(e),
            Ok(kind) => Ok(
            StageView {
                source: hook,
                name: renamed(hook.output, "dest"@, "result"@),
                kind,
                inputs: stage_inputs(hook.inputs),
                output: (hook.inputs.len() as u32, renamed(hook.output, "dest"@, "RESULT"@)),
                sampler: if hook.scale_factor > 1 {
                    Some((hook.inputs.len() + 1) as u32)
                } else {
                    None
                },
                scale_factor: if hook.scale_factor > 1 {
                    decimal_digits(hook.scale_factor as nat)
                } else {
                    "1"@
                },
            },
        ),
        }
    }
}

impl WgslStageShader {
    /// Makes the shader stage of a hook. The code of a convolution hook is
    /// translated; a depth-to-space hook only counts its inputs.
    pub fn new(source: MpvHook, scale_factor_map: &StringHashMap<u32>) -> (out: Result<
        Self,
        HookError,
    >)
        ensures
            match out {
                Ok(stage) => stage_of_hook(source@, scale_factor_map@) == Ok::<
                    StageView,
                    HookFault,
                >(stage@),
                Err(e) => stage_of_hook(source@, scale_factor_map@) == Err::<StageView, HookFault>(
                    e@,
                ),
            },
    {
        if source.inputs.len() >= u32::MAX as usize {
            return Err(HookError::TooManyInputs);
        }
        let is_final = str_eq(source.output.as_str(), "dest");
        let name = if is_final {
            "result".to_owned()
        } else {
            source.output.clone()
        };
        let kind = match source.stage {
            ConvolutionStageType::Conv => {
                let patterns = match ConvPatterns::new() {
                    Some(patterns) => patterns,
                    None => { return Err(HookError::Pattern); },
                };
                match convert_conv_hook_code(&patterns, &source, scale_factor_map) {
                    Ok(code) => WgslStageShaderType::Conv { code },
                    Err(e) => { return Err(e); },
                }
            },
            ConvolutionStageType::DepthToSpace => WgslStageShaderType::DepthToSpace {
                channel_count: source.inputs.len() as u32,
            },
        };
        let mut inputs: Vec<(u32, String)> = Vec::new();
        let mut i: usize = 0;
        while i < source.inputs.len()
            invariant
                i <= source.inputs.len(),
                source.inputs@.len() < u32::MAX,
                inputs@.len() == i,
                forall|k: int|
                    0 <= k < i ==> (#[trigger] inputs@[k]).0 == k as u32 && inputs@[k].1@
                        == renamed(source.inputs@[k]@, "source"@, "SOURCE"@),
            decreases source.inputs.len() - i,
        {
            let input = if str_eq(source.inputs[i].as_str(), "source") {
                "SOURCE".to_owned()
            } else {
                source.inputs[i].clone()
            };
            inputs.push((i as u32, input));
            i += 1;
        }
        let count: u32 = source.inputs.len() as u32;
        let output = (count, if is_final {
            "RESULT".to_owned()
        } else {
            name.clone()
        });
        let sampler = if source.scale_factor > 1 {
            Some(count + 1)
        } else {
            None
        };
        let scale_factor = if source.scale_factor > 1 {
            decimal(source.scale_factor as u64)
        } else {
            "1".to_owned()
        };
        proof {
            assert(bound_views(inputs@) =~= stage_inputs(source@.inputs));
        }
        Ok(WgslStageShader { source, name, kind, inputs, output, sampler, scale_factor })
    }
}

} // verus!
