//! The hook format: splitting a source into hooks and reading one hook.

use crate::cnn::error::{fault_view, HookError, HookFault};
use crate::pattern::{
    captures, captures_view, compile, group, group_at, pattern_accepted, pattern_captures,
    pattern_text,
};
use crate::text::{
    clone_strings, contains, has_infix, has_prefix, lemma_views_push, lines_of, parse_u32, parsed_u32,
    split_lines, starts_with, str_eq, strip_prefix, trim, trimmed, views, without_prefix,
};
use vstd::hash_map::StringHashMap;
use vstd::prelude::*;
use vstd::string::StringExecFns;

verus! {

/// The two kinds of stage a hook can describe.
#[derive(Debug, Clone, Copy, PartialEq, Eq, Structural)]
pub enum ConvolutionStageType {
    /// A convolution layer, whose code is translated
    Conv,
    /// A depth-to-space layer, whose shader is supplied ready-made
    DepthToSpace,
}

/// One parsed shader hook.
#[derive(Debug)]
pub struct MpvHook {
    /// Description from the `DESC` directive
    pub name: String,
    /// Scale factor relative to the source texture
    pub scale_factor: u32,
    /// Whether some input has another scale than the hook, and is read through a sampler
    pub needs_sampler: bool,
    /// Whether some input has the hook's scale, and is read by index within bounds
    pub needs_bound: bool,
    /// Input texture names from the `BIND` directives
    pub inputs: Vec<String>,
    /// Output texture name from the `SAVE` directive
    pub output: String,
    /// The kind of stage
    pub stage: ConvolutionStageType,
    /// The lines that are no directives, each ended by a line feed
    pub code: String,
}

/// An `MpvHook` with its texts as character sequences.
pub ghost struct HookView {
    pub name: Seq<char>,
    pub scale_factor: u32,
    pub needs_sampler: bool,
    pub needs_bound: bool,
    pub inputs: Seq<Seq<char>>,
    pub output: Seq<char>,
    pub stage: ConvolutionStageType,
    pub code: Seq<char>,
}

impl View for MpvHook {
    type V = HookView;

    open spec fn view(&self) -> HookView {
        HookView {
            name: self.name@,
            scale_factor: self.scale_factor,
            needs_sampler: self.needs_sampler,
            needs_bound: self.needs_bound,
            inputs: views(self.inputs@),
            output: self.output@,
            stage: self.stage,
            code: self.code@,
        }
    }
}

impl Clone for MpvHook {
    fn clone(&self) -> (out: Self)
        ensures
            out@ == self@,
    {
        MpvHook {
            name: self.name.clone(),
            scale_factor: self.scale_factor,
            needs_sampler: self.needs_sampler,
            needs_bound: self.needs_bound,
            inputs: clone_strings(&self.inputs),
            output: self.output.clone(),
            stage: self.stage,
            code: self.code.clone(),
        }
    }
}

/// The pattern of a `WIDTH` or `HEIGHT` directive: a texture name, `.w` or
/// `.h`, and optionally a factor followed by ` *`.
pub const SCALE_LINE: &'static str = r"^//!(?:WIDTH|HEIGHT) (\w+)\.[wh](?: (\d+) \*)?$";

/// Whether a line opens a new hook.
pub open spec fn opens_hook(line: Seq<char>) -> bool {
    has_prefix(line, "//!DESC "@)
}

/// The hooks of a source, given its lines: each hook runs from a line that
/// opens it up to the next such line, every line followed by a line feed.
/// Lines before the first hook belong to none.
pub open spec fn hook_blocks(lines: Seq<Seq<char>>) -> Seq<Seq<char>>
    decreases lines.len(),
{
    if lines.len() == 0 {
        Seq::empty()
    } else {
        let before = hook_blocks(lines.drop_last());
        let line = lines.last();
        if opens_hook(line) {
            before.push(line.push('\n'))
        } else if before.len() > 0 {
            before.update(before.len() - 1, (before.last() + line).push('\n'))
        } else {
            before
        }
    }
}

/// The texts of `blocks`, one after another.
pub open spec fn flat(blocks: Seq<Seq<char>>) -> Seq<char>
    decreases blocks.len(),
{
    if blocks.len() == 0 {
        Seq::empty()
    } else {
        flat(blocks.drop_last()) + blocks.last()
    }
}

/// The text of `lines`, every line followed by a line feed.
pub open spec fn terminated(lines: Seq<Seq<char>>) -> Seq<char>
    decreases lines.len(),
{
    if lines.len() == 0 {
        Seq::empty()
    } else {
        terminated(lines.drop_last()) + lines.last().push('\n')
    }
}

/// The lines from the first one that opens a hook on.
pub open spec fn hooked_lines(lines: Seq<Seq<char>>) -> Seq<Seq<char>>
    decreases lines.len(),
{
    if lines.len() == 0 {
        Seq::empty()
    } else if hooked_lines(lines.drop_last()).len() > 0 || opens_hook(lines.last()) {
        hooked_lines(lines.drop_last()).push(lines.last())
    } else {
        Seq::empty()
    }
}

/// The lines from the first one that opens a hook on are just that: all
/// lines from some line on, which opens a hook while none before it does.
pub proof fn lemma_hooked_lines(lines: Seq<Seq<char>>) -> (from: int)
    ensures
        0 <= from <= lines.len(),
        hooked_lines(lines) == lines.skip(from),
        from < lines.len() ==> opens_hook(lines[from]),
        forall|k: int| 0 <= k < from ==> !opens_hook(#[trigger] lines[k]),
    decreases lines.len(),
{
    if lines.len() == 0 {
        assert(lines.skip(0) =~= Seq::<Seq<char>>::empty());
        0
    } else {
        let head = lines.drop_last();
        let from = lemma_hooked_lines(head);
        assert forall|k: int| 0 <= k < from implies !opens_hook(#[trigger] lines[k]) by {
            assert(lines[k] == head[k]);
        }
        if from < head.len() {
            assert(lines[from] == head[from]);
            assert(head.skip(from).push(lines.last()) =~= lines.skip(from));
            from
        } else if opens_hook(lines.last()) {
            assert(head.skip(from) =~= Seq::<Seq<char>>::empty());
            assert(Seq::<Seq<char>>::empty().push(lines.last()) =~= lines.skip(from));
            from
        } else {
            assert(lines.skip(lines.len() as int) =~= Seq::<Seq<char>>::empty());
            lines.len() as int
        }
    }
}

/// Splitting loses nothing: the hooks, one after another, are the lines
/// from the first hook on, every line followed by a line feed. There is a
/// hook exactly when some line opens one.
pub proof fn lemma_split_is_lossless(lines: Seq<Seq<char>>)
    ensures
        flat(hook_blocks(lines)) == terminated(hooked_lines(lines)),
        hook_blocks(lines).len() > 0 <==> hooked_lines(lines).len() > 0,
    decreases lines.len(),
{
    if lines.len() > 0 {
        let head = lines.drop_last();
        let line = lines.last();
        lemma_split_is_lossless(head);
        let before = hook_blocks(head);
        let blocks = hook_blocks(lines);
        let kept = hooked_lines(lines);
        if opens_hook(line) {
            assert(blocks.drop_last() =~= before);
            assert(kept.drop_last() =~= hooked_lines(head));
        } else if before.len() > 0 {
            assert(blocks.drop_last() =~= before.drop_last());
            assert(kept.drop_last() =~= hooked_lines(head));
            assert(flat(before.drop_last()) + (before.last() + line).push('\n') =~= (flat(
                before.drop_last(),
            ) + before.last()) + line.push('\n'));
        }
    }
}

/// The trimmed text after `key`, where the line begins with `key`.
pub open spec fn directive(line: Seq<char>, key: Seq<char>) -> Option<Seq<char>> {
    match without_prefix(line, key) {
        Some(rest) => Some(trimmed(rest)),
        None => None,
    }
}

/// `name`, or `other` in place of the name `MAIN`.
pub open spec fn main_as(name: Seq<char>, other: Seq<char>) -> Seq<char> {
    if name == "MAIN"@ {
        other
    } else {
        name
    }
}

/// The scale factor that a `WIDTH` or `HEIGHT` line gives, from what the
/// scale pattern captured in it: the scale of the texture in group 1 times
/// the factor in group 2, or times one without a factor.
pub open spec fn line_scale(
    found: Option<Seq<Option<Seq<char>>>>,
    scales: Map<Seq<char>, u32>,
) -> Result<u32, HookFault> {
    match found {
        None => Err(HookFault::InvalidScaleLine),
        Some(groups) => if group(groups, 1) is None {
            Err(HookFault::Pattern)
        } else {
            let base = group(groups, 1)->0;
            let ratio = match group(groups, 2) {
                None => Some(1u32),
                Some(digits) => parsed_u32(digits),
            };
            match ratio {
                None => Err(HookFault::InvalidScaleLine),
                Some(ratio) => if !scales.contains_key(base) {
                    Err(HookFault::UnknownBaseTexture)
                } else if scales[base] * ratio > u32::MAX {
                    Err(HookFault::ScaleOverflow)
                } else {
                    Ok((scales[base] * ratio) as u32)
                },
            }
        },
    }
}

/// What has been read of a hook so far. A scale of zero stands for none.
pub ghost struct HookScan {
    pub name: Seq<char>,
    pub scale: u32,
    pub inputs: Seq<Seq<char>>,
    pub output: Seq<char>,
    pub code: Seq<char>,
}

/// The state before the first line.
pub open spec fn scan_start() -> HookScan {
    HookScan {
        name: Seq::empty(),
        scale: 0,
        inputs: Seq::empty(),
        output: Seq::empty(),
        code: Seq::empty(),
    }
}

/// The effect of one line on what has been read.
pub open spec fn scan_line(st: HookScan, line: Seq<char>, scales: Map<Seq<char>, u32>) -> Result<
    HookScan,
    HookFault,
> {
    if directive(line, "//!DESC "@) is Some {
        Ok(HookScan { name: directive(line, "//!DESC "@)->0, ..st })
    } else if has_prefix(line, "//!WIDTH "@) || has_prefix(line, "//!HEIGHT "@) {
        match line_scale(pattern_captures(SCALE_LINE@, line), scales) {
            Err(e) => Err(e),
            Ok(scale) => if st.scale == 0 {
                Ok(HookScan { scale, ..st })
            } else if st.scale != scale {
                Err(HookFault::InconsistentScale)
            } else {
                Ok(st)
            },
        }
    } else if directive(line, "//!BIND "@) is Some {
        Ok(
            HookScan {
                inputs: st.inputs.push(main_as(directive(line, "//!BIND "@)->0, "source"@)),
                ..st
            },
        )
    } else if directive(line, "//!SAVE "@) is Some {
        Ok(HookScan { output: main_as(directive(line, "//!SAVE "@)->0, "dest"@), ..st })
    } else if directive(line, "//!HOOK "@) is Some {
        if directive(line, "//!HOOK "@)->0 == "MAIN"@ {
            Ok(st)
        } else {
            Err(HookFault::UnsupportedHook)
        }
    } else if directive(line, "//!COMPONENTS "@) is Some {
        if directive(line, "//!COMPONENTS "@)->0 == "4"@ {
            Ok(st)
        } else {
            Err(HookFault::UnsupportedComponents)
        }
    } else if has_prefix(line, "//!WHEN "@) {
        Ok(st)
    } else {
        Ok(HookScan { code: (st.code + line).push('\n'), ..st })
    }
}

/// The effect of a run of lines, stopping at the first failure.
pub open spec fn scan_lines(lines: Seq<Seq<char>>, scales: Map<Seq<char>, u32>) -> Result<
    HookScan,
    HookFault,
>
    decreases lines.len(),
{
    if lines.len() == 0 {
        Ok(scan_start())
    } else {
        match scan_lines(lines.drop_last(), scales) {
            Err(e) => Err(e),
            Ok(st) => scan_line(st, lines.last(), scales),
        }
    }
}

/// The first input that has no scale, if there is one.
pub open spec fn first_unknown(inputs: Seq<Seq<char>>, scales: Map<Seq<char>, u32>) -> Option<
    Seq<char>,
>
    decreases inputs.len(),
{
    if inputs.len() == 0 {
        None
    } else {
        match first_unknown(inputs.drop_last(), scales) {
            Some(name) => Some(name),
            None => if scales.contains_key(inputs.last()) {
                None
            } else {
                Some(inputs.last())
            },
        }
    }
}

/// Whether some input has the scale `scale`.
pub open spec fn some_input_at(inputs: Seq<Seq<char>>, scales: Map<Seq<char>, u32>, scale: u32) -> bool {
    exists|i: int| 0 <= i < inputs.len() && scales[#[trigger] inputs[i]] == scale
}

/// Whether some input has another scale than `scale`.
pub open spec fn some_input_off(inputs: Seq<Seq<char>>, scales: Map<Seq<char>, u32>, scale: u32) -> bool {
    exists|i: int| 0 <= i < inputs.len() && scales[#[trigger] inputs[i]] != scale
}

/// The kind of stage that a description names.
pub open spec fn stage_of(name: Seq<char>) -> Option<ConvolutionStageType> {
    if has_infix(name, "-Conv-"@) {
        Some(ConvolutionStageType::Conv)
    } else if has_infix(name, "-Depth-to-Space"@) {
        Some(ConvolutionStageType::DepthToSpace)
    } else {
        None
    }
}

/// The hook that the lines read make up, or what it lacks.
pub open spec fn scan_result(st: HookScan, scales: Map<Seq<char>, u32>) -> Result<
    HookView,
    HookFault,
> {
    if stage_of(st.name) is None {
        Err(HookFault::UnknownHookType)
    } else if st.inputs.len() == 0 {
        Err(HookFault::NoInputs)
    } else if st.output.len() == 0 {
        Err(HookFault::NoOutput)
    } else if st.scale == 0 {
        Err(HookFault::NoScaleFactor)
    } else if first_unknown(st.inputs, scales) is Some {
        Err(HookFault::UnknownInput(first_unknown(st.inputs, scales)->0))
    } else {
        Ok(
            HookView {
                name: st.name,
                scale_factor: st.scale,
                needs_sampler: some_input_off(st.inputs, scales, st.scale),
                needs_bound: some_input_at(st.inputs, scales, st.scale),
                inputs: st.inputs,
                output: st.output,
                stage: stage_of(st.name)->0,
                code: st.code,
            },
        )
    }
}

/// The hook that a source text describes, given the scales of the textures
/// saved so far.
pub open spec fn parsed_hook(source: Seq<char>, scales: Map<Seq<char>, u32>) -> Result<
    HookView,
    HookFault,
> {
    if !pattern_accepted(SCALE_LINE@) {
        Err(HookFault::Pattern)
    } else {
        match scan_lines(lines_of(source), scales) {
            Err(e) => Err(e),
            Ok(st) => scan_result(st, scales),
        }
    }
}

/// The scales before the first hook: `MAIN`, `HOOKED` and `source` at 1.
pub open spec fn base_scales() -> Map<Seq<char>, u32> {
    Map::empty().insert("MAIN"@, 1u32).insert("HOOKED"@, 1u32).insert("source"@, 1u32)
}

/// The trimmed text after `key`, where the line begins with `key`.
pub fn directive_value(line: &str, key: &str) -> (out: Option<String>)
    ensures
        out is Some == directive(line@, key@) is Some,
        out is Some ==> out->0@ == directive(line@, key@)->0,
{
    match strip_prefix(line, key) {
        Some(rest) => Some(trim(rest.as_str())),
        None => None,
    }
}

/// The scale factor that a `WIDTH` or `HEIGHT` line gives, from what the
/// scale pattern captured in it.
pub fn scale_from_groups(found: &Option<Vec<Option<String>>>, scales: &StringHashMap<u32>) -> (out:
    Result<u32, HookError>)
    ensures
        fault_view(out) == line_scale(captures_view(*found), scales@),
{
    match found {
        None => Err(HookError::InvalidScaleLine),
        Some(groups) => {
            let base = match group_at(groups, 1) {
                Some(base) => base,
                None => { return Err(HookError::Pattern); },
            };
            let ratio: u32 = match group_at(groups, 2) {
                None => 1,
                Some(digits) => match parse_u32(digits) {
                    Some(ratio) => ratio,
                    None => { return Err(HookError::InvalidScaleLine); },
                },
            };
            match scales.get(base) {
                None => Err(HookError::UnknownBaseTexture),
                Some(scale) => match scale.checked_mul(ratio) {
                    Some(product) => Ok(product),
                    None => Err(HookError::ScaleOverflow),
                },
            }
        },
    }
}

/// A failure on the first lines is the failure of the whole.
pub proof fn lemma_scan_error_stays(lines: Seq<Seq<char>>, scales: Map<Seq<char>, u32>, n: int)
    requires
        0 <= n <= lines.len(),
        scan_lines(lines.take(n), scales) is Err,
    ensures
        scan_lines(lines, scales) == scan_lines(lines.take(n), scales),
    decreases lines.len() - n,
{
    if n < lines.len() {
        assert(lines.take(n + 1).drop_last() =~= lines.take(n));
        lemma_scan_error_stays(lines, scales, n + 1);
    } else {
        assert(lines.take(n) =~= lines);
    }
}

/// The first unknown input of a prefix is the first unknown input of the whole.
pub proof fn lemma_first_unknown_stays(inputs: Seq<Seq<char>>, scales: Map<Seq<char>, u32>, n: int)
    requires
        0 <= n <= inputs.len(),
        first_unknown(inputs.take(n), scales) is Some,
    ensures
        first_unknown(inputs, scales) == first_unknown(inputs.take(n), scales),
    decreases inputs.len() - n,
{
    if n < inputs.len() {
        assert(inputs.take(n + 1).drop_last() =~= inputs.take(n));
        lemma_first_unknown_stays(inputs, scales, n + 1);
    } else {
        assert(inputs.take(n) =~= inputs);
    }
}

/// How the input flags grow with one more input.
pub proof fn lemma_inputs_step(
    inputs: Seq<Seq<char>>,
    scales: Map<Seq<char>, u32>,
    scale: u32,
    j: int,
)
    requires
        0 <= j < inputs.len(),
    ensures
        some_input_at(inputs.take(j + 1), scales, scale) == (some_input_at(
            inputs.take(j),
            scales,
            scale,
        ) || scales[inputs[j]] == scale),
        some_input_off(inputs.take(j + 1), scales, scale) == (some_input_off(
            inputs.take(j),
            scales,
            scale,
        ) || scales[inputs[j]] != scale),
{
    let a = inputs.take(j);
    let b = inputs.take(j + 1);
    assert(b[j] == inputs[j]);
    if some_input_at(a, scales, scale) {
        let i = choose|i: int| 0 <= i < a.len() && scales[#[trigger] a[i]] == scale;
        assert(b[i] == a[i]);
    }
    if some_input_at(b, scales, scale) {
        let i = choose|i: int| 0 <= i < b.len() && scales[#[trigger] b[i]] == scale;
        if i < j {
            assert(a[i] == b[i]);
        }
    }
    if some_input_off(a, scales, scale) {
        let i = choose|i: int| 0 <= i < a.len() && scales[#[trigger] a[i]] != scale;
        assert(b[i] == a[i]);
    }
    if some_input_off(b, scales, scale) {
        let i = choose|i: int| 0 <= i < b.len() && scales[#[trigger] b[i]] != scale;
        if i < j {
            assert(a[i] == b[i]);
        }
    }
}

impl MpvHook {
    /// Reads one hook from its source text. `scale_factor_map` holds the
    /// scale of every texture saved so far; on success the hook's output is
    /// entered in it with the hook's scale, on failure it is left as it was.
    pub fn new(source: &str, scale_factor_map: &mut StringHashMap<u32>) -> (out: Result<
        Self,
        HookError,
    >)
        ensures
            match out {
                Ok(hook) => parsed_hook(source@, old(scale_factor_map)@) == Ok::<
                    HookView,
                    HookFault,
                >(hook@) && final(scale_factor_map)@ == old(scale_factor_map)@.insert(
                    hook@.output,
                    hook@.scale_factor,
                ),
                Err(e) => parsed_hook(source@, old(scale_factor_map)@) == Err::<
                    HookView,
                    HookFault,
                >(e@) && final(scale_factor_map)@ == old(scale_factor_map)@,
            },
    {
        let pattern = match compile(SCALE_LINE) {
            Some(pattern) => pattern,
            None => { return Err(HookError::Pattern); },
        };
        let lines = split_lines(source);
        let mut name = String::new();
        let mut scale_factor: u32 = 0;
        let mut inputs: Vec<String> = Vec::new();
        let mut output = String::new();
        let mut code = String::new();
        let ghost scales = scale_factor_map@;
        let mut i: usize = 0;
        proof {
            assert(views(lines@).take(0) =~= Seq::<Seq<char>>::empty());
            assert(views(inputs@) =~= Seq::<Seq<char>>::empty());
        }
        while i < lines.len()
            invariant
                i <= lines.len(),
                pattern_text(pattern) == SCALE_LINE@,
                pattern_accepted(SCALE_LINE@),
                scale_factor_map@ == scales,
                scales == old(scale_factor_map)@,
                views(lines@) == lines_of(source@),
                scan_lines(views(lines@).take(i as int), scales) == Ok::<HookScan, HookFault>(
                    HookScan {
                        name: name@,
                        scale: scale_factor,
                        inputs: views(inputs@),
                        output: output@,
                        code: code@,
                    },
                ),
            decreases lines.len() - i,
        {
            let line = lines[i].as_str();
            proof {
                let now = views(lines@).take(i + 1);
                assert(now.drop_last() =~= views(lines@).take(i as int));
                assert(now.last() == line@);
                if scan_lines(now, scales) is Err {
                    lemma_scan_error_stays(views(lines@), scales, i + 1);
                }
            }
            let desc = directive_value(line, "//!DESC ");
            let bind = directive_value(line, "//!BIND ");
            let save = directive_value(line, "//!SAVE ");
            let hook = directive_value(line, "//!HOOK ");
            let components = directive_value(line, "//!COMPONENTS ");
            if desc.is_some() {
                name = desc.unwrap();
            } else if starts_with(line, "//!WIDTH ") || starts_with(line, "//!HEIGHT ") {
                let found = captures(&pattern, line);
                match scale_from_groups(&found, scale_factor_map) {
                    Err(e) => { return Err(e); },
                    Ok(current) => {
                        if scale_factor == 0 {
                            scale_factor = current;
                        } else if scale_factor != current {
                            return Err(HookError::InconsistentScale);
                        }
                    },
                }
            } else if bind.is_some() {
                let content = bind.unwrap();
                let input = if str_eq(content.as_str(), "MAIN") {
                    "source".to_owned()
                } else {
                    content
                };
                proof {
                    lemma_views_push(inputs@, input);
                }
                inputs.push(input);
            } else if save.is_some() {
                let content = save.unwrap();
                output = if str_eq(content.as_str(), "MAIN") {
                    "dest".to_owned()
                } else {
                    content
                };
            } else if hook.is_some() {
                if !str_eq(hook.unwrap().as_str(), "MAIN") {
                    return Err(HookError::UnsupportedHook);
                }
            } else if components.is_some() {
                if !str_eq(components.unwrap().as_str(), "4") {
                    return Err(HookError::UnsupportedComponents);
                }
            } else if starts_with(line, "//!WHEN ") {
            } else {
                code.append(line);
                code.push('\n');
            }
            i += 1;
        }
        proof {
            assert(views(lines@).take(lines.len() as int) =~= views(lines@));
        }
        let ghost st = HookScan {
            name: name@,
            scale: scale_factor,
            inputs: views(inputs@),
            output: output@,
            code: code@,
        };
        let stage = if contains(name.as_str(), "-Conv-") {
            ConvolutionStageType::Conv
        } else if contains(name.as_str(), "-Depth-to-Space") {
            ConvolutionStageType::DepthToSpace
        } else {
            return Err(HookError::UnknownHookType);
        };
        if inputs.len() == 0 {
            return Err(HookError::NoInputs);
        }
        if output.as_str().is_empty() {
            return Err(HookError::NoOutput);
        }
        if scale_factor == 0 {
            return Err(HookError::NoScaleFactor);
        }
        let mut needs_sampler = false;
        let mut needs_bound = false;
        let mut j: usize = 0;
        proof {
            assert(views(inputs@).take(0) =~= Seq::<Seq<char>>::empty());
        }
        while j < inputs.len()
            invariant
                j <= inputs.len(),
                scale_factor_map@ == scales,
                scales == old(scale_factor_map)@,
                pattern_accepted(SCALE_LINE@),
                scan_lines(lines_of(source@), scales) == Ok::<HookScan, HookFault>(st),
                st.inputs == views(inputs@),
                st.scale == scale_factor,
                st.name == name@,
                st.output == output@,
                st.code == code@,
                stage_of(st.name) == Some(stage),
                st.inputs.len() > 0,
                st.output.len() > 0,
                st.scale != 0,
                first_unknown(views(inputs@).take(j as int), scales) is None,
                needs_bound == some_input_at(views(inputs@).take(j as int), scales, scale_factor),
                needs_sampler == some_input_off(
                    views(inputs@).take(j as int),
                    scales,
                    scale_factor,
                ),
            decreases inputs.len() - j,
        {
            proof {
                let now = views(inputs@).take(j + 1);
                assert(now.drop_last() =~= views(inputs@).take(j as int));
                assert(now.last() == inputs@[j as int]@);
                lemma_inputs_step(views(inputs@), scales, scale_factor, j as int);
            }
            match scale_factor_map.get(inputs[j].as_str()) {
                Some(input_scale) => {
                    if *input_scale == scale_factor {
                        needs_bound = true;
                    } else {
                        needs_sampler = true;
                    }
                },
                None => {
                    proof {
                        lemma_first_unknown_stays(views(inputs@), scales, j + 1);
                    }
                    return Err(HookError::UnknownInput(inputs[j].clone()));
                },
            }
            j += 1;
        }
        proof {
            assert(views(inputs@).take(inputs.len() as int) =~= views(inputs@));
        }
        scale_factor_map.insert(output.clone(), scale_factor);
        Ok(MpvHook { name, scale_factor, needs_sampler, needs_bound, inputs, output, stage, code })
    }

    /// Splits a source into its hooks, one text per hook.
    pub fn parse_mpv_hooks(source: &str) -> (hooks: Vec<String>)
        ensures
            views(hooks@) == hook_blocks(lines_of(source@)),
    {
        let lines = split_lines(source);
        let mut hooks: Vec<String> = Vec::new();
        let mut current = String::new();
        let mut i: usize = 0;
        proof {
            assert(views(hooks@) =~= Seq::<Seq<char>>::empty());
            assert(views(lines@).take(0) =~= Seq::<Seq<char>>::empty());
        }
        while i < lines.len()
            invariant
                i <= lines.len(),
                current@.len() == 0 ==> hooks@.len() == 0 && hook_blocks(views(lines@).take(i as int)).len() == 0,
                current@.len() > 0 ==> hook_blocks(views(lines@).take(i as int)) == views(
                    hooks@,
                ).push(current@),
            decreases lines.len() - i,
        {
            let line = lines[i].as_str();
            proof {
                let now = views(lines@).take(i + 1);
                assert(now.drop_last() =~= views(lines@).take(i as int));
                assert(now.last() == line@);
            }
            if starts_with(line, "//!DESC ") {
                if !current.as_str().is_empty() {
                    proof {
                        lemma_views_push(hooks@, current);
                    }
                    hooks.push(current);
                }
                current = line.to_owned();
                current.push('\n');
            } else if !current.as_str().is_empty() {
                current.append(line);
                current.push('\n');
                proof {
                    assert(views(hooks@).push(current@) =~= hook_blocks(
                        views(lines@).take(i + 1),
                    ));
                }
            }
            i += 1;
        }
        proof {
            assert(views(lines@).take(lines.len() as int) =~= views(lines@));
        }
        if !current.as_str().is_empty() {
            proof {
                lemma_views_push(hooks@, current);
            }
            hooks.push(current);
        } else {
            proof {
                assert(views(hooks@) =~= hook_blocks(views(lines@)));
            }
        }
        hooks
    }

    /// The scales before the first hook: `MAIN`, `HOOKED` and `source` at 1.
    pub fn new_scale_factor_map() -> (scales: StringHashMap<u32>)
        ensures
            scales@ == base_scales(),
    {
        let mut scales = StringHashMap::<u32>::new();
        scales.insert("MAIN".to_owned(), 1);
        scales.insert("HOOKED".to_owned(), 1);
        scales.insert("source".to_owned(), 1);
        scales
    }
}

} // verus!
