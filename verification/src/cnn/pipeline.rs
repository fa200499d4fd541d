//! From a hook source to an executable pipeline.

use super::convert::{stage_of_hook, StageKind, StageView, WgslStageShader, WgslStageShaderType};
use super::error::{HookError, HookFault};
use super::hook::{base_scales, hook_blocks, parsed_hook, MpvHook};
use crate::minify::minify_wgsl;
use crate::pipelines::executable_pipeline::{
    compiled, loaded_by, refused_by, CompileError, CompileFault, CompiledPipeline,
    ExecutablePipeline, PipelineCompiler,
};
use crate::pipelines::pipeline_specs::{
    lemma_digits_parse, BindingView, OutputView, Pass, PassView, PipelineSpec, SamplerBinding,
    SamplerFilterMode, ScaleFactor, SpecView, TextureBindingSpec, TextureOutput,
};
use crate::text::{decimal, decimal_digits, lines_of, parse_u32, parsed_u32, views};
use vstd::prelude::*;
use vstd::string::StringExecFns;

verus! {

/// Why a hook source does not become a pipeline.
#[derive(Debug)]
pub enum CnnError {
    /// A hook could not be read or translated
    Hook(HookError),
    /// The ready-made shader of a depth-to-space stage could not be loaded
    Helper {
        /// The shader file that was asked for
        file: String,
        /// What the loader reported
        cause: std::io::Error,
    },
    /// The minifier refused a shader, with its report
    Minify(String),
    /// The manifest made from the hooks does not compile
    Compile(CompileError),
}

/// The views of a list of stages.
pub open spec fn stage_views(stages: Seq<WgslStageShader>) -> Seq<StageView> {
    Seq::new(stages.len(), |i: int| stages[i]@)
}

/// The stages of the first `n` hooks, with the scales of the textures that
/// they save. Each hook is read with the scales of the hooks before it and
/// translated with its own scale added.
pub open spec fn stages_from(hooks: Seq<Seq<char>>, n: int) -> Result<
    (Seq<StageView>, Map<Seq<char>, u32>),
    HookFault,
>
    decreases n,
{
    if n <= 0 {
        Ok((Seq::empty(), base_scales()))
    } else {
        match stages_from(hooks, n - 1) {
            Err(e) => Err(e),
            Ok((done, scales)) => match parsed_hook(hooks[n - 1], scales) {
                Err(e) => Err(e),
                Ok(hook) => match stage_of_hook(
                    hook,
                    scales.insert(hook.output, hook.scale_factor),
                ) {
                    Err(e) => Err(e),
                    Ok(stage) => Ok(
                        (done.push(stage), scales.insert(hook.output, hook.scale_factor)),
                    ),
                },
            },
        }
    }
}

/// The stages of a hook source.
pub open spec fn cnn_stages(source: Seq<char>) -> Result<Seq<StageView>, HookFault> {
    let hooks = hook_blocks(lines_of(source));
    match stages_from(hooks, hooks.len() as int) {
        Err(e) => Err(e),
        Ok((stages, _)) => Ok(stages),
    }
}

/// A failure on the first hooks is the failure of the whole.
pub proof fn lemma_stage_error_stays(hooks: Seq<Seq<char>>, m: int, n: int)
    requires
        0 <= m <= n,
        stages_from(hooks, m) is Err,
    ensures
        stages_from(hooks, n) == stages_from(hooks, m),
    decreases n - m,
{
    if m < n {
        lemma_stage_error_stays(hooks, m, n - 1);
    }
}

/// Whether a stage can be made a pass of a manifest: it has an input, and
/// its scale factor is written as a number.
pub open spec fn is_bindable(stage: StageView) -> bool {
    stage.inputs.len() > 0 && parsed_u32(stage.scale_factor) is Some
}

/// The stage of a hook that was read from a source is bindable.
pub proof fn lemma_parsed_stage_bindable(
    source: Seq<char>,
    before: Map<Seq<char>, u32>,
    scales: Map<Seq<char>, u32>,
)
    requires
        parsed_hook(source, before) is Ok,
        stage_of_hook(parsed_hook(source, before)->Ok_0, scales) is Ok,
    ensures
        is_bindable(stage_of_hook(parsed_hook(source, before)->Ok_0, scales)->Ok_0),
{
    let hook = parsed_hook(source, before)->Ok_0;
    let stage = stage_of_hook(hook, scales)->Ok_0;
    assert(hook.inputs.len() > 0);
    assert(stage.inputs.len() == hook.inputs.len());
    if hook.scale_factor > 1 {
        lemma_digits_parse(hook.scale_factor);
    } else {
        reveal_strlit("1");
        let one = "1"@;
        assert(one.len() == 1 && one[0] == '1');
        assert(one.drop_last() =~= Seq::<char>::empty());
        assert(crate::text::decimal_value(one) == 1) by {
            assert(crate::text::decimal_value(one.drop_last()) == 0);
            assert(crate::text::digit_value(one.last()) == 1);
        }
        assert(crate::text::unsigned_body(one) == one);
        assert(crate::text::all_digits(one));
    }
}

/// Reads every hook of a source and makes its stage.
pub fn stages_of_source(source: &str) -> (out: Result<Vec<WgslStageShader>, HookError>)
    ensures
        match out {
            Ok(stages) => cnn_stages(source@) == Ok::<Seq<StageView>, HookFault>(
                stage_views(stages@),
            ) && forall|i: int|
                0 <= i < stages@.len() ==> is_bindable(#[trigger] stage_views(stages@)[i]),
            Err(e) => cnn_stages(source@) == Err::<Seq<StageView>, HookFault>(e@),
        },
{
    let pass_sources = MpvHook::parse_mpv_hooks(source);
    let ghost hooks = views(pass_sources@);
    let mut scale_factor_map = MpvHook::new_scale_factor_map();
    let mut stages: Vec<WgslStageShader> = Vec::new();
    let mut i: usize = 0;
    proof {
        assert(stage_views(stages@) =~= Seq::<StageView>::empty());
    }
    while i < pass_sources.len()
        invariant
            i <= pass_sources.len(),
            hooks == views(pass_sources@),
            hooks == hook_blocks(lines_of(source@)),
            stages_from(hooks, i as int) == Ok::<(Seq<StageView>, Map<Seq<char>, u32>), HookFault>(
                (stage_views(stages@), scale_factor_map@),
            ),
            forall|j: int|
                0 <= j < stages@.len() ==> is_bindable(#[trigger] stage_views(stages@)[j]),
        decreases pass_sources.len() - i,
    {
        let ghost before = scale_factor_map@;
        assert(hooks[i as int] == pass_sources@[i as int]@);
        let hook = match MpvHook::new(pass_sources[i].as_str(), &mut scale_factor_map) {
            Ok(hook) => hook,
            Err(e) => {
                proof {
                    lemma_stage_error_stays(hooks, i + 1, hooks.len() as int);
                }
                return Err(e);
            },
        };
        let stage = match WgslStageShader::new(hook, &scale_factor_map) {
            Ok(stage) => stage,
            Err(e) => {
                proof {
                    lemma_stage_error_stays(hooks, i + 1, hooks.len() as int);
                }
                return Err(e);
            },
        };
        proof {
            lemma_parsed_stage_bindable(hooks[i as int], before, scale_factor_map@);
            let now = stage_views(stages@.push(stage));
            assert(now =~= stage_views(stages@).push(stage@));
            assert forall|j: int| 0 <= j < now.len() implies is_bindable(#[trigger] now[j]) by {
                if j < stages@.len() {
                    assert(now[j] == stage_views(stages@)[j]);
                }
            }
        }
        stages.push(stage);
        i += 1;
    }
    Ok(stages)
}

/// The shader file of a stage: `pass_<index>.wgsl` for a translated stage,
/// and for a depth-to-space stage the ready-made shader for its number of
/// inputs less one and its scale factor.
pub open spec fn stage_file(index: int, stage: StageView) -> Seq<char> {
    match stage.kind {
        StageKind::Conv { code } => "pass_"@ + decimal_digits(index as nat) + ".wgsl"@,
        StageKind::DepthToSpace { channel_count } => "depth_to_space_in"@ + decimal_digits(
            (stage.inputs.len() - 1) as nat,
        ) + "x"@ + stage.scale_factor + ".wgsl"@,
    }
}

/// The pass that a stage makes in the manifest: pass `index + 1`, with the
/// stage's bindings, one output of four components at the stage's scale,
/// and a linear sampler where the stage has one.
pub open spec fn cnn_pass(index: int, stage: StageView) -> PassView {
    let scale = ScaleFactor { numerator: parsed_u32(stage.scale_factor)->0, denominator: 1 };
    PassView {
        id: "Pass "@ + decimal_digits((index + 1) as nat),
        file: stage_file(index, stage),
        inputs: Seq::new(
            stage.inputs.len(),
            |k: int| BindingView { id: stage.inputs[k].1, binding: stage.inputs[k].0 },
        ),
        outputs: seq![
            OutputView {
                id: stage.output.1,
                binding: stage.output.0,
                components: 4,
                scale_factor: (scale, scale),
            },
        ],
        samplers: match stage.sampler {
            Some(binding) => seq![
                SamplerBinding { binding, filter_mode: SamplerFilterMode::Linear },
            ],
            None => Seq::empty(),
        },
    }
}

/// The manifest that a list of stages makes.
pub open spec fn cnn_manifest(stages: Seq<StageView>) -> SpecView {
    SpecView {
        id: "anime4k_cnn"@,
        name: "Anime4K CNN"@,
        description: None,
        passes: Seq::new(stages.len(), |i: int| cnn_pass(i, stages[i])),
    }
}

/// The shader file of a stage.
pub fn stage_file_name(index: usize, stage: &WgslStageShader) -> (out: String)
    requires
        stage@.inputs.len() > 0,
    ensures
        out@ == stage_file(index as int, stage@),
{
    match &stage.kind {
        WgslStageShaderType::Conv { code } => "pass_".to_owned().concat(
            decimal(index as u64).as_str(),
        ).concat(".wgsl"),
        WgslStageShaderType::DepthToSpace { channel_count } => "depth_to_space_in".to_owned().concat(
            decimal((stage.inputs.len() - 1) as u64).as_str(),
        ).concat("x").concat(stage.scale_factor.as_str()).concat(".wgsl"),
    }
}

/// The pass that a stage makes in the manifest.
pub fn stage_pass(index: usize, stage: &WgslStageShader) -> (out: Pass)
    requires
        index < usize::MAX,
        is_bindable(stage@),
    ensures
        out@ == cnn_pass(index as int, stage@),
{
    let mut inputs: Vec<TextureBindingSpec> = Vec::new();
    let mut k: usize = 0;
    while k < stage.inputs.len()
        invariant
            k <= stage.inputs.len(),
            inputs@.len() == k,
            forall|j: int|
                0 <= j < k ==> (#[trigger] inputs@[j])@ == (BindingView {
                    id: stage@.inputs[j].1,
                    binding: stage@.inputs[j].0,
                }),
        decreases stage.inputs.len() - k,
    {
        let input = &stage.inputs[k];
        assert(stage@.inputs[k as int] == (input.0, input.1@));
        inputs.push(TextureBindingSpec { id: input.1.clone(), binding: input.0 });
        k += 1;
    }
    let numerator: u32 = match parse_u32(stage.scale_factor.as_str()) {
        Some(n) => n,
        None => 1,
    };
    let scale = ScaleFactor { numerator, denominator: 1 };
    let mut outputs: Vec<TextureOutput> = Vec::new();
    outputs.push(
        TextureOutput {
            id: stage.output.1.clone(),
            binding: stage.output.0,
            components: 4,
            scale_factor: [scale, scale],
        },
    );
    let mut samplers: Vec<SamplerBinding> = Vec::new();
    match stage.sampler {
        Some(binding) => {
            samplers.push(SamplerBinding { binding, filter_mode: SamplerFilterMode::Linear });
        },
        None => {},
    }
    let pass = Pass {
        id: "Pass ".to_owned().concat(decimal((index + 1) as u64).as_str()),
        file: stage_file_name(index, stage),
        inputs,
        outputs,
        samplers,
    };
    proof {
        let wanted = cnn_pass(index as int, stage@);
        assert(pass@.inputs =~= wanted.inputs);
        assert(pass@.outputs =~= wanted.outputs);
        assert(pass@.samplers =~= wanted.samplers);
    }
    pass
}

/// Whether `shader` may be the shader text of stage `index`: for a
/// translated stage its code, for a depth-to-space stage a text that the
/// loader may answer with when asked for the stage's shader file. With the
/// minifier in between, nothing is said of the text.
pub open spec fn is_shader_of<F: Fn(&str) -> Result<String, std::io::Error>>(
    load: F,
    minify: bool,
    index: int,
    stage: StageView,
    shader: Seq<char>,
) -> bool {
    minify || match stage.kind {
        StageKind::Conv { code } => shader == code,
        StageKind::DepthToSpace { channel_count } => loaded_by(
            load,
            stage_file(index, stage),
            shader,
        ),
    }
}

/// Whether `shaders` holds a shader text for each of the first `n` stages.
pub open spec fn are_shaders_of<F: Fn(&str) -> Result<String, std::io::Error>>(
    load: F,
    minify: bool,
    stages: Seq<StageView>,
    shaders: Seq<Seq<char>>,
    n: int,
) -> bool {
    &&& shaders.len() == n
    &&& forall|i: int|
        0 <= i < n ==> is_shader_of(load, minify, i, #[trigger] stages[i], shaders[i])
}

/// Makes the executable pipeline of a hook source. Every hook becomes a
/// pass; the shader of a translated stage is its code, that of a
/// depth-to-space stage is asked of `load_helper` by file name. With
/// `minify`, every shader goes through the minifier.
pub fn cnn_glsl_to_executable_pipeline<F: Fn(&str) -> Result<String, std::io::Error>>(
    mpv_hook_source: &str,
    load_helper: F,
    minify: bool,
) -> (out: Result<ExecutablePipeline, CnnError>)
    requires
        forall|file: &str| load_helper.requires((file,)),
    ensures
        match out {
            Ok(pipeline) => cnn_stages(mpv_hook_source@) is Ok && exists|shaders: Seq<Seq<char>>|
                are_shaders_of(
                    load_helper,
                    minify,
                    cnn_stages(mpv_hook_source@)->Ok_0,
                    shaders,
                    cnn_stages(mpv_hook_source@)->Ok_0.len() as int,
                ) && #[trigger] compiled(
                    cnn_manifest(cnn_stages(mpv_hook_source@)->Ok_0),
                    shaders,
                ) == Ok::<CompiledPipeline, CompileFault>(pipeline@),
            Err(CnnError::Hook(e)) => cnn_stages(mpv_hook_source@) == Err::<
                Seq<StageView>,
                HookFault,
            >(e@),
            Err(CnnError::Helper { file, cause }) => cnn_stages(mpv_hook_source@) is Ok
                && exists|i: int|
                0 <= i < cnn_stages(mpv_hook_source@)->Ok_0.len() && (#[trigger] cnn_stages(
                    mpv_hook_source@,
                )->Ok_0[i]).kind is DepthToSpace && file@ == stage_file(
                    i,
                    cnn_stages(mpv_hook_source@)->Ok_0[i],
                ) && refused_by(load_helper, file@, cause),
            Err(CnnError::Minify(_)) => cnn_stages(mpv_hook_source@) is Ok && minify,
            Err(CnnError::Compile(e)) => cnn_stages(mpv_hook_source@) is Ok && exists|
                shaders: Seq<Seq<char>>,
            |
                are_shaders_of(
                    load_helper,
                    minify,
                    cnn_stages(mpv_hook_source@)->Ok_0,
                    shaders,
                    cnn_stages(mpv_hook_source@)->Ok_0.len() as int,
                ) && #[trigger] compiled(
                    cnn_manifest(cnn_stages(mpv_hook_source@)->Ok_0),
                    shaders,
                ) == Err::<CompiledPipeline, CompileFault>(e@),
        },
{
    let stages = match stages_of_source(mpv_hook_source) {
        Ok(stages) => stages,
        Err(e) => { return Err(CnnError::Hook(e)); },
    };
    let ghost all = stage_views(stages@);
    let mut passes: Vec<Pass> = Vec::new();
    let mut shaders: Vec<String> = Vec::new();
    let mut i: usize = 0;
    while i < stages.len()
        invariant
            i <= stages.len(),
            all == stage_views(stages@),
            cnn_stages(mpv_hook_source@) == Ok::<Seq<StageView>, HookFault>(all),
            forall|j: int| 0 <= j < stages@.len() ==> is_bindable(#[trigger] all[j]),
            forall|file: &str| load_helper.requires((file,)),
            passes@.len() == i,
            forall|j: int| 0 <= j < i ==> (#[trigger] passes@[j])@ == cnn_pass(j, all[j]),
            are_shaders_of(load_helper, minify, all, views(shaders@), i as int),
        decreases stages.len() - i,
    {
        let stage = &stages[i];
        assert(all[i as int] == stage@);
        assert(is_bindable(all[i as int]));
        let file = stage_file_name(i, stage);
        let name = file.as_str();
        let code = match &stage.kind {
            WgslStageShaderType::Conv { code } => code.clone(),
            WgslStageShaderType::DepthToSpace { channel_count } => match load_helper(name) {
                Ok(text) => {
                    proof {
                        assert(load_helper.ensures((name,), Ok::<String, std::io::Error>(text)));
                        assert(loaded_by(load_helper, stage_file(i as int, stage@), text@));
                    }
                    text
                },
                Err(cause) => {
                    proof {
                        assert(load_helper.ensures((name,), Err::<String, std::io::Error>(cause)));
                        assert(refused_by(load_helper, file@, cause));
                        assert(cnn_stages(mpv_hook_source@)->Ok_0[i as int] == all[i as int]);
                        assert(all[i as int].kind is DepthToSpace);
                    }
                    return Err(CnnError::Helper { file, cause });
                },
            },
        };
        let code = if minify {
            match minify_wgsl(code.as_str()) {
                Ok(minified) => minified,
                Err(report) => { return Err(CnnError::Minify(report)); },
            }
        } else {
            code
        };
        proof {
            let now = views(shaders@.push(code));
            assert(is_shader_of(load_helper, minify, i as int, all[i as int], code@));
            assert forall|j: int| 0 <= j < i + 1 implies is_shader_of(
                load_helper,
                minify,
                j,
                #[trigger] all[j],
                now[j],
            ) by {
                if j < i {
                    assert(now[j] == views(shaders@)[j]);
                }
            }
        }
        shaders.push(code);
        passes.push(stage_pass(i, stage));
        i += 1;
    }
    let spec = PipelineSpec {
        id: "anime4k_cnn".to_owned(),
        name: "Anime4K CNN".to_owned(),
        description: None,
        passes,
    };
    proof {
        assert(spec@.passes =~= cnn_manifest(all).passes);
        assert(spec@ == cnn_manifest(all));
    }
    let ghost texts = views(shaders@);
    match PipelineCompiler::new(spec).assemble(&shaders) {
        Ok(pipeline) => {
            proof {
                assert(compiled(cnn_manifest(all), texts) == Ok::<CompiledPipeline, CompileFault>(
                    pipeline@,
                ));
            }
            Ok(pipeline)
        },
        Err(e) => {
            proof {
                assert(compiled(cnn_manifest(all), texts) == Err::<CompiledPipeline, CompileFault>(
                    e@,
                ));
            }
            Err(CnnError::Compile(e))
        },
    }
}

} // verus!
