//! Compilation of a manifest into an executable pipeline.
//!
//! The lifetimes of the logical textures are read off the pass list, the
//! allocator packs them into physical textures, and every binding of every
//! pass is resolved to the physical texture behind it.

use super::physical_texture::{
    allocation, assign_physical_textures, identifiers_distinct, lemma_assigned_names,
    lifetime_views, lifetimes_ordered, LifetimeView, PhysicalTexture, TextureLifetime,
};
use super::pipeline_specs::{
    BindingView, OutputView, Pass, PassView, PipelineSpec, SamplerBinding, SamplerFilterMode,
    ScaleFactor, SpecView,
};
use super::validation::{
    first_index, is_incomplete, is_missing, is_overwrite, lacks_input, lemma_first_index,
    lemma_first_index_stays, output_ids, overwrites, produced, validation,
};
use crate::text::str_eq;
use vstd::hash_map::StringHashMap;
use vstd::prelude::*;

verus! {

/// `std::io::Error`, the loader's report of a failure. Nothing is known of
/// what is inside.
#[verifier::external_type_specification]
#[verifier::external_body]
pub struct ExIoError(std::io::Error);

/// Whether a pass reads the texture `id`.
pub open spec fn reads(pass: PassView, id: Seq<char>) -> bool {
    exists|k: int| 0 <= k < pass.inputs.len() && (#[trigger] pass.inputs[k]).id == id
}

/// The last pass after `created` and before `upto` that reads the texture
/// `id`, or `created` where no such pass reads it.
pub open spec fn last_use(passes: Seq<PassView>, id: Seq<char>, created: int, upto: int) -> int
    decreases upto - created,
{
    if upto <= created + 1 {
        created
    } else if reads(passes[upto - 1], id) {
        upto - 1
    } else {
        last_use(passes, id, created, upto - 1)
    }
}

/// The lifetime of output `k` of pass `i`: from pass `i` to the last pass
/// that reads it.
pub open spec fn lifetime_of(passes: Seq<PassView>, i: int, k: int) -> LifetimeView {
    LifetimeView {
        logical_id: passes[i].outputs[k].id,
        components: passes[i].outputs[k].components,
        scale_factor: passes[i].outputs[k].scale_factor,
        created_at: i as usize,
        last_used_at: last_use(passes, passes[i].outputs[k].id, i, passes.len() as int) as usize,
    }
}

/// The lifetimes of the first `k` outputs of pass `i`. An output named
/// `SOURCE` has none.
pub open spec fn pass_lifetimes(passes: Seq<PassView>, i: int, k: int) -> Seq<LifetimeView>
    decreases k,
{
    if k <= 0 {
        Seq::empty()
    } else if passes[i].outputs[k - 1].id == "SOURCE"@ {
        pass_lifetimes(passes, i, k - 1)
    } else {
        pass_lifetimes(passes, i, k - 1).push(lifetime_of(passes, i, k - 1))
    }
}

/// The lifetimes of the outputs of the passes before pass `i`, in pass order.
pub open spec fn lifetimes_before(passes: Seq<PassView>, i: int) -> Seq<LifetimeView>
    decreases i,
{
    if i <= 0 {
        Seq::empty()
    } else {
        lifetimes_before(passes, i - 1) + pass_lifetimes(
            passes,
            i - 1,
            passes[i - 1].outputs.len() as int,
        )
    }
}

/// The lifetimes of all logical textures of a manifest, in the order in
/// which they are created.
pub open spec fn texture_lifetimes(spec: SpecView) -> Seq<LifetimeView> {
    lifetimes_before(spec.passes, spec.passes.len() as int)
}

/// The last use of a texture lies between its creation and the bound.
pub proof fn lemma_last_use_bounds(passes: Seq<PassView>, id: Seq<char>, created: int, upto: int)
    requires
        0 <= created < upto <= passes.len(),
    ensures
        created <= last_use(passes, id, created, upto) < upto,
    decreases upto - created,
{
    if upto > created + 1 && !reads(passes[upto - 1], id) {
        lemma_last_use_bounds(passes, id, created, upto - 1);
    }
}

/// Every lifetime of pass `i` begins at `i` and ends no earlier.
pub proof fn lemma_pass_lifetimes(passes: Seq<PassView>, i: int, k: int)
    requires
        0 <= i < passes.len() <= usize::MAX,
        0 <= k <= passes[i].outputs.len(),
    ensures
        forall|j: int|
            0 <= j < pass_lifetimes(passes, i, k).len() ==> (#[trigger] pass_lifetimes(
                passes,
                i,
                k,
            )[j]).created_at == i && i <= pass_lifetimes(passes, i, k)[j].last_used_at,
    decreases k,
{
    if k > 0 {
        lemma_pass_lifetimes(passes, i, k - 1);
        lemma_last_use_bounds(passes, passes[i].outputs[k - 1].id, i, passes.len() as int);
        let fewer = pass_lifetimes(passes, i, k - 1);
        let all = pass_lifetimes(passes, i, k);
        assert forall|j: int| 0 <= j < all.len() implies (#[trigger] all[j]).created_at == i && i
            <= all[j].last_used_at by {
            if j < fewer.len() {
                assert(all[j] == fewer[j]);
            } else {
                assert(all[j] == lifetime_of(passes, i, k - 1));
            }
        }
    }
}

/// The lifetimes of a manifest come in the order of their creation, and
/// each ends no earlier than it begins.
pub proof fn lemma_lifetimes_in_order(passes: Seq<PassView>, i: int)
    requires
        0 <= i <= passes.len() <= usize::MAX,
    ensures
        lifetimes_ordered(lifetimes_before(passes, i)),
        forall|j: int|
            0 <= j < lifetimes_before(passes, i).len() ==> (#[trigger] lifetimes_before(
                passes,
                i,
            )[j]).created_at < i,
        forall|a: int, b: int|
            0 <= a <= b < lifetimes_before(passes, i).len() ==> lifetimes_before(
                passes,
                i,
            )[a].created_at <= lifetimes_before(passes, i)[b].created_at,
    decreases i,
{
    if i > 0 {
        lemma_lifetimes_in_order(passes, i - 1);
        lemma_pass_lifetimes(passes, i - 1, passes[i - 1].outputs.len() as int);
        let head = lifetimes_before(passes, i - 1);
        let tail = pass_lifetimes(passes, i - 1, passes[i - 1].outputs.len() as int);
        let all = lifetimes_before(passes, i);
        assert forall|j: int| 0 <= j < all.len() implies (#[trigger] all[j]).created_at < i
            && all[j].created_at <= all[j].last_used_at && (j < head.len() ==> all[j] == head[j])
            && (j >= head.len() ==> all[j] == tail[j - head.len()]) by {
            if j < head.len() {
                assert(all[j] == head[j]);
            } else {
                assert(all[j] == tail[j - head.len()]);
            }
        }
        assert forall|a: int, b: int| 0 <= a <= b < all.len() implies all[a].created_at
            <= all[b].created_at by {
            assert(all[a].created_at < i);
            assert(all[b].created_at < i);
            if b < head.len() {
                assert(all[a] == head[a]);
                assert(all[b] == head[b]);
            } else if a >= head.len() {
                assert(all[a] == tail[a - head.len()]);
                assert(all[b] == tail[b - head.len()]);
            } else {
                assert(all[a] == head[a]);
                assert(all[b] == tail[b - head.len()]);
            }
        }
    }
}

/// Binding of a physical texture in an executable pass
#[derive(Debug)]
pub struct PhysicalTextureBinding {
    /// Logical texture identifier, as written in the manifest
    pub logical_id: String,
    /// Assigned physical texture ID
    pub physical_id: u32,
    /// Shader binding point
    pub binding: u32,
    /// Number of color components
    pub components: u32,
    /// Scale factors relative to input
    pub scale_factor: (ScaleFactor, ScaleFactor),
}

/// A single shader pass within an executable pipeline
#[derive(Debug)]
pub struct ExecutablePass {
    /// Identifier of this pass
    pub id: String,
    /// Shader source code
    pub shader: String,
    /// Scale factors (width, height) of the compute dispatch: those of the first output
    pub compute_scale_factors: (ScaleFactor, ScaleFactor),
    /// Input texture bindings
    pub input_textures: Vec<PhysicalTextureBinding>,
    /// Output texture bindings
    pub output_textures: Vec<PhysicalTextureBinding>,
    /// Sampler bindings
    pub samplers: Vec<SamplerBinding>,
}

/// A compiled pipeline
#[derive(Debug)]
pub struct ExecutablePipeline {
    /// Identifier of this pipeline
    pub id: String,
    /// Human-readable name
    pub name: String,
    /// Optional description
    pub description: Option<String>,
    /// Physical textures, the source texture first
    pub physical_textures: Vec<PhysicalTexture>,
    /// Passes with resolved bindings
    pub passes: Vec<ExecutablePass>,
    /// The filter modes that some sampler of the pipeline has, each once, in order of first use
    pub required_samplers: Vec<SamplerFilterMode>,
}

/// Why a manifest does not compile.
#[derive(Debug)]
pub enum CompileError {
    /// More logical textures than physical texture identifiers
    TooManyTextures,
    /// A binding names a texture that no pass creates (pass index, texture ID)
    UnknownTexture(usize, String),
    /// A pass has no output (pass index)
    PassMissingOutputs(usize),
    /// The shader of a pass could not be loaded
    ShaderLoad {
        /// Index of the pass
        pass_index: usize,
        /// Identifier of the pass
        pass_id: String,
        /// The shader file that was asked for
        file: String,
        /// What the loader reported
        cause: std::io::Error,
    },
}

/// A `PhysicalTextureBinding` with its identifier as a character sequence.
pub ghost struct ResolvedBinding {
    pub logical_id: Seq<char>,
    pub physical_id: u32,
    pub binding: u32,
    pub components: u32,
    pub scale_factor: (ScaleFactor, ScaleFactor),
}

impl View for PhysicalTextureBinding {
    type V = ResolvedBinding;

    open spec fn view(&self) -> ResolvedBinding {
        ResolvedBinding {
            logical_id: self.logical_id@,
            physical_id: self.physical_id,
            binding: self.binding,
            components: self.components,
            scale_factor: self.scale_factor,
        }
    }
}

impl Clone for PhysicalTextureBinding {
    fn clone(&self) -> (out: Self)
        ensures
            out@ == self@,
    {
        PhysicalTextureBinding {
            logical_id: self.logical_id.clone(),
            physical_id: self.physical_id,
            binding: self.binding,
            components: self.components,
            scale_factor: self.scale_factor,
        }
    }
}

/// The views of a list of bindings.
pub open spec fn binding_views(bindings: Seq<PhysicalTextureBinding>) -> Seq<ResolvedBinding> {
    Seq::new(bindings.len(), |i: int| bindings[i]@)
}

/// An `ExecutablePass` with its texts as character sequences.
pub ghost struct CompiledPass {
    pub id: Seq<char>,
    pub shader: Seq<char>,
    pub compute_scale_factors: (ScaleFactor, ScaleFactor),
    pub input_textures: Seq<ResolvedBinding>,
    pub output_textures: Seq<ResolvedBinding>,
    pub samplers: Seq<SamplerBinding>,
}

impl View for ExecutablePass {
    type V = CompiledPass;

    open spec fn view(&self) -> CompiledPass {
        CompiledPass {
            id: self.id@,
            shader: self.shader@,
            compute_scale_factors: self.compute_scale_factors,
            input_textures: binding_views(self.input_textures@),
            output_textures: binding_views(self.output_textures@),
            samplers: self.samplers@,
        }
    }
}

/// The views of a list of passes.
pub open spec fn pass_views(passes: Seq<ExecutablePass>) -> Seq<CompiledPass> {
    Seq::new(passes.len(), |i: int| passes[i]@)
}

/// A copy of a list of bindings.
fn clone_bindings(bindings: &Vec<PhysicalTextureBinding>) -> (out: Vec<PhysicalTextureBinding>)
    ensures
        binding_views(out@) == binding_views(bindings@),
{
    let mut out: Vec<PhysicalTextureBinding> = Vec::new();
    let mut i: usize = 0;
    while i < bindings.len()
        invariant
            i <= bindings.len(),
            out@.len() == i,
            forall|j: int| 0 <= j < i ==> (#[trigger] out@[j])@ == bindings@[j]@,
        decreases bindings.len() - i,
    {
        out.push(bindings[i].clone());
        i += 1;
    }
    proof {
        assert(binding_views(out@) =~= binding_views(bindings@));
    }
    out
}

impl Clone for ExecutablePass {
    fn clone(&self) -> (out: Self)
        ensures
            out@ == self@,
    {
        let mut samplers: Vec<SamplerBinding> = Vec::new();
        let mut i: usize = 0;
        while i < self.samplers.len()
            invariant
                i <= self.samplers.len(),
                samplers@ == self.samplers@.take(i as int),
            decreases self.samplers.len() - i,
        {
            samplers.push(self.samplers[i]);
            proof {
                assert(samplers@ =~= self.samplers@.take(i + 1));
            }
            i += 1;
        }
        proof {
            assert(self.samplers@.take(self.samplers@.len() as int) =~= self.samplers@);
        }
        ExecutablePass {
            id: self.id.clone(),
            shader: self.shader.clone(),
            compute_scale_factors: self.compute_scale_factors,
            input_textures: clone_bindings(&self.input_textures),
            output_textures: clone_bindings(&self.output_textures),
            samplers,
        }
    }
}

impl Clone for ExecutablePipeline {
    fn clone(&self) -> (out: Self)
        ensures
            out@ == self@,
    {
        let mut physical_textures: Vec<PhysicalTexture> = Vec::new();
        let mut i: usize = 0;
        while i < self.physical_textures.len()
            invariant
                i <= self.physical_textures.len(),
                physical_textures@ == self.physical_textures@.take(i as int),
            decreases self.physical_textures.len() - i,
        {
            physical_textures.push(self.physical_textures[i]);
            proof {
                assert(physical_textures@ =~= self.physical_textures@.take(i + 1));
            }
            i += 1;
        }
        let mut passes: Vec<ExecutablePass> = Vec::new();
        i = 0;
        while i < self.passes.len()
            invariant
                i <= self.passes.len(),
                passes@.len() == i,
                forall|j: int| 0 <= j < i ==> (#[trigger] passes@[j])@ == self.passes@[j]@,
            decreases self.passes.len() - i,
        {
            passes.push(self.passes[i].clone());
            i += 1;
        }
        let mut required_samplers: Vec<SamplerFilterMode> = Vec::new();
        i = 0;
        while i < self.required_samplers.len()
            invariant
                i <= self.required_samplers.len(),
                required_samplers@ == self.required_samplers@.take(i as int),
            decreases self.required_samplers.len() - i,
        {
            required_samplers.push(self.required_samplers[i]);
            proof {
                assert(required_samplers@ =~= self.required_samplers@.take(i + 1));
            }
            i += 1;
        }
        proof {
            assert(self.physical_textures@.take(self.physical_textures@.len() as int)
                =~= self.physical_textures@);
            assert(self.required_samplers@.take(self.required_samplers@.len() as int)
                =~= self.required_samplers@);
            assert(pass_views(passes@) =~= pass_views(self.passes@));
        }
        ExecutablePipeline {
            id: self.id.clone(),
            name: self.name.clone(),
            description: match &self.description {
                Some(text) => Some(text.clone()),
                None => None,
            },
            physical_textures,
            passes,
            required_samplers,
        }
    }
}

/// An `ExecutablePipeline` with its texts as character sequences.
pub ghost struct CompiledPipeline {
    pub id: Seq<char>,
    pub name: Seq<char>,
    pub description: Option<Seq<char>>,
    pub physical_textures: Seq<PhysicalTexture>,
    pub passes: Seq<CompiledPass>,
    pub required_samplers: Seq<SamplerFilterMode>,
}

impl View for ExecutablePipeline {
    type V = CompiledPipeline;

    open spec fn view(&self) -> CompiledPipeline {
        CompiledPipeline {
            id: self.id@,
            name: self.name@,
            description: match self.description {
                Some(text) => Some(text@),
                None => None,
            },
            physical_textures: self.physical_textures@,
            passes: pass_views(self.passes@),
            required_samplers: self.required_samplers@,
        }
    }
}

/// A `CompileError` with its texts as character sequences and without the
/// loader's report.
pub ghost enum CompileFault {
    TooManyTextures,
    UnknownTexture(usize, Seq<char>),
    PassMissingOutputs(usize),
    ShaderLoad { pass_index: usize, pass_id: Seq<char>, file: Seq<char> },
}

impl View for CompileError {
    type V = CompileFault;

    open spec fn view(&self) -> CompileFault {
        match *self {
            CompileError::TooManyTextures => CompileFault::TooManyTextures,
            CompileError::UnknownTexture(i, id) => CompileFault::UnknownTexture(i, id@),
            CompileError::PassMissingOutputs(i) => CompileFault::PassMissingOutputs(i),
            CompileError::ShaderLoad { pass_index, pass_id, file, cause } => CompileFault::ShaderLoad {
                pass_index,
                pass_id: pass_id@,
                file: file@,
            },
        }
    }
}

/// The scale factor 1/1.
pub open spec fn unity() -> ScaleFactor {
    ScaleFactor { numerator: 1, denominator: 1 }
}

/// Component count and scale factors of the first output named `id` among
/// the outputs from `from` on.
pub open spec fn info_among(outputs: Seq<OutputView>, id: Seq<char>, from: int) -> Option<
    (u32, (ScaleFactor, ScaleFactor)),
>
    decreases outputs.len() - from,
{
    if from < 0 || from >= outputs.len() {
        None
    } else if outputs[from].id == id {
        Some((outputs[from].components, outputs[from].scale_factor))
    } else {
        info_among(outputs, id, from + 1)
    }
}

/// Component count and scale factors of the first output named `id` in the
/// passes from `from` on.
pub open spec fn info_from(passes: Seq<PassView>, id: Seq<char>, from: int) -> Option<
    (u32, (ScaleFactor, ScaleFactor)),
>
    decreases passes.len() - from,
{
    if from < 0 || from >= passes.len() {
        None
    } else if info_among(passes[from].outputs, id, 0) is Some {
        info_among(passes[from].outputs, id, 0)
    } else {
        info_from(passes, id, from + 1)
    }
}

/// Component count and scale factors of a logical texture: four components
/// at 1/1 for `SOURCE`, else those of the first output of that name, else
/// four components at 1/1.
pub open spec fn texture_info(passes: Seq<PassView>, id: Seq<char>) -> (
    u32,
    (ScaleFactor, ScaleFactor),
) {
    if id == "SOURCE"@ {
        (4, (unity(), unity()))
    } else {
        match info_from(passes, id, 0) {
            Some(info) => info,
            None => (4, (unity(), unity())),
        }
    }
}

/// An input binding resolved to its physical texture.
pub open spec fn resolved_input(
    passes: Seq<PassView>,
    assignments: Map<Seq<char>, u32>,
    input: BindingView,
) -> ResolvedBinding {
    ResolvedBinding {
        logical_id: input.id,
        physical_id: assignments[input.id],
        binding: input.binding,
        components: texture_info(passes, input.id).0,
        scale_factor: texture_info(passes, input.id).1,
    }
}

/// An output binding resolved to its physical texture.
pub open spec fn resolved_output(assignments: Map<Seq<char>, u32>, output: OutputView) -> ResolvedBinding {
    ResolvedBinding {
        logical_id: output.id,
        physical_id: assignments[output.id],
        binding: output.binding,
        components: output.components,
        scale_factor: output.scale_factor,
    }
}

/// Whether input `k` of a pass has no physical texture.
pub open spec fn input_unknown(pass: PassView, assignments: Map<Seq<char>, u32>) -> spec_fn(
    int,
) -> bool {
    |k: int| !assignments.contains_key(pass.inputs[k].id)
}

/// Whether output `k` of a pass has no physical texture.
pub open spec fn output_unknown(pass: PassView, assignments: Map<Seq<char>, u32>) -> spec_fn(
    int,
) -> bool {
    |k: int| !assignments.contains_key(pass.outputs[k].id)
}

/// Pass `i` with its bindings resolved and the shader text `shader`: its
/// inputs and outputs in order, each with its physical texture, and the
/// scale factors of its first output for the dispatch. It fails on the
/// first input, else the first output, that has no physical texture, and
/// on a pass without outputs.
pub open spec fn compiled_pass(
    passes: Seq<PassView>,
    assignments: Map<Seq<char>, u32>,
    i: int,
    shader: Seq<char>,
) -> Result<CompiledPass, CompileFault> {
    let pass = passes[i];
    let first_input = first_index(pass.inputs.len() as int, input_unknown(pass, assignments));
    let first_output = first_index(pass.outputs.len() as int, output_unknown(pass, assignments));
    if first_input < pass.inputs.len() {
        Err(CompileFault::UnknownTexture(i as usize, pass.inputs[first_input].id))
    } else if first_output < pass.outputs.len() {
        Err(CompileFault::UnknownTexture(i as usize, pass.outputs[first_output].id))
    } else if pass.outputs.len() == 0 {
        Err(CompileFault::PassMissingOutputs(i as usize))
    } else {
        Ok(
            CompiledPass {
                id: pass.id,
                shader,
                compute_scale_factors: pass.outputs[0].scale_factor,
                input_textures: Seq::new(
                    pass.inputs.len(),
                    |k: int| resolved_input(passes, assignments, pass.inputs[k]),
                ),
                output_textures: Seq::new(
                    pass.outputs.len(),
                    |k: int| resolved_output(assignments, pass.outputs[k]),
                ),
                samplers: pass.samplers,
            },
        )
    }
}

/// The first `n` passes compiled, or the failure of the first pass that
/// does not compile.
pub open spec fn compiled_passes(
    passes: Seq<PassView>,
    assignments: Map<Seq<char>, u32>,
    shaders: Seq<Seq<char>>,
    n: int,
) -> Result<Seq<CompiledPass>, CompileFault>
    decreases n,
{
    if n <= 0 {
        Ok(Seq::empty())
    } else {
        match compiled_passes(passes, assignments, shaders, n - 1) {
            Err(e) => Err(e),
            Ok(done) => match compiled_pass(passes, assignments, n - 1, shaders[n - 1]) {
                Err(e) => Err(e),
                Ok(pass) => Ok(done.push(pass)),
            },
        }
    }
}

/// `modes` with `mode` at its end, unless it is there already.
pub open spec fn with_mode(modes: Seq<SamplerFilterMode>, mode: SamplerFilterMode) -> Seq<
    SamplerFilterMode,
> {
    if modes.contains(mode) {
        modes
    } else {
        modes.push(mode)
    }
}

/// `modes` with the filter modes of the first `k` samplers.
pub open spec fn with_sampler_modes(
    modes: Seq<SamplerFilterMode>,
    samplers: Seq<SamplerBinding>,
    k: int,
) -> Seq<SamplerFilterMode>
    decreases k,
{
    if k <= 0 {
        modes
    } else {
        with_mode(with_sampler_modes(modes, samplers, k - 1), samplers[k - 1].filter_mode)
    }
}

/// The filter modes of the samplers of the passes before pass `i`, each
/// once, in order of first use.
pub open spec fn modes_before(passes: Seq<PassView>, i: int) -> Seq<SamplerFilterMode>
    decreases i,
{
    if i <= 0 {
        Seq::empty()
    } else {
        with_sampler_modes(
            modes_before(passes, i - 1),
            passes[i - 1].samplers,
            passes[i - 1].samplers.len() as int,
        )
    }
}

/// The filter modes that a manifest needs.
pub open spec fn required_modes(spec: SpecView) -> Seq<SamplerFilterMode> {
    modes_before(spec.passes, spec.passes.len() as int)
}

/// The compiled pipeline of a manifest, given the shader text of every
/// pass: the physical textures that the allocator makes for the manifest's
/// lifetimes, every pass with its bindings resolved through the
/// allocator's assignments, and the filter modes that the manifest needs.
pub open spec fn compiled(spec: SpecView, shaders: Seq<Seq<char>>) -> Result<
    CompiledPipeline,
    CompileFault,
> {
    if texture_lifetimes(spec).len() > u32::MAX {
        Err(CompileFault::TooManyTextures)
    } else {
        match compiled_passes(
            spec.passes,
            allocation(texture_lifetimes(spec)).assignments,
            shaders,
            spec.passes.len() as int,
        ) {
            Err(e) => Err(e),
            Ok(passes) => Ok(
                CompiledPipeline {
                    id: spec.id,
                    name: spec.name,
                    description: spec.description,
                    physical_textures: allocation(texture_lifetimes(spec)).textures,
                    passes,
                    required_samplers: required_modes(spec),
                },
            ),
        }
    }
}

/// A failure to compile the first passes is the failure of the whole.
pub proof fn lemma_compile_error_stays(
    passes: Seq<PassView>,
    assignments: Map<Seq<char>, u32>,
    shaders: Seq<Seq<char>>,
    m: int,
    n: int,
)
    requires
        0 <= m <= n,
        compiled_passes(passes, assignments, shaders, m) is Err,
    ensures
        compiled_passes(passes, assignments, shaders, n) == compiled_passes(
            passes,
            assignments,
            shaders,
            m,
        ),
    decreases n - m,
{
    if m < n {
        lemma_compile_error_stays(passes, assignments, shaders, m, n - 1);
    }
}

/// Whether no pass before pass `n` has an output that there is already.
pub open spec fn writes_once(passes: Seq<PassView>, n: int) -> bool {
    forall|i: int, k: int|
        0 <= i < n && 0 <= k < passes[i].outputs.len() ==> !(#[trigger] is_overwrite(passes, i)(k))
}

/// The lifetimes of the first `k` outputs of pass `i` are named after
/// outputs among those `k`, and none after `SOURCE`.
pub proof fn lemma_pass_lifetime_names(passes: Seq<PassView>, i: int, k: int)
    requires
        0 <= i < passes.len(),
        0 <= k <= passes[i].outputs.len(),
    ensures
        forall|j: int|
            0 <= j < pass_lifetimes(passes, i, k).len() ==> (#[trigger] pass_lifetimes(
                passes,
                i,
                k,
            )[j]).logical_id != "SOURCE"@ && output_ids(passes[i]).take(k).contains(
                pass_lifetimes(passes, i, k)[j].logical_id,
            ),
    decreases k,
{
    if k > 0 {
        lemma_pass_lifetime_names(passes, i, k - 1);
        let ids = output_ids(passes[i]);
        let fewer = pass_lifetimes(passes, i, k - 1);
        let all = pass_lifetimes(passes, i, k);
        assert forall|j: int| 0 <= j < all.len() implies (#[trigger] all[j]).logical_id
            != "SOURCE"@ && ids.take(k).contains(all[j].logical_id) by {
            if j < fewer.len() {
                assert(all[j] == fewer[j]);
                let part = ids.take(k - 1);
                let name = fewer[j].logical_id;
                let w = choose|w: int| 0 <= w < part.len() && part[w] == name;
                assert(ids.take(k)[w] == name);
            } else {
                assert(all[j] == lifetime_of(passes, i, k - 1));
                assert(ids.take(k)[k - 1] == all[j].logical_id);
            }
        }
    }
}

/// Where no output of pass `i` is written twice, the lifetimes of its
/// outputs have names of their own.
pub proof fn lemma_pass_lifetimes_distinct(passes: Seq<PassView>, i: int, k: int)
    requires
        0 <= i < passes.len(),
        0 <= k <= passes[i].outputs.len(),
        writes_once(passes, i + 1),
    ensures
        forall|a: int, b: int|
            0 <= a < b < pass_lifetimes(passes, i, k).len() ==> pass_lifetimes(
                passes,
                i,
                k,
            )[a].logical_id != pass_lifetimes(passes, i, k)[b].logical_id,
    decreases k,
{
    if k > 0 {
        lemma_pass_lifetimes_distinct(passes, i, k - 1);
        lemma_pass_lifetime_names(passes, i, k - 1);
        let ids = output_ids(passes[i]);
        let fewer = pass_lifetimes(passes, i, k - 1);
        let all = pass_lifetimes(passes, i, k);
        assert(!is_overwrite(passes, i)(k - 1));
        assert forall|a: int, b: int| 0 <= a < b < all.len() implies all[a].logical_id
            != all[b].logical_id by {
            if b < fewer.len() {
                assert(all[a] == fewer[a]);
                assert(all[b] == fewer[b]);
            } else {
                assert(all[a] == fewer[a]);
                assert(all[b].logical_id == ids[k - 1]);
                assert(ids.take(k - 1).contains(fewer[a].logical_id));
            }
        }
    }
}

/// The lifetimes of the passes before pass `i` are named after textures
/// that there are before pass `i`, and none after `SOURCE`.
pub proof fn lemma_lifetime_names_produced(passes: Seq<PassView>, i: int)
    requires
        0 <= i <= passes.len(),
    ensures
        forall|j: int|
            0 <= j < lifetimes_before(passes, i).len() ==> (#[trigger] lifetimes_before(
                passes,
                i,
            )[j]).logical_id != "SOURCE"@ && produced(passes, i).contains(
                lifetimes_before(passes, i)[j].logical_id,
            ),
    decreases i,
{
    if i > 0 {
        lemma_lifetime_names_produced(passes, i - 1);
        let ids = output_ids(passes[i - 1]);
        let n = passes[i - 1].outputs.len() as int;
        lemma_pass_lifetime_names(passes, i - 1, n);
        assert(ids.take(n) =~= ids);
        let head = lifetimes_before(passes, i - 1);
        let tail = pass_lifetimes(passes, i - 1, n);
        let all = lifetimes_before(passes, i);
        assert forall|j: int| 0 <= j < all.len() implies (#[trigger] all[j]).logical_id
            != "SOURCE"@ && produced(passes, i).contains(all[j].logical_id) by {
            if j < head.len() {
                assert(all[j] == head[j]);
            } else {
                assert(all[j] == tail[j - head.len()]);
                assert(ids.contains(tail[j - head.len()].logical_id));
            }
        }
    }
}

/// Where no texture is written twice, every lifetime has a name of its own.
pub proof fn lemma_lifetimes_distinct(passes: Seq<PassView>, i: int)
    requires
        0 <= i <= passes.len(),
        writes_once(passes, i),
    ensures
        identifiers_distinct(lifetimes_before(passes, i)),
    decreases i,
{
    lemma_lifetime_names_produced(passes, i);
    if i > 0 {
        lemma_lifetimes_distinct(passes, i - 1);
        lemma_lifetime_names_produced(passes, i - 1);
        let ids = output_ids(passes[i - 1]);
        let n = passes[i - 1].outputs.len() as int;
        lemma_pass_lifetime_names(passes, i - 1, n);
        lemma_pass_lifetimes_distinct(passes, i - 1, n);
        let head = lifetimes_before(passes, i - 1);
        let tail = pass_lifetimes(passes, i - 1, n);
        let all = lifetimes_before(passes, i);
        assert forall|a: int, b: int| 0 <= a < b < all.len() implies (
        #[trigger] all[a]).logical_id != (#[trigger] all[b]).logical_id by {
            if b < head.len() {
                assert(all[a] == head[a]);
                assert(all[b] == head[b]);
            } else if a >= head.len() {
                assert(all[a] == tail[a - head.len()]);
                assert(all[b] == tail[b - head.len()]);
            } else {
                assert(all[a] == head[a]);
                assert(all[b] == tail[b - head.len()]);
                let name = tail[b - head.len()].logical_id;
                assert(ids.take(n).contains(name));
                let part = ids.take(n);
                let w = choose|w: int| 0 <= w < part.len() && part[w] == name;
                assert(ids[w] == name);
                assert(!is_overwrite(passes, i - 1)(w));
                assert(produced(passes, i - 1).contains(head[a].logical_id));
            }
        }
    }
}

/// The lifetimes of a valid manifest are what the allocator's guarantees
/// ask for: each ends no earlier than it begins, and each has a name of
/// its own, none of them `SOURCE`.
pub proof fn lemma_valid_manifest_lifetimes(spec: SpecView)
    requires
        spec.passes.len() <= usize::MAX,
        validation(spec) is Ok,
    ensures
        lifetimes_ordered(texture_lifetimes(spec)),
        identifiers_distinct(texture_lifetimes(spec)),
{
    let passes = spec.passes;
    let n = passes.len() as int;
    lemma_lifetimes_in_order(passes, n);
    lemma_first_index(n, overwrites(passes));
    assert forall|i: int, k: int| 0 <= i < n && 0 <= k < passes[i].outputs.len() implies !(
    #[trigger] is_overwrite(passes, i)(k)) by {
        assert(!overwrites(passes)(i));
        lemma_first_index(passes[i].outputs.len() as int, is_overwrite(passes, i));
    }
    lemma_lifetimes_distinct(passes, n);
}

/// Every output among the first `k` of pass `i` that is not named
/// `SOURCE` has a lifetime.
pub proof fn lemma_outputs_have_lifetimes(passes: Seq<PassView>, i: int, k: int, j: int)
    requires
        0 <= i < passes.len(),
        0 <= j < k <= passes[i].outputs.len(),
        passes[i].outputs[j].id != "SOURCE"@,
    ensures
        exists|at: int|
            0 <= at < pass_lifetimes(passes, i, k).len() && (#[trigger] pass_lifetimes(
                passes,
                i,
                k,
            )[at]).logical_id == passes[i].outputs[j].id,
    decreases k,
{
    let all = pass_lifetimes(passes, i, k);
    let fewer = pass_lifetimes(passes, i, k - 1);
    if j == k - 1 {
        assert(all[all.len() - 1].logical_id == passes[i].outputs[j].id);
    } else {
        lemma_outputs_have_lifetimes(passes, i, k - 1, j);
        let at = choose|at: int|
            0 <= at < fewer.len() && (#[trigger] fewer[at]).logical_id == passes[i].outputs[j].id;
        assert(all[at] == fewer[at]);
    }
}

/// Every texture that there is before pass `i` is `SOURCE` or has a
/// lifetime among those of the passes before pass `i`.
pub proof fn lemma_produced_have_lifetimes(passes: Seq<PassView>, i: int, name: Seq<char>)
    requires
        0 <= i <= passes.len(),
        produced(passes, i).contains(name),
    ensures
        name == "SOURCE"@ || exists|at: int|
            0 <= at < lifetimes_before(passes, i).len() && (#[trigger] lifetimes_before(
                passes,
                i,
            )[at]).logical_id == name,
    decreases i,
{
    if i > 0 && name != "SOURCE"@ {
        let head = lifetimes_before(passes, i - 1);
        let n = passes[i - 1].outputs.len() as int;
        let tail = pass_lifetimes(passes, i - 1, n);
        let all = lifetimes_before(passes, i);
        if produced(passes, i - 1).contains(name) {
            lemma_produced_have_lifetimes(passes, i - 1, name);
            let at = choose|at: int| 0 <= at < head.len() && (#[trigger] head[at]).logical_id == name;
            assert(all[at] == head[at]);
        } else {
            let ids = output_ids(passes[i - 1]);
            assert(ids.contains(name));
            let j = choose|j: int| 0 <= j < ids.len() && ids[j] == name;
            lemma_outputs_have_lifetimes(passes, i - 1, n, j);
            let at = choose|at: int| 0 <= at < tail.len() && (#[trigger] tail[at]).logical_id == name;
            assert(all[head.len() + at] == tail[at]);
        }
    }
}

/// The textures that there are grow from pass to pass.
pub proof fn lemma_produced_grows(passes: Seq<PassView>, i: int, n: int, name: Seq<char>)
    requires
        0 <= i <= n,
        produced(passes, i).contains(name),
    ensures
        produced(passes, n).contains(name),
    decreases n - i,
{
    if i < n {
        lemma_produced_grows(passes, i, n - 1, name);
    }
}

/// Where every pass up to `m` compiles, so do they all together.
pub proof fn lemma_passes_compile(
    passes: Seq<PassView>,
    assignments: Map<Seq<char>, u32>,
    shaders: Seq<Seq<char>>,
    m: int,
)
    requires
        forall|i: int| 0 <= i < m ==> compiled_pass(passes, assignments, i, shaders[i]) is Ok,
    ensures
        compiled_passes(passes, assignments, shaders, m) is Ok,
    decreases m,
{
    if m > 0 {
        lemma_passes_compile(passes, assignments, shaders, m - 1);
    }
}

/// A valid manifest compiles, whatever the shader texts, unless it has
/// more textures than there are identifiers.
pub proof fn lemma_valid_manifest_compiles(spec: SpecView, shaders: Seq<Seq<char>>)
    requires
        validation(spec) is Ok,
        texture_lifetimes(spec).len() <= u32::MAX,
    ensures
        compiled(spec, shaders) is Ok,
{
    let passes = spec.passes;
    let n = passes.len() as int;
    let lifetimes = texture_lifetimes(spec);
    let assignments = allocation(lifetimes).assignments;
    lemma_first_index(n, is_incomplete(passes));
    lemma_first_index(n, lacks_input(passes));
    assert forall|name: Seq<char>| produced(passes, n).contains(name) implies assignments.contains_key(
        name,
    ) by {
        lemma_produced_have_lifetimes(passes, n, name);
        lemma_assigned_names(lifetimes, name);
    }
    assert forall|i: int| 0 <= i < n implies compiled_pass(passes, assignments, i, shaders[i])
        is Ok by {
        let pass = passes[i];
        assert(!is_incomplete(passes)(i));
        assert(!lacks_input(passes)(i));
        lemma_first_index(pass.inputs.len() as int, is_missing(passes, i));
        lemma_first_index(pass.inputs.len() as int, input_unknown(pass, assignments));
        lemma_first_index(pass.outputs.len() as int, output_unknown(pass, assignments));
        let first_input = first_index(pass.inputs.len() as int, input_unknown(pass, assignments));
        if first_input < pass.inputs.len() {
            assert(!is_missing(passes, i)(first_input));
            lemma_produced_grows(passes, i, n, pass.inputs[first_input].id);
            assert(input_unknown(pass, assignments)(first_input));
        }
        let first_output = first_index(
            pass.outputs.len() as int,
            output_unknown(pass, assignments),
        );
        if first_output < pass.outputs.len() {
            let name = pass.outputs[first_output].id;
            assert(output_ids(pass)[first_output] == name);
            assert(output_ids(pass).contains(name));
            assert(produced(passes, i + 1).contains(name));
            lemma_produced_grows(passes, i + 1, n, name);
            assert(output_unknown(pass, assignments)(first_output));
        }
    }
    lemma_passes_compile(passes, assignments, shaders, n);
}

/// Whether a pass has an input with the identifier `id`.
fn pass_reads(pass: &Pass, id: &str) -> (found: bool)
    ensures
        found == reads(pass@, id@),
{
    let mut k: usize = 0;
    while k < pass.inputs.len()
        invariant
            k <= pass.inputs.len(),
            forall|j: int| 0 <= j < k ==> (#[trigger] pass@.inputs[j]).id != id@,
        decreases pass.inputs.len() - k,
    {
        if str_eq(pass.inputs[k].id.as_str(), id) {
            assert(pass@.inputs[k as int].id == id@);
            return true;
        }
        k += 1;
    }
    false
}

/// Compiles a manifest.
pub struct PipelineCompiler {
    /// The manifest to compile
    pub raw: PipelineSpec,
}

impl PipelineCompiler {
    /// A compiler for the given manifest
    pub fn new(raw: PipelineSpec) -> (out: Self)
        ensures
            out.raw == raw,
    {
        Self { raw }
    }

    /// The lifetime of every logical texture of the manifest: from the pass
    /// that has it as an output to the last pass that has it as an input.
    pub fn collect_texture_lifetimes(&self) -> (out: Vec<TextureLifetime>)
        ensures
            lifetime_views(out@) == texture_lifetimes(self.raw@),
    {
        let mut texture_lifetimes: Vec<TextureLifetime> = Vec::new();
        let ghost passes = self.raw@.passes;
        let mut i: usize = 0;
        proof {
            assert(lifetime_views(texture_lifetimes@) =~= Seq::<LifetimeView>::empty());
        }
        while i < self.raw.passes.len()
            invariant
                i <= self.raw.passes.len(),
                passes == self.raw@.passes,
                lifetime_views(texture_lifetimes@) == lifetimes_before(passes, i as int),
            decreases self.raw.passes.len() - i,
        {
            let pass = &self.raw.passes[i];
            assert(passes[i as int] == pass@);
            let ghost before = lifetimes_before(passes, i as int);
            let mut k: usize = 0;
            proof {
                assert(before + Seq::<LifetimeView>::empty() =~= before);
            }
            while k < pass.outputs.len()
                invariant
                    k <= pass.outputs.len(),
                    i < self.raw.passes.len(),
                    passes == self.raw@.passes,
                    passes[i as int] == pass@,
                    before == lifetimes_before(passes, i as int),
                    lifetime_views(texture_lifetimes@) == before + pass_lifetimes(
                        passes,
                        i as int,
                        k as int,
                    ),
                decreases pass.outputs.len() - k,
            {
                let output = &pass.outputs[k];
                assert(passes[i as int].outputs[k as int] == output@);
                if !str_eq(output.id.as_str(), "SOURCE") {
                    let mut last_used_at: usize = i;
                    let mut later: usize = i + 1;
                    while later < self.raw.passes.len()
                        invariant
                            i < later <= self.raw.passes.len(),
                            passes == self.raw@.passes,
                            last_used_at == last_use(passes, output@.id, i as int, later as int),
                        decreases self.raw.passes.len() - later,
                    {
                        assert(passes[later as int] == self.raw.passes@[later as int]@);
                        if pass_reads(&self.raw.passes[later], output.id.as_str()) {
                            last_used_at = later;
                        }
                        later += 1;
                    }
                    let lifetime = TextureLifetime {
                        logical_id: output.id.clone(),
                        components: output.components,
                        scale_factor: (output.scale_factor[0], output.scale_factor[1]),
                        created_at: i,
                        last_used_at,
                    };
                    proof {
                        assert(lifetime@ == lifetime_of(passes, i as int, k as int));
                        assert(lifetime_views(texture_lifetimes@.push(lifetime))
                            =~= lifetime_views(texture_lifetimes@).push(lifetime@));
                        assert(pass_lifetimes(passes, i as int, k + 1) == pass_lifetimes(
                            passes,
                            i as int,
                            k as int,
                        ).push(lifetime@));
                        assert((before + pass_lifetimes(passes, i as int, k as int)).push(
                            lifetime@,
                        ) =~= before + pass_lifetimes(passes, i as int, k as int).push(lifetime@));
                    }
                    texture_lifetimes.push(lifetime);
                }
                k += 1;
            }
            i += 1;
        }
        texture_lifetimes
    }
}

/// Whether the loader, asked for `file`, may answer with the text `text`.
pub open spec fn loaded_by<F: Fn(&str) -> Result<String, std::io::Error>>(
    load: F,
    file: Seq<char>,
    text: Seq<char>,
) -> bool {
    exists|f: &str, t: String|
        f@ == file && t@ == text && #[trigger] load.ensures((f,), Ok::<String, std::io::Error>(t))
}

/// Whether the loader, asked for `file`, may refuse with `cause`.
pub open spec fn refused_by<F: Fn(&str) -> Result<String, std::io::Error>>(
    load: F,
    file: Seq<char>,
    cause: std::io::Error,
) -> bool {
    exists|f: &str|
        f@ == file && #[trigger] load.ensures((f,), Err::<String, std::io::Error>(cause))
}

/// Whether `shaders` holds, for each of the first `n` passes, a text that
/// the loader may answer with when asked for the shader file of the pass.
pub open spec fn all_loaded<F: Fn(&str) -> Result<String, std::io::Error>>(
    load: F,
    passes: Seq<PassView>,
    shaders: Seq<Seq<char>>,
    n: int,
) -> bool {
    &&& shaders.len() == n
    &&& forall|i: int| 0 <= i < n ==> loaded_by(load, (#[trigger] passes[i]).file, shaders[i])
}

/// The first output named `id` among `outputs`.
fn find_among(outputs: &Vec<super::pipeline_specs::TextureOutput>, id: &str) -> (out: Option<
    (u32, (ScaleFactor, ScaleFactor)),
>)
    ensures
        out == info_among(Seq::new(outputs@.len(), |k: int| outputs@[k]@), id@, 0),
{
    let ghost all = Seq::new(outputs@.len(), |k: int| outputs@[k]@);
    let mut k: usize = 0;
    while k < outputs.len()
        invariant
            k <= outputs.len(),
            all == Seq::new(outputs@.len(), |k: int| outputs@[k]@),
            info_among(all, id@, 0) == info_among(all, id@, k as int),
        decreases outputs.len() - k,
    {
        let output = &outputs[k];
        assert(all[k as int] == output@);
        if str_eq(output.id.as_str(), id) {
            return Some((output.components, (output.scale_factor[0], output.scale_factor[1])));
        }
        k += 1;
    }
    None
}

/// Whether `modes` holds `mode`.
fn holds_mode(modes: &Vec<SamplerFilterMode>, mode: SamplerFilterMode) -> (found: bool)
    ensures
        found == modes@.contains(mode),
{
    let mut k: usize = 0;
    while k < modes.len()
        invariant
            k <= modes.len(),
            forall|j: int| 0 <= j < k ==> modes@[j] != mode,
        decreases modes.len() - k,
    {
        if modes[k] == mode {
            return true;
        }
        k += 1;
    }
    false
}

impl PipelineCompiler {
    /// Component count and scale factors of a logical texture.
    #[verifier::loop_isolation(false)]
    pub fn find_physical_texture_info(&self, logical_id: &str) -> (out: (
        u32,
        (ScaleFactor, ScaleFactor),
    ))
        ensures
            out == texture_info(self.raw@.passes, logical_id@),
    {
        if str_eq(logical_id, "SOURCE") {
            return (4, (ScaleFactor::new(1, 1), ScaleFactor::new(1, 1)));
        }
        let ghost passes = self.raw@.passes;
        let mut i: usize = 0;
        while i < self.raw.passes.len()
            invariant
                i <= self.raw.passes.len(),
                passes == self.raw@.passes,
                info_from(passes, logical_id@, 0) == info_from(passes, logical_id@, i as int),
            decreases self.raw.passes.len() - i,
        {
            let pass = &self.raw.passes[i];
            assert(passes[i as int] == pass@);
            match find_among(&pass.outputs, logical_id) {
                Some(info) => { return info; },
                None => {},
            }
            i += 1;
        }
        (4, (ScaleFactor::new(1, 1), ScaleFactor::new(1, 1)))
    }

    /// Pass `i` with its bindings resolved and the shader text `shader`.
    #[verifier::loop_isolation(false)]
    pub fn create_executable_pass(
        &self,
        i: usize,
        texture_assignments: &StringHashMap<u32>,
        shader: String,
    ) -> (out: Result<ExecutablePass, CompileError>)
        requires
            i < self.raw.passes@.len(),
        ensures
            match out {
                Ok(pass) => compiled_pass(self.raw@.passes, texture_assignments@, i as int, shader@)
                    == Ok::<CompiledPass, CompileFault>(pass@),
                Err(e) => compiled_pass(self.raw@.passes, texture_assignments@, i as int, shader@)
                    == Err::<CompiledPass, CompileFault>(e@) && !(e is ShaderLoad),
            },
    {
        let pass = &self.raw.passes[i];
        let ghost passes = self.raw@.passes;
        let ghost view = pass@;
        assert(passes[i as int] == view);
        let ghost no_input = input_unknown(view, texture_assignments@);
        let ghost no_output = output_unknown(view, texture_assignments@);
        let mut input_textures: Vec<PhysicalTextureBinding> = Vec::new();
        let mut k: usize = 0;
        while k < pass.inputs.len()
            invariant
                k <= pass.inputs.len(),
                passes == self.raw@.passes,
                view == pass@,
                no_input == input_unknown(view, texture_assignments@),
                first_index(k as int, no_input) == k,
                input_textures@.len() == k,
                forall|j: int|
                    0 <= j < k ==> (#[trigger] input_textures@[j])@ == resolved_input(
                        passes,
                        texture_assignments@,
                        view.inputs[j],
                    ),
            decreases pass.inputs.len() - k,
        {
            let input = &pass.inputs[k];
            assert(view.inputs[k as int] == input@);
            let physical_id: u32 = match texture_assignments.get(input.id.as_str()) {
                Some(id) => *id,
                None => {
                    proof {
                        assert(no_input(k as int));
                        lemma_first_index_stays(k + 1, pass.inputs.len() as int, no_input);
                    }
                    return Err(CompileError::UnknownTexture(i, input.id.clone()));
                },
            };
            assert(!no_input(k as int));
            let info = self.find_physical_texture_info(input.id.as_str());
            input_textures.push(
                PhysicalTextureBinding {
                    logical_id: input.id.clone(),
                    physical_id,
                    binding: input.binding,
                    components: info.0,
                    scale_factor: info.1,
                },
            );
            k += 1;
        }
        let mut output_textures: Vec<PhysicalTextureBinding> = Vec::new();
        k = 0;
        while k < pass.outputs.len()
            invariant
                k <= pass.outputs.len(),
                view == pass@,
                no_output == output_unknown(view, texture_assignments@),
                first_index(k as int, no_output) == k,
                output_textures@.len() == k,
                forall|j: int|
                    0 <= j < k ==> (#[trigger] output_textures@[j])@ == resolved_output(
                        texture_assignments@,
                        view.outputs[j],
                    ),
            decreases pass.outputs.len() - k,
        {
            let output = &pass.outputs[k];
            assert(view.outputs[k as int] == output@);
            let physical_id: u32 = match texture_assignments.get(output.id.as_str()) {
                Some(id) => *id,
                None => {
                    proof {
                        assert(no_output(k as int));
                        lemma_first_index_stays(k + 1, pass.outputs.len() as int, no_output);
                    }
                    return Err(CompileError::UnknownTexture(i, output.id.clone()));
                },
            };
            assert(!no_output(k as int));
            output_textures.push(
                PhysicalTextureBinding {
                    logical_id: output.id.clone(),
                    physical_id,
                    binding: output.binding,
                    components: output.components,
                    scale_factor: (output.scale_factor[0], output.scale_factor[1]),
                },
            );
            k += 1;
        }
        if pass.outputs.len() == 0 {
            return Err(CompileError::PassMissingOutputs(i));
        }
        let first = &pass.outputs[0];
        assert(view.outputs[0] == first@);
        let compiled = ExecutablePass {
            id: pass.id.clone(),
            shader,
            compute_scale_factors: (first.scale_factor[0], first.scale_factor[1]),
            input_textures,
            output_textures,
            samplers: pass.samplers.clone(),
        };
        proof {
            let wanted = compiled_pass(passes, texture_assignments@, i as int, shader@);
            assert(wanted is Ok);
            assert(compiled@.input_textures =~= wanted->Ok_0.input_textures);
            assert(compiled@.output_textures =~= wanted->Ok_0.output_textures);
        }
        Ok(compiled)
    }

    /// All passes with their bindings resolved, each with its shader text.
    pub fn create_executable_passes(
        &self,
        texture_assignments: &StringHashMap<u32>,
        shaders: &Vec<String>,
    ) -> (out: Result<Vec<ExecutablePass>, CompileError>)
        requires
            shaders@.len() == self.raw.passes@.len(),
        ensures
            match out {
                Ok(passes) => compiled_passes(
                    self.raw@.passes,
                    texture_assignments@,
                    crate::text::views(shaders@),
                    self.raw@.passes.len() as int,
                ) == Ok::<Seq<CompiledPass>, CompileFault>(pass_views(passes@)),
                Err(e) => compiled_passes(
                    self.raw@.passes,
                    texture_assignments@,
                    crate::text::views(shaders@),
                    self.raw@.passes.len() as int,
                ) == Err::<Seq<CompiledPass>, CompileFault>(e@) && !(e is ShaderLoad),
            },
    {
        let ghost passes = self.raw@.passes;
        let ghost texts = crate::text::views(shaders@);
        let mut done: Vec<ExecutablePass> = Vec::new();
        let mut i: usize = 0;
        proof {
            assert(pass_views(done@) =~= Seq::<CompiledPass>::empty());
        }
        while i < self.raw.passes.len()
            invariant
                i <= self.raw.passes.len(),
                shaders@.len() == self.raw.passes@.len(),
                passes == self.raw@.passes,
                texts == crate::text::views(shaders@),
                compiled_passes(passes, texture_assignments@, texts, i as int) == Ok::<
                    Seq<CompiledPass>,
                    CompileFault,
                >(pass_views(done@)),
            decreases self.raw.passes.len() - i,
        {
            match self.create_executable_pass(i, texture_assignments, shaders[i].clone()) {
                Err(e) => {
                    proof {
                        lemma_compile_error_stays(
                            passes,
                            texture_assignments@,
                            texts,
                            i + 1,
                            passes.len() as int,
                        );
                    }
                    return Err(e);
                },
                Ok(pass) => {
                    proof {
                        assert(pass_views(done@.push(pass)) =~= pass_views(done@).push(pass@));
                    }
                    done.push(pass);
                },
            }
            i += 1;
        }
        Ok(done)
    }

    /// The filter modes that the manifest needs, each once, in order of
    /// first use.
    pub fn collect_required_samplers(&self) -> (out: Vec<SamplerFilterMode>)
        ensures
            out@ == required_modes(self.raw@),
    {
        let ghost passes = self.raw@.passes;
        let mut required: Vec<SamplerFilterMode> = Vec::new();
        let mut i: usize = 0;
        while i < self.raw.passes.len()
            invariant
                i <= self.raw.passes.len(),
                passes == self.raw@.passes,
                required@ == modes_before(passes, i as int),
            decreases self.raw.passes.len() - i,
        {
            let pass = &self.raw.passes[i];
            assert(passes[i as int] == pass@);
            let ghost before = modes_before(passes, i as int);
            let mut k: usize = 0;
            while k < pass.samplers.len()
                invariant
                    k <= pass.samplers.len(),
                    passes[i as int] == pass@,
                    required@ == with_sampler_modes(before, pass@.samplers, k as int),
                decreases pass.samplers.len() - k,
            {
                let mode = pass.samplers[k].filter_mode;
                if !holds_mode(&required, mode) {
                    required.push(mode);
                }
                k += 1;
            }
            i += 1;
        }
        required
    }

    /// Compiles the manifest with the shader texts given, one per pass.
    pub fn assemble(self, shaders: &Vec<String>) -> (out: Result<ExecutablePipeline, CompileError>)
        requires
            shaders@.len() == self.raw.passes@.len(),
        ensures
            match out {
                Ok(pipeline) => compiled(self.raw@, crate::text::views(shaders@)) == Ok::<
                    CompiledPipeline,
                    CompileFault,
                >(pipeline@),
                Err(e) => compiled(self.raw@, crate::text::views(shaders@)) == Err::<
                    CompiledPipeline,
                    CompileFault,
                >(e@) && !(e is ShaderLoad),
            },
    {
        let texture_lifetimes = self.collect_texture_lifetimes();
        if texture_lifetimes.len() > u32::MAX as usize {
            return Err(CompileError::TooManyTextures);
        }
        let (physical_textures, texture_assignments) = assign_physical_textures(
            texture_lifetimes.as_slice(),
        );
        let passes = match self.create_executable_passes(&texture_assignments, shaders) {
            Ok(passes) => passes,
            Err(e) => { return Err(e); },
        };
        let required_samplers = self.collect_required_samplers();
        Ok(
            ExecutablePipeline {
                id: self.raw.id,
                name: self.raw.name,
                description: self.raw.description,
                physical_textures,
                passes,
                required_samplers,
            },
        )
    }

    /// Compiles the manifest. The loader is asked for the shader file of
    /// every pass, in pass order; the first refusal ends the compilation
    /// with an error that names the pass and the file, the passes before it
    /// having been answered.
    pub fn compile<F: Fn(&str) -> Result<String, std::io::Error>>(self, load_shader_file: F) -> (out:
        Result<ExecutablePipeline, CompileError>)
        requires
            forall|file: &str| load_shader_file.requires((file,)),
        ensures
            match out {
                Ok(pipeline) => exists|shaders: Seq<Seq<char>>|
                    all_loaded(
                        load_shader_file,
                        self.raw@.passes,
                        shaders,
                        self.raw@.passes.len() as int,
                    ) && #[trigger] compiled(self.raw@, shaders) == Ok::<
                        CompiledPipeline,
                        CompileFault,
                    >(pipeline@),
                Err(CompileError::ShaderLoad { pass_index, pass_id, file, cause }) => pass_index
                    < self.raw@.passes.len() && pass_id@ == self.raw@.passes[pass_index as int].id
                    && file@ == self.raw@.passes[pass_index as int].file && refused_by(
                    load_shader_file,
                    file@,
                    cause,
                ) && exists|shaders: Seq<Seq<char>>| #[trigger]
                    all_loaded(load_shader_file, self.raw@.passes, shaders, pass_index as int),
                Err(e) => exists|shaders: Seq<Seq<char>>|
                    all_loaded(
                        load_shader_file,
                        self.raw@.passes,
                        shaders,
                        self.raw@.passes.len() as int,
                    ) && #[trigger] compiled(self.raw@, shaders) == Err::<
                        CompiledPipeline,
                        CompileFault,
                    >(e@),
            },
    {
        let ghost passes = self.raw@.passes;
        let mut shaders: Vec<String> = Vec::new();
        let mut i: usize = 0;
        while i < self.raw.passes.len()
            invariant
                i <= self.raw.passes.len(),
                passes == self.raw@.passes,
                forall|file: &str| load_shader_file.requires((file,)),
                all_loaded(load_shader_file, passes, crate::text::views(shaders@), i as int),
            decreases self.raw.passes.len() - i,
        {
            let pass = &self.raw.passes[i];
            assert(passes[i as int] == pass@);
            let file = pass.file.as_str();
            match load_shader_file(file) {
                Ok(text) => {
                    proof {
                        let now = crate::text::views(shaders@.push(text));
                        assert(load_shader_file.ensures((file,), Ok::<String, std::io::Error>(text)));
                        assert(loaded_by(load_shader_file, passes[i as int].file, text@));
                        assert forall|j: int| 0 <= j < i + 1 implies loaded_by(
                            load_shader_file,
                            (#[trigger] passes[j]).file,
                            now[j],
                        ) by {
                            if j < i {
                                assert(now[j] == crate::text::views(shaders@)[j]);
                            }
                        }
                    }
                    shaders.push(text);
                },
                Err(cause) => {
                    proof {
                        assert(load_shader_file.ensures(
                            (file,),
                            Err::<String, std::io::Error>(cause),
                        ));
                    }
                    return Err(
                        CompileError::ShaderLoad {
                            pass_index: i,
                            pass_id: pass.id.clone(),
                            file: pass.file.clone(),
                            cause,
                        },
                    );
                },
            }
            i += 1;
        }
        let ghost texts = crate::text::views(shaders@);
        let ghost raw = self.raw@;
        let out = self.assemble(&shaders);
        proof {
            assert(all_loaded(load_shader_file, raw.passes, texts, raw.passes.len() as int));
            if out is Ok {
                assert(compiled(raw, texts) == Ok::<CompiledPipeline, CompileFault>(out->Ok_0@));
            } else {
                assert(compiled(raw, texts) == Err::<CompiledPipeline, CompileFault>(
                    out->Err_0@,
                ));
            }
        }
        out
    }
}

impl PipelineSpec {
    /// Compiles this manifest into an executable pipeline, with the shader
    /// files loaded through `load_shader_file`.
    pub fn compile<F: Fn(&str) -> Result<String, std::io::Error>>(self, load_shader_file: F) -> (out:
        Result<ExecutablePipeline, CompileError>)
        requires
            forall|file: &str| load_shader_file.requires((file,)),
        ensures
            match out {
                Ok(pipeline) => exists|shaders: Seq<Seq<char>>|
                    all_loaded(load_shader_file, self@.passes, shaders, self@.passes.len() as int)
                        && #[trigger] compiled(self@, shaders) == Ok::<
                        CompiledPipeline,
                        CompileFault,
                    >(pipeline@),
                Err(CompileError::ShaderLoad { pass_index, pass_id, file, cause }) => pass_index
                    < self@.passes.len() && pass_id@ == self@.passes[pass_index as int].id && file@
                    == self@.passes[pass_index as int].file && refused_by(
                    load_shader_file,
                    file@,
                    cause,
                ) && exists|shaders: Seq<Seq<char>>| #[trigger]
                    all_loaded(load_shader_file, self@.passes, shaders, pass_index as int),
                Err(e) => exists|shaders: Seq<Seq<char>>|
                    all_loaded(load_shader_file, self@.passes, shaders, self@.passes.len() as int)
                        && #[trigger] compiled(self@, shaders) == Err::<
                        CompiledPipeline,
                        CompileFault,
                    >(e@),
            },
    {
        let compiler = PipelineCompiler::new(self);
        compiler.compile(load_shader_file)
    }
}

/// Whether texture `i` is the source texture.
pub open spec fn is_source_at(textures: Seq<PhysicalTexture>) -> spec_fn(int) -> bool {
    |i: int| textures[i].is_source
}

/// Whether binding `k` is that of the texture `RESULT`.
pub open spec fn is_result_at(bindings: Seq<ResolvedBinding>) -> spec_fn(int) -> bool {
    |k: int| bindings[k].logical_id == "RESULT"@
}

/// The binding of the pipeline's result: the first output named `RESULT` of
/// the last pass.
pub open spec fn result_binding(pipeline: CompiledPipeline) -> Option<ResolvedBinding> {
    if pipeline.passes.len() == 0 {
        None
    } else {
        let outputs = pipeline.passes.last().output_textures;
        let k = first_index(outputs.len() as int, is_result_at(outputs));
        if k < outputs.len() {
            Some(outputs[k])
        } else {
            None
        }
    }
}

impl ExecutablePipeline {
    /// Compiles a manifest, with the shader files loaded through
    /// `load_shader_file`.
    pub fn from_raw<F: Fn(&str) -> Result<String, std::io::Error>>(
        raw: PipelineSpec,
        load_shader_file: F,
    ) -> (out: Result<Self, CompileError>)
        requires
            forall|file: &str| load_shader_file.requires((file,)),
        ensures
            match out {
                Ok(pipeline) => exists|shaders: Seq<Seq<char>>|
                    all_loaded(load_shader_file, raw@.passes, shaders, raw@.passes.len() as int)
                        && #[trigger] compiled(raw@, shaders) == Ok::<
                        CompiledPipeline,
                        CompileFault,
                    >(pipeline@),
                Err(CompileError::ShaderLoad { pass_index, pass_id, file, cause }) => pass_index
                    < raw@.passes.len() && pass_id@ == raw@.passes[pass_index as int].id && file@
                    == raw@.passes[pass_index as int].file && refused_by(
                    load_shader_file,
                    file@,
                    cause,
                ) && exists|shaders: Seq<Seq<char>>| #[trigger]
                    all_loaded(load_shader_file, raw@.passes, shaders, pass_index as int),
                Err(e) => exists|shaders: Seq<Seq<char>>|
                    all_loaded(load_shader_file, raw@.passes, shaders, raw@.passes.len() as int)
                        && #[trigger] compiled(raw@, shaders) == Err::<
                        CompiledPipeline,
                        CompileFault,
                    >(e@),
            },
    {
        raw.compile(load_shader_file)
    }

    /// The identifier of the first physical texture that is marked as source.
    pub fn get_source_texture_id(&self) -> (out: Option<u32>)
        ensures
            out == if first_index(
                self@.physical_textures.len() as int,
                is_source_at(self@.physical_textures),
            ) < self@.physical_textures.len() {
                Some(
                    self@.physical_textures[first_index(
                        self@.physical_textures.len() as int,
                        is_source_at(self@.physical_textures),
                    )].id,
                )
            } else {
                None
            },
    {
        let ghost rule = is_source_at(self@.physical_textures);
        let mut i: usize = 0;
        while i < self.physical_textures.len()
            invariant
                i <= self.physical_textures.len(),
                rule == is_source_at(self@.physical_textures),
                first_index(i as int, rule) == i,
            decreases self.physical_textures.len() - i,
        {
            if self.physical_textures[i].is_source {
                proof {
                    assert(rule(i as int));
                    lemma_first_index_stays(i + 1, self.physical_textures.len() as int, rule);
                }
                return Some(self.physical_textures[i].id);
            }
            assert(!rule(i as int));
            i += 1;
        }
        None
    }

    /// Position of the pipeline's result among the outputs of the last pass.
    #[verifier::loop_isolation(false)]
    fn result_position(&self) -> (out: Option<usize>)
        requires
            self.passes@.len() > 0,
        ensures
            match out {
                Some(k) => k < self.passes@.last().output_textures@.len() && result_binding(self@)
                    == Some(self.passes@.last().output_textures@[k as int]@),
                None => result_binding(self@) is None,
            },
    {
        let last = &self.passes[self.passes.len() - 1];
        assert(self@.passes.last() == last@);
        let ghost outputs = last@.output_textures;
        let ghost rule = is_result_at(outputs);
        let mut k: usize = 0;
        while k < last.output_textures.len()
            invariant
                k <= last.output_textures.len(),
                outputs == last@.output_textures,
                rule == is_result_at(outputs),
                first_index(k as int, rule) == k,
            decreases last.output_textures.len() - k,
        {
            assert(outputs[k as int] == last.output_textures@[k as int]@);
            if str_eq(last.output_textures[k].logical_id.as_str(), "RESULT") {
                proof {
                    assert(rule(k as int));
                    lemma_first_index_stays(k + 1, outputs.len() as int, rule);
                }
                return Some(k);
            }
            assert(!rule(k as int));
            k += 1;
        }
        None
    }

    /// The physical texture of the pipeline's result.
    pub fn get_result_texture_id(&self) -> (out: Option<u32>)
        ensures
            out == match result_binding(self@) {
                Some(binding) => Some(binding.physical_id),
                None => None,
            },
    {
        if self.passes.len() == 0 {
            return None;
        }
        match self.result_position() {
            Some(k) => Some(self.passes[self.passes.len() - 1].output_textures[k].physical_id),
            None => None,
        }
    }

    /// The scale factors of the pipeline's result.
    pub fn get_final_scale_factor(&self) -> (out: Option<(ScaleFactor, ScaleFactor)>)
        ensures
            out == match result_binding(self@) {
                Some(binding) => Some(binding.scale_factor),
                None => None,
            },
    {
        if self.passes.len() == 0 {
            return None;
        }
        match self.result_position() {
            Some(k) => Some(self.passes[self.passes.len() - 1].output_textures[k].scale_factor),
            None => None,
        }
    }
}

} // verus!
