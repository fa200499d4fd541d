//! Structural validation of a pipeline manifest.

use super::pipeline_specs::{PassView, PipelineSpec, SpecView};
use crate::text::{decimal, decimal_digits, str_eq};
use vstd::hash_set::StringHashSet;
use vstd::prelude::*;
use vstd::string::StringExecFns;

verus! {

/// Why a manifest is not valid.
#[derive(Debug, Clone)]
pub enum PipelineValidationError {
    /// Pipeline ID field is empty
    EmptyId,
    /// Pipeline name field is empty
    EmptyName,
    /// Pipeline contains no shader passes
    NoPasses,
    /// A shader pass has no input textures (pass index)
    PassMissingInputs(usize),
    /// A shader pass has no output textures (pass index)
    PassMissingOutputs(usize),
    /// Two bindings of one pass use the same binding point (pass index, binding)
    DuplicateBinding(usize, u32),
    /// RESULT is an output of a pass other than the last one (pass index)
    ResultNotInLastPass(usize),
    /// A texture is an output for the second time, or SOURCE is an output (pass index, texture ID)
    TextureOverwritten(usize, String),
    /// An input is neither SOURCE nor an output of an earlier pass (pass index, texture ID)
    InputTextureNotFound(usize, String),
}

/// A `PipelineValidationError` with its texts as character sequences.
pub ghost enum ValidationFault {
    EmptyId,
    EmptyName,
    NoPasses,
    PassMissingInputs(usize),
    PassMissingOutputs(usize),
    DuplicateBinding(usize, u32),
    ResultNotInLastPass(usize),
    TextureOverwritten(usize, Seq<char>),
    InputTextureNotFound(usize, Seq<char>),
}

impl View for PipelineValidationError {
    type V = ValidationFault;

    open spec fn view(&self) -> ValidationFault {
        match *self {
            PipelineValidationError::EmptyId => ValidationFault::EmptyId,
            PipelineValidationError::EmptyName => ValidationFault::EmptyName,
            PipelineValidationError::NoPasses => ValidationFault::NoPasses,
            PipelineValidationError::PassMissingInputs(i) => ValidationFault::PassMissingInputs(i),
            PipelineValidationError::PassMissingOutputs(i) => ValidationFault::PassMissingOutputs(
                i,
            ),
            PipelineValidationError::DuplicateBinding(i, b) => ValidationFault::DuplicateBinding(
                i,
                b,
            ),
            PipelineValidationError::ResultNotInLastPass(i) => ValidationFault::ResultNotInLastPass(
                i,
            ),
            PipelineValidationError::TextureOverwritten(i, id) => ValidationFault::TextureOverwritten(
                i,
                id@,
            ),
            PipelineValidationError::InputTextureNotFound(i, id) => ValidationFault::InputTextureNotFound(
                i,
                id@,
            ),
        }
    }
}

/// The least index below `n` at which `holds`, or `n` where there is none.
pub open spec fn first_index(n: int, holds: spec_fn(int) -> bool) -> int
    decreases n,
{
    if n <= 0 {
        0
    } else if first_index(n - 1, holds) < n - 1 {
        first_index(n - 1, holds)
    } else if holds(n - 1) {
        n - 1
    } else {
        n
    }
}

/// The least index is one at which the predicate holds, and it holds at
/// none before.
pub proof fn lemma_first_index(n: int, holds: spec_fn(int) -> bool)
    requires
        0 <= n,
    ensures
        0 <= first_index(n, holds) <= n,
        first_index(n, holds) < n ==> holds(first_index(n, holds)),
        forall|k: int| 0 <= k < first_index(n, holds) ==> !#[trigger] holds(k),
    decreases n,
{
    if n > 0 {
        lemma_first_index(n - 1, holds);
    }
}

/// Once found, the least index stays the same for every larger bound.
pub proof fn lemma_first_index_stays(m: int, n: int, holds: spec_fn(int) -> bool)
    requires
        0 <= m <= n,
        first_index(m, holds) < m,
    ensures
        first_index(n, holds) == first_index(m, holds),
    decreases n - m,
{
    if m < n {
        lemma_first_index_stays(m, n - 1, holds);
    }
}

/// Whether a pass lacks inputs or outputs.
pub open spec fn is_incomplete(passes: Seq<PassView>) -> spec_fn(int) -> bool {
    |i: int| passes[i].inputs.len() == 0 || passes[i].outputs.len() == 0
}

/// The binding points of a pass: those of its inputs, then of its outputs,
/// then of its samplers.
pub open spec fn binding_points(pass: PassView) -> Seq<u32> {
    Seq::new(pass.inputs.len(), |k: int| pass.inputs[k].binding) + Seq::new(
        pass.outputs.len(),
        |k: int| pass.outputs[k].binding,
    ) + Seq::new(pass.samplers.len(), |k: int| pass.samplers[k].binding)
}

/// Whether an element of a sequence occurs before itself.
pub open spec fn is_repeat<T>(items: Seq<T>) -> spec_fn(int) -> bool {
    |k: int| items.take(k).contains(items[k])
}

/// Whether a pass uses one binding point twice.
pub open spec fn has_repeat(passes: Seq<PassView>) -> spec_fn(int) -> bool {
    |i: int|
        first_index(binding_points(passes[i]).len() as int, is_repeat(binding_points(passes[i])))
            < binding_points(passes[i]).len()
}

/// Whether a pass before the last one has the output `RESULT`.
pub open spec fn has_early_result(passes: Seq<PassView>) -> spec_fn(int) -> bool {
    |i: int|
        i != passes.len() - 1 && exists|k: int|
            0 <= k < passes[i].outputs.len() && (#[trigger] passes[i].outputs[k]).id == "RESULT"@
}

/// The identifiers of the outputs of a pass.
pub open spec fn output_ids(pass: PassView) -> Seq<Seq<char>> {
    Seq::new(pass.outputs.len(), |k: int| pass.outputs[k].id)
}

/// The textures there are before pass `i`: `SOURCE` and the outputs of the
/// passes before it.
pub open spec fn produced(passes: Seq<PassView>, i: int) -> Set<Seq<char>>
    decreases i,
{
    if i <= 0 {
        Set::empty().insert("SOURCE"@)
    } else {
        produced(passes, i - 1) + output_ids(passes[i - 1]).to_set()
    }
}

/// Whether output `k` of pass `i` is a texture that there is already.
pub open spec fn is_overwrite(passes: Seq<PassView>, i: int) -> spec_fn(int) -> bool {
    |k: int|
        produced(passes, i).contains(output_ids(passes[i])[k]) || output_ids(passes[i]).take(
            k,
        ).contains(output_ids(passes[i])[k])
}

/// Whether a pass has an output that there is already.
pub open spec fn overwrites(passes: Seq<PassView>) -> spec_fn(int) -> bool {
    |i: int|
        first_index(passes[i].outputs.len() as int, is_overwrite(passes, i))
            < passes[i].outputs.len()
}

/// Whether input `k` of pass `i` is a texture that there is not yet.
pub open spec fn is_missing(passes: Seq<PassView>, i: int) -> spec_fn(int) -> bool {
    |k: int| !produced(passes, i).contains(passes[i].inputs[k].id)
}

/// Whether a pass has an input that there is not yet.
pub open spec fn lacks_input(passes: Seq<PassView>) -> spec_fn(int) -> bool {
    |i: int|
        first_index(passes[i].inputs.len() as int, is_missing(passes, i)) < passes[i].inputs.len()
}

/// The first rule that a manifest breaks, at the first pass that breaks it.
/// The rules, in order: an identifier; a name; a pass; inputs and outputs in
/// every pass; no binding point twice in a pass; `RESULT` in the last pass
/// only; no texture an output twice, nor `SOURCE` an output; every input
/// `SOURCE` or an output of an earlier pass.
pub open spec fn validation(spec: SpecView) -> Result<(), ValidationFault> {
    let passes = spec.passes;
    let n = passes.len() as int;
    if spec.id.len() == 0 {
        Err(ValidationFault::EmptyId)
    } else if spec.name.len() == 0 {
        Err(ValidationFault::EmptyName)
    } else if n == 0 {
        Err(ValidationFault::NoPasses)
    } else if first_index(n, is_incomplete(passes)) < n {
        let i = first_index(n, is_incomplete(passes));
        if passes[i].inputs.len() == 0 {
            Err(ValidationFault::PassMissingInputs(i as usize))
        } else {
            Err(ValidationFault::PassMissingOutputs(i as usize))
        }
    } else if first_index(n, has_repeat(passes)) < n {
        let i = first_index(n, has_repeat(passes));
        let points = binding_points(passes[i]);
        Err(
            ValidationFault::DuplicateBinding(
                i as usize,
                points[first_index(points.len() as int, is_repeat(points))],
            ),
        )
    } else if first_index(n, has_early_result(passes)) < n {
        Err(ValidationFault::ResultNotInLastPass(first_index(n, has_early_result(passes)) as usize))
    } else if first_index(n, overwrites(passes)) < n {
        let i = first_index(n, overwrites(passes));
        Err(
            ValidationFault::TextureOverwritten(
                i as usize,
                output_ids(passes[i])[first_index(
                    passes[i].outputs.len() as int,
                    is_overwrite(passes, i),
                )],
            ),
        )
    } else if first_index(n, lacks_input(passes)) < n {
        let i = first_index(n, lacks_input(passes));
        Err(
            ValidationFault::InputTextureNotFound(
                i as usize,
                passes[i].inputs[first_index(
                    passes[i].inputs.len() as int,
                    is_missing(passes, i),
                )].id,
            ),
        )
    } else {
        Ok(())
    }
}

/// The misplaced-result error is reported only for a pass before the last
/// one that has the output `RESULT`.
pub proof fn lemma_result_error_means_misplaced(spec: SpecView, i: usize)
    requires
        spec.passes.len() <= usize::MAX,
        validation(spec) == Err::<(), ValidationFault>(ValidationFault::ResultNotInLastPass(i)),
    ensures
        i < spec.passes.len() - 1,
        exists|k: int|
            0 <= k < spec.passes[i as int].outputs.len() && (
            #[trigger] spec.passes[i as int].outputs[k]).id == "RESULT"@,
{
    let n = spec.passes.len() as int;
    lemma_first_index(n, is_incomplete(spec.passes));
    lemma_first_index(n, has_repeat(spec.passes));
    lemma_first_index(n, has_early_result(spec.passes));
    lemma_first_index(n, overwrites(spec.passes));
    lemma_first_index(n, lacks_input(spec.passes));
    assert(has_early_result(spec.passes)(i as int));
}

/// A manifest with the output `RESULT` in a pass before the last one is not
/// valid.
pub proof fn lemma_misplaced_result_fails(spec: SpecView, i: int, k: int)
    requires
        0 <= i < spec.passes.len() - 1,
        0 <= k < spec.passes[i].outputs.len(),
        spec.passes[i].outputs[k].id == "RESULT"@,
    ensures
        validation(spec) is Err,
{
    let n = spec.passes.len() as int;
    assert(has_early_result(spec.passes)(i));
    lemma_first_index(n, has_early_result(spec.passes));
}

/// The set of the first `k + 1` items is that of the first `k` and item `k`.
pub proof fn lemma_take_to_set<T>(items: Seq<T>, k: int)
    requires
        0 <= k < items.len(),
    ensures
        items.take(k + 1).to_set() == items.take(k).to_set().insert(items[k]),
{
    let more = items.take(k + 1);
    let fewer = items.take(k);
    assert forall|x: T| more.to_set().contains(x) == fewer.to_set().insert(items[k]).contains(
        x,
    ) by {
        if more.contains(x) {
            let j = choose|j: int| 0 <= j < more.len() && more[j] == x;
            if j < k {
                assert(fewer[j] == x);
            }
        }
        if fewer.contains(x) {
            let j = choose|j: int| 0 <= j < fewer.len() && fewer[j] == x;
            assert(more[j] == x);
        }
        assert(more[k] == items[k]);
    }
    assert(more.to_set() =~= fewer.to_set().insert(items[k]));
}

/// The binding points of a pass, in the order inputs, outputs, samplers.
fn points_of(pass: &super::pipeline_specs::Pass) -> (points: Vec<u32>)
    ensures
        points@ == binding_points(pass@),
{
    let mut points: Vec<u32> = Vec::new();
    let mut k: usize = 0;
    while k < pass.inputs.len()
        invariant
            k <= pass.inputs.len(),
            points@ == Seq::new(k as nat, |j: int| pass@.inputs[j].binding),
        decreases pass.inputs.len() - k,
    {
        points.push(pass.inputs[k].binding);
        k += 1;
        assert(points@ =~= Seq::new(k as nat, |j: int| pass@.inputs[j].binding));
    }
    let ghost first = points@;
    k = 0;
    while k < pass.outputs.len()
        invariant
            k <= pass.outputs.len(),
            first == Seq::new(pass@.inputs.len(), |j: int| pass@.inputs[j].binding),
            points@ == first + Seq::new(k as nat, |j: int| pass@.outputs[j].binding),
        decreases pass.outputs.len() - k,
    {
        points.push(pass.outputs[k].binding);
        k += 1;
        assert(points@ =~= first + Seq::new(k as nat, |j: int| pass@.outputs[j].binding));
    }
    let ghost second = points@;
    k = 0;
    while k < pass.samplers.len()
        invariant
            k <= pass.samplers.len(),
            second == Seq::new(pass@.inputs.len(), |j: int| pass@.inputs[j].binding) + Seq::new(
                pass@.outputs.len(),
                |j: int| pass@.outputs[j].binding,
            ),
            points@ == second + Seq::new(k as nat, |j: int| pass@.samplers[j].binding),
        decreases pass.samplers.len() - k,
    {
        points.push(pass.samplers[k].binding);
        k += 1;
        assert(points@ =~= second + Seq::new(k as nat, |j: int| pass@.samplers[j].binding));
    }
    points
}

/// The first binding point of a pass that was used before in it.
fn first_repeat(pass: &super::pipeline_specs::Pass) -> (found: Option<u32>)
    ensures
        match found {
            None => first_index(
                binding_points(pass@).len() as int,
                is_repeat(binding_points(pass@)),
            ) == binding_points(pass@).len(),
            Some(point) => first_index(
                binding_points(pass@).len() as int,
                is_repeat(binding_points(pass@)),
            ) < binding_points(pass@).len() && point == binding_points(pass@)[first_index(
                binding_points(pass@).len() as int,
                is_repeat(binding_points(pass@)),
            )],
        },
{
    let points = points_of(pass);
    let ghost rule = is_repeat(points@);
    let mut k: usize = 0;
    while k < points.len()
        invariant
            k <= points.len(),
            points@ == binding_points(pass@),
            rule == is_repeat(points@),
            first_index(k as int, rule) == k,
        decreases points.len() - k,
    {
        let mut j: usize = 0;
        let mut seen = false;
        while j < k
            invariant
                j <= k < points.len(),
                seen == points@.take(j as int).contains(points@[k as int]),
            decreases k - j,
        {
            if points[j] == points[k] {
                seen = true;
            }
            proof {
                let more = points@.take(j + 1);
                let fewer = points@.take(j as int);
                assert(more[j as int] == points@[j as int]);
                if fewer.contains(points@[k as int]) {
                    let w = choose|w: int| 0 <= w < fewer.len() && fewer[w] == points@[k as int];
                    assert(more[w] == points@[k as int]);
                }
                if more.contains(points@[k as int]) && points@[j as int] != points@[k as int] {
                    let w = choose|w: int| 0 <= w < more.len() && more[w] == points@[k as int];
                    assert(fewer[w] == points@[k as int]);
                }
            }
            j += 1;
        }
        if seen {
            proof {
                assert(rule(k as int));
                lemma_first_index_stays(k + 1, points.len() as int, rule);
            }
            return Some(points[k]);
        }
        proof {
            assert(!rule(k as int));
        }
        k += 1;
    }
    None
}

/// Whether a pass has an output with the identifier `id`.
fn has_output(pass: &super::pipeline_specs::Pass, id: &str) -> (found: bool)
    ensures
        found == exists|k: int|
            0 <= k < pass@.outputs.len() && (#[trigger] pass@.outputs[k]).id == id@,
{
    let mut k: usize = 0;
    while k < pass.outputs.len()
        invariant
            k <= pass.outputs.len(),
            forall|j: int| 0 <= j < k ==> (#[trigger] pass@.outputs[j]).id != id@,
        decreases pass.outputs.len() - k,
    {
        if str_eq(pass.outputs[k].id.as_str(), id) {
            assert(pass@.outputs[k as int].id == id@);
            return true;
        }
        k += 1;
    }
    false
}

impl PipelineSpec {
    /// Checks the manifest against the structural rules and reports the
    /// first one that it breaks.
    #[verifier::loop_isolation(false)]
    pub fn validate(&self) -> (out: Result<(), PipelineValidationError>)
        ensures
            match out {
                Ok(_) => validation(self@) == Ok::<(), ValidationFault>(()),
                Err(e) => validation(self@) == Err::<(), ValidationFault>(e@),
            },
    {
        if self.id.as_str().is_empty() {
            return Err(PipelineValidationError::EmptyId);
        }
        if self.name.as_str().is_empty() {
            return Err(PipelineValidationError::EmptyName);
        }
        if self.passes.len() == 0 {
            return Err(PipelineValidationError::NoPasses);
        }
        let ghost passes = self@.passes;
        let ghost n = passes.len() as int;
        let mut i: usize = 0;
        while i < self.passes.len()
            invariant
                i <= self.passes.len(),
                passes == self@.passes,
                n == passes.len(),
                first_index(i as int, is_incomplete(passes)) == i,
            decreases self.passes.len() - i,
        {
            let pass = &self.passes[i];
            assert(passes[i as int] == pass@);
            if pass.inputs.len() == 0 || pass.outputs.len() == 0 {
                proof {
                    assert(is_incomplete(passes)(i as int));
                    lemma_first_index_stays(i + 1, n, is_incomplete(passes));
                }
                if pass.inputs.len() == 0 {
                    return Err(PipelineValidationError::PassMissingInputs(i));
                }
                return Err(PipelineValidationError::PassMissingOutputs(i));
            }
            assert(!is_incomplete(passes)(i as int));
            i += 1;
        }
        i = 0;
        while i < self.passes.len()
            invariant
                i <= self.passes.len(),
                passes == self@.passes,
                n == passes.len(),
                first_index(i as int, has_repeat(passes)) == i,
            decreases self.passes.len() - i,
        {
            let pass = &self.passes[i];
            assert(passes[i as int] == pass@);
            match first_repeat(pass) {
                Some(point) => {
                    proof {
                        assert(has_repeat(passes)(i as int));
                        lemma_first_index_stays(i + 1, n, has_repeat(passes));
                    }
                    return Err(PipelineValidationError::DuplicateBinding(i, point));
                },
                None => {
                    assert(!has_repeat(passes)(i as int));
                },
            }
            i += 1;
        }
        i = 0;
        while i < self.passes.len()
            invariant
                i <= self.passes.len(),
                passes == self@.passes,
                n == passes.len(),
                first_index(i as int, has_early_result(passes)) == i,
            decreases self.passes.len() - i,
        {
            let pass = &self.passes[i];
            assert(passes[i as int] == pass@);
            if i != self.passes.len() - 1 && has_output(pass, "RESULT") {
                proof {
                    assert(has_early_result(passes)(i as int));
                    lemma_first_index_stays(i + 1, n, has_early_result(passes));
                }
                return Err(PipelineValidationError::ResultNotInLastPass(i));
            }
            assert(!has_early_result(passes)(i as int));
            i += 1;
        }
        let mut created = StringHashSet::new();
        created.insert("SOURCE".to_owned());
        i = 0;
        while i < self.passes.len()
            invariant
                i <= self.passes.len(),
                passes == self@.passes,
                n == passes.len(),
                created@ == produced(passes, i as int),
                first_index(i as int, overwrites(passes)) == i,
            decreases self.passes.len() - i,
        {
            let pass = &self.passes[i];
            assert(passes[i as int] == pass@);
            let ghost ids = output_ids(passes[i as int]);
            let ghost rule = is_overwrite(passes, i as int);
            let mut k: usize = 0;
            proof {
                assert(ids.take(0).to_set() =~= Set::<Seq<char>>::empty());
                assert(created@ + ids.take(0).to_set() =~= created@);
            }
            while k < pass.outputs.len()
                invariant
                    k <= pass.outputs.len(),
                    i < self.passes.len(),
                    passes == self@.passes,
                    n == passes.len(),
                    passes[i as int] == pass@,
                    ids == output_ids(passes[i as int]),
                    rule == is_overwrite(passes, i as int),
                    created@ == produced(passes, i as int) + ids.take(k as int).to_set(),
                    first_index(k as int, rule) == k,
                    first_index(i as int, overwrites(passes)) == i,
                decreases pass.outputs.len() - k,
            {
                let id = &pass.outputs[k].id;
                assert(ids[k as int] == id@);
                if created.contains(id.as_str()) {
                    proof {
                        assert(rule(k as int));
                        lemma_first_index_stays(k + 1, ids.len() as int, rule);
                        assert(overwrites(passes)(i as int));
                        lemma_first_index_stays(i + 1, n, overwrites(passes));
                    }
                    return Err(PipelineValidationError::TextureOverwritten(i, id.clone()));
                }
                proof {
                    assert(!rule(k as int));
                    lemma_take_to_set(ids, k as int);
                    assert((produced(passes, i as int) + ids.take(k as int).to_set()).insert(
                        id@,
                    ) =~= produced(passes, i as int) + ids.take(k + 1).to_set());
                }
                created.insert(id.clone());
                k += 1;
            }
            proof {
                assert(ids.take(ids.len() as int) =~= ids);
                assert(!overwrites(passes)(i as int));
            }
            i += 1;
        }
        let mut available = StringHashSet::new();
        available.insert("SOURCE".to_owned());
        i = 0;
        while i < self.passes.len()
            invariant
                i <= self.passes.len(),
                passes == self@.passes,
                n == passes.len(),
                available@ == produced(passes, i as int),
                first_index(i as int, lacks_input(passes)) == i,
            decreases self.passes.len() - i,
        {
            let pass = &self.passes[i];
            assert(passes[i as int] == pass@);
            let ghost rule = is_missing(passes, i as int);
            let mut k: usize = 0;
            while k < pass.inputs.len()
                invariant
                    k <= pass.inputs.len(),
                    i < self.passes.len(),
                    passes == self@.passes,
                    n == passes.len(),
                    passes[i as int] == pass@,
                    rule == is_missing(passes, i as int),
                    available@ == produced(passes, i as int),
                    first_index(k as int, rule) == k,
                    first_index(i as int, lacks_input(passes)) == i,
                decreases pass.inputs.len() - k,
            {
                let id = &pass.inputs[k].id;
                assert(passes[i as int].inputs[k as int].id == id@);
                if !available.contains(id.as_str()) {
                    proof {
                        assert(rule(k as int));
                        lemma_first_index_stays(k + 1, pass.inputs.len() as int, rule);
                        assert(lacks_input(passes)(i as int));
                        lemma_first_index_stays(i + 1, n, lacks_input(passes));
                    }
                    return Err(PipelineValidationError::InputTextureNotFound(i, id.clone()));
                }
                assert(!rule(k as int));
                k += 1;
            }
            assert(!lacks_input(passes)(i as int));
            let ghost ids = output_ids(passes[i as int]);
            k = 0;
            proof {
                assert(ids.take(0).to_set() =~= Set::<Seq<char>>::empty());
                assert(available@ + ids.take(0).to_set() =~= available@);
            }
            while k < pass.outputs.len()
                invariant
                    k <= pass.outputs.len(),
                    i < self.passes.len(),
                    passes[i as int] == pass@,
                    ids == output_ids(passes[i as int]),
                    available@ == produced(passes, i as int) + ids.take(k as int).to_set(),
                decreases pass.outputs.len() - k,
            {
                let id = &pass.outputs[k].id;
                proof {
                    assert(ids[k as int] == id@);
                    lemma_take_to_set(ids, k as int);
                    assert((produced(passes, i as int) + ids.take(k as int).to_set()).insert(
                        id@,
                    ) =~= produced(passes, i as int) + ids.take(k + 1).to_set());
                }
                available.insert(id.clone());
                k += 1;
            }
            proof {
                assert(ids.take(ids.len() as int) =~= ids);
            }
            i += 1;
        }
        Ok(())
    }
}

/// The error in words.
pub open spec fn validation_text(e: ValidationFault) -> Seq<char> {
    match e {
        ValidationFault::EmptyId => "Pipeline ID cannot be empty"@,
        ValidationFault::EmptyName => "Pipeline name cannot be empty"@,
        ValidationFault::NoPasses => "Pipeline must have at least one pass"@,
        ValidationFault::PassMissingInputs(pass) => "Pass "@ + decimal_digits(pass as nat)
            + " is missing inputs"@,
        ValidationFault::PassMissingOutputs(pass) => "Pass "@ + decimal_digits(pass as nat)
            + " is missing outputs"@,
        ValidationFault::DuplicateBinding(pass, binding) => "Duplicate binding "@ + decimal_digits(
            binding as nat,
        ) + " in pass "@ + decimal_digits(pass as nat),
        ValidationFault::ResultNotInLastPass(pass) => "RESULT output found in pass "@
            + decimal_digits(pass as nat) + " but must only be in the last pass"@,
        ValidationFault::TextureOverwritten(pass, texture) => "Texture '"@ + texture
            + "' is being overwritten in pass "@ + decimal_digits(pass as nat),
        ValidationFault::InputTextureNotFound(pass, texture) => "Input texture '"@ + texture
            + "' in pass "@ + decimal_digits(pass as nat)
            + " was not created by any previous pass or is not SOURCE"@,
    }
}

impl PipelineValidationError {
    /// The error in words.
    pub fn to_string(&self) -> (out: String)
        ensures
            out@ == validation_text(self@),
    {
        match self {
            PipelineValidationError::EmptyId => "Pipeline ID cannot be empty".to_owned(),
            PipelineValidationError::EmptyName => "Pipeline name cannot be empty".to_owned(),
            PipelineValidationError::NoPasses => "Pipeline must have at least one pass".to_owned(),
            PipelineValidationError::PassMissingInputs(pass) => "Pass ".to_owned().concat(
                decimal(*pass as u64).as_str(),
            ).concat(" is missing inputs"),
            PipelineValidationError::PassMissingOutputs(pass) => "Pass ".to_owned().concat(
                decimal(*pass as u64).as_str(),
            ).concat(" is missing outputs"),
            PipelineValidationError::DuplicateBinding(pass, binding) => "Duplicate binding ".to_owned().concat(
                decimal(*binding as u64).as_str(),
            ).concat(" in pass ").concat(decimal(*pass as u64).as_str()),
            PipelineValidationError::ResultNotInLastPass(pass) => "RESULT output found in pass ".to_owned().concat(
                decimal(*pass as u64).as_str(),
            ).concat(" but must only be in the last pass"),
            PipelineValidationError::TextureOverwritten(pass, texture) => "Texture '".to_owned().concat(
                texture.as_str(),
            ).concat("' is being overwritten in pass ").concat(decimal(*pass as u64).as_str()),
            PipelineValidationError::InputTextureNotFound(pass, texture) => "Input texture '".to_owned().concat(
                texture.as_str(),
            ).concat("' in pass ").concat(decimal(*pass as u64).as_str()).concat(
                " was not created by any previous pass or is not SOURCE",
            ),
        }
    }
}

} // verus!
