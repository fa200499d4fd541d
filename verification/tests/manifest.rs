use anime4k_build::pipelines::{
    CompileError, ExecutablePipeline, Pass, PipelineSpec, PipelineValidationError, SamplerBinding,
    SamplerFilterMode, ScaleFactor, TextureBindingSpec, TextureOutput,
};

const SINGLE_PASS: &str = r#"
id: test_pipeline
name: Test Pipeline
description: A test pipeline
passes:
  - id: pass1
    file: pass1.wgsl
    inputs:
      - id: SOURCE
        binding: 0
    outputs:
      - id: RESULT
        binding: 1
        components: 4
        scale_factor: ["2", "2"]
"#;

fn text(value: &serde_norway::Value, key: &str) -> String {
    value[key].as_str().unwrap().to_string()
}

fn number(value: &serde_norway::Value, key: &str) -> u32 {
    value[key].as_u64().unwrap() as u32
}

fn items(value: &serde_norway::Value, key: &str) -> Vec<serde_norway::Value> {
    match value.get(key) {
        Some(list) => list.as_sequence().unwrap().clone(),
        None => Vec::new(),
    }
}

/// Reads a manifest from its YAML text.
fn spec_from_yaml(yaml: &str) -> PipelineSpec {
    let root: serde_norway::Value = serde_norway::from_str(yaml).unwrap();
    let passes = items(&root, "passes")
        .iter()
        .map(|pass| Pass {
            id: text(pass, "id"),
            file: text(pass, "file"),
            inputs: items(pass, "inputs")
                .iter()
                .map(|input| TextureBindingSpec { id: text(input, "id"), binding: number(input, "binding") })
                .collect(),
            outputs: items(pass, "outputs")
                .iter()
                .map(|output| {
                    let scale = items(output, "scale_factor");
                    TextureOutput {
                        id: text(output, "id"),
                        binding: number(output, "binding"),
                        components: number(output, "components"),
                        scale_factor: [
                            scale[0].as_str().unwrap().parse().unwrap(),
                            scale[1].as_str().unwrap().parse().unwrap(),
                        ],
                    }
                })
                .collect(),
            samplers: items(pass, "samplers")
                .iter()
                .map(|sampler| SamplerBinding {
                    binding: number(sampler, "binding"),
                    filter_mode: match sampler.get("filter_mode").and_then(|mode| mode.as_str()) {
                        Some("nearest") => SamplerFilterMode::Nearest,
                        Some("linear") | None => SamplerFilterMode::Linear,
                        Some(other) => panic!("unknown filter mode {other}"),
                    },
                })
                .collect(),
        })
        .collect();
    PipelineSpec {
        id: text(&root, "id"),
        name: text(&root, "name"),
        description: root.get("description").map(|d| d.as_str().unwrap().to_string()),
        passes,
    }
}

#[test]
fn test_raw_pipeline_parsing() {
    let raw_pipeline = spec_from_yaml(SINGLE_PASS);
    assert_eq!(raw_pipeline.id, "test_pipeline");
    assert_eq!(raw_pipeline.name, "Test Pipeline");
    assert_eq!(raw_pipeline.passes.len(), 1);

    let pass = &raw_pipeline.passes[0];
    assert_eq!(pass.id, "pass1");
    assert_eq!(pass.file, "pass1.wgsl");
    assert_eq!(pass.inputs.len(), 1);
    assert_eq!(pass.outputs.len(), 1);

    let output = &pass.outputs[0];
    assert_eq!(output.scale_factor[0], ScaleFactor::new(2, 1));
    assert_eq!(output.scale_factor[1], ScaleFactor::new(2, 1));
}

#[test]
fn test_validation() {
    let raw = spec_from_yaml(SINGLE_PASS);
    assert!(raw.validate().is_ok());
}

#[test]
fn test_executable_pipeline_creation() {
    let load_shader_file = |file: &str| -> Result<String, std::io::Error> {
        Ok(format!("Shader content for {file}"))
    };
    let executable = ExecutablePipeline::from_raw(spec_from_yaml(SINGLE_PASS), load_shader_file).unwrap();
    assert_eq!(executable.id, "test_pipeline");
    assert_eq!(executable.name, "Test Pipeline");
    assert_eq!(executable.passes.len(), 1);

    // Should have SOURCE texture (u32::MAX) and one regular texture (0)
    assert_eq!(executable.physical_textures.len(), 2);

    let source_texture = executable.physical_textures.iter().find(|t| t.is_source).unwrap();
    assert_eq!(source_texture.id, u32::MAX);

    let result_texture = executable.physical_textures.iter().find(|t| !t.is_source).unwrap();
    assert_eq!(result_texture.components, 4);
    assert_eq!(result_texture.scale_factor, (ScaleFactor::new(2, 1), ScaleFactor::new(2, 1)));
}

fn input(id: &str, binding: u32) -> TextureBindingSpec {
    TextureBindingSpec { id: id.to_string(), binding }
}

fn output(id: &str, binding: u32) -> TextureOutput {
    TextureOutput {
        id: id.to_string(),
        binding,
        components: 4,
        scale_factor: [ScaleFactor::new(1, 1), ScaleFactor::new(1, 1)],
    }
}

fn pass(id: &str, inputs: Vec<TextureBindingSpec>, outputs: Vec<TextureOutput>) -> Pass {
    Pass { id: id.to_string(), file: format!("{id}.wgsl"), inputs, outputs, samplers: Vec::new() }
}

fn manifest(passes: Vec<Pass>) -> PipelineSpec {
    PipelineSpec { id: "p".to_string(), name: "P".to_string(), description: None, passes }
}

fn two_passes() -> PipelineSpec {
    manifest(vec![
        pass("a", vec![input("SOURCE", 0)], vec![output("TEMP", 1)]),
        pass("b", vec![input("TEMP", 0), input("SOURCE", 1)], vec![output("RESULT", 2)]),
    ])
}

#[test]
fn result_in_the_last_pass_is_valid() {
    assert!(two_passes().validate().is_ok());
}

#[test]
fn result_in_an_earlier_pass_is_misplaced() {
    let spec = manifest(vec![
        pass("a", vec![input("SOURCE", 0)], vec![output("RESULT", 1)]),
        pass("b", vec![input("RESULT", 0), input("SOURCE", 1)], vec![output("TEMP", 2)]),
    ]);
    let error = spec.validate().unwrap_err();
    assert!(matches!(error, PipelineValidationError::ResultNotInLastPass(0)));
    assert_eq!(
        error.to_string(),
        "RESULT output found in pass 0 but must only be in the last pass"
    );
}

#[test]
fn empty_fields_are_reported_first() {
    let mut spec = two_passes();
    spec.id = String::new();
    spec.name = String::new();
    let error = spec.validate().unwrap_err();
    assert!(matches!(error, PipelineValidationError::EmptyId));
    assert_eq!(error.to_string(), "Pipeline ID cannot be empty");
    let mut spec = two_passes();
    spec.name = String::new();
    let error = spec.validate().unwrap_err();
    assert!(matches!(error, PipelineValidationError::EmptyName));
    assert_eq!(error.to_string(), "Pipeline name cannot be empty");
    let error = manifest(Vec::new()).validate().unwrap_err();
    assert!(matches!(error, PipelineValidationError::NoPasses));
    assert_eq!(error.to_string(), "Pipeline must have at least one pass");
}

#[test]
fn passes_need_inputs_and_outputs() {
    let spec = manifest(vec![
        pass("a", vec![input("SOURCE", 0)], vec![output("TEMP", 1)]),
        pass("b", Vec::new(), Vec::new()),
    ]);
    let error = spec.validate().unwrap_err();
    assert!(matches!(error, PipelineValidationError::PassMissingInputs(1)));
    assert_eq!(error.to_string(), "Pass 1 is missing inputs");
    let spec = manifest(vec![pass("a", vec![input("SOURCE", 0)], Vec::new())]);
    let error = spec.validate().unwrap_err();
    assert!(matches!(error, PipelineValidationError::PassMissingOutputs(0)));
    assert_eq!(error.to_string(), "Pass 0 is missing outputs");
}

#[test]
fn binding_points_are_used_once_per_pass() {
    let mut spec = two_passes();
    spec.passes[1].samplers.push(SamplerBinding { binding: 1, filter_mode: SamplerFilterMode::Linear });
    let error = spec.validate().unwrap_err();
    assert!(matches!(error, PipelineValidationError::DuplicateBinding(1, 1)));
    assert_eq!(error.to_string(), "Duplicate binding 1 in pass 1");
    let spec = manifest(vec![pass("a", vec![input("SOURCE", 3)], vec![output("RESULT", 3)])]);
    assert!(matches!(spec.validate(), Err(PipelineValidationError::DuplicateBinding(0, 3))));
    let mut spec = two_passes();
    spec.passes[1].samplers.push(SamplerBinding { binding: 7, filter_mode: SamplerFilterMode::Nearest });
    assert!(spec.validate().is_ok());
}

#[test]
fn textures_are_written_once() {
    let spec = manifest(vec![
        pass("a", vec![input("SOURCE", 0)], vec![output("TEMP", 1)]),
        pass("b", vec![input("TEMP", 0)], vec![output("TEMP", 1)]),
    ]);
    let error = spec.validate().unwrap_err();
    match &error {
        PipelineValidationError::TextureOverwritten(1, id) => assert_eq!(id, "TEMP"),
        other => panic!("unexpected error {other:?}"),
    }
    assert_eq!(error.to_string(), "Texture 'TEMP' is being overwritten in pass 1");
    let spec = manifest(vec![pass("a", vec![input("SOURCE", 0)], vec![output("SOURCE", 1)])]);
    assert!(matches!(spec.validate(), Err(PipelineValidationError::TextureOverwritten(0, _))));
    let spec = manifest(vec![pass(
        "a",
        vec![input("SOURCE", 0)],
        vec![output("X", 1), output("X", 2)],
    )]);
    assert!(matches!(spec.validate(), Err(PipelineValidationError::TextureOverwritten(0, _))));
}

#[test]
fn inputs_come_from_earlier_passes() {
    let spec = manifest(vec![
        pass("a", vec![input("SOURCE", 0), input("LATER", 1)], vec![output("TEMP", 2)]),
        pass("b", vec![input("TEMP", 0)], vec![output("LATER", 1)]),
    ]);
    let error = spec.validate().unwrap_err();
    match &error {
        PipelineValidationError::InputTextureNotFound(0, id) => assert_eq!(id, "LATER"),
        other => panic!("unexpected error {other:?}"),
    }
    assert_eq!(
        error.to_string(),
        "Input texture 'LATER' in pass 0 was not created by any previous pass or is not SOURCE"
    );
    let spec = manifest(vec![pass("a", vec![input("OWN", 0)], vec![output("OWN", 1)])]);
    assert!(matches!(spec.validate(), Err(PipelineValidationError::InputTextureNotFound(0, _))));
}

#[test]
fn earlier_rules_win_over_later_ones() {
    let spec = manifest(vec![
        pass("a", vec![input("MISSING", 0)], vec![output("RESULT", 0)]),
        pass("b", vec![input("SOURCE", 0)], vec![output("RESULT", 1)]),
    ]);
    assert!(matches!(spec.validate(), Err(PipelineValidationError::DuplicateBinding(0, 0))));
}

fn loader(file: &str) -> Result<String, std::io::Error> {
    if file == "missing.wgsl" {
        Err(std::io::Error::new(std::io::ErrorKind::NotFound, "no such shader"))
    } else {
        Ok(format!("// {file}"))
    }
}

#[test]
fn compile_resolves_bindings_and_reuses_textures() {
    let mut spec = manifest(vec![
        pass("a", vec![input("SOURCE", 0)], vec![output("T1", 1)]),
        pass("b", vec![input("T1", 0)], vec![output("T2", 1)]),
        pass("c", vec![input("T2", 0), input("SOURCE", 1)], vec![output("RESULT", 2)]),
    ]);
    spec.description = Some("three passes".to_string());
    spec.passes[0].outputs[0].components = 2;
    spec.passes[1].outputs[0].scale_factor = [ScaleFactor::new(2, 1), ScaleFactor::new(3, 1)];
    spec.passes[1].samplers.push(SamplerBinding { binding: 9, filter_mode: SamplerFilterMode::Nearest });
    spec.passes[2].samplers.push(SamplerBinding { binding: 8, filter_mode: SamplerFilterMode::Linear });
    spec.passes[2].samplers.push(SamplerBinding { binding: 9, filter_mode: SamplerFilterMode::Nearest });
    let pipeline = spec.compile(loader).unwrap();
    assert_eq!(pipeline.id, "p");
    assert_eq!(pipeline.name, "P");
    assert_eq!(pipeline.description.as_deref(), Some("three passes"));
    // T1 [0,1], T2 [1,2], RESULT [2,2]: RESULT follows T1 but differs in components
    let ids: Vec<u32> = pipeline.physical_textures.iter().map(|t| t.id).collect();
    assert_eq!(ids, vec![u32::MAX, 0, 1, 2]);
    assert_eq!(pipeline.physical_textures[1].components, 2);
    assert_eq!(
        pipeline.physical_textures[2].scale_factor,
        (ScaleFactor::new(2, 1), ScaleFactor::new(3, 1))
    );
    assert_eq!(pipeline.required_samplers, vec![SamplerFilterMode::Nearest, SamplerFilterMode::Linear]);
    assert_eq!(pipeline.passes.len(), 3);
    let second = &pipeline.passes[1];
    assert_eq!(second.id, "b");
    assert_eq!(second.shader, "// b.wgsl");
    assert_eq!(second.compute_scale_factors, (ScaleFactor::new(2, 1), ScaleFactor::new(3, 1)));
    assert_eq!(second.input_textures.len(), 1);
    assert_eq!(second.input_textures[0].logical_id, "T1");
    assert_eq!(second.input_textures[0].physical_id, 0);
    assert_eq!(second.input_textures[0].binding, 0);
    assert_eq!(second.input_textures[0].components, 2);
    assert_eq!(second.output_textures[0].logical_id, "T2");
    assert_eq!(second.output_textures[0].physical_id, 1);
    assert_eq!(second.samplers.len(), 1);
    let third = &pipeline.passes[2];
    assert_eq!(third.input_textures[1].logical_id, "SOURCE");
    assert_eq!(third.input_textures[1].physical_id, u32::MAX);
    assert_eq!(third.input_textures[1].components, 4);
    assert_eq!(
        third.input_textures[1].scale_factor,
        (ScaleFactor::new(1, 1), ScaleFactor::new(1, 1))
    );
    assert_eq!(
        third.input_textures[0].scale_factor,
        (ScaleFactor::new(2, 1), ScaleFactor::new(3, 1))
    );
    assert_eq!(pipeline.get_source_texture_id(), Some(u32::MAX));
    assert_eq!(pipeline.get_result_texture_id(), Some(2));
    assert_eq!(
        pipeline.get_final_scale_factor(),
        Some((ScaleFactor::new(1, 1), ScaleFactor::new(1, 1)))
    );
}

#[test]
fn compile_reuses_a_texture_after_its_last_use() {
    let spec = manifest(vec![
        pass("a", vec![input("SOURCE", 0)], vec![output("T1", 1)]),
        pass("b", vec![input("T1", 0)], vec![output("T2", 1)]),
        pass("c", vec![input("T2", 0)], vec![output("RESULT", 1)]),
    ]);
    let pipeline = spec.compile(loader).unwrap();
    assert_eq!(pipeline.physical_textures.len(), 3);
    assert_eq!(pipeline.passes[0].output_textures[0].physical_id, 0);
    assert_eq!(pipeline.passes[1].output_textures[0].physical_id, 1);
    assert_eq!(pipeline.passes[2].output_textures[0].physical_id, 0);
    assert_eq!(pipeline.get_result_texture_id(), Some(0));
}

#[test]
fn pipeline_without_result_has_no_result_texture() {
    let spec = manifest(vec![pass("a", vec![input("SOURCE", 0)], vec![output("T1", 1)])]);
    let pipeline = spec.compile(loader).unwrap();
    assert_eq!(pipeline.get_result_texture_id(), None);
    assert_eq!(pipeline.get_final_scale_factor(), None);
    let empty = manifest(Vec::new()).compile(loader).unwrap();
    assert_eq!(empty.physical_textures.len(), 1);
    assert_eq!(empty.get_result_texture_id(), None);
    assert_eq!(empty.get_source_texture_id(), Some(u32::MAX));
}

#[test]
fn loader_failure_names_pass_and_file() {
    let mut spec = two_passes();
    spec.passes[1].file = "missing.wgsl".to_string();
    match spec.compile(loader).unwrap_err() {
        CompileError::ShaderLoad { pass_index, pass_id, file, cause } => {
            assert_eq!(pass_index, 1);
            assert_eq!(pass_id, "b");
            assert_eq!(file, "missing.wgsl");
            assert_eq!(cause.kind(), std::io::ErrorKind::NotFound);
        }
        other => panic!("unexpected error {other:?}"),
    }
}

#[test]
fn unknown_input_texture_stops_the_compilation() {
    let spec = manifest(vec![pass("a", vec![input("NOWHERE", 0)], vec![output("RESULT", 1)])]);
    match spec.compile(loader).unwrap_err() {
        CompileError::UnknownTexture(0, id) => assert_eq!(id, "NOWHERE"),
        other => panic!("unexpected error {other:?}"),
    }
}

#[test]
fn pass_without_outputs_stops_the_compilation() {
    let spec = manifest(vec![pass("a", vec![input("SOURCE", 0)], Vec::new())]);
    assert!(matches!(spec.compile(loader), Err(CompileError::PassMissingOutputs(0))));
}
