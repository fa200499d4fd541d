use anime4k_build::pipelines::{
    Pass, PipelineCompiler, PipelineSpec, ScaleFactor, TextureBindingSpec, TextureOutput,
};

fn pass(inputs: &[&str], outputs: &[&str]) -> Pass {
    Pass {
        id: "pass".to_string(),
        file: "pass.wgsl".to_string(),
        inputs: inputs
            .iter()
            .enumerate()
            .map(|(k, id)| TextureBindingSpec { id: id.to_string(), binding: k as u32 })
            .collect(),
        outputs: outputs
            .iter()
            .enumerate()
            .map(|(k, id)| TextureOutput {
                id: id.to_string(),
                binding: 10 + k as u32,
                components: 1 + k as u32,
                scale_factor: [ScaleFactor::new(3, 1), ScaleFactor::new(1, 2)],
            })
            .collect(),
        samplers: Vec::new(),
    }
}

fn compiler(passes: Vec<Pass>) -> PipelineCompiler {
    PipelineCompiler::new(PipelineSpec {
        id: "id".to_string(),
        name: "name".to_string(),
        description: None,
        passes,
    })
}

#[test]
fn lifetimes_run_from_creation_to_last_read() {
    let compiler = compiler(vec![
        pass(&["SOURCE"], &["A", "B"]),
        pass(&["A"], &["C"]),
        pass(&["B", "A"], &["SOURCE", "D"]),
        pass(&["C"], &["RESULT"]),
    ]);
    let lifetimes = compiler.collect_texture_lifetimes();
    let found: Vec<(&str, usize, usize)> = lifetimes
        .iter()
        .map(|l| (l.logical_id.as_str(), l.created_at, l.last_used_at))
        .collect();
    assert_eq!(
        found,
        vec![("A", 0, 2), ("B", 0, 2), ("C", 1, 3), ("D", 2, 2), ("RESULT", 3, 3)]
    );
    assert_eq!(lifetimes[1].components, 2);
    assert_eq!(lifetimes[0].scale_factor, (ScaleFactor::new(3, 1), ScaleFactor::new(1, 2)));
}

#[test]
fn a_read_in_the_creating_pass_does_not_count() {
    let compiler = compiler(vec![pass(&["A"], &["A"]), pass(&["SOURCE"], &["B"])]);
    let lifetimes = compiler.collect_texture_lifetimes();
    assert_eq!((lifetimes[0].created_at, lifetimes[0].last_used_at), (0, 0));
}

#[test]
fn texture_info_comes_from_the_first_output_of_that_name() {
    let compiler = compiler(vec![pass(&["SOURCE"], &["A", "B"]), pass(&["A"], &["B"])]);
    let unity = (ScaleFactor::new(1, 1), ScaleFactor::new(1, 1));
    let scaled = (ScaleFactor::new(3, 1), ScaleFactor::new(1, 2));
    assert_eq!(compiler.find_physical_texture_info("SOURCE"), (4, unity));
    assert_eq!(compiler.find_physical_texture_info("A"), (1, scaled));
    assert_eq!(compiler.find_physical_texture_info("B"), (2, scaled));
    assert_eq!(compiler.find_physical_texture_info("nowhere"), (4, unity));
}
