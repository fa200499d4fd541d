use anime4k_build::cnn::{ConvolutionStageType, HookError, MpvHook};

const TWO_HOOKS: &str = "// header comment\n//!DESC Test-Conv-4x3x3x3\n//!HOOK MAIN\n//!BIND MAIN\n//!SAVE conv2d_tf\n//!WIDTH MAIN.w\n//!HEIGHT MAIN.h\n//!COMPONENTS 4\nvec4 hook() {\n}\n//!DESC Test-Depth-to-Space\n//!HOOK MAIN\n//!BIND MAIN\n//!BIND conv2d_tf\n//!SAVE MAIN\n//!WIDTH conv2d_tf.w 2 *\n//!HEIGHT conv2d_tf.h 2 *\nvec4 hook() {\n    return vec4(0.0);\n}";

#[test]
fn splits_source_at_desc_lines() {
    let hooks = MpvHook::parse_mpv_hooks(TWO_HOOKS);
    assert_eq!(hooks.len(), 2);
    assert_eq!(
        hooks[0],
        "//!DESC Test-Conv-4x3x3x3\n//!HOOK MAIN\n//!BIND MAIN\n//!SAVE conv2d_tf\n//!WIDTH MAIN.w\n//!HEIGHT MAIN.h\n//!COMPONENTS 4\nvec4 hook() {\n}\n"
    );
    assert_eq!(
        hooks[1],
        "//!DESC Test-Depth-to-Space\n//!HOOK MAIN\n//!BIND MAIN\n//!BIND conv2d_tf\n//!SAVE MAIN\n//!WIDTH conv2d_tf.w 2 *\n//!HEIGHT conv2d_tf.h 2 *\nvec4 hook() {\n    return vec4(0.0);\n}\n"
    );
}

#[test]
fn split_keeps_nothing_before_the_first_hook() {
    assert!(MpvHook::parse_mpv_hooks("").is_empty());
    assert!(MpvHook::parse_mpv_hooks("vec4 hook() {\n}\n").is_empty());
    let hooks = MpvHook::parse_mpv_hooks("junk\r\n//!DESC a\r\nbody\r\n");
    assert_eq!(hooks, vec!["//!DESC a\nbody\n".to_string()]);
}

#[test]
fn split_needs_the_space_after_desc() {
    assert!(MpvHook::parse_mpv_hooks("//!DESC\nbody\n").is_empty());
}

#[test]
fn base_scale_map_holds_three_names() {
    let map = MpvHook::new_scale_factor_map();
    assert_eq!(map.len(), 3);
    assert_eq!(map.get("MAIN"), Some(&1));
    assert_eq!(map.get("HOOKED"), Some(&1));
    assert_eq!(map.get("source"), Some(&1));
    assert_eq!(map.get("dest"), None);
}

#[test]
fn width_and_height_times_two_give_scale_two() {
    let source = "//!DESC Upscale-Conv-4x3x3x3\n//!HOOK MAIN\n//!BIND MAIN\n//!SAVE conv2d_tf\n//!WIDTH MAIN.w 2 *\n//!HEIGHT MAIN.h 2 *\n//!COMPONENTS 4\nvec4 hook() {\n}\n";
    let mut map = MpvHook::new_scale_factor_map();
    let hook = MpvHook::new(source, &mut map).unwrap();
    assert_eq!(hook.scale_factor, 2);
    assert_eq!(hook.output, "conv2d_tf");
    assert_eq!(map.get("conv2d_tf"), Some(&2));
    assert_eq!(map.len(), 4);
}

#[test]
fn hook_fields_are_read_from_directives() {
    let source = "//!DESC  Layer-Conv-1  \n//!HOOK MAIN\n//!BIND MAIN\n//!BIND HOOKED\n//!SAVE MAIN\n//!WIDTH MAIN.w\n//!WHEN OUTPUT.w MAIN.w / 1.2 >\n//!COMPONENTS 4\n\nvec4 hook() {\n  // c\n}\n";
    let mut map = MpvHook::new_scale_factor_map();
    let hook = MpvHook::new(source, &mut map).unwrap();
    assert_eq!(hook.name, "Layer-Conv-1");
    assert_eq!(hook.scale_factor, 1);
    assert_eq!(hook.inputs, vec!["source".to_string(), "HOOKED".to_string()]);
    assert_eq!(hook.output, "dest");
    assert_eq!(hook.stage, ConvolutionStageType::Conv);
    assert!(hook.needs_bound);
    assert!(!hook.needs_sampler);
    assert_eq!(hook.code, "\nvec4 hook() {\n  // c\n}\n");
    assert_eq!(map.get("dest"), Some(&1));
}

#[test]
fn inputs_of_another_scale_need_a_sampler() {
    let mut map = MpvHook::new_scale_factor_map();
    let first = "//!DESC A-Conv-1\n//!BIND MAIN\n//!SAVE big\n//!WIDTH MAIN.w 2 *\n";
    let hook = MpvHook::new(first, &mut map).unwrap();
    assert!(hook.needs_sampler);
    assert!(!hook.needs_bound);
    let second = "//!DESC B-Depth-to-Space\n//!BIND MAIN\n//!BIND big\n//!SAVE MAIN\n//!HEIGHT big.h\n";
    let hook = MpvHook::new(second, &mut map).unwrap();
    assert_eq!(hook.scale_factor, 2);
    assert_eq!(hook.stage, ConvolutionStageType::DepthToSpace);
    assert!(hook.needs_sampler);
    assert!(hook.needs_bound);
}

fn hook_error(source: &str) -> HookError {
    let mut map = MpvHook::new_scale_factor_map();
    let before = map.len();
    let error = MpvHook::new(source, &mut map).unwrap_err();
    assert_eq!(map.len(), before);
    error
}

#[test]
fn malformed_scale_line_is_an_error() {
    let error = hook_error("//!DESC A-Conv-1\n//!BIND MAIN\n//!SAVE x\n//!WIDTH MAIN.w 2 /\n");
    assert!(matches!(error, HookError::InvalidScaleLine));
    assert_eq!(error.to_string(), "Invalid scale factor line");
    let error = hook_error("//!DESC A-Conv-1\n//!WIDTH MAIN.w 99999999999 *\n");
    assert!(matches!(error, HookError::InvalidScaleLine));
}

#[test]
fn unknown_base_texture_is_an_error() {
    let error = hook_error("//!DESC A-Conv-1\n//!BIND MAIN\n//!SAVE x\n//!WIDTH other.w 2 *\n");
    assert!(matches!(error, HookError::UnknownBaseTexture));
    assert_eq!(error.to_string(), "Unknown base texture name");
}

#[test]
fn width_and_height_must_agree() {
    let error = hook_error("//!DESC A-Conv-1\n//!WIDTH MAIN.w 2 *\n//!HEIGHT MAIN.h 3 *\n");
    assert!(matches!(error, HookError::InconsistentScale));
    assert_eq!(error.to_string(), "Inconsistent scale factors");
}

#[test]
fn scale_factor_must_fit() {
    let mut map = MpvHook::new_scale_factor_map();
    let first = "//!DESC A-Conv-1\n//!BIND MAIN\n//!SAVE big\n//!WIDTH MAIN.w 65536 *\n";
    MpvHook::new(first, &mut map).unwrap();
    let second = "//!DESC B-Conv-1\n//!BIND MAIN\n//!SAVE bigger\n//!WIDTH big.w 65536 *\n";
    let error = MpvHook::new(second, &mut map).unwrap_err();
    assert!(matches!(error, HookError::ScaleOverflow));
}

#[test]
fn only_main_can_be_hooked() {
    let error = hook_error("//!DESC A-Conv-1\n//!HOOK LUMA\n");
    assert!(matches!(error, HookError::UnsupportedHook));
    assert_eq!(error.to_string(), "Unsupported hook type");
}

#[test]
fn only_four_components_are_supported() {
    let error = hook_error("//!DESC A-Conv-1\n//!COMPONENTS 3\n");
    assert!(matches!(error, HookError::UnsupportedComponents));
    assert_eq!(error.to_string(), "Unsupported number of components");
}

#[test]
fn description_must_name_the_stage_kind() {
    let error = hook_error("//!DESC Plain\n//!BIND MAIN\n//!SAVE x\n//!WIDTH MAIN.w\n");
    assert!(matches!(error, HookError::UnknownHookType));
    assert_eq!(error.to_string(), "Unknown hook type");
    let error = hook_error("//!BIND MAIN\n//!SAVE x\n//!WIDTH MAIN.w\n");
    assert!(matches!(error, HookError::UnknownHookType));
}

#[test]
fn missing_directives_are_errors() {
    let error = hook_error("//!DESC A-Conv-1\n//!SAVE x\n//!WIDTH MAIN.w\n");
    assert!(matches!(error, HookError::NoInputs));
    assert_eq!(error.to_string(), "No inputs specified");
    let error = hook_error("//!DESC A-Conv-1\n//!BIND MAIN\n//!WIDTH MAIN.w\n");
    assert!(matches!(error, HookError::NoOutput));
    assert_eq!(error.to_string(), "No output specified");
    let error = hook_error("//!DESC A-Conv-1\n//!BIND MAIN\n//!SAVE x\n");
    assert!(matches!(error, HookError::NoScaleFactor));
    assert_eq!(error.to_string(), "No scale factor specified");
    let error = hook_error("//!DESC A-Conv-1\n//!BIND MAIN\n//!SAVE x\n//!WIDTH MAIN.w 0 *\n");
    assert!(matches!(error, HookError::NoScaleFactor));
}

#[test]
fn unknown_input_is_named() {
    let error = hook_error("//!DESC A-Conv-1\n//!BIND MAIN\n//!BIND later\n//!SAVE x\n//!WIDTH MAIN.w\n");
    match &error {
        HookError::UnknownInput(name) => assert_eq!(name, "later"),
        other => panic!("unexpected error {other:?}"),
    }
    assert_eq!(error.to_string(), "Unknown input texture: later");
}

#[test]
fn a_later_hook_cannot_be_used_earlier() {
    let mut map = MpvHook::new_scale_factor_map();
    let second = "//!DESC B-Conv-1\n//!BIND first\n//!SAVE second\n//!WIDTH MAIN.w\n";
    assert!(MpvHook::new(second, &mut map).is_err());
    let first = "//!DESC A-Conv-1\n//!BIND MAIN\n//!SAVE first\n//!WIDTH MAIN.w\n";
    assert!(MpvHook::new(first, &mut map).is_ok());
    assert!(MpvHook::new(second, &mut map).is_ok());
}
