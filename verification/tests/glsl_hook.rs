use anime4k_build::compare::{compare_outcome, CompareResult};
use anime4k_build::glsl_hook::{calculate_workgroup_count, MpvHook};

#[test]
fn hooks_keep_their_directives_as_written() {
    let source = "// license\nfloat before;\n//!DESC  First pass \n//!HOOK MAIN\n//!BIND HOOKED\n//!BIND MAIN\n//!SAVE LINELUMA\n//!WIDTH MAIN.w 2 /\n//!HEIGHT MAIN.h\n//!COMPONENTS 1\n//!WHEN OUTPUT.w MAIN.w / 1.2 >\n\n// a comment\n//!CUSTOM kept\nvec4 hook() {\n    return vec4(1.0);\n}\n\n//!DESC Second\n//!COMPONENTS many\nvec4 hook() { return vec4(0.0); }\n";
    let hooks = MpvHook::parse_from_glsl(source);
    assert_eq!(hooks.len(), 2);
    let first = &hooks[0];
    assert_eq!(first.desc, "First pass");
    assert_eq!(first.hook, "MAIN");
    assert_eq!(first.bind, vec!["HOOKED", "MAIN"]);
    assert_eq!(first.save.as_deref(), Some("LINELUMA"));
    assert_eq!(first.width.as_deref(), Some("MAIN.w 2 /"));
    assert_eq!(first.height.as_deref(), Some("MAIN.h"));
    assert_eq!(first.components, Some(1));
    assert_eq!(first.when.as_deref(), Some("OUTPUT.w MAIN.w / 1.2 >"));
    assert_eq!(first.glsl_code, "//!CUSTOM kept\nvec4 hook() {\n    return vec4(1.0);\n}");
    let second = &hooks[1];
    assert_eq!(second.desc, "Second");
    assert_eq!(second.hook, "");
    assert!(second.bind.is_empty());
    assert_eq!(second.save, None);
    assert_eq!(second.components, None);
    assert_eq!(second.glsl_code, "vec4 hook() { return vec4(0.0); }");
}

#[test]
fn a_source_without_desc_has_no_hooks() {
    assert!(MpvHook::parse_from_glsl("").is_empty());
    assert!(MpvHook::parse_from_glsl("//!HOOK MAIN\nvec4 hook() {}\n").is_empty());
}

#[test]
fn a_later_directive_replaces_an_earlier_one() {
    let hooks = MpvHook::parse_from_glsl("//!DESC a\n//!SAVE x\n//!SAVE y\n//!COMPONENTS 4\n//!COMPONENTS +2\n");
    assert_eq!(hooks[0].save.as_deref(), Some("y"));
    assert_eq!(hooks[0].components, Some(2));
    assert_eq!(hooks[0].glsl_code, "");
}

#[test]
fn workgroups_cover_the_size() {
    assert_eq!(calculate_workgroup_count(0, 8), 0);
    assert_eq!(calculate_workgroup_count(1, 8), 1);
    assert_eq!(calculate_workgroup_count(8, 8), 1);
    assert_eq!(calculate_workgroup_count(9, 8), 2);
    assert_eq!(calculate_workgroup_count(1920, 8), 240);
    assert_eq!(calculate_workgroup_count(1081, 8), 136);
    assert_eq!(calculate_workgroup_count(u32::MAX, 1), u32::MAX);
    assert_eq!(calculate_workgroup_count(u32::MAX, 2), 2147483648);
    assert_eq!(calculate_workgroup_count(5, u32::MAX), 1);
    for (size, group) in [(7u32, 3u32), (100, 7), (64, 64), (65, 64)] {
        assert_eq!(calculate_workgroup_count(size, group), size.div_ceil(group));
    }
}

#[test]
fn comparison_outcomes() {
    assert_eq!(compare_outcome((2, 3), (2, 3), [true; 4]), CompareResult::Match);
    assert_eq!(
        compare_outcome((2, 3), (3, 2), [true; 4]),
        CompareResult::DimensionMismatch { glsl_dimensions: (2, 3), wgsl_dimensions: (3, 2) }
    );
    assert_eq!(
        compare_outcome((2, 3), (2, 4), [false; 4]),
        CompareResult::DimensionMismatch { glsl_dimensions: (2, 3), wgsl_dimensions: (2, 4) }
    );
    assert_eq!(
        compare_outcome((1, 1), (1, 1), [true, false, true, true]),
        CompareResult::PixelMismatch {
            r_matched: true,
            g_matched: false,
            b_matched: true,
            a_matched: true
        }
    );
}
