use anime4k_build::presets::{Anime4KPerformancePreset, Anime4KPreset};

#[test]
fn presets_have_names() {
    assert_eq!(Anime4KPreset::Off.name(), "OFF");
    assert_eq!(Anime4KPreset::ModeA.name(), "Mode A");
    assert_eq!(Anime4KPreset::ModeAA.name(), "Mode AA");
    assert_eq!(Anime4KPreset::ModeB.name(), "Mode B");
    assert_eq!(Anime4KPreset::ModeBB.name(), "Mode BB");
    assert_eq!(Anime4KPreset::ModeC.name(), "Mode C");
    assert_eq!(Anime4KPreset::ModeCA.name(), "Mode CA");
    assert_eq!(Anime4KPerformancePreset::Light.name(), "Light");
    assert_eq!(Anime4KPerformancePreset::Medium.name(), "Medium");
    assert_eq!(Anime4KPerformancePreset::High.name(), "High");
    assert_eq!(Anime4KPerformancePreset::Ultra.name(), "Ultra");
    assert_eq!(Anime4KPerformancePreset::Extreme.name(), "Extreme");
}

#[test]
fn later_passes_use_smaller_networks() {
    let light = Anime4KPerformancePreset::Light;
    let ultra = Anime4KPerformancePreset::Ultra;
    let extreme = Anime4KPerformancePreset::Extreme;
    assert_eq!(light.for_initial_restore(), "RESTORE_CNN_S");
    assert_eq!(light.for_subsequent_restore(), "RESTORE_CNN_S");
    assert_eq!(ultra.for_initial_restore(), "RESTORE_CNN_VL");
    assert_eq!(ultra.for_subsequent_restore(), "RESTORE_CNN_L");
    assert_eq!(extreme.for_initial_restore_soft(), "RESTORE_SOFT_CNN_UL");
    assert_eq!(extreme.for_subsequent_restore_soft(), "RESTORE_SOFT_CNN_L");
    assert_eq!(Anime4KPerformancePreset::High.for_subsequent_upscale_2x(), "UPSCALE_CNN_X2_M");
    assert_eq!(Anime4KPerformancePreset::Medium.for_initial_upscale_2x(), "UPSCALE_CNN_X2_M");
    assert_eq!(
        Anime4KPerformancePreset::Medium.for_initial_upscale_denoise_2x(),
        "UPSCALE_DENOISE_CNN_X2_M"
    );
}

#[test]
fn presets_list_their_pipelines() {
    let high = Anime4KPerformancePreset::High;
    assert!(Anime4KPreset::Off.create_pipelines(high, 3).is_empty());
    assert_eq!(
        Anime4KPreset::ModeA.create_pipelines(high, 0),
        vec!["CLAMP_HIGHLIGHTS", "RESTORE_CNN_L", "UPSCALE_CNN_X2_L"]
    );
    assert_eq!(
        Anime4KPreset::ModeBB.create_pipelines(high, 0),
        vec!["CLAMP_HIGHLIGHTS", "RESTORE_SOFT_CNN_L", "UPSCALE_CNN_X2_L", "RESTORE_SOFT_CNN_M"]
    );
    assert_eq!(
        Anime4KPreset::ModeC.create_pipelines(high, 2),
        vec!["CLAMP_HIGHLIGHTS", "UPSCALE_DENOISE_CNN_X2_L", "UPSCALE_CNN_X2_M", "UPSCALE_CNN_X2_M"]
    );
    assert_eq!(
        Anime4KPreset::ModeCA.create_pipelines(Anime4KPerformancePreset::Light, 1),
        vec!["CLAMP_HIGHLIGHTS", "UPSCALE_DENOISE_CNN_X2_S", "RESTORE_CNN_S", "UPSCALE_CNN_X2_S"]
    );
    assert_eq!(Anime4KPreset::ModeAA.create_pipelines(high, 0).len(), 4);
    assert_eq!(Anime4KPreset::ModeB.create_pipelines(high, 0)[1], "RESTORE_SOFT_CNN_L");
}
