//! Quality and performance presets.
//!
//! A preset names the pipelines that are run one after another; the
//! performance preset picks the size of the network behind each of them.
//! Pipelines are named as in the list of predefined pipelines.

use vstd::prelude::*;

verus! {

/// How much computation a preset may spend: the size of its networks.
#[derive(Debug, Clone, Copy, PartialEq, Eq, Structural)]
pub enum Anime4KPerformancePreset {
    /// Smallest networks
    Light,
    /// Balanced
    Medium,
    /// Larger networks
    High,
    /// Very large networks
    Ultra,
    /// Largest networks
    Extreme,
}

/// What a preset does to the picture.
#[derive(Debug, Clone, Copy, PartialEq, Eq, Structural)]
pub enum Anime4KPreset {
    /// No processing
    Off,
    /// Restore, then upscale
    ModeA,
    /// Mode A, then restore again
    ModeAA,
    /// Restore softly, then upscale
    ModeB,
    /// Mode B, then restore softly again
    ModeBB,
    /// Upscale and denoise in one
    ModeC,
    /// Mode C, then restore
    ModeCA,
}

/// The restore pipeline of the first pass, by name.
pub open spec fn initial_restore_name(size: Anime4KPerformancePreset) -> Seq<char> {
    match size {
        Anime4KPerformancePreset::Light => "RESTORE_CNN_S"@,
        Anime4KPerformancePreset::Medium => "RESTORE_CNN_M"@,
        Anime4KPerformancePreset::High => "RESTORE_CNN_L"@,
        Anime4KPerformancePreset::Ultra => "RESTORE_CNN_VL"@,
        Anime4KPerformancePreset::Extreme => "RESTORE_CNN_UL"@,
    }
}

/// The soft restore pipeline of the first pass, by name.
pub open spec fn initial_restore_soft_name(size: Anime4KPerformancePreset) -> Seq<char> {
    match size {
        Anime4KPerformancePreset::Light => "RESTORE_SOFT_CNN_S"@,
        Anime4KPerformancePreset::Medium => "RESTORE_SOFT_CNN_M"@,
        Anime4KPerformancePreset::High => "RESTORE_SOFT_CNN_L"@,
        Anime4KPerformancePreset::Ultra => "RESTORE_SOFT_CNN_VL"@,
        Anime4KPerformancePreset::Extreme => "RESTORE_SOFT_CNN_UL"@,
    }
}

/// The pipeline that upscales and denoises in the first pass, by name.
pub open spec fn initial_upscale_denoise_name(size: Anime4KPerformancePreset) -> Seq<char> {
    match size {
        Anime4KPerformancePreset::Light => "UPSCALE_DENOISE_CNN_X2_S"@,
        Anime4KPerformancePreset::Medium => "UPSCALE_DENOISE_CNN_X2_M"@,
        Anime4KPerformancePreset::High => "UPSCALE_DENOISE_CNN_X2_L"@,
        Anime4KPerformancePreset::Ultra => "UPSCALE_DENOISE_CNN_X2_VL"@,
        Anime4KPerformancePreset::Extreme => "UPSCALE_DENOISE_CNN_X2_UL"@,
    }
}

/// The restore pipeline of later passes: a size smaller, two sizes from the largest, by name.
pub open spec fn subsequent_restore_name(size: Anime4KPerformancePreset) -> Seq<char> {
    match size {
        Anime4KPerformancePreset::Light => "RESTORE_CNN_S"@,
        Anime4KPerformancePreset::Medium => "RESTORE_CNN_S"@,
        Anime4KPerformancePreset::High => "RESTORE_CNN_M"@,
        Anime4KPerformancePreset::Ultra => "RESTORE_CNN_L"@,
        Anime4KPerformancePreset::Extreme => "RESTORE_CNN_L"@,
    }
}

/// The soft restore pipeline of later passes: a size smaller, two sizes from the largest, by name.
pub open spec fn subsequent_restore_soft_name(size: Anime4KPerformancePreset) -> Seq<char> {
    match size {
        Anime4KPerformancePreset::Light => "RESTORE_SOFT_CNN_S"@,
        Anime4KPerformancePreset::Medium => "RESTORE_SOFT_CNN_S"@,
        Anime4KPerformancePreset::High => "RESTORE_SOFT_CNN_M"@,
        Anime4KPerformancePreset::Ultra => "RESTORE_SOFT_CNN_L"@,
        Anime4KPerformancePreset::Extreme => "RESTORE_SOFT_CNN_L"@,
    }
}

/// The upscale pipeline of the first pass, by name.
pub open spec fn initial_upscale_name(size: Anime4KPerformancePreset) -> Seq<char> {
    match size {
        Anime4KPerformancePreset::Light => "UPSCALE_CNN_X2_S"@,
        Anime4KPerformancePreset::Medium => "UPSCALE_CNN_X2_M"@,
        Anime4KPerformancePreset::High => "UPSCALE_CNN_X2_L"@,
        Anime4KPerformancePreset::Ultra => "UPSCALE_CNN_X2_VL"@,
        Anime4KPerformancePreset::Extreme => "UPSCALE_CNN_X2_UL"@,
    }
}

/// The upscale pipeline of later passes: a size smaller, two sizes from the largest, by name.
pub open spec fn subsequent_upscale_name(size: Anime4KPerformancePreset) -> Seq<char> {
    match size {
        Anime4KPerformancePreset::Light => "UPSCALE_CNN_X2_S"@,
        Anime4KPerformancePreset::Medium => "UPSCALE_CNN_X2_S"@,
        Anime4KPerformancePreset::High => "UPSCALE_CNN_X2_M"@,
        Anime4KPerformancePreset::Ultra => "UPSCALE_CNN_X2_L"@,
        Anime4KPerformancePreset::Extreme => "UPSCALE_CNN_X2_L"@,
    }
}

impl Anime4KPerformancePreset {
    /// The name of this performance preset
    pub fn name(&self) -> (out: &'static str)
        ensures
            out@ == match *self {
                Anime4KPerformancePreset::Light => "Light"@,
                Anime4KPerformancePreset::Medium => "Medium"@,
                Anime4KPerformancePreset::High => "High"@,
                Anime4KPerformancePreset::Ultra => "Ultra"@,
                Anime4KPerformancePreset::Extreme => "Extreme"@,
            },
    {
        match self {
            Anime4KPerformancePreset::Light => "Light",
            Anime4KPerformancePreset::Medium => "Medium",
            Anime4KPerformancePreset::High => "High",
            Anime4KPerformancePreset::Ultra => "Ultra",
            Anime4KPerformancePreset::Extreme => "Extreme",
        }
    }

    /// The restore pipeline of the first pass
    pub fn for_initial_restore(&self) -> (out: &'static str)
        ensures
            out@ == initial_restore_name(*self),
    {
        match self {
            Anime4KPerformancePreset::Light => "RESTORE_CNN_S",
            Anime4KPerformancePreset::Medium => "RESTORE_CNN_M",
            Anime4KPerformancePreset::High => "RESTORE_CNN_L",
            Anime4KPerformancePreset::Ultra => "RESTORE_CNN_VL",
            Anime4KPerformancePreset::Extreme => "RESTORE_CNN_UL",
        }
    }

    /// The soft restore pipeline of the first pass
    pub fn for_initial_restore_soft(&self) -> (out: &'static str)
        ensures
            out@ == initial_restore_soft_name(*self),
    {
        match self {
            Anime4KPerformancePreset::Light => "RESTORE_SOFT_CNN_S",
            Anime4KPerformancePreset::Medium => "RESTORE_SOFT_CNN_M",
            Anime4KPerformancePreset::High => "RESTORE_SOFT_CNN_L",
            Anime4KPerformancePreset::Ultra => "RESTORE_SOFT_CNN_VL",
            Anime4KPerformancePreset::Extreme => "RESTORE_SOFT_CNN_UL",
        }
    }

    /// The pipeline that upscales and denoises in the first pass
    pub fn for_initial_upscale_denoise_2x(&self) -> (out: &'static str)
        ensures
            out@ == initial_upscale_denoise_name(*self),
    {
        match self {
            Anime4KPerformancePreset::Light => "UPSCALE_DENOISE_CNN_X2_S",
            Anime4KPerformancePreset::Medium => "UPSCALE_DENOISE_CNN_X2_M",
            Anime4KPerformancePreset::High => "UPSCALE_DENOISE_CNN_X2_L",
            Anime4KPerformancePreset::Ultra => "UPSCALE_DENOISE_CNN_X2_VL",
            Anime4KPerformancePreset::Extreme => "UPSCALE_DENOISE_CNN_X2_UL",
        }
    }

    /// The restore pipeline of later passes: a size smaller, two sizes from the largest
    pub fn for_subsequent_restore(&self) -> (out: &'static str)
        ensures
            out@ == subsequent_restore_name(*self),
    {
        match self {
            Anime4KPerformancePreset::Light => "RESTORE_CNN_S",
            Anime4KPerformancePreset::Medium => "RESTORE_CNN_S",
            Anime4KPerformancePreset::High => "RESTORE_CNN_M",
            Anime4KPerformancePreset::Ultra => "RESTORE_CNN_L",
            Anime4KPerformancePreset::Extreme => "RESTORE_CNN_L",
        }
    }

    /// The soft restore pipeline of later passes: a size smaller, two sizes from the largest
    pub fn for_subsequent_restore_soft(&self) -> (out: &'static str)
        ensures
            out@ == subsequent_restore_soft_name(*self),
    {
        match self {
            Anime4KPerformancePreset::Light => "RESTORE_SOFT_CNN_S",
            Anime4KPerformancePreset::Medium => "RESTORE_SOFT_CNN_S",
            Anime4KPerformancePreset::High => "RESTORE_SOFT_CNN_M",
            Anime4KPerformancePreset::Ultra => "RESTORE_SOFT_CNN_L",
            Anime4KPerformancePreset::Extreme => "RESTORE_SOFT_CNN_L",
        }
    }

    /// The upscale pipeline of the first pass
    pub fn for_initial_upscale_2x(&self) -> (out: &'static str)
        ensures
            out@ == initial_upscale_name(*self),
    {
        match self {
            Anime4KPerformancePreset::Light => "UPSCALE_CNN_X2_S",
            Anime4KPerformancePreset::Medium => "UPSCALE_CNN_X2_M",
            Anime4KPerformancePreset::High => "UPSCALE_CNN_X2_L",
            Anime4KPerformancePreset::Ultra => "UPSCALE_CNN_X2_VL",
            Anime4KPerformancePreset::Extreme => "UPSCALE_CNN_X2_UL",
        }
    }

    /// The upscale pipeline of later passes: a size smaller, two sizes from the largest
    pub fn for_subsequent_upscale_2x(&self) -> (out: &'static str)
        ensures
            out@ == subsequent_upscale_name(*self),
    {
        match self {
            Anime4KPerformancePreset::Light => "UPSCALE_CNN_X2_S",
            Anime4KPerformancePreset::Medium => "UPSCALE_CNN_X2_S",
            Anime4KPerformancePreset::High => "UPSCALE_CNN_X2_M",
            Anime4KPerformancePreset::Ultra => "UPSCALE_CNN_X2_L",
            Anime4KPerformancePreset::Extreme => "UPSCALE_CNN_X2_L",
        }
    }
}

/// The views of a list of names.
pub open spec fn name_views(names: Seq<&'static str>) -> Seq<Seq<char>> {
    Seq::new(names.len(), |i: int| names[i]@)
}

/// The pipelines that a preset runs up to its first upscaling, by name:
/// none for `Off`; else the highlight clamp, then the preset's own steps.
pub open spec fn base_names(preset: Anime4KPreset, size: Anime4KPerformancePreset) -> Seq<
    Seq<char>,
> {
    match preset {
        Anime4KPreset::Off => seq![],
        Anime4KPreset::ModeA => seq![
            "CLAMP_HIGHLIGHTS"@,
            initial_restore_name(size),
            initial_upscale_name(size),
        ],
        Anime4KPreset::ModeB => seq![
            "CLAMP_HIGHLIGHTS"@,
            initial_restore_soft_name(size),
            initial_upscale_name(size),
        ],
        Anime4KPreset::ModeC => seq!["CLAMP_HIGHLIGHTS"@, initial_upscale_denoise_name(size)],
        Anime4KPreset::ModeAA => seq![
            "CLAMP_HIGHLIGHTS"@,
            initial_restore_name(size),
            initial_upscale_name(size),
            subsequent_restore_name(size),
        ],
        Anime4KPreset::ModeBB => seq![
            "CLAMP_HIGHLIGHTS"@,
            initial_restore_soft_name(size),
            initial_upscale_name(size),
            subsequent_restore_soft_name(size),
        ],
        Anime4KPreset::ModeCA => seq![
            "CLAMP_HIGHLIGHTS"@,
            initial_upscale_denoise_name(size),
            subsequent_restore_name(size),
        ],
    }
}

/// The pipelines that a preset runs, by name, with `further` upscalings
/// after the first: but for `Off`, its base pipelines and then as many
/// times the upscale pipeline of later passes.
pub open spec fn preset_names(
    preset: Anime4KPreset,
    size: Anime4KPerformancePreset,
    further: nat,
) -> Seq<Seq<char>>
    decreases further,
{
    if preset == Anime4KPreset::Off || further == 0 {
        base_names(preset, size)
    } else {
        preset_names(preset, size, (further - 1) as nat).push(subsequent_upscale_name(size))
    }
}

impl Anime4KPreset {
    /// The name of this preset
    pub fn name(&self) -> (out: &'static str)
        ensures
            out@ == match *self {
                Anime4KPreset::Off => "OFF"@,
                Anime4KPreset::ModeA => "Mode A"@,
                Anime4KPreset::ModeAA => "Mode AA"@,
                Anime4KPreset::ModeB => "Mode B"@,
                Anime4KPreset::ModeBB => "Mode BB"@,
                Anime4KPreset::ModeC => "Mode C"@,
                Anime4KPreset::ModeCA => "Mode CA"@,
            },
    {
        match self {
            Anime4KPreset::Off => "OFF",
            Anime4KPreset::ModeA => "Mode A",
            Anime4KPreset::ModeAA => "Mode AA",
            Anime4KPreset::ModeB => "Mode B",
            Anime4KPreset::ModeBB => "Mode BB",
            Anime4KPreset::ModeC => "Mode C",
            Anime4KPreset::ModeCA => "Mode CA",
        }
    }

    /// The pipelines that this preset runs, by name, with `further`
    /// upscalings after the first.
    pub fn create_pipelines(&self, performance_preset: Anime4KPerformancePreset, further: usize) -> (out:
        Vec<&'static str>)
        ensures
            name_views(out@) == preset_names(*self, performance_preset, further as nat),
    {
        let mut base: Vec<&'static str> = Vec::new();
        match self {
            Anime4KPreset::Off => {
                proof {
                    assert(name_views(base@) =~= preset_names(
                        *self,
                        performance_preset,
                        further as nat,
                    ));
                }
                return base;
            },
            Anime4KPreset::ModeA => {
                base.push("CLAMP_HIGHLIGHTS");
                base.push(performance_preset.for_initial_restore());
                base.push(performance_preset.for_initial_upscale_2x());
            },
            Anime4KPreset::ModeB => {
                base.push("CLAMP_HIGHLIGHTS");
                base.push(performance_preset.for_initial_restore_soft());
                base.push(performance_preset.for_initial_upscale_2x());
            },
            Anime4KPreset::ModeC => {
                base.push("CLAMP_HIGHLIGHTS");
                base.push(performance_preset.for_initial_upscale_denoise_2x());
            },
            Anime4KPreset::ModeAA => {
                base.push("CLAMP_HIGHLIGHTS");
                base.push(performance_preset.for_initial_restore());
                base.push(performance_preset.for_initial_upscale_2x());
                base.push(performance_preset.for_subsequent_restore());
            },
            Anime4KPreset::ModeBB => {
                base.push("CLAMP_HIGHLIGHTS");
                base.push(performance_preset.for_initial_restore_soft());
                base.push(performance_preset.for_initial_upscale_2x());
                base.push(performance_preset.for_subsequent_restore_soft());
            },
            Anime4KPreset::ModeCA => {
                base.push("CLAMP_HIGHLIGHTS");
                base.push(performance_preset.for_initial_upscale_denoise_2x());
                base.push(performance_preset.for_subsequent_restore());
            },
        }
        proof {
            assert(name_views(base@) =~= base_names(*self, performance_preset));
        }
        let mut added: usize = 0;
        while added < further
            invariant
                added <= further,
                *self != Anime4KPreset::Off,
                name_views(base@) == preset_names(*self, performance_preset, added as nat),
            decreases further - added,
        {
            let next = performance_preset.for_subsequent_upscale_2x();
            proof {
                assert(name_views(base@.push(next)) =~= name_views(base@).push(next@));
            }
            base.push(next);
            added += 1;
        }
        base
    }
}

} // verus!
