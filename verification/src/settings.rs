use vstd::prelude::*;

verus! {

/// How strongly a drawing is cleaned up before export.
#[derive(Clone, Copy, Debug, PartialEq, Eq, Structural)]
pub enum QualityPreset {
    Rough,
    Default,
    Smooth,
    Precise,
}

/// Which primitives the generator produces.
#[derive(Clone, Copy, Debug, PartialEq, Eq, Structural)]
pub enum OutputMode {
    Auto,
    Lines,
    Bezier,
    Mixed,
    ExperimentalPolynomial,
    ExperimentalExponential,
}

pub open spec fn quality_label(q: QualityPreset) -> Seq<char> {
    match q {
        QualityPreset::Rough => "Rough"@,
        QualityPreset::Default => "Default"@,
        QualityPreset::Smooth => "Smooth"@,
        QualityPreset::Precise => "Precise"@,
    }
}

pub open spec fn quality_smoothing_passes(q: QualityPreset) -> nat {
    match q {
        QualityPreset::Rough => 3,
        QualityPreset::Default => 1,
        QualityPreset::Smooth => 4,
        QualityPreset::Precise => 0,
    }
}

pub open spec fn output_mode_label(m: OutputMode) -> Seq<char> {
    match m {
        OutputMode::Auto => "Auto"@,
        OutputMode::Lines => "Lines"@,
        OutputMode::Bezier => "Bezier"@,
        OutputMode::Mixed => "Mixed"@,
        OutputMode::ExperimentalPolynomial => "Experimental polynomial"@,
        OutputMode::ExperimentalExponential => "Experimental exponential"@,
    }
}

impl QualityPreset {
    /// Every preset, in the order the settings panel lists them.
    pub const ALL: [QualityPreset; 4] = [
        QualityPreset::Rough,
        QualityPreset::Default,
        QualityPreset::Smooth,
        QualityPreset::Precise,
    ];

    /// The name shown for the preset.
    pub fn label(self) -> (text: &'static str)
        ensures
            text@ == quality_label(self),
    {
        match self {
            QualityPreset::Rough => "Rough",
            QualityPreset::Default => "Default",
            QualityPreset::Smooth => "Smooth",
            QualityPreset::Precise => "Precise",
        }
    }

    /// How many smoothing passes a stroke gets before simplification.
    pub fn smoothing_passes(self) -> (passes: usize)
        ensures
            passes == quality_smoothing_passes(self),
    {
        match self {
            QualityPreset::Rough => 3,
            QualityPreset::Default => 1,
            QualityPreset::Smooth => 4,
            QualityPreset::Precise => 0,
        }
    }
}

impl OutputMode {
    /// Every output mode, in the order the settings panel lists them.
    pub const ALL: [OutputMode; 6] = [
        OutputMode::Auto,
        OutputMode::Lines,
        OutputMode::Bezier,
        OutputMode::Mixed,
        OutputMode::ExperimentalPolynomial,
        OutputMode::ExperimentalExponential,
    ];

    /// The name shown for the mode.
    pub fn label(self) -> (text: &'static str)
        ensures
            text@ == output_mode_label(self),
    {
        match self {
            OutputMode::Auto => "Auto",
            OutputMode::Lines => "Lines",
            OutputMode::Bezier => "Bezier",
            OutputMode::Mixed => "Mixed",
            OutputMode::ExperimentalPolynomial => "Experimental polynomial",
            OutputMode::ExperimentalExponential => "Experimental exponential",
        }
    }
}

/// The primitive mode that `Auto` stands for under a quality preset.
pub open spec fn resolved_mode(mode: OutputMode, quality: QualityPreset) -> OutputMode {
    match mode {
        OutputMode::Auto => match quality {
            QualityPreset::Rough | QualityPreset::Precise => OutputMode::Lines,
            QualityPreset::Default | QualityPreset::Smooth => OutputMode::Bezier,
        },
        _ => mode,
    }
}

/// Replaces `Auto` by the concrete mode the preset calls for: lines for the
/// rough and precise presets, Bézier curves for the default and smooth ones.
/// Every other mode is kept.
pub fn resolve_mode(mode: OutputMode, quality: QualityPreset) -> (resolved: OutputMode)
    ensures
        resolved == resolved_mode(mode, quality),
{
    match mode {
        OutputMode::Auto => match quality {
            QualityPreset::Rough | QualityPreset::Precise => OutputMode::Lines,
            QualityPreset::Default | QualityPreset::Smooth => OutputMode::Bezier,
        },
        other => other,
    }
}

/// Only `Auto` is replaced: every other mode resolves to itself under every
/// preset, and `Auto` becomes lines for the rough and precise presets and
/// Bézier curves for the default and smooth ones.
pub proof fn lemma_resolve_mode_replaces_only_auto(mode: OutputMode, quality: QualityPreset)
    ensures
        mode != OutputMode::Auto ==> resolved_mode(mode, quality) == mode,
        mode == OutputMode::Auto && (quality == QualityPreset::Rough || quality
            == QualityPreset::Precise) ==> resolved_mode(mode, quality) == OutputMode::Lines,
        mode == OutputMode::Auto && (quality == QualityPreset::Default || quality
            == QualityPreset::Smooth) ==> resolved_mode(mode, quality) == OutputMode::Bezier,
{
}

/// Resolving never leaves `Auto`, and resolving twice is resolving once.
pub proof fn lemma_resolve_mode_is_concrete(mode: OutputMode, quality: QualityPreset)
    ensures
        resolved_mode(mode, quality) != OutputMode::Auto,
        resolved_mode(resolved_mode(mode, quality), quality) == resolved_mode(mode, quality),
{
}

} // verus!
