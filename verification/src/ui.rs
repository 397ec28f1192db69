//! The pages and sections the user interface switches between.

use vstd::prelude::*;

verus! {

/// The page of the asset library that is shown.
#[derive(Clone, Copy, Debug, PartialEq, Eq, Structural)]
pub enum LibraryView {
    Samples,
    Synths,
    Kits,
    Sessions,
    EightyEightKeys,
}

/// A section of a synth engine's editor.
#[derive(Clone, Copy, Debug, PartialEq, Eq, Structural)]
pub enum SynthUISection {
    /// The wavetable engine's oscillator page.
    Wavetable,
    /// The sample engine's slot page.
    Sampler,
    Saturation,
    Filter,
    VolumeEnv,
    FilterEnv,
    Lfo1,
    Lfo2,
    ModMatrix,
}

/// The name under which the section is shown.
pub open spec fn synth_section_label(x: SynthUISection) -> Seq<char> {
    match x {
        SynthUISection::Wavetable => "Wavetable"@,
        SynthUISection::Sampler => "Sampler"@,
        SynthUISection::Saturation => "Saturation"@,
        SynthUISection::Filter => "Filter"@,
        SynthUISection::VolumeEnv => "Env 1"@,
        SynthUISection::FilterEnv => "Env 2"@,
        SynthUISection::Lfo1 => "LFO 1"@,
        SynthUISection::Lfo2 => "LFO 2"@,
        SynthUISection::ModMatrix => "Mod Matrix"@,
    }
}

impl SynthUISection {
    /// The name under which the section is shown.
    pub fn label(&self) -> (r: &'static str)
        ensures
            r@ == synth_section_label(*self),
    {
        match self {
            SynthUISection::Wavetable => "Wavetable",
            SynthUISection::Sampler => "Sampler",
            SynthUISection::Saturation => "Saturation",
            SynthUISection::Filter => "Filter",
            SynthUISection::VolumeEnv => "Env 1",
            SynthUISection::FilterEnv => "Env 2",
            SynthUISection::Lfo1 => "LFO 1",
            SynthUISection::Lfo2 => "LFO 2",
            SynthUISection::ModMatrix => "Mod Matrix",
        }
    }
}

} // verus!
