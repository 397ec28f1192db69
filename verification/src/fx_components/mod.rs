//! The parameter sets of the effect components.

pub mod delay;
pub mod envelope_follower;
pub mod filter;
pub mod flanger;
pub mod formant;
pub mod gain;
pub mod lfo;
pub mod quantizer;
pub mod reverb;
pub mod waveshaper;

use vstd::prelude::*;
use crate::fx::FxComponentType;
use crate::settings::{fx_param_key, FxParamName};

verus! {

/// The parameters of any effect component, as stored values.
#[derive(Clone, Copy, Debug, PartialEq, Eq, Structural)]
pub enum ComponentParams {
    Gain(gain::Params),
    Delay(delay::Params),
    Filter(filter::Params),
    Lfo(lfo::Params),
    EnvelopeFollower(envelope_follower::Params),
    Waveshaper(waveshaper::Params),
    Quantizer(quantizer::Params),
    Reverb(reverb::Params),
    Flanger(flanger::Params),
    Formant(formant::Params),
}

/// The kind of component a parameter set belongs to.
pub open spec fn params_kind(p: ComponentParams) -> FxComponentType {
    match p {
        ComponentParams::Gain(_) => FxComponentType::Gain,
        ComponentParams::Delay(_) => FxComponentType::Delay,
        ComponentParams::Filter(_) => FxComponentType::Filter,
        ComponentParams::Lfo(_) => FxComponentType::Lfo,
        ComponentParams::EnvelopeFollower(_) => FxComponentType::EnvelopeFollower,
        ComponentParams::Waveshaper(_) => FxComponentType::Waveshaper,
        ComponentParams::Quantizer(_) => FxComponentType::Quantizer,
        ComponentParams::Reverb(_) => FxComponentType::Reverb,
        ComponentParams::Flanger(_) => FxComponentType::Flanger,
        ComponentParams::Formant(_) => FxComponentType::Formant,
    }
}

/// Whether the component is bypassed.
pub open spec fn params_bypassed(p: ComponentParams) -> bool {
    match p {
        ComponentParams::Gain(q) => q.bypassed,
        ComponentParams::Delay(q) => q.bypassed,
        ComponentParams::Filter(q) => q.bypassed,
        ComponentParams::Lfo(q) => q.bypassed,
        ComponentParams::EnvelopeFollower(q) => q.bypassed,
        ComponentParams::Waveshaper(q) => q.bypassed,
        ComponentParams::Quantizer(q) => q.bypassed,
        ComponentParams::Reverb(q) => q.bypassed,
        ComponentParams::Flanger(q) => q.bypassed,
        ComponentParams::Formant(q) => q.bypassed,
    }
}

/// The stored value of a parameter by name.
pub open spec fn params_value(p: ComponentParams, name: Seq<char>) -> Option<u32> {
    match p {
        ComponentParams::Gain(q) => gain::param_value(q, name),
        ComponentParams::Delay(q) => delay::param_value(q, name),
        ComponentParams::Filter(q) => filter::param_value(q, name),
        ComponentParams::Lfo(q) => lfo::param_value(q, name),
        ComponentParams::EnvelopeFollower(q) => envelope_follower::param_value(q, name),
        ComponentParams::Waveshaper(q) => waveshaper::param_value(q, name),
        ComponentParams::Quantizer(q) => quantizer::param_value(q, name),
        ComponentParams::Reverb(q) => reverb::param_value(q, name),
        ComponentParams::Flanger(q) => flanger::param_value(q, name),
        ComponentParams::Formant(q) => formant::param_value(q, name),
    }
}

/// The parameters with the named one set to a value, unchanged where the
/// component has no parameter of that name.
pub open spec fn params_updated(p: ComponentParams, name: Seq<char>, value: u32) -> ComponentParams {
    match p {
        ComponentParams::Gain(q) => ComponentParams::Gain(gain::param_updated(q, name, value)),
        ComponentParams::Delay(q) => ComponentParams::Delay(delay::param_updated(q, name, value)),
        ComponentParams::Filter(q) => ComponentParams::Filter(filter::param_updated(q, name, value)),
        ComponentParams::Lfo(q) => ComponentParams::Lfo(lfo::param_updated(q, name, value)),
        ComponentParams::EnvelopeFollower(q) => ComponentParams::EnvelopeFollower(envelope_follower::param_updated(q, name, value)),
        ComponentParams::Waveshaper(q) => ComponentParams::Waveshaper(waveshaper::param_updated(q, name, value)),
        ComponentParams::Quantizer(q) => ComponentParams::Quantizer(quantizer::param_updated(q, name, value)),
        ComponentParams::Reverb(q) => ComponentParams::Reverb(reverb::param_updated(q, name, value)),
        ComponentParams::Flanger(q) => ComponentParams::Flanger(flanger::param_updated(q, name, value)),
        ComponentParams::Formant(q) => ComponentParams::Formant(formant::param_updated(q, name, value)),
    }
}

/// The parameters a new component of the type starts with.
pub open spec fn default_component(t: FxComponentType) -> ComponentParams {
    match t {
        FxComponentType::Gain => ComponentParams::Gain(gain::default_params()),
        FxComponentType::Delay => ComponentParams::Delay(delay::default_params()),
        FxComponentType::Filter => ComponentParams::Filter(filter::default_params()),
        FxComponentType::Lfo => ComponentParams::Lfo(lfo::default_params()),
        FxComponentType::EnvelopeFollower => ComponentParams::EnvelopeFollower(envelope_follower::default_params()),
        FxComponentType::Waveshaper => ComponentParams::Waveshaper(waveshaper::default_params()),
        FxComponentType::Quantizer => ComponentParams::Quantizer(quantizer::default_params()),
        FxComponentType::Reverb => ComponentParams::Reverb(reverb::default_params()),
        FxComponentType::Flanger => ComponentParams::Flanger(flanger::default_params()),
        FxComponentType::Formant => ComponentParams::Formant(formant::default_params()),
    }
}

/// Distinct parameter names are stored under distinct keys, and every name
/// other than the rack-level bypass and dry/wet mix is a parameter of some
/// component type.
pub proof fn lemma_fx_param_keys(a: FxParamName, b: FxParamName)
    ensures
        a != b ==> fx_param_key(a) != fx_param_key(b),
        a != FxParamName::Bypass && a != FxParamName::WetDry ==> exists|t: FxComponentType|
            #[trigger] params_value(default_component(t), fx_param_key(a)) is Some,
{
    reveal_strlit("bypassed");
    reveal_strlit("wet_dry_mix");
    reveal_strlit("gain_db");
    reveal_strlit("time_ms");
    reveal_strlit("feedback");
    reveal_strlit("damping");
    reveal_strlit("mode");
    reveal_strlit("frequency_hz");
    reveal_strlit("resonance");
    reveal_strlit("waveform");
    reveal_strlit("attack_ms");
    reveal_strlit("release_ms");
    reveal_strlit("drive_db");
    reveal_strlit("bit_depth");
    reveal_strlit("downsample");
    reveal_strlit("size");
    reveal_strlit("decay");
    reveal_strlit("rate_hz");
    reveal_strlit("depth_ms");
    if a != b {
        let (ka, kb) = (fx_param_key(a), fx_param_key(b));
        assert(ka.len() != kb.len() || ka[0] != kb[0] || ka[1] != kb[1]);
    }
    let t = match a {
        FxParamName::GainDb => FxComponentType::Gain,
        FxParamName::TimeMs | FxParamName::Feedback | FxParamName::Damping => FxComponentType::Delay,
        FxParamName::Mode | FxParamName::FrequencyHz | FxParamName::Resonance => FxComponentType::Filter,
        FxParamName::Waveform => FxComponentType::Lfo,
        FxParamName::AttackMs | FxParamName::ReleaseMs => FxComponentType::EnvelopeFollower,
        FxParamName::DriveDb => FxComponentType::Waveshaper,
        FxParamName::BitDepth | FxParamName::Downsample => FxComponentType::Quantizer,
        FxParamName::Size | FxParamName::Decay => FxComponentType::Reverb,
        _ => FxComponentType::Flanger,
    };
    if a != FxParamName::Bypass && a != FxParamName::WetDry {
        assert(params_value(default_component(t), fx_param_key(a)) is Some);
    }
}

/// Writing a parameter the component has and reading it back gives the
/// written value; every other parameter, the kind and the bypass switch keep theirs.
pub proof fn lemma_params_read_back(p: ComponentParams, name: Seq<char>, value: u32, other: Seq<char>)
    requires
        params_value(p, name) is Some,
    ensures
        params_value(params_updated(p, name, value), name) == Some(value),
        other != name ==> params_value(params_updated(p, name, value), other) == params_value(p, other),
        params_kind(params_updated(p, name, value)) == params_kind(p),
        params_bypassed(params_updated(p, name, value)) == params_bypassed(p),
{
}

/// Writing a name the component does not have changes nothing.
pub proof fn lemma_params_unknown_name(p: ComponentParams, name: Seq<char>, value: u32)
    requires
        params_value(p, name) is None,
    ensures
        params_updated(p, name, value) == p,
{
}

impl ComponentParams {
    /// Creates the default parameters of a component type.
    pub fn new(component_type: FxComponentType) -> (r: ComponentParams)
        ensures
            r == default_component(component_type),
            params_kind(r) == component_type,
            !params_bypassed(r),
            component_type == FxComponentType::Gain ==> r == ComponentParams::Gain(gain::default_params()),
            component_type == FxComponentType::Delay ==> r == ComponentParams::Delay(delay::default_params()),
            component_type == FxComponentType::Filter ==> r == ComponentParams::Filter(filter::default_params()),
            component_type == FxComponentType::Lfo ==> r == ComponentParams::Lfo(lfo::default_params()),
            component_type == FxComponentType::EnvelopeFollower ==> r == ComponentParams::EnvelopeFollower(envelope_follower::default_params()),
            component_type == FxComponentType::Waveshaper ==> r == ComponentParams::Waveshaper(waveshaper::default_params()),
            component_type == FxComponentType::Quantizer ==> r == ComponentParams::Quantizer(quantizer::default_params()),
            component_type == FxComponentType::Reverb ==> r == ComponentParams::Reverb(reverb::default_params()),
            component_type == FxComponentType::Flanger ==> r == ComponentParams::Flanger(flanger::default_params()),
            component_type == FxComponentType::Formant ==> r == ComponentParams::Formant(formant::default_params()),
    {
        match component_type {
            FxComponentType::Gain => ComponentParams::Gain(gain::Params::default()),
            FxComponentType::Delay => ComponentParams::Delay(delay::Params::default()),
            FxComponentType::Filter => ComponentParams::Filter(filter::Params::default()),
            FxComponentType::Lfo => ComponentParams::Lfo(lfo::Params::default()),
            FxComponentType::EnvelopeFollower => ComponentParams::EnvelopeFollower(envelope_follower::Params::default()),
            FxComponentType::Waveshaper => ComponentParams::Waveshaper(waveshaper::Params::default()),
            FxComponentType::Quantizer => ComponentParams::Quantizer(quantizer::Params::default()),
            FxComponentType::Reverb => ComponentParams::Reverb(reverb::Params::default()),
            FxComponentType::Flanger => ComponentParams::Flanger(flanger::Params::default()),
            FxComponentType::Formant => ComponentParams::Formant(formant::Params::default()),
        }
    }

    /// Whether the component is bypassed.
    pub fn bypassed(&self) -> (r: bool)
        ensures
            r == params_bypassed(*self),
    {
        match self {
            ComponentParams::Gain(p) => p.bypassed,
            ComponentParams::Delay(p) => p.bypassed,
            ComponentParams::Filter(p) => p.bypassed,
            ComponentParams::Lfo(p) => p.bypassed,
            ComponentParams::EnvelopeFollower(p) => p.bypassed,
            ComponentParams::Waveshaper(p) => p.bypassed,
            ComponentParams::Quantizer(p) => p.bypassed,
            ComponentParams::Reverb(p) => p.bypassed,
            ComponentParams::Flanger(p) => p.bypassed,
            ComponentParams::Formant(p) => p.bypassed,
        }
    }

    /// Sets whether the component is bypassed.
    pub fn set_bypassed(&mut self, bypassed: bool)
        ensures
            params_bypassed(*final(self)) == bypassed,
            params_kind(*final(self)) == params_kind(*old(self)),
            forall|name: Seq<char>| params_value(*final(self), name) == params_value(*old(self), name),
    {
        match self {
            ComponentParams::Gain(p) => p.bypassed = bypassed,
            ComponentParams::Delay(p) => p.bypassed = bypassed,
            ComponentParams::Filter(p) => p.bypassed = bypassed,
            ComponentParams::Lfo(p) => p.bypassed = bypassed,
            ComponentParams::EnvelopeFollower(p) => p.bypassed = bypassed,
            ComponentParams::Waveshaper(p) => p.bypassed = bypassed,
            ComponentParams::Quantizer(p) => p.bypassed = bypassed,
            ComponentParams::Reverb(p) => p.bypassed = bypassed,
            ComponentParams::Flanger(p) => p.bypassed = bypassed,
            ComponentParams::Formant(p) => p.bypassed = bypassed,
        }
    }

    /// The stored value of a parameter by name, as used for MIDI mapping.
    pub fn get_param(&self, name: &str) -> (r: Option<u32>)
        ensures
            r == params_value(*self, name@),
    {
        match self {
            ComponentParams::Gain(p) => p.get_param(name),
            ComponentParams::Delay(p) => p.get_param(name),
            ComponentParams::Filter(p) => p.get_param(name),
            ComponentParams::Lfo(p) => p.get_param(name),
            ComponentParams::EnvelopeFollower(p) => p.get_param(name),
            ComponentParams::Waveshaper(p) => p.get_param(name),
            ComponentParams::Quantizer(p) => p.get_param(name),
            ComponentParams::Reverb(p) => p.get_param(name),
            ComponentParams::Flanger(p) => p.get_param(name),
            ComponentParams::Formant(p) => p.get_param(name),
        }
    }

    /// Stores a parameter by name; returns whether the component has one of that name.
    pub fn set_param(&mut self, name: &str, value: u32) -> (found: bool)
        ensures
            found == (params_value(*old(self), name@) is Some),
            *final(self) == params_updated(*old(self), name@, value),
            found ==> params_value(*final(self), name@) == Some(value),
            forall|other: Seq<char>| other != name@ ==> params_value(*final(self), other) == params_value(*old(self), other),
            params_kind(*final(self)) == params_kind(*old(self)),
            params_bypassed(*final(self)) == params_bypassed(*old(self)),
    {
        match self {
            ComponentParams::Gain(p) => p.set_param(name, value),
            ComponentParams::Delay(p) => p.set_param(name, value),
            ComponentParams::Filter(p) => p.set_param(name, value),
            ComponentParams::Lfo(p) => p.set_param(name, value),
            ComponentParams::EnvelopeFollower(p) => p.set_param(name, value),
            ComponentParams::Waveshaper(p) => p.set_param(name, value),
            ComponentParams::Quantizer(p) => p.set_param(name, value),
            ComponentParams::Reverb(p) => p.set_param(name, value),
            ComponentParams::Flanger(p) => p.set_param(name, value),
            ComponentParams::Formant(p) => p.set_param(name, value),
        }
    }
}

} // verus!
