use cypher_looper::fx::{FxComponentType, InsertionPoint, InsertionPointParseError};
use cypher_looper::fx_components::{delay, filter, gain, lfo, waveshaper, ComponentParams};
use cypher_looper::settings::FxParamName;

#[test]
fn insertion_point_keys() {
    assert_eq!(InsertionPoint::Looper(2).to_key(), "Looper_2");
    assert_eq!(InsertionPoint::Synth(1).to_key(), "Synth_1");
    assert_eq!(InsertionPoint::Atmo.to_key(), "Atmo");
}

#[test]
fn insertion_point_keys_read_back() {
    for p in [
        InsertionPoint::Looper(0),
        InsertionPoint::Looper(11),
        InsertionPoint::Synth(1),
        InsertionPoint::Sampler,
        InsertionPoint::Input,
        InsertionPoint::Master,
        InsertionPoint::Atmo,
    ] {
        assert_eq!(InsertionPoint::from_key(&p.to_key()), Ok(p));
    }
}

#[test]
fn bad_insertion_point_keys() {
    assert_eq!(InsertionPoint::from_key("Looper_x"), Err(InsertionPointParseError::InvalidIndex));
    assert_eq!(InsertionPoint::from_key("Bus_1"), Err(InsertionPointParseError::UnknownPrefix));
    assert_eq!(InsertionPoint::from_key("Bus"), Err(InsertionPointParseError::UnknownName));
}

#[test]
fn insertion_point_labels() {
    assert_eq!(InsertionPoint::Looper(0).label(), "Looper 1");
    assert_eq!(InsertionPoint::Synth(1).label(), "Synth Engine 2");
    assert_eq!(InsertionPoint::Master.label(), "Master Output");
    assert_eq!(InsertionPoint::Input.label(), "Audio Input");
}

#[test]
fn default_component_parameters() {
    assert_eq!(ComponentParams::new(FxComponentType::Gain).get_param("gain_db"), Some(6_000_000));
    let d = ComponentParams::new(FxComponentType::Delay);
    assert_eq!(d.get_param("time_ms"), Some(250_000_000));
    assert_eq!(d.get_param("feedback"), Some(0));
    assert_eq!(d.get_param("damping"), Some(500_000));
    let f = ComponentParams::new(FxComponentType::Filter);
    assert_eq!(f.get_param("frequency_hz"), Some(1_000_000_000));
    assert_eq!(f.get_param("mode"), Some(0));
    assert!(!f.bypassed());
}

#[test]
fn unknown_parameter_names() {
    let g = ComponentParams::new(FxComponentType::Gain);
    assert_eq!(g.get_param("time_ms"), None);
    assert_eq!(g.get_param("bypassed"), None);
}

#[test]
fn setting_parameters_by_name() {
    let mut r = ComponentParams::new(FxComponentType::Reverb);
    assert!(r.set_param("size", 42));
    assert_eq!(r.get_param("size"), Some(42));
    assert!(!r.set_param("gain_db", 1));
    r.set_bypassed(true);
    assert!(r.bypassed());
    assert_eq!(r.get_param("size"), Some(42));
}

#[test]
fn component_parameter_structs() {
    assert_eq!(gain::Params::default().gain_db, 6_000_000);
    let mut p = delay::Params::default();
    assert!(p.set_param("feedback", 10));
    assert_eq!(p.get_param("feedback"), Some(10));
    let g = gain::Gain::new(gain::Params { gain_db: 1, bypassed: true });
    assert_eq!(g.current_params(), gain::Params { gain_db: 1, bypassed: true });
    let w = waveshaper::Waveshaper::new(waveshaper::Params::default());
    assert_eq!(w.current_params().mode, 1);
}

#[test]
fn mode_codes_round_trip() {
    assert_eq!(filter::FilterMode::from(1u32), filter::FilterMode::HighPass);
    assert_eq!(filter::FilterMode::from(9u32), filter::FilterMode::LowPass);
    assert_eq!(filter::FilterMode::BandPass.code(), 2);
    assert_eq!(lfo::LfoWaveform::from(5u32), lfo::LfoWaveform::Random);
    assert_eq!(lfo::LfoWaveform::from(6u32), lfo::LfoWaveform::Sine);
    assert_eq!(waveshaper::WaveshaperMode::from(3u32), waveshaper::WaveshaperMode::Fold);
    assert_eq!(waveshaper::WaveshaperMode::Saturation.code(), 1);
}

#[test]
fn every_mode_code_reads_back() {
    for m in [filter::FilterMode::LowPass, filter::FilterMode::HighPass, filter::FilterMode::BandPass] {
        assert_eq!(filter::FilterMode::from(m.code()), m);
    }
    for m in [
        waveshaper::WaveshaperMode::HardClip,
        waveshaper::WaveshaperMode::Saturation,
        waveshaper::WaveshaperMode::Sine,
        waveshaper::WaveshaperMode::Fold,
    ] {
        assert_eq!(waveshaper::WaveshaperMode::from(m.code()), m);
    }
    for m in [lfo::LfoWaveform::Sine, lfo::LfoWaveform::Saw, lfo::LfoWaveform::Square, lfo::LfoWaveform::Random] {
        assert_eq!(lfo::LfoWaveform::from(m.code()), m);
    }
}

#[test]
fn parameter_keys_are_distinct_and_belong_to_components() {
    let names = [
        FxParamName::Bypass, FxParamName::WetDry, FxParamName::GainDb, FxParamName::TimeMs, FxParamName::Feedback, FxParamName::Damping, FxParamName::Mode, FxParamName::FrequencyHz,
        FxParamName::Resonance, FxParamName::Waveform, FxParamName::AttackMs, FxParamName::ReleaseMs, FxParamName::DriveDb, FxParamName::BitDepth, FxParamName::Downsample,
        FxParamName::Size, FxParamName::Decay, FxParamName::RateHz, FxParamName::DepthMs,
    ];
    let types = [
        FxComponentType::Gain, FxComponentType::Delay, FxComponentType::Filter, FxComponentType::Lfo,
        FxComponentType::EnvelopeFollower, FxComponentType::Waveshaper, FxComponentType::Quantizer,
        FxComponentType::Reverb, FxComponentType::Flanger, FxComponentType::Formant,
    ];
    for (i, a) in names.iter().enumerate() {
        for b in &names[i + 1..] {
            assert_ne!(a.as_str(), b.as_str());
        }
        if *a != FxParamName::Bypass && *a != FxParamName::WetDry {
            assert!(types.iter().any(|&t| ComponentParams::new(t).get_param(a.as_str()).is_some()), "{:?}", a);
        }
    }
}
