use musicrenderer::midiparser::MIDIHandlerData;
use musicrenderer::types::{to_render_settings, TOMLOptionalRenderSettings};

#[test]
fn sample_rate_defaults_to_48000() {
    let optional = TOMLOptionalRenderSettings {
        input_file: "song.mid".to_string(),
        output_file: "song.wav".to_string(),
        sample_rate: None,
        synth: vec![],
    };
    let settings = to_render_settings(optional, "music".to_string());
    assert_eq!(settings.sample_rate, 48_000);
    assert_eq!(settings.input_path, "music");
    assert_eq!(settings.input_file, "song.mid");
    assert_eq!(settings.output_file, "song.wav");
}

#[test]
fn explicit_sample_rate_is_kept() {
    let optional = TOMLOptionalRenderSettings {
        input_file: "a.mid".to_string(),
        output_file: "a.wav".to_string(),
        sample_rate: Some(44_100),
        synth: vec![],
    };
    let settings = to_render_settings(optional, ".".to_string());
    assert_eq!(settings.sample_rate, 44_100);
}

#[test]
fn fresh_run_state_is_empty() {
    let d = MIDIHandlerData::new();
    assert_eq!(d.pulses_per_quarter_note, 0);
    assert_eq!(d.current_pulse, 0);
    assert_eq!(d.max_pulse, 0);
    assert_eq!(d.tempo_changes.len(), 0);
    assert_eq!(d.fluid_synthesizers.len(), 0);
    assert_eq!(d.active_programs.len(), 16);
    for p in &d.active_programs {
        assert!(p.is_none());
    }
}
