use musicrenderer::errors::{ConfigFault, RenderError};
use musicrenderer::fluidsynthesizer::{
    generate_fluid_synthesizers, resolve_condition, resolve_destination, validate_setting,
    RoutingCondition, SettingValue,
};
use musicrenderer::gm::program_nr_of;
use musicrenderer::midiparser::{ChannelEvent, MIDIHandlerData};
use musicrenderer::types::{
    TOMLCondition, TOMLDestination, TOMLMapping, TOMLRenderSettings, TOMLSynth,
    TOMLSynthSetting, TOMLSynthSoundfont,
};

fn channel_condition(channel: u8) -> TOMLCondition {
    TOMLCondition { program: None, channel: Some(channel) }
}

fn program_condition(name: &str) -> TOMLCondition {
    TOMLCondition { program: Some(name.to_string()), channel: None }
}

fn numbered_destination(program_nr: u32) -> TOMLDestination {
    TOMLDestination { bank: None, program: None, program_nr: Some(program_nr), soundfont: 0 }
}

fn fluid_synth(mapping: Vec<(String, TOMLMapping)>) -> TOMLSynth {
    TOMLSynth {
        synthtype: "fluidsynth".to_string(),
        gain: 1.0f32.to_bits(),
        directory: None,
        soundfont: None,
        setting: None,
        mapping,
    }
}

fn render_settings(synth: Vec<(String, TOMLSynth)>) -> TOMLRenderSettings {
    TOMLRenderSettings {
        input_path: ".".to_string(),
        input_file: "song.mid".to_string(),
        output_file: "song.wav".to_string(),
        sample_rate: 48_000,
        synth,
    }
}

#[test]
fn resolve_assigns_consecutive_channels() {
    // Two named routes, three conditions, blocks of 2, 2 and 3
    // destinations: the channels must read 0..=6 in declaration order,
    // strictly increasing and disjoint.
    let mapping = vec![
        (
            "strings".to_string(),
            TOMLMapping {
                condition: vec![channel_condition(0), channel_condition(1)],
                destination: vec![numbered_destination(40), numbered_destination(41)],
            },
        ),
        (
            "brass".to_string(),
            TOMLMapping {
                condition: vec![channel_condition(2)],
                destination: vec![
                    numbered_destination(56),
                    numbered_destination(57),
                    numbered_destination(58),
                ],
            },
        ),
    ];
    let settings = render_settings(vec![("main".to_string(), fluid_synth(mapping))]);
    let plans = generate_fluid_synthesizers(&settings, 256).unwrap();
    assert_eq!(plans.len(), 1);
    let plan = &plans[0];
    assert_eq!(plan.synth.used_channels, 7);
    let mut all_channels: Vec<u8> = Vec::new();
    for entry in &plan.synth.mapping {
        for c in &entry.destinations {
            all_channels.push(*c);
        }
    }
    assert_eq!(all_channels, vec![0, 1, 2, 3, 4, 5, 6]);
    for w in all_channels.windows(2) {
        assert!(w[0] < w[1]);
    }
    assert_eq!(plan.program_selects.len(), 7);
    assert_eq!(plan.program_selects[0].channel, 0);
    assert_eq!(plan.program_selects[0].program, 40);
    assert_eq!(plan.program_selects[6].channel, 6);
    assert_eq!(plan.program_selects[6].program, 58);
}

#[test]
fn condition_with_both_fields_is_rejected_at_load() {
    let c = TOMLCondition { program: Some("Violin".to_string()), channel: Some(1) };
    let r = resolve_condition(&c);
    assert!(matches!(
        r,
        Err(RenderError::ConfigError(ConfigFault::AmbiguousCondition))
    ));
}

#[test]
fn condition_with_no_field_is_rejected_at_load() {
    let c = TOMLCondition { program: None, channel: None };
    let r = resolve_condition(&c);
    assert!(matches!(
        r,
        Err(RenderError::ConfigError(ConfigFault::AmbiguousCondition))
    ));
}

#[test]
fn malformed_condition_aborts_the_build() {
    let mapping = vec![(
        "broken".to_string(),
        TOMLMapping {
            condition: vec![TOMLCondition { program: None, channel: None }],
            destination: vec![numbered_destination(0)],
        },
    )];
    let settings = render_settings(vec![("main".to_string(), fluid_synth(mapping))]);
    let r = generate_fluid_synthesizers(&settings, 256);
    assert!(matches!(
        r,
        Err(RenderError::ConfigError(ConfigFault::AmbiguousCondition))
    ));
}

#[test]
fn first_matching_condition_wins() {
    // A channel condition on channel 1 stands before a program condition;
    // an event on channel 1 whose channel has that very program active
    // routes to the first entry's channels, not the second's.
    let piano = program_nr_of(&"Acoustic Grand Piano".to_string()).unwrap();
    let mapping = vec![
        (
            "by-channel".to_string(),
            TOMLMapping {
                condition: vec![channel_condition(1)],
                destination: vec![numbered_destination(10)],
            },
        ),
        (
            "by-program".to_string(),
            TOMLMapping {
                condition: vec![program_condition("Acoustic Grand Piano")],
                destination: vec![numbered_destination(20)],
            },
        ),
    ];
    let settings = render_settings(vec![("main".to_string(), fluid_synth(mapping))]);
    let plans = generate_fluid_synthesizers(&settings, 256).unwrap();
    let synth = &plans[0].synth;
    // Channel condition first: channel block [0].
    assert_eq!(synth.route(1, Some(piano)), vec![0]);
    // On another channel only the program condition matches: block [1].
    assert_eq!(synth.route(5, Some(piano)), vec![1]);
    // No condition matches: unrouted.
    assert_eq!(synth.route(5, Some(piano + 1)), Vec::<u8>::new());
    // A program condition never matches before any program change.
    assert_eq!(synth.route(5, None), Vec::<u8>::new());
}

#[test]
fn dispatch_sees_its_own_program_change() {
    let piano = program_nr_of(&"Acoustic Grand Piano".to_string()).unwrap();
    let mapping = vec![(
        "by-program".to_string(),
        TOMLMapping {
            condition: vec![program_condition("Acoustic Grand Piano")],
            destination: vec![numbered_destination(0)],
        },
    )];
    let settings = render_settings(vec![("main".to_string(), fluid_synth(mapping))]);
    let plans = generate_fluid_synthesizers(&settings, 256).unwrap();
    let mut d = MIDIHandlerData::new();
    d.set_pulses_per_quarter_note(96).unwrap();
    for plan in plans {
        d.fluid_synthesizers.push(plan.synth);
    }
    // Before any program change the event is unrouted.
    let unrouted = d.midi_event(0, &ChannelEvent::Voice { channel: 3 });
    assert_eq!(unrouted, Vec::<(usize, u8)>::new());
    // The program change itself already routes.
    let routed = d.midi_event(0, &ChannelEvent::ProgramChange { channel: 3, program: piano });
    assert_eq!(routed, vec![(0, 0)]);
    // The program stays active for later events, across a track boundary.
    d.track_change();
    let routed = d.midi_event(5, &ChannelEvent::Voice { channel: 3 });
    assert_eq!(routed, vec![(0, 0)]);
    // Other channels are not affected.
    let other = d.midi_event(0, &ChannelEvent::Voice { channel: 4 });
    assert_eq!(other, Vec::<(usize, u8)>::new());
}

#[test]
fn capacity_overflow_commits_nothing() {
    // 300 destinations on an engine capped at 256 channels: the build fails
    // with the capacity fault and hands out no plan and no command.
    let destinations: Vec<TOMLDestination> =
        (0..300).map(|_| numbered_destination(0)).collect();
    let mapping = vec![(
        "wide".to_string(),
        TOMLMapping { condition: vec![channel_condition(0)], destination: destinations },
    )];
    let settings = render_settings(vec![("main".to_string(), fluid_synth(mapping))]);
    let r = generate_fluid_synthesizers(&settings, 256);
    assert!(matches!(
        r,
        Err(RenderError::CapacityError { used: 0, requested: 300, capacity: 256 })
    ));
}

#[test]
fn raw_program_number_wins_over_name() {
    let d = TOMLDestination {
        bank: Some(7),
        program: Some("Violin".to_string()),
        program_nr: Some(5),
        soundfont: 2,
    };
    assert_eq!(resolve_destination(&d).unwrap(), (5, 7));
}

#[test]
fn destination_bank_defaults_to_zero() {
    let d = numbered_destination(9);
    assert_eq!(resolve_destination(&d).unwrap(), (9, 0));
}

#[test]
fn destination_program_number_out_of_range() {
    let d = numbered_destination(300);
    let r = resolve_destination(&d);
    assert!(matches!(
        r,
        Err(RenderError::ConfigError(ConfigFault::ProgramNumberTooLarge { number: 300 }))
    ));
}

#[test]
fn destination_without_program_is_rejected() {
    let d = TOMLDestination { bank: None, program: None, program_nr: None, soundfont: 0 };
    let r = resolve_destination(&d);
    assert!(matches!(
        r,
        Err(RenderError::ConfigError(ConfigFault::MissingDestinationProgram))
    ));
}

#[test]
fn unknown_instrument_name_is_rejected() {
    let d = TOMLDestination {
        bank: None,
        program: Some("Kazoo".to_string()),
        program_nr: None,
        soundfont: 0,
    };
    let r = resolve_destination(&d);
    match r {
        Err(RenderError::ConfigError(ConfigFault::UnknownInstrument { name })) => {
            assert_eq!(name, "Kazoo");
        }
        other => panic!("expected an unknown-instrument fault, got {:?}", other),
    }
}

#[test]
fn general_midi_table_lookups() {
    assert_eq!(program_nr_of(&"Acoustic Grand Piano".to_string()), Some(0));
    assert_eq!(program_nr_of(&"Tango Accordion".to_string()), Some(23));
    assert_eq!(program_nr_of(&"Violin".to_string()), Some(40));
    assert_eq!(program_nr_of(&"Soprano Sax".to_string()), Some(64));
    assert_eq!(program_nr_of(&"Gunshot".to_string()), Some(127));
    assert_eq!(program_nr_of(&"Not An Instrument".to_string()), None);
}

#[test]
fn setting_with_exactly_one_value_is_typed() {
    let s = TOMLSynthSetting {
        name: "synth.polyphony".to_string(),
        value_f: None,
        value_i: Some(64),
        value_s: None,
    };
    let cmd = validate_setting(&s).unwrap();
    assert_eq!(cmd.name, "synth.polyphony");
    assert!(matches!(cmd.value, SettingValue::Int(64)));

    let s = TOMLSynthSetting {
        name: "synth.gain".to_string(),
        value_f: Some(1.5f64.to_bits()),
        value_i: None,
        value_s: None,
    };
    let cmd = validate_setting(&s).unwrap();
    match cmd.value {
        SettingValue::FloatBits(bits) => assert_eq!(f64::from_bits(bits), 1.5),
        other => panic!("expected a float setting, got {:?}", other),
    }

    let s = TOMLSynthSetting {
        name: "audio.driver".to_string(),
        value_f: None,
        value_i: None,
        value_s: Some("file".to_string()),
    };
    let cmd = validate_setting(&s).unwrap();
    match cmd.value {
        SettingValue::Text(text) => assert_eq!(text, "file"),
        other => panic!("expected a text setting, got {:?}", other),
    }
}

#[test]
fn setting_with_two_values_is_rejected() {
    let s = TOMLSynthSetting {
        name: "synth.gain".to_string(),
        value_f: Some(1.0f64.to_bits()),
        value_i: Some(1),
        value_s: None,
    };
    let r = validate_setting(&s);
    match r {
        Err(RenderError::ConfigError(ConfigFault::AmbiguousSettingValue { name })) => {
            assert_eq!(name, "synth.gain");
        }
        other => panic!("expected an ambiguous-setting fault, got {:?}", other),
    }
}

#[test]
fn setting_with_no_value_is_rejected() {
    let s = TOMLSynthSetting {
        name: "synth.gain".to_string(),
        value_f: None,
        value_i: None,
        value_s: None,
    };
    let r = validate_setting(&s);
    assert!(matches!(
        r,
        Err(RenderError::ConfigError(ConfigFault::AmbiguousSettingValue { .. }))
    ));
}

#[test]
fn other_engine_types_are_passed_over() {
    let mut synth = fluid_synth(vec![]);
    synth.synthtype = "timidity".to_string();
    let settings = render_settings(vec![("other".to_string(), synth)]);
    let plans = generate_fluid_synthesizers(&settings, 256).unwrap();
    assert_eq!(plans.len(), 0);
}

#[test]
fn plan_carries_settings_soundfonts_and_gain() {
    let mut synth = fluid_synth(vec![(
        "route".to_string(),
        TOMLMapping {
            condition: vec![channel_condition(0)],
            destination: vec![numbered_destination(40)],
        },
    )]);
    synth.gain = 0.8f32.to_bits();
    synth.setting = Some(vec![TOMLSynthSetting {
        name: "synth.polyphony".to_string(),
        value_f: None,
        value_i: Some(256),
        value_s: None,
    }]);
    synth.soundfont = Some(vec![TOMLSynthSoundfont { file: "strings.sf2".to_string(), offset: 3 }]);
    let settings = render_settings(vec![("main".to_string(), fluid_synth(vec![])), (
        "second".to_string(),
        synth,
    )]);
    let plans = generate_fluid_synthesizers(&settings, 256).unwrap();
    assert_eq!(plans.len(), 2);
    let plan = &plans[1];
    assert_eq!(plan.id, "second");
    assert_eq!(f32::from_bits(plan.synth.gain), 0.8);
    assert_eq!(plan.settings.len(), 1);
    assert!(matches!(plan.settings[0].value, SettingValue::Int(256)));
    assert_eq!(plan.soundfonts.len(), 1);
    assert_eq!(plan.soundfonts[0].file, "strings.sf2");
    assert_eq!(plan.soundfonts[0].offset, 3);
    assert_eq!(plan.program_selects.len(), 1);
    assert_eq!(
        plan.program_selects[0],
        musicrenderer::fluidsynthesizer::ProgramSelect {
            channel: 0,
            soundfont: 0,
            bank: 0,
            program: 40,
        }
    );
}

#[test]
fn resolved_conditions_are_tagged() {
    assert_eq!(
        resolve_condition(&channel_condition(9)).unwrap(),
        RoutingCondition::Channel(9)
    );
    assert_eq!(
        resolve_condition(&program_condition("Violin")).unwrap(),
        RoutingCondition::Program(40)
    );
}
