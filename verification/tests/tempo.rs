use musicrenderer::errors::{ConfigFault, RenderError, SequencingFault};
use musicrenderer::midiparser::{MIDIHandlerData, MetaEventKind};

#[test]
fn quarter_note_at_120_bpm() {
    // 480 pulses per quarter note, 500000 us per quarter note: one quarter
    // note lasts half a second, one pulse about 1041.666 us.
    let mut d = MIDIHandlerData::new();
    d.set_pulses_per_quarter_note(480).unwrap();
    d.record_tempo_change(500_000).unwrap();
    assert_eq!(d.pulse_to_time(480).unwrap(), 500_000);
    assert_eq!(d.pulse_to_time(1).unwrap(), 1_041);
    assert_eq!(d.pulse_to_time(960).unwrap(), 1_000_000);
}

#[test]
fn tempo_change_mid_piece() {
    // 96 pulses per quarter note; 500000 us per quarter note from pulse 0,
    // 250000 from pulse 192 on.  The first two quarter notes cost 500000
    // each, later ones 250000.
    let mut d = MIDIHandlerData::new();
    d.set_pulses_per_quarter_note(96).unwrap();
    d.record_tempo_change(500_000).unwrap();
    d.add_delta_time(192);
    d.record_tempo_change(250_000).unwrap();
    assert_eq!(d.pulse_to_time(96).unwrap(), 500_000);
    assert_eq!(d.pulse_to_time(192).unwrap(), 1_000_000);
    assert_eq!(d.pulse_to_time(288).unwrap(), 1_250_000);
}

#[test]
fn time_is_monotone_and_zero_at_zero() {
    let mut d = MIDIHandlerData::new();
    d.set_pulses_per_quarter_note(96).unwrap();
    d.record_tempo_change(500_000).unwrap();
    d.add_delta_time(100);
    d.record_tempo_change(20_000).unwrap();
    d.add_delta_time(300);
    d.record_tempo_change(900_000).unwrap();
    assert_eq!(d.pulse_to_time(0).unwrap(), 0);
    let mut last = 0u128;
    let mut pulse = 0u64;
    while pulse <= 1000 {
        let t = d.pulse_to_time(pulse).unwrap();
        assert!(t >= last);
        last = t;
        pulse += 7;
    }
}

#[test]
fn default_tempo_without_tempo_events() {
    // A file with no set-tempo event plays at 120 beats per minute.
    let mut d = MIDIHandlerData::new();
    d.set_pulses_per_quarter_note(480).unwrap();
    assert_eq!(d.pulse_to_time(480).unwrap(), 500_000);
    assert_eq!(d.pulse_to_time(0).unwrap(), 0);
}

#[test]
fn no_time_accrues_before_the_first_tempo_change() {
    // When the first tempo change lies past pulse 0, the stretch before it
    // has no tempo and accrues no time.
    let mut d = MIDIHandlerData::new();
    d.set_pulses_per_quarter_note(96).unwrap();
    d.add_delta_time(100);
    d.record_tempo_change(500_000).unwrap();
    assert_eq!(d.pulse_to_time(50).unwrap(), 0);
    assert_eq!(d.pulse_to_time(100).unwrap(), 0);
    assert_eq!(d.pulse_to_time(196).unwrap(), 500_000);
}

#[test]
fn set_tempo_before_header_is_rejected() {
    let mut d = MIDIHandlerData::new();
    let r = d.meta_event(0, MetaEventKind::SetTempo, &vec![0x07, 0xA1, 0x20]);
    assert!(matches!(
        r,
        Err(RenderError::SequencingError(SequencingFault::TempoBeforeDivision))
    ));
}

#[test]
fn zero_division_is_rejected() {
    let mut d = MIDIHandlerData::new();
    let r = d.set_pulses_per_quarter_note(0);
    assert!(matches!(
        r,
        Err(RenderError::ConfigError(ConfigFault::ZeroPulsesPerQuarterNote))
    ));
}

#[test]
fn tempo_before_division_is_rejected() {
    let mut d = MIDIHandlerData::new();
    let r = d.record_tempo_change(500_000);
    assert!(matches!(
        r,
        Err(RenderError::SequencingError(SequencingFault::TempoBeforeDivision))
    ));
}

#[test]
fn query_without_division_is_rejected() {
    let d = MIDIHandlerData::new();
    let r = d.pulse_to_time(100);
    assert!(matches!(
        r,
        Err(RenderError::SequencingError(SequencingFault::QueryWithoutDivision))
    ));
}

#[test]
fn tempo_out_of_order_is_rejected() {
    let mut d = MIDIHandlerData::new();
    d.set_pulses_per_quarter_note(96).unwrap();
    d.add_delta_time(500);
    d.record_tempo_change(500_000).unwrap();
    d.track_change();
    let r = d.record_tempo_change(250_000);
    assert!(matches!(
        r,
        Err(RenderError::SequencingError(SequencingFault::TempoOutOfOrder))
    ));
}

#[test]
fn max_time_tracks_high_water_mark() {
    let mut d = MIDIHandlerData::new();
    d.set_pulses_per_quarter_note(96).unwrap();
    d.record_tempo_change(500_000).unwrap();
    d.add_delta_time(960);
    d.track_change();
    d.add_delta_time(96);
    // The longest track reached pulse 960; the cursor reset did not lower
    // the mark.
    assert_eq!(d.max_time().unwrap(), d.pulse_to_time(960).unwrap());
    assert_eq!(d.max_time().unwrap(), 5_000_000);
}

#[test]
fn set_tempo_payload_is_big_endian() {
    // 0x07A120 is 500000 microseconds per quarter note.
    let mut d = MIDIHandlerData::new();
    d.set_pulses_per_quarter_note(480).unwrap();
    d.meta_event(0, MetaEventKind::SetTempo, &vec![0x07, 0xA1, 0x20]).unwrap();
    assert_eq!(d.pulse_to_time(480).unwrap(), 500_000);
}

#[test]
fn other_meta_events_only_advance_time() {
    let mut d = MIDIHandlerData::new();
    d.set_pulses_per_quarter_note(480).unwrap();
    d.meta_event(120, MetaEventKind::Other, &vec![]).unwrap();
    d.sys_ex_event(60);
    assert_eq!(d.current_pulse, 180);
    assert_eq!(d.max_pulse, 180);
}

#[test]
fn track_change_rewinds_cursor_only() {
    let mut d = MIDIHandlerData::new();
    d.set_pulses_per_quarter_note(480).unwrap();
    d.add_delta_time(300);
    d.track_change();
    assert_eq!(d.current_pulse, 0);
    assert_eq!(d.max_pulse, 300);
}
