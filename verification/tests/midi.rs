use tone_smithy::midi::{parse_midi_message, MidiEvent};

/// A 7-bit controller value on a 0..=1 scale, as the engine receives it.
fn normalised_7bit(raw: u8) -> f32 {
    f32::from(raw) / 127.0
}

/// A 14-bit pitch-bend value on a -1..1 scale, centre 8192.
fn normalised_bend(raw: u16) -> f32 {
    (f32::from(raw) - 8192.0) / 8192.0
}

#[test]
fn note_on_message_is_parsed_with_velocity() {
    let event = parse_midi_message(&[0x90, 60, 100]);
    assert_eq!(event, Some(MidiEvent::NoteOn { note_midi: 60, velocity: 100 }));
}

#[test]
fn note_off_message_is_parsed() {
    let event = parse_midi_message(&[0x80, 60, 64]);
    assert_eq!(event, Some(MidiEvent::NoteOff { note_midi: 60 }));
}

#[test]
fn note_off_needs_only_the_note_byte() {
    assert_eq!(parse_midi_message(&[0x80, 61]), Some(MidiEvent::NoteOff { note_midi: 61 }));
    assert_eq!(parse_midi_message(&[0x80]), None);
}

#[test]
fn velocity_zero_note_on_is_treated_as_note_off() {
    let event = parse_midi_message(&[0x90, 72, 0]);
    assert_eq!(event, Some(MidiEvent::NoteOff { note_midi: 72 }));
}

#[test]
fn channel_nibble_is_ignored() {
    let event = parse_midi_message(&[0x91, 60, 100]);
    assert_eq!(event, Some(MidiEvent::NoteOn { note_midi: 60, velocity: 100 }));
    let event = parse_midi_message(&[0x8F, 60, 64]);
    assert_eq!(event, Some(MidiEvent::NoteOff { note_midi: 60 }));
}

#[test]
fn empty_message_returns_none() {
    assert!(parse_midi_message(&[]).is_none());
}

#[test]
fn truncated_note_on_returns_none() {
    assert!(parse_midi_message(&[0x90, 60]).is_none());
    assert!(parse_midi_message(&[0x90]).is_none());
}

#[test]
fn unhandled_status_returns_none() {
    assert!(parse_midi_message(&[0xC0, 5]).is_none());
    assert!(parse_midi_message(&[0xF0, 1, 2]).is_none());
    assert!(parse_midi_message(&[0x40, 1, 2]).is_none());
}

#[test]
fn control_change_is_normalised_to_0_1() {
    match parse_midi_message(&[0xB0, 7, 127]) {
        Some(MidiEvent::ControlChange { cc: 7, value }) => {
            assert!((normalised_7bit(value) - 1.0).abs() < 1e-4);
        }
        other => panic!("unexpected {other:?}"),
    }
    match parse_midi_message(&[0xB0, 1, 64]) {
        Some(MidiEvent::ControlChange { cc: 1, value }) => {
            assert_eq!(value, 64);
            assert!((normalised_7bit(value) - 64.0 / 127.0).abs() < 1e-4);
        }
        other => panic!("unexpected {other:?}"),
    }
}

#[test]
fn sustain_cc_produces_sustain_variant() {
    assert_eq!(parse_midi_message(&[0xB0, 64, 127]), Some(MidiEvent::Sustain { held: true }));
    assert_eq!(parse_midi_message(&[0xB0, 64, 0]), Some(MidiEvent::Sustain { held: false }));
    assert_eq!(parse_midi_message(&[0xB0, 64, 63]), Some(MidiEvent::Sustain { held: false }));
    assert_eq!(parse_midi_message(&[0xB0, 64, 64]), Some(MidiEvent::Sustain { held: true }));
}

#[test]
fn all_sound_off_and_all_notes_off_ccs_map_to_panic() {
    assert_eq!(parse_midi_message(&[0xB0, 120, 0]), Some(MidiEvent::AllNotesOff));
    assert_eq!(parse_midi_message(&[0xB0, 123, 0]), Some(MidiEvent::AllNotesOff));
    assert_eq!(
        parse_midi_message(&[0xB0, 121, 0]),
        Some(MidiEvent::ControlChange { cc: 121, value: 0 })
    );
}

#[test]
fn pitch_bend_centre_is_zero() {
    let lsb: u8 = (8192u16 & 0x7F) as u8;
    let msb: u8 = ((8192u16 >> 7) & 0x7F) as u8;
    match parse_midi_message(&[0xE0, lsb, msb]) {
        Some(MidiEvent::PitchBend { value }) => {
            assert_eq!(value, 8192);
            assert!(normalised_bend(value).abs() < 1e-4);
        }
        other => panic!("unexpected {other:?}"),
    }
}

#[test]
fn pitch_bend_full_down_is_minus_one() {
    match parse_midi_message(&[0xE0, 0, 0]) {
        Some(MidiEvent::PitchBend { value }) => {
            assert_eq!(value, 0);
            assert!((normalised_bend(value) - (-1.0)).abs() < 1e-4);
        }
        other => panic!("unexpected {other:?}"),
    }
}

#[test]
fn pitch_bend_full_up_is_near_plus_one() {
    match parse_midi_message(&[0xE0, 0x7F, 0x7F]) {
        Some(MidiEvent::PitchBend { value }) => {
            assert_eq!(value, 16383);
            assert!(normalised_bend(value) > 0.99);
        }
        other => panic!("unexpected {other:?}"),
    }
}

#[test]
fn pitch_bend_combines_msb_and_lsb() {
    assert_eq!(parse_midi_message(&[0xE3, 0x01, 0x02]), Some(MidiEvent::PitchBend { value: 257 }));
}

#[test]
fn channel_aftertouch_is_normalised() {
    match parse_midi_message(&[0xD0, 127]) {
        Some(MidiEvent::ChannelAftertouch { value }) => {
            assert!((normalised_7bit(value) - 1.0).abs() < 1e-4);
        }
        other => panic!("unexpected {other:?}"),
    }
    match parse_midi_message(&[0xD0, 0]) {
        Some(MidiEvent::ChannelAftertouch { value }) => {
            assert!(normalised_7bit(value).abs() < 1e-4);
        }
        other => panic!("unexpected {other:?}"),
    }
}

#[test]
fn truncated_cc_returns_none() {
    assert!(parse_midi_message(&[0xB0, 7]).is_none());
    assert!(parse_midi_message(&[0xB0]).is_none());
}

#[test]
fn truncated_pitch_bend_returns_none() {
    assert!(parse_midi_message(&[0xE0, 0]).is_none());
    assert!(parse_midi_message(&[0xE0]).is_none());
}

#[test]
fn truncated_aftertouch_returns_none() {
    assert!(parse_midi_message(&[0xD0]).is_none());
}
