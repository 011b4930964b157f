use tone_smithy::arp::ArpMode;
use tone_smithy::engine::NoteRouter;
use tone_smithy::seq::{StepData, SEQ_MAX_STEPS};
use tone_smithy::update_check::update_notice;

fn steps(offset: i8, velocity: u8, rest: bool) -> [StepData; SEQ_MAX_STEPS] {
    [StepData {
        note_offset: offset,
        velocity,
        gate_bits: 0.5f32.to_bits(),
        rest,
        tie: false,
        mod_bits: 0,
    }; SEQ_MAX_STEPS]
}

#[test]
fn keys_play_voices_directly_without_note_engines() {
    let mut r = NoteRouter::new();
    let st = steps(0, 100, false);
    assert_eq!(r.note_on(60, 90, &st), Some((60, 90)));
    assert_eq!(r.note_on(64, 80, &st), Some((64, 80)));
    assert!(r.note_off(60));
    assert_eq!(r.arp.held_count, 1);
    assert_eq!(r.seq.held_count, 1);
}

#[test]
fn arpeggiator_fires_only_on_the_first_key() {
    let mut r = NoteRouter::new();
    r.arp.enabled = true;
    let st = steps(0, 100, false);
    assert_eq!(r.note_on(60, 90, &st), Some((60, 90)));
    assert!(r.arp.gate_open);
    assert_eq!(r.note_on(64, 90, &st), None);
    assert!(!r.note_off(64));
}

#[test]
fn arpeggiator_down_mode_fires_its_top_octave_first() {
    let mut r = NoteRouter::new();
    r.arp.enabled = true;
    r.arp.mode = ArpMode::Down;
    r.arp.octaves = 2;
    let st = steps(0, 100, false);
    assert_eq!(r.note_on(60, 70, &st), Some((72, 70)));
}

#[test]
fn sequencer_fires_its_first_step() {
    let mut r = NoteRouter::new();
    r.seq.enabled = true;
    let st = steps(3, 77, false);
    assert_eq!(r.note_on(60, 90, &st), Some((63, 77)));
    assert_eq!(r.note_on(62, 90, &st), None);
    assert!(!r.note_off(62));
}

#[test]
fn sequencer_rest_on_the_first_step_starts_nothing() {
    let mut r = NoteRouter::new();
    r.seq.enabled = true;
    let st = steps(0, 100, true);
    assert_eq!(r.note_on(60, 90, &st), None);
    assert_eq!(r.seq.held_count, 1);
}

#[test]
fn arpeggiator_wins_over_sequencer() {
    let mut r = NoteRouter::new();
    r.arp.enabled = true;
    r.seq.enabled = true;
    let st = steps(5, 50, false);
    assert_eq!(r.note_on(60, 90, &st), Some((60, 90)));
}

#[test]
fn both_note_engines_hold_every_key() {
    let mut r = NoteRouter::new();
    let st = steps(0, 100, false);
    for n in [67u8, 60, 64] {
        r.note_on(n, 100, &st);
    }
    assert_eq!(&r.arp.held[..3], &[60, 64, 67]);
    assert_eq!(&r.seq.held[..3], &[60, 64, 67]);
    r.note_off(64);
    assert_eq!(&r.arp.held[..2], &[60, 67]);
    assert_eq!(&r.seq.held[..2], &[60, 67]);
}

#[test]
fn all_notes_off_clears_both_note_engines() {
    let mut r = NoteRouter::new();
    r.arp.enabled = true;
    let st = steps(0, 100, false);
    r.note_on(60, 100, &st);
    r.note_on(62, 100, &st);
    r.all_notes_off();
    assert_eq!(r.arp.held_count, 0);
    assert_eq!(r.seq.held_count, 0);
    assert!(!r.arp.gate_open);
    assert_eq!(r.arp.step_index, usize::MAX);
    assert_eq!(r.seq.step_index, usize::MAX);
    assert!(r.arp.enabled);
}

#[test]
fn update_notice_announces_only_newer_tags() {
    let body = r#"{"url":"x","tag_name":"v1.3.0","name":"n"}"#;
    assert_eq!(update_notice(body, "1.2.0"), Some("v1.3.0".to_string()));
    assert_eq!(update_notice(body, "1.3.0"), None);
    assert_eq!(update_notice(body, "v2.0.0"), None);
    assert_eq!(update_notice(r#"{"name":"none"}"#, "0.0.0"), None);
}

#[test]
fn switching_the_arpeggiator_on_switches_the_sequencer_off() {
    let mut r = NoteRouter::new();
    assert_eq!(r.set_seq_enabled(true), (true, false));
    assert!(r.seq.enabled);
    assert_eq!(r.set_arp_enabled(true), (true, true));
    assert!(r.arp.enabled);
    assert!(!r.seq.enabled);
    assert_eq!(r.arp.step_index, usize::MAX);
    assert!(r.arp.even_step);
}

#[test]
fn switching_to_the_current_state_changes_nothing() {
    let mut r = NoteRouter::new();
    assert_eq!(r.set_arp_enabled(false), (false, false));
    r.set_arp_enabled(true);
    assert_eq!(r.set_arp_enabled(true), (false, false));
    assert_eq!(r.set_arp_enabled(false), (true, false));
    assert!(!r.arp.enabled);
}

#[test]
fn switching_the_sequencer_on_switches_the_arpeggiator_off() {
    let mut r = NoteRouter::new();
    r.set_arp_enabled(true);
    let st = steps(0, 100, false);
    r.note_on(60, 100, &st);
    assert_eq!(r.set_seq_enabled(true), (true, true));
    assert!(!r.arp.enabled);
    assert!(r.seq.enabled);
    assert!(r.seq.going_up);
    // The keys stay held by both.
    assert_eq!(r.arp.held_count, 1);
    assert_eq!(r.seq.held_count, 1);
}

#[test]
fn press_then_release_through_the_router_restores_both_engines() {
    let mut r = NoteRouter::new();
    let st = steps(0, 100, false);
    r.note_on(64, 100, &st);
    r.note_on(60, 100, &st);
    r.note_on(62, 100, &st);
    r.note_off(62);
    assert_eq!(&r.arp.held[..r.arp.held_count], &[60, 64]);
    assert_eq!(&r.seq.held[..r.seq.held_count], &[60, 64]);
}
