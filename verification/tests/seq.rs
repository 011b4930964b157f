use tone_smithy::arp::{ArpEvent, ArpEvents};
use tone_smithy::seq::{SeqEngine, SeqMode, StepData, SEQ_MAX_STEPS};

const HALF: f32 = 0.5;

fn step(offset: i8) -> StepData {
    StepData {
        note_offset: offset,
        velocity: 100,
        gate_bits: HALF.to_bits(),
        rest: false,
        tie: false,
        mod_bits: 0.0f32.to_bits(),
    }
}

/// A sequencer whose step `i` has offset `i`, so a pitch reveals its step.
fn make_seq(mode: SeqMode, length: usize, root: u8) -> (SeqEngine, [StepData; SEQ_MAX_STEPS]) {
    let mut s = SeqEngine::new();
    s.enabled = true;
    s.mode = mode;
    s.length = length;
    let mut steps = [step(0); SEQ_MAX_STEPS];
    for (i, st) in steps.iter_mut().enumerate() {
        st.note_offset = i as i8;
    }
    s.note_on(root, &steps);
    (s, steps)
}

/// One whole step of clock from phase 0: the current gate point is crossed
/// (unless the note's gate is zero), then the boundary; no new gate is behind the
/// phase carried into the next step.
fn full_step(s: &mut SeqEngine, steps: &[StepData; SEQ_MAX_STEPS]) -> ArpEvents {
    let gate = f32::from_bits(s.current_gate_bits);
    let gate_reached = 0.0 < gate && 1.0 >= gate;
    let closes = [false; SEQ_MAX_STEPS];
    s.clock(steps, gate_reached, true, &closes)
}

fn collect_notes(s: &mut SeqEngine, steps: &[StepData; SEQ_MAX_STEPS], n: usize) -> Vec<u8> {
    let mut notes = vec![s.current_note];
    for _ in 1..n {
        let evs = full_step(s, steps);
        for ev in evs.iter() {
            if let ArpEvent::NoteOn { note, .. } = *ev {
                notes.push(note);
            }
        }
    }
    notes
}

#[test]
fn forward_walks_and_wraps() {
    let (mut s, steps) = make_seq(SeqMode::Forward, 4, 60);
    assert_eq!(collect_notes(&mut s, &steps, 6), vec![60, 61, 62, 63, 60, 61]);
}

#[test]
fn reverse_walks_and_wraps() {
    let (mut s, steps) = make_seq(SeqMode::Reverse, 4, 60);
    assert_eq!(collect_notes(&mut s, &steps, 6), vec![63, 62, 61, 60, 63, 62]);
}

#[test]
fn pingpong_does_not_repeat_endpoints() {
    let (mut s, steps) = make_seq(SeqMode::PingPong, 4, 60);
    let notes = collect_notes(&mut s, &steps, 8);
    for pair in notes.windows(2) {
        assert_ne!(pair[0], pair[1], "consecutive notes should differ: {:?}", notes);
    }
    assert_eq!(notes, vec![60, 61, 62, 63, 62, 61, 60, 61]);
}

#[test]
fn rest_step_emits_no_note_on() {
    let (mut s, mut steps) = make_seq(SeqMode::Forward, 4, 60);
    steps[1].rest = true;
    let evs = full_step(&mut s, &steps);
    assert!(!evs.iter().any(|e| matches!(e, ArpEvent::NoteOn { .. })), "rest step must not fire a NoteOn");
    let evs = full_step(&mut s, &steps);
    assert!(
        evs.iter().any(|e| matches!(e, ArpEvent::NoteOn { note: 62, .. })),
        "step after the rest should sound"
    );
}

#[test]
fn tie_extends_note_forward_over_next_step() {
    let (mut s, mut steps) = make_seq(SeqMode::Forward, 2, 60);
    steps[0].tie = true;
    steps[0].gate_bits = 1.0f32.to_bits();
    // Re-arm so step 0's full gate is the latched one.
    s.clear();
    s.note_on(60, &steps);
    let evs = full_step(&mut s, &steps);
    assert_eq!(evs.iter().count(), 0, "tied note must ring on with no events");
    let evs = full_step(&mut s, &steps);
    assert!(
        evs.iter().any(|e| matches!(e, ArpEvent::NoteOff { note: 60 })),
        "held note should release when the tie chain ends"
    );
    assert!(
        evs.iter().any(|e| matches!(e, ArpEvent::NoteOn { note: 60, .. })),
        "step 0 should re-articulate after the tie"
    );
}

#[test]
fn tie_step_plays_its_note_then_consumes_the_next() {
    let (mut s, mut steps) = make_seq(SeqMode::Forward, 3, 60);
    steps[1].tie = true;
    let evs = full_step(&mut s, &steps);
    assert!(
        evs.iter().any(|e| matches!(e, ArpEvent::NoteOn { note: 61, .. })),
        "a tie step still articulates its own note"
    );
    let evs = full_step(&mut s, &steps);
    assert!(
        !evs.iter().any(|e| matches!(e, ArpEvent::NoteOn { .. })),
        "the step after a tie is consumed by the held note"
    );
}

#[test]
fn per_step_velocity_is_used() {
    let (mut s, mut steps) = make_seq(SeqMode::Forward, 2, 60);
    steps[1].velocity = 42;
    let evs = full_step(&mut s, &steps);
    let on = evs.iter().find_map(|e| match e {
        ArpEvent::NoteOn { velocity, .. } => Some(*velocity),
        _ => None,
    });
    assert_eq!(on, Some(42));
}

#[test]
fn gate_off_fires_within_step() {
    let (mut s, steps) = make_seq(SeqMode::Forward, 1, 60);
    // Half a step at gate 0.5: gate point is crossed, no boundary.
    let closes = [false; SEQ_MAX_STEPS];
    let evs = s.clock(&steps, true, false, &closes);
    assert!(evs.iter().any(|e| matches!(e, ArpEvent::NoteOff { .. })), "expected NoteOff at gate boundary");
}

#[test]
fn offset_transposes_to_root() {
    let (mut s, steps) = make_seq(SeqMode::Forward, 4, 72);
    assert_eq!(collect_notes(&mut s, &steps, 4), vec![72, 73, 74, 75]);
}

#[test]
fn lowest_held_note_is_the_root() {
    let (mut s, steps) = make_seq(SeqMode::Forward, 2, 64);
    s.note_on(60, &steps);
    let evs = full_step(&mut s, &steps);
    assert!(
        evs.iter().any(|e| matches!(e, ArpEvent::NoteOn { note: 61, .. })),
        "root should follow the lowest held note (60 + offset 1 = 61)"
    );
}

#[test]
fn no_events_when_no_notes_held() {
    let mut s = SeqEngine::new();
    s.enabled = true;
    assert!(!s.is_running());
    let evs = s.stop_clock();
    assert_eq!(evs.iter().count(), 0);
}

#[test]
fn mod_value_tracks_current_step() {
    let (mut s, mut steps) = make_seq(SeqMode::Forward, 4, 60);
    steps[0].mod_bits = (-0.5f32).to_bits();
    steps[1].mod_bits = 0.75f32.to_bits();
    s.clear();
    s.note_on(60, &steps);
    assert!((f32::from_bits(s.mod_value_bits()) - (-0.5)).abs() < 1e-6);
    full_step(&mut s, &steps);
    assert!((f32::from_bits(s.mod_value_bits()) - 0.75).abs() < 1e-6);
    s.enabled = false;
    assert_eq!(s.mod_value_bits(), 0);
}

#[test]
fn rest_on_first_step_does_not_fire() {
    let mut s = SeqEngine::new();
    s.enabled = true;
    let mut steps = [step(0); SEQ_MAX_STEPS];
    steps[0].rest = true;
    assert!(!s.note_on(60, &steps));
    assert_eq!(s.current_step(), Some(0));
}

#[test]
fn notes_clamp_to_midi_range() {
    let mut s = SeqEngine::new();
    s.enabled = true;
    let mut steps = [step(24); SEQ_MAX_STEPS];
    assert!(s.note_on(120, &steps));
    assert_eq!(s.current_note, 127);
    s.clear();
    steps[0].note_offset = -24;
    assert!(s.note_on(10, &steps));
    assert_eq!(s.current_note, 0);
}

#[test]
fn shortened_pattern_pulls_cursor_back() {
    let (mut s, steps) = make_seq(SeqMode::Reverse, 8, 60);
    assert_eq!(s.current_step(), Some(7));
    s.length = 3;
    full_step(&mut s, &steps);
    assert_eq!(s.current_step(), Some(2));
    s.length = 0; // clamps to one step
    full_step(&mut s, &steps);
    assert_eq!(s.current_step(), Some(0));
}

#[test]
fn mode_indices() {
    assert_eq!(SeqMode::from_index(0), SeqMode::Forward);
    assert_eq!(SeqMode::from_index(2), SeqMode::PingPong);
    assert_eq!(SeqMode::from_index(200), SeqMode::Random);
}

#[test]
fn seq_press_then_release_restores_held_notes() {
    let (mut s, steps) = make_seq(SeqMode::Forward, 4, 60);
    s.note_on(72, &steps);
    s.note_on(65, &steps);
    let before: Vec<u8> = s.held[..s.held_count].to_vec();
    s.note_on(65, &steps);
    s.note_off(65);
    assert_eq!(s.held[..s.held_count].to_vec(), before);
    assert_eq!(before, vec![60, 65, 72]);
}
