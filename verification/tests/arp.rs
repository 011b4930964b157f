use tone_smithy::arp::{ArpEngine, ArpEvent, ArpEvents, ArpMode, ArpRate};

fn make_arp(mode: ArpMode, octaves: u8, notes: &[u8]) -> ArpEngine {
    let mut a = ArpEngine::new();
    a.enabled = true;
    a.mode = mode;
    a.octaves = octaves;
    for &n in notes {
        a.note_on(n);
    }
    a
}

/// One whole step of clock: the half-way gate is crossed, then the step
/// boundary, and the new step's gate is not yet reached.
fn full_step(a: &mut ArpEngine) -> ArpEvents {
    a.clock(true, true, false)
}

/// NoteOn pitches over `steps` step boundaries; the first note is the one
/// fired on key-down.
fn collect_notes(arp: &mut ArpEngine, steps: usize) -> Vec<u8> {
    let mut notes = vec![arp.current_note];
    for _ in 1..steps {
        let evs = full_step(arp);
        for ev in evs.iter() {
            if let ArpEvent::NoteOn { note, .. } = *ev {
                notes.push(note);
            }
        }
    }
    notes
}

#[test]
fn up_mode_ascends_then_wraps() {
    let mut a = make_arp(ArpMode::Up, 1, &[60, 64, 67]);
    let notes = collect_notes(&mut a, 6);
    assert_eq!(notes, vec![60, 64, 67, 60, 64, 67]);
}

#[test]
fn down_mode_descends_then_wraps() {
    let mut a = make_arp(ArpMode::Down, 1, &[60, 64, 67]);
    let notes = collect_notes(&mut a, 6);
    assert_eq!(notes, vec![60, 67, 64, 60, 67, 64]);
}

#[test]
fn updown_does_not_repeat_endpoints() {
    let mut a = make_arp(ArpMode::UpDown, 1, &[60, 64, 67]);
    let notes = collect_notes(&mut a, 8);
    for pair in notes.windows(2) {
        assert_ne!(pair[0], pair[1], "consecutive notes should differ: {:?}", notes);
    }
    assert_eq!(notes, vec![60, 64, 67, 64, 60, 64, 67, 64]);
}

#[test]
fn octave_expansion() {
    let mut a = make_arp(ArpMode::Up, 2, &[60, 64]);
    let notes = collect_notes(&mut a, 4);
    assert!(notes.contains(&72), "octave 2 C should appear: {:?}", notes);
    assert!(notes.contains(&76), "octave 2 E should appear: {:?}", notes);
    assert_eq!(notes, vec![60, 64, 72, 76]);
}

#[test]
fn no_events_when_held_empty() {
    let mut a = ArpEngine::new();
    a.enabled = true;
    assert!(!a.is_running());
    let evs = a.stop_clock();
    assert_eq!(evs.len(), 0);
}

#[test]
fn note_off_fires_before_step_end() {
    let mut a = make_arp(ArpMode::Up, 1, &[60]);
    let evs = full_step(&mut a);
    assert!(evs.iter().any(|e| matches!(e, ArpEvent::NoteOn { .. })), "NoteOn must fire first");
    // Half a step later gate point is crossed.
    let evs = a.clock(true, false, false);
    let has_off = evs.iter().any(|e| matches!(e, ArpEvent::NoteOff { .. }));
    assert!(has_off, "expected NoteOff at gate boundary");
}

#[test]
fn first_note_fires_immediately_only_when_enabled() {
    let mut a = ArpEngine::new();
    assert!(!a.note_on(60));
    let mut b = ArpEngine::new();
    b.enabled = true;
    assert!(b.note_on(62));
    assert_eq!(b.current_note, 62);
    assert!(!b.note_on(64));
}

#[test]
fn held_notes_stay_sorted_except_in_played_mode() {
    // 67 fires on key-down at index 0; 60 and 64 then sort in below it, so
    // the cursor walks on through [60, 64, 67] from index 0.
    let mut a = make_arp(ArpMode::Up, 1, &[67, 60, 64]);
    assert_eq!(collect_notes(&mut a, 3), vec![67, 64, 67]);
    let evs = full_step(&mut a);
    assert_eq!(evs.get(1), Some(ArpEvent::NoteOn { note: 60, velocity: 100 }));

    let mut p = make_arp(ArpMode::Played, 1, &[67, 60, 64]);
    assert_eq!(collect_notes(&mut p, 4), vec![67, 60, 64, 67]);
}

#[test]
fn note_off_removes_and_folds_cursor() {
    let mut a = make_arp(ArpMode::Up, 1, &[60, 64, 67]);
    full_step(&mut a);
    full_step(&mut a); // cursor on 67 (index 2)
    a.note_off(67);
    a.note_off(99); // not held: ignored
    assert_eq!(a.held_count(), 2);
    // Cursor 2 folds to 2 % 2 = 0, so the next step plays index 1.
    let evs = full_step(&mut a);
    assert!(evs.iter().any(|e| *e == ArpEvent::NoteOn { note: 64, velocity: 100 }));
}

#[test]
fn idle_note_off_releases_the_key_down_note() {
    let mut a = make_arp(ArpMode::Up, 1, &[60]);
    assert_eq!(a.take_idle_note_off(), None);
    a.note_off(60);
    assert_eq!(a.take_idle_note_off(), Some(60));
    assert_eq!(a.take_idle_note_off(), None);
}

#[test]
fn stop_clock_releases_sounding_note() {
    let mut a = make_arp(ArpMode::Up, 1, &[60]);
    a.enabled = false;
    let evs = a.stop_clock();
    assert_eq!(evs.len(), 1);
    assert_eq!(evs.get(0), Some(ArpEvent::NoteOff { note: 60 }));
    assert_eq!(a.stop_clock().len(), 0);
}

#[test]
fn clear_forgets_everything() {
    let mut a = make_arp(ArpMode::Up, 1, &[60, 64]);
    a.clear();
    assert_eq!(a.held_count(), 0);
    assert!(!a.is_running());
    assert_eq!(a.take_idle_note_off(), None);
    // A fresh key-down after clear starts at the canonical first step.
    assert!(a.note_on(70));
    assert_eq!(a.current_note, 70);
}

#[test]
fn short_gate_closes_within_the_step() {
    let mut a = make_arp(ArpMode::Up, 1, &[60, 62]);
    let evs = a.clock(true, true, true);
    let v: Vec<ArpEvent> = evs.iter().copied().collect();
    assert_eq!(
        v,
        vec![
            ArpEvent::NoteOff { note: 60 },
            ArpEvent::NoteOn { note: 62, velocity: 100 },
            ArpEvent::NoteOff { note: 62 },
        ]
    );
}

#[test]
fn step_boundary_without_gate_point_still_releases() {
    let mut a = make_arp(ArpMode::Up, 1, &[60, 62]);
    a.velocity = 90;
    let evs = a.clock(false, true, false);
    let v: Vec<ArpEvent> = evs.iter().copied().collect();
    assert_eq!(v, vec![ArpEvent::NoteOff { note: 60 }, ArpEvent::NoteOn { note: 62, velocity: 90 }]);
}

#[test]
fn swing_pairs_alternate_at_boundaries() {
    let mut a = make_arp(ArpMode::Up, 1, &[60]);
    assert!(a.even_step());
    full_step(&mut a);
    assert!(!a.even_step());
    a.clock(true, false, false);
    assert!(!a.even_step());
    full_step(&mut a);
    assert!(a.even_step());
    a.reset_clock();
    assert!(a.even_step());
}

#[test]
fn random_mode_stays_in_range() {
    let mut a = make_arp(ArpMode::Random, 3, &[60, 64]);
    for _ in 0..200 {
        let evs = full_step(&mut a);
        for ev in evs.iter() {
            if let ArpEvent::NoteOn { note, .. } = *ev {
                assert!([60, 64, 72, 76, 84, 88].contains(&note));
            }
        }
    }
}

#[test]
fn octave_offsets_saturate() {
    let mut a = make_arp(ArpMode::Down, 4, &[250]);
    assert_eq!(a.current_note, 255);
}

#[test]
fn thirty_third_note_is_ignored() {
    let mut a = ArpEngine::new();
    for n in 0..40u8 {
        a.note_on(n);
    }
    assert_eq!(a.held_count(), 32);
}

#[test]
fn mode_and_rate_indices() {
    assert_eq!(ArpMode::from_index(0), ArpMode::Up);
    assert_eq!(ArpMode::from_index(2), ArpMode::UpDown);
    assert_eq!(ArpMode::from_index(9), ArpMode::Played);
    assert_eq!(ArpRate::from_index(1), ArpRate::R16);
    assert_eq!(ArpRate::from_index(7), ArpRate::R2);
    assert_eq!(ArpRate::R32.thirty_seconds_per_step(), 1);
    assert_eq!(ArpRate::R8.thirty_seconds_per_step(), 4);
    assert_eq!(ArpRate::R2.thirty_seconds_per_step(), 16);
}

#[test]
fn event_list_holds_four() {
    let mut e = ArpEvents::new();
    for n in 0..6u8 {
        e.push(ArpEvent::NoteOff { note: n });
    }
    assert_eq!(e.len(), 4);
    assert_eq!(e.get(3), Some(ArpEvent::NoteOff { note: 3 }));
    assert_eq!(e.get(4), None);
    assert_eq!(e.iter().count(), 4);
}

#[test]
fn arp_press_then_release_restores_held_notes() {
    let mut a = make_arp(ArpMode::Up, 1, &[60, 67]);
    let before: Vec<u8> = a.held[..a.held_count].to_vec();
    a.note_on(64);
    assert_eq!(&a.held[..3], &[60, 64, 67]);
    a.note_off(64);
    assert_eq!(a.held[..a.held_count].to_vec(), before);
    // A repeated key goes in ahead of its earlier press in the sorted modes.
    a.note_on(60);
    a.note_off(60);
    assert_eq!(a.held[..a.held_count].to_vec(), before);
}

#[test]
fn played_mode_repeated_key_release_drops_the_earlier_press() {
    let mut a = make_arp(ArpMode::Played, 1, &[60, 67]);
    a.note_on(60);
    a.note_off(60);
    assert_eq!(&a.held[..a.held_count], &[67, 60]);
}
