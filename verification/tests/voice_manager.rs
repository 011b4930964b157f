use tone_smithy::voice_manager::{VoiceManager, VoiceStatus, NOTE_COUNT, POLYPHONY};

/// The amplitude state of a pool that tracks note-ons and releases only:
/// a started voice is loud and attacking, a released voice is releasing.
struct Pool {
    alloc: VoiceManager,
    status: [VoiceStatus; POLYPHONY],
}

impl Pool {
    fn new() -> Self {
        Pool {
            alloc: VoiceManager::new(),
            status: [VoiceStatus { idle: true, releasing: false, level_key: 0 }; POLYPHONY],
        }
    }

    fn note_on(&mut self, note: u8) -> usize {
        let v = self.alloc.note_on(note, &self.status);
        self.status[v] = VoiceStatus { idle: false, releasing: false, level_key: 1000 };
        v
    }

    fn mark_released(&mut self, v: usize) {
        self.status[v].releasing = true;
    }

    fn note_off(&mut self, note: u8) -> Option<usize> {
        let r = self.alloc.note_off(note);
        if let Some(v) = r {
            self.mark_released(v);
        }
        r
    }

    fn set_sustain(&mut self, held: bool) {
        let released = self.alloc.set_sustain(held);
        for v in 0..POLYPHONY {
            if released[v] {
                self.mark_released(v);
            }
        }
    }

    fn holds(&self, note: u8) -> bool {
        self.alloc.held.iter().any(|h| *h == Some(note))
    }

    fn voice_holding(&self, note: u8) -> Option<usize> {
        (0..POLYPHONY).find(|&i| self.alloc.held[i] == Some(note))
    }
}

#[test]
fn fresh_allocator_holds_nothing() {
    let a = VoiceManager::new();
    assert!(a.held.iter().all(|h| h.is_none()));
    assert!(!a.sustain_held);
    assert_eq!(a.deferred_note_offs.len(), NOTE_COUNT);
    assert!(a.deferred_note_offs.iter().all(|d| !d));
}

#[test]
fn note_on_fills_idle_voices_in_order() {
    let mut p = Pool::new();
    assert_eq!(p.note_on(60), 0);
    assert_eq!(p.note_on(64), 1);
    assert_eq!(p.note_on(67), 2);
    assert_eq!(p.alloc.held[0], Some(60));
    assert_eq!(p.alloc.held[1], Some(64));
    assert_eq!(p.alloc.held[2], Some(67));
    assert_eq!(p.alloc.next_tick, 3);
}

#[test]
fn note_off_releases_the_matching_voice() {
    let mut p = Pool::new();
    p.note_on(60);
    p.note_on(64);
    assert_eq!(p.note_off(60), Some(0));
    assert!(!p.holds(60), "note 60 should no longer be held by any voice");
    assert!(p.holds(64), "note 64 should still be held");
    assert_eq!(p.alloc.note_off_tick[0], Some(2));
}

#[test]
fn note_off_for_unheld_note_is_a_no_op() {
    let mut p = Pool::new();
    p.note_on(60);
    let before = p.alloc.next_tick;
    assert_eq!(p.note_off(99), None);
    assert!(p.holds(60), "stray note-off should not affect held notes");
    assert_eq!(p.alloc.next_tick, before);
}

#[test]
fn thirty_two_simultaneous_notes_all_sound() {
    let mut p = Pool::new();
    for n in 0..POLYPHONY {
        let v = p.note_on(36 + n as u8);
        assert_eq!(v, n);
    }
    assert!(p.alloc.held.iter().all(|h| h.is_some()));
}

#[test]
fn thirty_third_note_steals_oldest_released() {
    let mut p = Pool::new();
    for n in 0..POLYPHONY {
        p.note_on(36 + n as u8);
    }
    p.note_off(36);
    p.note_off(37);
    p.note_off(38);
    let v = p.note_on(99);
    assert_eq!(v, 0, "expected voice 0 (oldest released) to be stolen");
    assert_eq!(p.voice_holding(99), Some(0));
}

#[test]
fn oldest_release_wins_regardless_of_voice_order() {
    let mut p = Pool::new();
    for n in 0..POLYPHONY {
        p.note_on(36 + n as u8);
    }
    p.note_off(40);
    p.note_off(37);
    assert_eq!(p.note_on(99), 4);
}

#[test]
fn thirty_third_note_with_no_release_steals_quietest() {
    let mut p = Pool::new();
    for n in 0..POLYPHONY {
        let v = p.note_on(36 + n as u8);
        // Earlier notes have attacked longer, so they are louder.
        p.status[v].level_key = 10_000 - n as u32;
    }
    let last = p.voice_holding(36 + POLYPHONY as u8 - 1);
    assert_eq!(last, Some(POLYPHONY - 1));
    let v = p.note_on(99);
    assert_eq!(Some(v), last, "expected quietest voice to be stolen");
}

#[test]
fn equal_levels_steal_the_oldest_note_on() {
    let mut p = Pool::new();
    for n in 0..POLYPHONY {
        p.note_on(36 + n as u8);
    }
    // Voice 0 is retriggered, so voice 1 now has the oldest note-on.
    p.alloc.note_off(36);
    p.status[0].releasing = false;
    p.alloc.note_on(50, &p.status);
    let v = p.alloc.allocate_voice(&p.status);
    assert_eq!(v, 1);
}

#[test]
fn idle_voice_beats_releasing_voice() {
    let mut p = Pool::new();
    p.note_on(60);
    p.note_on(62);
    p.note_off(60);
    // Voice 0 is releasing, voices 2.. are idle: the first idle one wins.
    assert_eq!(p.note_on(64), 2);
}

#[test]
fn sustain_defers_note_off_until_pedal_release() {
    let mut p = Pool::new();
    p.note_on(60);
    p.set_sustain(true);
    assert_eq!(p.note_off(60), None);
    assert!(p.holds(60), "note should still be held with sustain down");
    assert!(p.alloc.deferred_note_offs[60]);
    p.set_sustain(false);
    assert!(!p.holds(60), "note should release when pedal lifts");
    assert!(!p.alloc.deferred_note_offs[60]);
}

#[test]
fn retrigger_while_sustained_cancels_deferral() {
    let mut p = Pool::new();
    p.note_on(60);
    p.set_sustain(true);
    p.note_off(60);
    p.note_on(60);
    p.set_sustain(false);
    assert!(p.holds(60), "re-attack should cancel the deferred note-off");
}

#[test]
fn sustain_pedal_release_frees_all_voices_holding_same_note() {
    let mut p = Pool::new();
    p.set_sustain(true);
    p.note_on(60);
    p.note_off(60);
    p.note_on(62);
    p.note_off(62);
    p.note_on(60);
    p.note_off(60);
    p.set_sustain(false);
    assert!(
        p.alloc.held.iter().all(|h| h.is_none()),
        "all voices should release when pedal lifts; a voice is stuck"
    );
}

#[test]
fn sustain_with_no_deferred_notes_is_harmless() {
    let mut p = Pool::new();
    p.note_on(60);
    p.set_sustain(true);
    p.set_sustain(false);
    assert!(p.holds(60), "voice should remain held after empty sustain cycle");
}

#[test]
fn note_off_under_pedal_for_unheld_note_defers_nothing() {
    let mut p = Pool::new();
    p.set_sustain(true);
    p.note_off(70);
    assert!(!p.alloc.deferred_note_offs[70]);
}

#[test]
fn release_note_immediate_bypasses_the_pedal() {
    let mut p = Pool::new();
    p.note_on(60);
    p.set_sustain(true);
    p.note_off(60);
    assert_eq!(p.alloc.release_note_immediate(60), Some(0));
    assert!(!p.holds(60));
    assert!(!p.alloc.deferred_note_offs[60]);
    assert!(p.alloc.sustain_held);
}

#[test]
fn find_oldest_voice_holding_prefers_the_earliest_note_on() {
    let mut p = Pool::new();
    p.note_on(60);
    p.note_on(60);
    assert_eq!(p.alloc.find_oldest_voice_holding(60), Some(0));
    assert_eq!(p.alloc.find_oldest_voice_holding(61), None);
    p.note_off(60);
    assert_eq!(p.alloc.find_oldest_voice_holding(60), Some(1));
}

#[test]
fn all_notes_off_releases_every_voice() {
    let mut p = Pool::new();
    p.note_on(64);
    p.note_on(60);
    p.note_on(60);
    let released = p.alloc.all_notes_off();
    assert!(released[0] && released[1] && released[2]);
    assert!(!released[3]);
    assert!(p.alloc.held.iter().all(|h| h.is_none()));
    // Released in note order, then voice order.
    let t = |v: usize| p.alloc.note_off_tick[v].unwrap();
    assert_eq!(t(1), 3);
    assert_eq!(t(2), 4);
    assert_eq!(t(0), 5);
    assert_eq!(p.alloc.next_tick, 6);
}

#[test]
fn panic_clears_pedal_and_deferrals() {
    let mut p = Pool::new();
    p.note_on(60);
    p.set_sustain(true);
    p.note_off(60);
    let released = p.alloc.panic();
    assert!(released[0]);
    assert!(!p.alloc.sustain_held);
    assert!(p.alloc.deferred_note_offs.iter().all(|d| !d));
    assert!(!p.holds(60));
}

#[test]
fn retriggered_note_releases_the_older_voice_first() {
    let mut p = Pool::new();
    assert_eq!(p.note_on(60), 0);
    assert_eq!(p.note_on(60), 1);
    assert_eq!(p.note_off(60), Some(0));
    assert_eq!(p.note_off(60), Some(1));
    assert_eq!(p.note_off(60), None);
}
