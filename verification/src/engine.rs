//! Note-event routing between the arpeggiator, the step sequencer and the
//! voice pool.
//!
//! Every key press and release feeds both note engines, whichever is
//! active, so that toggling between arpeggiator and sequencer mid-hold
//! always has a held set to step through. Only the active engine drives
//! the voices (the two are mutually exclusive, the arpeggiator first);
//! with neither enabled, keys play the voices directly.

use vstd::prelude::*;
use crate::arp::{ArpEngine, ArpMode, MAX_HELD, MAX_OCTAVES, lemma_position_of_bound};
use crate::seq::{SeqEngine, SeqMode, StepData, SEQ_MAX_STEPS};

verus! {

/// The note state of the engine.
pub struct NoteRouter {
    /// The arpeggiator.
    pub arp: ArpEngine,
    /// The step sequencer.
    pub seq: SeqEngine,
}

impl NoteRouter {
    /// Both note engines are well formed.
    pub open spec fn wf(&self) -> bool {
        self.arp.wf() && self.seq.wf()
    }

    /// A key press into an empty, enabled arpeggiator fires at once.
    pub open spec fn arp_fires(&self) -> bool {
        self.arp.enabled && self.arp.held_notes().len() == 0
    }

    /// A key press into an empty, enabled sequencer fires at once unless
    /// the step it lands on (`after`'s cursor) is a rest.
    pub open spec fn seq_fires(&self, after: SeqEngine, steps: Seq<StepData>) -> bool {
        self.seq.enabled && self.seq.held_notes().len() == 0 && !steps[after.step_index as int].rest
    }

    /// Both note engines as they start: disabled, holding no note, cursor
    /// not started, gate closed; the arpeggiator in Up mode over one
    /// octave, the sequencer playing all its steps forward.
    pub fn new() -> (r: Self)
        ensures
            r.wf(),
            !r.arp.enabled,
            !r.seq.enabled,
            r.arp.held_notes() == Seq::<u8>::empty(),
            r.seq.held_notes() == Seq::<u8>::empty(),
            r.arp.mode == ArpMode::Up,
            r.arp.octaves == 1,
            r.arp.velocity == 100,
            r.arp.step() == usize::MAX,
            !r.arp.gate_is_open(),
            r.seq.length == SEQ_MAX_STEPS,
            r.seq.mode == SeqMode::Forward,
            r.seq.step_index == usize::MAX,
            !r.seq.gate_open,
    {
        NoteRouter { arp: ArpEngine::new(), seq: SeqEngine::new() }
    }

    /// A key press: both note engines record it, and the note the voice
    /// pool starts is returned as `(note, velocity)`. With the arpeggiator
    /// enabled that is its first note, fired on the first key held, with
    /// the key's velocity; else with the sequencer enabled, its first step
    /// (the step's note and velocity) unless that step is a rest; with
    /// neither, the key itself.
    pub fn note_on(&mut self, note_midi: u8, velocity: u8, steps: &[StepData; SEQ_MAX_STEPS]) -> (start: Option<(u8, u8)>)
        requires
            old(self).wf(),
            old(self).arp_fires() ==> 1 <= old(self).arp.octaves <= MAX_OCTAVES,
        ensures
            final(self).wf(),
            ArpEngine::pressed(old(self).arp, final(self).arp, note_midi, old(self).arp_fires()),
            SeqEngine::pressed(
                old(self).seq,
                final(self).seq,
                steps@,
                note_midi,
                old(self).seq_fires(final(self).seq, steps@),
            ),
            old(self).arp.enabled ==> start == (if old(self).arp_fires() {
                Some((final(self).arp.current_note, velocity))
            } else {
                None
            }),
            !old(self).arp.enabled && old(self).seq.enabled ==> start == (if old(self).seq_fires(
                final(self).seq,
                steps@,
            ) {
                Some((final(self).seq.current_note, final(self).seq.current_velocity))
            } else {
                None
            }),
            !old(self).arp.enabled && !old(self).seq.enabled ==> start == Some((note_midi, velocity)),
    {
        let arp_first = self.arp.note_on(note_midi);
        let seq_first = self.seq.note_on(note_midi, steps);
        if self.arp.enabled {
            if arp_first {
                Some((self.arp.current_note, velocity))
            } else {
                None
            }
        } else if self.seq.enabled {
            if seq_first {
                Some((self.seq.current_note, self.seq.current_velocity))
            } else {
                None
            }
        } else {
            Some((note_midi, velocity))
        }
    }

    /// A key release: both note engines drop the key. Returns whether the
    /// voice pool gets the note-off itself, which is when neither note
    /// engine is enabled.
    pub fn note_off(&mut self, note_midi: u8) -> (to_voices: bool)
        requires
            old(self).wf(),
            old(self).arp.held_notes().contains(note_midi) && old(self).arp.held_notes().len() > 1
                && old(self).arp.step() != usize::MAX ==> 1 <= old(self).arp.octaves
                <= MAX_OCTAVES,
        ensures
            final(self).wf(),
            ArpEngine::released(old(self).arp, final(self).arp, note_midi),
            SeqEngine::released(old(self).seq, final(self).seq, note_midi),
            to_voices == (!old(self).arp.enabled && !old(self).seq.enabled),
    {
        let to_voices = !self.arp.enabled && !self.seq.enabled;
        self.arp.note_off(note_midi);
        self.seq.note_off(note_midi);
        to_voices
    }

    /// Stuck-note recovery: both note engines drop every held key, close
    /// their gate and stop their cursor. (The voice pool panics alongside.)
    pub fn all_notes_off(&mut self)
        requires
            old(self).wf(),
        ensures
            final(self).wf(),
            final(self).arp == (ArpEngine {
                held_count: 0,
                gate_open: false,
                step_index: usize::MAX,
                ..old(self).arp
            }),
            final(self).seq == (SeqEngine {
                held_count: 0,
                gate_open: false,
                step_index: usize::MAX,
                current_mod_bits: 0,
                ..old(self).seq
            }),
            final(self).arp.held_notes() == Seq::<u8>::empty(),
            final(self).seq.held_notes() == Seq::<u8>::empty(),
    {
        self.arp.clear();
        self.seq.clear();
    }

    /// `after` is `before` with the arpeggiator switched to `on`: nothing
    /// changes when it already is; otherwise it switches, and switching it
    /// on also restarts its clock and switches the sequencer off.
    pub open spec fn arp_switched(before: NoteRouter, after: NoteRouter, on: bool) -> bool {
        if on == before.arp.enabled {
            after == before
        } else {
            &&& after.arp == (if on {
                ArpEngine {
                    enabled: true,
                    step_index: usize::MAX,
                    gate_open: false,
                    even_step: true,
                    ..before.arp
                }
            } else {
                ArpEngine { enabled: false, ..before.arp }
            })
            &&& after.seq == SeqEngine { enabled: before.seq.enabled && !on, ..before.seq }
        }
    }

    /// `after` is `before` with the sequencer switched to `on`: nothing
    /// changes when it already is; otherwise it switches, and switching it
    /// on also restarts its clock and switches the arpeggiator off.
    pub open spec fn seq_switched(before: NoteRouter, after: NoteRouter, on: bool) -> bool {
        if on == before.seq.enabled {
            after == before
        } else {
            &&& after.seq == (if on {
                SeqEngine {
                    enabled: true,
                    step_index: usize::MAX,
                    gate_open: false,
                    even_step: true,
                    going_up: true,
                    ..before.seq
                }
            } else {
                SeqEngine { enabled: false, ..before.seq }
            })
            &&& after.arp == ArpEngine { enabled: before.arp.enabled && !on, ..before.arp }
        }
    }

    /// Switches the arpeggiator on or off. Returns `(voices_off,
    /// seq_off)`: whether the voice pool releases every voice (on either
    /// transition, so that the arpeggiator takes over from direct notes or
    /// stops its own), and whether the sequencer was switched off to keep
    /// the two exclusive.
    pub fn set_arp_enabled(&mut self, on: bool) -> (r: (bool, bool))
        requires
            old(self).wf(),
        ensures
            final(self).wf(),
            NoteRouter::arp_switched(*old(self), *final(self), on),
            r == (on != old(self).arp.enabled, on && !old(self).arp.enabled && old(self).seq.enabled),
    {
        if on == self.arp.enabled {
            return (false, false);
        }
        self.arp.enabled = on;
        let mut seq_off = false;
        if on {
            self.arp.reset_clock();
            if self.seq.enabled {
                self.seq.enabled = false;
                seq_off = true;
            }
        }
        (true, seq_off)
    }

    /// Switches the sequencer on or off. Returns `(voices_off, arp_off)`:
    /// whether the voice pool releases every voice, and whether the
    /// arpeggiator was switched off to keep the two exclusive.
    pub fn set_seq_enabled(&mut self, on: bool) -> (r: (bool, bool))
        requires
            old(self).wf(),
        ensures
            final(self).wf(),
            NoteRouter::seq_switched(*old(self), *final(self), on),
            r == (on != old(self).seq.enabled, on && !old(self).seq.enabled && old(self).arp.enabled),
    {
        if on == self.seq.enabled {
            return (false, false);
        }
        self.seq.enabled = on;
        let mut arp_off = false;
        if on {
            self.seq.reset_clock();
            if self.arp.enabled {
                self.arp.enabled = false;
                arp_off = true;
            }
        }
        (true, arp_off)
    }
}

/// The arpeggiator and the sequencer never clock together: switching
/// either one keeps at most one of them enabled, and the one switched on
/// is the one that runs.
pub proof fn lemma_switches_keep_engines_exclusive(before: NoteRouter, after: NoteRouter, on: bool)
    requires
        !(before.arp.enabled && before.seq.enabled),
        NoteRouter::arp_switched(before, after, on) || NoteRouter::seq_switched(before, after, on),
    ensures
        !(after.arp.enabled && after.seq.enabled),
        NoteRouter::arp_switched(before, after, on) && on ==> after.arp.enabled,
        NoteRouter::seq_switched(before, after, on) && on ==> after.seq.enabled,
{
}

/// Switching a note engine leaves the keys both engines hold untouched.
pub proof fn lemma_switches_keep_keys(before: NoteRouter, after: NoteRouter, on: bool)
    requires
        NoteRouter::arp_switched(before, after, on) || NoteRouter::seq_switched(before, after, on),
    ensures
        after.arp.held_notes() == before.arp.held_notes(),
        after.seq.held_notes() == before.seq.held_notes(),
{
}

/// Both note engines hold the same keys in the same order, which is so
/// while the arpeggiator is in a sorted mode.
pub open spec fn same_keys(r: NoteRouter) -> bool {
    r.arp.held_notes() == r.seq.held_notes()
}

/// In the sorted arpeggiator modes the arpeggiator and the sequencer hold
/// the same keys: a key press keeps them together.
pub proof fn lemma_press_keeps_keys_together(
    before: NoteRouter,
    after: NoteRouter,
    steps: Seq<StepData>,
    note_midi: u8,
    arp_fired: bool,
    seq_fired: bool,
)
    requires
        before.wf(),
        same_keys(before),
        before.arp.mode != ArpMode::Played,
        ArpEngine::pressed(before.arp, after.arp, note_midi, arp_fired),
        SeqEngine::pressed(before.seq, after.seq, steps, note_midi, seq_fired),
    ensures
        same_keys(after),
{
}

/// In the sorted arpeggiator modes the arpeggiator and the sequencer hold
/// the same keys: a key release keeps them together.
pub proof fn lemma_release_keeps_keys_together(
    before: NoteRouter,
    after: NoteRouter,
    note_midi: u8,
)
    requires
        same_keys(before),
        ArpEngine::released(before.arp, after.arp, note_midi),
        SeqEngine::released(before.seq, after.seq, note_midi),
    ensures
        same_keys(after),
{
    lemma_position_of_bound(before.arp.held_notes(), note_midi);
}

/// A key pressed and released again through the router leaves both note
/// engines holding what they held, when the key goes in ahead of any
/// earlier press of it (always in the sorted arpeggiator modes).
pub proof fn lemma_router_press_then_release(
    before: NoteRouter,
    mid: NoteRouter,
    after: NoteRouter,
    steps: Seq<StepData>,
    note_midi: u8,
    arp_fired: bool,
    seq_fired: bool,
)
    requires
        before.wf(),
        before.arp.held_notes().len() < MAX_HELD,
        before.seq.held_notes().len() < MAX_HELD,
        before.arp.mode != ArpMode::Played || !before.arp.held_notes().contains(note_midi),
        ArpEngine::pressed(before.arp, mid.arp, note_midi, arp_fired),
        SeqEngine::pressed(before.seq, mid.seq, steps, note_midi, seq_fired),
        ArpEngine::released(mid.arp, after.arp, note_midi),
        SeqEngine::released(mid.seq, after.seq, note_midi),
    ensures
        after.arp.held_notes() == before.arp.held_notes(),
        after.seq.held_notes() == before.seq.held_notes(),
{
    crate::arp::lemma_press_then_release(before.arp, mid.arp, after.arp, note_midi, arp_fired);
    crate::seq::lemma_seq_press_then_release(
        before.seq,
        mid.seq,
        after.seq,
        steps,
        note_midi,
        seq_fired,
    );
}

} // verus!
