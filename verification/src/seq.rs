//! Step-sequencer note scheduling.
//!
//! A sibling of the arpeggiator: where the arp walks the held notes, the
//! sequencer walks a fixed pattern of up to 16 steps, each a note offset
//! transposed by the lowest held note (the "root"), with a velocity, a rest
//! flag and a tie flag. [`SeqEngine`] holds the held notes, the cursor over
//! the active steps, the sounding note and the note's gate; the tempo clock that
//! decides when a gate or step boundary is crossed drives it.
//!
//! A step's gate fraction and mod-lane value are real numbers that only the
//! clock interprets; the scheduler carries them as opaque 32-bit patterns
//! and latches the current step's pair.

use vstd::prelude::*;
use crate::arp::{
    lemma_insert_then_remove,
    lemma_xorshift32_moves,
    lemma_lower_bound_bounds,
    lemma_no_immediate_repeat,
    lemma_step_in_range,
    ArpEvent,
    ArpEvents,
    ArpMode,
    MAX_HELD,
    sorted,
    lower_bound,
    position_of,
    inserted,
    step_after,
    xorshift32,
    lemma_lower_bound,
    lemma_position_of,
    lemma_sorted_insert,
    lemma_sorted_remove,
};

verus! {

/// Maximum sequencer steps.
pub const SEQ_MAX_STEPS: usize = 16;

/// Playback order across the active step range `0..length`.
#[derive(Debug, Clone, Copy, PartialEq, Eq, Structural)]
pub enum SeqMode {
    Forward,
    Reverse,
    PingPong,
    Random,
}

impl SeqMode {
    /// Decodes the discrete parameter index (0=Forward 1=Reverse
    /// 2=PingPong, anything else Random).
    pub fn from_index(i: u8) -> (m: Self)
        ensures
            i == 0 ==> m == SeqMode::Forward,
            i == 1 ==> m == SeqMode::Reverse,
            i == 2 ==> m == SeqMode::PingPong,
            i >= 3 ==> m == SeqMode::Random,
    {
        match i {
            0 => SeqMode::Forward,
            1 => SeqMode::Reverse,
            2 => SeqMode::PingPong,
            _ => SeqMode::Random,
        }
    }

    /// The arpeggiator order that walks the steps the same way.
    pub open spec fn walk(self) -> ArpMode {
        match self {
            SeqMode::Forward => ArpMode::Up,
            SeqMode::Reverse => ArpMode::Down,
            SeqMode::PingPong => ArpMode::UpDown,
            SeqMode::Random => ArpMode::Random,
        }
    }
}

/// The scheduling data of one step.
#[derive(Debug, Clone, Copy, PartialEq, Eq, Structural)]
pub struct StepData {
    /// Semitone offset from the held root, -24..=24.
    pub note_offset: i8,
    /// Step velocity, 0..=127.
    pub velocity: u8,
    /// Bit pattern of the step's gate fraction (carried, not read).
    pub gate_bits: u32,
    /// When true the step is silent.
    pub rest: bool,
    /// When true the step's note extends into the following step instead
    /// of releasing: the next step does not retrigger.
    pub tie: bool,
    /// Bit pattern of the step's mod-lane value (carried, not read).
    pub mod_bits: u32,
}

/// The number of active steps for a configured length.
pub open spec fn active_len(length: usize) -> int {
    if length < 1 {
        1
    } else if length > SEQ_MAX_STEPS {
        SEQ_MAX_STEPS as int
    } else {
        length as int
    }
}

/// The root transposed by a step offset, clamped to the MIDI range.
pub open spec fn step_note(root: u8, offset: i8) -> u8 {
    let v = root + offset;
    if v < 0 {
        0
    } else if v > 127 {
        127
    } else {
        v as u8
    }
}

/// The cursor position after one step of mode `mode` over `len` active
/// steps, pulled back inside when a shortened pattern left it outside.
pub open spec fn seq_step_after(mode: SeqMode, idx: usize, going_up: bool, len: int, rng: u32) -> (
    usize,
    bool,
) {
    let (i, up) = step_after(mode.walk(), idx, going_up, len, rng);
    (
        if i >= len {
            (len - 1) as usize
        } else {
            i
        },
        up,
    )
}

/// The step-sequencer's note scheduling.
pub struct SeqEngine {
    pub enabled: bool,
    /// Active step count, 1..=`SEQ_MAX_STEPS`.
    pub length: usize,
    pub mode: SeqMode,
    /// MIDI note numbers, ascending. `held[0]` is the root.
    pub held: [u8; MAX_HELD],
    pub held_count: usize,
    /// Cursor into `0..length`; `usize::MAX` means "not started".
    pub step_index: usize,
    /// Whether the note's gate is open (NoteOn sent, NoteOff not yet).
    pub gate_open: bool,
    /// Currently sounding MIDI note.
    pub current_note: u8,
    /// Velocity of the currently sounding step.
    pub current_velocity: u8,
    /// Gate fraction of the currently sounding step (bit pattern).
    pub current_gate_bits: u32,
    /// Mod-lane value of the current step (bit pattern).
    pub current_mod_bits: u32,
    /// Direction flag for PingPong (true = ascending).
    pub going_up: bool,
    /// Whether this is an even step in the pair (for swing).
    pub even_step: bool,
    /// xorshift32 state for Random mode.
    pub rng: u32,
}

impl SeqEngine {
    pub open spec fn held_notes(&self) -> Seq<u8> {
        self.held@.take(self.held_count as int)
    }

    /// The held list is ascending and the cursor is a step index or "not
    /// started".
    pub open spec fn wf(&self) -> bool {
        &&& self.held_count <= MAX_HELD
        &&& sorted(self.held_notes())
        &&& self.step_index == usize::MAX || self.step_index < SEQ_MAX_STEPS
    }

    /// `after` is `before` with its cursor moved one step, the new step's
    /// mod-lane value latched.
    pub open spec fn stepped(before: SeqEngine, after: SeqEngine, steps: Seq<StepData>) -> bool {
        let (i, up) = seq_step_after(
            before.mode,
            before.step_index,
            before.going_up,
            active_len(before.length),
            before.rng,
        );
        &&& after.step_index == i
        &&& after.going_up == up
        &&& after.rng == (if before.mode == SeqMode::Random {
            xorshift32(before.rng)
        } else {
            before.rng
        })
        &&& after.current_mod_bits == steps[i as int].mod_bits
    }

    /// A disabled 16-step forward sequencer at 1/16 with nothing held.
    pub fn new() -> (r: Self)
        ensures
            r.wf(),
            !r.enabled,
            r.length == SEQ_MAX_STEPS,
            r.mode == SeqMode::Forward,
            r.held_notes() == Seq::<u8>::empty(),
            r.step_index == usize::MAX,
            !r.gate_open,
            r.current_note == 0,
            r.current_velocity == 100,
            r.current_gate_bits == 0x3f00_0000u32,
            r.current_mod_bits == 0,
            r.going_up,
            r.even_step,
            r.rng == 0x1234_5678u32,
    {
        let r = SeqEngine {
            enabled: false,
            length: SEQ_MAX_STEPS,
            mode: SeqMode::Forward,
            held: [0; MAX_HELD],
            held_count: 0,
            step_index: usize::MAX,
            gate_open: false,
            current_note: 0,
            current_velocity: 100,
            current_gate_bits: 0x3f00_0000,
            current_mod_bits: 0,
            going_up: true,
            even_step: true,
            rng: 0x1234_5678,
        };
        assert(r.held_notes() =~= Seq::<u8>::empty());
        r
    }

    /// Whether the clock runs: enabled with at least one held note.
    pub fn is_running(&self) -> (b: bool)
        requires
            self.wf(),
        ensures
            b == (self.enabled && self.held_notes().len() > 0),
    {
        self.enabled && self.held_count > 0
    }

    /// Number of held notes.
    pub fn held_count(&self) -> (n: usize)
        requires
            self.wf(),
        ensures
            n == self.held_notes().len(),
    {
        self.held_count
    }

    /// Current mod-lane value (bit pattern), or 0 (the pattern of 0.0)
    /// when the sequencer is not running.
    pub fn mod_value_bits(&self) -> (b: u32)
        requires
            self.wf(),
        ensures
            b == (if self.enabled && self.held_notes().len() > 0 {
                self.current_mod_bits
            } else {
                0
            }),
    {
        if self.enabled && self.held_count > 0 {
            self.current_mod_bits
        } else {
            0
        }
    }

    /// Index of the step under the cursor, or `None` when idle.
    pub fn current_step(&self) -> (r: Option<usize>)
        requires
            self.wf(),
        ensures
            r == (if self.enabled && self.held_notes().len() > 0 && self.step_index != usize::MAX {
                Some(self.step_index)
            } else {
                None
            }),
    {
        if self.enabled && self.held_count > 0 && self.step_index != usize::MAX {
            Some(self.step_index)
        } else {
            None
        }
    }

    /// Active number of steps, `length` clamped to `1..=SEQ_MAX_STEPS`.
    fn active_len(&self) -> (n: usize)
        ensures
            n == active_len(self.length),
    {
        if self.length < 1 {
            1
        } else if self.length > SEQ_MAX_STEPS {
            SEQ_MAX_STEPS
        } else {
            self.length
        }
    }

    /// The note of step `idx`: the root transposed by its offset.
    fn note_at(&self, steps: &[StepData; SEQ_MAX_STEPS], idx: usize) -> (n: u8)
        requires
            0 < self.held_count <= MAX_HELD,
            idx < SEQ_MAX_STEPS,
        ensures
            n == step_note(self.held_notes()[0], steps@[idx as int].note_offset),
    {
        let root = self.held[0] as i16;
        let v = root + steps[idx].note_offset as i16;
        if v < 0 {
            0
        } else if v > 127 {
            127
        } else {
            v as u8
        }
    }

    /// Moves the cursor one step and latches the new step's mod value.
    fn advance_step(&mut self, steps: &[StepData; SEQ_MAX_STEPS])
        requires
            old(self).wf(),
        ensures
            final(self).wf(),
            SeqEngine::stepped(*old(self), *final(self), steps@),
            final(self).step_index < active_len(old(self).length),
            *final(self) == (SeqEngine {
                step_index: final(self).step_index,
                going_up: final(self).going_up,
                rng: final(self).rng,
                current_mod_bits: final(self).current_mod_bits,
                ..*old(self)
            }),
    {
        let len = self.active_len();
        let fresh = self.step_index == usize::MAX;
        match self.mode {
            SeqMode::Forward => {
                self.step_index = if fresh {
                    0
                } else {
                    (self.step_index + 1) % len
                };
            },
            SeqMode::Reverse => {
                self.step_index = if fresh || self.step_index == 0 {
                    len - 1
                } else {
                    self.step_index - 1
                };
            },
            SeqMode::PingPong => {
                if len <= 1 {
                    self.step_index = 0;
                } else if fresh {
                    self.step_index = 0;
                    self.going_up = true;
                } else if self.going_up {
                    if self.step_index + 1 >= len {
                        self.going_up = false;
                        self.step_index = len - 2;
                    } else {
                        self.step_index += 1;
                    }
                } else if self.step_index == 0 {
                    self.going_up = true;
                    self.step_index = 1;
                } else {
                    self.step_index -= 1;
                }
            },
            SeqMode::Random => {
                let mut r = self.rng;
                r = r ^ (r << 13u32);
                r = r ^ (r >> 17u32);
                r = r ^ (r << 5u32);
                self.rng = r;
                self.step_index = (r as usize) % len;
            },
        }
        proof {
            vstd::arithmetic::div_mod::lemma_mod_pos_bound(old(self).step_index + 1, len as int);
            vstd::arithmetic::div_mod::lemma_mod_pos_bound(self.rng as int, len as int);
        }
        if self.step_index >= len {
            self.step_index = len - 1;
        }
        self.current_mod_bits = steps[self.step_index].mod_bits;
    }

    /// The playback state is unchanged between `a` and `b`.
    pub open spec fn same_playback(a: SeqEngine, b: SeqEngine) -> bool {
        &&& a.step_index == b.step_index
        &&& a.going_up == b.going_up
        &&& a.rng == b.rng
        &&& a.gate_open == b.gate_open
        &&& a.current_note == b.current_note
        &&& a.current_velocity == b.current_velocity
        &&& a.current_gate_bits == b.current_gate_bits
        &&& a.current_mod_bits == b.current_mod_bits
        &&& a.even_step == b.even_step
    }

    /// The configuration is unchanged between `a` and `b`.
    pub open spec fn same_config(a: SeqEngine, b: SeqEngine) -> bool {
        &&& a.enabled == b.enabled
        &&& a.length == b.length
        &&& a.mode == b.mode
    }

    /// `after` is `before` once `midi_note` was pressed; `fired` tells
    /// whether a note fired at once. The note joins the ascending held
    /// notes unless all [`MAX_HELD`] places are taken. The first note into
    /// an enabled sequencer starts playback on the first step, which fires
    /// unless it is a rest: the step's offset from the pressed note, its
    /// velocity and its gate.
    pub open spec fn pressed(
        before: SeqEngine,
        after: SeqEngine,
        steps: Seq<StepData>,
        midi_note: u8,
        fired: bool,
    ) -> bool {
        let s = before.held_notes();
        &&& SeqEngine::same_config(before, after)
        &&& s.len() >= MAX_HELD ==> !fired && after == before
        &&& s.len() < MAX_HELD ==> {
            let start = s.len() == 0 && before.enabled;
            let st = steps[after.step_index as int];
            &&& after.held_notes() == inserted(s, lower_bound(s, midi_note) as int, midi_note)
            &&& !start ==> !fired && SeqEngine::same_playback(before, after)
            &&& start ==> {
                &&& after.even_step
                &&& SeqEngine::stepped(before, after, steps)
                &&& fired == !st.rest
                &&& after.gate_open == !st.rest
                &&& st.rest ==> after.current_note == before.current_note
                    && after.current_velocity == before.current_velocity
                    && after.current_gate_bits == before.current_gate_bits
                &&& !st.rest ==> after.current_note == step_note(midi_note, st.note_offset)
                    && after.current_velocity == st.velocity && after.current_gate_bits
                    == st.gate_bits
            }
        }
    }

    /// `after` is `before` once `midi_note` was released: its first
    /// occurrence leaves the held notes and playback carries on; a note
    /// not held changes nothing.
    pub open spec fn released(before: SeqEngine, after: SeqEngine, midi_note: u8) -> bool {
        let s = before.held_notes();
        let p = position_of(s, midi_note);
        &&& p == s.len() ==> after == before
        &&& p < s.len() ==> after.held_notes() == s.remove(p as int) && SeqEngine::same_config(
            before,
            after,
        ) && SeqEngine::same_playback(before, after)
    }

    /// Records a held note (ascending, so `held[0]` is the root). Returns
    /// `true` when the caller should fire `current_note` at once: this is
    /// the first note into an empty, enabled sequencer and the canonical
    /// first step is not a rest. A 33rd note is ignored.
    pub fn note_on(&mut self, midi_note: u8, steps: &[StepData; SEQ_MAX_STEPS]) -> (fired: bool)
        requires
            old(self).wf(),
        ensures
            final(self).wf(),
            SeqEngine::pressed(*old(self), *final(self), steps@, midi_note, fired),
    {
        if self.held_count >= MAX_HELD {
            return false;
        }
        let ghost s = self.held_notes();
        let ghost h0 = self.held@;
        let count = self.held_count;
        let was_empty = count == 0;
        let mut pos: usize = 0;
        while pos < count && self.held[pos] < midi_note
            invariant
                pos <= count,
                count == self.held_count,
                count < MAX_HELD,
                self.held@ == h0,
                s == h0.take(count as int),
                forall|j: int| 0 <= j < pos ==> #[trigger] s[j] < midi_note,
            decreases count - pos,
        {
            pos += 1;
        }
        proof {
            lemma_lower_bound(s, midi_note, pos as int);
            lemma_sorted_insert(s, midi_note, pos as int);
        }
        let mut j = count;
        while j > pos
            invariant
                pos <= j <= count,
                count == self.held_count,
                count < MAX_HELD,
                forall|k: int| 0 <= k < j ==> self.held@[k] == h0[k],
                forall|k: int| j < k <= count ==> self.held@[k] == h0[k - 1],
                SeqEngine::same_config(*old(self), *self),
                SeqEngine::same_playback(*old(self), *self),
                self.held_count == old(self).held_count,
            decreases j - pos,
        {
            let x = self.held[j - 1];
            self.held[j] = x;
            j -= 1;
        }
        self.held[pos] = midi_note;
        self.held_count = count + 1;
        assert(self.held_notes() =~= inserted(s, pos as int, midi_note));
        if was_empty && self.enabled {
            self.even_step = true;
            self.advance_step(steps);
            let st = steps[self.step_index];
            if st.rest {
                self.gate_open = false;
                return false;
            }
            assert(self.held_notes()[0] == midi_note);
            self.current_note = self.note_at(steps, self.step_index);
            self.current_velocity = st.velocity;
            self.current_gate_bits = st.gate_bits;
            self.gate_open = true;
            return true;
        }
        false
    }

    /// Removes the first occurrence of a released note.
    pub fn note_off(&mut self, midi_note: u8)
        requires
            old(self).wf(),
        ensures
            final(self).wf(),
            SeqEngine::released(*old(self), *final(self), midi_note),
    {
        let ghost s = self.held_notes();
        let ghost h0 = self.held@;
        let count = self.held_count;
        let mut pos: usize = 0;
        while pos < count && self.held[pos] != midi_note
            invariant
                pos <= count,
                count == self.held_count,
                count <= MAX_HELD,
                self.held@ == h0,
                s == h0.take(count as int),
                forall|j: int| 0 <= j < pos ==> #[trigger] s[j] != midi_note,
            decreases count - pos,
        {
            pos += 1;
        }
        proof {
            lemma_position_of(s, midi_note, pos as int);
        }
        if pos == count {
            return;
        }
        proof {
            lemma_sorted_remove(s, pos as int);
        }
        let mut j = pos;
        while j + 1 < count
            invariant
                pos <= j < count,
                count == self.held_count,
                count <= MAX_HELD,
                forall|k: int| 0 <= k < pos ==> self.held@[k] == h0[k],
                forall|k: int| pos <= k < j ==> self.held@[k] == h0[k + 1],
                forall|k: int| j <= k < MAX_HELD ==> self.held@[k] == h0[k],
                SeqEngine::same_config(*old(self), *self),
                SeqEngine::same_playback(*old(self), *self),
            decreases count - j,
        {
            let x = self.held[j + 1];
            self.held[j] = x;
            j += 1;
        }
        self.held_count = count - 1;
        assert(self.held_notes() =~= s.remove(pos as int));
    }

    /// Clears all held notes, closes the note's gate, stops the cursor and zeroes
    /// the mod lane (the panic / all-notes-off path).
    pub fn clear(&mut self)
        ensures
            *final(self) == (SeqEngine {
                held_count: 0,
                gate_open: false,
                step_index: usize::MAX,
                current_mod_bits: 0,
                ..*old(self)
            }),
            final(self).held_notes() == Seq::<u8>::empty(),
    {
        self.held_count = 0;
        self.gate_open = false;
        self.step_index = usize::MAX;
        self.current_mod_bits = 0;
        assert(self.held_notes() =~= Seq::<u8>::empty());
    }

    /// Resets the cursor so the next step boundary fires the canonical
    /// first step.
    pub fn reset_clock(&mut self)
        ensures
            *final(self) == (SeqEngine {
                step_index: usize::MAX,
                gate_open: false,
                even_step: true,
                going_up: true,
                ..*old(self)
            }),
    {
        self.step_index = usize::MAX;
        self.gate_open = false;
        self.even_step = true;
        self.going_up = true;
    }

    /// The clock tick while not running: a sounding note is released, the
    /// cursor returns to "not started" and the mod lane reads zero.
    pub fn stop_clock(&mut self) -> (out: ArpEvents)
        ensures
            out.wf(),
            out@ == (if old(self).gate_open {
                seq![ArpEvent::NoteOff { note: old(self).current_note }]
            } else {
                Seq::<ArpEvent>::empty()
            }),
            *final(self) == (SeqEngine {
                gate_open: false,
                step_index: usize::MAX,
                current_mod_bits: 0,
                ..*old(self)
            }),
    {
        let mut out = ArpEvents::new();
        if self.gate_open {
            out.push(ArpEvent::NoteOff { note: self.current_note });
            self.gate_open = false;
        }
        self.step_index = usize::MAX;
        self.current_mod_bits = 0;
        out
    }

    /// Whether the step under the cursor ties its note forward.
    pub open spec fn tied(&self, steps: Seq<StepData>) -> bool {
        self.step_index != usize::MAX && steps[self.step_index as int].tie
    }

    /// One clock tick while running. `gate_reached` says the current gate
    /// fraction was crossed during the block, `step_boundary` that the step
    /// ended, and `closes[i]` that step `i`'s gate lies behind the phase
    /// carried into the next step.
    ///
    /// A tied step suppresses its own gate-off. At a boundary the cursor
    /// advances; when the step left behind tied its note forward and the
    /// note still sounds, it rings on through the new step (whose gate then
    /// governs its release). Otherwise the old note stops and, unless the
    /// new step rests, its note fires, closing again at once when its gate
    /// is already behind the phase and it does not tie.
    pub fn clock(
        &mut self,
        steps: &[StepData; SEQ_MAX_STEPS],
        gate_reached: bool,
        step_boundary: bool,
        closes: &[bool; SEQ_MAX_STEPS],
    ) -> (out: ArpEvents)
        requires
            old(self).wf(),
            old(self).enabled,
            old(self).held_notes().len() > 0,
        ensures
            final(self).wf(),
            out.wf(),
            final(self).held_notes() == old(self).held_notes(),
            SeqEngine::same_config(*old(self), *final(self)),
            final(self).even_step == (old(self).even_step != step_boundary),
            ({
                let tie_now = old(self).tied(steps@);
                let first_off = old(self).gate_open && !tie_now && gate_reached;
                let open1 = old(self).gate_open && !first_off;
                let first = if first_off {
                    seq![ArpEvent::NoteOff { note: old(self).current_note }]
                } else {
                    Seq::<ArpEvent>::empty()
                };
                let st = steps@[final(self).step_index as int];
                let new_note = step_note(old(self).held_notes()[0], st.note_offset);
                let quick = !st.tie && closes@[final(self).step_index as int];
                &&& !step_boundary ==> {
                    &&& out@ == first
                    &&& final(self).gate_open == open1
                    &&& final(self).step_index == old(self).step_index
                    &&& final(self).going_up == old(self).going_up
                    &&& final(self).rng == old(self).rng
                    &&& final(self).current_note == old(self).current_note
                    &&& final(self).current_velocity == old(self).current_velocity
                    &&& final(self).current_gate_bits == old(self).current_gate_bits
                    &&& final(self).current_mod_bits == old(self).current_mod_bits
                }
                &&& step_boundary ==> SeqEngine::stepped(*old(self), *final(self), steps@)
                &&& step_boundary && tie_now && open1 ==> {
                    &&& out@ == first
                    &&& final(self).gate_open
                    &&& final(self).current_note == old(self).current_note
                    &&& final(self).current_velocity == old(self).current_velocity
                    &&& final(self).current_gate_bits == st.gate_bits
                }
                &&& step_boundary && !(tie_now && open1) ==> {
                    &&& out@ == first + (if open1 {
                        seq![ArpEvent::NoteOff { note: old(self).current_note }]
                    } else {
                        Seq::<ArpEvent>::empty()
                    }) + (if st.rest {
                        Seq::<ArpEvent>::empty()
                    } else {
                        seq![ArpEvent::NoteOn { note: new_note, velocity: st.velocity }] + (if quick {
                            seq![ArpEvent::NoteOff { note: new_note }]
                        } else {
                            Seq::<ArpEvent>::empty()
                        })
                    })
                    &&& final(self).gate_open == (!st.rest && !quick)
                    &&& st.rest ==> final(self).current_note == old(self).current_note
                        && final(self).current_velocity == old(self).current_velocity
                        && final(self).current_gate_bits == old(self).current_gate_bits
                    &&& !st.rest ==> final(self).current_note == new_note
                        && final(self).current_velocity == st.velocity
                        && final(self).current_gate_bits == st.gate_bits
                }
            }),
    {
        let mut out = ArpEvents::new();
        let tie_now = self.step_index != usize::MAX && steps[self.step_index].tie;
        if self.gate_open && !tie_now && gate_reached {
            out.push(ArpEvent::NoteOff { note: self.current_note });
            self.gate_open = false;
        }
        let ghost first = out@;
        if step_boundary {
            self.even_step = !self.even_step;
            let extend = tie_now;
            self.advance_step(steps);
            let idx = self.step_index;
            let st = steps[idx];
            if extend && self.gate_open {
                self.current_gate_bits = st.gate_bits;
            } else {
                if self.gate_open {
                    out.push(ArpEvent::NoteOff { note: self.current_note });
                    self.gate_open = false;
                }
                let ghost mid = out@;
                if !st.rest {
                    let note = self.note_at(steps, idx);
                    self.current_note = note;
                    self.current_velocity = st.velocity;
                    self.current_gate_bits = st.gate_bits;
                    out.push(ArpEvent::NoteOn { note, velocity: st.velocity });
                    self.gate_open = true;
                    if !st.tie && closes[idx] {
                        out.push(ArpEvent::NoteOff { note });
                        self.gate_open = false;
                    }
                }
                assert(out@ =~= mid + (if st.rest {
                    Seq::<ArpEvent>::empty()
                } else {
                    seq![ArpEvent::NoteOn { note: self.current_note, velocity: st.velocity }] + (if !st.tie
                        && closes@[idx as int] {
                        seq![ArpEvent::NoteOff { note: self.current_note }]
                    } else {
                        Seq::<ArpEvent>::empty()
                    })
                }));
            }
        }
        out
    }
}


/// The root — `held[0]` — is the lowest held note.
pub proof fn lemma_root_is_lowest(core: SeqEngine)
    requires
        core.wf(),
        core.held_notes().len() > 0,
    ensures
        forall|i: int|
            0 <= i < core.held_notes().len() ==> core.held_notes()[0] <= #[trigger] core.held_notes()[i],
{
}

/// Forward, Reverse and PingPong never play the same step twice in a row
/// when two or more steps are active; PingPong turns around at the ends
/// without repeating them.
pub proof fn lemma_seq_no_immediate_repeat(mode: SeqMode, idx: usize, going_up: bool, len: int, rng: u32)
    requires
        mode != SeqMode::Random,
        2 <= len <= SEQ_MAX_STEPS,
        idx < len,
    ensures
        seq_step_after(mode, idx, going_up, len, rng).0 != idx,
{
    lemma_step_in_range(mode.walk(), idx, going_up, len, rng);
    lemma_no_immediate_repeat(mode.walk(), idx, going_up, len, rng);
}

/// Pressing a key and releasing it again gives back the held notes as
/// they were.
pub proof fn lemma_seq_press_then_release(
    before: SeqEngine,
    mid: SeqEngine,
    after: SeqEngine,
    steps: Seq<StepData>,
    midi_note: u8,
    fired: bool,
)
    requires
        before.wf(),
        before.held_notes().len() < MAX_HELD,
        SeqEngine::pressed(before, mid, steps, midi_note, fired),
        SeqEngine::released(mid, after, midi_note),
    ensures
        after.held_notes() == before.held_notes(),
        SeqEngine::same_config(before, after),
{
    let s = before.held_notes();
    lemma_lower_bound_bounds(s, midi_note);
    lemma_insert_then_remove(s, midi_note, lower_bound(s, midi_note) as int);
}

/// In Random mode every step draws the next generator output: two steps in
/// a row land on the first and second outputs after the starting state
/// (reduced to the active length), and a non-zero state never repeats from
/// one step to the next.
pub proof fn lemma_seq_random_steps_advance_the_generator(
    s0: SeqEngine,
    s1: SeqEngine,
    s2: SeqEngine,
    steps: Seq<StepData>,
)
    requires
        s0.mode == SeqMode::Random,
        SeqEngine::same_config(s0, s1),
        SeqEngine::stepped(s0, s1, steps),
        SeqEngine::stepped(s1, s2, steps),
    ensures
        s1.rng == xorshift32(s0.rng),
        s2.rng == xorshift32(xorshift32(s0.rng)),
        s1.step_index == xorshift32(s0.rng) as int % active_len(s0.length),
        s2.step_index == xorshift32(xorshift32(s0.rng)) as int % active_len(s0.length),
        s0.rng != 0 ==> s1.rng != s0.rng && s2.rng != s1.rng,
{
    let len = active_len(s0.length);
    vstd::arithmetic::div_mod::lemma_mod_pos_bound(xorshift32(s0.rng) as int, len);
    vstd::arithmetic::div_mod::lemma_mod_pos_bound(xorshift32(xorshift32(s0.rng)) as int, len);
    if s0.rng != 0 {
        lemma_xorshift32_moves(s0.rng);
        lemma_xorshift32_moves(s1.rng);
    }
}

/// The first key into an enabled, empty sequencer plays the step under the
/// cursor: its offset from the key gives the note, and its own velocity and
/// gate sound with it (a rest fires nothing). From a fresh cursor that step
/// is the first one in Forward and PingPong and the last active one in
/// Reverse.
pub proof fn lemma_first_press_plays_the_cursor_step(
    before: SeqEngine,
    after: SeqEngine,
    steps: Seq<StepData>,
    key: u8,
    fired: bool,
)
    requires
        before.wf(),
        before.enabled,
        before.held_notes().len() == 0,
        SeqEngine::pressed(before, after, steps, key, fired),
    ensures
        fired == !steps[after.step_index as int].rest,
        fired ==> {
            let st = steps[after.step_index as int];
            &&& after.gate_open
            &&& after.current_note == step_note(key, st.note_offset)
            &&& after.current_velocity == st.velocity
            &&& after.current_gate_bits == st.gate_bits
        },
        before.step_index == usize::MAX && (before.mode == SeqMode::Forward || before.mode
            == SeqMode::PingPong) ==> after.step_index == 0,
        before.step_index == usize::MAX && before.mode == SeqMode::Reverse ==> after.step_index
            == active_len(before.length) - 1,
{
}

} // verus!
