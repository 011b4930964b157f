//! Polyphonic voice allocation.
//!
//! A fixed pool of [`POLYPHONY`] voices. On note-on a voice is chosen by
//! this policy, in order:
//!
//! 1. **Idle voice.** The first voice whose envelopes have all finished.
//! 2. **Oldest releasing voice.** The releasing voice whose note-off was
//!    issued the longest ago.
//! 3. **Quietest voice.** The voice with the lowest envelope level, ties
//!    broken by oldest note-on so recent attacks survive.
//!
//! **Note-off** releases the oldest voice holding the note. **Sustain**
//! defers note-offs while the pedal is held; on pedal release every voice
//! holding a deferred note is released (not just the oldest), so a note
//! retriggered under the pedal cannot stay stuck. **All notes off**
//! releases every voice holding a note, and the **panic** also clears every
//! deferral and lifts the pedal latch.
//!
//! [`VoiceManager`] keeps the bookkeeping — which note each voice holds,
//! the event ticks that rank voices by age, the pedal and the deferred
//! releases — and tells its caller which voice to start or release. The
//! amplitude state of a voice (idle, releasing, envelope level) is read
//! through [`VoiceStatus`].

use vstd::prelude::*;

verus! {

/// Number of voices in the pool.
pub const POLYPHONY: usize = 32;

/// Number of MIDI notes.
pub const NOTE_COUNT: usize = 128;

/// What allocation reads of one voice's amplitude state.
#[derive(Debug, Clone, Copy, PartialEq, Eq, Structural)]
pub struct VoiceStatus {
    /// Every envelope of the voice has finished.
    pub idle: bool,
    /// The amp envelope is in its release stage.
    pub releasing: bool,
    /// The amp envelope level as an order key: a lower level has a lower
    /// key and equal levels have equal keys.
    pub level_key: u32,
}

/// A tick, or the latest possible one when absent.
pub open spec fn tick_key(t: Option<u64>) -> u64 {
    match t {
        Some(x) => x,
        None => u64::MAX,
    }
}

/// A voice pool's allocation state.
pub struct VoiceManager {
    /// The note each voice holds (its most recent note-on not yet released).
    pub held: [Option<u8>; POLYPHONY],
    /// Monotonic counter advanced on every note-on and note-off, so "oldest"
    /// can be ranked without a wall clock.
    pub next_tick: u64,
    /// Tick at which each voice's most recent note started.
    pub note_on_tick: [Option<u64>; POLYPHONY],
    /// Tick at which each voice's most recent note-off was issued; `None`
    /// while attacking, decaying or sustaining.
    pub note_off_tick: [Option<u64>; POLYPHONY],
    /// True while the sustain pedal is held down.
    pub sustain_held: bool,
    /// Per MIDI note: a note-off arrived under the pedal and fires on pedal
    /// release.
    pub deferred_note_offs: [bool; NOTE_COUNT],
}

/// `r` is the first voice holding `note` among those with the oldest
/// note-on, or `None` when no voice holds it.
pub open spec fn oldest_holder(
    held: Seq<Option<u8>>,
    on_tick: Seq<Option<u64>>,
    note: u8,
    r: Option<usize>,
) -> bool {
    match r {
        None => forall|i: int| 0 <= i < POLYPHONY ==> held[i] != Some(note),
        Some(v) => {
            &&& v < POLYPHONY
            &&& held[v as int] == Some(note)
            &&& forall|i: int|
                0 <= i < POLYPHONY && held[i] == Some(note) ==> tick_key(on_tick[v as int])
                    <= tick_key(#[trigger] on_tick[i]) && (tick_key(on_tick[i]) == tick_key(
                    on_tick[v as int],
                ) ==> v <= i)
        },
    }
}

/// The voice the allocation policy picks for a new note.
pub open spec fn allocation_choice(
    st: Seq<VoiceStatus>,
    on_tick: Seq<Option<u64>>,
    off_tick: Seq<Option<u64>>,
    r: int,
) -> bool {
    &&& 0 <= r < POLYPHONY
    &&& if exists|i: int| 0 <= i < POLYPHONY && #[trigger] st[i].idle {
        // Pass 1: the first idle voice.
        st[r].idle && forall|i: int| 0 <= i < r ==> !(#[trigger] st[i]).idle
    } else if exists|i: int| 0 <= i < POLYPHONY && #[trigger] st[i].releasing {
        // Pass 2: the releasing voice with the oldest note-off, first on ties.
        &&& st[r].releasing
        &&& forall|i: int|
            0 <= i < POLYPHONY && (#[trigger] st[i]).releasing ==> tick_key(off_tick[r])
                <= tick_key(off_tick[i]) && (tick_key(off_tick[i]) == tick_key(off_tick[r]) ==> r
                <= i)
    } else {
        // Pass 3: the lowest level, then the oldest note-on, then first.
        forall|i: int|
            0 <= i < POLYPHONY ==> {
                ||| st[r].level_key < (#[trigger] st[i]).level_key
                ||| st[r].level_key == st[i].level_key && tick_key(on_tick[r]) < tick_key(
                    on_tick[i],
                )
                ||| st[r].level_key == st[i].level_key && tick_key(on_tick[r]) == tick_key(
                    on_tick[i],
                ) && r <= i
            }
    }
}

impl VoiceManager {
    /// Every held note is a MIDI note.
    pub open spec fn wf(&self) -> bool {
        &&& forall|i: int| 0 <= i < POLYPHONY ==> (#[trigger] self.held@[i] matches Some(n) ==> n < NOTE_COUNT)
        &&& forall|i: int| 0 <= i < POLYPHONY ==> (#[trigger] self.held@[i] is Some ==> self.note_on_tick@[i] is Some)
        &&& self.ticks_fresh()
    }

    /// Every recorded tick was issued before the next one: a new event is
    /// always later than every event already recorded.
    pub open spec fn ticks_fresh(&self) -> bool {
        &&& forall|i: int| 0 <= i < POLYPHONY ==> (#[trigger] self.note_on_tick@[i] matches Some(t) ==> t < self.next_tick)
        &&& forall|i: int| 0 <= i < POLYPHONY ==> (#[trigger] self.note_off_tick@[i] matches Some(t) ==> t < self.next_tick)
    }

    /// A pool with every voice idle, no note held, nothing deferred.
    pub fn new() -> (r: Self)
        ensures
            r.wf(),
            forall|i: int| 0 <= i < POLYPHONY ==> r.held@[i] is None,
            forall|i: int| 0 <= i < POLYPHONY ==> r.note_on_tick@[i] is None,
            forall|i: int| 0 <= i < POLYPHONY ==> r.note_off_tick@[i] is None,
            forall|n: int| 0 <= n < NOTE_COUNT ==> !r.deferred_note_offs@[n],
            r.next_tick == 0,
            !r.sustain_held,
    {
        VoiceManager {
            held: [None; POLYPHONY],
            next_tick: 0,
            note_on_tick: [None; POLYPHONY],
            note_off_tick: [None; POLYPHONY],
            sustain_held: false,
            deferred_note_offs: [false; NOTE_COUNT],
        }
    }

    /// The voice holding `note` with the oldest note-on (first on ties), or
    /// `None` when no voice holds it.
    pub fn find_oldest_voice_holding(&self, note: u8) -> (r: Option<usize>)
        ensures
            oldest_holder(self.held@, self.note_on_tick@, note, r),
    {
        let mut chosen: Option<usize> = None;
        let mut chosen_tick: u64 = u64::MAX;
        let mut i: usize = 0;
        while i < POLYPHONY
            invariant
                i <= POLYPHONY,
                match chosen {
                    None => forall|j: int| 0 <= j < i ==> self.held@[j] != Some(note),
                    Some(v) => {
                        &&& v < i
                        &&& self.held@[v as int] == Some(note)
                        &&& chosen_tick == tick_key(self.note_on_tick@[v as int])
                        &&& forall|j: int|
                            0 <= j < i && self.held@[j] == Some(note) ==> chosen_tick <= tick_key(
                                #[trigger] self.note_on_tick@[j],
                            ) && (tick_key(self.note_on_tick@[j]) == chosen_tick ==> v <= j)
                    },
                },
            decreases POLYPHONY - i,
        {
            if self.held[i] == Some(note) {
                let t = match self.note_on_tick[i] {
                    Some(x) => x,
                    None => u64::MAX,
                };
                if chosen.is_none() || t < chosen_tick {
                    chosen = Some(i);
                    chosen_tick = t;
                }
            }
            i += 1;
        }
        chosen
    }

    /// The voice a new note goes to, per the three-pass policy.
    pub fn allocate_voice(&self, status: &[VoiceStatus; POLYPHONY]) -> (r: usize)
        ensures
            allocation_choice(status@, self.note_on_tick@, self.note_off_tick@, r as int),
    {
        // Pass 1: any idle voice.
        let mut i: usize = 0;
        while i < POLYPHONY
            invariant
                i <= POLYPHONY,
                forall|j: int| 0 <= j < i ==> !(#[trigger] status@[j]).idle,
            decreases POLYPHONY - i,
        {
            if status[i].idle {
                return i;
            }
            i += 1;
        }
        // Pass 2: oldest releasing voice. Smallest note-off tick wins.
        let mut best: Option<usize> = None;
        let mut best_tick: u64 = u64::MAX;
        let mut i: usize = 0;
        while i < POLYPHONY
            invariant
                i <= POLYPHONY,
                match best {
                    None => forall|j: int| 0 <= j < i ==> !(#[trigger] status@[j]).releasing,
                    Some(v) => {
                        &&& v < i
                        &&& status@[v as int].releasing
                        &&& best_tick == tick_key(self.note_off_tick@[v as int])
                        &&& forall|j: int|
                            0 <= j < i && (#[trigger] status@[j]).releasing ==> best_tick
                                <= tick_key(self.note_off_tick@[j]) && (tick_key(
                                self.note_off_tick@[j],
                            ) == best_tick ==> v <= j)
                    },
                },
            decreases POLYPHONY - i,
        {
            if status[i].releasing {
                let t = match self.note_off_tick[i] {
                    Some(x) => x,
                    None => u64::MAX,
                };
                if best.is_none() || t < best_tick {
                    best = Some(i);
                    best_tick = t;
                }
            }
            i += 1;
        }
        if let Some(v) = best {
            return v;
        }
        // Pass 3: quietest voice; ties broken by oldest note-on.
        let mut b: usize = 0;
        let mut b_key: u32 = status[0].level_key;
        let mut b_tick: u64 = match self.note_on_tick[0] {
            Some(x) => x,
            None => u64::MAX,
        };
        let mut i: usize = 1;
        while i < POLYPHONY
            invariant
                1 <= i <= POLYPHONY,
                b < i,
                b_key == status@[b as int].level_key,
                b_tick == tick_key(self.note_on_tick@[b as int]),
                forall|j: int|
                    0 <= j < i ==> {
                        ||| b_key < (#[trigger] status@[j]).level_key
                        ||| b_key == status@[j].level_key && b_tick < tick_key(
                            self.note_on_tick@[j],
                        )
                        ||| b_key == status@[j].level_key && b_tick == tick_key(
                            self.note_on_tick@[j],
                        ) && b <= j
                    },
            decreases POLYPHONY - i,
        {
            let key = status[i].level_key;
            let t = match self.note_on_tick[i] {
                Some(x) => x,
                None => u64::MAX,
            };
            if key < b_key || (key == b_key && t < b_tick) {
                b = i;
                b_key = key;
                b_tick = t;
            }
            i += 1;
        }
        b
    }
}


/// Number of voices holding a note.
pub open spec fn holders(h: Seq<Option<u8>>) -> nat
    decreases h.len(),
{
    if h.len() == 0 {
        0
    } else {
        holders(h.drop_last()) + if h.last() is Some {
            1nat
        } else {
            0nat
        }
    }
}

/// A pool where no voice holds a note has no holders.
pub proof fn lemma_holders_none(h: Seq<Option<u8>>)
    requires
        forall|i: int| 0 <= i < h.len() ==> (#[trigger] h[i]) is None,
    ensures
        holders(h) == 0,
    decreases h.len(),
{
    if h.len() > 0 {
        let t = h.drop_last();
        assert forall|i: int| 0 <= i < t.len() implies (#[trigger] t[i]) is None by {
            assert(t[i] == h[i]);
        }
        lemma_holders_none(t);
    }
}

/// No more voices hold a note than there are voices.
pub proof fn lemma_holders_bound(h: Seq<Option<u8>>)
    ensures
        holders(h) <= h.len(),
    decreases h.len(),
{
    if h.len() > 0 {
        lemma_holders_bound(h.drop_last());
    }
}

/// Releasing a holding voice lowers the holder count by one.
pub proof fn lemma_holders_release(h: Seq<Option<u8>>, i: int)
    requires
        0 <= i < h.len(),
        h[i] is Some,
    ensures
        holders(h.update(i, None)) + 1 == holders(h),
    decreases h.len(),
{
    let u = h.update(i, None);
    if i == h.len() - 1 {
        assert(u.drop_last() =~= h.drop_last());
    } else {
        assert(u.drop_last() =~= h.drop_last().update(i, None));
        lemma_holders_release(h.drop_last(), i);
    }
}

impl VoiceManager {
    /// Releases voice `i`: it no longer holds a note and its note-off is
    /// stamped with the next tick.
    fn release_voice(&mut self, i: usize)
        requires
            i < POLYPHONY,
            old(self).next_tick < u64::MAX,
        ensures
            final(self).held@ == old(self).held@.update(i as int, None),
            final(self).note_off_tick@ == old(self).note_off_tick@.update(
                i as int,
                Some(old(self).next_tick),
            ),
            final(self).next_tick == old(self).next_tick + 1,
            final(self).note_on_tick == old(self).note_on_tick,
            final(self).sustain_held == old(self).sustain_held,
            final(self).deferred_note_offs == old(self).deferred_note_offs,
    {
        self.held[i] = None;
        self.note_off_tick[i] = Some(self.next_tick);
        self.next_tick += 1;
    }

    /// Starts `note` on the voice the allocation policy picks and returns
    /// that voice. Cancels a pending deferred release of `note`, so a
    /// re-attack under the sustain pedal keeps sounding after the pedal
    /// lifts.
    pub fn note_on(&mut self, note: u8, status: &[VoiceStatus; POLYPHONY]) -> (v: usize)
        requires
            old(self).wf(),
            note < NOTE_COUNT,
            old(self).next_tick < u64::MAX,
        ensures
            final(self).wf(),
            allocation_choice(status@, old(self).note_on_tick@, old(self).note_off_tick@, v as int),
            final(self).held@ == old(self).held@.update(v as int, Some(note)),
            final(self).note_on_tick@ == old(self).note_on_tick@.update(
                v as int,
                Some(old(self).next_tick),
            ),
            final(self).note_off_tick@ == old(self).note_off_tick@.update(v as int, None),
            final(self).next_tick == old(self).next_tick + 1,
            final(self).deferred_note_offs@ == old(self).deferred_note_offs@.update(
                note as int,
                false,
            ),
            final(self).sustain_held == old(self).sustain_held,
    {
        self.deferred_note_offs[note as usize] = false;
        let v = self.allocate_voice(status);
        self.held[v] = Some(note);
        self.note_on_tick[v] = Some(self.next_tick);
        self.note_off_tick[v] = None;
        self.next_tick += 1;
        v
    }

    /// Releases the oldest voice holding `note`, bypassing the pedal, and
    /// returns it; `None` when no voice holds the note.
    fn release_note(&mut self, note: u8) -> (r: Option<usize>)
        requires
            old(self).next_tick < u64::MAX,
        ensures
            oldest_holder(old(self).held@, old(self).note_on_tick@, note, r),
            r is None ==> *final(self) == *old(self),
            r matches Some(v) ==> {
                &&& final(self).held@ == old(self).held@.update(v as int, None)
                &&& final(self).note_off_tick@ == old(self).note_off_tick@.update(
                    v as int,
                    Some(old(self).next_tick),
                )
                &&& final(self).next_tick == old(self).next_tick + 1
                &&& final(self).note_on_tick == old(self).note_on_tick
                &&& final(self).sustain_held == old(self).sustain_held
                &&& final(self).deferred_note_offs == old(self).deferred_note_offs
            },
    {
        let chosen = self.find_oldest_voice_holding(note);
        if let Some(v) = chosen {
            self.release_voice(v);
        }
        chosen
    }

    /// A note-off. Without the pedal the oldest voice holding `note` is
    /// released and returned. With the pedal held the release is deferred
    /// (only when a voice holds the note) and nothing is released now.
    pub fn note_off(&mut self, note: u8) -> (r: Option<usize>)
        requires
            old(self).wf(),
            old(self).next_tick < u64::MAX,
        ensures
            final(self).wf(),
            old(self).sustain_held ==> r is None && final(self).held == old(self).held
                && final(self).note_on_tick == old(self).note_on_tick
                && final(self).note_off_tick == old(self).note_off_tick
                && final(self).next_tick == old(self).next_tick
                && final(self).sustain_held == old(self).sustain_held
                && final(self).deferred_note_offs@ == (if exists|i: int|
                0 <= i < POLYPHONY && #[trigger] old(self).held@[i] == Some(note) {
                old(self).deferred_note_offs@.update(note as int, true)
            } else {
                old(self).deferred_note_offs@
            }),
            !old(self).sustain_held ==> {
                &&& oldest_holder(old(self).held@, old(self).note_on_tick@, note, r)
                &&& r is None ==> *final(self) == *old(self)
                &&& r matches Some(v) ==> {
                    &&& final(self).held@ == old(self).held@.update(v as int, None)
                    &&& final(self).note_off_tick@ == old(self).note_off_tick@.update(
                        v as int,
                        Some(old(self).next_tick),
                    )
                    &&& final(self).next_tick == old(self).next_tick + 1
                    &&& final(self).note_on_tick == old(self).note_on_tick
                    &&& final(self).sustain_held == old(self).sustain_held
                    &&& final(self).deferred_note_offs == old(self).deferred_note_offs
                }
            },
    {
        if self.sustain_held {
            let found = self.find_oldest_voice_holding(note);
            if found.is_some() {
                let v = found.unwrap();
                assert(self.held@[v as int] == Some(note));
                self.deferred_note_offs[note as usize] = true;
            }
            None
        } else {
            self.release_note(note)
        }
    }

    /// Releases the oldest voice holding `note` at once, bypassing (and
    /// cancelling) any pedal deferral. Used for arpeggiator gate-offs.
    pub fn release_note_immediate(&mut self, note: u8) -> (r: Option<usize>)
        requires
            old(self).wf(),
            note < NOTE_COUNT,
            old(self).next_tick < u64::MAX,
        ensures
            final(self).wf(),
            oldest_holder(old(self).held@, old(self).note_on_tick@, note, r),
            final(self).deferred_note_offs@ == old(self).deferred_note_offs@.update(
                note as int,
                false,
            ),
            final(self).sustain_held == old(self).sustain_held,
            final(self).note_on_tick == old(self).note_on_tick,
            r is None ==> final(self).held == old(self).held && final(self).note_off_tick
                == old(self).note_off_tick && final(self).next_tick == old(self).next_tick,
            r matches Some(v) ==> {
                &&& final(self).held@ == old(self).held@.update(v as int, None)
                &&& final(self).note_off_tick@ == old(self).note_off_tick@.update(
                    v as int,
                    Some(old(self).next_tick),
                )
                &&& final(self).next_tick == old(self).next_tick + 1
            },
    {
        self.deferred_note_offs[note as usize] = false;
        self.release_note(note)
    }

    /// Releases every voice holding a note, in MIDI-note order (voices
    /// holding the same note in voice order), and returns which voices were
    /// released.
    pub fn all_notes_off(&mut self) -> (released: [bool; POLYPHONY])
        requires
            old(self).wf(),
            old(self).next_tick <= u64::MAX - POLYPHONY,
        ensures
            final(self).wf(),
            forall|i: int| 0 <= i < POLYPHONY ==> released@[i] == (old(self).held@[i] is Some),
            forall|i: int| 0 <= i < POLYPHONY ==> (#[trigger] final(self).held@[i]) is None,
            forall|i: int|
                0 <= i < POLYPHONY && !released@[i] ==> #[trigger] final(self).note_off_tick@[i]
                    == old(self).note_off_tick@[i],
            forall|i: int|
                0 <= i < POLYPHONY && released@[i] ==> (#[trigger] final(self).note_off_tick@[i]
                    matches Some(t) && old(self).next_tick <= t < final(self).next_tick),
            forall|i: int, j: int|
                0 <= i < POLYPHONY && 0 <= j < POLYPHONY && released@[i] && released@[j] && (
                old(self).held@[i].unwrap() < old(self).held@[j].unwrap() || (old(self).held@[i]
                    == old(self).held@[j] && i < j)) ==> tick_key(
                    #[trigger] final(self).note_off_tick@[i],
                ) < tick_key(#[trigger] final(self).note_off_tick@[j]),
            final(self).next_tick == old(self).next_tick + holders(old(self).held@),
            final(self).next_tick <= old(self).next_tick + POLYPHONY,
            final(self).note_on_tick == old(self).note_on_tick,
            final(self).sustain_held == old(self).sustain_held,
            final(self).deferred_note_offs == old(self).deferred_note_offs,
    {
        let mut released = [false; POLYPHONY];
        let ghost h0 = self.held@;
        let ghost off0 = self.note_off_tick@;
        let ghost t0 = self.next_tick;
        proof {
            lemma_holders_bound(h0);
        }
        let mut n: usize = 0;
        while n < NOTE_COUNT
            invariant
                n <= NOTE_COUNT,
                t0 <= u64::MAX - POLYPHONY,
                holders(h0) <= POLYPHONY,
                self.next_tick - t0 + holders(self.held@) == holders(h0),
                t0 <= self.next_tick,
                self.note_on_tick == old(self).note_on_tick,
                self.sustain_held == old(self).sustain_held,
                self.deferred_note_offs == old(self).deferred_note_offs,
                forall|i: int| 0 <= i < POLYPHONY ==> (#[trigger] h0[i] matches Some(m) ==> m < NOTE_COUNT),
                forall|i: int|
                    0 <= i < POLYPHONY ==> released@[i] == (h0[i] matches Some(m) && m < n),
                forall|i: int|
                    0 <= i < POLYPHONY ==> #[trigger] self.held@[i] == (if released@[i] {
                        None
                    } else {
                        h0[i]
                    }),
                forall|i: int|
                    0 <= i < POLYPHONY && !released@[i] ==> #[trigger] self.note_off_tick@[i]
                        == off0[i],
                forall|i: int|
                    0 <= i < POLYPHONY && released@[i] ==> (#[trigger] self.note_off_tick@[i]
                        matches Some(t) && t0 <= t < self.next_tick),
                forall|i: int, j: int|
                    0 <= i < POLYPHONY && 0 <= j < POLYPHONY && released@[i] && released@[j] && (
                    h0[i].unwrap() < h0[j].unwrap() || (h0[i] == h0[j] && i < j)) ==> tick_key(
                        #[trigger] self.note_off_tick@[i],
                    ) < tick_key(#[trigger] self.note_off_tick@[j]),
            decreases NOTE_COUNT - n,
        {
            let note = n as u8;
            let mut i: usize = 0;
            while i < POLYPHONY
                invariant
                    i <= POLYPHONY,
                    n < NOTE_COUNT,
                    note == n,
                    t0 <= u64::MAX - POLYPHONY,
                    holders(h0) <= POLYPHONY,
                    self.next_tick - t0 + holders(self.held@) == holders(h0),
                    t0 <= self.next_tick,
                    self.note_on_tick == old(self).note_on_tick,
                    self.sustain_held == old(self).sustain_held,
                    self.deferred_note_offs == old(self).deferred_note_offs,
                    forall|k: int| 0 <= k < POLYPHONY ==> (#[trigger] h0[k] matches Some(m) ==> m < NOTE_COUNT),
                    forall|k: int|
                        0 <= k < POLYPHONY ==> released@[k] == (h0[k] matches Some(m) && (m < n
                            || (m == n && k < i))),
                    forall|k: int|
                        0 <= k < POLYPHONY ==> #[trigger] self.held@[k] == (if released@[k] {
                            None
                        } else {
                            h0[k]
                        }),
                    forall|k: int|
                        0 <= k < POLYPHONY && !released@[k] ==> #[trigger] self.note_off_tick@[k]
                            == off0[k],
                    forall|k: int|
                        0 <= k < POLYPHONY && released@[k] ==> (#[trigger] self.note_off_tick@[k]
                            matches Some(t) && t0 <= t < self.next_tick),
                    forall|k: int, j: int|
                        0 <= k < POLYPHONY && 0 <= j < POLYPHONY && released@[k] && released@[j] && (
                        h0[k].unwrap() < h0[j].unwrap() || (h0[k] == h0[j] && k < j)) ==> tick_key(
                            #[trigger] self.note_off_tick@[k],
                        ) < tick_key(#[trigger] self.note_off_tick@[j]),
                decreases POLYPHONY - i,
            {
                if self.held[i] == Some(note) {
                    proof {
                        lemma_holders_release(self.held@, i as int);
                    }
                    self.release_voice(i);
                    released[i] = true;
                }
                i += 1;
            }
            n += 1;
        }
        proof {
            lemma_holders_bound(self.held@);
            assert forall|i: int| 0 <= i < POLYPHONY implies (#[trigger] self.held@[i]) is None by {
                if h0[i] is Some {
                    assert(released@[i]);
                }
            }
            lemma_holders_none(self.held@);
        }
        released
    }

    /// Full panic: [`all_notes_off`](Self::all_notes_off), then every
    /// deferred release is cleared and the sustain latch lifted, so no note
    /// can stay latched.
    pub fn panic(&mut self) -> (released: [bool; POLYPHONY])
        requires
            old(self).wf(),
            old(self).next_tick <= u64::MAX - POLYPHONY,
        ensures
            final(self).wf(),
            forall|i: int| 0 <= i < POLYPHONY ==> released@[i] == (old(self).held@[i] is Some),
            forall|i: int| 0 <= i < POLYPHONY ==> (#[trigger] final(self).held@[i]) is None,
            forall|i: int|
                0 <= i < POLYPHONY && !released@[i] ==> #[trigger] final(self).note_off_tick@[i]
                    == old(self).note_off_tick@[i],
            forall|i: int|
                0 <= i < POLYPHONY && released@[i] ==> (#[trigger] final(self).note_off_tick@[i]
                    matches Some(t) && old(self).next_tick <= t < final(self).next_tick),
            forall|i: int, j: int|
                0 <= i < POLYPHONY && 0 <= j < POLYPHONY && released@[i] && released@[j] && (
                old(self).held@[i].unwrap() < old(self).held@[j].unwrap() || (old(self).held@[i]
                    == old(self).held@[j] && i < j)) ==> tick_key(
                    #[trigger] final(self).note_off_tick@[i],
                ) < tick_key(#[trigger] final(self).note_off_tick@[j]),
            final(self).next_tick == old(self).next_tick + holders(old(self).held@),
            forall|n: int| 0 <= n < NOTE_COUNT ==> !#[trigger] final(self).deferred_note_offs@[n],
            !final(self).sustain_held,
            final(self).note_on_tick == old(self).note_on_tick,
    {
        let released = self.all_notes_off();
        self.deferred_note_offs = [false; NOTE_COUNT];
        self.sustain_held = false;
        released
    }

    /// Updates the sustain pedal. When it lifts, every voice holding a
    /// deferred note is released (in note order, then voice order) and
    /// every deferral is cleared. Returns which voices were released.
    pub fn set_sustain(&mut self, held: bool) -> (released: [bool; POLYPHONY])
        requires
            old(self).wf(),
            old(self).next_tick <= u64::MAX - POLYPHONY,
        ensures
            final(self).wf(),
            final(self).sustain_held == held,
            final(self).note_on_tick == old(self).note_on_tick,
            held ==> final(self).held == old(self).held && final(self).note_off_tick == old(self).note_off_tick && final(self).next_tick == old(self).next_tick
                && final(self).deferred_note_offs == old(self).deferred_note_offs && forall|i: int|
                0 <= i < POLYPHONY ==> !#[trigger] released@[i],
            !held ==> {
                &&& forall|n: int|
                    0 <= n < NOTE_COUNT ==> !#[trigger] final(self).deferred_note_offs@[n]
                &&& forall|i: int|
                    0 <= i < POLYPHONY ==> released@[i] == (old(self).held@[i] matches Some(m)
                        && old(self).deferred_note_offs@[m as int])
                &&& forall|i: int|
                    0 <= i < POLYPHONY ==> #[trigger] final(self).held@[i] == (if released@[i] {
                        None
                    } else {
                        old(self).held@[i]
                    })
                &&& forall|i: int|
                    0 <= i < POLYPHONY && !released@[i] ==> #[trigger] final(self).note_off_tick@[i]
                        == old(self).note_off_tick@[i]
                &&& forall|i: int|
                    0 <= i < POLYPHONY && released@[i] ==> (#[trigger] final(self).note_off_tick@[i] matches Some(t) && old(self).next_tick <= t < final(self).next_tick)
                &&& forall|i: int, j: int|
                    0 <= i < POLYPHONY && 0 <= j < POLYPHONY && released@[i] && released@[j] && (
                    old(self).held@[i].unwrap() < old(self).held@[j].unwrap() || (old(self).held@[i] == old(self).held@[j] && i < j)) ==> tick_key(
                        #[trigger] final(self).note_off_tick@[i],
                    ) < tick_key(#[trigger] final(self).note_off_tick@[j])
                &&& old(self).next_tick <= final(self).next_tick <= old(self).next_tick
                    + POLYPHONY
                &&& final(self).next_tick == old(self).next_tick + holders(old(self).held@)
                    - holders(final(self).held@)
                &&& forall|i: int|
                    0 <= i < POLYPHONY ==> (#[trigger] final(self).held@[i] matches Some(m)
                        ==> !old(self).deferred_note_offs@[m as int])
            },
    {
        self.sustain_held = held;
        let mut released = [false; POLYPHONY];
        if held {
            return released;
        }
        let ghost h0 = self.held@;
        let ghost off0 = self.note_off_tick@;
        let ghost d0 = self.deferred_note_offs@;
        let ghost t0 = self.next_tick;
        proof {
            lemma_holders_bound(h0);
        }
        let mut n: usize = 0;
        while n < NOTE_COUNT
            invariant
                n <= NOTE_COUNT,
                t0 <= u64::MAX - POLYPHONY,
                holders(h0) <= POLYPHONY,
                self.next_tick - t0 + holders(self.held@) == holders(h0),
                t0 <= self.next_tick,
                self.note_on_tick == old(self).note_on_tick,
                self.sustain_held == held,
                !held,
                forall|i: int| 0 <= i < POLYPHONY ==> (#[trigger] h0[i] matches Some(m) ==> m < NOTE_COUNT),
                forall|m: int| 0 <= m < n ==> !#[trigger] self.deferred_note_offs@[m],
                forall|m: int| n <= m < NOTE_COUNT ==> #[trigger] self.deferred_note_offs@[m] == d0[m],
                forall|i: int|
                    0 <= i < POLYPHONY ==> released@[i] == (h0[i] matches Some(m) && m < n && d0[m as int]),
                forall|i: int|
                    0 <= i < POLYPHONY ==> #[trigger] self.held@[i] == (if released@[i] {
                        None
                    } else {
                        h0[i]
                    }),
                forall|i: int|
                    0 <= i < POLYPHONY && !released@[i] ==> #[trigger] self.note_off_tick@[i]
                        == off0[i],
                forall|i: int|
                    0 <= i < POLYPHONY && released@[i] ==> (#[trigger] self.note_off_tick@[i]
                        matches Some(t) && t0 <= t < self.next_tick),
                forall|i: int, j: int|
                    0 <= i < POLYPHONY && 0 <= j < POLYPHONY && released@[i] && released@[j] && (
                    h0[i].unwrap() < h0[j].unwrap() || (h0[i] == h0[j] && i < j)) ==> tick_key(
                        #[trigger] self.note_off_tick@[i],
                    ) < tick_key(#[trigger] self.note_off_tick@[j]),
            decreases NOTE_COUNT - n,
        {
            if self.deferred_note_offs[n] {
                self.deferred_note_offs[n] = false;
                let note = n as u8;
                let mut i: usize = 0;
                while i < POLYPHONY
                    invariant
                        i <= POLYPHONY,
                        n < NOTE_COUNT,
                        note == n,
                        d0[n as int],
                        t0 <= u64::MAX - POLYPHONY,
                        holders(h0) <= POLYPHONY,
                        self.next_tick - t0 + holders(self.held@) == holders(h0),
                        t0 <= self.next_tick,
                        self.note_on_tick == old(self).note_on_tick,
                        self.sustain_held == held,
                        forall|k: int| 0 <= k < POLYPHONY ==> (#[trigger] h0[k] matches Some(m) ==> m < NOTE_COUNT),
                        forall|m: int| 0 <= m <= n ==> !#[trigger] self.deferred_note_offs@[m],
                        forall|m: int| n < m < NOTE_COUNT ==> #[trigger] self.deferred_note_offs@[m] == d0[m],
                        forall|k: int|
                            0 <= k < POLYPHONY ==> released@[k] == (h0[k] matches Some(m) && (m < n
                                || (m == n && k < i)) && d0[m as int]),
                        forall|k: int|
                            0 <= k < POLYPHONY ==> #[trigger] self.held@[k] == (if released@[k] {
                                None
                            } else {
                                h0[k]
                            }),
                        forall|k: int|
                            0 <= k < POLYPHONY && !released@[k] ==> #[trigger] self.note_off_tick@[k]
                                == off0[k],
                        forall|k: int|
                            0 <= k < POLYPHONY && released@[k] ==> (#[trigger] self.note_off_tick@[k]
                                matches Some(t) && t0 <= t < self.next_tick),
                        forall|k: int, j: int|
                            0 <= k < POLYPHONY && 0 <= j < POLYPHONY && released@[k] && released@[j] && (
                            h0[k].unwrap() < h0[j].unwrap() || (h0[k] == h0[j] && k < j)) ==> tick_key(
                                #[trigger] self.note_off_tick@[k],
                            ) < tick_key(#[trigger] self.note_off_tick@[j]),
                    decreases POLYPHONY - i,
                {
                    if self.held[i] == Some(note) {
                        proof {
                            lemma_holders_release(self.held@, i as int);
                        }
                        self.release_voice(i);
                        released[i] = true;
                    }
                    i += 1;
                }
            }
            n += 1;
        }
        proof {
            lemma_holders_bound(self.held@);
        }
        released
    }
}

/// Allocation never steals a voice while an idle one exists.
pub proof fn lemma_idle_voice_preferred(
    st: Seq<VoiceStatus>,
    on: Seq<Option<u64>>,
    off: Seq<Option<u64>>,
    r: int,
    idle: int,
)
    requires
        allocation_choice(st, on, off, r),
        0 <= idle < POLYPHONY,
        st[idle].idle,
    ensures
        st[r].idle,
        r <= idle,
{
}

/// At most one voice is the oldest holder of a note.
pub proof fn lemma_oldest_unique(h: Seq<Option<u8>>, on: Seq<Option<u64>>, note: u8)
    ensures
        forall|a: usize, b: usize|
            oldest_holder(h, on, note, Some(a)) && oldest_holder(h, on, note, Some(b)) ==> a == b,
{
    assert forall|a: usize, b: usize|
        oldest_holder(h, on, note, Some(a)) && oldest_holder(h, on, note, Some(b)) implies a == b by {
        let ta = on[a as int];
        let tb = on[b as int];
    }
}

/// A note-off (pedal up) for a note no other voice held releases the very
/// voice its note-on started.
pub proof fn lemma_note_off_releases_started_voice(
    held: Seq<Option<u8>>,
    on_tick: Seq<Option<u64>>,
    v: int,
    note: u8,
    tick: u64,
    r: Option<usize>,
)
    requires
        held.len() == POLYPHONY,
        0 <= v < POLYPHONY,
        forall|i: int| 0 <= i < POLYPHONY ==> held[i] != Some(note),
        oldest_holder(held.update(v, Some(note)), on_tick.update(v, Some(tick)), note, r),
    ensures
        r == Some(v as usize),
{
    let h = held.update(v, Some(note));
    assert(h[v] == Some(note));
}

/// Retriggering a held note leaves the earlier voice first in line: the
/// next note-off for it releases an older voice, not the one just started.
pub proof fn lemma_retrigger_releases_older_first(
    before: VoiceManager,
    after: VoiceManager,
    v: int,
    u: int,
    note: u8,
    r: Option<usize>,
)
    requires
        before.wf(),
        0 <= v < POLYPHONY,
        0 <= u < POLYPHONY,
        u != v,
        before.held@[u] == Some(note),
        after.held@ == before.held@.update(v, Some(note)),
        after.note_on_tick@ == before.note_on_tick@.update(v, Some(before.next_tick)),
        oldest_holder(after.held@, after.note_on_tick@, note, r),
    ensures
        r != Some(v as usize),
{
    if r == Some(v as usize) {
        assert(after.held@[u] == Some(note));
        assert(before.note_on_tick@[u] is Some);
        assert(after.note_on_tick@[u] == before.note_on_tick@[u]);
        assert(tick_key(after.note_on_tick@[v]) <= tick_key(after.note_on_tick@[u]));
    }
}

} // verus!
