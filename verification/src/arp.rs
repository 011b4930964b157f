//! Arpeggiator note scheduling.
//!
//! The arpeggiator keeps the set of held keys, walks an expanded sequence
//! (held notes × octaves) in one of several orders, and emits note-on /
//! note-off events at gate and step boundaries. The clock that decides
//! *when* a gate or a step boundary is crossed is tempo arithmetic kept by
//! the caller; [`ArpEngine`] holds everything that decides *what* happens
//! then: the held-note list, the step cursor, the sounding note and the
//! gate.

use vstd::prelude::*;
use vstd::std_specs::iter::IteratorSpec;

verus! {

/// Maximum simultaneous held notes the arp tracks.
pub const MAX_HELD: usize = 32;

/// Highest octave range for which every expanded note index maps to an
/// octave offset that fits in a MIDI byte (`21 × 12 = 252`).
pub const MAX_OCTAVES: u8 = 22;

/// Output event produced by the arpeggiator (and the step sequencer) for
/// one audio block.
#[derive(Debug, Clone, Copy, PartialEq, Eq, Structural)]
pub enum ArpEvent {
    NoteOn { note: u8, velocity: u8 },
    NoteOff { note: u8 },
}

/// Fixed-size event list returned by one clock tick.
///
/// Up to 4 events can fire in one block. Callers iterate with `iter()`.
pub struct ArpEvents {
    buf: [ArpEvent; 4],
    count: usize,
}

impl View for ArpEvents {
    type V = Seq<ArpEvent>;

    closed spec fn view(&self) -> Seq<ArpEvent> {
        self.buf@.take(self.count as int)
    }
}

impl ArpEvents {
    pub closed spec fn wf(&self) -> bool {
        self.count <= 4
    }

    /// An empty event list.
    pub fn new() -> (r: Self)
        ensures
            r@ == Seq::<ArpEvent>::empty(),
            r.wf(),
    {
        ArpEvents { buf: [ArpEvent::NoteOff { note: 0 }; 4], count: 0 }
    }

    /// Appends an event; a fifth event is dropped.
    pub fn push(&mut self, ev: ArpEvent)
        requires
            old(self).wf(),
        ensures
            final(self).wf(),
            old(self)@.len() < 4 ==> final(self)@ == old(self)@.push(ev),
            old(self)@.len() >= 4 ==> final(self)@ == old(self)@,
    {
        if self.count < 4 {
            let ghost before = self.buf@;
            self.buf[self.count] = ev;
            self.count += 1;
            assert(self.buf@.take(self.count as int) =~= before.take(self.count - 1).push(ev));
        }
    }

    /// Number of events produced this block.
    pub fn len(&self) -> (n: usize)
        requires
            self.wf(),
        ensures
            n == self@.len(),
    {
        self.count
    }

    /// The `i`-th event produced this block.
    pub fn get(&self, i: usize) -> (e: Option<ArpEvent>)
        requires
            self.wf(),
        ensures
            i < self@.len() ==> e == Some(self@[i as int]),
            i >= self@.len() ==> e is None,
    {
        if i < self.count {
            Some(self.buf[i])
        } else {
            None
        }
    }

    /// Iterates over the events produced this block, in order.
    pub fn iter(&self) -> (it: std::slice::Iter<'_, ArpEvent>)
        requires
            self.wf(),
        ensures
            it.remaining().len() == self@.len(),
            forall|i: int| 0 <= i < self@.len() ==> *#[trigger] it.remaining()[i] == self@[i],
    {
        let s = self.buf.as_slice();
        let t = &s[0..self.count];
        assert(t@ =~= self@);
        t.iter()
    }
}

// ── Mode / Rate ───────────────────────────────────────────────────────────

/// Arpeggiator play mode.
#[derive(Debug, Clone, Copy, PartialEq, Eq, Structural)]
pub enum ArpMode {
    Up,
    Down,
    UpDown,
    Random,
    Played,
}

impl ArpMode {
    /// Decodes the discrete parameter index (0=Up 1=Down 2=UpDown
    /// 3=Random, anything else Played).
    pub fn from_index(i: u8) -> (m: Self)
        ensures
            i == 0 ==> m == ArpMode::Up,
            i == 1 ==> m == ArpMode::Down,
            i == 2 ==> m == ArpMode::UpDown,
            i == 3 ==> m == ArpMode::Random,
            i >= 4 ==> m == ArpMode::Played,
    {
        match i {
            0 => ArpMode::Up,
            1 => ArpMode::Down,
            2 => ArpMode::UpDown,
            3 => ArpMode::Random,
            _ => ArpMode::Played,
        }
    }
}

/// Arpeggiator (and sequencer) step rate: the note value of one step.
#[derive(Debug, Clone, Copy, PartialEq, Eq, Structural)]
pub enum ArpRate {
    /// 1/32 note — 0.125 beats per step
    R32,
    /// 1/16 note — 0.25 beats per step
    R16,
    /// 1/8 note — 0.5 beats per step
    R8,
    /// 1/4 note — 1.0 beats per step
    R4,
    /// 1/2 note — 2.0 beats per step
    R2,
}

impl ArpRate {
    /// Decodes the discrete parameter index (0=1/32 … 3=1/4, anything
    /// else 1/2).
    pub fn from_index(i: u8) -> (r: Self)
        ensures
            i == 0 ==> r == ArpRate::R32,
            i == 1 ==> r == ArpRate::R16,
            i == 2 ==> r == ArpRate::R8,
            i == 3 ==> r == ArpRate::R4,
            i >= 4 ==> r == ArpRate::R2,
    {
        match i {
            0 => ArpRate::R32,
            1 => ArpRate::R16,
            2 => ArpRate::R8,
            3 => ArpRate::R4,
            _ => ArpRate::R2,
        }
    }

    /// Length of one step in thirty-second notes (1/32 = 1 … 1/2 = 16).
    pub open spec fn spec_thirty_seconds(self) -> u8 {
        match self {
            ArpRate::R32 => 1,
            ArpRate::R16 => 2,
            ArpRate::R8 => 4,
            ArpRate::R4 => 8,
            ArpRate::R2 => 16,
        }
    }

    /// Length of one step in thirty-second notes; a beat is eight of them.
    pub fn thirty_seconds_per_step(self) -> (n: u8)
        ensures
            n == self.spec_thirty_seconds(),
    {
        match self {
            ArpRate::R32 => 1,
            ArpRate::R16 => 2,
            ArpRate::R8 => 4,
            ArpRate::R4 => 8,
            ArpRate::R2 => 16,
        }
    }
}

// ── Held-note lists ──────────────────────────────────────────────────────

/// The list is in ascending order.
pub open spec fn sorted(s: Seq<u8>) -> bool {
    forall|i: int, j: int| 0 <= i <= j < s.len() ==> s[i] <= s[j]
}

/// Number of leading elements smaller than `x`: where a sorted insert of
/// `x` goes.
pub open spec fn lower_bound(s: Seq<u8>, x: u8) -> nat
    decreases s.len(),
{
    if s.len() > 0 && s[0] < x {
        1 + lower_bound(s.drop_first(), x)
    } else {
        0
    }
}

/// Index of the first `x` in `s`, or `s.len()` when there is none.
pub open spec fn position_of(s: Seq<u8>, x: u8) -> nat
    decreases s.len(),
{
    if s.len() > 0 && s[0] != x {
        1 + position_of(s.drop_first(), x)
    } else {
        0
    }
}

/// `s` with `x` inserted at index `i`.
pub open spec fn inserted(s: Seq<u8>, i: int, x: u8) -> Seq<u8> {
    s.take(i) + seq![x] + s.skip(i)
}

/// The lower bound is the first index whose element is not below `x`.
pub proof fn lemma_lower_bound(s: Seq<u8>, x: u8, n: int)
    requires
        0 <= n <= s.len(),
        forall|j: int| 0 <= j < n ==> #[trigger] s[j] < x,
        n < s.len() ==> s[n] >= x,
    ensures
        lower_bound(s, x) == n,
    decreases n,
{
    if n > 0 {
        let t = s.drop_first();
        assert forall|j: int| 0 <= j < n - 1 implies #[trigger] t[j] < x by {
            assert(t[j] == s[j + 1]);
        }
        lemma_lower_bound(t, x, n - 1);
    }
}

/// The first-occurrence index is the first index holding `x`.
pub proof fn lemma_position_of(s: Seq<u8>, x: u8, n: int)
    requires
        0 <= n <= s.len(),
        forall|j: int| 0 <= j < n ==> #[trigger] s[j] != x,
        n < s.len() ==> s[n] == x,
    ensures
        position_of(s, x) == n,
    decreases n,
{
    if n > 0 {
        let t = s.drop_first();
        assert forall|j: int| 0 <= j < n - 1 implies #[trigger] t[j] != x by {
            assert(t[j] == s[j + 1]);
        }
        lemma_position_of(t, x, n - 1);
    }
}

/// Inserting at the lower bound keeps an ascending list ascending.
pub proof fn lemma_sorted_insert(s: Seq<u8>, x: u8, n: int)
    requires
        sorted(s),
        0 <= n <= s.len(),
        forall|j: int| 0 <= j < n ==> #[trigger] s[j] < x,
        n < s.len() ==> s[n] >= x,
    ensures
        sorted(inserted(s, n, x)),
{
    let t = inserted(s, n, x);
    assert forall|i: int, j: int| 0 <= i <= j < t.len() implies t[i] <= t[j] by {
        if i < n && j < n {
            assert(t[i] == s[i] && t[j] == s[j]);
        } else if i < n && j == n {
            assert(t[i] == s[i]);
        } else if i < n {
            assert(t[i] == s[i] && t[j] == s[j - 1]);
        } else if i == n && j > n {
            assert(t[j] == s[j - 1]);
            assert(s[n] <= s[j - 1]);
        } else if i > n {
            assert(t[i] == s[i - 1] && t[j] == s[j - 1]);
        }
    }
}

/// Removing an element keeps an ascending list ascending.
pub proof fn lemma_sorted_remove(s: Seq<u8>, n: int)
    requires
        sorted(s),
        0 <= n < s.len(),
    ensures
        sorted(s.remove(n)),
{
    let t = s.remove(n);
    assert forall|i: int, j: int| 0 <= i <= j < t.len() implies t[i] <= t[j] by {
        let a = if i < n { i } else { i + 1 };
        let b = if j < n { j } else { j + 1 };
        assert(t[i] == s[a] && t[j] == s[b]);
    }
}

/// The leading elements below the lower bound are smaller than `x`, and
/// the one at it (when there is one) is not.
pub proof fn lemma_lower_bound_bounds(s: Seq<u8>, x: u8)
    ensures
        lower_bound(s, x) <= s.len(),
        forall|j: int| 0 <= j < lower_bound(s, x) ==> #[trigger] s[j] < x,
        lower_bound(s, x) < s.len() ==> s[lower_bound(s, x) as int] >= x,
    decreases s.len(),
{
    if s.len() > 0 && s[0] < x {
        let t = s.drop_first();
        lemma_lower_bound_bounds(t, x);
        assert forall|j: int| 0 <= j < lower_bound(s, x) implies #[trigger] s[j] < x by {
            if j > 0 {
                assert(s[j] == t[j - 1]);
            }
        }
        if lower_bound(s, x) < s.len() {
            assert(s[lower_bound(s, x) as int] == t[lower_bound(t, x) as int]);
        }
    }
}

/// The first-occurrence index is at most the length.
pub proof fn lemma_position_of_bound(s: Seq<u8>, x: u8)
    ensures
        position_of(s, x) <= s.len(),
    decreases s.len(),
{
    if s.len() > 0 && s[0] != x {
        lemma_position_of_bound(s.drop_first(), x);
    }
}

/// Removing the first occurrence of `x` undoes inserting `x` at a place
/// no earlier occurrence of it precedes.
pub proof fn lemma_insert_then_remove(s: Seq<u8>, x: u8, pos: int)
    requires
        0 <= pos <= s.len(),
        forall|j: int| 0 <= j < pos ==> #[trigger] s[j] != x,
    ensures
        position_of(inserted(s, pos, x), x) == pos,
        inserted(s, pos, x).remove(pos) == s,
{
    let t = inserted(s, pos, x);
    assert forall|j: int| 0 <= j < pos implies #[trigger] t[j] != x by {
        assert(t[j] == s[j]);
    }
    assert(t[pos] == x);
    lemma_position_of(t, x, pos);
    assert(t.remove(pos) =~= s);
}

// ── Cursor ───────────────────────────────────────────────────────────────

/// One step of the xorshift32 generator behind Random mode.
pub open spec fn xorshift32(x: u32) -> u32 {
    let a = x ^ (x << 13u32);
    let b = a ^ (a >> 17u32);
    b ^ (b << 5u32)
}

/// Where the cursor goes next: the new step index and direction flag for
/// a sequence of `len` steps. `usize::MAX` is the "not started" cursor,
/// which jumps to the mode's canonical start.
pub open spec fn step_after(mode: ArpMode, idx: usize, going_up: bool, len: int, rng: u32) -> (
    usize,
    bool,
) {
    let fresh = idx == usize::MAX;
    match mode {
        ArpMode::Up | ArpMode::Played => (
            if fresh {
                0
            } else {
                ((idx + 1) % len) as usize
            },
            going_up,
        ),
        ArpMode::Down => (
            if fresh || idx == 0 {
                (len - 1) as usize
            } else {
                (idx - 1) as usize
            },
            going_up,
        ),
        ArpMode::UpDown => {
            if len <= 1 {
                (0, going_up)
            } else if fresh {
                (0, true)
            } else if going_up {
                if idx + 1 >= len {
                    ((len - 2) as usize, false)
                } else {
                    ((idx + 1) as usize, true)
                }
            } else if idx == 0 {
                (1, true)
            } else {
                ((idx - 1) as usize, false)
            }
        },
        ArpMode::Random => ((xorshift32(rng) as int % len) as usize, going_up),
    }
}

/// The note at expanded index `idx`: held note `idx % n`, raised by
/// `idx / n` octaves, saturating at 255.
pub open spec fn note_value(held: Seq<u8>, idx: int) -> u8 {
    let n = held.len() as int;
    let v = held[idx % n] + 12 * (idx / n);
    if v > 255 {
        255
    } else {
        v as u8
    }
}

/// In the ordered modes the cursor never lands twice in a row on the same
/// step of a sequence of two or more steps: Up and Played advance, Down
/// retreats, and UpDown turns around at the ends without repeating them.
pub proof fn lemma_no_immediate_repeat(mode: ArpMode, idx: usize, going_up: bool, len: int, rng: u32)
    requires
        mode != ArpMode::Random,
        2 <= len <= usize::MAX,
        idx < len,
    ensures
        step_after(mode, idx, going_up, len, rng).0 != idx,
{
    if idx + 1 < len {
        vstd::arithmetic::div_mod::lemma_small_mod((idx + 1) as nat, len as nat);
    } else {
        vstd::arithmetic::div_mod::lemma_mod_self_0(len);
    }
}

/// The cursor always lands inside a sequence of `len >= 1` steps when it
/// starts inside it or has not started.
pub proof fn lemma_step_in_range(mode: ArpMode, idx: usize, going_up: bool, len: int, rng: u32)
    requires
        1 <= len <= usize::MAX,
        idx == usize::MAX || idx < len,
    ensures
        step_after(mode, idx, going_up, len, rng).0 < len,
{
    vstd::arithmetic::div_mod::lemma_mod_pos_bound(idx + 1, len);
    vstd::arithmetic::div_mod::lemma_mod_pos_bound(xorshift32(rng) as int, len);
}


// ── ArpEngine ──────────────────────────────────────────────────────────────

/// Bound on the step cursor that keeps every expanded index's octave
/// offset within a MIDI byte.
pub open spec fn step_bound(count: int) -> int {
    (if count == 0 {
        1
    } else {
        count
    }) * (MAX_OCTAVES as int)
}

/// The arpeggiator's note scheduling: the held-note list, the step cursor
/// over the expanded sequence (held notes × octaves), the sounding note and
/// the note's gate. The tempo clock that decides when a gate or a step boundary is
/// crossed drives it through [`ArpEngine::clock`].
pub struct ArpEngine {
    pub enabled: bool,
    pub mode: ArpMode,
    /// Octave expansion range, 1–4 in the UI.
    pub octaves: u8,
    pub velocity: u8,
    /// Currently sounding MIDI note (for sending the NoteOff).
    pub current_note: u8,
    /// MIDI note numbers in ascending order (Up/Down/UpDown/Random) or in
    /// insertion order (Played).
    pub held: [u8; MAX_HELD],
    pub held_count: usize,
    /// Index into the expanded sequence; `usize::MAX` means "not started".
    pub step_index: usize,
    /// Whether the note's gate is open (NoteOn sent, NoteOff not yet).
    pub gate_open: bool,
    /// Direction flag for UpDown mode (true = going up).
    pub going_up: bool,
    /// Whether this is an even step in the pair (for swing).
    pub even_step: bool,
    /// xorshift32 state for Random mode.
    pub rng: u32,
}

impl ArpEngine {
    /// The held notes, in list order.
    pub open spec fn held_notes(&self) -> Seq<u8> {
        self.held@.take(self.held_count as int)
    }

    /// The step cursor (`usize::MAX` when not started).
    pub open spec fn step(&self) -> usize {
        self.step_index
    }

    pub open spec fn gate_is_open(&self) -> bool {
        self.gate_open
    }

    pub open spec fn rising(&self) -> bool {
        self.going_up
    }

    pub open spec fn even(&self) -> bool {
        self.even_step
    }

    pub open spec fn rng_state(&self) -> u32 {
        self.rng
    }

    /// Length of the expanded sequence.
    pub open spec fn seq_len(&self) -> int {
        self.held_count * self.octaves
    }

    pub open spec fn wf(&self) -> bool {
        &&& self.held_count <= MAX_HELD
        &&& self.step_index == usize::MAX || self.step_index < step_bound(self.held_count as int)
    }

    /// `after` is `before` with its cursor moved one step over `after`'s
    /// held notes: new step index, direction and generator state, and the
    /// note at the new step sounding.
    pub open spec fn stepped(before: ArpEngine, after: ArpEngine) -> bool {
        let len = after.held_count * after.octaves;
        let (i, up) = step_after(before.mode, before.step_index, before.going_up, len, before.rng);
        &&& after.step_index == i
        &&& after.going_up == up
        &&& after.rng == (if before.mode == ArpMode::Random {
            xorshift32(before.rng)
        } else {
            before.rng
        })
        &&& after.current_note == note_value(after.held_notes(), i as int)
    }

    /// The configuration is unchanged between `a` and `b`.
    pub open spec fn same_config(a: ArpEngine, b: ArpEngine) -> bool {
        &&& a.enabled == b.enabled
        &&& a.mode == b.mode
        &&& a.octaves == b.octaves
        &&& a.velocity == b.velocity
    }

    /// The cursor, sounding note and generator are unchanged.
    pub open spec fn same_cursor(a: ArpEngine, b: ArpEngine) -> bool {
        &&& a.step_index == b.step_index
        &&& a.going_up == b.going_up
        &&& a.current_note == b.current_note
        &&& a.rng == b.rng
    }

    /// A disabled arpeggiator: Up mode, one octave, 1/8-note velocity 100,
    /// nothing held, clock not started.
    pub fn new() -> (r: Self)
        ensures
            r.wf(),
            !r.enabled,
            r.mode == ArpMode::Up,
            r.octaves == 1,
            r.velocity == 100,
            r.current_note == 0,
            r.held_notes() == Seq::<u8>::empty(),
            r.step() == usize::MAX,
            !r.gate_is_open(),
            r.rising(),
            r.even(),
            r.rng_state() == 0xDEAD_BEEFu32,
    {
        let r = ArpEngine {
            enabled: false,
            mode: ArpMode::Up,
            octaves: 1,
            velocity: 100,
            current_note: 0,
            held: [0; MAX_HELD],
            held_count: 0,
            step_index: usize::MAX,
            gate_open: false,
            going_up: true,
            even_step: true,
            rng: 0xDEAD_BEEF,
        };
        assert(r.held_notes() =~= Seq::<u8>::empty());
        r
    }

    /// Whether the clock runs: enabled with at least one held note.
    pub fn is_running(&self) -> (b: bool)
        requires
            self.wf(),
        ensures
            b == (self.enabled && self.held_notes().len() > 0),
    {
        self.enabled && self.held_count > 0
    }

    /// Whether the current step is the even one of a swing pair.
    pub fn even_step(&self) -> (b: bool)
        ensures
            b == self.even(),
    {
        self.even_step
    }

    /// Number of held notes.
    pub fn held_count(&self) -> (n: usize)
        requires
            self.wf(),
        ensures
            n == self.held_notes().len(),
    {
        self.held_count
    }

    /// The note at expanded index `idx`.
    fn note_at(&self, idx: usize) -> (n: u8)
        requires
            0 < self.held_count <= MAX_HELD,
            idx < step_bound(self.held_count as int),
        ensures
            n == note_value(self.held_notes(), idx as int),
    {
        let c = self.held_count;
        let note_idx = idx % c;
        assert(idx / c < 22) by (nonlinear_arith)
            requires
                idx < c * 22,
                c > 0,
        ;
        assert(note_idx < c) by (nonlinear_arith)
            requires
                c > 0,
                note_idx == idx % c,
        ;
        let oct = (idx / c) as u8;
        assert(self.held_notes()[note_idx as int] == self.held@[note_idx as int]);
        self.held[note_idx].saturating_add(oct * 12)
    }

    /// Advances the cursor and updates the sounding note.
    fn advance_step(&mut self)
        requires
            old(self).wf(),
            old(self).held_count > 0,
            1 <= old(self).octaves <= MAX_OCTAVES,
        ensures
            final(self).wf(),
            ArpEngine::stepped(*old(self), *final(self)),
            final(self).held == old(self).held,
            final(self).held_count == old(self).held_count,
            ArpEngine::same_config(*old(self), *final(self)),
            final(self).gate_open == old(self).gate_open,
            final(self).even_step == old(self).even_step,
    {
        let c = self.held_count;
        let o = self.octaves as usize;
        assert(c * o <= c * 22) by (nonlinear_arith)
            requires
                o <= 22,
                c >= 0,
        ;
        assert(c * o >= 1) by (nonlinear_arith)
            requires
                o >= 1,
                c >= 1,
        ;
        let seq_len = c * o;
        let fresh = self.step_index == usize::MAX;
        let ghost len = seq_len as int;
        match self.mode {
            ArpMode::Up | ArpMode::Played => {
                self.step_index = if fresh {
                    0
                } else {
                    (self.step_index + 1) % seq_len
                };
            },
            ArpMode::Down => {
                self.step_index = if fresh || self.step_index == 0 {
                    seq_len - 1
                } else {
                    self.step_index - 1
                };
            },
            ArpMode::UpDown => {
                if seq_len <= 1 {
                    self.step_index = 0;
                } else if fresh {
                    self.step_index = 0;
                    self.going_up = true;
                } else if self.going_up {
                    if self.step_index + 1 >= seq_len {
                        self.going_up = false;
                        self.step_index = seq_len - 2;
                    } else {
                        self.step_index += 1;
                    }
                } else if self.step_index == 0 {
                    self.going_up = true;
                    self.step_index = 1;
                } else {
                    self.step_index -= 1;
                }
            },
            ArpMode::Random => {
                let mut r = self.rng;
                r = r ^ (r << 13u32);
                r = r ^ (r >> 17u32);
                r = r ^ (r << 5u32);
                self.rng = r;
                self.step_index = (r as usize) % seq_len;
            },
        }
        proof {
            vstd::arithmetic::div_mod::lemma_mod_pos_bound(old(self).step_index + 1, len);
            vstd::arithmetic::div_mod::lemma_mod_pos_bound(self.rng as int, len);
        }
        self.current_note = self.note_at(self.step_index);
    }

    /// `after` is `before` once `midi_note` was pressed; `fired` tells
    /// whether the note fired at once. The note joins the held notes
    /// (ascending in the sorted modes, last in Played) unless all
    /// [`MAX_HELD`] places are taken; it fires exactly when it is the first
    /// note into an enabled arpeggiator, and the cursor then takes its
    /// first step with the note's gate open.
    pub open spec fn pressed(before: ArpEngine, after: ArpEngine, midi_note: u8, fired: bool) -> bool {
        let s = before.held_notes();
        &&& ArpEngine::same_config(before, after)
        &&& after.even_step == before.even_step
        &&& s.len() >= MAX_HELD ==> !fired && after == before
        &&& s.len() < MAX_HELD ==> {
            let pos = if before.mode == ArpMode::Played {
                s.len()
            } else {
                lower_bound(s, midi_note)
            };
            &&& after.held_notes() == inserted(s, pos as int, midi_note)
            &&& fired == (s.len() == 0 && before.enabled)
            &&& fired ==> ArpEngine::stepped(before, after) && after.gate_open
            &&& !fired ==> ArpEngine::same_cursor(before, after) && after.gate_open
                == before.gate_open
        }
    }

    /// `after` is `before` once `midi_note` was released: its first
    /// occurrence leaves the held notes and a started cursor is folded back
    /// into the shorter sequence; a note not held changes nothing.
    pub open spec fn released(before: ArpEngine, after: ArpEngine, midi_note: u8) -> bool {
        let s = before.held_notes();
        let p = position_of(s, midi_note);
        &&& p == s.len() ==> after == before
        &&& p < s.len() ==> {
            &&& after.held_notes() == s.remove(p as int)
            &&& after.step() == (if s.len() > 1 && before.step() != usize::MAX {
                (before.step() as int % ((s.len() - 1) * before.octaves)) as usize
            } else {
                before.step()
            })
            &&& ArpEngine::same_config(before, after)
            &&& after.current_note == before.current_note
            &&& after.going_up == before.going_up
            &&& after.rng == before.rng
            &&& after.gate_open == before.gate_open
            &&& after.even_step == before.even_step
        }
    }

    /// Records a held note: ascending insert in the sorted modes, append in
    /// Played. Returns `true` when this is the first note into an empty,
    /// enabled arpeggiator: the cursor then sits on the canonical first
    /// step with the note's gate open, and the caller fires `current_note` at
    /// once. A 33rd note is ignored.
    pub fn note_on(&mut self, midi_note: u8) -> (fired: bool)
        requires
            old(self).wf(),
            old(self).held_notes().len() == 0 && old(self).enabled ==> 1 <= old(self).octaves
                <= MAX_OCTAVES,
        ensures
            final(self).wf(),
            ArpEngine::pressed(*old(self), *final(self), midi_note, fired),
            old(self).mode != ArpMode::Played && sorted(old(self).held_notes()) ==> sorted(
                final(self).held_notes(),
            ),
    {
        if self.held_count >= MAX_HELD {
            return false;
        }
        let ghost s = self.held_notes();
        let ghost h0 = self.held@;
        let count = self.held_count;
        let was_empty = count == 0;
        let mut pos = count;
        if self.mode != ArpMode::Played {
            pos = 0;
            while pos < count && self.held[pos] < midi_note
                invariant
                    pos <= count,
                    count == self.held_count,
                    count < MAX_HELD,
                    self.held@ == h0,
                    s == h0.take(count as int),
                    forall|j: int| 0 <= j < pos ==> #[trigger] s[j] < midi_note,
                decreases count - pos,
            {
                pos += 1;
            }
            proof {
                lemma_lower_bound(s, midi_note, pos as int);
                if sorted(s) {
                    lemma_sorted_insert(s, midi_note, pos as int);
                }
            }
        }
        let mut j = count;
        while j > pos
            invariant
                pos <= j <= count,
                count == self.held_count,
                count < MAX_HELD,
                forall|k: int| 0 <= k < j ==> self.held@[k] == h0[k],
                forall|k: int| j < k <= count ==> self.held@[k] == h0[k - 1],
                ArpEngine::same_config(*old(self), *self),
                ArpEngine::same_cursor(*old(self), *self),
                self.gate_open == old(self).gate_open,
                self.even_step == old(self).even_step,
                self.held_count == old(self).held_count,
            decreases j - pos,
        {
            let x = self.held[j - 1];
            self.held[j] = x;
            j -= 1;
        }
        self.held[pos] = midi_note;
        self.held_count = count + 1;
        assert(self.held_notes() =~= inserted(s, pos as int, midi_note));
        if was_empty && self.enabled {
            self.advance_step();
            self.gate_open = true;
            return true;
        }
        false
    }

    /// Removes the first occurrence of a released note. The cursor, when
    /// started, is folded back into the shorter sequence.
    pub fn note_off(&mut self, midi_note: u8)
        requires
            old(self).wf(),
            old(self).held_notes().contains(midi_note) && old(self).held_notes().len() > 1
                && old(self).step() != usize::MAX ==> 1 <= old(self).octaves <= MAX_OCTAVES,
        ensures
            final(self).wf(),
            ArpEngine::released(*old(self), *final(self), midi_note),
            sorted(old(self).held_notes()) ==> sorted(final(self).held_notes()),
    {
        let ghost s = self.held_notes();
        let ghost h0 = self.held@;
        let count = self.held_count;
        let mut pos: usize = 0;
        while pos < count && self.held[pos] != midi_note
            invariant
                pos <= count,
                count == self.held_count,
                count <= MAX_HELD,
                self.held@ == h0,
                s == h0.take(count as int),
                forall|j: int| 0 <= j < pos ==> #[trigger] s[j] != midi_note,
            decreases count - pos,
        {
            pos += 1;
        }
        proof {
            lemma_position_of(s, midi_note, pos as int);
        }
        if pos == count {
            return;
        }
        proof {
            lemma_sorted_remove_if(s, pos as int);
        }
        let mut j = pos;
        while j + 1 < count
            invariant
                pos <= j < count,
                count == self.held_count,
                count <= MAX_HELD,
                forall|k: int| 0 <= k < pos ==> self.held@[k] == h0[k],
                forall|k: int| pos <= k < j ==> self.held@[k] == h0[k + 1],
                forall|k: int| j <= k < MAX_HELD ==> self.held@[k] == h0[k],
                ArpEngine::same_config(*old(self), *self),
                ArpEngine::same_cursor(*old(self), *self),
                self.gate_open == old(self).gate_open,
                self.even_step == old(self).even_step,
            decreases count - j,
        {
            let x = self.held[j + 1];
            self.held[j] = x;
            j += 1;
        }
        self.held_count = count - 1;
        assert(self.held_notes() =~= s.remove(pos as int));
        if self.held_count > 0 && self.step_index != usize::MAX {
            let c = self.held_count;
            let o = self.octaves as usize;
            assert(c * o <= c * 22 && c * o >= 1) by (nonlinear_arith)
                requires
                    1 <= o <= 22,
                    c >= 1,
            ;
            let seq_len = c * o;
            proof {
                vstd::arithmetic::div_mod::lemma_mod_pos_bound(self.step_index as int, seq_len as int);
            }
            self.step_index = self.step_index % seq_len;
        }
    }

    /// If the held set is empty but a note is still sounding from the
    /// key-down immediate fire, closes the note's gate and returns that note so the
    /// caller can release its voice now. `None` when notes are still held
    /// or no gate is open.
    pub fn take_idle_note_off(&mut self) -> (r: Option<u8>)
        requires
            old(self).wf(),
        ensures
            final(self).wf(),
            (old(self).held_notes().len() == 0 && old(self).gate_is_open()) ==> r == Some(
                old(self).current_note,
            ) && *final(self) == (ArpEngine { gate_open: false, ..*old(self) }),
            !(old(self).held_notes().len() == 0 && old(self).gate_is_open()) ==> r is None
                && *final(self) == *old(self),
    {
        if self.held_count == 0 && self.gate_open {
            self.gate_open = false;
            Some(self.current_note)
        } else {
            None
        }
    }

    /// Clears all held notes, closes the note's gate and stops the cursor (the
    /// panic / all-notes-off path).
    pub fn clear(&mut self)
        ensures
            *final(self) == (ArpEngine {
                held_count: 0,
                gate_open: false,
                step_index: usize::MAX,
                ..*old(self)
            }),
            final(self).held_notes() == Seq::<u8>::empty(),
    {
        self.held_count = 0;
        self.gate_open = false;
        self.step_index = usize::MAX;
        assert(self.held_notes() =~= Seq::<u8>::empty());
    }

    /// Resets the cursor so the next step boundary fires the canonical
    /// first step: cursor not started, gate closed, even swing step.
    pub fn reset_clock(&mut self)
        ensures
            *final(self) == (ArpEngine {
                step_index: usize::MAX,
                gate_open: false,
                even_step: true,
                ..*old(self)
            }),
    {
        self.step_index = usize::MAX;
        self.gate_open = false;
        self.even_step = true;
    }

    /// The clock tick while not running (disabled or nothing held): a note
    /// still sounding is released and the cursor returns to "not started".
    pub fn stop_clock(&mut self) -> (out: ArpEvents)
        ensures
            out.wf(),
            out@ == (if old(self).gate_is_open() {
                seq![ArpEvent::NoteOff { note: old(self).current_note }]
            } else {
                Seq::<ArpEvent>::empty()
            }),
            *final(self) == (ArpEngine { gate_open: false, step_index: usize::MAX, ..*old(self) }),
    {
        let mut out = ArpEvents::new();
        if self.gate_open {
            out.push(ArpEvent::NoteOff { note: self.current_note });
            self.gate_open = false;
        }
        self.step_index = usize::MAX;
        out
    }

    /// One clock tick while running. `gate_reached` says the step's gate
    /// fraction was crossed during the block, `step_boundary` that the step
    /// ended, and `gate_closes_now` that the new step's gate is already
    /// behind the phase carried into it (a very short gate).
    ///
    /// An open gate closes at gate point; at a step boundary any open
    /// gate closes, the cursor advances, the new note fires, and closes
    /// again at once when `gate_closes_now`.
    pub fn clock(&mut self, gate_reached: bool, step_boundary: bool, gate_closes_now: bool) -> (out:
        ArpEvents)
        requires
            old(self).wf(),
            old(self).enabled,
            old(self).held_notes().len() > 0,
            step_boundary ==> 1 <= old(self).octaves <= MAX_OCTAVES,
        ensures
            final(self).wf(),
            out.wf(),
            out@ == clock_events(
                old(self).gate_is_open(),
                old(self).current_note,
                gate_reached,
                step_boundary,
                final(self).current_note,
                old(self).velocity,
                gate_closes_now,
            ),
            final(self).gate_is_open() == (if step_boundary {
                !gate_closes_now
            } else {
                old(self).gate_is_open() && !gate_reached
            }),
            final(self).even() == (old(self).even() != step_boundary),
            final(self).held_notes() == old(self).held_notes(),
            ArpEngine::same_config(*old(self), *final(self)),
            step_boundary ==> ArpEngine::stepped(*old(self), *final(self)),
            !step_boundary ==> ArpEngine::same_cursor(*old(self), *final(self)),
    {
        let mut out = ArpEvents::new();
        if self.gate_open && gate_reached {
            out.push(ArpEvent::NoteOff { note: self.current_note });
            self.gate_open = false;
        }
        if step_boundary {
            self.even_step = !self.even_step;
            if self.gate_open {
                out.push(ArpEvent::NoteOff { note: self.current_note });
                self.gate_open = false;
            }
            self.advance_step();
            let note = self.current_note;
            out.push(ArpEvent::NoteOn { note, velocity: self.velocity });
            self.gate_open = true;
            if gate_closes_now {
                out.push(ArpEvent::NoteOff { note });
                self.gate_open = false;
            }
        }
        assert(out@ =~= clock_events(
            old(self).gate_is_open(),
            old(self).current_note,
            gate_reached,
            step_boundary,
            self.current_note,
            old(self).velocity,
            gate_closes_now,
        ));
        out
    }
}

proof fn lemma_sorted_remove_if(s: Seq<u8>, n: int)
    requires
        0 <= n < s.len(),
    ensures
        sorted(s) ==> sorted(s.remove(n)),
{
    if sorted(s) {
        lemma_sorted_remove(s, n);
    }
}

/// The events of one running clock tick: the note's gate-point NoteOff, then at
/// a step boundary the NoteOff of a still-open gate, the new step's NoteOn
/// and, for a gate that closes at once, its NoteOff.
pub open spec fn clock_events(
    gate_open: bool,
    old_note: u8,
    gate_reached: bool,
    step_boundary: bool,
    new_note: u8,
    velocity: u8,
    gate_closes_now: bool,
) -> Seq<ArpEvent> {
    let first = if gate_open && gate_reached {
        seq![ArpEvent::NoteOff { note: old_note }]
    } else {
        Seq::<ArpEvent>::empty()
    };
    if step_boundary {
        first + (if gate_open && !gate_reached {
            seq![ArpEvent::NoteOff { note: old_note }]
        } else {
            Seq::<ArpEvent>::empty()
        }) + seq![ArpEvent::NoteOn { note: new_note, velocity }] + (if gate_closes_now {
            seq![ArpEvent::NoteOff { note: new_note }]
        } else {
            Seq::<ArpEvent>::empty()
        })
    } else {
        first
    }
}

/// Pressing a key and releasing it again gives back the held notes as
/// they were, wherever the key goes in ahead of any earlier press of it:
/// in the sorted modes always, in Played mode when it was not held.
pub proof fn lemma_press_then_release(
    before: ArpEngine,
    mid: ArpEngine,
    after: ArpEngine,
    midi_note: u8,
    fired: bool,
)
    requires
        before.wf(),
        before.held_notes().len() < MAX_HELD,
        before.mode != ArpMode::Played || !before.held_notes().contains(midi_note),
        ArpEngine::pressed(before, mid, midi_note, fired),
        ArpEngine::released(mid, after, midi_note),
    ensures
        after.held_notes() == before.held_notes(),
        ArpEngine::same_config(before, after),
{
    let s = before.held_notes();
    let pos = if before.mode == ArpMode::Played {
        s.len() as int
    } else {
        lemma_lower_bound_bounds(s, midi_note);
        lower_bound(s, midi_note) as int
    };
    if before.mode == ArpMode::Played {
        assert forall|j: int| 0 <= j < pos implies #[trigger] s[j] != midi_note by {
            if s[j] == midi_note {
                assert(s.contains(midi_note));
            }
        }
    }
    lemma_insert_then_remove(s, midi_note, pos);
}

/// At every step boundary of a running arpeggiator the block's events hold
/// exactly one NoteOn — the new step's note at the arpeggiator velocity —
/// whether or not the previous note's gate had already closed; every other
/// event is a NoteOff. Between boundaries no note starts.
pub proof fn lemma_boundary_starts_one_note(
    gate_open: bool,
    old_note: u8,
    gate_reached: bool,
    step_boundary: bool,
    new_note: u8,
    velocity: u8,
    gate_closes_now: bool,
)
    ensures
        ({
            let ev = clock_events(
                gate_open,
                old_note,
                gate_reached,
                step_boundary,
                new_note,
                velocity,
                gate_closes_now,
            );
            &&& step_boundary ==> exists|i: int|
                0 <= i < ev.len() && ev[i] == (ArpEvent::NoteOn { note: new_note, velocity })
                    && forall|j: int| 0 <= j < ev.len() && j != i ==> (#[trigger] ev[j]) is NoteOff
            &&& !step_boundary ==> forall|j: int| 0 <= j < ev.len() ==> (#[trigger] ev[j]) is NoteOff
        }),
{
    let ev = clock_events(
        gate_open,
        old_note,
        gate_reached,
        step_boundary,
        new_note,
        velocity,
        gate_closes_now,
    );
    let first = if gate_open && gate_reached {
        seq![ArpEvent::NoteOff { note: old_note }]
    } else {
        Seq::<ArpEvent>::empty()
    };
    if step_boundary {
        let second = if gate_open && !gate_reached {
            seq![ArpEvent::NoteOff { note: old_note }]
        } else {
            Seq::<ArpEvent>::empty()
        };
        let last = if gate_closes_now {
            seq![ArpEvent::NoteOff { note: new_note }]
        } else {
            Seq::<ArpEvent>::empty()
        };
        let on = ArpEvent::NoteOn { note: new_note, velocity };
        assert(ev =~= first + second + seq![on] + last);
        let i = first.len() + second.len();
        assert(ev[i as int] == on);
        assert forall|j: int| 0 <= j < ev.len() && j != i implies (#[trigger] ev[j]) is NoteOff by {
            if j < first.len() {
                assert(ev[j] == first[j]);
            } else if j < i {
                assert(ev[j] == second[j - first.len()]);
            } else {
                assert(ev[j] == last[j - i - 1]);
            }
        }
    } else {
        assert(ev == first);
    }
}

/// The xorshift32 generator never stalls: from a non-zero state the next
/// state is non-zero and different.
pub proof fn lemma_xorshift32_moves(x: u32)
    requires
        x != 0,
    ensures
        xorshift32(x) != 0,
        xorshift32(x) != x,
{
    let a = x ^ (x << 13u32);
    let b = a ^ (a >> 17u32);
    let c = b ^ (b << 5u32);
    assert(c != 0 && c != x) by (bit_vector)
        requires
            x != 0u32,
            a == x ^ (x << 13u32),
            b == a ^ (a >> 17u32),
            c == b ^ (b << 5u32),
    ;
}

/// In Random mode every step draws the next generator output: two steps in
/// a row land on the first and second outputs after the starting state, and
/// a non-zero state never repeats from one step to the next.
pub proof fn lemma_random_steps_advance_the_generator(s0: ArpEngine, s1: ArpEngine, s2: ArpEngine)
    requires
        s0.mode == ArpMode::Random,
        ArpEngine::same_config(s0, s1),
        ArpEngine::stepped(s0, s1),
        ArpEngine::stepped(s1, s2),
        s1.wf(),
        s2.wf(),
        s1.held_count * s1.octaves > 0,
        s2.held_count * s2.octaves > 0,
    ensures
        s1.rng == xorshift32(s0.rng),
        s2.rng == xorshift32(xorshift32(s0.rng)),
        s1.step_index == xorshift32(s0.rng) as int % (s1.held_count * s1.octaves),
        s2.step_index == xorshift32(xorshift32(s0.rng)) as int % (s2.held_count * s2.octaves),
        s0.rng != 0 ==> s1.rng != s0.rng && s2.rng != s1.rng,
{
    assert(s1.held_count * s1.octaves <= 32 * 255) by (nonlinear_arith)
        requires
            s1.held_count <= 32,
            s1.octaves <= 255,
    ;
    assert(s2.held_count * s2.octaves <= 32 * 255) by (nonlinear_arith)
        requires
            s2.held_count <= 32,
            s2.octaves <= 255,
    ;
    vstd::arithmetic::div_mod::lemma_mod_pos_bound(
        xorshift32(s0.rng) as int,
        s1.held_count * s1.octaves,
    );
    vstd::arithmetic::div_mod::lemma_mod_pos_bound(
        xorshift32(xorshift32(s0.rng)) as int,
        s2.held_count * s2.octaves,
    );
    if s0.rng != 0 {
        lemma_xorshift32_moves(s0.rng);
        lemma_xorshift32_moves(s1.rng);
    }
}

} // verus!
