//! Modulation-matrix routing selectors: the sources and destinations a
//! matrix slot connects, with the indices they travel under on the
//! parameter bus.

use vstd::prelude::*;

verus! {

/// A modulation source.
#[derive(Debug, Clone, Copy, PartialEq, Eq, Structural)]
pub enum ModSource {
    /// No source — evaluates to zero. The default, and the "via scaling
    /// disabled" sentinel.
    Off,
    /// LFO 1 output, -1..=1.
    Lfo1,
    /// LFO 2 output, -1..=1.
    Lfo2,
    /// Mod envelope (Env2) output, 0..=1.
    Env2,
    /// Amp envelope current level, 0..=1.
    AmpEnv,
    /// MIDI velocity captured at note-on, 0..=1.
    Velocity,
    /// Key tracking: `(midi_note - 60) / 60`.
    KeyTracking,
    /// MIDI mod wheel, 0..=1.
    ModWheel,
    /// MIDI channel aftertouch, 0..=1.
    Aftertouch,
    /// MIDI pitch bend, -1..=1.
    PitchBend,
}

impl Default for ModSource {
    fn default() -> (r: Self)
        ensures
            r == ModSource::Off,
    {
        ModSource::Off
    }
}

impl ModSource {
    /// Total number of variants; used to validate parameter bus values.
    pub const COUNT: u8 = 10;

    /// The index of each source on the parameter bus.
    pub open spec fn spec_index(self) -> u8 {
        match self {
            ModSource::Off => 0,
            ModSource::Lfo1 => 1,
            ModSource::Lfo2 => 2,
            ModSource::Env2 => 3,
            ModSource::AmpEnv => 4,
            ModSource::Velocity => 5,
            ModSource::KeyTracking => 6,
            ModSource::ModWheel => 7,
            ModSource::Aftertouch => 8,
            ModSource::PitchBend => 9,
        }
    }

    /// Converts a parameter-bus index to a source; `None` out of range.
    pub fn from_index(i: u8) -> (r: Option<Self>)
        ensures
            i < Self::COUNT ==> (r matches Some(s) && s.spec_index() == i),
            i >= Self::COUNT ==> r is None,
    {
        match i {
            0 => Some(ModSource::Off),
            1 => Some(ModSource::Lfo1),
            2 => Some(ModSource::Lfo2),
            3 => Some(ModSource::Env2),
            4 => Some(ModSource::AmpEnv),
            5 => Some(ModSource::Velocity),
            6 => Some(ModSource::KeyTracking),
            7 => Some(ModSource::ModWheel),
            8 => Some(ModSource::Aftertouch),
            9 => Some(ModSource::PitchBend),
            _ => None,
        }
    }

    /// Returns the index used on the parameter bus.
    pub fn to_index(self) -> (i: u8)
        ensures
            i == self.spec_index(),
    {
        match self {
            ModSource::Off => 0,
            ModSource::Lfo1 => 1,
            ModSource::Lfo2 => 2,
            ModSource::Env2 => 3,
            ModSource::AmpEnv => 4,
            ModSource::Velocity => 5,
            ModSource::KeyTracking => 6,
            ModSource::ModWheel => 7,
            ModSource::Aftertouch => 8,
            ModSource::PitchBend => 9,
        }
    }
}

/// A modulation destination.
#[derive(Debug, Clone, Copy, PartialEq, Eq, Structural)]
pub enum ModDest {
    /// Additive offset to filter cutoff, in Hz.
    FilterCutoffHz,
    /// Additive offset to filter resonance, 0..=1 units.
    FilterResonance,
    /// Additive offset to pitch, in semitones.
    PitchSemis,
    /// Additive scale applied to amp envelope × velocity.
    Volume,
    /// Additive offset to oscillator 1 detune, in cents.
    Osc1DetuneCents,
    /// Additive offset to oscillator 1 pan, -1..=1 units.
    Osc1Pan,
}

impl Default for ModDest {
    fn default() -> (r: Self)
        ensures
            r == ModDest::FilterCutoffHz,
    {
        ModDest::FilterCutoffHz
    }
}

impl ModDest {
    /// Total number of variants.
    pub const COUNT: u8 = 6;

    /// The index of each destination on the parameter bus.
    pub open spec fn spec_index(self) -> u8 {
        match self {
            ModDest::FilterCutoffHz => 0,
            ModDest::FilterResonance => 1,
            ModDest::PitchSemis => 2,
            ModDest::Volume => 3,
            ModDest::Osc1DetuneCents => 4,
            ModDest::Osc1Pan => 5,
        }
    }

    /// Converts a parameter-bus index to a destination; `None` out of
    /// range.
    pub fn from_index(i: u8) -> (r: Option<Self>)
        ensures
            i < Self::COUNT ==> (r matches Some(d) && d.spec_index() == i),
            i >= Self::COUNT ==> r is None,
    {
        match i {
            0 => Some(ModDest::FilterCutoffHz),
            1 => Some(ModDest::FilterResonance),
            2 => Some(ModDest::PitchSemis),
            3 => Some(ModDest::Volume),
            4 => Some(ModDest::Osc1DetuneCents),
            5 => Some(ModDest::Osc1Pan),
            _ => None,
        }
    }

    /// Returns the index used on the parameter bus.
    pub fn to_index(self) -> (i: u8)
        ensures
            i == self.spec_index(),
    {
        match self {
            ModDest::FilterCutoffHz => 0,
            ModDest::FilterResonance => 1,
            ModDest::PitchSemis => 2,
            ModDest::Volume => 3,
            ModDest::Osc1DetuneCents => 4,
            ModDest::Osc1Pan => 5,
        }
    }
}

/// Source indices are a bijection onto `0..COUNT`: distinct sources have
/// distinct indices, all in range, so `from_index(to_index(s)) == Some(s)`.
pub proof fn lemma_source_index_round_trip(a: ModSource, b: ModSource)
    ensures
        a.spec_index() < ModSource::COUNT,
        a.spec_index() == b.spec_index() ==> a == b,
{
}

/// Destination indices are a bijection onto `0..COUNT`.
pub proof fn lemma_dest_index_round_trip(a: ModDest, b: ModDest)
    ensures
        a.spec_index() < ModDest::COUNT,
        a.spec_index() == b.spec_index() ==> a == b,
{
}

/// Values stored on the bus for a slot's source always decode: an index is
/// kept when it names a source and replaced by `Off`'s otherwise.
pub fn sanitize_source_index(i: u8) -> (r: u8)
    ensures
        i < ModSource::COUNT ==> r == i,
        i >= ModSource::COUNT ==> r == ModSource::Off.spec_index(),
{
    match ModSource::from_index(i) {
        Some(s) => s.to_index(),
        None => ModSource::Off.to_index(),
    }
}

/// Values stored on the bus for a slot's destination always decode: an
/// index is kept when it names a destination and replaced by the default
/// (`FilterCutoffHz`) otherwise.
pub fn sanitize_dest_index(i: u8) -> (r: u8)
    ensures
        i < ModDest::COUNT ==> r == i,
        i >= ModDest::COUNT ==> r == ModDest::FilterCutoffHz.spec_index(),
{
    match ModDest::from_index(i) {
        Some(d) => d.to_index(),
        None => ModDest::FilterCutoffHz.to_index(),
    }
}

} // verus!
