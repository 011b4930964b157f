//! Oscillator waveform selector.

use vstd::prelude::*;

verus! {

/// The shape a subtractive oscillator produces. A discrete parameter,
/// changed at block boundaries.
#[derive(Debug, Clone, Copy, PartialEq, Eq, Structural)]
pub enum Waveform {
    /// Pure sine, fundamental only.
    Sine,
    /// Band-limited (polyBLEP) ascending sawtooth.
    Saw,
    /// Band-limited (polyBLEP) 50%-duty square.
    Square,
    /// Linear-segment triangle.
    Triangle,
}

impl Default for Waveform {
    fn default() -> (r: Self)
        ensures
            r == Waveform::Sine,
    {
        Waveform::Sine
    }
}

impl Waveform {
    /// Number of variants.
    pub open spec fn spec_count() -> usize {
        4
    }

    /// The stable index of each variant.
    pub open spec fn spec_index(self) -> usize {
        match self {
            Waveform::Sine => 0,
            Waveform::Saw => 1,
            Waveform::Square => 2,
            Waveform::Triangle => 3,
        }
    }

    /// The variant an index decodes to; out-of-range indices give `Sine`.
    pub open spec fn spec_from_index(i: usize) -> Self {
        if i == 0 {
            Waveform::Sine
        } else         if i == 1 {
            Waveform::Saw
        } else         if i == 2 {
            Waveform::Square
        } else         if i == 3 {
            Waveform::Triangle
        } else {
            Waveform::Sine
        }
    }

    /// Returns the zero-based index used when serialising waveform to a preset
    /// (Sine=0, Saw=1, Square=2, Triangle=3).
    pub fn index(self) -> (i: usize)
        ensures
            i == self.spec_index(),
    {
        match self {
            Waveform::Sine => 0,
            Waveform::Saw => 1,
            Waveform::Square => 2,
            Waveform::Triangle => 3,
        }
    }

    /// Converts a zero-based index back to a `Waveform`. Indices outside 0..=3
    /// return `Sine`.
    pub fn from_index(i: usize) -> (r: Self)
        ensures
            r == Self::spec_from_index(i),
    {
        match i {
            0 => Waveform::Sine,
            1 => Waveform::Saw,
            2 => Waveform::Square,
            3 => Waveform::Triangle,
            _ => Waveform::Sine,
        }
    }
}

/// Decoding an index of a Waveform gives it back, and the index of the variant an in-range index decodes to is that index.
pub proof fn lemma_waveform_index_round_trip(x: Waveform, i: usize)
    ensures
        Waveform::spec_from_index(x.spec_index()) == x,
        x.spec_index() < Waveform::spec_count(),
        i < Waveform::spec_count() ==> Waveform::spec_from_index(i).spec_index() == i,
{
}

} // verus!
