//! LFO selectors: the waveform shape and the tempo-sync division.

use vstd::prelude::*;

verus! {

/// Waveform shape of the LFO output.
#[derive(Debug, Clone, Copy, PartialEq, Eq, Structural)]
pub enum LfoShape {
    /// Smooth sinusoid. Starts at 0, rises first.
    Sine,
    /// Linear triangle wave. Starts at 0, rises to +1 at ¼-cycle.
    Triangle,
    /// Rising sawtooth. Starts at -1, ramps to +1.
    SawUp,
    /// Falling sawtooth. Starts at +1, ramps to -1.
    SawDown,
    /// Two-state square wave. High (+1) for the first half of each cycle.
    Square,
    /// Sample-and-hold: random value locked until the next period boundary.
    SampleAndHold,
    /// Smooth random: linearly interpolates between consecutive random
    /// values.
    SmoothRandom,
}

impl Default for LfoShape {
    fn default() -> (r: Self)
        ensures
            r == LfoShape::Sine,
    {
        LfoShape::Sine
    }
}

impl LfoShape {
    /// Number of variants.
    pub open spec fn spec_count() -> usize {
        7
    }

    /// The stable index of each variant.
    pub open spec fn spec_index(self) -> usize {
        match self {
            LfoShape::Sine => 0,
            LfoShape::Triangle => 1,
            LfoShape::SawUp => 2,
            LfoShape::SawDown => 3,
            LfoShape::Square => 4,
            LfoShape::SampleAndHold => 5,
            LfoShape::SmoothRandom => 6,
        }
    }

    /// The variant an index decodes to; out-of-range indices give `SmoothRandom`.
    pub open spec fn spec_from_index(i: usize) -> Self {
        if i == 0 {
            LfoShape::Sine
        } else         if i == 1 {
            LfoShape::Triangle
        } else         if i == 2 {
            LfoShape::SawUp
        } else         if i == 3 {
            LfoShape::SawDown
        } else         if i == 4 {
            LfoShape::Square
        } else         if i == 5 {
            LfoShape::SampleAndHold
        } else         if i == 6 {
            LfoShape::SmoothRandom
        } else {
            LfoShape::SmoothRandom
        }
    }

    /// Zero-based index of this shape, inverse of [`from_index`](Self::from_index).
    pub fn index(self) -> (i: usize)
        ensures
            i == self.spec_index(),
    {
        match self {
            LfoShape::Sine => 0,
            LfoShape::Triangle => 1,
            LfoShape::SawUp => 2,
            LfoShape::SawDown => 3,
            LfoShape::Square => 4,
            LfoShape::SampleAndHold => 5,
            LfoShape::SmoothRandom => 6,
        }
    }

    /// Returns the `LfoShape` for a zero-based index. Indices beyond the last
    /// variant clamp to `SmoothRandom`.
    pub fn from_index(i: usize) -> (r: Self)
        ensures
            r == Self::spec_from_index(i),
    {
        match i {
            0 => LfoShape::Sine,
            1 => LfoShape::Triangle,
            2 => LfoShape::SawUp,
            3 => LfoShape::SawDown,
            4 => LfoShape::Square,
            5 => LfoShape::SampleAndHold,
            6 => LfoShape::SmoothRandom,
            _ => LfoShape::SmoothRandom,
        }
    }
}

/// Decoding an index of an LfoShape gives it back, and the index of the variant an in-range index decodes to is that index.
pub proof fn lemma_lfo_shape_index_round_trip(x: LfoShape, i: usize)
    ensures
        LfoShape::spec_from_index(x.spec_index()) == x,
        x.spec_index() < LfoShape::spec_count(),
        i < LfoShape::spec_count() ==> LfoShape::spec_from_index(i).spec_index() == i,
{
}

/// BPM sync division for an LFO: the LFO period in bars (4/4), shortest
/// first.
#[derive(Debug, Clone, Copy, PartialEq, Eq, Structural)]
pub enum SyncDivision {
    /// 1/32 of a bar — fastest sync option.
    ThirtySecond,
    /// 1/16 of a bar.
    Sixteenth,
    /// 1/8 of a bar.
    Eighth,
    /// 1/4 of a bar (one beat in 4/4).
    Quarter,
    /// 1/2 of a bar.
    Half,
    /// 1 bar.
    One,
    /// 2 bars.
    Two,
    /// 4 bars — slowest sync option.
    Four,
}

impl Default for SyncDivision {
    fn default() -> (r: Self)
        ensures
            r == SyncDivision::One,
    {
        SyncDivision::One
    }
}

impl SyncDivision {
    /// Number of variants.
    pub open spec fn spec_count() -> usize {
        8
    }

    /// The stable index of each variant.
    pub open spec fn spec_index(self) -> usize {
        match self {
            SyncDivision::ThirtySecond => 0,
            SyncDivision::Sixteenth => 1,
            SyncDivision::Eighth => 2,
            SyncDivision::Quarter => 3,
            SyncDivision::Half => 4,
            SyncDivision::One => 5,
            SyncDivision::Two => 6,
            SyncDivision::Four => 7,
        }
    }

    /// The variant an index decodes to; out-of-range indices give `Four`.
    pub open spec fn spec_from_index(i: usize) -> Self {
        if i == 0 {
            SyncDivision::ThirtySecond
        } else         if i == 1 {
            SyncDivision::Sixteenth
        } else         if i == 2 {
            SyncDivision::Eighth
        } else         if i == 3 {
            SyncDivision::Quarter
        } else         if i == 4 {
            SyncDivision::Half
        } else         if i == 5 {
            SyncDivision::One
        } else         if i == 6 {
            SyncDivision::Two
        } else         if i == 7 {
            SyncDivision::Four
        } else {
            SyncDivision::Four
        }
    }

    /// Zero-based index of this division, inverse of [`from_index`](Self::from_index).
    pub fn index(self) -> (i: usize)
        ensures
            i == self.spec_index(),
    {
        match self {
            SyncDivision::ThirtySecond => 0,
            SyncDivision::Sixteenth => 1,
            SyncDivision::Eighth => 2,
            SyncDivision::Quarter => 3,
            SyncDivision::Half => 4,
            SyncDivision::One => 5,
            SyncDivision::Two => 6,
            SyncDivision::Four => 7,
        }
    }

    /// Returns the `SyncDivision` for a zero-based index. Indices beyond the
    /// last variant clamp to `Four`.
    pub fn from_index(i: usize) -> (r: Self)
        ensures
            r == Self::spec_from_index(i),
    {
        match i {
            0 => SyncDivision::ThirtySecond,
            1 => SyncDivision::Sixteenth,
            2 => SyncDivision::Eighth,
            3 => SyncDivision::Quarter,
            4 => SyncDivision::Half,
            5 => SyncDivision::One,
            6 => SyncDivision::Two,
            7 => SyncDivision::Four,
            _ => SyncDivision::Four,
        }
    }
}

/// Decoding an index of a SyncDivision gives it back, and the index of the variant an in-range index decodes to is that index.
pub proof fn lemma_sync_division_index_round_trip(x: SyncDivision, i: usize)
    ensures
        SyncDivision::spec_from_index(x.spec_index()) == x,
        x.spec_index() < SyncDivision::spec_count(),
        i < SyncDivision::spec_count() ==> SyncDivision::spec_from_index(i).spec_index() == i,
{
}

impl SyncDivision {
    /// Period in thirty-seconds of a bar (1/32 bar = 1 … 4 bars = 128).
    pub open spec fn spec_thirty_seconds(self) -> u8 {
        match self {
            SyncDivision::ThirtySecond => 1,
            SyncDivision::Sixteenth => 2,
            SyncDivision::Eighth => 4,
            SyncDivision::Quarter => 8,
            SyncDivision::Half => 16,
            SyncDivision::One => 32,
            SyncDivision::Two => 64,
            SyncDivision::Four => 128,
        }
    }

    /// Period of this division in thirty-seconds of a bar; the period in
    /// bars is this over 32.
    pub fn thirty_seconds(self) -> (n: u8)
        ensures
            n == self.spec_thirty_seconds(),
    {
        match self {
            SyncDivision::ThirtySecond => 1,
            SyncDivision::Sixteenth => 2,
            SyncDivision::Eighth => 4,
            SyncDivision::Quarter => 8,
            SyncDivision::Half => 16,
            SyncDivision::One => 32,
            SyncDivision::Two => 64,
            SyncDivision::Four => 128,
        }
    }
}

/// Each division is twice the period of the one before it.
pub proof fn lemma_divisions_double(i: usize)
    requires
        1 <= i < 8,
    ensures
        SyncDivision::spec_from_index(i).spec_thirty_seconds() == 2
            * SyncDivision::spec_from_index((i - 1) as usize).spec_thirty_seconds(),
{
}

} // verus!
