//! Filter section selectors: the routing between the two per-voice filters,
//! each filter's roll-off slope and the state-variable filter's output tap.

use vstd::prelude::*;

verus! {

/// How the two per-voice filters are connected in the signal path.
#[derive(Debug, Clone, Copy, PartialEq, Eq, Structural)]
pub enum FilterRouting {
    /// Filter 1 feeds filter 2 (series). The default.
    Serial,
    /// Filter 1 and filter 2 process the slot mix independently and their
    /// outputs are averaged.
    Parallel,
}

impl Default for FilterRouting {
    fn default() -> (r: Self)
        ensures
            r == FilterRouting::Serial,
    {
        FilterRouting::Serial
    }
}

impl FilterRouting {
    /// Number of variants.
    pub open spec fn spec_count() -> usize {
        2
    }

    /// The stable index of each variant.
    pub open spec fn spec_index(self) -> usize {
        match self {
            FilterRouting::Serial => 0,
            FilterRouting::Parallel => 1,
        }
    }

    /// The variant an index decodes to; out-of-range indices give `Serial`.
    pub open spec fn spec_from_index(i: usize) -> Self {
        if i == 0 {
            FilterRouting::Serial
        } else         if i == 1 {
            FilterRouting::Parallel
        } else {
            FilterRouting::Serial
        }
    }

    /// Maps to the stable index used on the parameter bus and in presets.
    pub fn index(self) -> (i: usize)
        ensures
            i == self.spec_index(),
    {
        match self {
            FilterRouting::Serial => 0,
            FilterRouting::Parallel => 1,
        }
    }

    /// Inverse of [`index`](Self::index). Out-of-range indices map to `Serial`.
    pub fn from_index(i: usize) -> (r: Self)
        ensures
            r == Self::spec_from_index(i),
    {
        match i {
            0 => FilterRouting::Serial,
            1 => FilterRouting::Parallel,
            _ => FilterRouting::Serial,
        }
    }
}

/// Decoding an index of a FilterRouting gives it back, and the index of the variant an in-range index decodes to is that index.
pub proof fn lemma_filter_routing_index_round_trip(x: FilterRouting, i: usize)
    ensures
        FilterRouting::spec_from_index(x.spec_index()) == x,
        x.spec_index() < FilterRouting::spec_count(),
        i < FilterRouting::spec_count() ==> FilterRouting::spec_from_index(i).spec_index() == i,
{
}

/// Roll-off slope of a state-variable filter.
#[derive(Debug, Clone, Copy, PartialEq, Eq, Structural)]
pub enum FilterSlope {
    /// 2-pole, 12 dB/oct — a single filter stage.
    TwelveDbOct,
    /// 4-pole, 24 dB/oct, from cascading a second stage.
    TwentyFourDbOct,
}

impl Default for FilterSlope {
    fn default() -> (r: Self)
        ensures
            r == FilterSlope::TwelveDbOct,
    {
        FilterSlope::TwelveDbOct
    }
}

impl FilterSlope {
    /// Number of variants.
    pub open spec fn spec_count() -> usize {
        2
    }

    /// The stable index of each variant.
    pub open spec fn spec_index(self) -> usize {
        match self {
            FilterSlope::TwelveDbOct => 0,
            FilterSlope::TwentyFourDbOct => 1,
        }
    }

    /// The variant an index decodes to; out-of-range indices give `TwelveDbOct`.
    pub open spec fn spec_from_index(i: usize) -> Self {
        if i == 0 {
            FilterSlope::TwelveDbOct
        } else         if i == 1 {
            FilterSlope::TwentyFourDbOct
        } else {
            FilterSlope::TwelveDbOct
        }
    }

    /// Maps to the stable index used on the parameter bus and in presets.
    pub fn index(self) -> (i: usize)
        ensures
            i == self.spec_index(),
    {
        match self {
            FilterSlope::TwelveDbOct => 0,
            FilterSlope::TwentyFourDbOct => 1,
        }
    }

    /// Inverse of [`index`](Self::index). Out-of-range indices map to `TwelveDbOct`.
    pub fn from_index(i: usize) -> (r: Self)
        ensures
            r == Self::spec_from_index(i),
    {
        match i {
            0 => FilterSlope::TwelveDbOct,
            1 => FilterSlope::TwentyFourDbOct,
            _ => FilterSlope::TwelveDbOct,
        }
    }
}

/// Decoding an index of a FilterSlope gives it back, and the index of the variant an in-range index decodes to is that index.
pub proof fn lemma_filter_slope_index_round_trip(x: FilterSlope, i: usize)
    ensures
        FilterSlope::spec_from_index(x.spec_index()) == x,
        x.spec_index() < FilterSlope::spec_count(),
        i < FilterSlope::spec_count() ==> FilterSlope::spec_from_index(i).spec_index() == i,
{
}

/// Which output tap the state-variable filter exposes. The integrator
/// state is shared by all taps, so a mode change is click-free.
#[derive(Debug, Clone, Copy, PartialEq, Eq, Structural)]
pub enum FilterMode {
    /// 2-pole low-pass.
    LowPass,
    /// 2-pole high-pass.
    HighPass,
    /// 2-pole band-pass.
    BandPass,
    /// Notch (LP + HP).
    Notch,
}

impl Default for FilterMode {
    fn default() -> (r: Self)
        ensures
            r == FilterMode::LowPass,
    {
        FilterMode::LowPass
    }
}

impl FilterMode {
    /// Number of variants.
    pub open spec fn spec_count() -> usize {
        4
    }

    /// The stable index of each variant.
    pub open spec fn spec_index(self) -> usize {
        match self {
            FilterMode::LowPass => 0,
            FilterMode::HighPass => 1,
            FilterMode::BandPass => 2,
            FilterMode::Notch => 3,
        }
    }

    /// The variant an index decodes to; out-of-range indices give `LowPass`.
    pub open spec fn spec_from_index(i: usize) -> Self {
        if i == 0 {
            FilterMode::LowPass
        } else         if i == 1 {
            FilterMode::HighPass
        } else         if i == 2 {
            FilterMode::BandPass
        } else         if i == 3 {
            FilterMode::Notch
        } else {
            FilterMode::LowPass
        }
    }

    /// Returns the zero-based index used when serialising filter mode to a preset
    /// (LowPass=0, HighPass=1, BandPass=2, Notch=3).
    pub fn index(self) -> (i: usize)
        ensures
            i == self.spec_index(),
    {
        match self {
            FilterMode::LowPass => 0,
            FilterMode::HighPass => 1,
            FilterMode::BandPass => 2,
            FilterMode::Notch => 3,
        }
    }

    /// Converts a zero-based index back to a `FilterMode`. Indices outside
    /// 0..=3 return `LowPass`.
    pub fn from_index(i: usize) -> (r: Self)
        ensures
            r == Self::spec_from_index(i),
    {
        match i {
            0 => FilterMode::LowPass,
            1 => FilterMode::HighPass,
            2 => FilterMode::BandPass,
            3 => FilterMode::Notch,
            _ => FilterMode::LowPass,
        }
    }
}

/// Decoding an index of a FilterMode gives it back, and the index of the variant an in-range index decodes to is that index.
pub proof fn lemma_filter_mode_index_round_trip(x: FilterMode, i: usize)
    ensures
        FilterMode::spec_from_index(x.spec_index()) == x,
        x.spec_index() < FilterMode::spec_count(),
        i < FilterMode::spec_count() ==> FilterMode::spec_from_index(i).spec_index() == i,
{
}

} // verus!
