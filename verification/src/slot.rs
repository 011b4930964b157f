//! Voice-slot mode selector: each of a voice's two synthesis lanes runs
//! either the subtractive bank or the 4-operator FM bank.

use vstd::prelude::*;

verus! {

/// Which synthesis bank produces audio for a slot.
#[derive(Debug, Clone, Copy, PartialEq, Eq, Structural)]
pub enum SlotMode {
    /// 3 unison main oscillators + 1 sub.
    Subtractive,
    /// 4-operator FM.
    Fm,
}

impl Default for SlotMode {
    fn default() -> (r: Self)
        ensures
            r == SlotMode::Subtractive,
    {
        SlotMode::Subtractive
    }
}

} // verus!
