//! The stage machine of the block-rate modulation envelope (Env2/Env3).
//!
//! The envelope runs Idle → Attack → Decay → Sustain on a note-on and
//! falls through Release back to Idle after a note-off. How far a timed
//! stage has progressed is real-valued and kept by the envelope itself;
//! the transitions between stages are decided here.

use vstd::prelude::*;

verus! {

/// Stage of the modulation envelope state machine.
#[derive(Debug, Clone, Copy, PartialEq, Eq, Structural)]
pub enum ModEnvStage {
    /// Not running; output is 0.0.
    Idle,
    /// Rising toward 1.0 over the attack time.
    Attack,
    /// Falling from 1.0 toward the sustain level over the decay time.
    Decay,
    /// Held at the sustain level until a note-off.
    Sustain,
    /// Falling toward 0.0 over the release time; then Idle.
    Release,
}

impl ModEnvStage {
    /// A note-on (re)starts the Attack stage from any stage, picking up
    /// from the current level.
    pub fn after_note_on(self) -> (r: Self)
        ensures
            r == ModEnvStage::Attack,
    {
        ModEnvStage::Attack
    }

    /// The stage after a note-off.
    pub open spec fn spec_after_note_off(self) -> Self {
        if self == ModEnvStage::Idle {
            ModEnvStage::Idle
        } else {
            ModEnvStage::Release
        }
    }

    /// The stage after a timed stage runs its full time.
    pub open spec fn spec_after_stage_end(self) -> Self {
        match self {
            ModEnvStage::Attack => ModEnvStage::Decay,
            ModEnvStage::Decay => ModEnvStage::Sustain,
            ModEnvStage::Release => ModEnvStage::Idle,
            other => other,
        }
    }

    /// A note-off enters Release from any running stage; an idle envelope
    /// stays idle.
    pub fn after_note_off(self) -> (r: Self)
        ensures
            r == self.spec_after_note_off(),
            self == ModEnvStage::Idle ==> r == ModEnvStage::Idle,
            self != ModEnvStage::Idle ==> r == ModEnvStage::Release,
    {
        match self {
            ModEnvStage::Idle => ModEnvStage::Idle,
            _ => ModEnvStage::Release,
        }
    }

    /// Whether the stage runs for a set time (Attack, Decay, Release); Idle
    /// and Sustain last until an event.
    pub open spec fn spec_is_timed(self) -> bool {
        self == ModEnvStage::Attack || self == ModEnvStage::Decay || self == ModEnvStage::Release
    }

    /// Whether the stage runs for a set time.
    pub fn is_timed(self) -> (b: bool)
        ensures
            b == self.spec_is_timed(),
    {
        match self {
            ModEnvStage::Attack | ModEnvStage::Decay | ModEnvStage::Release => true,
            _ => false,
        }
    }

    /// The stage that follows a timed stage running its full time:
    /// Attack → Decay → Sustain, Release → Idle. Untimed stages stay put.
    pub fn after_stage_end(self) -> (r: Self)
        ensures
            r == self.spec_after_stage_end(),
            self == ModEnvStage::Attack ==> r == ModEnvStage::Decay,
            self == ModEnvStage::Decay ==> r == ModEnvStage::Sustain,
            self == ModEnvStage::Release ==> r == ModEnvStage::Idle,
            !self.spec_is_timed() ==> r == self,
    {
        match self {
            ModEnvStage::Attack => ModEnvStage::Decay,
            ModEnvStage::Decay => ModEnvStage::Sustain,
            ModEnvStage::Release => ModEnvStage::Idle,
            other => other,
        }
    }
}

/// Once released, an envelope runs down without a note-on: from Release or
/// Idle, a note-off or a stage end leads only to Release or Idle.
pub proof fn lemma_release_runs_down(s: ModEnvStage)
    requires
        s == ModEnvStage::Release || s == ModEnvStage::Idle,
    ensures
        s.spec_after_note_off() == ModEnvStage::Release || s.spec_after_note_off()
            == ModEnvStage::Idle,
        s.spec_after_stage_end() == ModEnvStage::Release || s.spec_after_stage_end()
            == ModEnvStage::Idle,
{
}

/// An idle envelope is left only by a note-on: a note-off or a stage end
/// keeps it idle.
pub proof fn lemma_idle_waits_for_note_on(s: ModEnvStage)
    requires
        s == ModEnvStage::Idle,
    ensures
        s.spec_after_note_off() == ModEnvStage::Idle,
        s.spec_after_stage_end() == ModEnvStage::Idle,
{
}

/// From a note-on, stage ends alone run Attack → Decay → Sustain and stop
/// there.
pub proof fn lemma_stage_order()
    ensures
        ModEnvStage::Attack.spec_after_stage_end() == ModEnvStage::Decay,
        ModEnvStage::Decay.spec_after_stage_end() == ModEnvStage::Sustain,
        ModEnvStage::Sustain.spec_after_stage_end() == ModEnvStage::Sustain,
{
}

} // verus!
