//! Tone Smithy: the integer logic of a hybrid subtractive/FM synthesizer.
//!
//! The modules here hold the synthesizer's discrete state machines and
//! decoders — parameter selectors, the arpeggiator and step-sequencer
//! cursors, the routing of key events between them and the voices, voice
//! allocation, MIDI decoding and the release-tag check — each with its
//! contract proved by Verus. Audio itself (oscillators, filters, envelope
//! levels, tempo phase) is floating point and lives with the caller.

pub mod arp;
pub mod engine;
pub mod filter;
pub mod fm;
pub mod lfo;
pub mod midi;
pub mod mod_env;
pub mod mod_matrix;
pub mod oscillator;
pub mod params;
pub mod seq;
pub mod slot;
pub mod update_check;
pub mod voice_manager;
