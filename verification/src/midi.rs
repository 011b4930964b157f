//! MIDI message decoding.
//!
//! Decodes one incoming MIDI message into a [`MidiEvent`]: notes with
//! velocity, the sustain pedal, the panic controllers, other control
//! changes, pitch bend and channel aftertouch. The channel nibble is
//! ignored (omni). Controller values stay the raw 7-bit (or 14-bit) data
//! the message carried.

use vstd::prelude::*;

verus! {

/// A decoded MIDI message.
#[derive(Debug, Clone, Copy, PartialEq, Eq, Structural)]
pub enum MidiEvent {
    /// Note On with a non-zero velocity.
    NoteOn { note_midi: u8, velocity: u8 },
    /// Note Off, or the running-status idiom of Note On with velocity 0.
    NoteOff { note_midi: u8 },
    /// Sustain pedal (CC 64), down at values of 64 and above.
    Sustain { held: bool },
    /// All Sound Off (CC 120) or All Notes Off (CC 123).
    AllNotesOff,
    /// Any other control change, with its raw 7-bit value.
    ControlChange { cc: u8, value: u8 },
    /// Pitch bend, the 14-bit value `(msb << 7) | lsb`; 8192 is centre.
    PitchBend { value: u16 },
    /// Channel aftertouch, the raw pressure byte.
    ChannelAftertouch { value: u8 },
}

/// The event a message decodes to; `None` for an empty or truncated
/// message or an unhandled status.
pub open spec fn midi_event(m: Seq<u8>) -> Option<MidiEvent> {
    if m.len() == 0 {
        None
    } else {
        let kind = m[0] / 16;
        if kind == 0x9 {
            if m.len() < 3 {
                None
            } else if m[2] == 0 {
                Some(MidiEvent::NoteOff { note_midi: m[1] })
            } else {
                Some(MidiEvent::NoteOn { note_midi: m[1], velocity: m[2] })
            }
        } else if kind == 0x8 {
            if m.len() < 2 {
                None
            } else {
                Some(MidiEvent::NoteOff { note_midi: m[1] })
            }
        } else if kind == 0xB {
            if m.len() < 3 {
                None
            } else if m[1] == 64 {
                Some(MidiEvent::Sustain { held: m[2] >= 64 })
            } else if m[1] == 120 || m[1] == 123 {
                Some(MidiEvent::AllNotesOff)
            } else {
                Some(MidiEvent::ControlChange { cc: m[1], value: m[2] })
            }
        } else if kind == 0xE {
            if m.len() < 3 {
                None
            } else {
                Some(MidiEvent::PitchBend { value: ((m[2] as u16) << 7u16) | (m[1] as u16) })
            }
        } else if kind == 0xD {
            if m.len() < 2 {
                None
            } else {
                Some(MidiEvent::ChannelAftertouch { value: m[1] })
            }
        } else {
            None
        }
    }
}

/// Parses a single MIDI message into a [`MidiEvent`], or `None` if the
/// message is empty, truncated, or one that is not handled.
pub fn parse_midi_message(message: &[u8]) -> (r: Option<MidiEvent>)
    ensures
        r == midi_event(message@),
{
    if message.len() == 0 {
        return None;
    }
    let status_byte = message[0];
    let status = status_byte & 0xF0u8;
    assert(status_byte & 0xF0u8 == (status_byte / 16) * 16) by (bit_vector);
    let n = message.len();
    match status {
        0x90 => {
            if n < 3 {
                return None;
            }
            let note = message[1];
            let velocity = message[2];
            if velocity == 0 {
                Some(MidiEvent::NoteOff { note_midi: note })
            } else {
                Some(MidiEvent::NoteOn { note_midi: note, velocity })
            }
        },
        0x80 => {
            if n < 2 {
                return None;
            }
            Some(MidiEvent::NoteOff { note_midi: message[1] })
        },
        0xB0 => {
            if n < 3 {
                return None;
            }
            let cc = message[1];
            let raw = message[2];
            if cc == 64 {
                Some(MidiEvent::Sustain { held: raw >= 64 })
            } else if cc == 120 || cc == 123 {
                Some(MidiEvent::AllNotesOff)
            } else {
                Some(MidiEvent::ControlChange { cc, value: raw })
            }
        },
        0xE0 => {
            if n < 3 {
                return None;
            }
            let lsb = message[1];
            let msb = message[2];
            Some(MidiEvent::PitchBend { value: ((msb as u16) << 7u16) | (lsb as u16) })
        },
        0xD0 => {
            if n < 2 {
                return None;
            }
            Some(MidiEvent::ChannelAftertouch { value: message[1] })
        },
        _ => None,
    }
}

/// Omni: the channel nibble of the status byte never changes the event.
pub proof fn lemma_channel_ignored(m: Seq<u8>, status: u8)
    requires
        m.len() > 0,
        status / 16 == m[0] / 16,
    ensures
        midi_event(m.update(0, status)) == midi_event(m),
{
}

/// A Note On with velocity 0 is a Note Off for the same note, whatever
/// release velocity a Note Off would carry.
pub proof fn lemma_zero_velocity_note_on_is_note_off(channel: u8, note: u8, release: u8)
    requires
        channel < 16,
    ensures
        midi_event(seq![(0x90 + channel) as u8, note, 0u8]) == midi_event(
            seq![(0x80 + channel) as u8, note, release],
        ),
{
}

/// The sustain pedal is down exactly at controller values 64 and above.
pub proof fn lemma_sustain_threshold(channel: u8, value: u8)
    requires
        channel < 16,
    ensures
        midi_event(seq![(0xB0 + channel) as u8, 64u8, value]) == Some(
            MidiEvent::Sustain { held: value >= 64 },
        ),
{
}

/// A Note On with a non-zero velocity decodes to that note played at that
/// velocity, on every channel and whatever bytes follow: the velocity byte
/// is carried through unchanged.
pub proof fn lemma_note_on_carries_velocity(m: Seq<u8>)
    requires
        m.len() >= 3,
        0x90 <= m[0] < 0xA0,
        m[2] != 0,
    ensures
        midi_event(m) == Some(MidiEvent::NoteOn { note_midi: m[1], velocity: m[2] }),
        midi_event(m) != midi_event(m.update(2, (m[2] % 127 + 1) as u8)),
{
}

} // verus!
