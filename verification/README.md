# Tone Smithy — verified core

Tone Smithy is a hybrid subtractive / 4-operator FM software synthesizer.
This crate holds its discrete logic, each function with a contract that
Verus proves:

- `midi` — decoding of incoming MIDI messages (notes, sustain, panic
  controllers, control changes, pitch bend, aftertouch; omni).
- `voice_manager` — 32-voice allocation: idle first, then the oldest
  released voice, then the quietest; note-off, sustain-pedal deferral,
  all-notes-off and panic.
- `arp`, `seq` — the arpeggiator and the 16-step sequencer: held keys,
  step cursor in every play mode, and the note events at gate points and
  step boundaries.
- `engine` — routing of key events between the two note engines and the
  voices, and the mutual exclusion of arpeggiator and sequencer.
- `update_check` — extraction of a release tag from a GitHub response body
  and `major.minor.patch` comparison.
- `fm`, `filter`, `lfo`, `oscillator`, `mod_matrix`, `mod_env`, `params`,
  `slot` — the FM algorithm table, parameter selectors and their indices,
  the modulation-envelope stage machine and FM operator addressing.

`app/` is the program around it: audio output (cpal), MIDI input (midir),
the parameter bus between threads, the release check over HTTP (ureq) and
the floating-point voices and tempo clocks that the library's decisions
drive. `tests/` exercises the library on concrete values.
