# Resonance

Remembers each application's volume and mute state per audio output device, and
restores it when the default device changes.

- `src/` is the library: the state machine, its persistence, the console, the
  overlay, the corner widget, the shortcut and what the audio layer decides. It is
  written in Verus: what it computes is proved to meet its contracts. A few calls
  into `std` and `egui` stand behind small wrappers whose contracts are believed
  instead; a comment on each says what is claimed. What the clock reads is not
  claimed to be anything.
  `src/reducer.rs` says what each event and each command does to the state;
  `src/laws.rs` holds what follows for the library as a whole.
- `tests/` runs the library on concrete values.
- `app/` is the Windows program around it: COM, files, threads, windows and
  everything that computes in floating point.

The library holds a single-precision number by its bits (`src/single.rs`), so a
volume passes through it unchanged.
