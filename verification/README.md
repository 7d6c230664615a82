# crystallized_time

Configuration model, validation and chord-progression engine of a
time-crystal driven MIDI gate generator: one or two disordered spin chains
under periodic drive whose dynamics become MIDI gates, notes and CC streams.

The library in `src/` is written in Verus and verified:

- `config/` — the runtime configuration and its defaults (`mod.rs`), the
  TOML file's schema (`schema.rs`), the per-section builders (`sections.rs`),
  turning a whole file into a `Config` with channel-uniqueness checking
  (`config_file.rs`), validation errors and their messages (`error.rs`),
  chord configuration (`chords.rs`) and the properties every accepted
  configuration has (`laws.rs`).
- `chord.rs` — the chord-change engine and its laws.
- `runtime.rs` — per-tick decisions: emission stride, delivering a tick's
  events to the chord engine, whether coupling and MIDI input run.
- `text.rs` — string equality, the `voice_N` key grammar, decimal rendering.
- `cli.rs` — the command-line options.

Real-valued settings are carried as their IEEE-754 binary64 encodings; the
program in `app/` reads the file (TOML via serde), converts, runs the
library's validation, and does the real-valued arithmetic (drive period
from the tempo).
