# tsic

A command line tool to configure metronome click tracks with changing time
signatures: profiles, projects made of sections, WAV and MIDI rendering,
playback with a beat display, a metronome and tap tempo.

## Layout

- `src/` — the verified library (Verus):
  - `section.rs`: time signatures (parsing `beats_per_bar/beat_unit`, text),
    sections and the beats they play;
  - `config.rs`: profiles and their defaults;
  - `project.rs`: projects — appending, inserting, editing and removing
    sections, the stored form, the measure plan used for rendering, the listing;
  - `midi.rs`: the MIDI event track of a project, with the proof that every
    click lands on its beat;
  - `visuals.rs`: the lines of the beat display;
  - `play.rs`: what playback and the metronome do on each key;
  - `tap.rs`: which taps the tap tempo is measured over.
- `app/` — the program: command line, TOML files, sound synthesis and audio
  output (floating point), WAV and MIDI files, the terminal.
- `tests/` — tests of the library.
