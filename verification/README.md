# midi-keybindr

Maps MIDI events to keyboard shortcuts. The rules live in a YAML file: each
mapping names MIDI devices (glob patterns), channels, a trigger (note on/off,
control change with an optional value range, program change) and the key
combo to press.

## Layout

- `src/` — the verified library (Verus):
  - `text.rs`: trimming, splitting, ASCII case, decimal parsing and rendering;
  - `config/`: channel selectors (`channel.rs`), device globs over the `glob`
    crate (`device.rs`), triggers and the note-name parser (`trigger.rs`),
    the key-combo parser (`action.rs`);
  - `midi/event.rs`: decoding raw MIDI bytes;
  - `mapper.rs`: first-match-wins lookup of a mapping's action;
  - `output.rs`: the key strokes that send a combo;
  - `cmd/`: the live display's state, key handling and text, and the port
    listing;
  - `cli.rs`: log verbosity and configuration-file choice.
- `app/` — the program around it: argument parsing (`clap`), YAML loading
  (`serde`, `yaml_serde`), MIDI ports (`midir`), key synthesis (`enigo`) and
  the terminal display (`ratatui`, `crossterm`).
- `tests/` — tests of the library.
