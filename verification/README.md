# bloop

The core logic of the bloop backing looper, verified with Verus.

`src/` is the library. Verus proves its functions against their contracts,
except for a few small trusted wrappers around `rand`, `regex`, std's
clock and `String::push`, whose contracts are believed (each says in its doc comment what it
claims of the outside call). What an outside call leaves open, such as a
random identifier, is left open in the contracts too. The modules:

- `framing`, `framing_laws`: cutting API messages into BLE characteristic
  values and putting them back together, with the round trip proved.
- `ble_link`: one BLE client at a time, its frames reassembled per session.
- `client`: per-client progress update rates and the sampling of progress.
- `messages`, `preferences`: preferences as plain values, their defaults,
  validation and the merge of what a preferences file sets.
- `settings`, `settings_laws`, `device_option`, `ui`: the settings editor,
  the interface's message handling and what its panels show.
- `audio`: engine state and status, output device choices (channel count,
  stream configuration, device summaries) and sample conversions.
- `midi`: MIDI bindings, mapping files and port selection.
- `switch`: foot switch presses, releases and holds.
- `project_store`, `controller`, `waveform`, `waveform_store`, `network`,
  `ids`, `logger`, `text`, `playback`: the remaining decisions of the server.
- `response`: the response and its builders.
- `laws`: properties that span several operations.

`app/` holds the file and directory I/O around the library (preferences and
mapping files, the projects directory, logging). `tests/` runs the library on
concrete values.
