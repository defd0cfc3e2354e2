# aura

The logic of the AuraOS desktop (agent daemon, desktop client, init process),
written in Verus with its behaviour stated in contracts and proved.

- `src/` — the verified library:
  - `text` — whitespace, word and line splitting, joining, trimming, prefix and
    substring tests, and the few standard-library calls it relies on;
  - `types` — the records exchanged between daemon, client and model;
  - `agent` — the conversation loop with the local model, the notes that
    report actions back to it, model detection and the status report;
  - `recorder` — macro recording with timing, macro file names and listing,
    playback plans and the daemon's replies;
  - `bluetooth` — parsing `bluetoothctl devices`, the proximity lock, its
    settings and its status;
  - `spotlight` — arithmetic recognition and parsing, application matching;
  - `client` — the desktop client's state and its reactions to the prompt and
    to daemon updates;
  - `init` — the init process's search for the system medium (a state
    machine), the model source, the wait for the display server, and starting
    and restarting the desktop client.
- `tests/` — tests of the library on concrete values.
- `app/` — the programs around the library: HTTP server, model service calls,
  input devices, files, the egui window and floating-point arithmetic. The
  binary runs as the init process, the desktop client or the daemon according
  to the name it is started under. `app/gui.rs` is written against eframe
  0.27, which `Cargo.toml` does not list, so the window is not built with the
  rest.
