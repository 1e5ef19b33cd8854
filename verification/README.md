# bucatini

Receive an NDI video source and republish it as a shared texture (Syphon on
macOS, Spout on Windows), from the command line or from a small launcher
window.

## Layout

- `src/` — the verified library (Verus):
  - `text` — decimal rendering and reading, whitespace trimming, substring
    search, and the calls into `std` that classify and case-fold characters;
  - `cli` — source-name matching, interactive selection, source listings;
  - `ndi` — sources and received-frame descriptions; `ndi::dll` resolves the
    NDI runtime directory from the `NDI_RUNTIME_DIR_Vx` variables;
  - `output` — frames to publish, the backend interface, the `Publisher`
    that hands frames to a backend and records each call, protocol names;
  - `run` — the capture loop's decisions (bounds check, publishing, counting);
  - `launcher` — the launcher's state machine and texts, thousands grouping.
- `app/` — the program around it: argument parsing (clap), the NDI C
  interface, the Spout backend, the capture loop itself, Ctrl-C handling and
  the egui launcher window with its tray icon (opened when the program is
  started under a name ending in `-gui`, such as a `bucatini-gui` link).
- `tests/` — tests of the library.
