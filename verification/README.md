# clip_tool

The core of a Windows game and screen clipping tool, written in Verus.

- `src/` is the verified library: transport-stream inspection and the
  in-memory replay buffer, the capture and export command lines, the clip
  library and its cleanup rules, the audio tracks and their files, the
  process and monitor selection, configuration defaults and the decisions of
  the background monitors. Verus proves every function there against its
  contract, except the few small wrappers around the standard library and
  serde_json that Verus cannot read: their contracts are trusted and stated
  in their doc comments. The clock readers state nothing of the time they
  return.
- `tests/` runs the library on concrete values.
- `app/` is the desktop shell around the library (windows, tray, hotkeys,
  capture devices, files, the local HTTP server and the child processes). It
  needs the Tauri and Windows crates.
