# gba_orca

Verified core of a desktop app that streams an emulator's GBA link windows to
phones and tablets on the LAN and takes gamepad input back from them.

- `src/` — the library, verified with Verus: gamepad payload parsing and the
  key events per slot (`input`), the session key pool (`key_pool`), FFmpeg
  command lines, including the raw-video one used on Wayland, and the per-slot
  stream table (`stream`), the incremental splitter of FFmpeg's MJPEG output
  (`mjpeg`), MediaMTX lifecycle decisions (`mediamtx`), the viewer page
  (`viewer`), LAN interface ranking (`network`), Wayland capture sources
  (`wayland`), window matching (`windows`), PipeWire format mapping
  (`pipewire`), errors (`error`) and string helpers (`text`).
- `tests/` — tests of the library on concrete values.
- `app/` — the Tauri/axum/window-system shell around the library: commands,
  sidecar processes, sockets, key injection.
