# music_motion

The logic of a transparent audio and music overlay, verified with Verus.

- `src/config.rs` — user settings, their defaults, the screen anchor, and the
  rule by which stored settings are accepted or replaced by defaults.
- `src/tray.rs` — tray menu entries, how each changes the settings, and what
  follows (save, reposition, notify, open folder, quit).
- `src/audio/` — aggregation of audio sessions per process (`wasapi`), media
  sessions and cover art (`gsmtc`), MPRIS players (`linux_mpris`), the state
  sent to the overlay (`state`), the polling schedule (`schedule`) and the
  engine's run flag (`engine`).
- `src/window.rs` — work-area fallback geometry.
- `src/text.rs` — verified string helpers.
- `app/` — the Tauri application around the library: windowing, system
  audio and media APIs, D-Bus, the settings file and the polling thread.
- `tests/` — tests of the library on concrete values.
