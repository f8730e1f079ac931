# fk_kuro_launcher

A Steam wrapper for Wuthering Waves that relaunches the game after an in-game
hotfix. The game writes `Client.log` through a byte-substitution cipher; the
wrapper decodes the log as it grows, notices the engine's
`HotFixRestartToCompleteHotFix` request, and when the game exits within 15
seconds of such a request it starts it again, so Steam keeps tracking the
session.

Layout:

- `src/` — the verified library (Verus):
  - `log_decoder` — the cipher table, decoding, and marker detection across reads;
  - `monitor` — the watch loop's state: log offset, carried text, restart request;
  - `paths` — game root, executable and log candidates, Steam command-line splitting;
  - `update` — release tag parsing and comparison;
  - `process` — the elevated-launch parameter line and spawn-error messages;
  - `tray` — tray status texts, the icon image, UTF-16 text for Win32;
  - `logging` — where the wrapper keeps its own files;
  - `text` — std string operations and verified character searches.
- `app/` — the Windows program around it: files, registry, processes, tray loop.
- `tests/` — tests of the library.
