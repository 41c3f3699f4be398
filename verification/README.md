# Emulator Hub

A Windows desktop library for emulators and ROMs. The decisions the program
makes are a library verified with Verus; the window, the SQLite database, the
network requests and the Windows shell calls are a thin program around it.

## Layout

- `src/` — the verified library.
  - `text.rs` — the character-level model of strings used by every contract.
  - `version.rs` — release version numbers and their order.
  - `digest.rs` — SHA-256 digests (from the `sha2` crate) as hexadecimal text.
  - `update.rs` — choosing an update from the latest GitHub release, reading
    its checksum, and the helper that replaces the running program.
  - `paths.rs` — path components, as the standard library splits a path.
  - `platform.rs` — which files are programs, helper programs, and which
    platform a ROM or an emulator belongs to.
  - `json.rs` — the JSON tree the library reads and writes.
  - `artwork.rs` — TheGamesDB lookups: search terms, addresses, finding box
    art in an answer, and the lookup as a step-by-step machine.
  - `magpie.rs` — Magpie scaling profiles, `ScalingModes.json` updates, the
    scaling hotkey and the automatic scaling after a launch.
  - `library.rs` — the ROM and emulator records, launch arguments, which ROMs
    are shown, and the launch-settings editor.
  - `state.rs` — the settings kept between runs and their stored row.
  - `maintenance.rs` — importing files, repairing platforms, carrying over the
    old configuration file, and removing stale helper entries.
  - `files.rs` — cover art beside a ROM, Magpie's settings file, time stamps.
  - `visuals.rs` — placeholder tile letters and colours, icon pixels.
- `tests/` — tests of the library on concrete values.
- `app/` — the desktop program (`eframe`/`egui`, `rusqlite`, `ureq`, `rfd`,
  `windows-sys`).
