# Lapse

A lightweight game clipper for Linux: a background daemon keeps a replay
buffer with `gpu-screen-recorder`, saves the last seconds on a global hotkey,
and a window lists, plays and deletes the saved clips.

## Layout

- `src/` — the verified library (Verus):
  - `text.rs`: character-sequence primitives (lines, trimming, searching,
    replacing, decimal numbers) with their specifications;
  - `devices.rs`: parsing the listings of `pactl`, `lspci` and the recorder
    into device lists;
  - `config.rs`: the settings and their defaults;
  - `recorder.rs`: when to launch, stop and signal the recorder, and with
    which arguments;
  - `ipc.rs`: the daemon's requests and answers and how it decides them;
  - `hotkeys.rs`: modifier bits, key codes, hotkey labels and events;
  - `player.rs`: time labels, the video size probe and the playback clock;
  - `library.rs`: which files are clips, their order, their thumbnails;
  - `client.rs`: the window's engine panel, status polling and tray menu;
  - `icon.rs`: decoding the icon and cutting it to a centred square.
- `app/` — the program around it: processes, sockets, files, the tray icon
  and the `egui` window.
- `tests/` — tests of the library on concrete values.
