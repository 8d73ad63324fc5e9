# ami

A music player made of a daemon that plays the library and a terminal
client that talks to it over a websocket. The daemon's logic is written in
Verus and proved against its contracts; the program around it is ordinary
Rust.

## Layout

- `src/` — the verified library:
  - `queue.rs` — the play queue (played tracks, current track, tracks to
    come) with its abstract view and the laws of skipping, going back,
    enqueueing and restarting;
  - `library.rs` — track ids, decimal parsing of ids, the supported audio
    formats, and the library that lists tracks under ids;
  - `orchestrator.rs` — the daemon's decisions: what each queue request
    does, what happens when a track ends under each loop mode, and when the
    player must reload the current track;
  - `player.rs` — playback status and relative seeking;
  - `track.rs`, `paths.rs`, `images.rs` — track data, cached cover art names
    and thumbnails, and the path and image calls they rest on;
  - `services.rs`, `pid.rs`, `config.rs`, `text.rs` — addresses, MPRIS
    names, pid files, the default settings text, numbers as text;
  - `tui.rs` — the terminal client's logic: key bindings, the now-playing
    panel, cover art updates and the title-sorted library listing.
- `tests/` — tests of the library.
- `app/` — the daemon program: command line, settings and cache files,
  the audio device, the MPRIS service and the websocket server.
