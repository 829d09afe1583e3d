# stax backend

A small media server: it indexes local media, serves streams that browsers can
play, makes thumbnails and stream copies, and has watch-together rooms with
synchronized playback over WebSockets.

The logic is a library verified with Verus. Everything that reads files, runs
ffmpeg, talks to the database or to clients is ordinary Rust around it.

- `src/`: the verified library.
  - `clock`, `rooms`: the shared playback clock, commands of clients,
    participants and connections.
  - `api`, `origin`, `frontend_assets`: what the endpoints answer and refuse.
  - `library`: scanning directories, reading ffprobe reports, deciding how a
    file can be played.
  - `stream_copies`, `thumbnails`, `probes`, `scan_gate`: background work, as
    steps that a worker performs one after the other.
  - `streaming`: byte ranges and subtitles.
  - `muxing`: HLS segments, playlists, encoder arguments and sessions.
  - `persistence`: rows of the database as values, and back.
  - `protocol`, `config`, `env_config`, `ffmpeg`: messages and settings.
  - `text`, `paths`, `order`, `search`, `ids`, `timestamp`: what the rest is
    written with.
- `tests/`: tests of the library.
- `app/`: the server.

Positions, keyframes and segments are held in nanoseconds, the durations of media
files in milliseconds; identifiers are 128-bit numbers; paths are text with `/` as
the separator.
