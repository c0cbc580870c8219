# tur_rs

The rules of a segmented download engine and of its media companion, written in
Rust and verified with Verus.

A file is cut into byte ranges, the ranges are handed to connections, and a
connection that runs out of work takes over a part of what another one has left.
The companion listens to a browser, tells what the streams hold that it was seen
to load, and has them downloaded.

| Where | What |
|-------|------|
| `src/engine/` | ranges and their coordinator, workers, scaling, budgets, what is remembered of servers |
| `src/service.rs`, `src/request.rs`, `src/cookies.rs`, `src/headers.rs` | requests, cookies and headers |
| `src/storage.rs`, `src/quic.rs` | how files are written, where an HTTP/3 server is |
| `src/cli.rs`, `src/tui.rs` | the rules of the two frontends |
| `src/spectur/` | the media companion: streams, playlists, manifests, arguments of programs |
| `src/text.rs`, `src/numerals.rs`, `src/units.rs`, `src/lru.rs`, `src/text_map.rs`, `src/web_url.rs` | what the rest is built on |
| `app/` | the programs: sockets, files, timers, terminals, and what is measured in floating point |
| `tests/` | examples |

Functions state in `ensures` what they return or change. Properties that span
functions are the public proof functions whose names begin with `law_`. What an
outside crate does is stated at the function that calls it, and nowhere else.
