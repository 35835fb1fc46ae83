# streamcdn

A live-streaming CDN node: streams are ingested over RTMP or WebSocket, kept as
renditions with a bounded window of recent segments, served as HLS playlists and
DASH manifests, cached in an in-memory LRU tier in front of Redis, and handed to
viewers through edge nodes chosen by a load-balancing strategy.

- `src/` is the library, verified with Verus: every public function carries a
  contract over mathematical views (`Seq`, `Map`, `int`), and the laws relating
  operations are stated as public proof functions. Calls into outside crates
  (`dashmap`, `lru`, `sha2`, `hex`, `uuid`, `rand`, the clock) go through the
  trusted wrappers in `src/outside.rs` and `src/tables.rs`.
- `app/` is the server around it: configuration loading, the HTTP and WebSocket
  endpoints (axum), Redis, FFmpeg processes, the RTMP listener, and the few
  floating-point figures reported to clients.
- `tests/` exercises the library on concrete values.
