# kode-bridge

HTTP-style request/response messaging over local IPC endpoints (Unix domain
sockets, Windows named pipes), with its protocol logic verified by Verus.

## Layout

- `src/` — the verified library:
  - `wire`, `client`, `client_reader`: request framing for the clients and the
    incremental response readers (state machines that say what to read next).
  - `request`, `response`, `router`, `server`: request parsing, response
    building and serialization, routing with `:name` parameters and a path
    safety filter, and the server's per-connection decisions and statistics.
  - `headers`, `http_types`, `url`, `text`, `numbers`, `utf8`: header maps
    (kept in an `http::HeaderMap`), methods and status codes, URL decoding,
    and the string and number helpers they rest on.
  - `transport`, `buffer_pool`, `ipc_client`, `stream`: endpoint validation
    and listener policy, buffer pools, the simple clients, and streaming
    helpers.
  - `round_trip`: the round-trip laws between what one side writes and the
    other reads.
- `tests/` — tests of the library.
- `app/` — the async I/O around the library (tokio and `interprocess`),
  JSON handling with `serde_json`, and `Display`/`serde` copies of library
  types.
