# spoticry

A music streaming server: a library of MP3 songs, playlists over it, a
WebSocket protocol for clients and a console for the operator. The logic is a
Verus library whose functions carry contracts that Verus proves; the server
around it is ordinary Rust.

## Layout

- `src/` — the verified library.
  - `store.rs` — records keyed by their own id, in insertion order, with the
    invariant that no id occurs twice.
  - `text.rs` — the string operations the logic needs (trimming by Unicode
    white space, substring search, ASCII case folding, string order).
  - `domain/` — songs, playlists and the pure playlist operations (add,
    remove, dedupe, reverse, take, drop, filter, stable sort), with their laws.
  - `services/`, `controllers/` — what each request computes and commits,
    with every error and the input on which it comes.
  - `network/` — the protocol's messages, the handshake, the one-stream-per-
    client rule, frame classification and the steps of the audio pump.
  - `states/` — the registry of active streams.
  - `repositories/` — turning the records read from disk into maps.
  - `cli/` — the console's command language.
  - `outside.rs` — the trusted contracts of the calls into `im`, `uuid`,
    `chrono`, `base64`, `tokio`, `symphonia` and parts of `std`.
- `tests/` — tests of the library on concrete values.
- `app/` — the server: sockets, files, locks, JSON, and the
  loops that run the library's state machines.
