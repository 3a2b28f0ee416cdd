# lrgp

The Lightweight Reticulum Gaming Protocol (LRGP) as a Verus-verified library:
msgpack game envelopes carried in LXMF fields, the game session state
machine, a game registry that routes actions to games, and the built-in
Tic-Tac-Toe game with validation on both sides.

## Layout

- `src/` — the verified library
  - `constants.rs`, `errors.rs` — protocol constants and the error type
  - `text.rs` — text helpers: decimal and hex digits, quoting, concatenation
  - `value.rs`, `fields.rs` — MessagePack values, string-keyed maps and LXMF field maps, with their models
  - `msgpack.rs` — the MessagePack codec (rmpv) behind trusted wrappers
  - `envelope.rs` — packing, unpacking and validating envelopes
  - `transport.rs` — raw LXMF field bytes to and from envelopes
  - `session.rs` — sessions, the status state machine and expiry
  - `app_base.rs` — the `GameApp` trait and the results games return
  - `router.rs` — the game registry and dispatch
  - `json.rs` — the JSON form of MessagePack values that the UI receives
  - `store.rs` — the rules of session storage: column allowlist, statement texts, action numbers
  - `apps/tictactoe.rs` — the Tic-Tac-Toe game
- `app/` — what stays outside verification: the SQLite store, JSON views, and
  the serde and thiserror forms of the library's types
- `tests/` — tests run against the compiled library

Times inside the library are milliseconds since the Unix epoch; the JSON
views and the database hold seconds.
