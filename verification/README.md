# codetrial

Lets a candidate's own model read their live practice interview over the Model Context
Protocol: the problem as posed, their code and their test runs, and nothing that the
interviewer holds back.

- `src/` is the library. Verus checks every function in it against its contract, and the laws
  in `src/mentor/laws.rs`, `src/mentor/board.rs`, `src/json.rs`, `src/text.rs` and
  `src/web/laws.rs`. `src/outside.rs` holds the calls into `serde_json`, `sha2` and `axum`, whose contracts are
  believed.
- `tests/` runs the library with those crates.
- `app/` is the route as an axum service, over a board behind a lock.
