# packing

The verified core of a browser puzzle about packing unit squares (and other
regular polygons) into the smallest container. Everything under `src/` is
checked by Verus against its contracts; `app/` is the ordinary Rust that
surrounds it.

## Layout

- `src/shape.rs` — piece and container shapes, their names and play paths.
- `src/glue.rs`, `src/play.rs`, `src/physics.rs` — glue constraints between
  features, the features the picker offers, what a tap with the glue tool
  and a board link opened on a game do, and the engine's glue store, which holds only sets that pass
  validation and replaces them as a whole.
- `src/codec.rs`, `src/board.rs`, `src/share.rs` — hex board codes and share
  links: exact round trips in every container, and codes that decode are
  canonical.
- `src/api.rs` — the retry policy for sharing, as a state machine, and the
  reading of a Retry-After header.
- `src/account.rs`, `src/publish.rs` — the sign-in session and the
  share/submit flow as state machines, with their locking and numbering
  laws.
- `src/route.rs` — the site's routes, the page each shows, and the counts
  the game picker accepts.
- `src/username.rs` — the username rule of the account dialog, its hint
  and what submitting it asks for.
- `src/benchmark.rs` — how a side compares with the literature value, and
  the credits of a best known packing.
- `src/passkey.rs` — base64url handling of passkey ceremonies (through the
  `base64` crate) and their error messages.
- `src/messages.rs`, `src/anneal.rs`, `src/text.rs` — message types, the
  seed sequence of the annealing schedule, and small text builders.
- `app/` — JSON forms of the types (serde), the async retry loop, JSON
  import, the account driver, and the floating-point schedules of the play
  screen.
- `tests/` — scenarios and concrete checks of the laws.
