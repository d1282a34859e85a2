# convergio-autoresearch

Nightly optimization loop: collect project metrics, ask a local model for a
proposal on one source file, check it, measure again, and record whether the
change is kept, discarded or an error.

- `src/` is the verified library (Verus):
  - `cycle` — the nightly cycle as a state machine (`NightlyCycle::step`),
    with its laws: the invariant, termination, the number of experiments
    started, how records are completed and which record each action writes.
  - `daemon` — the local-daemon URL policy and the completion endpoint.
  - `proposal` — the prompt and request for a proposal, and reading replies.
  - `targets` — choosing the file to optimize.
  - `tool_output` — reading `cargo test -- --list` and `find` output.
  - `text` — UTF-8 safe truncation, `str::lines`-compatible line splitting.
  - `stats` — outcome counts and listing windows for the dashboard.
  - `extension` — manifest, schema, schedule, tools and health.
  - `types` — statuses, outcomes and configuration.
- `app/` performs the I/O: SQLite, processes, HTTP (axum, reqwest) and the
  asynchronous driver of the cycle.
- `tests/` runs the library on concrete values.
