# zeroclaw_runtime

The decisions of an agent runtime, written in Verus and proved: what a turn
forwards and what stops it, which tasks may be taken over after a restart, when a
scheduled job runs, what is recorded of it, and what an operator's evidence
changes.

- `src/turn`: one turn of an agent. Byte budgets of tool results, history,
  approvals, cancellation, and the errors that keep evidence.
- `src/control_plane`: the table of durable tasks and who may reclaim them.
- `src/cron`: scheduled jobs. Startup, dispatch, retries, delivery, runs by hand,
  and the ledger of occurrences under `src/cron/store`.
- `src/approval`: how a line of a terminal answers a question.
- `src/text.rs`, `src/json.rs`, `src/digest.rs`, `src/clock.rs`: text, JSON,
  digests and time, with what is taken from outside crates without proof.
- `app`: the runtime around the library. It reads and writes SQLite, runs
  commands, waits for terminals and channels, and hands the library plain values.
- `tests`: the library, run.

Functions whose names begin with `law_` state what holds of the library as a
whole. A function that ends in `_given` takes the result of an outside call as an
argument; the function that makes the call stands beside it.
