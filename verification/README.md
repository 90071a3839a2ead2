# mondaybot

Opt-in, bidirectional sync between beads (a local, git-tracked issue tracker)
and monday.com boards, with its decision logic verified by Verus.

## Layout

- `src/` — the verified library.
  - `text.rs`, `search.rs`: text helpers and first-match search with their laws.
  - `config.rs`: configuration values, `config set`, the status map and its
    round trip between beads statuses and monday labels.
  - `beads.rs`: beads issues, the epic/child relation and the `bd` command lines.
  - `api/`: the monday.com response shapes and the `errors` list of an answer.
  - `sync/`: the link registry (`mapping.rs`), column and status-label
    resolution (`columns.rs`), column values (`values.rs`) and the push, pull,
    update and status decisions, with the passes of `sync push`, `sync pull`
    and `sync update` as runs (`PushAllRun`, `PullAllRun`, `UpdateRun`) that
    say what to do next and record each outcome.
  - `commands/doctor.rs`: the health-check report.
  - `clock.rs`: the system clock and chrono, for link time stamps.
- `app/` — the command-line program: argument parsing, HTTP calls, running
  `bd`, files on disk and JSON, driving the library's decisions.
- `tests/` — tests of the library on concrete values.
