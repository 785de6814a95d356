# Durable workflows

A verified engine for durable workflows. Workflows, activities, timers,
approvals and cron schedules live in database rows; this crate decides what
becomes of them.

- `src/` is the library. Each function takes the rows it decides on, the time
  and the event, and returns the next rows, the events to append and the errors
  to report. Every function carries a contract that Verus proves. Functions
  named `law_*` state what holds across functions: that a lost lease settles
  nothing, that a replay is deterministic, that a page continues where the last
  one ended.
- `tests/` runs the library on concrete values, with the real outside crates.
- `app/` is the unverified rest: SQL statements, tasks, clocks, serializers and
  the token streams behind the derive macros. It holds a PostgreSQL dialect and
  applies its migrations from a directory.

What is trusted: a handful of calls into `sha2`, `uuid`, `serde_json`,
`base64`, `cron`, `chrono` and `chrono-tz`, and of the standard library. Each
one stands behind a wrapper whose comment says what is claimed of it.
