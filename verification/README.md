# Temper

Temper looks for a faster build of a Rust binary and only keeps one that it has measured. It builds
a baseline and a fixed set of release strategies (thin LTO, fat LTO with one codegen unit, and
profile-guided optimization), screens each on a workload that the user supplies, confirms the best
candidate against the baseline over alternating pairs, and promotes the confirmed executable
atomically. The interfaces and the report schema are experimental.

## Layout

- `src/` is the library: every rule that a run follows, verified with Verus. Paths are byte strings,
  durations are integers, and doubles are carried as their bit patterns.
- `app/` is the `cargo temper` program. It performs what the library decides: it runs Cargo, the
  compiler shim and the workload, and reads and writes files.
- `tests/` runs the library from outside.

## How the library is organised

Work that touches the machine is split into decisions and effects. A state machine such as
`search::Search`, `confirm::Confirming`, `training::Training`, `anchored::Publication` or
`promotion::Promotion` says what is to be done next; the caller does it and hands back what came of
it. Single observations (a probe of a tool, a listing of a directory, a read of a file) are plain
values that the deciding function takes as arguments.

The properties that span several functions are proof functions whose names start with `law_`.

Calls into other crates stand behind small trusted functions: SHA-256 digests in `hash`, TOML
documents in `document`, Cargo's metadata and message stream in `cargo`, and UTF-8 decoding in
`text`.
