# scanner_core

The rules of a document scanner, verified with Verus: which files are classified and
parsed within a deadline, what is cached and when it is dropped, who may run, how a run
is ended and answered again, and how worker processes are spoken to and contained.

- `src/` is the library. Every function in it is verified, but for the few that hand a call
  to a trusted function (below).
  - `scheduler/` plans, classifies, parses and reports the files of a run.
  - `store/` holds the runs and their lease, the caches, the inventory, the artifacts,
    finalization, retention, upgrade and maintenance.
  - `session.rs` is the protocol of worker sessions, `windows_job.rs` the containment of
    worker processes, `source_guard.rs` the identity of files.
  - `text.rs`, `ordered.rs`, `json.rs`, `hash.rs`, `contract.rs` and `profile.rs` are what
    the others are written with.
- `app/` is what the rules are applied to: the SQLite database, the file system, the
  processes and the clock.
- `tests/` runs the library on given values.

Trusted without proof are the SHA-256 functions of `sha2`, the JSON form of a string of
`serde_json`, and `String::push` and `Duration::from_millis` of the standard library.
What is claimed of each stands above it.
