# servio

A static file server for local development, with live reload. This crate
is its library: every decision the server makes is a function in `src/`
with a contract that Verus proves.

- `src/`: the verified library. What is being ignored, what counts as a
  change and what is said about it, which port to listen on, what the
  server refuses to hand out, the single-page-app fallback, the cache
  policy, reading `BROWSER`, and the banner. `src/laws.rs` states and
  proves what holds of these across calls. `src/globs.rs` holds the
  trusted items through which the library calls `globset`.
- `tests/`: examples on concrete values, run with the real `globset`.
- `app/`: the program around the library: arguments, the HTTP service,
  the file watcher, the clock and the disk. It hands the library plain
  values and does what the library decides.
