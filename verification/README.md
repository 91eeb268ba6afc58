# tdk

The verified core of the console's desktop pieces, written in Verus.

- `src/liveness.rs`: what the lock-file probe means (`is_running`) and when
  to retry the exclusive lock (`acquire_step`).
- `src/logo.rs`: the wallpaper logo: letter-block size, centring and the
  quadrant-block rendering of one desktop row into a Turbo Vision
  `DrawBuffer`, plus the view's state.
- `src/pipeline.rs`: raw stream bytes to rendered ANSI through
  `trace_stream`, holding an incomplete UTF-8 character at the end until it completes
  and showing invalid bytes as U+FFFD.
- `app/`: the file locking (`flock`), the Turbo Vision `View` impl and the
  terminal writes, around the library.
- `tests/`: behaviour on concrete inputs, with the real outside crates.
