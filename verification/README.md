# librespot_uwp

The core of a music player for UWP applications: the run loop and its events, the
audio cache and the tracks that are kept for playing offline, audio keys, the
answers to a frontend's questions about the catalogue, and the three ways to put
sound out (a shared ring buffer, WASAPI and XAudio2).

- `src/` is the library. Each function states in its contract what it returns or
  changes, and Verus proves it. Public proof functions whose names begin with
  `law_` state what holds across functions.
- `app/` binds the library to the system: files, threads, the network, the C
  interface and everything that is computed in floating point. It performs the
  calls that the library names and hands back what came of them.
- `tests/` runs the library on concrete values.

What is taken on trust stands in `encoding.rs`, `json.rs`, `size_limiter.rs`,
`text.rs`, `backend.rs` and `payloads.rs`: declarations of functions of other
crates and of the standard library, each with a comment that says what is claimed
of it.
