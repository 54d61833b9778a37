# stuntdouble

A scripted mock HTTP server for integration tests: routes from a TOML
configuration, one JavaScript route script per matched request, allowlisted
upstream calls, rooted local file reads and streamed file answers.

The decisions the server makes are a verified Verus library under `src/`;
the program around it, which does the I/O, lives in `app/`.

- `src/config.rs`: parsing the configuration text (through the `toml`
  crate) and reading the document into a validated `Config`, every problem
  reported at once.
- `src/matcher.rs`: route matching by method and path segments, with
  percent-decoded `:param` captures.
- `src/script.rs`: the request snapshot a script sees, the script's recorded
  response and logs read back, and the error classes of a failed run.
- `src/server.rs`: correlation ids, the JSON error body and the mapping of a
  handled request onto status, headers and body.
- `src/upstream.rs`: the upstream call policy (payload checks, scheme and
  host allowlist, time budget, redirect hops, piped answers, stream relay).
- `src/files.rs`: `ctx.file` requests, path checks, read caps, single-range
  decisions and file relays.
- `src/bridge.rs`: the JSON answers the host bridge hands the script.
- `src/json.rs`, `src/text.rs`: the JSON model and character helpers.
- `app/`: the command line, the HTTP server, the Boa script engine, the
  ureq client and file-system access.
- `tests/`: tests of the library's public functions.
