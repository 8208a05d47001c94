# fauni_search

The command-line client and the core logic of the FauniSearch local search service, written
in Verus: executable Rust whose behaviour is stated in `requires` / `ensures` contracts and
proved.

- `src/` is the verified library: configuration loading and the runtime overlay edits,
  environment files, glob and source-root rules, search planning and ranking, the
  durable-store row decoding and encoding, job outcomes, the command payloads and their
  human-readable output, and the HTTP framing of requests and responses. Laws that span
  several functions are public proof functions (`lemma_*`).
- `tests/` runs the library on concrete values.
- `app/` is the `faus` binary: argument parsing, HTTP calls, files, processes and printing,
  around the library.

The App API server (its router, request handlers and job runner) is not part of this
build; `faus serve` prepares the runtime and then reports that.
