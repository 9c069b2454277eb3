# arcella

The verified core of Arcella, a modular WebAssembly runtime, written in Verus.

- `src/` is the library. Every function in it has a contract. Verus proves
  the library's own functions; the small wrappers that call outside crates
  or std (each marked `#[verifier::external_body]`, with a doc comment that
  says what is claimed of the outside code) are trusted, not proved:
  - `arcella_types`: module identifiers (`name@version`), component manifests and
    their interface lists, configuration values, and the ALME request/response
    types.
  - `arcella_core`: engine feature profiles and compatibility reports,
    reading configuration files (the TOML text is parsed by the `toml` crate
    and walked into the library's tables), include planning, merging and
    flattening of configuration layers, extraction of subtrees,
    integrity checks, file-name and directory rules, runtime state and its
    mutations.
  - `arcella_daemon`: tracing settings, filter directives, the ring buffer of
    recent log lines, and the text of one log line.
  - `arcella_cli`: which request each client command sends and what it prints.
  - `text`, `assoc`, `paths`: helpers on characters, keyed sequences, and paths.
- `app/` is the program around the library. It holds the daemon (reading
  configuration files from disk and following their includes, logging,
  storage, the ALME socket server) and the command-line
  client (`arcella cli ...`), plus the serde forms of the library's types.
- `tests/` runs the library on concrete values.

Laws that span several functions are public proof functions whose names begin
with `law_`.
