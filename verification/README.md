# lab_runtime

Verified core of a headless laboratory automation runtime: deployment admission,
validation, freezing and staged apply; bounded event replay; periodic scheduling
and the safety-first owner turn; bounded diagnostics; the managed-component pool's
decisions; and generic property projection.

- `src/` is the library, written in Verus. Every function carries a contract that
  Verus proves; calls into `sha2` and `std::path` sit behind small trusted wrappers
  whose contracts say what the outside code documents.
- `tests/` exercises the library on concrete values.
- `app/` is the executable around it: file and environment access, TOML and JSON
  deserialization, the `tracing` subscriber and rotating log files, Ctrl-C handling
  and hashing of the running executable.
