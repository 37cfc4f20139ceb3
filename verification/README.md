# oh-my-openagent-switch (verified core)

A desktop tool that switches the provider configuration of
[opencode](https://opencode.ai) and the role models of oh-my-openagent in one
step. This crate is its core, written in Verus: every rule the tool applies
is an executable function with a contract that Verus proves.

## Layout

- `src/` — the verified library
  - `json.rs`, `strmap.rs`, `text.rs`, `pathstr.rs`, `order.rs`, `timestamp.rs` — JSON trees and
    their model, a string-keyed map, string helpers, file paths in Unix or Windows style, ordering by time, time stamps
  - `config/` — JSONC parsing (through `jsonc-parser` and `serde_json`), merging a configuration
    into `opencode.jsonc`, building `oh-my-openagent.json`, document fingerprints (SHA-256)
  - `storage/` — where files live, saved configurations, the activation record and its
    detection, backups, imports
  - `commands.rs` — the decisions inside each command (what an apply writes, import labels,
    the activation state of the files on disk)
- `app/` — the thin layer around it: the process environment, the file system, the clock,
  identifiers, and serializable copies of the library's types
- `tests/` — tests of the library on concrete values

## Main guarantees

- Applying a configuration keeps every top-level member of `opencode.jsonc` except `provider`,
  which then holds exactly the `omos` block; in it, models the configuration keeps retain their
  other members (`headers`, `limit`, and `modalities` unless the configuration declares its
  own); applying twice is applying once.
- Reading the provider back from a document an apply wrote gives the configuration's provider.
- The activation state is `Active` exactly when the record's configuration is known and both
  documents carry the recorded fingerprints; a configuration just applied reads back as active,
  provided the JSON printer's text parses back to the document written (a property of the JSON
  libraries, taken as a premise, not proved here).
- Lists are ordered most recent first, items with the same time keeping their order; items
  made one after another come out in reverse.
- Pruning backups deletes exactly those after the `keep` most recent.
- Saved configurations, taken as the files of their directory keyed by identifier: one written
  is listed under its identifier and label, and read back whole under its identifier.
- An automatic import is recognised by the next one, which updates the configuration it wrote
  instead of adding another.
