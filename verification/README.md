# herdr_pet

The decision logic of Herdr Pet, a desktop pet that watches the coding agents
of a Herdr session and reacts to them, written in Verus
with its behaviour stated in contracts and proved.

## Layout

- `src/` — the verified library:
  - `agents` — the agent cache, state transitions and the pet's mood;
  - `pet` — pet intents, bubble templates and per-event cooldowns;
  - `config` — the settings, their defaults and normalisation;
  - `protocol`, `session` — the Herdr socket records, the handshake checks,
    event handling and the reconnect delays;
  - `transport`, `discovery` — where the Herdr socket is;
  - `runtime` — connection status, metrics and the redacted diagnostics;
  - `desktop` — tray commands, display capabilities, overlay placement,
    settings changes and the runtime self-test verdict;
  - `avatar`, `storage` — Avatar Studio project inspection and the
    bookkeeping of installed projects;
  - `text` — the text operations the rest is built from.
- `tests/` — tests of the library.
- `app/` — the process around it: files, the socket and its reconnect loop,
  the clock, JSON, and the floating-point geometry.

The agent cache and the intent cooldowns are vectors with distinct keys as
their invariant, not `HashMap`s: vstd specifies `HashMap` only for keys whose
hashing and equality it models, and text keys are not among them, so a map
keyed by strings would come with no usable contract. The cache is keyed by the
pair of session and pane.

`sha2`, `unicode-normalization` and `serde_json` (for parsing a JSON text
and quoting a string) are
called from the library behind trusted wrappers whose contracts name what
they compute; `serde`, `serde_json`, `tokio`, `interprocess`, `dirs`,
`tempfile` and `tracing` are used by `app/`.
