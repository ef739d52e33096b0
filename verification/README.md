# codex_providers

Provider management for the Codex CLI, written in Verus: every decision is a
function with a contract, and the contracts are proved.

- `src/picker.rs` — the interactive provider picker as a state machine
  (filtering and ranking, selection, scrolling, layout, match highlighting).
- `src/providers.rs`, `src/config.rs`, `src/activation.rs` — the `providers`
  subcommands: listing credentials, choosing providers from `config.toml`,
  hidden API-key entry, and activating a provider in `config.toml` with
  `toml_edit`.
- `src/auth.rs` — resolving the auth a provider's requests use, and the headers
  of agent-identity auth (over `http::HeaderMap`).
- `src/compose.rs`, `src/compose_assets.rs` — the `<compose_skills>` catalog,
  the fingerprint of the embedded compose skills and when to reinstall them.
- `src/presets.rs`, `src/catalog.rs`, `src/model_helpers.rs`, `src/paths.rs` —
  collaboration mode presets, the offline-first model catalog's decisions,
  model-name helpers and cache paths.
- `src/json.rs`, `src/text.rs` — trusted contracts for `serde_json` and a few
  string operations, and verified string helpers.

`app/` holds what Verus does not see: the command line, file and terminal I/O,
the ratatui drawing, and the calls into services. `tests/` exercise the
library as compiled Rust.
