# coderouter_proxy

A local proxy that routes OpenAI-style chat requests to groups of upstream
providers, with priority-based failover (on HTTP 429, exhausted daily quotas,
consecutive errors and latency timeouts), translation between the OpenAI,
Anthropic and Codex protocols, and the editing of OpenCode configurations.

## Layout

- `src/` is the library, verified with Verus: the router state and its
  cooldowns, the failover decisions, the protocol translators and stream
  aggregators, the configuration edits, and the rules for model discovery.
  Calls into outside crates (`serde_json`, `url`, `base64`, `uuid`,
  `fastrand`, `chrono`) stand behind small trusted wrappers whose contracts
  say what those crates document.
- `app/` is the program around it: the HTTP server, the background
  scheduler, storage, the keychain and the desktop commands. It performs the
  I/O and hands the library plain values.
- `tests/` holds the tests, run against the compiled library.
