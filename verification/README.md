# lettuce_ai

The deterministic core of a chat-companion application, written in Verus:
every function under `src/` carries a contract that Verus proves.

- `src/` — the verified library: prompt templates and their variables, the
  request shapes of the chat providers (built-in and user-configured), the
  reading of provider answers and streamed frames, usage counts, the memory
  cycle's text handling and tool-call bookkeeping, the lorebook generators'
  parsing and merging, time expressions in questions, and small registries
  of running requests.  Calls into outside crates (chrono, regex, base64,
  uuid, tokio, quick-xml, serde_json) stand behind small trusted wrappers
  whose contracts say what the crates document.
- `tests/` — ordinary Rust tests that run the library with the outside
  crates linked.
- `app/` — the unverified edge: conversions to and from `serde_json`
  values and records with serde derives, the strings met while searching
  an answer for usage counts, floating-point scores and companion state,
  file output and the clock.
