# ellen_rust_backend

Backend of the Ellen Joe AI companion: a WebSocket server that sends a user's
message to the DeepSeek LLM, parses the `[motion:…][exp:…]` tags of the reply,
has GPT-SoVITS speak it, and sends the frontend a `multimodal_sync` packet.

Layout:

- `src/` — the verified library (Verus):
  - `parser` — tag grammar, whitelists, tag stripping;
  - `persona` — the system prompt and character metadata;
  - `config` — configuration records and the environment-override rules;
  - `llm` — request messages, streamed-reply collection, client errors;
  - `tts` — WAV duration, cache keys (SHA-256), the LRU+TTL audio cache,
    the retry policy, and the synthesis of one text as a state machine
    (cache lookup, attempts with backoff, caching of the result);
  - `session` — outgoing messages, the per-message pipeline as a state
    machine, conversation history, heartbeat, incoming frames, client registry;
  - `text` — character-level string helpers.
- `tests/` — tests of the library.
- `app/` — the program: `main`, YAML and environment loading, logging, the
  axum WebSocket server, and the HTTP clients (reqwest, SSE), driving the
  library's decisions.
