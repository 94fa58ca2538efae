# warp_ollama

Local Ollama support for a terminal's AI pipeline, verified with Verus.

- `src/config.rs` — endpoint configuration, endpoint URLs and `ollama:` model identifiers.
- `src/client.rs` — what a chat request sends (model, messages, task), the answers that
  report a failed exchange, the text chunk events that streamed chunks become, and
  `AnswerStream`, which gives a whole accepted answer step by step.
- `src/sse.rs` — framing of a server-sent-event body into its `data:` payloads.
- `src/stream.rs` — the response events (`Init`, `ClientActions`, `Finished`) and the
  streaming chunk types.
- `src/text.rs` — character-sequence helpers.
- `app/lib.rs` — the HTTP exchange, JSON (de)serialisation and the process-wide configuration.
