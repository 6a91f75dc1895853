# codex_chat_fallback

The decisions that let a Responses API client fall back to the Chat
Completions API, written in Verus and proved against their contracts.

- `src/responses_retry.rs`: whether an error asks for the Chat Completions
  fallback, and what follows a retryable stream error (retry with which delay,
  switch the transport, or give up).
- `src/chat_completions.rs`: the Chat Completions request that stands in for a
  Responses request.
- `src/chat_stream.rs`: the Chat Completions event stream as a state machine
  from parsed chunks to Responses events, with the laws of a whole stream.
- `src/models.rs`, `src/error.rs`: the Responses items, events and errors, with
  their mathematical views.
- `src/text.rs`: substring search and decimal numerals on strings.
- `app/`: the I/O around the library: serde copies of its types, the
  server-sent-event loop, the HTTP client and the retry loop.
