# openai-rs

A client for OpenAI-compatible servers (hosted OpenAI, LM Studio, vLLM, ...),
split into a verified library and the asynchronous HTTP code around it.

- `src/` is the library, verified with Verus: the value types (`Endpoint`,
  `ChatRequest`, `Model`, `OpenAiError`, ...), the server-sent-events decoder,
  the text read back from Responses and Chat Completions replies, the request
  bodies, the state machine that picks a protocol and falls back between
  them, what a streaming read does with each payload, the matching of
  embedding vectors to their inputs, and the headers every request carries.
- `app/` performs the I/O with `reqwest` and `tokio`: it runs the state
  machine's requests, reads replies and streams, and (de)serialises JSON.
- `tests/` exercises the library on concrete values.
