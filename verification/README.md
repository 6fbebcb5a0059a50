# agentgateway

The verified core of a gateway for AI traffic, written in Verus.

- `src/` is the library. It decides and computes; every function states what it does, and Verus
  proves it.
  - `ext_proc`: external processing of HTTP exchanges.
  - `network_ext_proc`, `network_ext_proc_mock`: external processing of TCP streams, and a sample
    processor.
  - `metadata_context`: metadata that goes with messages to a processor.
  - `streaming_guardrails`: guardrails on streamed responses.
  - `websocket`: frames, token usage and guardrails of realtime sessions.
  - `config_store`, `database`: configuration resources and how they are laid over a file.
  - `substrate`: what may leave actors, and how they are reached.
  - `bufferbody`, `idle_timeout`, `delay`, `cel_helpers`: bodies, timeouts, latency, values.
  - `json`, `text`, `byte_buffers`, `sse`: the data that the rest works on.
- `tests/` runs the library with the outside crates that it calls.
- `app/` is ordinary Rust around the library: sockets, timers, databases and wire formats.

What is trusted stands in the functions marked `#[verifier::external_body]` and in the declarations
of outside types. Each says which outside function it stands for and what it claims of it.
