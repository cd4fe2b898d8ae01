# relay_core

The verified core of an LLM gateway and workflow runtime, written in Verus.

- `src/` — the library, every function proved against its contract:
  - `canonical`, `adapters/` — the canonical request/response model and the
    OpenAI Chat, Anthropic Messages and OpenAI Responses codecs, with
    translation-loss detection and round-trip laws;
  - `sse` — an incremental server-sent-events parser and formatter, with
    chunking-invariance and format/parse laws;
  - `json` — a JSON value model, read and written through `serde_json`;
  - `workflow/` — workflow compilation (validation, lane checks, Kahn
    ordering), the node runtime as a state machine, node logic (transform,
    condition, fallback, retry, LLM call preparation and stream folding),
    lane egress planning, extension framing and runtime snapshots;
  - `mock` — the replies of a mock LLM upstream.
- `tests/` — executable tests of the library.
- `app/` — the I/O around it: HTTP servers and clients, Unix-socket
  workers, snapshot publishing and the loop that runs a plan's nodes.
