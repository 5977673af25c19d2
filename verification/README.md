# synod

Synod is a collaboration server where Humans and AI Members work together on
Topics, Issues and Proposals. Mentions in Issues and Comments open Dispatches,
which notify Humans and queue Runs for AI Members; a worker executes each Run
against an official DeepSeek or MiniMax Chat Completions endpoint and
publishes the answer as a Comment.

## Layout

- `src/` is the library, written in Verus and verified. It holds the state
  machines, the permission rules, input validation, mention parsing, dispatch
  planning, the provider endpoint and reply rules, token handling, and the
  rules that read stored rows back. Each public function states its result in
  its contract; `src/laws.rs` and the `law_*` proof functions of the other
  modules state what holds across operations.
- `tests/` runs the library on concrete inputs.
- `app/` is the program around the library: the command line, the axum HTTP
  server, the SQLite store, the worker loop and the reqwest provider client.
  It reads requests, rows and replies, and leaves every decision to the
  library.

The SQLite schema is applied from a `migrations` directory beside the
program, and the web application is served from `web/dist`.
