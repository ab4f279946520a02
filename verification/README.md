# codemoss

The decisions of a desktop shell that drives command-line coding agents, written
and proved in Verus.

- `src/` is the library. Each module states what its functions do over plain
  sequences of characters, JSON trees and records.
  - `text`, `json`, `clock`: texts, JSON values and the time of day.
  - `events`, `gemini_event`, `gemini_turn`, `gemini_history`: the stream of one
    turn, from a line of output to unified events and the end of the turn.
  - `gemini_prompt`, `gemini_auth`, `gemini_command`, `gemini_session`: what a turn
    is started with.
  - `ClaudeSession` and its module: prompts that are too long, compaction, the one
    retry and the use of the context window.
  - `proxy_guard`: local proxies that nobody listens on.
  - `runtime`, `runtime_pool`, `runtime_control`: the pool of runtimes, its
    budget, its ledger, and how processes are ended.
  - `laws_*`: what holds across functions, each as a proof function.
- `tests/` runs the library.
- `app/` is ordinary Rust around it: processes, files, sockets, locks and the
  serialised forms of the pool.

What is taken on trust are the calls into `serde_json`, `uuid` and a few functions
of the standard library. Each such item says in its comment what it claims.
