# nidex

The decision-making core of a coding agent, written in Verus: every function
in `src/` carries a contract, and the laws the components keep are stated and
proved as proof functions.

## Layout

- `src/text.rs`, `src/json.rs`: character sequences, substring search, and a
  plain-data model of JSON values (serde_json is called through small trusted
  wrappers).
- `src/dsml.rs`, `src/dsml_laws.rs`: the streaming parser for DSML tool-call
  markup, and what holds when a delta is cut into pieces.
- `src/chat_sse.rs`, `src/chat_sse_laws.rs`: the Chat Completions event-stream
  state machine (deltas, tool calls, usage, completion) and its law that
  completion is reported at most once.
- `src/chat_request.rs`: assembling Chat Completions requests (serde_json
  values whose compact text the contracts state) from conversation items;
  `src/aggregate.rs`: merging deltas into whole items.
- `src/items.rs`, `src/protocol.rs`: the conversation items, response events
  and protocol messages.
- `src/connectors.rs`: app connector labels, slugs and merging.
- `src/models.rs`: model presets, model info and the models cache.
- `src/auth.rs`: credentials, the credentials cache and the order in which
  stores are consulted.
- `src/code_nav.rs`, `src/code_nav_laws.rs`, `src/tool_handlers.rs`: languages,
  symbol extraction, index bookkeeping and the code-navigation tools;
  `src/code_query.rs`: running tree-sitter queries on file contents.
- `src/app_server.rs`: request admission for the app server.
- `src/onboarding.rs`: the API-key sign-in step.
- `app/`: the command-line program and the I/O around the library (files,
  SQLite, event streams, terminal).
- `tests/`: tests of the library on concrete values.

## Assumptions and representation choices

- JSON objects: `JsonModel` reads a `serde_json::Map` as its members in key
  order, because serde_json is built here without its `preserve_order`
  feature, so `Map` is a `BTreeMap`. Only a build-dependency of tree-sitter
  turns that feature on, and Cargo's resolver 2 keeps build-dependency
  features apart from the library's. Were `preserve_order` enabled for the
  library, the contracts over object text (`json_text`, `model_insert`)
  would no longer describe what serde_json writes.
- Streamed tool calls (`src/chat_sse.rs`) are kept as one sequence of slots in
  the order their indexes first appear, each slot carrying its index, with
  the ids seen kept beside it. A map from index to slot would need the order
  of first appearance and the set of seen indexes kept apart from it; the
  sequence holds all three at once, so they cannot drift apart, and the
  order in which calls are emitted is simply the sequence's order.
- Reasoning attached to conversation items (`src/chat_request.rs`) is a
  `std::collections::HashMap<usize, String>` keyed by item index.
