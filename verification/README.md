# onet_agent_core

The logic of an AI agent chat panel and of its application settings, written
in Verus: every function in `src/` carries a contract over mathematical models
(`Seq`, `Set`, `Map`, views of the data types) and is proved against it.

## Layout

- `src/transcript_model.rs`, `src/transcript.rs`, `src/transcript_laws.rs`:
  the conversation transcript. Each update is stated as a function of the
  transcript's model; the laws prove that the message, text and field budget
  always holds after an update, that the oldest completed messages go first,
  that a terminal event is applied once, and that loading a history discards
  what the transcript held before.
- `src/cards.rs`, `src/budget.rs`, `src/events.rs`, `src/text.rs`: cards,
  UTF-8 byte budgets, runtime events and text helpers.
- `src/resources.rs`, `src/composer_context.rs`, `src/composer.rs`,
  `src/text_order.rs`: the resource pool, the input box context (target,
  scopes, type filters in string order), model and mode choices.
- `src/pending.rs`, `src/operations.rs`, `src/acp_flow.rs`: per-session
  first-in, first-out queues, generation counters that reject late
  callbacks, and the panel's decisions for ACP agents, stopping and events.
- `src/sessions.rs`, `src/session_cache.rs`: the sidebar's task list, newest
  first, and the least-recently-used transcript cache.
- `src/settings.rs`, `src/fonts.rs`, `src/message_text.rs`, `src/prompt.rs`,
  `src/proxy_url.rs`: settings enums and normalisation, the proxy URL built
  with the `url` crate, grid fonts, message text and ACP prompt blocks.
- `app/`: the parts that are not verified: the settings file (serde and file
  I/O), reading tool arguments out of `serde_json::Value`, and window
  geometry, which uses floating point.
- `tests/`: tests of the library on concrete values.

Texts that depend on the user's language are passed in by the caller.
