# agent_reviewer

The core of a code-review agent, written in Verus.

- `src/config.rs` – model and provider configuration entries.
- `src/builder.rs` – service targets for the models: a plain plan per model
  (`plan_of`), the `genai` values it stands for, and the table of all models.
- `src/json.rs`, `src/text.rs`, `src/tool_calls.rs` – tool calls that a model
  writes as JSON text (possibly inside a Markdown fence), with call ids from a counter.
- `src/agent.rs` – the decisions of the reason-and-act loop: the message and tool
  offer of each step, where a reply's tool calls come from, and how a step ends.
- `app/` – deserialization, the process environment, the chat client and the loop
  that performs the requests.
- `tests/` – scenarios run against the compiled library.
