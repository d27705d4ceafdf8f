# ide_agent

The logic of an AI-assisted code editor's agent, written in Verus: every
function under `src/` carries a contract that Verus proves.

- `src/provider/` — chat message types and their wire forms, server-sent
  event decoding for Anthropic- and OpenAI-style streams, retry and
  rate-limit decisions, provider configuration, key lookup and the registry
  of enabled providers.
- `src/chat/` — the conversation model, the engine settings and the agent
  loop as a state machine (`AgentTurn`): each provider event or tool result
  goes in, the next event for the UI comes out.
- `src/tools/` — the workspace tools the model can call: path resolution
  under the workspace root, staged changes (`WorkspaceTx`), line edits,
  replacements, file operations, the task list, metadata notes, the shell
  allow-list and the tool registry.
- `src/editor/` — editor-side helpers: git-internals path checks, session
  restore decisions, the text field, skill toggles, frame metrics.
- `src/sse.rs`, `src/glob.rs`, `src/search.rs`, `src/text.rs`, `src/order.rs`
  — shared text algorithms and their specifications.

Laws that span several functions are public proof functions named `law_*`.

Calls into outside crates (`url`, `keyring`, `backoff`, `globset`,
`serde_json`) stand behind small trusted wrappers whose contracts say what
the crates' sources show.

`app/` is the unverified shell around the library: command-line entry, file
and network I/O, HTTP clients, settings files and the terminal chat loop.
`tests/` exercises the library on concrete values.
