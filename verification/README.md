# codey

The decision logic of a small terminal coding agent, verified with Verus.
A user chats with a model (served by Ollama); the model may call local
tools: `list_files`, `read_file`, `write_file`, `search_text_in_files` and
`run_command`.

- `src/agent.rs`: one turn of the conversation as a state machine: the
  model's reply, the tool calls it makes, their results filed in the
  history, until the model answers without calling a tool. Laws on every
  step: only the last event can end a turn, a turn ends exactly when it
  says `Stop`, the history only grows, `Done` carries the history. Laws
  over a whole turn: it fails exactly on a failed request, a reply without
  `message` or a tool call without `function`, never on a tool's error;
  each request carries the one before and what was added since.
- `src/tools.rs` and `src/tools/`: tool arguments, parameter schemas, the
  registry, the path checks, each tool's argument handling and result text,
  and the directory walk shared by listing and searching (depth-limited for
  the search), with laws on what a whole walk over a tree reports.
- `src/app.rs`: the chat application's state, keys and agent events; only
  one turn runs at a time.
- `src/ui.rs`: the transcript laid out in rows, scrolling limits, box titles.
- `src/text.rs`: text functions proved against plain statements (decimal
  numerals, Unicode white space, trimming, words, lines, substring search).
- `app/`: the program: terminal (crossterm, ratatui), the HTTP client of the
  model (reqwest, serde_json), file system and processes (std, tokio).
