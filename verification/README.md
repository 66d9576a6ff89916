# agent_tools

The verified core of an agent's tool layer: how the tool calls of one turn are planned,
run, skipped and answered, how missing parameters are completed, and how web pages are
fetched and turned into text.

- `src/` holds the library. Its functions decide and compute; their contracts state what,
  and Verus proves them. `ToolRun`, `CallRun` and `FetchRun` are the state machines that a
  host drives; laws that relate several functions are the proof functions `law_*`.
- `app/` is the host: it runs tools, probes paths, sends requests, renders pages and sends
  events.
- `tests/` runs the library on concrete values.

Two crates are called from `src/`: `html2text`, for the text of a page, and `serde_json`,
for the escaping of JSON strings. What is believed of these crates, and of a few functions
of the standard library, stands in the contracts of the trusted items. Pages on which
`html2text` is not known to return are left to the host; `renderable` says which.
