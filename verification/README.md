# taskr

A terminal to-do client that works on top of outside task trackers: beads
(the `bd` tool, JSON output) and backlog.md (the `backlog` tool, plain text
output), or an in-memory store.

- `src/` is the verified library (Verus): the task model and filter
  (`domain::model`), the service rules and the list order
  (`domain::service`), the store port (`ports`), the in-memory store, the
  command arguments and output readers of both tools, the configuration-path
  rule and the list-screen state (`adapters`), and the text operations they
  rest on (`text`).
- `app/` is the program: command-line arguments, the JSON configuration file,
  running the tools, decoding `bd`'s JSON, and drawing with ratatui.
- `tests/` runs the library on concrete inputs.
