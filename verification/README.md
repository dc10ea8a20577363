# codex_app

An MCP server that hands prompts to a persistent Codex Desktop task and
follows the task's state stream until the turn settles.

- `src/` is the verified library: task selection by title (`validate`),
  the JSON document model and RFC 6902 patching (`json`), the
  revision-contiguous state mirror (`mirror`, `state`, `follower`), the
  Desktop IPC decisions and frames (`client`, `transport`), the JSON
  messages written on the wire (`wire`), the active-turn ledger
  (`registry`), the turn task's control decisions (`turns`), the App Server
  exchange (`lookup`), and the completion outbox layout (`outbox`,
  `monitor`).
- `app/` is the binary around it: the MCP tool server, sockets, child
  processes, files, environment variables and async tasks.
- `tests/` exercise the library on concrete values.
