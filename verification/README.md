# viban

viban is an agent-driven Kanban board: each task can run a coding agent in
its own git worktree, and the result is reviewed, committed, and merged from
the board. This crate is its verified core.

## Layout

- `src/` — the library, verified with Verus.
  - `agents` — classifying the agent CLI's stream-json output into events,
    the stdin envelope, the CLI's argv, commit prompts and messages.
  - `git` — branch slugs, `git status --porcelain` lines, the `.gitignore`
    entry check, CRLF normalization, ordering diffs by path.
  - `rpc` — JSON-RPC framing and dispatch, parameter extraction, and the
    board and attempt decisions the handlers make.
  - `board` — a fresh board's name and columns; pending migrations.
  - `paths` — where per-project data lives (an FNV-1a key of the workspace).
  - `auth` — the constant-time token check.
  - `shell` — the desktop shell's restart backoff and supervisor step, the
    auth token, the server's ready line, and routing server messages.
  - `json`, `text`, `types`, `exec` — the data the rest works on.
- `app/` — the server binary around the library: the WebSocket transport,
  SQLite persistence, and running `git` and the agent CLI.
- `tests/` — tests of the library on concrete values.

Calls into serde_json, uuid, getrandom and dirs, and the std functions vstd
gives no specification, go through small trusted wrappers whose doc comments
say what their contracts claim.

The server expects `VIBAN_AUTH_TOKEN` (the client's shared secret) and
`VIBAN_AGENT_PROGRAM` (the agent CLI to run) in its environment.
