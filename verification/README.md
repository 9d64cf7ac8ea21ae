# hunkle

The decision logic of Hunkle's Herdr integration, written in Verus and
proved against its contracts. Hunkle is a terminal program that runs inside
the Herdr terminal multiplexer. It lists the coding agents that run in
Herdr's panes and keeps their timers. It prompts, stashes, restores and
displays those agents, runs scheduled agent tasks, and browses a
repository's GitHub issues.

## Layout

- `src/` is the verified library. Each module states what its functions do
  in `requires` / `ensures` over spec functions and views:
  - `session.rs`: the Herdr session. That covers the agent list and its
    snapshots, timers, transcripts, queued prompts, stashing, displaying,
    and the poll that takes finished work back in.
  - `commands.rs`, `launch.rs`, `display.rs`, `replies.rs`, `snapshot.rs`,
    `layout.rs`: the Herdr commands the session hands out, how Herdr's
    replies are read, and how agent layouts are exchanged between tabs.
  - `picker.rs`, `prompt.rs`, `input.rs`: the header picker and the Herdr
    prompt with its pane picker.
  - `timing.rs`, `pending.rs`, `table.rs`, `keyed.rs`: agent timers, the
    queue of timing writes, and the tables they live in.
  - `scheduler.rs`, `task_file.rs`, `project_tasks.rs`, `runs.rs`,
    `store.rs`: scheduled tasks. That covers their files, project tasks
    found in a repository, claiming and recording runs, the store's schema
    steps, and Discord delivery.
  - `issues.rs`, `github.rs`: the GitHub issue catalog and how the GitHub
    CLI's answers are read.
  - `transcript.rs`, `transcript_rows.rs`, `stash.rs`, `client.rs`,
    `agent.rs`, `json.rs`, `text.rs`: OpenCode transcripts, the agent
    stash, and shared value types and text functions.
- `app/` is ordinary Rust around the library. It holds process, file,
  socket and thread plumbing, and the serializable copies of the library's
  persisted types.
- `tests/` runs the library on concrete inputs.

Calls into std and outside crates that the proofs rest on are trusted
items. Each is either a small `#[verifier::external_body]` wrapper or a
declared outside type, and each has a doc comment that says what its
contract claims.
