//! Domain types shared across viban — persisted rows and wire payloads.

use vstd::prelude::*;

verus! {

/// A persisted agent session.
#[derive(Debug, Clone)]
pub struct Session {
    /// viban's own session id (the primary key and wire id).
    pub id: String,
    /// The agent CLI's own session id, learned from the init event; used to
    /// `--resume`. `None` until the agent has reported it.
    pub claude_session_id: Option<String>,
    /// Display title — the first user prompt, truncated.
    pub title: String,
    /// Creation time, Unix epoch milliseconds.
    pub created_at: i64,
    /// Filesystem path of the workspace the session runs in.
    pub project_path: String,
}

/// One persisted message within a session.
#[derive(Debug, Clone)]
pub struct Message {
    pub id: String,
    pub session_id: String,
    /// `user`, `assistant`, `tool`, `system`, or `error`.
    pub role: String,
    /// Human-readable text content.
    pub content: String,
    /// Creation time, Unix epoch milliseconds.
    pub created_at: i64,
    /// The raw agent event JSON, when the message came from one.
    pub raw_json: Option<String>,
}

/// A Kanban board — one per workspace.
#[derive(Debug, Clone)]
pub struct Board {
    pub id: String,
    pub name: String,
    pub project_path: String,
    pub created_at: i64,
}

/// A column on a board, ordered by `position`.
#[derive(Debug, Clone)]
pub struct Column {
    pub id: String,
    pub board_id: String,
    pub name: String,
    pub position: i64,
}

/// A task card within a column, ordered by `position`.
#[derive(Debug, Clone)]
pub struct Task {
    pub id: String,
    pub column_id: String,
    pub title: String,
    pub description: String,
    pub position: i64,
    /// The viban session linked to the task, if any.
    pub session_id: Option<String>,
    /// Filesystem path of the task's git worktree, once a session has started.
    pub worktree_path: Option<String>,
    /// The git branch the task's worktree is on.
    pub branch: Option<String>,
    pub created_at: i64,
}

/// One agent run of a task, with its own session, worktree, and branch. A
/// task may have several attempts; the task's own `session_id` /
/// `worktree_path` / `branch` point at the currently active one.
#[derive(Debug, Clone)]
pub struct Attempt {
    pub id: String,
    pub task_id: String,
    pub session_id: Option<String>,
    pub worktree_path: Option<String>,
    pub branch: Option<String>,
    pub created_at: i64,
}

/// A saved worktree checkpoint of a task: a commit it can be reset to.
#[derive(Debug, Clone)]
pub struct Checkpoint {
    pub id: String,
    pub task_id: String,
    pub commit_sha: String,
    pub label: String,
    pub created_at: i64,
}

/// The live status of a task's agent, kept in memory per connection.
#[derive(Debug, Clone, Copy, PartialEq, Eq, Structural)]
pub enum AgentStatus {
    Running,
    Done,
    Failed,
}

} // verus!
