//! Running a one-off shell command in a worktree: the events its streamed
//! output is reported as, and how the command is handed to the shell.

use vstd::prelude::*;

verus! {

/// Which standard stream a line came from.
#[derive(Debug, Clone, Copy, PartialEq, Eq, Structural)]
pub enum OutputStream {
    Stdout,
    Stderr,
}

/// One event from a streamed command run.
#[derive(Debug, Clone)]
pub enum CommandOutput {
    /// A line written to stdout or stderr (without its trailing newline).
    Line { stream: OutputStream, text: String },
    /// The process exited. `code` is its status, or `None` if it was
    /// terminated by a signal.
    Exited { code: Option<i32> },
}

/// The program and arguments that run `command` through the platform shell:
/// `sh -c <command>`.
pub fn shell_invocation(command: &str) -> (r: (String, Vec<String>))
    ensures
        r.0@ == "sh"@,
        r.1.len() == 2,
        r.1@[0]@ == "-c"@,
        r.1@[1]@ == command@,
{
    let mut args: Vec<String> = Vec::new();
    args.push("-c".to_string());
    args.push(command.to_string());
    ("sh".to_string(), args)
}

} // verus!
