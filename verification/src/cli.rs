//! The command line: the commands it offers and what running it asks for.

use vstd::prelude::*;

verus! {

#[derive(Debug)]
pub enum Command {
    /// Initialize iws in the current directory (creates .workspaces/config.toml).
    Init,
    /// Create a new workspace with worktrees for the given repos.
    New { name: String, repos: Vec<String>, branch: Option<String> },
    /// List all workspaces with a status summary.
    List,
    /// Show the detailed status of a workspace.
    Status { name: String },
    /// Open a workspace in an editor.
    Open { name: String, editor: String },
    /// Start a coding assistant session in a workspace.
    Assistant { name: String },
    /// Add a repo to an existing workspace.
    AddRepo { name: String, repo: String, branch: Option<String> },
    /// Remove a repo from a workspace.
    RemoveRepo { name: String, repo: String },
    /// Create PRs for all repos of a workspace.
    Pr { name: String, title: Option<String>, body: Option<String> },
    /// Clean up a workspace (remove its worktrees and branches).
    Done { name: String, force: bool },
}

#[derive(Debug)]
pub struct Cli {
    pub command: Option<Command>,
}

/// What a command line asks for: the interactive browser, or one command.
#[derive(Debug)]
pub enum Invocation {
    Browse,
    Run(Command),
}

impl Cli {
    /// Without a command the browser starts; otherwise the command runs.
    pub fn run(self) -> (r: Invocation)
        ensures
            match self.command {
                None => r is Browse,
                Some(c) => r == Invocation::Run(c),
            },
    {
        match self.command {
            None => Invocation::Browse,
            Some(c) => Invocation::Run(c),
        }
    }
}

} // verus!
