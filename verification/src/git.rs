//! What the git and gh commands are asked, and what their answers mean.
//! Running them is left to the caller, which hands back their exit status
//! and output.

use vstd::prelude::*;
use crate::path::{join_path, path_join};
use crate::text::{
    count_nonempty_lines, nonempty_line_count, owned, parse_decimal, parse_usize,
    trim, trimmed,
};

verus! {

#[derive(Debug)]
pub enum GitError {
    WorktreeAddFailed { stderr: String },
    WorktreeRemoveFailed { stderr: String, force_stderr: String },
    BranchDeleteFailed { branch: String, stderr: String },
    PushFailed { stderr: String },
    PrCreateFailed { stderr: String },
}

impl GitError {
    pub open spec fn message_text(&self) -> Seq<char> {
        match self {
            GitError::WorktreeAddFailed { stderr } => "git worktree add failed: "@ + trim(stderr@),
            GitError::WorktreeRemoveFailed { stderr, force_stderr } => "git worktree remove failed: "@
                + trim(stderr@) + " / "@ + trim(force_stderr@),
            GitError::BranchDeleteFailed { branch, stderr } => "git branch -d failed for '"@
                + branch@ + "': "@ + trim(stderr@),
            GitError::PushFailed { stderr } => "git push failed: "@ + trim(stderr@),
            GitError::PrCreateFailed { stderr } => "gh pr create failed: "@ + trim(stderr@),
        }
    }

    /// The message that describes the error.
    pub fn message(&self) -> (r: String)
        ensures
            r@ == self.message_text(),
    {
        match self {
            GitError::WorktreeAddFailed { stderr } => {
                let mut r = owned("git worktree add failed: ");
                r.append(trimmed(stderr.as_str()).as_str());
                r
            },
            GitError::WorktreeRemoveFailed { stderr, force_stderr } => {
                let mut r = owned("git worktree remove failed: ");
                r.append(trimmed(stderr.as_str()).as_str());
                r.append(" / ");
                r.append(trimmed(force_stderr.as_str()).as_str());
                r
            },
            GitError::BranchDeleteFailed { branch, stderr } => {
                let mut r = owned("git branch -d failed for '");
                r.append(branch.as_str());
                r.append("': ");
                r.append(trimmed(stderr.as_str()).as_str());
                r
            },
            GitError::PushFailed { stderr } => {
                let mut r = owned("git push failed: ");
                r.append(trimmed(stderr.as_str()).as_str());
                r
            },
            GitError::PrCreateFailed { stderr } => {
                let mut r = owned("gh pr create failed: ");
                r.append(trimmed(stderr.as_str()).as_str());
                r
            },
        }
    }
}

pub open spec fn string_views(v: Seq<String>) -> Seq<Seq<char>> {
    v.map_values(|s: String| s@)
}

/// The arguments of `git worktree add`: an existing branch is checked out,
/// a new one is created with `-b`.
pub open spec fn worktree_add_arguments(target: Seq<char>, branch: Seq<char>, branch_exists: bool) -> Seq<
    Seq<char>,
> {
    if branch_exists {
        seq!["worktree"@, "add"@, target, branch]
    } else {
        seq!["worktree"@, "add"@, target, "-b"@, branch]
    }
}

pub fn worktree_add_args(target: &str, branch: &str, branch_exists: bool) -> (r: Vec<String>)
    ensures
        string_views(r@) == worktree_add_arguments(target@, branch@, branch_exists),
{
    let mut r: Vec<String> = Vec::new();
    r.push(owned("worktree"));
    r.push(owned("add"));
    r.push(owned(target));
    if !branch_exists {
        r.push(owned("-b"));
    }
    r.push(owned(branch));
    assert(string_views(r@) =~= worktree_add_arguments(target@, branch@, branch_exists));
    r
}

/// The outcome of `git worktree add`.
pub fn worktree_add_result(success: bool, stderr: &str) -> (r: Result<(), GitError>)
    ensures
        r is Ok == success,
        r matches Err(e) ==> e matches GitError::WorktreeAddFailed { stderr: s } && s@ == stderr@,
{
    if success {
        Ok(())
    } else {
        Err(GitError::WorktreeAddFailed { stderr: owned(stderr) })
    }
}

/// The outcome of removing a worktree: `git worktree remove`, and, when that
/// failed, `git worktree remove --force`.
pub fn worktree_remove_result(
    success: bool,
    stderr: &str,
    force_success: bool,
    force_stderr: &str,
) -> (r: Result<(), GitError>)
    ensures
        r is Ok == (success || force_success),
        r matches Err(e) ==> e matches GitError::WorktreeRemoveFailed { stderr: s, force_stderr: f }
            && s@ == stderr@ && f@ == force_stderr@,
{
    if success || force_success {
        Ok(())
    } else {
        Err(
            GitError::WorktreeRemoveFailed {
                stderr: owned(stderr),
                force_stderr: owned(force_stderr),
            },
        )
    }
}

/// The outcome of `git branch -d <branch>`.
pub fn delete_branch_result(success: bool, branch: &str, stderr: &str) -> (r: Result<(), GitError>)
    ensures
        r is Ok == success,
        r matches Err(e) ==> e matches GitError::BranchDeleteFailed { branch: b, stderr: s } && b@
            == branch@ && s@ == stderr@,
{
    if success {
        Ok(())
    } else {
        Err(GitError::BranchDeleteFailed { branch: owned(branch), stderr: owned(stderr) })
    }
}

/// The outcome of `git push -u origin <branch>`.
pub fn push_result(success: bool, stderr: &str) -> (r: Result<(), GitError>)
    ensures
        r is Ok == success,
        r matches Err(e) ==> e matches GitError::PushFailed { stderr: s } && s@ == stderr@,
{
    if success {
        Ok(())
    } else {
        Err(GitError::PushFailed { stderr: owned(stderr) })
    }
}

/// The outcome of `gh pr create`: the trimmed output (the PR's address) on success.
pub fn create_pr_result(success: bool, stdout: &str, stderr: &str) -> (r: Result<String, GitError>)
    ensures
        r is Ok == success,
        r matches Ok(url) ==> url@ == trim(stdout@),
        r matches Err(e) ==> e matches GitError::PrCreateFailed { stderr: s } && s@ == stderr@,
{
    if success {
        Ok(trimmed(stdout))
    } else {
        Err(GitError::PrCreateFailed { stderr: owned(stderr) })
    }
}

/// `<default_branch>..HEAD`, the range whose commits are counted as ahead.
pub fn ahead_range(default_branch: &str) -> (r: String)
    ensures
        r@ == default_branch@ + "..HEAD"@,
{
    let mut r = owned(default_branch);
    r.append("..HEAD");
    r
}

/// The number of commits ahead that `git rev-list --count` reports:
/// its trimmed output as a number, 0 where it is none or the command failed.
pub open spec fn ahead_count(success: bool, stdout: Seq<char>) -> usize {
    if success {
        match parse_usize(trim(stdout)) {
            Some(n) => n,
            None => 0,
        }
    } else {
        0
    }
}

pub fn commits_ahead(success: bool, stdout: &str) -> (n: usize)
    ensures
        n == ahead_count(success, stdout@),
{
    if success {
        let t = trimmed(stdout);
        match parse_decimal(t.as_str()) {
            Some(n) => n,
            None => 0,
        }
    } else {
        0
    }
}

/// The number of changed files that `git status --porcelain` reports: its
/// non-empty lines, 0 where the command failed.
pub fn dirty_count(success: bool, stdout: &str) -> (n: usize)
    ensures
        n == if success {
            nonempty_line_count(stdout@)
        } else {
            0
        },
{
    if success {
        count_nonempty_lines(stdout)
    } else {
        0
    }
}

/// The branch that `git branch --show-current` reports: its trimmed output,
/// or `(detached)` where the command failed.
pub fn current_branch(success: bool, stdout: &str) -> (r: String)
    ensures
        r@ == if success {
            trim(stdout@)
        } else {
            "(detached)"@
        },
{
    if success {
        trimmed(stdout)
    } else {
        owned("(detached)")
    }
}

/// Where a shared file is copied from and to: the same relative path under
/// the repository and under the worktree.
pub fn shared_file_paths(repo_path: &str, worktree_path: &str, file: &str) -> (r: (String, String))
    ensures
        r.0@ == path_join(repo_path@, file@),
        r.1@ == path_join(worktree_path@, file@),
{
    (join_path(repo_path, file), join_path(worktree_path, file))
}

} // verus!
