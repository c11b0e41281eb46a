use iws::git::{
    ahead_range, commits_ahead, create_pr_result, current_branch, delete_branch_result, dirty_count,
    push_result, shared_file_paths, worktree_add_args, worktree_add_result, worktree_remove_result, GitError,
};

#[test]
fn worktree_add_arguments() {
    assert_eq!(worktree_add_args("/w/b", "feature/x", true), vec!["worktree", "add", "/w/b", "feature/x"]);
    assert_eq!(worktree_add_args("/w/b", "feature/x", false), vec!["worktree", "add", "/w/b", "-b", "feature/x"]);
}

#[test]
fn worktree_add_outcomes() {
    assert!(worktree_add_result(true, "").is_ok());
    let e = worktree_add_result(false, "fatal: already exists\n").unwrap_err();
    assert_eq!(e.message(), "git worktree add failed: fatal: already exists");
}

#[test]
fn worktree_remove_outcomes() {
    assert!(worktree_remove_result(true, "", false, "").is_ok());
    assert!(worktree_remove_result(false, "x", true, "").is_ok());
    let e = worktree_remove_result(false, " a \n", false, "b\n").unwrap_err();
    assert_eq!(e.message(), "git worktree remove failed: a / b");
    assert!(matches!(e, GitError::WorktreeRemoveFailed { .. }));
}

#[test]
fn branch_push_and_pr_outcomes() {
    assert!(delete_branch_result(true, "b", "").is_ok());
    assert_eq!(delete_branch_result(false, "feature/x", "not merged\n").unwrap_err().message(), "git branch -d failed for 'feature/x': not merged");
    assert!(push_result(true, "").is_ok());
    assert_eq!(push_result(false, " rejected ").unwrap_err().message(), "git push failed: rejected");
    assert_eq!(create_pr_result(true, "https://github.com/o/r/pull/1\n", "").unwrap(), "https://github.com/o/r/pull/1");
    assert_eq!(create_pr_result(false, "", "no remote\n").unwrap_err().message(), "gh pr create failed: no remote");
}

#[test]
fn commits_ahead_reads_the_count() {
    assert_eq!(ahead_range("main"), "main..HEAD");
    assert_eq!(commits_ahead(true, "3\n"), 3);
    assert_eq!(commits_ahead(true, "garbage"), 0);
    assert_eq!(commits_ahead(false, "3\n"), 0);
}

#[test]
fn dirty_count_counts_lines() {
    assert_eq!(dirty_count(true, " M a.rs\n?? b.rs\n"), 2);
    assert_eq!(dirty_count(true, ""), 0);
    assert_eq!(dirty_count(false, " M a.rs\n"), 0);
}

#[test]
fn current_branch_or_detached() {
    assert_eq!(current_branch(true, "feature/x\n"), "feature/x");
    assert_eq!(current_branch(false, ""), "(detached)");
}

#[test]
fn shared_files_map_under_both_roots() {
    let (from, to) = shared_file_paths("/r/backend", "/w/backend", ".env");
    assert_eq!(from, "/r/backend/.env");
    assert_eq!(to, "/w/backend/.env");
}
