use iws::commands::{
    branch_for_new_workspace, check_not_initialized, check_repos_known, assistant_tab_script, confirms,
    editor_program, editor_targets, list_status, other_repos, plan_add_repo, plan_new_workspace,
    plan_remove_repo, pr_body, pr_title, project_name, shell_escape, status_parts, worktree_failed,
    CommandError, Tone, done_warnings, done_step, new_step, pr_step, DoneAction, DoneEvent,
    NewAction, PrAction, PrEvent,
};
use iws::config::{Config, ConfigError, ProjectConfig, RepoConfig};
use iws::name_map::NameMap;
use iws::workspace::{WorkspaceConfig, WorkspaceRepo};

fn config() -> Config {
    let mut repos = NameMap::new();
    for n in ["backend", "frontend", "shared-lib"] {
        repos.insert(n.to_string(), RepoConfig { path: n.to_string(), default_branch: "main".to_string(), shared_files: vec![] });
    }
    Config { project: ProjectConfig { name: "p".to_string(), root: "/p".to_string() }, repos }
}

fn workspace() -> WorkspaceConfig {
    let mut w = WorkspaceConfig::new("auth", "2024-03-20".to_string());
    w.add_repo("frontend", "feature/auth");
    w.add_repo("backend", "feature/auth-be");
    w
}

#[test]
fn default_branch_for_new_workspaces() {
    assert_eq!(branch_for_new_workspace("auth", None), "feature/auth");
    assert_eq!(branch_for_new_workspace("auth", Some("fix/x")), "fix/x");
}

#[test]
fn new_workspace_checks() {
    let c = config();
    let repos = vec!["backend".to_string(), "frontend".to_string()];
    assert_eq!(plan_new_workspace(&c, "auth", &repos, None, "/p/.workspaces/auth", false).unwrap(), "feature/auth");
    let e = plan_new_workspace(&c, "auth", &repos, None, "/p/.workspaces/auth", true).unwrap_err();
    assert_eq!(e.message(), "Workspace 'auth' already exists at /p/.workspaces/auth");
    let bad = vec!["backend".to_string(), "docs".to_string(), "web".to_string()];
    let e = plan_new_workspace(&c, "auth", &bad, None, "/d", true).unwrap_err();
    assert_eq!(e.message(), "Unknown repo 'docs'. Available: backend, frontend, shared-lib");
    assert!(check_repos_known(&c, &repos).is_ok());
    assert!(matches!(check_repos_known(&c, &bad), Err(ConfigError::UnknownRepo { .. })));
    assert_eq!(worktree_failed("backend", "git worktree add failed: x").message(), "Failed to create worktree for 'backend': git worktree add failed: x");
}

#[test]
fn add_repo_branch_choice() {
    let c = config();
    let w = workspace();
    // the first repository in name order is backend
    assert_eq!(plan_add_repo(&c, &w, "auth", "shared-lib", None).unwrap(), "feature/auth-be");
    assert_eq!(plan_add_repo(&c, &w, "auth", "shared-lib", Some("x")).unwrap(), "x");
    let empty = WorkspaceConfig::new("solo", "d".to_string());
    assert_eq!(plan_add_repo(&c, &empty, "solo", "backend", None).unwrap(), "feature/solo");
    let e = plan_add_repo(&c, &w, "auth", "backend", None).unwrap_err();
    assert_eq!(e.message(), "Repo 'backend' is already in workspace 'auth'");
    let e = plan_add_repo(&c, &w, "auth", "docs", None).unwrap_err();
    assert!(matches!(e, CommandError::Config(ConfigError::UnknownRepo { .. })));
}

#[test]
fn remove_repo_check() {
    let w = workspace();
    assert!(plan_remove_repo(&w, "auth", "backend").is_ok());
    assert_eq!(plan_remove_repo(&w, "auth", "docs").unwrap_err().message(), "Repo 'docs' is not in workspace 'auth'");
}

#[test]
fn editor_and_targets() {
    assert_eq!(editor_program("zed"), "zed");
    assert_eq!(editor_program("vim"), "vim");
    let w = workspace();
    assert_eq!(editor_targets(&w, "/p/.workspaces/auth", "auth").unwrap(), vec!["/p/.workspaces/auth/backend", "/p/.workspaces/auth/frontend"]);
    let empty = WorkspaceConfig::new("e", "d".to_string());
    assert_eq!(editor_targets(&empty, "/x", "e").unwrap_err().message(), "Workspace 'e' has no repos");
}

#[test]
fn shell_escaping() {
    assert_eq!(shell_escape("/p/ws"), "'/p/ws'");
    assert_eq!(shell_escape("it's"), "'it'\\''s'");
    assert_eq!(shell_escape(""), "''");
    let s = assistant_tab_script("/p/x", "helper");
    assert!(s.contains("keystroke \"cd '/p/x' && helper\""));
    assert!(s.starts_with("\ntell application \"Warp\" to activate\n"));
}

#[test]
fn confirmation_answers() {
    assert!(confirms("y\n"));
    assert!(confirms(" Y "));
    assert!(!confirms("yes"));
    assert!(!confirms(""));
    assert!(!confirms("n"));
}

#[test]
fn list_states() {
    assert_eq!(list_status(0, 0), ("clean".to_string(), Tone::Green));
    assert_eq!(list_status(3, 0), ("3↑".to_string(), Tone::Cyan));
    assert_eq!(list_status(0, 2), ("2✎".to_string(), Tone::Yellow));
    assert_eq!(list_status(3, 2), ("3↑ 2✎".to_string(), Tone::Yellow));
}

#[test]
fn status_states() {
    assert_eq!(status_parts(0, 0), vec![("clean".to_string(), Tone::Green)]);
    assert_eq!(status_parts(2, 1), vec![("2 commits ahead".to_string(), Tone::Cyan), ("1 file modified".to_string(), Tone::Yellow)]);
    assert_eq!(status_parts(0, 4), vec![("4 files modified".to_string(), Tone::Yellow)]);
}

#[test]
fn pr_texts() {
    let w = workspace();
    assert_eq!(other_repos(&w, "backend"), vec!["frontend"]);
    assert_eq!(pr_title(None, "auth", "backend"), "auth (backend)");
    assert_eq!(pr_title(Some("Login"), "auth", "backend"), "Login (backend)");
    let others = vec!["frontend".to_string()];
    let body = pr_body(None, "auth", "feature/auth", &others, &vec![]);
    assert_eq!(body, "Workspace: `auth`\nBranch: `feature/auth`\n\n## Related repos\n- `frontend` (branch: `feature/auth`)");
    let created = vec![("backend".to_string(), "https://x/1".to_string())];
    let body = pr_body(Some("Desc"), "auth", "b", &vec![], &created);
    assert_eq!(body, "Desc\n\n## Related PRs\n- backend: https://x/1");
}

#[test]
fn init_checks() {
    assert!(check_not_initialized("/p/.workspaces/config.toml", false).is_ok());
    assert_eq!(check_not_initialized("/p/.workspaces/config.toml", true).unwrap_err().message(), "Already initialized: /p/.workspaces/config.toml");
    assert_eq!(project_name(None), "project");
    assert_eq!(project_name(Some("my-platform".to_string())), "my-platform");
    assert_eq!(CommandError::GhMissing.message(), "gh CLI is not installed. Install it with: brew install gh");
    assert_eq!(CommandError::AssistantFailed { label: "Helper".to_string() }.message(), "Helper exited with error");
    assert_eq!(CommandError::EditorFailed { editor: "zed".to_string() }.message(), "Editor 'zed' exited with error");
}

#[test]
fn readme_new_workspace_scenario() {
    let c = config();
    let repos = vec!["backend".to_string(), "frontend".to_string()];
    let dir = WorkspaceConfig::workspace_dir("/home/me/my-platform", "auth-refactor");
    assert_eq!(dir, "/home/me/my-platform/.workspaces/auth-refactor");
    assert_eq!(
        WorkspaceConfig::config_path("/home/me/my-platform", "auth-refactor"),
        "/home/me/my-platform/.workspaces/auth-refactor/.workspace.toml"
    );
    assert_eq!(plan_new_workspace(&c, "auth-refactor", &repos, None, &dir, false).unwrap(), "feature/auth-refactor");
}

#[test]
fn done_warns_about_existing_dirty_worktrees() {
    let states = vec![
        ("backend".to_string(), true, 3),
        ("docs".to_string(), false, 5),
        ("frontend".to_string(), true, 0),
        ("web".to_string(), true, 1),
    ];
    let (warnings, ask) = done_warnings(false, &states);
    assert_eq!(warnings, vec![("backend".to_string(), 3), ("web".to_string(), 1)]);
    assert!(ask);
    let (warnings, ask) = done_warnings(true, &states);
    assert!(warnings.is_empty());
    assert!(!ask);
    let clean = vec![("backend".to_string(), true, 0), ("docs".to_string(), false, 2)];
    let (warnings, ask) = done_warnings(false, &clean);
    assert!(warnings.is_empty());
    assert!(!ask);
}

#[test]
fn done_deletes_branch_only_after_removal() {
    let repo = WorkspaceRepo { branch: "feature/auth".to_string() };
    match done_step(&repo, DoneEvent::Removed) {
        DoneAction::DeleteBranch(b) => assert_eq!(b, "feature/auth"),
        other => panic!("unexpected {:?}", other),
    }
    for e in [DoneEvent::Missing, DoneEvent::PathFailed, DoneEvent::RemoveFailed] {
        assert!(matches!(done_step(&repo, e), DoneAction::Next));
    }
}

#[test]
fn pr_steps_link_earlier_prs() {
    let w = workspace();
    let mut created: Vec<(String, String)> = Vec::new();
    // repo 0 is backend (name order)
    match pr_step(&w, "auth", None, None, 0, &mut created, PrEvent::Present) {
        PrAction::Push { branch } => assert_eq!(branch, "feature/auth-be"),
        other => panic!("unexpected {:?}", other),
    }
    match pr_step(&w, "auth", None, None, 0, &mut created, PrEvent::Pushed) {
        PrAction::CreatePr { title, body } => {
            assert_eq!(title, "auth (backend)");
            assert_eq!(
                body,
                "Workspace: `auth`\nBranch: `feature/auth-be`\n\n## Related repos\n- `frontend` (branch: `feature/auth-be`)"
            );
        }
        other => panic!("unexpected {:?}", other),
    }
    assert!(matches!(
        pr_step(&w, "auth", None, None, 0, &mut created, PrEvent::Created("https://x/pr/1".to_string())),
        PrAction::Next
    ));
    assert_eq!(created, vec![("backend".to_string(), "https://x/pr/1".to_string())]);
    match pr_step(&w, "auth", Some("Auth"), Some("Body"), 1, &mut created, PrEvent::Pushed) {
        PrAction::CreatePr { title, body } => {
            assert_eq!(title, "Auth (frontend)");
            assert_eq!(
                body,
                "Body\n\n## Related repos\n- `backend` (branch: `feature/auth`)\n\n## Related PRs\n- backend: https://x/pr/1"
            );
        }
        other => panic!("unexpected {:?}", other),
    }
    for e in [PrEvent::Missing, PrEvent::PushFailed, PrEvent::CreateFailed] {
        assert!(matches!(pr_step(&w, "auth", None, None, 1, &mut created, e), PrAction::Next));
    }
    assert_eq!(created.len(), 1);
}

#[test]
fn new_records_worktrees_and_rolls_back() {
    let mut repos = NameMap::new();
    repos.insert(
        "backend".to_string(),
        RepoConfig { path: "backend".to_string(), default_branch: "main".to_string(), shared_files: vec![".env".to_string()] },
    );
    repos.insert(
        "frontend".to_string(),
        RepoConfig { path: "frontend".to_string(), default_branch: "main".to_string(), shared_files: vec![] },
    );
    let c = Config { project: ProjectConfig { name: "p".to_string(), root: "/p".to_string() }, repos };
    let mut w = WorkspaceConfig::new("auth", "2024-03-20".to_string());
    match new_step(&c, &mut w, "/p/.workspaces/auth", "backend", "feature/auth", Ok(())) {
        NewAction::Continue { shared_files } => assert_eq!(shared_files, vec![".env".to_string()]),
        other => panic!("unexpected {:?}", other),
    }
    assert_eq!(w.repos.get("backend").unwrap().branch, "feature/auth");
    match new_step(&c, &mut w, "/p/.workspaces/auth", "frontend", "feature/auth", Err("boom".to_string())) {
        NewAction::Rollback { worktrees, error } => {
            assert_eq!(worktrees, vec![("backend".to_string(), "/p/.workspaces/auth/backend".to_string())]);
            assert_eq!(error.message(), "Failed to create worktree for 'frontend': boom");
        }
        other => panic!("unexpected {:?}", other),
    }
    assert_eq!(w.repos.len(), 1);
    assert!(!w.repos.contains_key("frontend"));
}

#[test]
fn shell_escape_matches_replace() {
    for s in ["", "plain", "it's", "''", "a'b'c", "/tmp/my dir"] {
        assert_eq!(shell_escape(s), format!("'{}'", s.replace('\'', "'\\''")));
    }
}
