use iws::workspace::WorkspaceConfig;

#[test]
fn new_workspace_keeps_its_date_and_is_empty() {
    let w = WorkspaceConfig::new("auth-refactor", "2024-03-20".to_string());
    assert_eq!(w.workspace.name, "auth-refactor");
    assert_eq!(w.workspace.created, "2024-03-20");
    assert!(w.repos.is_empty());
}

#[test]
fn add_then_read_back() {
    let mut w = WorkspaceConfig::new("ws", "2024-03-20".to_string());
    w.add_repo("backend", "feature/ws");
    w.add_repo("frontend", "feature/ws");
    assert_eq!(w.repos.get("backend").unwrap().branch, "feature/ws");
    w.add_repo("backend", "other");
    assert_eq!(w.repos.get("backend").unwrap().branch, "other");
    assert_eq!(w.repos.keys(), vec!["backend", "frontend"]);
}

#[test]
fn add_then_remove_restores() {
    let mut w = WorkspaceConfig::new("ws", "2024-03-20".to_string());
    w.add_repo("backend", "b");
    assert!(w.remove_repo("backend"));
    assert!(!w.remove_repo("backend"));
    assert!(w.repos.is_empty());
    assert_eq!(w.workspace.name, "ws");
}

#[test]
fn workspace_paths() {
    assert_eq!(WorkspaceConfig::workspace_dir("/p", "ws"), "/p/.workspaces/ws");
    assert_eq!(WorkspaceConfig::config_path("/p", "ws"), "/p/.workspaces/ws/.workspace.toml");
}

#[test]
fn list_all_keeps_visible_workspaces_sorted() {
    let c = vec![
        ("zeta".to_string(), true),
        (".hidden".to_string(), true),
        ("alpha".to_string(), true),
        ("no-file".to_string(), false),
        ("Beta".to_string(), true),
    ];
    assert_eq!(WorkspaceConfig::list_all(c), vec!["Beta", "alpha", "zeta"]);
    assert!(WorkspaceConfig::list_all(vec![]).is_empty());
}
