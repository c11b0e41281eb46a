use iws::config::{Config, ProjectConfig, RepoConfig};
use iws::name_map::NameMap;
use iws::tui::{Action, App, Effect, InputMode, Key, KeyCode, RepoStatus, WorkspaceInfo};

fn config() -> Config {
    let mut repos = NameMap::new();
    for n in ["frontend", "backend"] {
        repos.insert(n.to_string(), RepoConfig { path: n.to_string(), default_branch: "main".to_string(), shared_files: vec![] });
    }
    Config { project: ProjectConfig { name: "p".to_string(), root: "/p".to_string() }, repos }
}

fn info(name: &str) -> WorkspaceInfo {
    WorkspaceInfo {
        name: name.to_string(),
        created: "2024-03-20".to_string(),
        repos: vec![RepoStatus { name: "backend".to_string(), branch: "feature/x".to_string(), ahead: 1, dirty: 0, exists: true }],
    }
}

fn k(code: KeyCode) -> Key {
    Key { code, ctrl: false }
}

fn ch(c: char) -> Key {
    k(KeyCode::Char(c))
}

fn app(names: &[&str]) -> App {
    App::new("/p".to_string(), config(), names.iter().map(|n| info(n)).collect())
}

#[test]
fn navigation_stays_in_the_list() {
    let mut a = app(&["a", "b", "c"]);
    assert_eq!(a.ws_index, 0);
    a.handle_key(k(KeyCode::Up));
    assert_eq!(a.ws_index, 0);
    a.handle_key(ch('j'));
    a.handle_key(k(KeyCode::Down));
    a.handle_key(k(KeyCode::Down));
    assert_eq!(a.ws_index, 2);
    a.handle_key(ch('k'));
    assert_eq!(a.ws_index, 1);
    assert_eq!(a.selected_ws().unwrap().name, "b");
}

#[test]
fn down_then_up_returns() {
    let mut a = app(&["a", "b", "c"]);
    a.set_msg("hello".to_string(), false);
    a.handle_key(k(KeyCode::Down));
    a.handle_key(k(KeyCode::Up));
    assert_eq!(a.ws_index, 0);
    assert!(a.message.is_none());
}

#[test]
fn quitting() {
    let mut a = app(&["a"]);
    a.handle_key(ch('q'));
    assert!(a.should_quit);
    let mut a = app(&["a"]);
    a.handle_key(Key { code: KeyCode::Char('c'), ctrl: true });
    assert!(a.should_quit);
    let mut a = app(&["a"]);
    let e = a.handle_key(ch('c'));
    assert!(!a.should_quit);
    assert!(matches!(e, Effect::OpenAssistantTab { workspace } if workspace == "a"));
}

#[test]
fn effects_of_normal_keys() {
    let mut a = app(&["a"]);
    assert!(matches!(a.handle_key(ch('o')), Effect::OpenEditor { workspace, editor } if workspace == "a" && editor == "zed"));
    assert!(matches!(a.handle_key(ch('f')), Effect::OpenFinder { workspace } if workspace == "a"));
    assert!(matches!(a.handle_key(ch('r')), Effect::Refresh));
    assert!(matches!(a.handle_key(ch('x')), Effect::Nothing));
    let mut empty = app(&[]);
    assert!(matches!(empty.handle_key(ch('o')), Effect::Nothing));
    assert!(matches!(empty.handle_key(ch('d')), Effect::Nothing));
    assert!(matches!(empty.input_mode, InputMode::Normal));
}

#[test]
fn creating_a_workspace() {
    let mut a = app(&["a"]);
    a.handle_key(ch('n'));
    assert!(matches!(a.input_mode, InputMode::NewName));
    assert_eq!(a.message, Some(("Enter workspace name".to_string(), false)));
    a.handle_key(k(KeyCode::Enter));
    assert_eq!(a.message, Some(("Name cannot be empty".to_string(), true)));
    for c in "new ws!".chars() {
        a.handle_key(ch(c));
    }
    assert_eq!(a.input_buf, "newws");
    a.handle_key(ch('é'));
    a.handle_key(k(KeyCode::Backspace));
    a.handle_key(ch('_'));
    a.handle_key(ch('2'));
    assert_eq!(a.input_buf, "newws_2");
    a.handle_key(k(KeyCode::Enter));
    assert!(matches!(a.input_mode, InputMode::NewRepos));
    let names: Vec<&str> = a.repo_toggles.iter().map(|(n, _)| n.as_str()).collect();
    assert_eq!(names, vec!["backend", "frontend"]);
    a.handle_key(k(KeyCode::Down));
    a.handle_key(ch(' '));
    let e = a.handle_key(k(KeyCode::Enter));
    match e {
        Effect::CreateWorkspace { name, repos } => {
            assert_eq!(name, "newws_2");
            assert_eq!(repos, vec!["frontend"]);
        }
        _ => panic!("expected a creation"),
    }
    a.workspace_created(Ok(vec![info("a"), info("newws_2")]));
    assert_eq!(a.ws_index, 1);
    assert!(matches!(a.input_mode, InputMode::Normal));
    assert_eq!(a.message, Some(("Created workspace 'newws_2'".to_string(), false)));
}

#[test]
fn non_ascii_letters_are_allowed_in_names() {
    let mut a = app(&[]);
    a.handle_key(ch('n'));
    a.handle_key(ch('é'));
    a.handle_key(ch('한'));
    a.handle_key(ch('/'));
    assert_eq!(a.input_buf, "é한");
}

#[test]
fn creation_without_repos_or_with_error() {
    let mut a = app(&[]);
    a.handle_key(ch('n'));
    a.handle_key(ch('x'));
    a.handle_key(k(KeyCode::Enter));
    a.handle_key(ch(' '));
    a.handle_key(ch(' '));
    let e = a.handle_key(k(KeyCode::Enter));
    assert!(matches!(e, Effect::Nothing));
    assert!(matches!(a.input_mode, InputMode::Normal));
    assert_eq!(a.message, Some(("Select at least one repo".to_string(), true)));

    let mut b = app(&[]);
    b.handle_key(ch('n'));
    b.handle_key(ch('x'));
    b.handle_key(k(KeyCode::Enter));
    b.handle_key(ch(' '));
    b.handle_key(k(KeyCode::Enter));
    b.workspace_created(Err("Workspace 'x' already exists at /p".to_string()));
    assert!(matches!(b.input_mode, InputMode::NewRepos));
    assert_eq!(b.message, Some(("Error: Workspace 'x' already exists at /p".to_string(), true)));
}

#[test]
fn escape_cancels_entry() {
    let mut a = app(&["a"]);
    a.handle_key(ch('n'));
    a.handle_key(ch('z'));
    a.handle_key(k(KeyCode::Esc));
    assert!(matches!(a.input_mode, InputMode::Normal));
    assert!(a.message.is_none());
    assert!(!a.should_quit);
}

#[test]
fn removing_a_workspace() {
    let mut a = app(&["a", "b"]);
    a.handle_key(ch('j'));
    a.handle_key(ch('d'));
    assert!(matches!(&a.input_mode, InputMode::Confirm(Action::Done(n)) if n == "b"));
    assert_eq!(a.message, Some(("Delete this workspace? y/n".to_string(), true)));
    let e = a.handle_key(ch('y'));
    assert!(matches!(e, Effect::RemoveWorkspace { name } if name == "b"));
    a.workspace_removed("b", Ok(vec![info("a")]));
    assert_eq!(a.ws_index, 0);
    assert!(matches!(a.input_mode, InputMode::Normal));
    assert_eq!(a.message, Some(("Workspace 'b' removed".to_string(), false)));
}

#[test]
fn any_other_key_cancels_removal() {
    let mut a = app(&["a"]);
    a.handle_key(ch('d'));
    let e = a.handle_key(ch('n'));
    assert!(matches!(e, Effect::Nothing));
    assert!(matches!(a.input_mode, InputMode::Normal));
    assert!(a.message.is_none());
    a.handle_key(ch('d'));
    a.handle_key(ch('y'));
    a.workspace_removed("a", Err("boom".to_string()));
    assert!(matches!(a.input_mode, InputMode::Normal));
    assert_eq!(a.message, Some(("Error: boom".to_string(), true)));
}

#[test]
fn refresh_clamps_the_selection() {
    let mut a = app(&["a", "b", "c"]);
    a.handle_key(ch('j'));
    a.handle_key(ch('j'));
    a.refreshed_by_request(vec![info("a")]);
    assert_eq!(a.ws_index, 0);
    assert_eq!(a.message, Some(("Refreshed".to_string(), false)));
    a.refreshed(vec![]);
    assert_eq!(a.ws_index, 0);
    a.assistant_tab_opened("Helper", "a");
    assert_eq!(a.message, Some(("Opening Helper in new tab for 'a'".to_string(), false)));
    a.finder_opened("a");
    assert_eq!(a.message, Some(("Opened 'a' in Finder".to_string(), false)));
}

#[test]
fn cursor_and_toggles() {
    let mut a = app(&[]);
    a.handle_key(ch('n'));
    a.handle_key(ch('x'));
    a.handle_key(k(KeyCode::Enter));
    a.handle_key(k(KeyCode::Up));
    assert_eq!(a.repo_cursor, 0);
    a.handle_key(ch('j'));
    a.handle_key(ch('j'));
    assert_eq!(a.repo_cursor, 1);
    a.handle_key(ch(' '));
    a.handle_key(ch(' '));
    assert!(a.repo_toggles.iter().all(|(_, on)| !on));
}

#[test]
fn removal_only_after_d_then_y() {
    let mut a = app(&["a", "b", "c"]);
    // 'y' alone in the normal mode removes nothing
    assert!(matches!(a.handle_key(ch('y')), Effect::Nothing));
    a.handle_key(ch('j'));
    assert!(matches!(a.handle_key(ch('d')), Effect::Nothing));
    match a.handle_key(ch('y')) {
        Effect::RemoveWorkspace { name } => assert_eq!(name, "b"),
        other => panic!("unexpected {:?}", other),
    }
}

#[test]
fn selection_stays_in_range_over_many_keys() {
    let mut a = app(&["a", "b"]);
    let keys = [
        k(KeyCode::Down), k(KeyCode::Down), k(KeyCode::Down), ch('k'), ch('k'), ch('k'), ch('j'),
        ch('n'), ch('x'), k(KeyCode::Esc), ch('j'), ch('d'), ch('n'), k(KeyCode::Down),
    ];
    for key in keys {
        a.handle_key(key);
        assert!(a.ws_index < a.workspaces.len());
    }
    assert_eq!(a.ws_index, 1);
}

#[test]
fn missing_worktrees_are_listed_with_zero_counts() {
    let r = RepoStatus::observed("backend".to_string(), "feature/x".to_string(), Some((2, 3)));
    assert!(r.exists);
    assert_eq!((r.ahead, r.dirty), (2, 3));
    let r = RepoStatus::observed("backend".to_string(), "feature/x".to_string(), None);
    assert!(!r.exists);
    assert_eq!((r.ahead, r.dirty), (0, 0));
    assert_eq!(r.branch, "feature/x");
}
