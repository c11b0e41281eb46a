use iws::config::{parse_default_branch, Config, ConfigError, ProjectConfig, RepoConfig};
use iws::name_map::NameMap;

fn sample() -> Config {
    let mut repos = NameMap::new();
    repos.insert(
        "frontend".to_string(),
        RepoConfig { path: "frontend".to_string(), default_branch: "main".to_string(), shared_files: vec![".env.local".to_string()] },
    );
    repos.insert(
        "backend".to_string(),
        RepoConfig { path: "backend".to_string(), default_branch: "develop".to_string(), shared_files: vec![".env".to_string()] },
    );
    Config { project: ProjectConfig { name: "my-platform".to_string(), root: "/path/to/my-platform".to_string() }, repos }
}

#[test]
fn config_and_workspaces_paths() {
    assert_eq!(Config::config_path("/p"), "/p/.workspaces/config.toml");
    assert_eq!(Config::config_path("/p/"), "/p/.workspaces/config.toml");
    assert_eq!(Config::workspaces_dir("/p"), "/p/.workspaces");
    assert_eq!(Config::workspaces_dir(""), ".workspaces");
}

#[test]
fn get_repo_finds_known_repos() {
    let c = sample();
    let r = c.get_repo("backend").unwrap();
    assert_eq!(r.default_branch, "develop");
    assert_eq!(r.shared_files, vec![".env"]);
}

#[test]
fn get_repo_names_the_available_ones() {
    let c = sample();
    let e = c.get_repo("docs").unwrap_err();
    assert_eq!(e.message(), "Unknown repo 'docs'. Available: backend, frontend");
    match e {
        ConfigError::UnknownRepo { name, available } => {
            assert_eq!(name, "docs");
            assert_eq!(available, vec!["backend", "frontend"]);
        }
        _ => panic!("wrong error"),
    }
}

#[test]
fn repo_abs_path_joins_root() {
    let c = sample();
    assert_eq!(c.repo_abs_path("frontend").unwrap(), "/path/to/my-platform/frontend");
    assert!(matches!(c.repo_abs_path("nope"), Err(ConfigError::UnknownRepo { .. })));
}

#[test]
fn repo_abs_path_with_absolute_repo_path() {
    let mut c = sample();
    c.repos.insert(
        "elsewhere".to_string(),
        RepoConfig { path: "/srv/elsewhere".to_string(), default_branch: "main".to_string(), shared_files: vec![] },
    );
    assert_eq!(c.repo_abs_path("elsewhere").unwrap(), "/srv/elsewhere");
}

#[test]
fn missing_repo_path_is_an_error() {
    assert_eq!(Config::require_existing("/a/b".to_string(), true).unwrap(), "/a/b");
    let e = Config::require_existing("/a/b".to_string(), false).unwrap_err();
    assert_eq!(e.message(), "Repo path does not exist: /a/b");
}

#[test]
fn detects_repos_with_main_as_fallback() {
    let found = vec![
        ("frontend".to_string(), Some("main".to_string())),
        ("backend".to_string(), None),
        ("api".to_string(), Some("trunk".to_string())),
    ];
    let repos = Config::detect_repos(found);
    assert_eq!(repos.keys(), vec!["api", "backend", "frontend"]);
    let b = repos.get("backend").unwrap();
    assert_eq!(b.path, "backend");
    assert_eq!(b.default_branch, "main");
    assert!(b.shared_files.is_empty());
    assert_eq!(repos.get("api").unwrap().default_branch, "trunk");
}

#[test]
fn hidden_entries_are_not_scanned() {
    assert!(!Config::scans_entry(".workspaces"));
    assert!(!Config::scans_entry(".git"));
    assert!(Config::scans_entry("backend"));
}

#[test]
fn default_branch_of_unknown_repo_is_main() {
    let c = sample();
    assert_eq!(c.default_branch_of("backend"), "develop");
    assert_eq!(c.default_branch_of("other"), "main");
}

#[test]
fn default_branch_strips_origin() {
    assert_eq!(parse_default_branch(true, "origin/main\n"), Some("main".to_string()));
    assert_eq!(parse_default_branch(true, "  develop \n"), Some("develop".to_string()));
    assert_eq!(parse_default_branch(false, "origin/main\n"), None);
}
