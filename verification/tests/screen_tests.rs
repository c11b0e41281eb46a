use iws::commands::Tone;
use iws::screen::{
    branch_display, created_label, popup_margins, repo_selector_height, repo_selector_item, repo_selector_title,
    repo_status_text, repo_status_tone, status_bar, workspace_list_entry,
};
use iws::tui::{RepoStatus, WorkspaceInfo};

fn repo(ahead: usize, dirty: usize, exists: bool) -> RepoStatus {
    RepoStatus { name: "r".to_string(), branch: "b".to_string(), ahead, dirty, exists }
}

#[test]
fn list_entries() {
    let ws = WorkspaceInfo { name: "auth".to_string(), created: "d".to_string(), repos: vec![repo(2, 0, true), repo(1, 3, true)] };
    assert_eq!(workspace_list_entry(&ws), (" auth ".to_string(), " 2 repos 3↑ 3✎".to_string()));
    let quiet = WorkspaceInfo { name: "q".to_string(), created: "d".to_string(), repos: vec![] };
    assert_eq!(workspace_list_entry(&quiet).1, " 0 repos");
}

#[test]
fn repo_states_and_tones() {
    assert_eq!(repo_status_text(&repo(0, 0, false)), "MISSING");
    assert_eq!(repo_status_text(&repo(0, 0, true)), "clean");
    assert_eq!(repo_status_text(&repo(2, 5, true)), "2 ahead, 5 dirty");
    assert_eq!(repo_status_tone(&repo(2, 5, false)), Tone::Red);
    assert_eq!(repo_status_tone(&repo(2, 5, true)), Tone::Yellow);
    assert_eq!(repo_status_tone(&repo(2, 0, true)), Tone::Cyan);
    assert_eq!(repo_status_tone(&repo(0, 0, true)), Tone::Green);
}

#[test]
fn long_branches_are_cut() {
    assert_eq!(branch_display("feature/short"), "feature/short");
    let thirty = "a".repeat(30);
    assert_eq!(branch_display(&thirty), thirty);
    let long = "feature/a-very-long-branch-name-indeed";
    assert_eq!(branch_display(long), format!("{}…", &long[..29]));
}

#[test]
fn status_line() {
    assert_eq!(status_bar(&None, 3), ("iws — 3 workspace(s)".to_string(), Tone::Gray, false));
    assert_eq!(status_bar(&Some(("bad".to_string(), true)), 3), ("bad".to_string(), Tone::Red, true));
    assert_eq!(status_bar(&Some(("ok".to_string(), false)), 3), ("ok".to_string(), Tone::Green, false));
}

#[test]
fn chooser_texts_and_sizes() {
    assert_eq!(repo_selector_height(2), 6);
    assert_eq!(repo_selector_height(20), 15);
    assert_eq!(repo_selector_item("backend", true), " [x] backend");
    assert_eq!(repo_selector_item("backend", false), " [ ] backend");
    assert_eq!(repo_selector_title("ws"), " Select repos for 'ws' ");
    assert_eq!(created_label("2024-03-20"), "created 2024-03-20");
    assert_eq!(popup_margins(24, 5, 50), (9, 25));
    assert_eq!(popup_margins(3, 5, 50), (0, 25));
}
