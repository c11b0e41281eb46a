use iws::templates::{assistant_document, assistant_document_paths, notes_document, notes_document_path};

#[test]
fn notes_document_lists_repos() {
    let repos = vec!["backend".to_string(), "frontend".to_string()];
    let expected = "# auth\n\n## 요구사항\n-\n\n## 레포별 작업\n1. **backend**: \n2. **frontend**: \n\n## 작업 순서\n\n\n## 진행 상태\n- [ ] backend \n- [ ] frontend \n\n## 참고/메모\n-\n";
    assert_eq!(notes_document("auth", &repos), expected);
}

#[test]
fn notes_document_without_repos() {
    let expected = "# x\n\n## 요구사항\n-\n\n## 레포별 작업\n\n\n## 작업 순서\n\n\n## 진행 상태\n\n\n## 참고/메모\n-\n";
    assert_eq!(notes_document("x", &vec![]), expected);
}

#[test]
fn assistant_document_points_at_notes() {
    let d = assistant_document("auth", "NOTES.md");
    assert!(d.starts_with("# Workspace: auth\n\n작업 전 반드시 `NOTES.md`를 읽고"));
    assert!(d.ends_with("개별 처리하세요.\n"));
}

#[test]
fn document_paths() {
    assert_eq!(notes_document_path("/p/.workspaces/ws", "NOTES.md"), "/p/.workspaces/ws/NOTES.md");
    let (dir, file) = assistant_document_paths("/p/.workspaces/ws", ".assistant", "GUIDE.md");
    assert_eq!(dir, "/p/.workspaces/ws/.assistant");
    assert_eq!(file, "/p/.workspaces/ws/.assistant/GUIDE.md");
}
