//! The documents written into a new workspace: the notes document, where
//! the requirements and progress of the work are tracked, and the assistant
//! document, which points a coding assistant at the notes. Their file names
//! are the caller's to choose.

use vstd::prelude::*;
use crate::path::{join_path, path_join};
use crate::text::{decimal, join, joined, owned, push_decimal, views};

verus! {

/// `"<n>. **<repo>**: "` for the repository at position `i` (counted from 1).
pub open spec fn numbered_item(i: int, repo: Seq<char>) -> Seq<char> {
    decimal((i + 1) as nat) + ". **"@ + repo + "**: "@
}

/// `"- [ ] <repo> "`
pub open spec fn checklist_item(repo: Seq<char>) -> Seq<char> {
    "- [ ] "@ + repo + " "@
}

pub open spec fn numbered_items(repos: Seq<Seq<char>>) -> Seq<Seq<char>> {
    Seq::new(repos.len(), |i: int| numbered_item(i, repos[i]))
}

pub open spec fn checklist_items(repos: Seq<Seq<char>>) -> Seq<Seq<char>> {
    Seq::new(repos.len(), |i: int| checklist_item(repos[i]))
}

/// The text of the notes document for a workspace and its repositories.
pub open spec fn notes_document_text(name: Seq<char>, repos: Seq<Seq<char>>) -> Seq<char> {
    "# "@ + name + "\n\n## 요구사항\n-\n\n## 레포별 작업\n"@ + joined(numbered_items(repos), "\n"@)
        + "\n\n## 작업 순서\n\n\n## 진행 상태\n"@ + joined(checklist_items(repos), "\n"@)
        + "\n\n## 참고/메모\n-\n"@
}

/// The text of the assistant document for a workspace whose notes are in `notes_file`.
pub open spec fn assistant_document_text(name: Seq<char>, notes_file: Seq<char>) -> Seq<char> {
    "# Workspace: "@ + name + "\n\n작업 전 반드시 `"@ + notes_file
        + "`를 읽고 현재 요구사항과 진행 상태를 파악하세요.\n각 레포 디렉토리는 독립 git worktree입니다. 커밋/PR은 레포별로 개별 처리하세요.\n"@
}

/// The text of the notes document.
pub fn notes_document(name: &str, repo_names: &Vec<String>) -> (r: String)
    ensures
        r@ == notes_document_text(name@, views(repo_names@)),
{
    let ghost rv = views(repo_names@);
    let mut numbered: Vec<String> = Vec::new();
    let mut checklist: Vec<String> = Vec::new();
    let mut i: usize = 0;
    while i < repo_names.len()
        invariant
            i <= repo_names.len(),
            rv == views(repo_names@),
            views(numbered@) == numbered_items(rv).take(i as int),
            views(checklist@) == checklist_items(rv).take(i as int),
        decreases repo_names.len() - i,
    {
        let mut item = String::new();
        push_decimal(&mut item, i + 1);
        item.append(". **");
        item.append(repo_names[i].as_str());
        item.append("**: ");
        assert(item@ =~= numbered_item(i as int, rv[i as int]));
        let ghost prev_n = numbered@;
        numbered.push(item);
        assert(views(numbered@) =~= views(prev_n).push(numbered_item(i as int, rv[i as int])));
        assert(numbered_items(rv).take(i + 1) =~= numbered_items(rv).take(i as int).push(
            numbered_item(i as int, rv[i as int]),
        ));
        let mut check = owned("- [ ] ");
        check.append(repo_names[i].as_str());
        check.append(" ");
        let ghost prev_c = checklist@;
        checklist.push(check);
        assert(views(checklist@) =~= views(prev_c).push(checklist_item(rv[i as int])));
        assert(checklist_items(rv).take(i + 1) =~= checklist_items(rv).take(i as int).push(
            checklist_item(rv[i as int]),
        ));
        i = i + 1;
    }
    assert(numbered_items(rv).take(repo_names.len() as int) =~= numbered_items(rv));
    assert(checklist_items(rv).take(repo_names.len() as int) =~= checklist_items(rv));
    let mut r = owned("# ");
    r.append(name);
    r.append("\n\n## 요구사항\n-\n\n## 레포별 작업\n");
    r.append(join(&numbered, "\n").as_str());
    r.append("\n\n## 작업 순서\n\n\n## 진행 상태\n");
    r.append(join(&checklist, "\n").as_str());
    r.append("\n\n## 참고/메모\n-\n");
    r
}

/// The text of the assistant document.
pub fn assistant_document(name: &str, notes_file: &str) -> (r: String)
    ensures
        r@ == assistant_document_text(name@, notes_file@),
{
    let mut r = owned("# Workspace: ");
    r.append(name);
    r.append("\n\n작업 전 반드시 `");
    r.append(notes_file);
    r.append(
        "`를 읽고 현재 요구사항과 진행 상태를 파악하세요.\n각 레포 디렉토리는 독립 git worktree입니다. 커밋/PR은 레포별로 개별 처리하세요.\n",
    );
    r
}

/// Where the notes document of a workspace goes: `<workspace_dir>/<file_name>`.
pub fn notes_document_path(workspace_dir: &str, file_name: &str) -> (r: String)
    ensures
        r@ == path_join(workspace_dir@, file_name@),
{
    join_path(workspace_dir, file_name)
}

/// Where the assistant document of a workspace goes: the directory
/// `<workspace_dir>/<dir_name>`, and `<file_name>` inside it.
pub fn assistant_document_paths(workspace_dir: &str, dir_name: &str, file_name: &str) -> (r: (
    String,
    String,
))
    ensures
        r.0@ == path_join(workspace_dir@, dir_name@),
        r.1@ == path_join(path_join(workspace_dir@, dir_name@), file_name@),
{
    let dir = join_path(workspace_dir, dir_name);
    let file = join_path(dir.as_str(), file_name);
    (dir, file)
}

} // verus!
