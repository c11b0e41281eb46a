//! A workspace: a named set of worktrees, one per repository, each on its branch.

use vstd::prelude::*;
use crate::name_map::{NameMap, sorted, str_le, str_less, text_less, lemma_str_less_total, lemma_str_less_transitive};
use crate::path::{join_path, path_join};
use crate::text::{hidden_name, is_hidden, owned, views};
use crate::config::workspaces_dir_name;

verus! {

broadcast use vstd::seq_lib::group_to_multiset_ensures;

#[derive(Debug, Clone)]
pub struct WorkspaceMeta {
    pub name: String,
    pub created: String,
}

#[derive(Debug, Clone)]
pub struct WorkspaceRepo {
    pub branch: String,
}

pub struct WorkspaceRepoView {
    pub branch: Seq<char>,
}

impl View for WorkspaceRepo {
    type V = WorkspaceRepoView;

    open spec fn view(&self) -> WorkspaceRepoView {
        WorkspaceRepoView { branch: self.branch@ }
    }
}

#[derive(Debug)]
pub struct WorkspaceConfig {
    pub workspace: WorkspaceMeta,
    pub repos: NameMap<WorkspaceRepo>,
}

/// The name of the file that records a workspace inside its directory.
pub open spec fn workspace_file_name() -> Seq<char> {
    ".workspace.toml"@
}

/// The names kept from `(name, has_config)` candidates: not hidden, with a
/// workspace file, in the order given.
pub open spec fn kept_names(c: Seq<(Seq<char>, bool)>) -> Seq<Seq<char>>
    decreases c.len(),
{
    if c.len() == 0 {
        Seq::empty()
    } else if !is_hidden(c.last().0) && c.last().1 {
        kept_names(c.drop_last()).push(c.last().0)
    } else {
        kept_names(c.drop_last())
    }
}

pub open spec fn candidate_view(c: (String, bool)) -> (Seq<char>, bool) {
    (c.0@, c.1)
}

impl WorkspaceConfig {
    /// A new workspace record with no repositories, created on `created`
    /// (the caller reads today's date from the clock).
    pub fn new(name: &str, created: String) -> (w: Self)
        ensures
            w.workspace.name@ == name@,
            w.workspace.created == created,
            w.repos@ == Map::<Seq<char>, WorkspaceRepoView>::empty(),
    {
        WorkspaceConfig {
            workspace: WorkspaceMeta { name: owned(name), created },
            repos: NameMap::new(),
        }
    }

    /// Records that the workspace holds `repo_name` on `branch` (replacing an earlier record).
    pub fn add_repo(&mut self, repo_name: &str, branch: &str)
        ensures
            final(self).workspace == old(self).workspace,
            final(self).repos@ == old(self).repos@.insert(
                repo_name@,
                WorkspaceRepoView { branch: branch@ },
            ),
    {
        let repo = WorkspaceRepo { branch: owned(branch) };
        self.repos.insert(owned(repo_name), repo);
    }

    /// Forgets `repo_name`; tells whether the workspace held it.
    pub fn remove_repo(&mut self, repo_name: &str) -> (removed: bool)
        ensures
            final(self).workspace == old(self).workspace,
            final(self).repos@ == old(self).repos@.remove(repo_name@),
            removed == old(self).repos@.contains_key(repo_name@),
    {
        self.repos.remove(repo_name).is_some()
    }

    /// `<root>/.workspaces/<name>`
    pub fn workspace_dir(root: &str, name: &str) -> (r: String)
        ensures
            r@ == path_join(path_join(root@, workspaces_dir_name()), name@),
    {
        let dir = join_path(root, ".workspaces");
        join_path(dir.as_str(), name)
    }

    /// `<root>/.workspaces/<name>/.workspace.toml`
    pub fn config_path(root: &str, name: &str) -> (r: String)
        ensures
            r@ == path_join(
                path_join(path_join(root@, workspaces_dir_name()), name@),
                workspace_file_name(),
            ),
    {
        let dir = Self::workspace_dir(root, name);
        join_path(dir.as_str(), ".workspace.toml")
    }

    /// The names of the workspaces, from the directories of `.workspaces`
    /// given as `(name, has a workspace file)`: those that are not hidden and
    /// have the file, sorted.
    pub fn list_all(candidates: Vec<(String, bool)>) -> (names: Vec<String>)
        ensures
            sorted(views(names@)),
            views(names@).to_multiset() == kept_names(
                candidates@.map_values(|c: (String, bool)| candidate_view(c)),
            ).to_multiset(),
    {
        let ghost cv = candidates@.map_values(|c: (String, bool)| candidate_view(c));
        let mut names: Vec<String> = Vec::new();
        let mut i: usize = 0;
        assert(cv.take(0) =~= Seq::<(Seq<char>, bool)>::empty());
        while i < candidates.len()
            invariant
                i <= candidates.len(),
                cv == candidates@.map_values(|c: (String, bool)| candidate_view(c)),
                sorted(views(names@)),
                views(names@).to_multiset() == kept_names(cv.take(i as int)).to_multiset(),
            decreases candidates.len() - i,
        {
            let name = &candidates[i].0;
            assert(cv.take(i + 1).drop_last() =~= cv.take(i as int));
            assert(cv.take(i + 1).last() == candidate_view(candidates@[i as int]));
            if !hidden_name(name.as_str()) && candidates[i].1 {
                insert_sorted(&mut names, name.clone());
            }
            i = i + 1;
        }
        assert(cv.take(candidates.len() as int) =~= cv);
        names
    }
}

/// Puts `name` into the sorted list `names`, after the names not greater than it.
fn insert_sorted(names: &mut Vec<String>, name: String)
    requires
        sorted(views(old(names)@)),
    ensures
        sorted(views(final(names)@)),
        views(final(names)@).to_multiset() == views(old(names)@).to_multiset().insert(name@),
{
    let ghost before = views(names@);
    let mut p: usize = 0;
    while p < names.len() && !text_less(name.as_str(), names[p].as_str())
        invariant
            p <= names.len(),
            views(names@) == before,
            forall|k: int| 0 <= k < p ==> str_le(#[trigger] before[k], name@),
        decreases names.len() - p,
    {
        proof {
            lemma_str_less_total(name@, before[p as int]);
        }
        p = p + 1;
    }
    let ghost nv = name@;
    names.insert(p, name);
    assert(views(names@) =~= before.insert(p as int, nv));
    proof {
        let after = views(names@);
        assert forall|a: int, b: int| 0 <= a < b < after.len() implies str_le(
            #[trigger] after[a],
            #[trigger] after[b],
        ) by {
            if b < p {
                assert(after[a] == before[a] && after[b] == before[b]);
            } else if b == p {
                assert(after[a] == before[a]);
            } else if a < p {
                assert(after[a] == before[a] && after[b] == before[b - 1]);
                // name < before[p] <= before[b - 1]
                assert(str_less(nv, before[p as int]));
                if b - 1 > p {
                    assert(str_le(before[p as int], before[b - 1]));
                    if before[p as int] != before[b - 1] {
                        lemma_str_less_transitive(nv, before[p as int], before[b - 1]);
                    }
                }
                assert(str_less(nv, before[b - 1]));
                if before[a] != nv {
                    lemma_str_less_transitive(before[a], nv, before[b - 1]);
                }
            } else if a == p {
                assert(after[b] == before[b - 1]);
                assert(str_less(nv, before[p as int]));
                if b - 1 > p {
                    assert(str_le(before[p as int], before[b - 1]));
                    if before[p as int] != before[b - 1] {
                        lemma_str_less_transitive(nv, before[p as int], before[b - 1]);
                    }
                }
            } else {
                assert(after[a] == before[a - 1] && after[b] == before[b - 1]);
            }
        }
        vstd::seq_lib::to_multiset_insert(before, p as int, nv);
    }
}

} // verus!
