//! The project configuration: the project and the repositories it knows,
//! ordered by name.

use vstd::prelude::*;
use crate::name_map::NameMap;
use crate::path::{join_path, path_join};
use crate::text::{
    hidden_name, is_hidden, join, joined, owned, strip_prefix_or_keep,
    strip_prefix_or_keep_str, trim, trimmed, views,
};

verus! {

/// The name of the directory that holds the configuration and the workspaces.
pub open spec fn workspaces_dir_name() -> Seq<char> {
    ".workspaces"@
}

#[derive(Debug, Clone)]
pub struct ProjectConfig {
    pub name: String,
    pub root: String,
}

#[derive(Debug, Clone)]
pub struct RepoConfig {
    pub path: String,
    pub default_branch: String,
    /// Files to copy from the main checkout into each worktree (e.g. `.env`).
    pub shared_files: Vec<String>,
}

pub struct RepoConfigView {
    pub path: Seq<char>,
    pub default_branch: Seq<char>,
    pub shared_files: Seq<Seq<char>>,
}

impl View for RepoConfig {
    type V = RepoConfigView;

    open spec fn view(&self) -> RepoConfigView {
        RepoConfigView {
            path: self.path@,
            default_branch: self.default_branch@,
            shared_files: views(self.shared_files@),
        }
    }
}

#[derive(Debug)]
pub struct Config {
    pub project: ProjectConfig,
    pub repos: NameMap<RepoConfig>,
}

#[derive(Debug)]
pub enum ConfigError {
    /// A repository name that the configuration does not hold, with the names it does hold.
    UnknownRepo { name: String, available: Vec<String> },
    /// A repository directory that is not on disk.
    RepoPathMissing { path: String },
}

impl ConfigError {
    pub open spec fn message_text(&self) -> Seq<char> {
        match self {
            ConfigError::UnknownRepo { name, available } => "Unknown repo '"@ + name@
                + "'. Available: "@ + joined(views(available@), ", "@),
            ConfigError::RepoPathMissing { path } => "Repo path does not exist: "@ + path@,
        }
    }

    /// The message that describes the error.
    pub fn message(&self) -> (r: String)
        ensures
            r@ == self.message_text(),
    {
        match self {
            ConfigError::UnknownRepo { name, available } => {
                let mut r = owned("Unknown repo '");
                r.append(name.as_str());
                r.append("'. Available: ");
                let list = join(available, ", ");
                r.append(list.as_str());
                r
            },
            ConfigError::RepoPathMissing { path } => {
                let mut r = owned("Repo path does not exist: ");
                r.append(path.as_str());
                r
            },
        }
    }
}

/// The repository entry that detection creates for a directory.
pub open spec fn detected_repo(name: Seq<char>, branch: Option<Seq<char>>) -> RepoConfigView {
    RepoConfigView {
        path: name,
        default_branch: match branch {
            Some(b) => b,
            None => "main"@,
        },
        shared_files: Seq::empty(),
    }
}

pub open spec fn found_view(f: (String, Option<String>)) -> (Seq<char>, Option<Seq<char>>) {
    (
        f.0@,
        match f.1 {
            Some(b) => Some(b@),
            None => None,
        },
    )
}

/// The repositories detected from `found`, in the order they were found.
pub open spec fn detected_repos(found: Seq<(Seq<char>, Option<Seq<char>>)>) -> Map<
    Seq<char>,
    RepoConfigView,
>
    decreases found.len(),
{
    if found.len() == 0 {
        Map::empty()
    } else {
        detected_repos(found.drop_last()).insert(
            found.last().0,
            detected_repo(found.last().0, found.last().1),
        )
    }
}

impl Config {
    /// `<root>/.workspaces/config.toml`
    pub fn config_path(root: &str) -> (r: String)
        ensures
            r@ == path_join(path_join(root@, workspaces_dir_name()), "config.toml"@),
    {
        let dir = join_path(root, ".workspaces");
        join_path(dir.as_str(), "config.toml")
    }

    /// `<root>/.workspaces`
    pub fn workspaces_dir(root: &str) -> (r: String)
        ensures
            r@ == path_join(root@, workspaces_dir_name()),
    {
        join_path(root, ".workspaces")
    }

    /// Whether a directory entry of the project root is looked at when
    /// repositories are detected: hidden entries (and so `.workspaces`) are not.
    pub fn scans_entry(name: &str) -> (b: bool)
        ensures
            b == !is_hidden(name@),
    {
        !hidden_name(name)
    }

    /// The repositories of a project, from the git checkouts found in its
    /// root: each with its directory name, its detected default branch, and
    /// `main` where none was detected.
    pub fn detect_repos(found: Vec<(String, Option<String>)>) -> (r: NameMap<RepoConfig>)
        ensures
            r@ == detected_repos(found@.map_values(|f: (String, Option<String>)| found_view(f))),
    {
        let ghost fv = found@.map_values(|f: (String, Option<String>)| found_view(f));
        let mut repos: NameMap<RepoConfig> = NameMap::new();
        let mut i: usize = 0;
        let n = found.len();
        assert(fv.take(0) =~= Seq::<(Seq<char>, Option<Seq<char>>)>::empty());
        while i < n
            invariant
                i <= n == found.len(),
                fv.len() == n,
                forall|k: int| 0 <= k < n ==> #[trigger] fv[k] == found_view(found@[k]),
                repos@ == detected_repos(fv.take(i as int)),
            decreases n - i,
        {
            let (name, branch) = (found[i].0.clone(), found[i].1.clone());
            assert(found_view((name, branch)) == fv[i as int]);
            let default_branch = match branch {
                Some(b) => b,
                None => owned("main"),
            };
            let repo = RepoConfig {
                path: name.clone(),
                default_branch,
                shared_files: Vec::new(),
            };
            assert(views(repo.shared_files@) =~= Seq::<Seq<char>>::empty());
            repos.insert(name, repo);
            assert(fv.take(i + 1).drop_last() =~= fv.take(i as int));
            i = i + 1;
        }
        assert(fv.take(n as int) =~= fv);
        repos
    }

    /// The entry of a repository, or the error that names the known ones.
    pub fn get_repo(&self, name: &str) -> (r: Result<&RepoConfig, ConfigError>)
        ensures
            r is Ok == self.repos@.contains_key(name@),
            r matches Ok(repo) ==> repo@ == self.repos@[name@],
            r matches Err(e) ==> e matches ConfigError::UnknownRepo { name: n, available } && n@
                == name@ && views(available@) == self.repos.names(),
    {
        match self.repos.get(name) {
            Some(repo) => Ok(repo),
            None => Err(ConfigError::UnknownRepo { name: owned(name), available: self.repos.keys() }),
        }
    }

    /// Where a repository lives: its path joined to the project root.
    /// (Whether it is on disk is for `require_existing` to say.)
    pub fn repo_abs_path(&self, repo_name: &str) -> (r: Result<String, ConfigError>)
        ensures
            r is Ok == self.repos@.contains_key(repo_name@),
            r matches Ok(p) ==> p@ == path_join(self.project.root@, self.repos@[repo_name@].path),
            r matches Err(e) ==> e matches ConfigError::UnknownRepo { name: n, available } && n@
                == repo_name@ && views(available@) == self.repos.names(),
    {
        let repo = self.get_repo(repo_name)?;
        Ok(join_path(self.project.root.as_str(), repo.path.as_str()))
    }

    /// A repository path that must be on disk, given whether it is.
    pub fn require_existing(path: String, exists: bool) -> (r: Result<String, ConfigError>)
        ensures
            r is Ok == exists,
            r matches Ok(p) ==> p == path,
            r matches Err(e) ==> e matches ConfigError::RepoPathMissing { path: p } && p == path,
    {
        if exists {
            Ok(path)
        } else {
            Err(ConfigError::RepoPathMissing { path })
        }
    }

    /// The default branch of a repository as the workspace views report it:
    /// the configured one, or `main` for a repository the configuration lacks.
    pub fn default_branch_of(&self, repo_name: &str) -> (r: String)
        ensures
            r@ == if self.repos@.contains_key(repo_name@) {
                self.repos@[repo_name@].default_branch
            } else {
                "main"@
            },
    {
        match self.repos.get(repo_name) {
            Some(repo) => repo.default_branch.clone(),
            None => owned("main"),
        }
    }
}

/// The default branch that `git symbolic-ref refs/remotes/origin/HEAD --short`
/// reports: its trimmed output without the `origin/` prefix, when it succeeded.
pub open spec fn default_branch_report(success: bool, stdout: Seq<char>) -> Option<Seq<char>> {
    if success {
        Some(strip_prefix_or_keep(trim(stdout), "origin/"@))
    } else {
        None
    }
}

pub fn parse_default_branch(success: bool, stdout: &str) -> (r: Option<String>)
    ensures
        r matches Some(b) ==> default_branch_report(success, stdout@) == Some(b@),
        r is None ==> default_branch_report(success, stdout@) is None,
{
    if success {
        let t = trimmed(stdout);
        Some(strip_prefix_or_keep_str(t.as_str(), "origin/"))
    } else {
        None
    }
}

} // verus!
