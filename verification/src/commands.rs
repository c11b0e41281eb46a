//! The decisions and texts of the command-line commands: what a command
//! checks before it touches anything, which branch it uses, what it tells
//! the user and what it sends to GitHub.

use vstd::prelude::*;
use crate::config::{Config, ConfigError};
use crate::path::{join_path, path_join};
use crate::text::{
    decimal, join, joined, owned, push_char, push_decimal, same_text, trim, trimmed,
    views, chars_of,
};
use crate::workspace::{WorkspaceConfig, WorkspaceRepo, WorkspaceRepoView};

verus! {

/// How a piece of status text is colored.
#[derive(PartialEq, Eq, Structural, Clone, Copy, Debug)]
pub enum Tone {
    Green,
    Cyan,
    Yellow,
    Red,
    Gray,
}

#[derive(Debug)]
pub enum CommandError {
    Config(ConfigError),
    AlreadyInitialized { config_path: String },
    WorkspaceExists { name: String, dir: String },
    WorktreeFailed { repo: String, reason: String },
    RepoAlreadyInWorkspace { repo: String, workspace: String },
    RepoNotInWorkspace { repo: String, workspace: String },
    NoRepos { workspace: String },
    EditorFailed { editor: String },
    AssistantFailed { label: String },
    GhMissing,
}

impl CommandError {
    pub open spec fn message_text(&self) -> Seq<char> {
        match self {
            CommandError::Config(e) => e.message_text(),
            CommandError::AlreadyInitialized { config_path } => "Already initialized: "@
                + config_path@,
            CommandError::WorkspaceExists { name, dir } => "Workspace '"@ + name@
                + "' already exists at "@ + dir@,
            CommandError::WorktreeFailed { repo, reason } => "Failed to create worktree for '"@
                + repo@ + "': "@ + reason@,
            CommandError::RepoAlreadyInWorkspace { repo, workspace } => "Repo '"@ + repo@
                + "' is already in workspace '"@ + workspace@ + "'"@,
            CommandError::RepoNotInWorkspace { repo, workspace } => "Repo '"@ + repo@
                + "' is not in workspace '"@ + workspace@ + "'"@,
            CommandError::NoRepos { workspace } => "Workspace '"@ + workspace@ + "' has no repos"@,
            CommandError::EditorFailed { editor } => "Editor '"@ + editor@ + "' exited with error"@,
            CommandError::AssistantFailed { label } => label@ + " exited with error"@,
            CommandError::GhMissing => "gh CLI is not installed. Install it with: brew install gh"@,
        }
    }

    /// The message that describes the error.
    pub fn message(&self) -> (r: String)
        ensures
            r@ == self.message_text(),
    {
        match self {
            CommandError::Config(e) => e.message(),
            CommandError::AlreadyInitialized { config_path } => {
                let mut r = owned("Already initialized: ");
                r.append(config_path.as_str());
                r
            },
            CommandError::WorkspaceExists { name, dir } => {
                let mut r = owned("Workspace '");
                r.append(name.as_str());
                r.append("' already exists at ");
                r.append(dir.as_str());
                r
            },
            CommandError::WorktreeFailed { repo, reason } => {
                let mut r = owned("Failed to create worktree for '");
                r.append(repo.as_str());
                r.append("': ");
                r.append(reason.as_str());
                r
            },
            CommandError::RepoAlreadyInWorkspace { repo, workspace } => {
                let mut r = owned("Repo '");
                r.append(repo.as_str());
                r.append("' is already in workspace '");
                r.append(workspace.as_str());
                r.append("'");
                r
            },
            CommandError::RepoNotInWorkspace { repo, workspace } => {
                let mut r = owned("Repo '");
                r.append(repo.as_str());
                r.append("' is not in workspace '");
                r.append(workspace.as_str());
                r.append("'");
                r
            },
            CommandError::NoRepos { workspace } => {
                let mut r = owned("Workspace '");
                r.append(workspace.as_str());
                r.append("' has no repos");
                r
            },
            CommandError::EditorFailed { editor } => {
                let mut r = owned("Editor '");
                r.append(editor.as_str());
                r.append("' exited with error");
                r
            },
            CommandError::AssistantFailed { label } => {
                let mut r = owned(label.as_str());
                r.append(" exited with error");
                r
            },
            CommandError::GhMissing => owned("gh CLI is not installed. Install it with: brew install gh"),
        }
    }
}

// ---------------------------------------------------------------------------
// init
// ---------------------------------------------------------------------------

/// `iws init` refuses a directory that already has a configuration.
pub fn check_not_initialized(config_path: &str, exists: bool) -> (r: Result<(), CommandError>)
    ensures
        r is Ok == !exists,
        r matches Err(e) ==> e matches CommandError::AlreadyInitialized { config_path: p } && p@
            == config_path@,
{
    if exists {
        Err(CommandError::AlreadyInitialized { config_path: owned(config_path) })
    } else {
        Ok(())
    }
}

/// The project's name: the last component of its directory, or `project`.
pub fn project_name(dir_name: Option<String>) -> (r: String)
    ensures
        r@ == match dir_name {
            Some(n) => n@,
            None => "project"@,
        },
{
    match dir_name {
        Some(n) => n,
        None => owned("project"),
    }
}

// ---------------------------------------------------------------------------
// new
// ---------------------------------------------------------------------------

/// The branch of a new workspace: the one asked for, or `feature/<name>`.
pub open spec fn new_branch_name(name: Seq<char>, branch: Option<Seq<char>>) -> Seq<char> {
    match branch {
        Some(b) => b,
        None => "feature/"@ + name,
    }
}

pub open spec fn opt_view(o: Option<&str>) -> Option<Seq<char>> {
    match o {
        Some(s) => Some(s@),
        None => None,
    }
}

pub fn branch_for_new_workspace(name: &str, branch: Option<&str>) -> (r: String)
    ensures
        r@ == new_branch_name(name@, opt_view(branch)),
{
    match branch {
        Some(b) => owned(b),
        None => {
            let mut r = owned("feature/");
            r.append(name);
            r
        },
    }
}

/// Every repository named is known to the configuration; otherwise the
/// error names the first one that is not.
pub fn check_repos_known(config: &Config, repos: &Vec<String>) -> (r: Result<(), ConfigError>)
    ensures
        r is Ok == (forall|i: int| 0 <= i < repos.len() ==> config.repos@.contains_key(#[trigger] repos@[i]@)),
        r matches Err(e) ==> exists|i: int|
            0 <= i < repos.len() && !config.repos@.contains_key(#[trigger] repos@[i]@) && (forall|
                j: int,
            | 0 <= j < i ==> config.repos@.contains_key(#[trigger] repos@[j]@)) && (e matches ConfigError::UnknownRepo { name: n, available } && n@ == repos@[i]@ && views(available@) == config.repos.names()),
{
    let mut i: usize = 0;
    while i < repos.len()
        invariant
            i <= repos.len(),
            forall|j: int| 0 <= j < i ==> config.repos@.contains_key(#[trigger] repos@[j]@),
        decreases repos.len() - i,
    {
        match config.get_repo(repos[i].as_str()) {
            Ok(_) => {},
            Err(e) => {
                return Err(e);
            },
        }
        i = i + 1;
    }
    Ok(())
}

/// What `iws new` checks before it creates anything, and the branch it then
/// uses: every repository must be known, and the workspace directory must not
/// exist yet.
pub fn plan_new_workspace(
    config: &Config,
    name: &str,
    repos: &Vec<String>,
    branch: Option<&str>,
    workspace_dir: &str,
    workspace_dir_exists: bool,
) -> (r: Result<String, CommandError>)
    ensures
        r is Ok == ((forall|i: int|
            0 <= i < repos.len() ==> config.repos@.contains_key(#[trigger] repos@[i]@))
            && !workspace_dir_exists),
        r matches Ok(b) ==> b@ == new_branch_name(name@, opt_view(branch)),
        r matches Err(e) ==> match e {
            CommandError::Config(ce) => exists|i: int|
                0 <= i < repos.len() && !config.repos@.contains_key(#[trigger] repos@[i]@) && (forall|
                    j: int,
                | 0 <= j < i ==> config.repos@.contains_key(#[trigger] repos@[j]@)) && (
                ce matches ConfigError::UnknownRepo { name: n, available } && n@ == repos@[i]@
                    && views(available@) == config.repos.names()),
            CommandError::WorkspaceExists { name: n, dir } => workspace_dir_exists && n@ == name@
                && dir@ == workspace_dir@ && (forall|i: int|
                0 <= i < repos.len() ==> config.repos@.contains_key(#[trigger] repos@[i]@)),
            _ => false,
        },
{
    match check_repos_known(config, repos) {
        Ok(()) => {},
        Err(e) => {
            return Err(CommandError::Config(e));
        },
    }
    if workspace_dir_exists {
        return Err(CommandError::WorkspaceExists { name: owned(name), dir: owned(workspace_dir) });
    }
    Ok(branch_for_new_workspace(name, branch))
}

/// The error `iws new` gives when a worktree could not be created.
pub fn worktree_failed(repo: &str, reason: &str) -> (e: CommandError)
    ensures
        e matches CommandError::WorktreeFailed { repo: r, reason: why } && r@ == repo@ && why@
            == reason@,
{
    CommandError::WorktreeFailed { repo: owned(repo), reason: owned(reason) }
}

/// The files `iws new` copies into a repository's new worktree: those its
/// configuration names.
pub open spec fn shared_files_of(config: Config, repo: Seq<char>) -> Seq<Seq<char>> {
    if config.repos@.contains_key(repo) {
        config.repos@[repo].shared_files
    } else {
        Seq::empty()
    }
}

/// The worktrees of `names` in a workspace directory, as `(repo, worktree)`.
pub open spec fn worktrees_of(names: Seq<Seq<char>>, ws_dir: Seq<char>) -> Seq<(Seq<char>, Seq<char>)> {
    Seq::new(names.len(), |k: int| (names[k], path_join(ws_dir, names[k])))
}

/// What `iws new` does once it tried to create a repository's worktree.
#[derive(Debug)]
pub enum NewAction {
    /// Copy these shared files into the new worktree, then go on.
    Continue { shared_files: Vec<String> },
    /// Remove these worktrees, given as `(repo, worktree)`, then the
    /// workspace directory, and fail with `error`.
    Rollback { worktrees: Vec<(String, String)>, error: CommandError },
}

/// One step of `iws new`: a created worktree is recorded in the workspace;
/// a failure undoes exactly the worktrees recorded so far.
pub fn new_step(
    config: &Config,
    ws: &mut WorkspaceConfig,
    ws_dir: &str,
    repo_name: &str,
    branch: &str,
    outcome: Result<(), String>,
) -> (a: NewAction)
    ensures
        outcome is Ok ==> final(ws).workspace == old(ws).workspace && final(ws).repos@ == old(
            ws,
        ).repos@.insert(repo_name@, (WorkspaceRepoView { branch: branch@ })) && (
        a matches NewAction::Continue { shared_files } && views(shared_files@) == shared_files_of(
            *config,
            repo_name@,
        )),
        outcome is Ok && config.repos@.contains_key(repo_name@) ==> (
        a matches NewAction::Continue { shared_files } && views(shared_files@)
            == config.repos@[repo_name@].shared_files),
        outcome matches Err(reason) ==> *final(ws) == *old(ws) && (
        a matches NewAction::Rollback { worktrees, error } && pair_views(worktrees@)
            == worktrees_of(old(ws).repos.names(), ws_dir@) && (
        error matches CommandError::WorktreeFailed { repo, reason: why } && repo@ == repo_name@
            && why@ == reason@)),
{
    match outcome {
        Ok(()) => {
            ws.add_repo(repo_name, branch);
            let mut files: Vec<String> = Vec::new();
            match config.get_repo(repo_name) {
                Ok(repo) => {
                    let mut i: usize = 0;
                    while i < repo.shared_files.len()
                        invariant
                            i <= repo.shared_files.len(),
                            views(files@) == views(repo.shared_files@).take(i as int),
                        decreases repo.shared_files.len() - i,
                    {
                        let ghost prev = files@;
                        files.push(repo.shared_files[i].clone());
                        assert(views(files@) =~= views(prev).push(repo.shared_files@[i as int]@));
                        assert(views(repo.shared_files@).take(i + 1) =~= views(
                            repo.shared_files@,
                        ).take(i as int).push(repo.shared_files@[i as int]@));
                        i = i + 1;
                    }
                    assert(views(repo.shared_files@).take(repo.shared_files.len() as int)
                        =~= views(repo.shared_files@));
                },
                Err(_) => {
                    assert(views(files@) =~= Seq::<Seq<char>>::empty());
                },
            }
            NewAction::Continue { shared_files: files }
        },
        Err(reason) => {
            let names = ws.repos.keys();
            let ghost all = ws.repos.names();
            let mut worktrees: Vec<(String, String)> = Vec::new();
            let mut i: usize = 0;
            while i < names.len()
                invariant
                    i <= names.len(),
                    views(names@) == all,
                    pair_views(worktrees@) == worktrees_of(all, ws_dir@).take(i as int),
                decreases names.len() - i,
            {
                assert(names@[i as int]@ == all[i as int]);
                let ghost prev = worktrees@;
                worktrees.push((names[i].clone(), join_path(ws_dir, names[i].as_str())));
                assert(pair_views(worktrees@) =~= pair_views(prev).push(
                    (all[i as int], path_join(ws_dir@, all[i as int])),
                ));
                assert(worktrees_of(all, ws_dir@).take(i + 1) =~= worktrees_of(all, ws_dir@).take(
                    i as int,
                ).push((all[i as int], path_join(ws_dir@, all[i as int]))));
                i = i + 1;
            }
            assert(worktrees_of(all, ws_dir@).take(names.len() as int) =~= worktrees_of(all, ws_dir@));
            NewAction::Rollback { worktrees, error: worktree_failed(repo_name, reason.as_str()) }
        },
    }
}

// ---------------------------------------------------------------------------
// add-repo, remove-repo
// ---------------------------------------------------------------------------

/// The branch for a repository added to a workspace: the one asked for,
/// else the branch of the workspace's first repository (in name order),
/// else `feature/<workspace>`.
pub open spec fn added_repo_branch(
    ws: WorkspaceConfig,
    ws_name: Seq<char>,
    branch: Option<Seq<char>>,
) -> Seq<char> {
    match branch {
        Some(b) => b,
        None => if ws.repos.names().len() > 0 {
            ws.repos@[ws.repos.names()[0]].branch
        } else {
            "feature/"@ + ws_name
        },
    }
}

/// What `iws add-repo` checks, and the branch it then uses: the repository
/// must be known and not yet in the workspace.
pub fn plan_add_repo(
    config: &Config,
    ws: &WorkspaceConfig,
    ws_name: &str,
    repo_name: &str,
    branch: Option<&str>,
) -> (r: Result<String, CommandError>)
    ensures
        r is Ok == (config.repos@.contains_key(repo_name@) && !ws.repos@.contains_key(repo_name@)),
        r matches Ok(b) ==> b@ == added_repo_branch(*ws, ws_name@, opt_view(branch)),
        r matches Err(e) ==> match e {
            CommandError::Config(ce) => !config.repos@.contains_key(repo_name@) && (
            ce matches ConfigError::UnknownRepo { name: n, available } && n@ == repo_name@ && views(
                available@,
            ) == config.repos.names()),
            CommandError::RepoAlreadyInWorkspace { repo, workspace } => config.repos@.contains_key(
                repo_name@,
            ) && ws.repos@.contains_key(repo_name@) && repo@ == repo_name@ && workspace@
                == ws_name@,
            _ => false,
        },
{
    match config.get_repo(repo_name) {
        Ok(_) => {},
        Err(e) => {
            return Err(CommandError::Config(e));
        },
    }
    if ws.repos.contains_key(repo_name) {
        return Err(
            CommandError::RepoAlreadyInWorkspace { repo: owned(repo_name), workspace: owned(ws_name) },
        );
    }
    match branch {
        Some(b) => Ok(owned(b)),
        None => match ws.repos.first_value() {
            Some(r) => Ok(r.branch.clone()),
            None => {
                let mut r = owned("feature/");
                r.append(ws_name);
                Ok(r)
            },
        },
    }
}

/// What `iws remove-repo` checks: the repository must be in the workspace.
pub fn plan_remove_repo(ws: &WorkspaceConfig, ws_name: &str, repo_name: &str) -> (r: Result<
    (),
    CommandError,
>)
    ensures
        r is Ok == ws.repos@.contains_key(repo_name@),
        r matches Err(e) ==> e matches CommandError::RepoNotInWorkspace { repo, workspace } && repo@
            == repo_name@ && workspace@ == ws_name@,
{
    if ws.repos.contains_key(repo_name) {
        Ok(())
    } else {
        Err(CommandError::RepoNotInWorkspace { repo: owned(repo_name), workspace: owned(ws_name) })
    }
}

// ---------------------------------------------------------------------------
// open, assistant
// ---------------------------------------------------------------------------

/// The program that opens an editor: `zed`, `code` and `cursor` are
/// themselves, and any other name is run as given.
pub fn editor_program(editor: &str) -> (r: String)
    ensures
        r@ == editor@,
{
    if same_text(editor, "zed") {
        owned("zed")
    } else if same_text(editor, "code") {
        owned("code")
    } else if same_text(editor, "cursor") {
        owned("cursor")
    } else {
        owned(editor)
    }
}

/// The directories an editor opens for a workspace: one worktree per
/// repository, in name order; a workspace without repositories is refused.
pub fn editor_targets(ws: &WorkspaceConfig, ws_dir: &str, ws_name: &str) -> (r: Result<
    Vec<String>,
    CommandError,
>)
    ensures
        r is Ok == (ws.repos.names().len() > 0),
        r matches Ok(paths) ==> paths.len() == ws.repos.names().len() && forall|i: int|
            0 <= i < paths.len() ==> (#[trigger] paths@[i])@ == path_join(
                ws_dir@,
                ws.repos.names()[i],
            ),
        r matches Err(e) ==> e matches CommandError::NoRepos { workspace } && workspace@
            == ws_name@,
{
    let names = ws.repos.keys();
    let mut paths: Vec<String> = Vec::new();
    let mut i: usize = 0;
    while i < names.len()
        invariant
            i <= names.len(),
            views(names@) == ws.repos.names(),
            paths.len() == i,
            forall|k: int|
                0 <= k < i ==> (#[trigger] paths@[k])@ == path_join(ws_dir@, ws.repos.names()[k]),
        decreases names.len() - i,
    {
        assert(names@[i as int]@ == ws.repos.names()[i as int]);
        paths.push(join_path(ws_dir, names[i].as_str()));
        i = i + 1;
    }
    if paths.len() == 0 {
        return Err(CommandError::NoRepos { workspace: owned(ws_name) });
    }
    Ok(paths)
}

/// `s` quoted for a POSIX shell: inside single quotes, each `'` written as `'\''`.
pub open spec fn shell_quoted(s: Seq<char>) -> Seq<char> {
    seq!['\''] + escape_quotes(s) + seq!['\'']
}

pub open spec fn escape_quotes(s: Seq<char>) -> Seq<char>
    decreases s.len(),
{
    if s.len() == 0 {
        Seq::empty()
    } else if s.last() == '\'' {
        escape_quotes(s.drop_last()) + "'\\''"@
    } else {
        escape_quotes(s.drop_last()).push(s.last())
    }
}

/// What stands for `x` when each `c` is replaced by `with`.
pub open spec fn replacement(x: char, c: char, with: Seq<char>) -> Seq<char> {
    if x == c {
        with
    } else {
        seq![x]
    }
}

/// `s` with each `c` replaced by `with`, as `str::replace` does.
pub open spec fn replaced(s: Seq<char>, c: char, with: Seq<char>) -> Seq<char> {
    s.map_values(|x: char| replacement(x, c, with)).flatten()
}

pub fn shell_escape(s: &str) -> (r: String)
    ensures
        r@ == shell_quoted(s@),
{
    let v = chars_of(s);
    let mut r = String::new();
    push_char(&mut r, '\'');
    let mut i: usize = 0;
    assert(v@.take(0) =~= Seq::<char>::empty());
    while i < v.len()
        invariant
            i <= v.len(),
            v@ == s@,
            r@ == seq!['\''] + escape_quotes(v@.take(i as int)),
        decreases v.len() - i,
    {
        assert(v@.take(i + 1).drop_last() =~= v@.take(i as int));
        assert(v@.take(i + 1).last() == v@[i as int]);
        if v[i] == '\'' {
            r.append("'\\''");
            assert(r@ =~= seq!['\''] + escape_quotes(v@.take(i + 1)));
        } else {
            push_char(&mut r, v[i]);
            assert(r@ =~= seq!['\''] + escape_quotes(v@.take(i + 1)));
        }
        i = i + 1;
    }
    push_char(&mut r, '\'');
    assert(v@.take(v.len() as int) =~= v@);
    assert(r@ =~= shell_quoted(s@));
    r
}

/// The AppleScript that opens a new Warp tab and starts `program` in a workspace.
pub open spec fn assistant_tab_script_text(ws_path: Seq<char>, program: Seq<char>) -> Seq<char> {
    "\ntell application \"Warp\" to activate\ndelay 0.3\ntell application \"System Events\"\n    keystroke \"t\" using command down\n    delay 0.5\n    keystroke \"cd "@
        + shell_quoted(ws_path) + " && "@ + program + "\"\n    key code 36\nend tell\n"@
}

pub fn assistant_tab_script(ws_path: &str, program: &str) -> (r: String)
    ensures
        r@ == assistant_tab_script_text(ws_path@, program@),
{
    let mut r = owned(
        "\ntell application \"Warp\" to activate\ndelay 0.3\ntell application \"System Events\"\n    keystroke \"t\" using command down\n    delay 0.5\n    keystroke \"cd ",
    );
    r.append(shell_escape(ws_path).as_str());
    r.append(" && ");
    r.append(program);
    r.append("\"\n    key code 36\nend tell\n");
    r
}

// ---------------------------------------------------------------------------
// done
// ---------------------------------------------------------------------------

/// Whether an answer to "Continue? [y/N]" is yes: `y` or `Y` once trimmed.
pub open spec fn is_yes(answer: Seq<char>) -> bool {
    trim(answer) == seq!['y'] || trim(answer) == seq!['Y']
}

pub fn confirms(answer: &str) -> (b: bool)
    ensures
        b == is_yes(answer@),
{
    let t = chars_of(trimmed(answer).as_str());
    let b = t.len() == 1 && (t[0] == 'y' || t[0] == 'Y');
    assert(b ==> (t@ =~= seq!['y'] || t@ =~= seq!['Y']));
    b
}

/// A repository's worktree as `iws done` finds it: `(repo, worktree exists,
/// uncommitted changes)`.
pub open spec fn worktree_state_views(v: Seq<(String, bool, usize)>) -> Seq<(Seq<char>, bool, nat)> {
    v.map_values(|p: (String, bool, usize)| (p.0@, p.1, p.2 as nat))
}

pub open spec fn warning_views(v: Seq<(String, usize)>) -> Seq<(Seq<char>, nat)> {
    v.map_values(|p: (String, usize)| (p.0@, p.1 as nat))
}

/// The worktrees `iws done` warns about, in order: those that exist and
/// have uncommitted changes, with the number of changes.
pub open spec fn dirty_worktrees(states: Seq<(Seq<char>, bool, nat)>) -> Seq<(Seq<char>, nat)>
    decreases states.len(),
{
    if states.len() == 0 {
        Seq::empty()
    } else if states.last().1 && states.last().2 > 0 {
        dirty_worktrees(states.drop_last()).push((states.last().0, states.last().2))
    } else {
        dirty_worktrees(states.drop_last())
    }
}

/// What `iws done` warns about before it removes anything, and whether it
/// then asks for confirmation: unless forced, each existing worktree with
/// uncommitted changes is named, and the question is asked when there is one.
pub fn done_warnings(force: bool, repos: &Vec<(String, bool, usize)>) -> (r: (
    Vec<(String, usize)>,
    bool,
))
    ensures
        force ==> r.0@.len() == 0 && !r.1,
        !force ==> warning_views(r.0@) == dirty_worktrees(worktree_state_views(repos@)),
        r.1 == (!force && exists|i: int|
            0 <= i < repos.len() && (#[trigger] repos@[i]).1 && repos@[i].2 > 0),
{
    let mut warnings: Vec<(String, usize)> = Vec::new();
    if force {
        return (warnings, false);
    }
    let ghost states = worktree_state_views(repos@);
    let mut ask = false;
    let mut i: usize = 0;
    assert(states.take(0) =~= Seq::<(Seq<char>, bool, nat)>::empty());
    while i < repos.len()
        invariant
            i <= repos.len(),
            states == worktree_state_views(repos@),
            warning_views(warnings@) == dirty_worktrees(states.take(i as int)),
            ask == exists|j: int| 0 <= j < i && (#[trigger] repos@[j]).1 && repos@[j].2 > 0,
        decreases repos.len() - i,
    {
        assert(states.take(i + 1).drop_last() =~= states.take(i as int));
        assert(states.take(i + 1).last() == states[i as int]);
        let (name, exists, dirty) = (&repos[i].0, repos[i].1, repos[i].2);
        if exists && dirty > 0 {
            let ghost prev = warnings@;
            warnings.push((name.clone(), dirty));
            assert(warning_views(warnings@) =~= warning_views(prev).push((name@, dirty as nat)));
            ask = true;
        }
        i = i + 1;
    }
    assert(states.take(repos.len() as int) =~= states);
    (warnings, ask)
}

/// What `iws done` learned of one repository's worktree.
#[derive(PartialEq, Eq, Structural, Clone, Copy, Debug)]
pub enum DoneEvent {
    /// The worktree is not on disk.
    Missing,
    /// The repository's own path could not be found.
    PathFailed,
    /// The worktree was removed.
    Removed,
    /// Removing the worktree failed.
    RemoveFailed,
}

/// What `iws done` does next for a repository.
#[derive(Debug)]
pub enum DoneAction {
    /// Go on with the next repository.
    Next,
    /// Delete the worktree's branch (kept when git refuses), then go on.
    DeleteBranch(String),
}

/// The branch of a repository is deleted only once its worktree is removed.
pub fn done_step(repo: &WorkspaceRepo, event: DoneEvent) -> (a: DoneAction)
    ensures
        event is Removed ==> (a matches DoneAction::DeleteBranch(b) && b@ == repo.branch@),
        !(event is Removed) ==> a is Next,
{
    match event {
        DoneEvent::Removed => DoneAction::DeleteBranch(repo.branch.clone()),
        _ => DoneAction::Next,
    }
}

// ---------------------------------------------------------------------------
// list, status
// ---------------------------------------------------------------------------

/// The one-word state of a worktree in `iws list`.
pub open spec fn list_status_text(ahead: nat, dirty: nat) -> Seq<char> {
    if ahead == 0 && dirty == 0 {
        "clean"@
    } else if dirty == 0 {
        decimal(ahead) + "↑"@
    } else if ahead == 0 {
        decimal(dirty) + "✎"@
    } else {
        decimal(ahead) + "↑ "@ + decimal(dirty) + "✎"@
    }
}

pub open spec fn list_status_tone(ahead: nat, dirty: nat) -> Tone {
    if ahead == 0 && dirty == 0 {
        Tone::Green
    } else if dirty == 0 {
        Tone::Cyan
    } else {
        Tone::Yellow
    }
}

pub fn list_status(ahead: usize, dirty: usize) -> (r: (String, Tone))
    ensures
        r.0@ == list_status_text(ahead as nat, dirty as nat),
        r.1 == list_status_tone(ahead as nat, dirty as nat),
{
    if ahead == 0 && dirty == 0 {
        (owned("clean"), Tone::Green)
    } else if dirty == 0 {
        let mut r = String::new();
        push_decimal(&mut r, ahead);
        r.append("↑");
        assert(r@ =~= decimal(ahead as nat) + "↑"@);
        (r, Tone::Cyan)
    } else if ahead == 0 {
        let mut r = String::new();
        push_decimal(&mut r, dirty);
        r.append("✎");
        assert(r@ =~= decimal(dirty as nat) + "✎"@);
        (r, Tone::Yellow)
    } else {
        let mut r = String::new();
        push_decimal(&mut r, ahead);
        r.append("↑ ");
        push_decimal(&mut r, dirty);
        r.append("✎");
        assert(r@ =~= decimal(ahead as nat) + "↑ "@ + decimal(dirty as nat) + "✎"@);
        (r, Tone::Yellow)
    }
}

/// The parts of a worktree's state in `iws status`: the commits ahead, the
/// modified files, or `clean` when there are neither.
pub open spec fn status_parts_text(ahead: nat, dirty: nat) -> Seq<(Seq<char>, Tone)> {
    let a: Seq<(Seq<char>, Tone)> = if ahead > 0 {
        seq![(decimal(ahead) + " commits ahead"@, Tone::Cyan)]
    } else {
        Seq::empty()
    };
    let d: Seq<(Seq<char>, Tone)> = if dirty > 0 {
        seq![
            (decimal(dirty) + " file"@ + (if dirty == 1 {
                ""@
            } else {
                "s"@
            }) + " modified"@, Tone::Yellow),
        ]
    } else {
        Seq::empty()
    };
    if ahead == 0 && dirty == 0 {
        seq![("clean"@, Tone::Green)]
    } else {
        a + d
    }
}

pub open spec fn tone_views(v: Seq<(String, Tone)>) -> Seq<(Seq<char>, Tone)> {
    v.map_values(|p: (String, Tone)| (p.0@, p.1))
}

pub fn status_parts(ahead: usize, dirty: usize) -> (r: Vec<(String, Tone)>)
    ensures
        tone_views(r@) == status_parts_text(ahead as nat, dirty as nat),
{
    let mut r: Vec<(String, Tone)> = Vec::new();
    if ahead > 0 {
        let mut s = String::new();
        push_decimal(&mut s, ahead);
        s.append(" commits ahead");
        r.push((s, Tone::Cyan));
    }
    if dirty > 0 {
        let mut s = String::new();
        push_decimal(&mut s, dirty);
        s.append(" file");
        if dirty != 1 {
            s.append("s");
        } else {
            proof {
                reveal_strlit("");
            }
            assert(s@ =~= s@ + ""@);
        }
        s.append(" modified");
        r.push((s, Tone::Yellow));
    }
    if r.len() == 0 {
        r.push((owned("clean"), Tone::Green));
    }
    assert(tone_views(r@) =~= status_parts_text(ahead as nat, dirty as nat));
    r
}

// ---------------------------------------------------------------------------
// pr
// ---------------------------------------------------------------------------

/// `names` without `name`, order kept.
pub open spec fn names_except(names: Seq<Seq<char>>, name: Seq<char>) -> Seq<Seq<char>>
    decreases names.len(),
{
    if names.len() == 0 {
        Seq::empty()
    } else if names.last() == name {
        names_except(names.drop_last(), name)
    } else {
        names_except(names.drop_last(), name).push(names.last())
    }
}

/// The other repositories of a workspace, in name order.
pub fn other_repos(ws: &WorkspaceConfig, repo_name: &str) -> (r: Vec<String>)
    ensures
        views(r@) == names_except(ws.repos.names(), repo_name@),
{
    let names = ws.repos.keys();
    let ghost all = ws.repos.names();
    let mut r: Vec<String> = Vec::new();
    let mut i: usize = 0;
    assert(all.take(0) =~= Seq::<Seq<char>>::empty());
    while i < names.len()
        invariant
            i <= names.len(),
            views(names@) == all,
            views(r@) == names_except(all.take(i as int), repo_name@),
        decreases names.len() - i,
    {
        assert(names@[i as int]@ == all[i as int]);
        assert(all.take(i + 1).drop_last() =~= all.take(i as int));
        assert(all.take(i + 1).last() == all[i as int]);
        if !same_text(names[i].as_str(), repo_name) {
            let ghost prev = r@;
            r.push(names[i].clone());
            assert(views(r@) =~= views(prev).push(all[i as int]));
        }
        i = i + 1;
    }
    assert(all.take(names.len() as int) =~= all);
    r
}

/// The title of a workspace's PR in one repository.
pub open spec fn pr_title_text(custom: Option<Seq<char>>, name: Seq<char>, repo: Seq<char>) -> Seq<
    char,
> {
    let title = match custom {
        Some(t) => t,
        None => name,
    };
    title + " ("@ + repo + ")"@
}

pub fn pr_title(custom: Option<&str>, name: &str, repo: &str) -> (r: String)
    ensures
        r@ == pr_title_text(opt_view(custom), name@, repo@),
{
    let mut r = match custom {
        Some(t) => owned(t),
        None => owned(name),
    };
    r.append(" (");
    r.append(repo);
    r.append(")");
    r
}

/// The section that lists the workspace's other repositories, on `branch`.
pub open spec fn related_repos_section(others: Seq<Seq<char>>, branch: Seq<char>) -> Seq<char> {
    if others.len() == 0 {
        Seq::empty()
    } else {
        "\n\n## Related repos\n"@ + joined(
            Seq::new(others.len(), |i: int| "- `"@ + others[i] + "` (branch: `"@ + branch + "`)"@),
            "\n"@,
        )
    }
}

/// The section that links the PRs already created, as `(repo, url)`.
pub open spec fn related_prs_section(created: Seq<(Seq<char>, Seq<char>)>) -> Seq<char> {
    if created.len() == 0 {
        Seq::empty()
    } else {
        "\n\n## Related PRs\n"@ + joined(
            Seq::new(created.len(), |i: int| "- "@ + created[i].0 + ": "@ + created[i].1),
            "\n"@,
        )
    }
}

/// The body of a workspace's PR in one repository.
pub open spec fn pr_body_text(
    custom: Option<Seq<char>>,
    name: Seq<char>,
    branch: Seq<char>,
    others: Seq<Seq<char>>,
    created: Seq<(Seq<char>, Seq<char>)>,
) -> Seq<char> {
    let head = match custom {
        Some(b) => b,
        None => "Workspace: `"@ + name + "`\nBranch: `"@ + branch + "`"@,
    };
    head + related_repos_section(others, branch) + related_prs_section(created)
}

pub open spec fn pair_views(v: Seq<(String, String)>) -> Seq<(Seq<char>, Seq<char>)> {
    v.map_values(|p: (String, String)| (p.0@, p.1@))
}

pub fn pr_body(
    custom: Option<&str>,
    name: &str,
    branch: &str,
    others: &Vec<String>,
    created: &Vec<(String, String)>,
) -> (r: String)
    ensures
        r@ == pr_body_text(opt_view(custom), name@, branch@, views(others@), pair_views(created@)),
{
    let mut r = match custom {
        Some(b) => owned(b),
        None => {
            let mut s = owned("Workspace: `");
            s.append(name);
            s.append("`\nBranch: `");
            s.append(branch);
            s.append("`");
            s
        },
    };
    if others.len() > 0 {
        let ghost ov = views(others@);
        let ghost items = Seq::new(
            ov.len(),
            |i: int| "- `"@ + ov[i] + "` (branch: `"@ + branch@ + "`)"@,
        );
        let mut lines: Vec<String> = Vec::new();
        let mut i: usize = 0;
        while i < others.len()
            invariant
                i <= others.len(),
                ov == views(others@),
                items == Seq::new(
                    ov.len(),
                    |i: int| "- `"@ + ov[i] + "` (branch: `"@ + branch@ + "`)"@,
                ),
                views(lines@) == items.take(i as int),
            decreases others.len() - i,
        {
            let mut s = owned("- `");
            s.append(others[i].as_str());
            s.append("` (branch: `");
            s.append(branch);
            s.append("`)");
            let ghost prev = lines@;
            lines.push(s);
            assert(views(lines@) =~= views(prev).push(items[i as int]));
            assert(items.take(i + 1) =~= items.take(i as int).push(items[i as int]));
            i = i + 1;
        }
        assert(items.take(others.len() as int) =~= items);
        r.append("\n\n## Related repos\n");
        r.append(join(&lines, "\n").as_str());
    }
    if created.len() > 0 {
        let ghost cv = pair_views(created@);
        let ghost items = Seq::new(cv.len(), |i: int| "- "@ + cv[i].0 + ": "@ + cv[i].1);
        let mut lines: Vec<String> = Vec::new();
        let mut i: usize = 0;
        while i < created.len()
            invariant
                i <= created.len(),
                cv == pair_views(created@),
                items == Seq::new(cv.len(), |i: int| "- "@ + cv[i].0 + ": "@ + cv[i].1),
                views(lines@) == items.take(i as int),
            decreases created.len() - i,
        {
            let mut s = owned("- ");
            s.append(created[i].0.as_str());
            s.append(": ");
            s.append(created[i].1.as_str());
            let ghost prev = lines@;
            lines.push(s);
            assert(views(lines@) =~= views(prev).push(items[i as int]));
            assert(items.take(i + 1) =~= items.take(i as int).push(items[i as int]));
            i = i + 1;
        }
        assert(items.take(created.len() as int) =~= items);
        r.append("\n\n## Related PRs\n");
        r.append(join(&lines, "\n").as_str());
    }
    assert(r@ =~= pr_body_text(
        opt_view(custom),
        name@,
        branch@,
        views(others@),
        pair_views(created@),
    ));
    r
}

/// The repository a workspace's `i`-th PR is for, in name order.
pub open spec fn pr_repo(ws: WorkspaceConfig, i: int) -> Seq<char> {
    ws.repos.names()[i]
}

/// The branch of the workspace's `i`-th repository.
pub open spec fn pr_branch(ws: WorkspaceConfig, i: int) -> Seq<char> {
    ws.repos@[ws.repos.names()[i]].branch
}

/// What `iws pr` learned of one repository.
#[derive(Debug)]
pub enum PrEvent {
    /// The worktree is not on disk.
    Missing,
    /// The worktree is on disk.
    Present,
    /// Pushing the branch failed.
    PushFailed,
    /// The branch was pushed.
    Pushed,
    /// The PR was created, at this URL.
    Created(String),
    /// Creating the PR failed.
    CreateFailed,
}

/// What `iws pr` does next.
#[derive(Debug)]
pub enum PrAction {
    /// Go on with the next repository.
    Next,
    /// Push the worktree's branch.
    Push { branch: String },
    /// Create the PR with this title and body.
    CreatePr { title: String, body: String },
}

/// One step of `iws pr` for the workspace's `i`-th repository. `created`
/// holds the PRs created so far, as `(repo, url)`: each new body links them,
/// and a PR joins them only once it is created. A missing worktree, a failed
/// push and a failed creation are each skipped.
pub fn pr_step(
    ws: &WorkspaceConfig,
    name: &str,
    title: Option<&str>,
    body: Option<&str>,
    i: usize,
    created: &mut Vec<(String, String)>,
    event: PrEvent,
) -> (a: PrAction)
    requires
        i < ws.repos.names().len(),
    ensures
        !(event is Created) ==> final(created)@ == old(created)@,
        event is Missing || event is PushFailed || event is CreateFailed ==> a is Next,
        event is Present ==> (a matches PrAction::Push { branch } && branch@ == pr_branch(
            *ws,
            i as int,
        )),
        event is Pushed ==> (a matches PrAction::CreatePr { title: t, body: b } && t@
            == pr_title_text(opt_view(title), name@, pr_repo(*ws, i as int)) && b@ == pr_body_text(
            opt_view(body),
            name@,
            pr_branch(*ws, i as int),
            names_except(ws.repos.names(), pr_repo(*ws, i as int)),
            pair_views(old(created)@),
        )),
        event matches PrEvent::Created(url) ==> a is Next && pair_views(final(created)@)
            == pair_views(old(created)@).push((pr_repo(*ws, i as int), url@)),
{
    let (repo_name, repo) = ws.repos.entry(i);
    match event {
        PrEvent::Present => PrAction::Push { branch: repo.branch.clone() },
        PrEvent::Pushed => {
            let others = other_repos(ws, repo_name.as_str());
            let t = pr_title(title, name, repo_name.as_str());
            let b = pr_body(body, name, repo.branch.as_str(), &others, created);
            PrAction::CreatePr { title: t, body: b }
        },
        PrEvent::Created(url) => {
            let ghost prev = created@;
            created.push((repo_name.clone(), url));
            assert(pair_views(created@) =~= pair_views(prev).push((repo_name@, created@.last().1@)));
            PrAction::Next
        },
        _ => PrAction::Next,
    }
}

} // verus!
