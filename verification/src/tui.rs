//! The interactive browser's state and how it reacts: to a key, the state
//! changes and an effect may be asked for (open an editor, create or remove
//! a workspace, reload the list); the caller performs the effect and reports
//! how it went.

use vstd::prelude::*;
use crate::config::Config;
use crate::text::{chars_of, owned, push_char, string_from_range, views};

verus! {

/// `char::is_alphanumeric`: the Unicode `Alphabetic` or `Numeric` property.
pub uninterp spec fn alphanumeric(c: char) -> bool;

/// ASCII letters and digits.
pub open spec fn ascii_alphanumeric(c: char) -> bool {
    let u = c as u32;
    (48 <= u <= 57) || (65 <= u <= 90) || (97 <= u <= 122)
}

/// `char::is_alphanumeric`. Its result is named by `alphanumeric`; for an
/// ASCII character it is a letter or a digit (what the Unicode tables give
/// beyond ASCII is not stated).
#[verifier::external_body]
fn is_alphanumeric(c: char) -> (b: bool)
    ensures
        b == alphanumeric(c),
        (c as u32) < 128 ==> b == ascii_alphanumeric(c),
{
    c.is_alphanumeric()
}

/// The characters that a new workspace's name may hold.
pub open spec fn name_char_allowed(c: char) -> bool {
    alphanumeric(c) || c == '-' || c == '_'
}

#[derive(Debug, Clone)]
pub struct RepoStatus {
    pub name: String,
    pub branch: String,
    pub ahead: usize,
    pub dirty: usize,
    pub exists: bool,
}

impl RepoStatus {
    /// A repository as the browser lists it: with its `(ahead, dirty)` counts
    /// when its worktree is on disk, and with zero counts when it is missing.
    pub fn observed(name: String, branch: String, counts: Option<(usize, usize)>) -> (r: RepoStatus)
        ensures
            r.name == name,
            r.branch == branch,
            r.exists == counts is Some,
            r.ahead == (match counts {
                Some(c) => c.0,
                None => 0,
            }),
            r.dirty == (match counts {
                Some(c) => c.1,
                None => 0,
            }),
    {
        match counts {
            Some((ahead, dirty)) => RepoStatus { name, branch, ahead, dirty, exists: true },
            None => RepoStatus { name, branch, ahead: 0, dirty: 0, exists: false },
        }
    }
}

#[derive(Debug, Clone)]
pub struct WorkspaceInfo {
    pub name: String,
    pub created: String,
    pub repos: Vec<RepoStatus>,
}

#[derive(Debug)]
pub enum Action {
    Done(String),
}

#[derive(Debug)]
pub enum InputMode {
    Normal,
    /// Typing the name of a new workspace.
    NewName,
    /// Choosing the repositories of a new workspace.
    NewRepos,
    /// Waiting for `y` to go ahead with an action.
    Confirm(Action),
}

#[derive(PartialEq, Eq, Structural, Clone, Copy, Debug)]
pub enum KeyCode {
    Char(char),
    Esc,
    Enter,
    Backspace,
    Up,
    Down,
    Other,
}

#[derive(PartialEq, Eq, Structural, Clone, Copy, Debug)]
pub struct Key {
    pub code: KeyCode,
    /// Whether Control was held.
    pub ctrl: bool,
}

/// What the caller is asked to do after a key.
#[derive(Debug)]
pub enum Effect {
    Nothing,
    /// Leave the terminal, open the workspace in an editor, come back.
    OpenEditor { workspace: String, editor: String },
    OpenAssistantTab { workspace: String },
    OpenFinder { workspace: String },
    /// Reload the workspaces and report them with `refreshed`.
    Refresh,
    /// Create the workspace and report it with `workspace_created`.
    CreateWorkspace { name: String, repos: Vec<String> },
    /// Remove the workspace and report it with `workspace_removed`.
    RemoveWorkspace { name: String },
}

#[derive(Debug)]
pub struct App {
    pub root: String,
    pub config: Config,
    pub workspaces: Vec<WorkspaceInfo>,
    pub ws_index: usize,
    pub input_mode: InputMode,
    pub input_buf: String,
    /// Each configured repository, and whether it is chosen for the new workspace.
    pub repo_toggles: Vec<(String, bool)>,
    pub repo_cursor: usize,
    /// The status line: a text, and whether it reports an error.
    pub message: Option<(String, bool)>,
    pub should_quit: bool,
}

// ---------------------------------------------------------------------------
// The model
// ---------------------------------------------------------------------------

pub enum ModeView {
    Normal,
    NewName,
    NewRepos,
    ConfirmDone(Seq<char>),
}

pub struct AppView {
    pub workspaces: Seq<Seq<char>>,
    pub ws_index: int,
    pub mode: ModeView,
    pub input: Seq<char>,
    pub toggles: Seq<(Seq<char>, bool)>,
    pub cursor: int,
    pub message: Option<(Seq<char>, bool)>,
    pub should_quit: bool,
}

pub enum EffectView {
    Nothing,
    OpenEditor(Seq<char>, Seq<char>),
    OpenAssistantTab(Seq<char>),
    OpenFinder(Seq<char>),
    Refresh,
    CreateWorkspace(Seq<char>, Seq<Seq<char>>),
    RemoveWorkspace(Seq<char>),
}

pub open spec fn workspace_names(ws: Seq<WorkspaceInfo>) -> Seq<Seq<char>> {
    ws.map_values(|w: WorkspaceInfo| w.name@)
}

pub open spec fn toggle_views(t: Seq<(String, bool)>) -> Seq<(Seq<char>, bool)> {
    t.map_values(|p: (String, bool)| (p.0@, p.1))
}

pub open spec fn message_view(m: Option<(String, bool)>) -> Option<(Seq<char>, bool)> {
    match m {
        Some((t, e)) => Some((t@, e)),
        None => None,
    }
}

impl View for App {
    type V = AppView;

    open spec fn view(&self) -> AppView {
        AppView {
            workspaces: workspace_names(self.workspaces@),
            ws_index: self.ws_index as int,
            mode: match self.input_mode {
                InputMode::Normal => ModeView::Normal,
                InputMode::NewName => ModeView::NewName,
                InputMode::NewRepos => ModeView::NewRepos,
                InputMode::Confirm(Action::Done(n)) => ModeView::ConfirmDone(n@),
            },
            input: self.input_buf@,
            toggles: toggle_views(self.repo_toggles@),
            cursor: self.repo_cursor as int,
            message: message_view(self.message),
            should_quit: self.should_quit,
        }
    }
}

impl View for Effect {
    type V = EffectView;

    open spec fn view(&self) -> EffectView {
        match self {
            Effect::Nothing => EffectView::Nothing,
            Effect::OpenEditor { workspace, editor } => EffectView::OpenEditor(workspace@, editor@),
            Effect::OpenAssistantTab { workspace } => EffectView::OpenAssistantTab(workspace@),
            Effect::OpenFinder { workspace } => EffectView::OpenFinder(workspace@),
            Effect::Refresh => EffectView::Refresh,
            Effect::CreateWorkspace { name, repos } => EffectView::CreateWorkspace(
                name@,
                views(repos@),
            ),
            Effect::RemoveWorkspace { name } => EffectView::RemoveWorkspace(name@),
        }
    }
}

/// What holds of every state the browser can be in: the selection points at a
/// listed workspace whenever there is one, the cursor at a listed repository
/// whenever there is one, and the name being typed holds only allowed characters.
pub open spec fn well_formed(s: AppView) -> bool {
    &&& s.ws_index >= 0
    &&& s.cursor >= 0
    &&& s.workspaces.len() > 0 ==> s.ws_index < s.workspaces.len()
    &&& s.toggles.len() > 0 ==> s.cursor < s.toggles.len()
    &&& forall|i: int| 0 <= i < s.input.len() ==> name_char_allowed(#[trigger] s.input[i])
}

/// The names of the chosen repositories, in order.
pub open spec fn chosen(t: Seq<(Seq<char>, bool)>) -> Seq<Seq<char>>
    decreases t.len(),
{
    if t.len() == 0 {
        Seq::empty()
    } else if t.last().1 {
        chosen(t.drop_last()).push(t.last().0)
    } else {
        chosen(t.drop_last())
    }
}

pub open spec fn is_char(k: Key, c: char) -> bool {
    k.code == KeyCode::Char(c)
}

pub open spec fn is_down(k: Key) -> bool {
    is_char(k, 'j') || k.code == KeyCode::Down
}

pub open spec fn is_up(k: Key) -> bool {
    is_char(k, 'k') || k.code == KeyCode::Up
}

pub open spec fn with_message(s: AppView, m: Option<(Seq<char>, bool)>) -> AppView {
    AppView { message: m, ..s }
}

/// The browser in its normal mode.
pub open spec fn normal_step(s: AppView, k: Key) -> (AppView, EffectView) {
    let selected = 0 <= s.ws_index < s.workspaces.len();
    let current = s.workspaces[s.ws_index];
    if is_char(k, 'q') || k.code == KeyCode::Esc || (is_char(k, 'c') && k.ctrl) {
        (AppView { should_quit: true, ..s }, EffectView::Nothing)
    } else if is_down(k) {
        if s.workspaces.len() > 0 {
            let next = if s.ws_index + 1 < s.workspaces.len() - 1 {
                s.ws_index + 1
            } else {
                s.workspaces.len() - 1
            };
            (AppView { ws_index: next, message: None, ..s }, EffectView::Nothing)
        } else {
            (s, EffectView::Nothing)
        }
    } else if is_up(k) {
        if s.ws_index > 0 {
            (AppView { ws_index: s.ws_index - 1, message: None, ..s }, EffectView::Nothing)
        } else {
            (s, EffectView::Nothing)
        }
    } else if is_char(k, 'n') {
        (
            AppView {
                input: Seq::empty(),
                mode: ModeView::NewName,
                message: Some(("Enter workspace name"@, false)),
                ..s
            },
            EffectView::Nothing,
        )
    } else if is_char(k, 'o') {
        (s, if selected { EffectView::OpenEditor(current, "zed"@) } else { EffectView::Nothing })
    } else if is_char(k, 'c') {
        (s, if selected { EffectView::OpenAssistantTab(current) } else { EffectView::Nothing })
    } else if is_char(k, 'f') {
        (s, if selected { EffectView::OpenFinder(current) } else { EffectView::Nothing })
    } else if is_char(k, 'd') {
        if selected {
            (
                AppView {
                    mode: ModeView::ConfirmDone(current),
                    message: Some(("Delete this workspace? y/n"@, true)),
                    ..s
                },
                EffectView::Nothing,
            )
        } else {
            (s, EffectView::Nothing)
        }
    } else if is_char(k, 'r') {
        (s, EffectView::Refresh)
    } else {
        (s, EffectView::Nothing)
    }
}

/// The browser as it starts.
pub open spec fn initial_state(workspaces: Seq<Seq<char>>) -> AppView {
    AppView {
        workspaces: workspaces,
        ws_index: 0,
        mode: ModeView::Normal,
        input: Seq::empty(),
        toggles: Seq::empty(),
        cursor: 0,
        message: None,
        should_quit: false,
    }
}

/// The browser once the name is entered: every configured repository listed,
/// none chosen, the cursor on the first.
pub open spec fn repo_selection_state(s: AppView, repos: Seq<Seq<char>>) -> AppView {
    AppView {
        toggles: repos.map_values(|r: Seq<char>| (r, false)),
        cursor: 0,
        mode: ModeView::NewRepos,
        message: Some(("Space=toggle, Enter=create, Esc=cancel"@, false)),
        ..s
    }
}

/// The name being typed, without its last character.
pub open spec fn input_popped(s: AppView) -> AppView {
    AppView {
        input: if s.input.len() > 0 {
            s.input.drop_last()
        } else {
            s.input
        },
        ..s
    }
}

/// The browser while a new workspace's name is typed.
pub open spec fn name_step(s: AppView, repos: Seq<Seq<char>>, k: Key) -> AppView {
    match k.code {
        KeyCode::Esc => AppView { mode: ModeView::Normal, message: None, ..s },
        KeyCode::Enter => if s.input.len() == 0 {
            with_message(s, Some(("Name cannot be empty"@, true)))
        } else {
            repo_selection_state(s, repos)
        },
        KeyCode::Backspace => input_popped(s),
        KeyCode::Char(c) => if name_char_allowed(c) {
            AppView { input: s.input.push(c), ..s }
        } else {
            s
        },
        _ => s,
    }
}

/// The browser while the repositories of a new workspace are chosen.
pub open spec fn repos_step(s: AppView, k: Key) -> (AppView, EffectView) {
    if k.code == KeyCode::Esc {
        (AppView { mode: ModeView::Normal, message: None, ..s }, EffectView::Nothing)
    } else if is_down(k) {
        if s.toggles.len() > 0 {
            let next = if s.cursor + 1 < s.toggles.len() - 1 {
                s.cursor + 1
            } else {
                s.toggles.len() - 1
            };
            (AppView { cursor: next, ..s }, EffectView::Nothing)
        } else {
            (s, EffectView::Nothing)
        }
    } else if is_up(k) {
        if s.cursor > 0 {
            (AppView { cursor: s.cursor - 1, ..s }, EffectView::Nothing)
        } else {
            (s, EffectView::Nothing)
        }
    } else if is_char(k, ' ') {
        if s.cursor < s.toggles.len() {
            let t = s.toggles[s.cursor];
            (AppView { toggles: s.toggles.update(s.cursor, (t.0, !t.1)), ..s }, EffectView::Nothing)
        } else {
            (s, EffectView::Nothing)
        }
    } else if k.code == KeyCode::Enter {
        if chosen(s.toggles).len() == 0 {
            (
                AppView {
                    mode: ModeView::Normal,
                    message: Some(("Select at least one repo"@, true)),
                    ..s
                },
                EffectView::Nothing,
            )
        } else {
            (s, EffectView::CreateWorkspace(s.input, chosen(s.toggles)))
        }
    } else {
        (s, EffectView::Nothing)
    }
}

/// How the browser reacts to a key: its next state and the effect it asks for.
pub open spec fn key_step(s: AppView, repos: Seq<Seq<char>>, k: Key) -> (AppView, EffectView) {
    match s.mode {
        ModeView::Normal => normal_step(s, k),
        ModeView::NewName => (name_step(s, repos, k), EffectView::Nothing),
        ModeView::NewRepos => repos_step(s, k),
        ModeView::ConfirmDone(name) => if is_char(k, 'y') {
            (s, EffectView::RemoveWorkspace(name))
        } else {
            (AppView { mode: ModeView::Normal, message: None, ..s }, EffectView::Nothing)
        },
    }
}

/// The browser after a run of keys from `s`.
pub open spec fn run_keys(s: AppView, repos: Seq<Seq<char>>, keys: Seq<Key>) -> AppView
    decreases keys.len(),
{
    if keys.len() == 0 {
        s
    } else {
        key_step(run_keys(s, repos, keys.drop_last()), repos, keys.last()).0
    }
}

/// The effect that the `i`-th key of a run from `s` asks for.
pub open spec fn effect_at(s: AppView, repos: Seq<Seq<char>>, keys: Seq<Key>, i: int) -> EffectView {
    key_step(run_keys(s, repos, keys.take(i)), repos, keys[i]).1
}

/// Whether the browser selects the workspace `name`.
pub open spec fn selects(s: AppView, name: Seq<char>) -> bool {
    0 <= s.ws_index < s.workspaces.len() && s.workspaces[s.ws_index] == name
}

/// The state once the list of workspaces is reloaded: the selection is kept,
/// but pulled back onto the last workspace when it fell off the end.
pub open spec fn refreshed_state(s: AppView, workspaces: Seq<Seq<char>>) -> AppView {
    AppView {
        workspaces: workspaces,
        ws_index: if workspaces.len() > 0 && s.ws_index >= workspaces.len() {
            workspaces.len() - 1
        } else {
            s.ws_index
        },
        ..s
    }
}

/// The first position of `name` in `names`, if any.
pub open spec fn position_of(names: Seq<Seq<char>>, name: Seq<char>) -> Option<int> {
    if exists|i: int| 0 <= i < names.len() && names[i] == name {
        Some(
            choose|i: int|
                0 <= i < names.len() && names[i] == name && forall|j: int|
                    0 <= j < i ==> names[j] != name,
        )
    } else {
        None
    }
}

/// The browser once the workspace it asked for is created: the list
/// reloaded, the new workspace selected where it is listed.
pub open spec fn created_state(s: AppView, workspaces: Seq<Seq<char>>) -> AppView {
    let r = refreshed_state(s, workspaces);
    AppView {
        ws_index: match position_of(r.workspaces, s.input) {
            Some(i) => i,
            None => r.ws_index,
        },
        mode: ModeView::Normal,
        message: Some(("Created workspace '"@ + s.input + "'"@, false)),
        ..r
    }
}

/// The browser once the workspace `name` is removed: the list reloaded.
pub open spec fn removed_state(s: AppView, name: Seq<char>, workspaces: Seq<Seq<char>>) -> AppView {
    AppView {
        mode: ModeView::Normal,
        message: Some(("Workspace '"@ + name + "' removed"@, false)),
        ..refreshed_state(s, workspaces)
    }
}

/// The browser once removing a workspace failed with `error`.
pub open spec fn removal_failed_state(s: AppView, error: Seq<char>) -> AppView {
    AppView { mode: ModeView::Normal, message: Some(("Error: "@ + error, true)), ..s }
}

// ---------------------------------------------------------------------------
// The browser
// ---------------------------------------------------------------------------

proof fn lemma_first_position(names: Seq<Seq<char>>, name: Seq<char>, i: int)
    requires
        0 <= i < names.len(),
        names[i] == name,
        forall|j: int| 0 <= j < i ==> names[j] != name,
    ensures
        position_of(names, name) == Some(i),
{
    let k = choose|k: int|
        0 <= k < names.len() && names[k] == name && forall|j: int| 0 <= j < k ==> names[j] != name;
    assert(0 <= k < names.len() && names[k] == name && forall|j: int|
        0 <= j < k ==> names[j] != name);
    if k < i {
    } else if k > i {
        assert(names[i] != name);
    }
}

impl App {
    /// The browser as it starts: the given workspaces listed, the first one
    /// selected, nothing being typed.
    pub fn new(root: String, config: Config, workspaces: Vec<WorkspaceInfo>) -> (app: App)
        ensures
            app.root == root,
            app.config == config,
            app@.workspaces == workspace_names(workspaces@),
            app.workspaces == workspaces,
            app@ == initial_state(workspace_names(workspaces@)),
            well_formed(app@),
    {
        let app = App {
            root,
            config,
            workspaces,
            ws_index: 0,
            input_mode: InputMode::Normal,
            input_buf: String::new(),
            repo_toggles: Vec::new(),
            repo_cursor: 0,
            message: None,
            should_quit: false,
        };
        assert(toggle_views(app.repo_toggles@) =~= Seq::<(Seq<char>, bool)>::empty());
        app
    }

    /// The selected workspace, if the selection points at one.
    pub fn selected_ws(&self) -> (r: Option<&WorkspaceInfo>)
        ensures
            r is Some == (self.ws_index < self.workspaces.len()),
            r matches Some(w) ==> *w == self.workspaces@[self.ws_index as int],
    {
        if self.ws_index < self.workspaces.len() {
            Some(&self.workspaces[self.ws_index])
        } else {
            None
        }
    }

    pub fn set_msg(&mut self, msg: String, is_error: bool)
        ensures
            final(self)@ == with_message(old(self)@, Some((msg@, is_error))),
            final(self).root == old(self).root,
            final(self).config == old(self).config,
            final(self).workspaces == old(self).workspaces,
    {
        self.message = Some((msg, is_error));
    }

    /// Takes a reloaded list of workspaces.
    pub fn refreshed(&mut self, workspaces: Vec<WorkspaceInfo>)
        requires
            well_formed(old(self)@),
        ensures
            final(self)@ == refreshed_state(old(self)@, workspace_names(workspaces@)),
            final(self).workspaces == workspaces,
            final(self).root == old(self).root,
            final(self).config == old(self).config,
            well_formed(final(self)@),
    {
        self.workspaces = workspaces;
        if self.workspaces.len() > 0 && self.ws_index >= self.workspaces.len() {
            self.ws_index = self.workspaces.len() - 1;
        }
        assert(self@ =~= refreshed_state(old(self)@, workspace_names(self.workspaces@)));
    }

    fn start_new_workspace(&mut self)
        requires
            well_formed(old(self)@),
            old(self)@.mode == ModeView::Normal,
        ensures
            final(self)@ == normal_step(old(self)@, Key { code: KeyCode::Char('n'), ctrl: false }).0,
            final(self).root == old(self).root,
            final(self).config == old(self).config,
            final(self).workspaces == old(self).workspaces,
    {
        self.input_buf = String::new();
        self.input_mode = InputMode::NewName;
        self.message = Some((owned("Enter workspace name"), false));
        assert(self@ =~= normal_step(old(self)@, Key { code: KeyCode::Char('n'), ctrl: false }).0);
    }

    fn start_repo_selection(&mut self)
        requires
            well_formed(old(self)@),
        ensures
            final(self)@ == repo_selection_state(old(self)@, old(self).config.repos.names()),
            final(self).root == old(self).root,
            final(self).config == old(self).config,
            final(self).workspaces == old(self).workspaces,
    {
        let names = self.config.repos.keys();
        let ghost nv = views(names@);
        let mut toggles: Vec<(String, bool)> = Vec::new();
        let mut i: usize = 0;
        while i < names.len()
            invariant
                i <= names.len(),
                nv == views(names@),
                toggle_views(toggles@) == nv.take(i as int).map_values(
                    |r: Seq<char>| (r, false),
                ),
            decreases names.len() - i,
        {
            let ghost prev = toggles@;
            toggles.push((names[i].clone(), false));
            assert(toggle_views(toggles@) =~= toggle_views(prev).push((nv[i as int], false)));
            assert(nv.take(i + 1) =~= nv.take(i as int).push(nv[i as int]));
            assert(nv.take(i + 1).map_values(|r: Seq<char>| (r, false)) =~= nv.take(
                i as int,
            ).map_values(|r: Seq<char>| (r, false)).push((nv[i as int], false)));
            i = i + 1;
        }
        assert(nv.take(names.len() as int) =~= nv);
        self.repo_toggles = toggles;
        self.repo_cursor = 0;
        self.input_mode = InputMode::NewRepos;
        self.message = Some((owned("Space=toggle, Enter=create, Esc=cancel"), false));
        assert(self@.toggles =~= old(self).config.repos.names().map_values(
            |r: Seq<char>| (r, false),
        ));
    }

    /// The chosen repositories.
    fn chosen_repos(&self) -> (r: Vec<String>)
        ensures
            views(r@) == chosen(toggle_views(self.repo_toggles@)),
    {
        let ghost tv = toggle_views(self.repo_toggles@);
        let mut r: Vec<String> = Vec::new();
        let mut i: usize = 0;
        assert(tv.take(0) =~= Seq::<(Seq<char>, bool)>::empty());
        while i < self.repo_toggles.len()
            invariant
                i <= self.repo_toggles.len(),
                tv == toggle_views(self.repo_toggles@),
                views(r@) == chosen(tv.take(i as int)),
            decreases self.repo_toggles.len() - i,
        {
            assert(tv.take(i + 1).drop_last() =~= tv.take(i as int));
            assert(tv.take(i + 1).last() == tv[i as int]);
            if self.repo_toggles[i].1 {
                let ghost prev = r@;
                r.push(self.repo_toggles[i].0.clone());
                assert(views(r@) =~= views(prev).push(tv[i as int].0));
            }
            i = i + 1;
        }
        assert(tv.take(self.repo_toggles.len() as int) =~= tv);
        r
    }

    fn pop_input(&mut self)
        ensures
            final(self)@ == input_popped(old(self)@),
            final(self).root == old(self).root,
            final(self).config == old(self).config,
            final(self).workspaces == old(self).workspaces,
    {
        let v = chars_of(self.input_buf.as_str());
        if v.len() > 0 {
            self.input_buf = string_from_range(&v, 0, v.len() - 1);
            assert(self.input_buf@ =~= old(self)@.input.drop_last());
        }
        assert(self@ =~= input_popped(old(self)@));
    }

    fn normal_key(&mut self, key: Key) -> (effect: Effect)
        requires
            well_formed(old(self)@),
            old(self)@.mode == ModeView::Normal,
        ensures
            (final(self)@, effect@) == normal_step(old(self)@, key),
            final(self).root == old(self).root,
            final(self).config == old(self).config,
            final(self).workspaces == old(self).workspaces,
    {
        let ghost s = self@;
        let c = key.code;
        if c == KeyCode::Char('q') || c == KeyCode::Esc || (c == KeyCode::Char('c') && key.ctrl) {
            self.should_quit = true;
            assert(self@ =~= normal_step(s, key).0);
            return Effect::Nothing;
        }
        if c == KeyCode::Char('j') || c == KeyCode::Down {
            if self.workspaces.len() > 0 {
                let last = self.workspaces.len() - 1;
                self.ws_index = if self.ws_index + 1 < last {
                    self.ws_index + 1
                } else {
                    last
                };
                self.message = None;
            }
            assert(self@ =~= normal_step(s, key).0);
            return Effect::Nothing;
        }
        if c == KeyCode::Char('k') || c == KeyCode::Up {
            if self.ws_index > 0 {
                self.ws_index = self.ws_index - 1;
                self.message = None;
            }
            assert(self@ =~= normal_step(s, key).0);
            return Effect::Nothing;
        }
        if c == KeyCode::Char('n') {
            self.start_new_workspace();
            assert(self@ =~= normal_step(s, key).0);
            return Effect::Nothing;
        }
        let selected = self.ws_index < self.workspaces.len();
        if c == KeyCode::Char('o') || c == KeyCode::Char('c') || c == KeyCode::Char('f') || c
            == KeyCode::Char('d') {
            if !selected {
                return Effect::Nothing;
            }
            let name = self.workspaces[self.ws_index].name.clone();
            assert(name@ == s.workspaces[s.ws_index]);
            if c == KeyCode::Char('o') {
                return Effect::OpenEditor { workspace: name, editor: owned("zed") };
            } else if c == KeyCode::Char('c') {
                return Effect::OpenAssistantTab { workspace: name };
            } else if c == KeyCode::Char('f') {
                return Effect::OpenFinder { workspace: name };
            } else {
                self.input_mode = InputMode::Confirm(Action::Done(name));
                self.message = Some((owned("Delete this workspace? y/n"), true));
                assert(self@ =~= normal_step(s, key).0);
                return Effect::Nothing;
            }
        }
        if c == KeyCode::Char('r') {
            return Effect::Refresh;
        }
        Effect::Nothing
    }

    fn name_key(&mut self, key: Key)
        requires
            well_formed(old(self)@),
            old(self)@.mode == ModeView::NewName,
        ensures
            final(self)@ == name_step(old(self)@, old(self).config.repos.names(), key),
            final(self).root == old(self).root,
            final(self).config == old(self).config,
            final(self).workspaces == old(self).workspaces,
    {
        let ghost s = self@;
        match key.code {
            KeyCode::Esc => {
                self.input_mode = InputMode::Normal;
                self.message = None;
            },
            KeyCode::Enter => {
                if self.input_buf.as_str().is_empty() {
                    self.message = Some((owned("Name cannot be empty"), true));
                } else {
                    self.start_repo_selection();
                }
            },
            KeyCode::Backspace => {
                self.pop_input();
            },
            KeyCode::Char(ch) => {
                if is_alphanumeric(ch) || ch == '-' || ch == '_' {
                    push_char(&mut self.input_buf, ch);
                }
            },
            _ => {},
        }
        assert(self@ =~= name_step(s, old(self).config.repos.names(), key));
    }

    fn repos_key(&mut self, key: Key) -> (effect: Effect)
        requires
            well_formed(old(self)@),
            old(self)@.mode == ModeView::NewRepos,
        ensures
            (final(self)@, effect@) == repos_step(old(self)@, key),
            final(self).root == old(self).root,
            final(self).config == old(self).config,
            final(self).workspaces == old(self).workspaces,
    {
        let ghost s = self@;
        let c = key.code;
        if c == KeyCode::Esc {
            self.input_mode = InputMode::Normal;
            self.message = None;
            assert(self@ =~= repos_step(s, key).0);
            return Effect::Nothing;
        }
        if c == KeyCode::Char('j') || c == KeyCode::Down {
            if self.repo_toggles.len() > 0 {
                let last = self.repo_toggles.len() - 1;
                self.repo_cursor = if self.repo_cursor + 1 < last {
                    self.repo_cursor + 1
                } else {
                    last
                };
            }
            assert(self@ =~= repos_step(s, key).0);
            return Effect::Nothing;
        }
        if c == KeyCode::Char('k') || c == KeyCode::Up {
            if self.repo_cursor > 0 {
                self.repo_cursor = self.repo_cursor - 1;
            }
            assert(self@ =~= repos_step(s, key).0);
            return Effect::Nothing;
        }
        if c == KeyCode::Char(' ') {
            if self.repo_cursor < self.repo_toggles.len() {
                let i = self.repo_cursor;
                let (name, on) = (self.repo_toggles[i].0.clone(), self.repo_toggles[i].1);
                self.repo_toggles.set(i, (name, !on));
                assert(self@.toggles =~= s.toggles.update(i as int, (s.toggles[i as int].0, !on)));
            }
            assert(self@ =~= repos_step(s, key).0);
            return Effect::Nothing;
        }
        if c == KeyCode::Enter {
            let repos = self.chosen_repos();
            if repos.len() == 0 {
                self.message = Some((owned("Select at least one repo"), true));
                self.input_mode = InputMode::Normal;
                assert(self@ =~= repos_step(s, key).0);
                return Effect::Nothing;
            }
            return Effect::CreateWorkspace { name: self.input_buf.clone(), repos };
        }
        Effect::Nothing
    }

    /// Reacts to a key.
    pub fn handle_key(&mut self, key: Key) -> (effect: Effect)
        requires
            well_formed(old(self)@),
        ensures
            (final(self)@, effect@) == key_step(old(self)@, old(self).config.repos.names(), key),
            final(self).root == old(self).root,
            final(self).config == old(self).config,
            final(self).workspaces == old(self).workspaces,
            well_formed(final(self)@),
    {
        proof {
            lemma_key_step_well_formed(self@, self.config.repos.names(), key);
        }
        match self.input_mode {
            InputMode::Normal => self.normal_key(key),
            InputMode::NewName => {
                self.name_key(key);
                Effect::Nothing
            },
            InputMode::NewRepos => self.repos_key(key),
            InputMode::Confirm(Action::Done(ref name)) => {
                if key.code == KeyCode::Char('y') {
                    Effect::RemoveWorkspace { name: name.clone() }
                } else {
                    self.input_mode = InputMode::Normal;
                    self.message = None;
                    Effect::Nothing
                }
            },
        }
    }

    /// Reports a workspace created at the browser's request: on success the
    /// reloaded list, with the new workspace selected where it is listed; on
    /// failure the error, shown, while the choice of repositories stays open.
    pub fn workspace_created(&mut self, outcome: Result<Vec<WorkspaceInfo>, String>)
        requires
            well_formed(old(self)@),
        ensures
            final(self).root == old(self).root,
            final(self).config == old(self).config,
            well_formed(final(self)@),
            match outcome {
                Ok(list) => {
                    &&& final(self).workspaces == list
                    &&& final(self)@ == created_state(old(self)@, workspace_names(list@))
                },
                Err(e) => {
                    &&& final(self).workspaces == old(self).workspaces
                    &&& final(self)@ == with_message(old(self)@, Some(("Error: "@ + e@, true)))
                },
            },
    {
        match outcome {
            Ok(list) => {
                let name = self.input_buf.clone();
                self.refreshed(list);
                let ghost r = self@;
                let mut i: usize = 0;
                let mut found: Option<usize> = None;
                while i < self.workspaces.len()
                    invariant_except_break
                        found is None,
                    invariant
                        i <= self.workspaces.len(),
                        r == self@,
                        forall|j: int| 0 <= j < i ==> r.workspaces[j] != name@,
                    ensures
                        r == self@,
                        found matches Some(k) ==> (position_of(r.workspaces, name@) == Some(k as int)
                            && k < r.workspaces.len()),
                        found is None ==> position_of(r.workspaces, name@) is None,
                    decreases self.workspaces.len() - i,
                {
                    if crate::text::same_text(self.workspaces[i].name.as_str(), name.as_str()) {
                        proof {
                            lemma_first_position(r.workspaces, name@, i as int);
                        }
                        found = Some(i);
                        break;
                    }
                    i = i + 1;
                }
                if let Some(k) = found {
                    self.ws_index = k;
                }
                let mut msg = owned("Created workspace '");
                msg.append(name.as_str());
                msg.append("'");
                self.message = Some((msg, false));
                self.input_mode = InputMode::Normal;
            },
            Err(e) => {
                let mut msg = owned("Error: ");
                msg.append(e.as_str());
                self.message = Some((msg, true));
            },
        }
    }

    /// Reports a workspace removed at the browser's request: on success the
    /// reloaded list; either way the browser is back in its normal mode.
    pub fn workspace_removed(&mut self, name: &str, outcome: Result<Vec<WorkspaceInfo>, String>)
        requires
            well_formed(old(self)@),
        ensures
            final(self).root == old(self).root,
            final(self).config == old(self).config,
            well_formed(final(self)@),
            match outcome {
                Ok(list) => {
                    &&& final(self).workspaces == list
                    &&& final(self)@ == removed_state(old(self)@, name@, workspace_names(list@))
                },
                Err(e) => {
                    &&& final(self).workspaces == old(self).workspaces
                    &&& final(self)@ == removal_failed_state(old(self)@, e@)
                },
            },
    {
        self.input_mode = InputMode::Normal;
        match outcome {
            Ok(list) => {
                self.refreshed(list);
                let mut msg = owned("Workspace '");
                msg.append(name);
                msg.append("' removed");
                self.message = Some((msg, false));
            },
            Err(e) => {
                let mut msg = owned("Error: ");
                msg.append(e.as_str());
                self.message = Some((msg, true));
            },
        }
    }

    /// Reports the list reloaded at the user's request.
    pub fn refreshed_by_request(&mut self, workspaces: Vec<WorkspaceInfo>)
        requires
            well_formed(old(self)@),
        ensures
            final(self).root == old(self).root,
            final(self).config == old(self).config,
            final(self).workspaces == workspaces,
            final(self)@ == with_message(
                refreshed_state(old(self)@, workspace_names(workspaces@)),
                Some(("Refreshed"@, false)),
            ),
            well_formed(final(self)@),
    {
        self.refreshed(workspaces);
        self.message = Some((owned("Refreshed"), false));
    }

    /// Reports that the assistant called `label` was opened in a new tab for `name`.
    pub fn assistant_tab_opened(&mut self, label: &str, name: &str)
        requires
            well_formed(old(self)@),
        ensures
            final(self).root == old(self).root,
            final(self).config == old(self).config,
            final(self).workspaces == old(self).workspaces,
            final(self)@ == with_message(
                old(self)@,
                Some(("Opening "@ + label@ + " in new tab for '"@ + name@ + "'"@, false)),
            ),
            well_formed(final(self)@),
    {
        let mut msg = owned("Opening ");
        msg.append(label);
        msg.append(" in new tab for '");
        msg.append(name);
        msg.append("'");
        self.message = Some((msg, false));
    }

    /// Reports that the workspace `name` was opened in Finder.
    pub fn finder_opened(&mut self, name: &str)
        requires
            well_formed(old(self)@),
        ensures
            final(self).root == old(self).root,
            final(self).config == old(self).config,
            final(self).workspaces == old(self).workspaces,
            final(self)@ == with_message(old(self)@, Some(("Opened '"@ + name@ + "' in Finder"@, false))),
            well_formed(final(self)@),
    {
        let mut msg = owned("Opened '");
        msg.append(name);
        msg.append("' in Finder");
        self.message = Some((msg, false));
    }
}

/// Every reaction to a key keeps the browser well formed.
pub proof fn lemma_key_step_well_formed(s: AppView, repos: Seq<Seq<char>>, k: Key)
    requires
        well_formed(s),
    ensures
        well_formed(key_step(s, repos, k).0),
{
    let t = key_step(s, repos, k).0;
    match s.mode {
        ModeView::NewName => {
            match k.code {
                KeyCode::Backspace => {
                    assert forall|i: int| 0 <= i < t.input.len() implies name_char_allowed(
                        #[trigger] t.input[i],
                    ) by {
                        assert(t.input[i] == s.input[i]);
                    }
                },
                KeyCode::Char(c) => {
                    assert forall|i: int| 0 <= i < t.input.len() implies name_char_allowed(
                        #[trigger] t.input[i],
                    ) by {
                        if i < s.input.len() {
                            assert(t.input[i] == s.input[i]);
                        }
                    }
                },
                _ => {},
            }
        },
        _ => {},
    }
}

} // verus!
