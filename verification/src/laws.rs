//! Properties that hold across the library's operations.

use vstd::prelude::*;
use crate::commands::{
    dirty_worktrees, escape_quotes, is_yes, list_status_text, list_status_tone, names_except,
    pr_body_text, related_prs_section, related_repos_section, replaced, replacement,
    pr_title_text, shared_files_of, status_parts_text, worktrees_of, Tone,
};
use crate::config::{detected_repos, Config};
use crate::name_map::{lemma_str_less_irreflexive, strictly_sorted};
use crate::text::{
    after_last_newline, all_digits, decimal, digit_char, digit_value, digits_value,
    ended_line_nonempty, ended_nonempty_lines, is_hidden, is_white_space, nonempty_line_count, parse_usize,
    joined, trim, trim_end, trim_start, unsigned_digits,
};
use crate::path::path_join;
use crate::tui::{
    chosen, effect_at, is_char, key_step, lemma_key_step_well_formed, name_char_allowed, refreshed_state,
    run_keys, selects, well_formed, with_message, AppView, Key, KeyCode, ModeView, EffectView,
};
use crate::workspace::{kept_names, WorkspaceRepoView};

verus! {

// ---------------------------------------------------------------------------
// Workspace records
// ---------------------------------------------------------------------------

/// After a repository is added to a workspace, the workspace holds it on the
/// branch given, and every other repository as before.
pub proof fn law_added_repo_is_read_back(
    repos: Map<Seq<char>, WorkspaceRepoView>,
    name: Seq<char>,
    branch: Seq<char>,
    other: Seq<char>,
)
    ensures
        repos.insert(name, WorkspaceRepoView { branch }).contains_key(name),
        repos.insert(name, WorkspaceRepoView { branch })[name].branch == branch,
        other != name ==> (repos.insert(name, WorkspaceRepoView { branch }).contains_key(other)
            == repos.contains_key(other)),
        other != name && repos.contains_key(other) ==> repos.insert(
            name,
            WorkspaceRepoView { branch },
        )[other] == repos[other],
{
}

/// Adding a repository that a workspace did not hold, then removing it,
/// leaves the workspace's repositories as they were.
pub proof fn law_add_then_remove_restores(
    repos: Map<Seq<char>, WorkspaceRepoView>,
    name: Seq<char>,
    branch: Seq<char>,
)
    requires
        !repos.contains_key(name),
    ensures
        repos.insert(name, WorkspaceRepoView { branch }).remove(name) == repos,
{
    assert(repos.insert(name, WorkspaceRepoView { branch }).remove(name) =~= repos);
}

/// Removing a repository that a workspace does not hold changes nothing.
pub proof fn law_remove_absent_changes_nothing(
    repos: Map<Seq<char>, WorkspaceRepoView>,
    name: Seq<char>,
)
    requires
        !repos.contains_key(name),
    ensures
        repos.remove(name) == repos,
{
    assert(repos.remove(name) =~= repos);
}

/// Every detected repository lives in the directory it is named after, has
/// no shared files, and is one of the checkouts found.
pub proof fn law_detected_repo_is_its_directory(
    found: Seq<(Seq<char>, Option<Seq<char>>)>,
    name: Seq<char>,
)
    requires
        detected_repos(found).contains_key(name),
    ensures
        detected_repos(found)[name].path == name,
        detected_repos(found)[name].shared_files == Seq::<Seq<char>>::empty(),
        exists|i: int| 0 <= i < found.len() && found[i].0 == name,
    decreases found.len(),
{
    if found.len() > 0 && found.last().0 != name {
        law_detected_repo_is_its_directory(found.drop_last(), name);
        let i = choose|i: int| 0 <= i < found.drop_last().len() && found.drop_last()[i].0 == name;
        assert(found[i].0 == name);
    } else if found.len() > 0 {
        assert(found[found.len() - 1].0 == name);
    }
}

// ---------------------------------------------------------------------------
// Text
// ---------------------------------------------------------------------------

proof fn lemma_digit_char_value(d: nat)
    requires
        d < 10,
    ensures
        crate::text::is_digit(digit_char(d)),
        digit_value(digit_char(d)) == d,
        digit_char(d) != '+',
{
    assert('0' as u32 == 48);
    assert('9' as u32 == 57);
}

proof fn lemma_decimal_digits(n: nat)
    ensures
        decimal(n).len() > 0,
        all_digits(decimal(n)),
        digits_value(decimal(n)) == n,
        decimal(n)[0] != '+',
    decreases n,
{
    lemma_digit_char_value(n % 10);
    if n < 10 {
        assert(decimal(n) =~= seq![digit_char(n)]);
        assert(decimal(n).drop_last() =~= Seq::<char>::empty());
        assert(decimal(n).last() == digit_char(n));
        assert(digits_value(decimal(n)) == digits_value(decimal(n).drop_last()) * 10 + digit_value(decimal(n).last()));
    } else {
        lemma_decimal_digits(n / 10);
        let d = decimal(n / 10).push(digit_char(n % 10));
        assert(d.drop_last() =~= decimal(n / 10));
        assert(d[0] == decimal(n / 10)[0]);
        assert(d.last() == digit_char(n % 10));
        assert(digits_value(d) == digits_value(decimal(n / 10)) * 10 + digit_value(digit_char(n % 10)));
        assert(n == (n / 10) * 10 + n % 10);
        assert forall|i: int| 0 <= i < d.len() implies crate::text::is_digit(#[trigger] d[i]) by {
            if i < d.len() - 1 {
                assert(d[i] == decimal(n / 10)[i]);
            }
        }
    }
}

/// A count written in decimal reads back as itself.
pub proof fn law_decimal_reads_back(n: usize)
    ensures
        parse_usize(decimal(n as nat)) == Some(n),
{
    lemma_decimal_digits(n as nat);
    assert(unsigned_digits(decimal(n as nat)) == decimal(n as nat));
}

proof fn lemma_trim_start_shape(s: Seq<char>)
    ensures
        exists|k: int|
            0 <= k <= s.len() && trim_start(s) == s.skip(k) && (k == s.len() || !is_white_space(
                s[k],
            )),
    decreases s.len(),
{
    if s.len() > 0 && is_white_space(s[0]) {
        lemma_trim_start_shape(s.drop_first());
        let k = choose|k: int|
            0 <= k <= s.drop_first().len() && trim_start(s.drop_first()) == s.drop_first().skip(k)
                && (k == s.drop_first().len() || !is_white_space(s.drop_first()[k]));
        assert(s.drop_first().skip(k) =~= s.skip(k + 1));
        if k < s.drop_first().len() {
            assert(s.drop_first()[k] == s[k + 1]);
        }
    } else {
        assert(s.skip(0) =~= s);
    }
}

proof fn lemma_trim_end_shape(s: Seq<char>)
    ensures
        exists|k: int|
            0 <= k <= s.len() && trim_end(s) == s.take(k) && (k == 0 || !is_white_space(
                s[k - 1],
            )),
    decreases s.len(),
{
    if s.len() > 0 && is_white_space(s.last()) {
        lemma_trim_end_shape(s.drop_last());
        let k = choose|k: int|
            0 <= k <= s.drop_last().len() && trim_end(s.drop_last()) == s.drop_last().take(k) && (k
                == 0 || !is_white_space(s.drop_last()[k - 1]));
        assert(s.drop_last().take(k) =~= s.take(k));
        if k > 0 {
            assert(s.drop_last()[k - 1] == s[k - 1]);
        }
    } else {
        assert(s.take(s.len() as int) =~= s);
    }
}

/// Trimming twice is trimming once.
pub proof fn law_trim_idempotent(s: Seq<char>)
    ensures
        trim(trim(s)) == trim(s),
{
    lemma_trim_start_shape(s);
    let t = trim_start(s);
    let j = choose|j: int|
        0 <= j <= s.len() && trim_start(s) == s.skip(j) && (j == s.len() || !is_white_space(s[j]));
    lemma_trim_end_shape(t);
    let k = choose|k: int|
        0 <= k <= t.len() && trim_end(t) == t.take(k) && (k == 0 || !is_white_space(t[k - 1]));
    let u = trim_end(t);
    if k > 0 {
        assert(u[0] == t[0]);
        assert(t[0] == s[j]);
        assert(u.last() == t[k - 1]);
    }
    assert(trim_start(u) == u);
    assert(trim_end(u) == u);
}

/// A line ending after the last line changes nothing that is counted, unless
/// that line is a lone carriage return (which the ending then strips).
pub proof fn law_final_line_ending_optional(s: Seq<char>)
    requires
        !(after_last_newline(s).len() == 1 && after_last_newline(s)[0] == '\r'),
    ensures
        nonempty_line_count(s.push('\n')) == nonempty_line_count(s),
{
    let t = s.push('\n');
    assert(t.drop_last() =~= s);
    assert(t.last() == '\n');
    assert(after_last_newline(t).len() == 0);
    assert(ended_nonempty_lines(t) == ended_nonempty_lines(s) + if ended_line_nonempty(
        after_last_newline(s),
    ) {
        1nat
    } else {
        0nat
    });
}

// ---------------------------------------------------------------------------
// The browser
// ---------------------------------------------------------------------------

pub open spec fn key(code: KeyCode) -> Key {
    Key { code, ctrl: false }
}

/// Escape leaves the entry of a new workspace, in either of its steps,
/// without asking for anything.
pub proof fn law_escape_cancels_entry(s: AppView, repos: Seq<Seq<char>>)
    requires
        s.mode == ModeView::NewName || s.mode == ModeView::NewRepos,
    ensures
        key_step(s, repos, key(KeyCode::Esc)).0.mode == ModeView::Normal,
        key_step(s, repos, key(KeyCode::Esc)).0.message is None,
        key_step(s, repos, key(KeyCode::Esc)).1 == EffectView::Nothing,
        key_step(s, repos, key(KeyCode::Esc)).0.workspaces == s.workspaces,
{
}

/// Only `y` removes a workspace that waits for confirmation; any other key
/// returns to the normal mode and asks for nothing.
pub proof fn law_only_yes_confirms(s: AppView, repos: Seq<Seq<char>>, name: Seq<char>, k: Key)
    requires
        s.mode == ModeView::ConfirmDone(name),
    ensures
        k.code == KeyCode::Char('y') ==> key_step(s, repos, k).1 == EffectView::RemoveWorkspace(
            name,
        ),
        k.code != KeyCode::Char('y') ==> key_step(s, repos, k).1 == EffectView::Nothing
            && key_step(s, repos, k).0.mode == ModeView::Normal,
{
}

/// `q` and Escape quit from the normal mode.
pub proof fn law_quit_keys(s: AppView, repos: Seq<Seq<char>>)
    requires
        s.mode == ModeView::Normal,
    ensures
        key_step(s, repos, key(KeyCode::Char('q'))).0.should_quit,
        key_step(s, repos, key(KeyCode::Esc)).0.should_quit,
        key_step(s, repos, Key { code: KeyCode::Char('c'), ctrl: true }).0.should_quit,
{
}

/// Moving down and back up returns to the same workspace when the selection
/// was not on the last one (the status message is cleared).
pub proof fn law_down_then_up(s: AppView, repos: Seq<Seq<char>>)
    requires
        s.mode == ModeView::Normal,
        0 <= s.ws_index,
        s.ws_index + 1 < s.workspaces.len(),
    ensures
        key_step(key_step(s, repos, key(KeyCode::Down)).0, repos, key(KeyCode::Up)).0
            == with_message(s, None),
{
    let t = key_step(s, repos, key(KeyCode::Down)).0;
    assert(t.ws_index == s.ws_index + 1);
}

/// Typing an allowed character and erasing it leaves the name as it was.
pub proof fn law_type_then_erase(s: AppView, repos: Seq<Seq<char>>, c: char)
    requires
        s.mode == ModeView::NewName,
        name_char_allowed(c),
    ensures
        key_step(key_step(s, repos, key(KeyCode::Char(c))).0, repos, key(KeyCode::Backspace)).0
            == s,
{
    assert(s.input.push(c).drop_last() =~= s.input);
}

/// Toggling the same repository twice leaves the choice as it was.
pub proof fn law_toggle_twice(s: AppView, repos: Seq<Seq<char>>)
    requires
        s.mode == ModeView::NewRepos,
        0 <= s.cursor,
    ensures
        key_step(key_step(s, repos, key(KeyCode::Char(' '))).0, repos, key(KeyCode::Char(' '))).0
            == s,
{
    if s.cursor < s.toggles.len() {
        let t = s.toggles[s.cursor];
        assert(s.toggles.update(s.cursor, (t.0, !t.1)).update(s.cursor, (t.0, t.1)) =~= s.toggles);
    }
}

/// Reloading the list keeps the selection when it still points at a workspace,
/// and always leaves the browser well formed.
pub proof fn law_refresh_keeps_selection(s: AppView, workspaces: Seq<Seq<char>>)
    requires
        well_formed(s),
    ensures
        s.ws_index < workspaces.len() ==> refreshed_state(s, workspaces).ws_index == s.ws_index,
        well_formed(refreshed_state(s, workspaces)),
{
}

// ---------------------------------------------------------------------------
// Runs of keys in the browser
// ---------------------------------------------------------------------------

proof fn lemma_run_step(s: AppView, repos: Seq<Seq<char>>, keys: Seq<Key>, i: int)
    requires
        0 <= i < keys.len(),
    ensures
        run_keys(s, repos, keys.take(i + 1)) == key_step(
            run_keys(s, repos, keys.take(i)),
            repos,
            keys[i],
        ).0,
{
    assert(keys.take(i + 1).drop_last() =~= keys.take(i));
    assert(keys.take(i + 1).last() == keys[i]);
}

/// Whatever keys are pressed, the browser stays well formed: in particular
/// the highlighted row is always a listed workspace when there is one.
pub proof fn law_runs_stay_well_formed(s: AppView, repos: Seq<Seq<char>>, keys: Seq<Key>)
    requires
        well_formed(s),
    ensures
        well_formed(run_keys(s, repos, keys)),
    decreases keys.len(),
{
    if keys.len() > 0 {
        law_runs_stay_well_formed(s, repos, keys.drop_last());
        lemma_key_step_well_formed(run_keys(s, repos, keys.drop_last()), repos, keys.last());
    }
}

/// A workspace is removed only on `y` after `d`: when a key of a run that
/// starts outside the confirmation asks to remove workspace `name`, an earlier
/// `d` was pressed in the normal mode while `name` was selected, and every key
/// since, this one included, was `y`.
pub proof fn law_removal_needs_d_then_y(
    s: AppView,
    repos: Seq<Seq<char>>,
    keys: Seq<Key>,
    i: int,
    name: Seq<char>,
)
    requires
        !(s.mode is ConfirmDone),
        0 <= i < keys.len(),
        effect_at(s, repos, keys, i) == EffectView::RemoveWorkspace(name),
    ensures
        exists|j: int|
            0 <= j < i && is_char(#[trigger] keys[j], 'd') && run_keys(s, repos, keys.take(j)).mode
                == ModeView::Normal && selects(run_keys(s, repos, keys.take(j)), name) && (forall|
                m: int,
            | j < m <= i ==> is_char(#[trigger] keys[m], 'y')),
    decreases i,
{
    let t = run_keys(s, repos, keys.take(i));
    assert(t.mode == ModeView::ConfirmDone(name) && is_char(keys[i], 'y'));
    if i == 0 {
        assert(keys.take(0) =~= Seq::<Key>::empty());
        assert(false);
    } else {
        let p = run_keys(s, repos, keys.take(i - 1));
        lemma_run_step(s, repos, keys, i - 1);
        assert(t == key_step(p, repos, keys[i - 1]).0);
        match p.mode {
            ModeView::ConfirmDone(n) => {
                assert(is_char(keys[i - 1], 'y') && n == name);
                assert(effect_at(s, repos, keys, i - 1) == EffectView::RemoveWorkspace(name));
                law_removal_needs_d_then_y(s, repos, keys, i - 1, name);
                let j = choose|j: int|
                    0 <= j < i - 1 && is_char(#[trigger] keys[j], 'd') && run_keys(
                        s,
                        repos,
                        keys.take(j),
                    ).mode == ModeView::Normal && selects(run_keys(s, repos, keys.take(j)), name)
                        && (forall|m: int| j < m <= i - 1 ==> is_char(#[trigger] keys[m], 'y'));
                assert(forall|m: int| j < m <= i ==> is_char(#[trigger] keys[m], 'y'));
            },
            _ => {
                assert(is_char(keys[i - 1], 'd') && p.mode == ModeView::Normal && selects(p, name));
                assert(forall|m: int| i - 1 < m <= i ==> is_char(#[trigger] keys[m], 'y'));
            },
        }
    }
}

// ---------------------------------------------------------------------------
// Shell quoting
// ---------------------------------------------------------------------------

/// Quoting a text for the shell escapes it as `replace` would: each `'` of the
/// text becomes `'\''`, and every other character stays as it is.
pub proof fn law_escape_is_replace(s: Seq<char>)
    ensures
        escape_quotes(s) == replaced(s, '\'', "'\\''"@),
    decreases s.len(),
{
    let with = "'\\''"@;
    let parts = s.map_values(|x: char| replacement(x, '\'', with));
    if s.len() == 0 {
        assert(parts =~= Seq::<Seq<char>>::empty());
    } else {
        law_escape_is_replace(s.drop_last());
        let before = s.drop_last().map_values(|x: char| replacement(x, '\'', with));
        let last = seq![replacement(s.last(), '\'', with)];
        assert(parts =~= before + last);
        vstd::seq_lib::lemma_flatten_concat(before, last);
        last.lemma_flatten_one_element();
        assert(escape_quotes(s) =~= escape_quotes(s.drop_last()) + replacement(s.last(), '\'', with));
    }
}

// ---------------------------------------------------------------------------
// Pull requests
// ---------------------------------------------------------------------------

/// Each PR recorded in `created`, as `(repo, url)`, is for one of the first
/// `i` repositories of `names`.
pub open spec fn from_earlier_repos(
    names: Seq<Seq<char>>,
    created: Seq<(Seq<char>, Seq<char>)>,
    i: int,
) -> bool {
    forall|k: int|
        0 <= k < created.len() ==> exists|j: int|
            0 <= j < i && #[trigger] names[j] == (#[trigger] created[k]).0
}

/// `iws pr` handles the repositories in name order and records a PR only once
/// it is created: so the PRs that the `i`-th repository's body links are all of
/// earlier repositories, never of its own, and once its PR is recorded the
/// list still holds only repositories up to it.
pub proof fn law_pr_links_only_earlier_repos(
    names: Seq<Seq<char>>,
    created: Seq<(Seq<char>, Seq<char>)>,
    i: int,
    url: Seq<char>,
)
    requires
        strictly_sorted(names),
        0 <= i < names.len(),
        from_earlier_repos(names, created, i),
    ensures
        forall|k: int| 0 <= k < created.len() ==> (#[trigger] created[k]).0 != names[i],
        from_earlier_repos(names, created.push((names[i], url)), i + 1),
{
    assert forall|k: int| 0 <= k < created.len() implies (#[trigger] created[k]).0 != names[i] by {
        let j = choose|j: int| 0 <= j < i && #[trigger] names[j] == created[k].0;
        assert(crate::name_map::str_less(names[j], names[i]));
        lemma_str_less_irreflexive(names[i]);
    }
    let after = created.push((names[i], url));
    assert forall|k: int| 0 <= k < after.len() implies exists|j: int|
        0 <= j < i + 1 && #[trigger] names[j] == (#[trigger] after[k]).0 by {
        if k < created.len() {
            assert(after[k] == created[k]);
            let j = choose|j: int| 0 <= j < i && #[trigger] names[j] == created[k].0;
            assert(names[j] == after[k].0);
        } else {
            assert(names[i] == after[k].0);
        }
    }
}

// ---------------------------------------------------------------------------
// The texts and steps of the commands
// ---------------------------------------------------------------------------

proof fn lemma_joined_push(parts: Seq<Seq<char>>, sep: Seq<char>, x: Seq<char>)
    ensures
        joined(parts.push(x), sep) == if parts.len() == 0 {
            x
        } else {
            joined(parts, sep) + sep + x
        },
{
    assert(parts.push(x).drop_last() =~= parts);
    if parts.len() == 0 {
        assert(parts.push(x)[0] == x);
    }
}

/// Each PR created links into every later body: recording one more PR adds,
/// after all the lines of the PRs already recorded, exactly one line
/// `- <repo>: <url>`, under the header `## Related PRs` when it is the first.
pub proof fn law_pr_body_links_every_created_pr(
    custom: Option<Seq<char>>,
    name: Seq<char>,
    branch: Seq<char>,
    others: Seq<Seq<char>>,
    created: Seq<(Seq<char>, Seq<char>)>,
    repo: Seq<char>,
    url: Seq<char>,
)
    ensures
        pr_body_text(custom, name, branch, others, created.push((repo, url))) == pr_body_text(
            custom,
            name,
            branch,
            others,
            created,
        ) + (if created.len() == 0 {
            "\n\n## Related PRs\n"@
        } else {
            "\n"@
        }) + "- "@ + repo + ": "@ + url,
{
    let after = created.push((repo, url));
    let old_lines = Seq::new(created.len(), |i: int| "- "@ + created[i].0 + ": "@ + created[i].1);
    let new_lines = Seq::new(after.len(), |i: int| "- "@ + after[i].0 + ": "@ + after[i].1);
    let line = "- "@ + repo + ": "@ + url;
    assert(new_lines =~= old_lines.push(line));
    lemma_joined_push(old_lines, "\n"@, line);
    assert(related_prs_section(after) =~= related_prs_section(created) + (if created.len() == 0 {
        "\n\n## Related PRs\n"@
    } else {
        "\n"@
    }) + line);
}

/// Each other repository is listed in a body: with no PR created yet, one
/// more repository adds, after those already listed, exactly one line
/// ``- `<repo>` (branch: `<branch>`)``, under `## Related repos` when it is
/// the first.
pub proof fn law_pr_body_lists_every_other_repo(
    custom: Option<Seq<char>>,
    name: Seq<char>,
    branch: Seq<char>,
    others: Seq<Seq<char>>,
    other: Seq<char>,
)
    ensures
        pr_body_text(custom, name, branch, others.push(other), Seq::empty()) == pr_body_text(
            custom,
            name,
            branch,
            others,
            Seq::empty(),
        ) + (if others.len() == 0 {
            "\n\n## Related repos\n"@
        } else {
            "\n"@
        }) + "- `"@ + other + "` (branch: `"@ + branch + "`)"@,
{
    let after = others.push(other);
    let old_lines = Seq::new(others.len(), |i: int| "- `"@ + others[i] + "` (branch: `"@ + branch + "`)"@);
    let new_lines = Seq::new(after.len(), |i: int| "- `"@ + after[i] + "` (branch: `"@ + branch + "`)"@);
    let line = "- `"@ + other + "` (branch: `"@ + branch + "`)"@;
    assert(new_lines =~= old_lines.push(line));
    lemma_joined_push(old_lines, "\n"@, line);
    assert(related_prs_section(Seq::empty()) =~= Seq::<char>::empty());
    assert(related_repos_section(after, branch) =~= related_repos_section(others, branch) + (
    if others.len() == 0 {
        "\n\n## Related repos\n"@
    } else {
        "\n"@
    }) + line);
}

/// A body given by the user, with no other repository and no PR created, is
/// that body alone; the default one names the workspace and the branch.
pub proof fn law_pr_body_head(custom: Seq<char>, name: Seq<char>, branch: Seq<char>)
    ensures
        pr_body_text(Some(custom), name, branch, Seq::empty(), Seq::empty()) == custom,
        pr_body_text(None, name, branch, Seq::empty(), Seq::empty()) == "Workspace: `"@ + name
            + "`\nBranch: `"@ + branch + "`"@,
{
    assert(pr_body_text(Some(custom), name, branch, Seq::empty(), Seq::empty()) =~= custom);
    assert(pr_body_text(None, name, branch, Seq::empty(), Seq::empty()) =~= "Workspace: `"@ + name
        + "`\nBranch: `"@ + branch + "`"@);
}

/// `iws status` says `clean` exactly when a worktree has no commit ahead and
/// no modified file; otherwise it gives the commits ahead first (cyan) when
/// there are any, and the modified files last (yellow) when there are any.
pub proof fn law_status_parts(ahead: nat, dirty: nat)
    ensures
        (status_parts_text(ahead, dirty) == seq![("clean"@, Tone::Green)]) <==> (ahead == 0 && dirty
            == 0),
        ahead > 0 ==> status_parts_text(ahead, dirty)[0] == (
            decimal(ahead) + " commits ahead"@,
            Tone::Cyan,
        ),
        dirty > 0 ==> status_parts_text(ahead, dirty).last() == (decimal(dirty) + (if dirty == 1 {
            " file modified"@
        } else {
            " files modified"@
        }), Tone::Yellow),
        status_parts_text(ahead, dirty).len() == if ahead == 0 && dirty == 0 {
            1
        } else {
            (if ahead > 0 {
                1int
            } else {
                0
            }) + (if dirty > 0 {
                1int
            } else {
                0
            })
        },
{
    reveal_strlit(" file");
    reveal_strlit("");
    reveal_strlit("s");
    reveal_strlit(" modified");
    reveal_strlit(" file modified");
    reveal_strlit(" files modified");
    let p = status_parts_text(ahead, dirty);
    if dirty > 0 {
        let t = decimal(dirty) + " file"@ + (if dirty == 1 {
            ""@
        } else {
            "s"@
        }) + " modified"@;
        assert(t =~= decimal(dirty) + (if dirty == 1 {
            " file modified"@
        } else {
            " files modified"@
        }));
    }
    if p == seq![("clean"@, Tone::Green)] {
        if ahead > 0 {
            assert(p[0].1 == Tone::Cyan);
        } else if dirty > 0 {
            assert(p[0].1 == Tone::Yellow);
        }
    }
}

/// The one-word state in `iws list` is `clean` exactly when a worktree has
/// no commit ahead and no modified file; it starts with the commits ahead
/// (and `↑`) when there are any, and ends with the modified files (and `✎`)
/// when there are any.
pub proof fn law_list_status(ahead: nat, dirty: nat)
    ensures
        list_status_tone(ahead, dirty) == Tone::Green <==> (ahead == 0 && dirty == 0),
        ahead == 0 && dirty == 0 ==> list_status_text(ahead, dirty) == "clean"@,
        ahead > 0 ==> (decimal(ahead) + "↑"@).is_prefix_of(list_status_text(ahead, dirty)),
        dirty > 0 ==> (decimal(dirty) + "✎"@).is_suffix_of(list_status_text(ahead, dirty)),
{
    let t = list_status_text(ahead, dirty);
    reveal_strlit("↑ ");
    reveal_strlit("↑");
    reveal_strlit(" ");
    if ahead > 0 && dirty > 0 {
        let a = decimal(ahead) + "↑"@;
        assert(t =~= a + " "@ + decimal(dirty) + "✎"@);
        assert(t.subrange(0, a.len() as int) =~= a);
        let d = decimal(dirty) + "✎"@;
        assert(t.subrange(t.len() - d.len(), t.len() as int) =~= d);
    } else if ahead > 0 {
        assert(t.subrange(0, t.len() as int) =~= t);
    } else if dirty > 0 {
        assert(t.subrange(0, t.len() as int) =~= t);
    }
}

/// `iws done` goes on only on a yes: an answer confirms exactly when, once
/// trimmed, it is the single character `y` or `Y`, so a blank answer never
/// does.
pub proof fn law_only_y_confirms(answer: Seq<char>)
    ensures
        is_yes(answer) <==> (trim(answer).len() == 1 && (trim(answer)[0] == 'y' || trim(answer)[0]
            == 'Y')),
        trim(answer).len() == 0 ==> !is_yes(answer),
{
    if trim(answer).len() == 1 && (trim(answer)[0] == 'y' || trim(answer)[0] == 'Y') {
        if trim(answer)[0] == 'y' {
            assert(trim(answer) =~= seq!['y']);
        } else {
            assert(trim(answer) =~= seq!['Y']);
        }
    }
}

/// In the chooser of repositories, Down and `j` move the cursor down by
/// exactly one when it is not on the last repository, and Up then brings it
/// back.
pub proof fn law_chooser_down_then_up(s: AppView, repos: Seq<Seq<char>>)
    requires
        s.mode == ModeView::NewRepos,
        0 <= s.cursor,
        s.cursor + 1 < s.toggles.len(),
    ensures
        key_step(s, repos, key(KeyCode::Down)).0.cursor == s.cursor + 1,
        key_step(s, repos, key(KeyCode::Char('j'))).0.cursor == s.cursor + 1,
        key_step(key_step(s, repos, key(KeyCode::Down)).0, repos, key(KeyCode::Up)).0 == s,
        key_step(s, repos, key(KeyCode::Up)).0.cursor == if s.cursor > 0 {
            s.cursor - 1
        } else {
            0
        },
{
    let t = key_step(s, repos, key(KeyCode::Down)).0;
    assert(t.cursor == s.cursor + 1);
    assert(key_step(t, repos, key(KeyCode::Up)).0 =~= s);
}

/// In the normal mode, Down and `j` move the selection down by exactly one
/// when it is not on the last workspace, and stay on the last one otherwise.
pub proof fn law_normal_down_moves_by_one(s: AppView, repos: Seq<Seq<char>>)
    requires
        s.mode == ModeView::Normal,
        0 <= s.ws_index < s.workspaces.len(),
    ensures
        key_step(s, repos, key(KeyCode::Down)).0.ws_index == if s.ws_index + 1 < s.workspaces.len() {
            s.ws_index + 1
        } else {
            s.ws_index
        },
        key_step(s, repos, key(KeyCode::Char('j'))).0.ws_index == key_step(
            s,
            repos,
            key(KeyCode::Down),
        ).0.ws_index,
{
}

/// A new worktree gets exactly the files its repository's configuration
/// names, all of them and in their order.
pub proof fn law_new_copies_configured_files(config: Config, repo: Seq<char>)
    requires
        config.repos@.contains_key(repo),
    ensures
        shared_files_of(config, repo) == config.repos@[repo].shared_files,
{
}

/// The other repositories of a workspace are exactly its repositories but
/// the one at hand.
pub proof fn law_other_repos_are_the_rest(names: Seq<Seq<char>>, name: Seq<char>, x: Seq<char>)
    ensures
        names_except(names, name).contains(x) <==> (names.contains(x) && x != name),
    decreases names.len(),
{
    if names.len() > 0 {
        law_other_repos_are_the_rest(names.drop_last(), name, x);
        assert(names =~= names.drop_last().push(names.last()));
        if names.contains(x) && x != name {
            let i = choose|i: int| 0 <= i < names.len() && names[i] == x;
            if i < names.len() - 1 {
                assert(names.drop_last()[i] == x);
            }
        }
        if names.drop_last().contains(x) {
            let i = choose|i: int| 0 <= i < names.drop_last().len() && names.drop_last()[i] == x;
            assert(names[i] == x);
        }
        if names_except(names, name).contains(x) && names.last() != name {
            let e = names_except(names.drop_last(), name);
            let i = choose|i: int| 0 <= i < e.push(names.last()).len() && e.push(names.last())[i] == x;
            if i < e.len() {
                assert(e[i] == x);
            }
        }
        if names.last() != name && names.last() == x {
            let e = names_except(names.drop_last(), name);
            assert(e.push(x)[e.len() as int] == x);
        }
        if names_except(names.drop_last(), name).contains(x) && names.last() != name {
            let e = names_except(names.drop_last(), name);
            let i = choose|i: int| 0 <= i < e.len() && e[i] == x;
            assert(e.push(names.last())[i] == x);
        }
    }
}

/// `iws done` warns about a repository with a given number of uncommitted
/// changes exactly when its worktree exists with that many changes, and
/// more than none.
pub proof fn law_done_warns_exactly_dirty(
    states: Seq<(Seq<char>, bool, nat)>,
    repo: Seq<char>,
    count: nat,
)
    ensures
        dirty_worktrees(states).contains((repo, count)) <==> (count > 0 && states.contains(
            (repo, true, count),
        )),
    decreases states.len(),
{
    if states.len() > 0 {
        let rest = states.drop_last();
        let last = states.last();
        law_done_warns_exactly_dirty(rest, repo, count);
        assert(states =~= rest.push(last));
        let d = dirty_worktrees(rest);
        if states.contains((repo, true, count)) {
            let i = choose|i: int| 0 <= i < states.len() && states[i] == (repo, true, count);
            if i < rest.len() {
                assert(rest[i] == (repo, true, count));
            }
        }
        if rest.contains((repo, true, count)) {
            let i = choose|i: int| 0 <= i < rest.len() && rest[i] == (repo, true, count);
            assert(states[i] == (repo, true, count));
        }
        if last.1 && last.2 > 0 {
            if d.push((last.0, last.2)).contains((repo, count)) {
                let i = choose|i: int|
                    0 <= i < d.push((last.0, last.2)).len() && d.push((last.0, last.2))[i] == (
                        repo,
                        count,
                    );
                if i < d.len() {
                    assert(d[i] == (repo, count));
                }
            }
            if d.contains((repo, count)) {
                let i = choose|i: int| 0 <= i < d.len() && d[i] == (repo, count);
                assert(d.push((last.0, last.2))[i] == (repo, count));
            }
            if last == (repo, true, count) {
                assert(d.push((last.0, last.2))[d.len() as int] == (repo, count));
            }
        }
    }
}

/// A PR's title is the title asked for, else the workspace's name, followed
/// by ` (<repo>)`; a title asked for does not depend on the workspace's name.
pub proof fn law_pr_title(custom: Seq<char>, name: Seq<char>, other_name: Seq<char>, repo: Seq<char>)
    ensures
        pr_title_text(Some(custom), name, repo) == pr_title_text(Some(custom), other_name, repo),
        pr_title_text(None, name, repo) == pr_title_text(Some(name), other_name, repo),
        pr_title_text(Some(custom), name, repo) == custom + " ("@ + repo + ")"@,
{
}

/// The state in `iws list` is green when clean, cyan when only commits are
/// ahead, and yellow whenever files are modified.
pub proof fn law_list_status_tone(ahead: nat, dirty: nat)
    ensures
        dirty > 0 ==> list_status_tone(ahead, dirty) == Tone::Yellow,
        ahead > 0 && dirty == 0 ==> list_status_tone(ahead, dirty) == Tone::Cyan,
        ahead == 0 && dirty == 0 ==> list_status_tone(ahead, dirty) == Tone::Green,
{
}

/// The warnings of `iws done` keep the repositories' order: one more
/// repository adds its warning after the others, when it has one.
pub proof fn law_done_warnings_in_order(
    states: Seq<(Seq<char>, bool, nat)>,
    repo: Seq<char>,
    exists: bool,
    count: nat,
)
    ensures
        dirty_worktrees(states.push((repo, exists, count))) == if exists && count > 0 {
            dirty_worktrees(states).push((repo, count))
        } else {
            dirty_worktrees(states)
        },
{
    assert(states.push((repo, exists, count)).drop_last() =~= states);
}

/// The other repositories keep the workspace's order: one more repository is
/// listed after the others, unless it is the one at hand.
pub proof fn law_other_repos_in_order(names: Seq<Seq<char>>, name: Seq<char>, x: Seq<char>)
    ensures
        names_except(names.push(x), name) == if x == name {
            names_except(names, name)
        } else {
            names_except(names, name).push(x)
        },
{
    assert(names.push(x).drop_last() =~= names);
}

/// A failed `iws new` removes one worktree per repository recorded so far, in
/// their order: the `k`-th is that repository's directory in the workspace.
pub proof fn law_rollback_covers_every_recorded_repo(names: Seq<Seq<char>>, ws_dir: Seq<char>, k: int)
    requires
        0 <= k < names.len(),
    ensures
        worktrees_of(names, ws_dir).len() == names.len(),
        worktrees_of(names, ws_dir)[k].0 == names[k],
        worktrees_of(names, ws_dir)[k].1 == path_join(ws_dir, names[k]),
{
}

/// The repositories of a new workspace are exactly those ticked in the
/// chooser, in the chooser's order.
pub proof fn law_chosen_are_the_ticked(t: Seq<(Seq<char>, bool)>, x: Seq<char>, ticked: bool)
    ensures
        chosen(t).contains(x) <==> t.contains((x, true)),
        chosen(t.push((x, ticked))) == if ticked {
            chosen(t).push(x)
        } else {
            chosen(t)
        },
    decreases t.len(),
{
    assert(t.push((x, ticked)).drop_last() =~= t);
    if t.len() > 0 {
        let rest = t.drop_last();
        let last = t.last();
        law_chosen_are_the_ticked(rest, x, ticked);
        assert(t =~= rest.push(last));
        let c = chosen(rest);
        if t.contains((x, true)) {
            let i = choose|i: int| 0 <= i < t.len() && t[i] == (x, true);
            if i < rest.len() {
                assert(rest[i] == (x, true));
            }
        }
        if rest.contains((x, true)) {
            let i = choose|i: int| 0 <= i < rest.len() && rest[i] == (x, true);
            assert(t[i] == (x, true));
        }
        if last.1 {
            if c.push(last.0).contains(x) {
                let i = choose|i: int| 0 <= i < c.push(last.0).len() && c.push(last.0)[i] == x;
                if i < c.len() {
                    assert(c[i] == x);
                }
            }
            if c.contains(x) {
                let i = choose|i: int| 0 <= i < c.len() && c[i] == x;
                assert(c.push(last.0)[i] == x);
            }
            if last.0 == x {
                assert(c.push(last.0)[c.len() as int] == x);
            }
        }
    }
}

/// Space in the chooser ticks or unticks exactly the repository under the
/// cursor and leaves every other one, and the list of names, as it was.
pub proof fn law_space_toggles_only_the_cursor(s: AppView, repos: Seq<Seq<char>>, k: int)
    requires
        s.mode == ModeView::NewRepos,
        0 <= s.cursor < s.toggles.len(),
        0 <= k < s.toggles.len(),
    ensures
        key_step(s, repos, key(KeyCode::Char(' '))).0.toggles.len() == s.toggles.len(),
        key_step(s, repos, key(KeyCode::Char(' '))).0.toggles[k].0 == s.toggles[k].0,
        key_step(s, repos, key(KeyCode::Char(' '))).0.toggles[k].1 == if k == s.cursor {
            !s.toggles[k].1
        } else {
            s.toggles[k].1
        },
        key_step(s, repos, key(KeyCode::Char(' '))).0.cursor == s.cursor,
{
}

/// The workspaces listed are exactly the entries that are not hidden and hold
/// a workspace file, in the order given.
pub proof fn law_listed_workspaces(c: Seq<(Seq<char>, bool)>, x: Seq<char>, has_file: bool)
    ensures
        kept_names(c).contains(x) <==> (!is_hidden(x) && c.contains((x, true))),
        kept_names(c.push((x, has_file))) == if !is_hidden(x) && has_file {
            kept_names(c).push(x)
        } else {
            kept_names(c)
        },
    decreases c.len(),
{
    assert(c.push((x, has_file)).drop_last() =~= c);
    if c.len() > 0 {
        let rest = c.drop_last();
        let last = c.last();
        law_listed_workspaces(rest, x, has_file);
        assert(c =~= rest.push(last));
        let k = kept_names(rest);
        if c.contains((x, true)) {
            let i = choose|i: int| 0 <= i < c.len() && c[i] == (x, true);
            if i < rest.len() {
                assert(rest[i] == (x, true));
            }
        }
        if rest.contains((x, true)) {
            let i = choose|i: int| 0 <= i < rest.len() && rest[i] == (x, true);
            assert(c[i] == (x, true));
        }
        if !is_hidden(last.0) && last.1 {
            if k.push(last.0).contains(x) {
                let i = choose|i: int| 0 <= i < k.push(last.0).len() && k.push(last.0)[i] == x;
                if i < k.len() {
                    assert(k[i] == x);
                }
            }
            if k.contains(x) {
                let i = choose|i: int| 0 <= i < k.len() && k[i] == x;
                assert(k.push(last.0)[i] == x);
            }
            if last.0 == x {
                assert(k.push(last.0)[k.len() as int] == x);
            }
        }
    }
}

} // verus!
