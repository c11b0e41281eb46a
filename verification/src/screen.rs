//! The texts, tones and sizes that the browser's screen shows; drawing them
//! is left to the terminal front end.

use vstd::prelude::*;
use vstd::utf8::{encode_utf8, is_char_boundary};
use vstd::string::StringSliceAdditionalSpecFns;
use crate::commands::Tone;
use crate::text::{decimal, join, joined, owned, push_decimal, views};
use crate::tui::{RepoStatus, WorkspaceInfo};

verus! {

pub open spec fn total_ahead(repos: Seq<RepoStatus>) -> nat
    decreases repos.len(),
{
    if repos.len() == 0 {
        0
    } else {
        total_ahead(repos.drop_last()) + repos.last().ahead as nat
    }
}

pub open spec fn total_dirty(repos: Seq<RepoStatus>) -> nat
    decreases repos.len(),
{
    if repos.len() == 0 {
        0
    } else {
        total_dirty(repos.drop_last()) + repos.last().dirty as nat
    }
}

/// The summary of a workspace in the list: its repositories, then the
/// commits ahead and the changed files over all of them, where there are any.
pub open spec fn summary_parts(count: nat, ahead: nat, dirty: nat) -> Seq<Seq<char>> {
    seq![decimal(count) + " repos"@] + (if ahead > 0 {
        seq![decimal(ahead) + "↑"@]
    } else {
        Seq::empty()
    }) + (if dirty > 0 {
        seq![decimal(dirty) + "✎"@]
    } else {
        Seq::empty()
    })
}

/// The two spans of a workspace's line in the list: its name, padded, and its summary.
pub fn workspace_list_entry(ws: &WorkspaceInfo) -> (r: (String, String))
    requires
        total_ahead(ws.repos@) <= usize::MAX,
        total_dirty(ws.repos@) <= usize::MAX,
    ensures
        r.0@ == " "@ + ws.name@ + " "@,
        r.1@ == " "@ + joined(
            summary_parts(
                ws.repos.len() as nat,
                total_ahead(ws.repos@),
                total_dirty(ws.repos@),
            ),
            " "@,
        ),
{
    let mut ahead: usize = 0;
    let mut dirty: usize = 0;
    let mut i: usize = 0;
    assert(ws.repos@.take(0) =~= Seq::<RepoStatus>::empty());
    while i < ws.repos.len()
        invariant
            i <= ws.repos.len(),
            total_ahead(ws.repos@) <= usize::MAX,
            total_dirty(ws.repos@) <= usize::MAX,
            ahead == total_ahead(ws.repos@.take(i as int)),
            dirty == total_dirty(ws.repos@.take(i as int)),
        decreases ws.repos.len() - i,
    {
        assert(ws.repos@.take(i + 1).drop_last() =~= ws.repos@.take(i as int));
        proof {
            lemma_totals_prefix(ws.repos@, i + 1);
        }
        ahead = ahead + ws.repos[i].ahead;
        dirty = dirty + ws.repos[i].dirty;
        i = i + 1;
    }
    assert(ws.repos@.take(ws.repos.len() as int) =~= ws.repos@);
    let mut parts: Vec<String> = Vec::new();
    let mut first = String::new();
    push_decimal(&mut first, ws.repos.len());
    first.append(" repos");
    parts.push(first);
    if ahead > 0 {
        let mut s = String::new();
        push_decimal(&mut s, ahead);
        s.append("↑");
        parts.push(s);
    }
    if dirty > 0 {
        let mut s = String::new();
        push_decimal(&mut s, dirty);
        s.append("✎");
        parts.push(s);
    }
    assert(views(parts@) =~= summary_parts(ws.repos.len() as nat, ahead as nat, dirty as nat));
    let mut name = owned(" ");
    name.append(ws.name.as_str());
    name.append(" ");
    let mut summary = owned(" ");
    summary.append(join(&parts, " ").as_str());
    (name, summary)
}

proof fn lemma_totals_prefix(repos: Seq<RepoStatus>, k: int)
    requires
        0 <= k <= repos.len(),
    ensures
        total_ahead(repos.take(k)) <= total_ahead(repos),
        total_dirty(repos.take(k)) <= total_dirty(repos),
    decreases repos.len() - k,
{
    if k < repos.len() {
        lemma_totals_prefix(repos, k + 1);
        assert(repos.take(k + 1).drop_last() =~= repos.take(k));
    } else {
        assert(repos.take(k) =~= repos);
    }
}

/// The state of one worktree in the workspace's table.
pub open spec fn repo_status_parts(ahead: nat, dirty: nat) -> Seq<Seq<char>> {
    if ahead == 0 && dirty == 0 {
        seq!["clean"@]
    } else {
        (if ahead > 0 {
            seq![decimal(ahead) + " ahead"@]
        } else {
            Seq::empty()
        }) + (if dirty > 0 {
            seq![decimal(dirty) + " dirty"@]
        } else {
            Seq::empty()
        })
    }
}

pub open spec fn repo_status_line(exists: bool, ahead: nat, dirty: nat) -> Seq<char> {
    if !exists {
        "MISSING"@
    } else {
        joined(repo_status_parts(ahead, dirty), ", "@)
    }
}

pub fn repo_status_text(repo: &RepoStatus) -> (r: String)
    ensures
        r@ == repo_status_line(repo.exists, repo.ahead as nat, repo.dirty as nat),
{
    if !repo.exists {
        return owned("MISSING");
    }
    let mut parts: Vec<String> = Vec::new();
    if repo.ahead > 0 {
        let mut s = String::new();
        push_decimal(&mut s, repo.ahead);
        s.append(" ahead");
        parts.push(s);
    }
    if repo.dirty > 0 {
        let mut s = String::new();
        push_decimal(&mut s, repo.dirty);
        s.append(" dirty");
        parts.push(s);
    }
    if parts.len() == 0 {
        parts.push(owned("clean"));
    }
    assert(views(parts@) =~= repo_status_parts(repo.ahead as nat, repo.dirty as nat));
    join(&parts, ", ")
}

/// The color of a worktree's state: missing red, changed files yellow,
/// commits ahead cyan, clean green.
pub fn repo_status_tone(repo: &RepoStatus) -> (t: Tone)
    ensures
        t == if !repo.exists {
            Tone::Red
        } else if repo.dirty > 0 {
            Tone::Yellow
        } else if repo.ahead > 0 {
            Tone::Cyan
        } else {
            Tone::Green
        },
{
    if !repo.exists {
        Tone::Red
    } else if repo.dirty > 0 {
        Tone::Yellow
    } else if repo.ahead > 0 {
        Tone::Cyan
    } else {
        Tone::Green
    }
}

proof fn lemma_encode_concat(a: Seq<char>, b: Seq<char>)
    ensures
        encode_utf8(a + b) == encode_utf8(a) + encode_utf8(b),
    decreases a.len(),
{
    if a.len() == 0 {
        assert(a + b =~= b);
    } else {
        lemma_encode_concat(a.drop_first(), b);
        assert((a + b).drop_first() =~= a.drop_first() + b);
        assert((a + b)[0] == a[0]);
    }
}

/// A branch name as the table shows it: longer than 30 bytes, it is cut to
/// its first 29 bytes and ends with `…`.
pub fn branch_display(branch: &str) -> (r: String)
    requires
        branch.spec_bytes().len() <= usize::MAX,
        branch.spec_bytes().len() > 30 ==> is_char_boundary(branch.spec_bytes(), 29),
    ensures
        branch.spec_bytes().len() > 30 ==> encode_utf8(r@) == branch.spec_bytes().take(29)
            + encode_utf8("…"@),
        branch.spec_bytes().len() <= 30 ==> r@ == branch@,
{
    if branch.len() > 30 {
        let (head, _tail) = branch.split_at(29);
        let mut r = owned(head);
        r.append("…");
        proof {
            lemma_encode_concat(head@, "…"@);
            assert(head.spec_bytes() == encode_utf8(head@));
            assert(branch.spec_bytes().take(29) =~= branch.spec_bytes().subrange(0, 29));
        }
        r
    } else {
        owned(branch)
    }
}

/// The status line: the current message (red and bold for an error, green
/// otherwise), or the number of workspaces in gray.
pub fn status_bar(message: &Option<(String, bool)>, workspace_count: usize) -> (r: (
    String,
    Tone,
    bool,
))
    ensures
        match message {
            Some((m, is_error)) => r.0@ == m@ && r.1 == (if *is_error {
                Tone::Red
            } else {
                Tone::Green
            }) && r.2 == *is_error,
            None => r.0@ == "iws — "@ + decimal(workspace_count as nat) + " workspace(s)"@ && r.1
                == Tone::Gray && !r.2,
        },
{
    match message {
        Some((m, is_error)) => {
            if *is_error {
                (m.clone(), Tone::Red, true)
            } else {
                (m.clone(), Tone::Green, false)
            }
        },
        None => {
            let mut s = owned("iws — ");
            push_decimal(&mut s, workspace_count);
            s.append(" workspace(s)");
            (s, Tone::Gray, false)
        },
    }
}

/// The height of the repository chooser: four rows more than the
/// repositories, at most 15.
pub fn repo_selector_height(count: usize) -> (h: u16)
    requires
        count + 4 <= usize::MAX,
    ensures
        h == if count + 4 < 15 {
            count + 4
        } else {
            15
        },
{
    if count + 4 < 15 {
        (count + 4) as u16
    } else {
        15
    }
}

/// A repository's line in the chooser: ` [x] name` when chosen, ` [ ] name` when not.
pub fn repo_selector_item(name: &str, chosen: bool) -> (r: String)
    ensures
        r@ == (if chosen {
            " [x] "@
        } else {
            " [ ] "@
        }) + name@,
{
    let mut r = if chosen {
        owned(" [x] ")
    } else {
        owned(" [ ] ")
    };
    r.append(name);
    r
}

/// The chooser's title.
pub fn repo_selector_title(name: &str) -> (r: String)
    ensures
        r@ == " Select repos for '"@ + name@ + "' "@,
{
    let mut r = owned(" Select repos for '");
    r.append(name);
    r.append("' ");
    r
}

/// The creation date shown beside a workspace's name.
pub fn created_label(created: &str) -> (r: String)
    ensures
        r@ == "created "@ + created@,
{
    let mut r = owned("created ");
    r.append(created);
    r
}

/// Where a popup goes in an area `area_height` rows high and `width_percent`
/// of its width: the rows above it, and the percentage on each side. The
/// rows above never run past the area, and leave room for the popup when it
/// fits; the two sides and the popup never take more than the whole width.
pub fn popup_margins(area_height: u16, height: u16, width_percent: u16) -> (r: (u16, u16))
    requires
        width_percent <= 100,
    ensures
        r.0 == (if area_height >= height {
            area_height - height
        } else {
            0
        }) / 2,
        r.1 == (100 - width_percent) / 2,
        r.0 <= area_height,
        height <= area_height ==> r.0 + height <= area_height,
        2 * r.1 + width_percent <= 100,
{
    let free = if area_height >= height {
        area_height - height
    } else {
        0
    };
    (free / 2, (100 - width_percent) / 2)
}

} // verus!
