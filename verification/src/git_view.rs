//! What the git panel shows: its title, its hint, and the rows in view.
//! Where they land in pixels is the renderer's business.
use vstd::prelude::*;
use vstd::string::*;
use crate::git;
use crate::git::{git_lines, CommitState, DiffKind, Entry, GitLine, GitPanel, GitState, GitView, Status};
use crate::text;
use crate::text::{blank, copy_text, joined, joined3};

verus! {

/// What a piece of text is drawn in.
#[derive(Clone, Copy, Debug, PartialEq, Eq, Structural)]
pub enum Ink {
    Text,
    Accent,
    Dim,
    /// The tree's colours for what became of a file.
    Modified,
    Added,
    Deleted,
    Untracked,
    Conflicted,
}

/// The colour of a state. A rename reads as a change.
pub open spec fn color_of(s: Status) -> Ink {
    match s {
        Status::Modified => Ink::Modified,
        Status::Renamed => Ink::Modified,
        Status::Added => Ink::Added,
        Status::Deleted => Ink::Deleted,
        Status::Untracked => Ink::Untracked,
        Status::Conflicted => Ink::Conflicted,
    }
}

pub fn git_color(s: Status) -> (r: Ink)
    ensures
        r == color_of(s),
{
    match s {
        Status::Modified => Ink::Modified,
        Status::Renamed => Ink::Modified,
        Status::Added => Ink::Added,
        Status::Deleted => Ink::Deleted,
        Status::Untracked => Ink::Untracked,
        Status::Conflicted => Ink::Conflicted,
    }
}

/// The letter of a state. A conflict is loud on purpose: it needs a decision.
pub open spec fn letter_of(s: Status) -> Seq<char> {
    match s {
        Status::Modified => "M"@,
        Status::Added => "A"@,
        Status::Deleted => "D"@,
        Status::Renamed => "R"@,
        Status::Untracked => "?"@,
        Status::Conflicted => "!"@,
    }
}

pub fn letter(s: Status) -> (r: &'static str)
    ensures
        r@ == letter_of(s),
{
    match s {
        Status::Modified => "M",
        Status::Added => "A",
        Status::Deleted => "D",
        Status::Renamed => "R",
        Status::Untracked => "?",
        Status::Conflicted => "!",
    }
}

/// The colour of a line of a diff.
pub open spec fn diff_color(k: DiffKind) -> Ink {
    match k {
        DiffKind::Add => Ink::Added,
        DiffKind::Del => Ink::Deleted,
        DiffKind::Hunk => Ink::Accent,
        DiffKind::Meta => Ink::Dim,
        DiffKind::Context => Ink::Text,
    }
}

pub fn diff_ink(k: DiffKind) -> (r: Ink)
    ensures
        r == diff_color(k),
{
    match k {
        DiffKind::Add => Ink::Added,
        DiffKind::Del => Ink::Deleted,
        DiffKind::Hunk => Ink::Accent,
        DiffKind::Meta => Ink::Dim,
        DiffKind::Context => Ink::Text,
    }
}

/// One row in view.
#[derive(Debug, PartialEq, Eq)]
pub enum GitRow {
    /// Nothing to draw: a blank line of a diff.
    Blank,
    Heading(String),
    /// A changed file: its letter in its colour, and its name in that colour
    /// too, unless it is the selected one.
    File { letter: &'static str, mark: Ink, name: String, name_ink: Ink, selected: bool },
    Diff { text: String, ink: Ink },
    /// A commit: its hash, its subject, and its age and author at the right.
    Commit { hash: String, subject: String, meta: String, selected: bool },
}

/// A row as a value.
pub enum GitRowState {
    Blank,
    Heading(Seq<char>),
    File { letter: Seq<char>, mark: Ink, name: Seq<char>, name_ink: Ink, selected: bool },
    Diff { text: Seq<char>, ink: Ink },
    Commit { hash: Seq<char>, subject: Seq<char>, meta: Seq<char>, selected: bool },
}

impl View for GitRow {
    type V = GitRowState;

    open spec fn view(&self) -> GitRowState {
        match self {
            GitRow::Blank => GitRowState::Blank,
            GitRow::Heading(t) => GitRowState::Heading(t@),
            GitRow::File { letter, mark, name, name_ink, selected } => GitRowState::File {
                letter: letter@,
                mark: *mark,
                name: name@,
                name_ink: *name_ink,
                selected: *selected,
            },
            GitRow::Diff { text, ink } => GitRowState::Diff { text: text@, ink: *ink },
            GitRow::Commit { hash, subject, meta, selected } => GitRowState::Commit {
                hash: hash@,
                subject: subject@,
                meta: meta@,
                selected: *selected,
            },
        }
    }
}

/// The rows of a list as values.
pub open spec fn row_list(s: Seq<GitRow>) -> Seq<GitRowState> {
    Seq::new(s.len(), |i: int| s[i]@)
}

/// How many of `total` lines are in view from `top` on.
pub open spec fn in_view(top: nat, visible: nat, total: nat) -> nat {
    if top >= total {
        0
    } else if total - top <= visible {
        (total - top) as nat
    } else {
        visible
    }
}

fn shown_rows(top: usize, visible: usize, total: usize) -> (r: usize)
    ensures
        r == in_view(top as nat, visible as nat, total as nat),
        r > 0 ==> top + r <= total,
{
    if top >= total {
        0
    } else if total - top <= visible {
        total - top
    } else {
        visible
    }
}

/// The header: which screen this is, so that Esc always has a visible answer
/// to "back out of what?".
pub open spec fn title_of(m: GitState, branch: Option<Seq<char>>) -> Seq<char> {
    let on = "GIT \u{b7} "@ + (match branch {
        Some(b) => b,
        None => "no branch"@,
    });
    match m.view {
        GitView::Status => on,
        GitView::Diff => on + " \u{b7} "@ + m.diff_title,
        GitView::Log => on + " \u{b7} log"@,
    }
}

/// The last action's result outranks the standing key hint.
pub open spec fn hint_of(m: GitState) -> Seq<char> {
    match m.status {
        Some(s) => s,
        None => match m.view {
            GitView::Status => "Space stages \u{b7} Enter diff \u{b7} C commit \u{b7} X discards \u{b7} P pushes \u{b7} L log"@,
            GitView::Diff => "\u{2191}\u{2193} scroll \u{b7} Esc back"@,
            GitView::Log => "Enter shows the commit \u{b7} Esc back"@,
        },
    }
}

/// How many lines the current screen has, and the first in view.
pub open spec fn total_of(m: GitState) -> nat {
    match m.view {
        GitView::Status => git::git_screen(m.entries).len(),
        GitView::Diff => m.diff.len(),
        GitView::Log => m.commits.len(),
    }
}

pub open spec fn top_of(m: GitState) -> nat {
    match m.view {
        GitView::Status => m.top as nat,
        GitView::Diff => m.diff_top as nat,
        GitView::Log => m.log_top as nat,
    }
}

/// A changed file as a row.
pub open spec fn file_row(e: git::EntryState, selected: bool) -> GitRowState {
    GitRowState::File {
        letter: letter_of(e.status),
        mark: color_of(e.status),
        name: e.rel,
        name_ink: if selected { Ink::Text } else { color_of(e.status) },
        selected,
    }
}

/// A commit as a row.
pub open spec fn commit_row(c: CommitState, selected: bool) -> GitRowState {
    GitRowState::Commit {
        hash: c.hash,
        subject: c.subject,
        meta: c.when + " \u{b7} "@ + c.author,
        selected,
    }
}

/// The row of line `k` of the current screen.
pub open spec fn row_of(m: GitState, k: int) -> GitRowState {
    match m.view {
        GitView::Status => match git::git_screen(m.entries)[k] {
            git::GitLineState::Heading(t) => GitRowState::Heading(t),
            git::GitLineState::Entry(i) => file_row(m.entries[i as int], i == m.selected),
        },
        GitView::Diff => if text::is_blank(m.diff[k].1) {
            GitRowState::Blank
        } else {
            GitRowState::Diff { text: m.diff[k].1, ink: diff_color(m.diff[k].0) }
        },
        GitView::Log => commit_row(m.commits[k], k == m.log_selected),
    }
}

/// The panel as drawn.
#[derive(Debug)]
pub struct GitDrawn {
    pub title: String,
    pub hint: String,
    /// Said in place of an empty list of changes.
    pub note: Option<&'static str>,
    pub rows: Vec<GitRow>,
    /// The first line in view and how many there are: the scroll mark.
    pub top: usize,
    pub total: usize,
}

fn title(panel: &GitPanel, branch: Option<&str>) -> (r: String)
    ensures
        r@ == title_of(
            panel@,
            match branch {
                Some(b) => Some(b@),
                None => None,
            },
        ),
{
    let on: String = match branch {
        Some(b) => joined("GIT \u{b7} ", b),
        None => joined("GIT \u{b7} ", "no branch"),
    };
    match panel.view {
        GitView::Status => on,
        GitView::Diff => joined3(on.as_str(), " \u{b7} ", panel.diff_title.as_str()),
        GitView::Log => joined(on.as_str(), " \u{b7} log"),
    }
}

fn hint(panel: &GitPanel) -> (r: String)
    ensures
        r@ == hint_of(panel@),
{
    match &panel.status {
        Some(s) => s.clone(),
        None => match panel.view {
            GitView::Status => "Space stages \u{b7} Enter diff \u{b7} C commit \u{b7} X discards \u{b7} P pushes \u{b7} L log".to_owned(),
            GitView::Diff => "\u{2191}\u{2193} scroll \u{b7} Esc back".to_owned(),
            GitView::Log => "Enter shows the commit \u{b7} Esc back".to_owned(),
        },
    }
}

fn file(e: &Entry, selected: bool) -> (r: GitRow)
    ensures
        r@ == file_row(e@, selected),
{
    let mark: Ink = git_color(e.status);
    GitRow::File {
        letter: letter(e.status),
        mark,
        name: copy_text(e.rel.as_str()),
        name_ink: if selected { Ink::Text } else { mark },
        selected,
    }
}

/// The rows of the list of changes.
fn status_rows(panel: &GitPanel, lines: &Vec<GitLine>, visible: usize) -> (r: Vec<GitRow>)
    requires
        panel.view == GitView::Status,
        git::git_line_list(lines@) == git::git_screen(panel@.entries),
    ensures
        r@.len() == in_view(panel.top as nat, visible as nat, lines@.len()),
        forall|i: int|
            0 <= i < r@.len() ==> (#[trigger] r@[i])@ == row_of(panel@, panel.top + i),
{
    let ghost m = panel@;
    let ghost screen = git::git_screen(m.entries);
    let n: usize = shown_rows(panel.top, visible, lines.len());
    let mut out: Vec<GitRow> = Vec::new();
    let mut i: usize = 0;
    while i < n
        invariant
            i <= n,
            n > 0 ==> panel.top + n <= usize::MAX,
            n == in_view(panel.top as nat, visible as nat, lines@.len()),
            out.len() == i,
            m == panel@,
            m.view == GitView::Status,
            screen == git::git_screen(m.entries),
            screen == git::git_line_list(lines@),
            forall|k: int| 0 <= k < i ==> (#[trigger] out@[k])@ == row_of(m, panel.top + k),
        decreases n - i,
    {
        let at: usize = panel.top + i;
        assert(screen[at as int] == lines@[at as int]@);
        match &lines[at] {
            GitLine::Heading(t) => {
                out.push(GitRow::Heading(copy_text(t.as_str())));
            },
            GitLine::Entry(e) => {
                let e: usize = *e;
                proof {
                    git::lemma_line_names_an_entry(m.entries, at as int);
                    assert(m.entries[e as int] == panel.entries@[e as int]@);
                }
                out.push(file(&panel.entries[e], e == panel.selected));
            },
        }
        i = i + 1;
    }
    out
}

/// The rows of a diff. A blank line takes its row and draws nothing.
fn diff_rows(panel: &GitPanel, visible: usize) -> (r: Vec<GitRow>)
    requires
        panel.view == GitView::Diff,
    ensures
        r@.len() == in_view(panel.diff_top as nat, visible as nat, panel.diff@.len()),
        forall|i: int|
            0 <= i < r@.len() ==> (#[trigger] r@[i])@ == row_of(panel@, panel.diff_top + i),
{
    let ghost m = panel@;
    let n: usize = shown_rows(panel.diff_top, visible, panel.diff.len());
    let mut out: Vec<GitRow> = Vec::new();
    let mut i: usize = 0;
    while i < n
        invariant
            i <= n,
            n > 0 ==> panel.diff_top + n <= usize::MAX,
            n == in_view(panel.diff_top as nat, visible as nat, panel.diff@.len()),
            out.len() == i,
            m == panel@,
            m.view == GitView::Diff,
            forall|k: int| 0 <= k < i ==> (#[trigger] out@[k])@ == row_of(m, panel.diff_top + k),
        decreases n - i,
    {
        let at: usize = panel.diff_top + i;
        assert(m.diff[at as int] == (panel.diff@[at as int].0, panel.diff@[at as int].1@));
        let said: &String = &panel.diff[at].1;
        proof {
            text::lemma_trimmed_blank(said@);
        }
        if blank(said.as_str()) {
            out.push(GitRow::Blank);
        } else {
            out.push(GitRow::Diff { text: copy_text(said.as_str()), ink: diff_ink(panel.diff[at].0) });
        }
        i = i + 1;
    }
    out
}

/// The rows of the log.
fn log_rows(panel: &GitPanel, visible: usize) -> (r: Vec<GitRow>)
    requires
        panel.view == GitView::Log,
    ensures
        r@.len() == in_view(panel.log_top as nat, visible as nat, panel.commits@.len()),
        forall|i: int|
            0 <= i < r@.len() ==> (#[trigger] r@[i])@ == row_of(panel@, panel.log_top + i),
{
    let ghost m = panel@;
    let n: usize = shown_rows(panel.log_top, visible, panel.commits.len());
    let mut out: Vec<GitRow> = Vec::new();
    let mut i: usize = 0;
    while i < n
        invariant
            i <= n,
            n > 0 ==> panel.log_top + n <= usize::MAX,
            n == in_view(panel.log_top as nat, visible as nat, panel.commits@.len()),
            out.len() == i,
            m == panel@,
            m.view == GitView::Log,
            forall|k: int| 0 <= k < i ==> (#[trigger] out@[k])@ == row_of(m, panel.log_top + k),
        decreases n - i,
    {
        let at: usize = panel.log_top + i;
        let c: &git::Commit = &panel.commits[at];
        assert(m.commits[at as int] == c@);
        out.push(
            GitRow::Commit {
                hash: copy_text(c.hash.as_str()),
                subject: copy_text(c.subject.as_str()),
                meta: joined3(c.when.as_str(), " \u{b7} ", c.author.as_str()),
                selected: at == panel.log_selected,
            },
        );
        i = i + 1;
    }
    out
}

/// The panel as drawn. Only what is in view is copied out: a long diff copied
/// whole on every frame is a cost not worth paying.
pub fn drawn(panel: &GitPanel, branch: Option<&str>, visible: usize) -> (r: GitDrawn)
    ensures
        r.title@ == title_of(
            panel@,
            match branch {
                Some(b) => Some(b@),
                None => None,
            },
        ),
        r.hint@ == hint_of(panel@),
        match r.note {
            Some(n) => panel@.view == GitView::Status && panel@.entries.len() == 0 && n@
                == "working tree clean \u{b7} L shows the log"@,
            None => panel@.view != GitView::Status || panel@.entries.len() > 0,
        },
        r.top == top_of(panel@),
        r.total == total_of(panel@),
        r.rows@.len() == in_view(top_of(panel@), visible as nat, total_of(panel@)),
        forall|i: int|
            0 <= i < r.rows@.len() ==> (#[trigger] r.rows@[i])@ == row_of(panel@, top_of(panel@) + i),
{
    let title: String = title(panel, branch);
    let hint: String = hint(panel);
    match panel.view {
        GitView::Status => {
            let lines: Vec<GitLine> = git_lines(&panel.entries);
            assert(git::git_line_list(lines@).len() == lines@.len());
            let rows: Vec<GitRow> = status_rows(panel, &lines, visible);
            let note: Option<&'static str> = if panel.entries.len() == 0 {
                Some("working tree clean \u{b7} L shows the log")
            } else {
                None
            };
            GitDrawn { title, hint, note, rows, top: panel.top, total: lines.len() }
        },
        GitView::Diff => {
            let rows: Vec<GitRow> = diff_rows(panel, visible);
            GitDrawn { title, hint, note: None, rows, top: panel.diff_top, total: panel.diff.len() }
        },
        GitView::Log => {
            let rows: Vec<GitRow> = log_rows(panel, visible);
            GitDrawn { title, hint, note: None, rows, top: panel.log_top, total: panel.commits.len() }
        },
    }
}

// -------------------------------------------------------------------- laws

/// After the view has followed the selection, the selected file is drawn, and
/// drawn as the selected one, however few rows there are.
pub proof fn the_selected_file_is_in_view(m: GitState, visible: nat)
    requires
        m.view == GitView::Status,
        m.selected < m.entries.len(),
        visible > 0,
        m.followed != Some((m.view, m.selected, m.log_selected)),
        m.entries.len() + 2 <= usize::MAX,
    ensures
        ({
            let shown = git::git_followed(m, visible);
            let row = git::entry_row(m.entries, m.selected as nat);
            &&& top_of(shown) <= row < top_of(shown) + in_view(top_of(shown), visible, total_of(shown))
            &&& row_of(shown, row as int) == file_row(m.entries[m.selected as int], true)
        }),
{
    git::an_entry_is_where_it_is_drawn(m.entries, m.selected as nat);
}

/// What an action said is what is read, on every screen.
pub proof fn a_result_outranks_the_hint(m: GitState, said: Seq<char>)
    requires
        m.status == Some(said),
    ensures
        hint_of(m) == said,
{
}

/// Each kind of change has its own letter, and a colour that tells it; a
/// file that was renamed is coloured as one that was changed.
pub proof fn each_change_has_its_letter(a: Status, b: Status)
    ensures
        letter_of(a) == letter_of(b) ==> a == b,
        letter_of(Status::Modified) == "M"@ && letter_of(Status::Added) == "A"@ && letter_of(Status::Deleted) == "D"@,
        letter_of(Status::Renamed) == "R"@ && letter_of(Status::Untracked) == "?"@ && letter_of(Status::Conflicted)
            == "!"@,
        color_of(Status::Modified) == Ink::Modified && color_of(Status::Renamed) == Ink::Modified,
        color_of(Status::Added) == Ink::Added && color_of(Status::Deleted) == Ink::Deleted,
        color_of(Status::Untracked) == Ink::Untracked && color_of(Status::Conflicted) == Ink::Conflicted,
        diff_color(DiffKind::Add) == Ink::Added && diff_color(DiffKind::Del) == Ink::Deleted,
        diff_color(DiffKind::Hunk) == Ink::Accent && diff_color(DiffKind::Meta) == Ink::Dim,
        diff_color(DiffKind::Context) == Ink::Text,
{
    reveal_strlit("M");
    reveal_strlit("A");
    reveal_strlit("D");
    reveal_strlit("R");
    reveal_strlit("?");
    reveal_strlit("!");
    assert("M"@[0] == 'M' && "A"@[0] == 'A' && "D"@[0] == 'D' && "R"@[0] == 'R' && "?"@[0] == '?' && "!"@[0] == '!');
}

/// A row is drawn as what it stands for: a file by its path and its letter,
/// a commit by its hash, its subject and who made it when.
pub proof fn a_row_is_drawn_as_what_it_is(m: GitState, k: int, i: nat)
    ensures
        m.view == GitView::Log ==> row_of(m, k) == (GitRowState::Commit {
            hash: m.commits[k].hash,
            subject: m.commits[k].subject,
            meta: m.commits[k].when + " \u{b7} "@ + m.commits[k].author,
            selected: k == m.log_selected,
        }),
        m.view == GitView::Diff && !text::is_blank(m.diff[k].1) ==> row_of(m, k) == (GitRowState::Diff {
            text: m.diff[k].1,
            ink: diff_color(m.diff[k].0),
        }),
        m.view == GitView::Status && git::git_screen(m.entries)[k] == git::GitLineState::Entry(i) ==> {
            let row = row_of(m, k);
            &&& row is File
            &&& row->File_name == m.entries[i as int].rel
            &&& row->File_letter == letter_of(m.entries[i as int].status)
            &&& row->File_mark == color_of(m.entries[i as int].status)
            &&& row->File_selected == (i == m.selected)
            &&& i == m.selected ==> row->File_name_ink == Ink::Text
            &&& i != m.selected ==> row->File_name_ink == color_of(m.entries[i as int].status)
        },
{
}

/// The title names the branch and what is shown of it.
pub proof fn the_title_names_the_branch(m: GitState, b: Seq<char>)
    ensures
        m.view == GitView::Status ==> title_of(m, Some(b)) == "GIT \u{b7} "@ + b,
        m.view == GitView::Diff ==> title_of(m, Some(b)) == "GIT \u{b7} "@ + b + " \u{b7} "@ + m.diff_title,
        m.view == GitView::Log ==> title_of(m, Some(b)) == "GIT \u{b7} "@ + b + " \u{b7} log"@,
        m.view == GitView::Status ==> title_of(m, None) == "GIT \u{b7} "@ + "no branch"@,
{
}

/// As many rows are drawn as there are from the first one shown on, or as
/// fit; each view is drawn from its own first row.
pub proof fn each_view_from_its_own_row(m: GitState, top: nat, visible: nat, total: nat)
    ensures
        top + visible <= total ==> in_view(top, visible, total) == visible,
        top <= total && total < top + visible ==> in_view(top, visible, total) == total - top,
        top > total ==> in_view(top, visible, total) == 0,
        m.view == GitView::Status ==> top_of(m) == m.top && total_of(m) == git::git_screen(m.entries).len(),
        m.view == GitView::Diff ==> top_of(m) == m.diff_top && total_of(m) == m.diff.len(),
        m.view == GitView::Log ==> top_of(m) == m.log_top && total_of(m) == m.commits.len(),
{
}

} // verus!
