//! The git panel: what changed, what is staged, and the recent history.
//!
//! A pane rather than an overlay, because staging is a conversation with the
//! working tree: act, look at what that did, act again. Running git is done
//! elsewhere; a key comes out as what is wanted of it ([`GitAct`]), and what
//! came of that goes back in.
use vstd::prelude::*;
use vstd::string::*;
use crate::content;
use crate::path;
use crate::path::{Path, PathState};
use crate::scroll;
use crate::scroll::{max_top, stepped, stepped_up};
use crate::text;
use crate::text::{chars_of, decimal_text, joined, joined3, same, text_of};

verus! {

/// Which of the panel's three screens is showing.
#[derive(Clone, Copy, Debug, PartialEq, Eq, Structural)]
pub enum GitView {
    /// The changed files, staged and not.
    Status,
    /// One diff: a file's or a commit's.
    Diff,
    /// Recent commits.
    Log,
}

/// What became of a file.
#[derive(Clone, Copy, Debug, PartialEq, Eq, Structural)]
pub enum Status {
    Modified,
    Added,
    Deleted,
    Renamed,
    /// Not known to git at all.
    Untracked,
    Conflicted,
}

/// One changed file.
#[derive(Debug, PartialEq, Eq)]
pub struct Entry {
    pub path: Path,
    /// The path as it is shown, relative to the repository.
    pub rel: String,
    pub staged: bool,
    pub status: Status,
}

/// An entry as a value.
pub struct EntryState {
    pub path: PathState,
    pub rel: Seq<char>,
    pub staged: bool,
    pub status: Status,
}

impl View for Entry {
    type V = EntryState;

    open spec fn view(&self) -> EntryState {
        EntryState {
            path: self.path@,
            rel: self.rel@,
            staged: self.staged,
            status: self.status,
        }
    }
}

impl Entry {
    pub fn dup(&self) -> (r: Entry)
        ensures
            r@ == self@,
    {
        Entry {
            path: self.path.dup(),
            rel: self.rel.clone(),
            staged: self.staged,
            status: self.status,
        }
    }
}

/// The entries of a list as values.
pub open spec fn entry_list(s: Seq<Entry>) -> Seq<EntryState> {
    Seq::new(s.len(), |i: int| s[i]@)
}

/// What a line of a diff is.
#[derive(Clone, Copy, Debug, PartialEq, Eq, Structural)]
pub enum DiffKind {
    Add,
    Del,
    Context,
    Hunk,
    Meta,
}

/// One commit of the log.
#[derive(Debug, PartialEq, Eq)]
pub struct Commit {
    pub hash: String,
    pub subject: String,
    pub author: String,
    pub when: String,
}

/// A commit as a value.
pub struct CommitState {
    pub hash: Seq<char>,
    pub subject: Seq<char>,
    pub author: Seq<char>,
    pub when: Seq<char>,
}

impl View for Commit {
    type V = CommitState;

    open spec fn view(&self) -> CommitState {
        CommitState {
            hash: self.hash@,
            subject: self.subject@,
            author: self.author@,
            when: self.when@,
        }
    }
}

/// One drawn line of the status screen. Headings are lines here for the same
/// reason they are on the settings screen: scrolling counts what is on
/// screen, selection counts entries, and one list keeps them agreeing.
#[derive(Debug, PartialEq, Eq)]
pub enum GitLine {
    Heading(String),
    /// Index into the panel's entries.
    Entry(usize),
}

/// A line as a value.
pub enum GitLineState {
    Heading(Seq<char>),
    Entry(nat),
}

impl View for GitLine {
    type V = GitLineState;

    open spec fn view(&self) -> GitLineState {
        match self {
            GitLine::Heading(t) => GitLineState::Heading(t@),
            GitLine::Entry(i) => GitLineState::Entry(*i as nat),
        }
    }
}

/// The lines of a list as values.
pub open spec fn git_line_list(s: Seq<GitLine>) -> Seq<GitLineState> {
    Seq::new(s.len(), |i: int| s[i]@)
}

/// How many of the first `n` entries are staged.
pub open spec fn staged_in(entries: Seq<EntryState>, n: int) -> nat
    decreases n,
{
    if n <= 0 {
        0
    } else {
        staged_in(entries, n - 1) + (if entries[n - 1].staged { 1nat } else { 0 })
    }
}

pub open spec fn staged_count(entries: Seq<EntryState>) -> nat {
    staged_in(entries, entries.len() as int)
}

/// A heading over one half.
pub open spec fn half(name: Seq<char>, from: nat, to: nat) -> Seq<GitLineState> {
    if from >= to {
        Seq::empty()
    } else {
        seq![GitLineState::Heading(name + text::decimal((to - from) as nat))] + Seq::new(
            (to - from) as nat,
            |i: int| GitLineState::Entry((from + i) as nat),
        )
    }
}

/// The status screen as drawn: a heading over each half that exists, the
/// staged files first.
pub open spec fn git_screen(entries: Seq<EntryState>) -> Seq<GitLineState> {
    let staged = staged_count(entries);
    half("STAGED \u{b7} "@, 0, staged) + half("CHANGES \u{b7} "@, staged, entries.len())
}

proof fn lemma_staged_bound(entries: Seq<EntryState>, n: int)
    requires
        0 <= n <= entries.len(),
    ensures
        staged_in(entries, n) <= n,
    decreases n,
{
    if n > 0 {
        lemma_staged_bound(entries, n - 1);
    }
}

fn count_staged(entries: &Vec<Entry>) -> (r: usize)
    ensures
        r == staged_count(entry_list(entries@)),
        r <= entries@.len(),
{
    let ghost all = entry_list(entries@);
    let mut n: usize = 0;
    let mut i: usize = 0;
    while i < entries.len()
        invariant
            i <= entries.len(),
            n <= i,
            all == entry_list(entries@),
            n == staged_in(all, i as int),
        decreases entries.len() - i,
    {
        assert(all[i as int] == entries@[i as int]@);
        if entries[i].staged {
            n = n + 1;
        }
        i = i + 1;
    }
    n
}

fn push_half(out: &mut Vec<GitLine>, name: &str, from: usize, to: usize)
    ensures
        git_line_list(final(out)@) == git_line_list(old(out)@) + half(name@, from as nat, to as nat),
{
    let ghost before = git_line_list(out@);
    if from >= to {
        assert(before + half(name@, from as nat, to as nat) =~= before);
        return;
    }
    let n: String = decimal_text((to - from) as u64);
    let head: GitLine = GitLine::Heading(joined(name, n.as_str()));
    out.push(head);
    let ghost whole = half(name@, from as nat, to as nat);
    let mut i: usize = from;
    assert(git_line_list(out@) =~= before + whole.take(1));
    while i < to
        invariant
            from <= i <= to,
            from < to,
            whole == half(name@, from as nat, to as nat),
            git_line_list(out@) == before + whole.take(1 + i - from),
        decreases to - i,
    {
        let ghost done = git_line_list(out@);
        out.push(GitLine::Entry(i));
        proof {
            assert(git_line_list(out@) =~= done.push(GitLineState::Entry(i as nat)));
            assert(whole[1 + i - from] == GitLineState::Entry(i as nat));
            assert(git_line_list(out@) =~= before + whole.take(1 + i + 1 - from));
        }
        i = i + 1;
    }
    assert(whole.take(1 + to - from) =~= whole);
}

/// The status screen as drawn.
pub fn git_lines(entries: &Vec<Entry>) -> (r: Vec<GitLine>)
    ensures
        git_line_list(r@) == git_screen(entry_list(entries@)),
{
    let staged: usize = count_staged(entries);
    let mut out: Vec<GitLine> = Vec::new();
    assert(git_line_list(out@) =~= Seq::empty());
    push_half(&mut out, "STAGED \u{b7} ", 0, staged);
    push_half(&mut out, "CHANGES \u{b7} ", staged, entries.len());
    assert(git_line_list(out@) =~= git_screen(entry_list(entries@)));
    out
}

/// Where an entry sits among the drawn lines: every heading above it pushes
/// it down one.
pub open spec fn entry_row(entries: Seq<EntryState>, selected: nat) -> nat {
    let staged = staged_count(entries);
    selected + (if staged > 0 { 1nat } else { 0 }) + (if selected >= staged { 1nat } else { 0 })
}

/// The drawn row of an entry is the row that shows it.
pub proof fn an_entry_is_where_it_is_drawn(entries: Seq<EntryState>, i: nat)
    requires
        i < entries.len(),
    ensures
        entry_row(entries, i) < git_screen(entries).len(),
        git_screen(entries)[entry_row(entries, i) as int] == GitLineState::Entry(i),
        git_screen(entries).len() <= entries.len() + 2,
{
    lemma_staged_bound(entries, entries.len() as int);
    let staged = staged_count(entries);
    let top = half("STAGED \u{b7} "@, 0, staged);
    let bottom = half("CHANGES \u{b7} "@, staged, entries.len());
    if i < staged {
        assert(git_screen(entries)[entry_row(entries, i) as int] == top[i as int + 1]);
    } else {
        assert(git_screen(entries)[entry_row(entries, i) as int] == bottom[i as int - staged as int + 1]);
    }
}

/// An entry line of the screen names an entry.
pub proof fn lemma_line_names_an_entry(entries: Seq<EntryState>, k: int)
    requires
        0 <= k < git_screen(entries).len(),
        git_screen(entries)[k] is Entry,
    ensures
        git_screen(entries)[k]->Entry_0 < entries.len(),
{
    lemma_staged_bound(entries, entries.len() as int);
    let staged = staged_count(entries);
    let top = half("STAGED \u{b7} "@, 0, staged);
    let bottom = half("CHANGES \u{b7} "@, staged, entries.len());
    if k < top.len() {
        assert(git_screen(entries)[k] == top[k]);
    } else {
        assert(git_screen(entries)[k] == bottom[k - top.len()]);
    }
}

// ---------------------------------------------------------------- the panel

#[derive(Debug)]
pub struct GitPanel {
    pub entries: Vec<Entry>,
    /// Index into `entries`: headings are skipped over, not landed on.
    pub selected: usize,
    /// First visible drawn line of the status screen.
    pub top: usize,
    pub view: GitView,
    /// Whose diff is showing, said over the list.
    pub diff_title: String,
    pub diff: Vec<(DiffKind, String)>,
    pub diff_top: usize,
    /// Where Esc goes from the diff: back to the log when the diff came from
    /// there, back to the files otherwise.
    pub diff_from_log: bool,
    pub commits: Vec<Commit>,
    pub log_selected: usize,
    pub log_top: usize,
    /// What the last action said. Cleared by the next movement so it cannot
    /// go stale.
    pub status: Option<String>,
    /// What the view last followed, per screen.
    pub followed: Option<(GitView, usize, usize)>,
}

/// The panel as a value.
#[verifier::ext_equal]
pub struct GitState {
    pub entries: Seq<EntryState>,
    pub selected: usize,
    pub top: usize,
    pub view: GitView,
    pub diff_title: Seq<char>,
    pub diff: Seq<(DiffKind, Seq<char>)>,
    pub diff_top: usize,
    pub diff_from_log: bool,
    pub commits: Seq<CommitState>,
    pub log_selected: usize,
    pub log_top: usize,
    pub status: Option<Seq<char>>,
    pub followed: Option<(GitView, usize, usize)>,
}

/// The lines of a diff as values.
pub open spec fn diff_list(s: Seq<(DiffKind, String)>) -> Seq<(DiffKind, Seq<char>)> {
    Seq::new(s.len(), |i: int| (s[i].0, s[i].1@))
}

/// The commits of a list as values.
pub open spec fn commit_list(s: Seq<Commit>) -> Seq<CommitState> {
    Seq::new(s.len(), |i: int| s[i]@)
}

/// An optional string as a value.
pub open spec fn said(s: Option<String>) -> Option<Seq<char>> {
    match s {
        Some(t) => Some(t@),
        None => None,
    }
}

impl View for GitPanel {
    type V = GitState;

    open spec fn view(&self) -> GitState {
        GitState {
            entries: entry_list(self.entries@),
            selected: self.selected,
            top: self.top,
            view: self.view,
            diff_title: self.diff_title@,
            diff: diff_list(self.diff@),
            diff_top: self.diff_top,
            diff_from_log: self.diff_from_log,
            commits: commit_list(self.commits@),
            log_selected: self.log_selected,
            log_top: self.log_top,
            status: said(self.status),
            followed: self.followed,
        }
    }
}

/// Moves whatever the current screen moves: the file selection, the commit
/// selection, or the diff scroll. What was said before goes.
pub open spec fn git_moved(m: GitState, delta: int, visible: nat) -> GitState {
    let quiet = GitState { status: None, ..m };
    match m.view {
        GitView::Status => if m.entries.len() == 0 {
            quiet
        } else {
            GitState {
                selected: scroll::clamped(m.selected + delta, m.entries.len() - 1) as usize,
                ..quiet
            }
        },
        GitView::Log => if m.commits.len() == 0 {
            quiet
        } else {
            GitState {
                log_selected: scroll::clamped(m.log_selected + delta, m.commits.len() - 1) as usize,
                ..quiet
            }
        },
        GitView::Diff => GitState {
            diff_top: scroll::clamped(
                m.diff_top + delta,
                scroll::top_limit(m.diff.len(), visible) as int,
            ) as usize,
            ..quiet
        },
    }
}

/// Scrolls the current screen just enough to keep its selection on screen,
/// acting only when the selection moved.
pub open spec fn git_followed(m: GitState, visible: nat) -> GitState {
    let now = Some((m.view, m.selected, m.log_selected));
    if visible == 0 || m.followed == now {
        m
    } else {
        let seen = GitState { followed: now, ..m };
        match m.view {
            GitView::Status => GitState {
                top: content::at_most(
                    content::follow_with_heading(
                        m.top as int,
                        entry_row(m.entries, m.selected as nat) as int,
                        visible as int,
                    ),
                    content::full_limit(git_screen(m.entries).len(), visible) as int,
                ) as usize,
                ..seen
            },
            GitView::Log => GitState {
                log_top: content::at_most(
                    scroll::follow_top(m.log_top as int, m.log_selected as int, visible as int),
                    content::full_limit(m.commits.len(), visible) as int,
                ) as usize,
                ..seen
            },
            GitView::Diff => GitState {
                diff_top: content::at_most(
                    m.diff_top as int,
                    scroll::top_limit(m.diff.len(), visible) as int,
                ) as usize,
                ..seen
            },
        }
    }
}

/// The wheel moves the view without moving the selection.
pub open spec fn git_wheeled(m: GitState, delta: int, visible: nat) -> GitState {
    match m.view {
        GitView::Status => GitState {
            top: scroll::clamped(
                m.top - delta,
                scroll::top_limit(git_screen(m.entries).len(), visible) as int,
            ) as usize,
            ..m
        },
        GitView::Log => GitState {
            log_top: scroll::clamped(
                m.log_top - delta,
                scroll::top_limit(m.commits.len(), visible) as int,
            ) as usize,
            ..m
        },
        GitView::Diff => GitState {
            diff_top: scroll::clamped(
                m.diff_top - delta,
                scroll::top_limit(m.diff.len(), visible) as int,
            ) as usize,
            ..m
        },
    }
}

/// One screen back.
pub open spec fn git_back(m: GitState) -> GitState {
    match m.view {
        GitView::Diff => GitState {
            view: if m.diff_from_log { GitView::Log } else { GitView::Status },
            ..m
        },
        GitView::Log => GitState { view: GitView::Status, ..m },
        GitView::Status => m,
    }
}

/// A diff over the current screen.
pub open spec fn git_showing(
    m: GitState,
    title: Seq<char>,
    lines: Seq<(DiffKind, Seq<char>)>,
    from_log: bool,
) -> GitState {
    GitState {
        diff_title: title,
        diff: lines,
        diff_top: 0,
        diff_from_log: from_log,
        view: GitView::Diff,
        ..m
    }
}

impl GitPanel {
    pub fn new(entries: Vec<Entry>) -> (r: GitPanel)
        ensures
            r@ == (GitState {
                entries: entry_list(entries@),
                selected: 0,
                top: 0,
                view: GitView::Status,
                diff_title: Seq::empty(),
                diff: Seq::empty(),
                diff_top: 0,
                diff_from_log: false,
                commits: Seq::empty(),
                log_selected: 0,
                log_top: 0,
                status: None,
                followed: None,
            }),
    {
        let r: GitPanel = GitPanel {
            entries,
            selected: 0,
            top: 0,
            view: GitView::Status,
            diff_title: String::new(),
            diff: Vec::new(),
            diff_top: 0,
            diff_from_log: false,
            commits: Vec::new(),
            log_selected: 0,
            log_top: 0,
            status: None,
            followed: None,
        };
        proof {
            assert(r@.diff_title =~= Seq::<char>::empty());
            assert(r@.diff =~= Seq::empty());
            assert(r@.commits =~= Seq::empty());
        }
        r
    }

    /// Fresh entries after an action, keeping the selection near where it
    /// was: staging the third file should leave you at the third row, which
    /// is now the next thing to decide about.
    pub fn set_entries(&mut self, entries: Vec<Entry>)
        ensures
            final(self)@ == (GitState {
                entries: entry_list(entries@),
                selected: content::at_most(
                    old(self)@.selected as int,
                    content::one_less(entries@.len() as int),
                ) as usize,
                ..old(self)@
            }),
    {
        let last: usize = if entries.len() == 0 { 0 } else { entries.len() - 1 };
        self.entries = entries;
        if self.selected > last {
            self.selected = last;
        }
    }

    pub fn selected_entry(&self) -> (r: Option<&Entry>)
        ensures
            match r {
                Some(e) => self@.selected < self@.entries.len() && e@ == self@.entries[self@.selected as int],
                None => self@.selected >= self@.entries.len(),
            },
    {
        if self.selected < self.entries.len() {
            assert(self@.entries[self.selected as int] == self.entries@[self.selected as int]@);
            Some(&self.entries[self.selected])
        } else {
            None
        }
    }

    pub fn selected_commit(&self) -> (r: Option<&Commit>)
        ensures
            match r {
                Some(c) => self@.log_selected < self@.commits.len() && c@
                    == self@.commits[self@.log_selected as int],
                None => self@.log_selected >= self@.commits.len(),
            },
    {
        if self.log_selected < self.commits.len() {
            assert(self@.commits[self.log_selected as int] == self.commits@[self.log_selected as int]@);
            Some(&self.commits[self.log_selected])
        } else {
            None
        }
    }

    pub fn move_selection(&mut self, delta: i32, visible: usize)
        ensures
            final(self)@ == git_moved(old(self)@, delta as int, visible as nat),
    {
        self.status = None;
        match self.view {
            GitView::Status => {
                if self.entries.len() > 0 {
                    self.selected = stepped(self.selected, delta, self.entries.len() - 1);
                }
            },
            GitView::Log => {
                if self.commits.len() > 0 {
                    self.log_selected = stepped(self.log_selected, delta, self.commits.len() - 1);
                }
            },
            GitView::Diff => {
                self.diff_top = stepped(self.diff_top, delta, max_top(self.diff.len(), visible));
            },
        }
    }

    /// Where the selected entry sits among the drawn lines.
    fn drawn_row(&self) -> (r: u128)
        ensures
            r == entry_row(self@.entries, self@.selected as nat),
    {
        let staged: usize = count_staged(&self.entries);
        let mut row: u128 = self.selected as u128;
        if staged > 0 {
            row = row + 1;
        }
        if self.selected >= staged {
            row = row + 1;
        }
        row
    }

    /// Called from drawing, which is what knows how many rows fit.
    pub fn ensure_visible(&mut self, visible: usize)
        ensures
            final(self)@ == git_followed(old(self)@, visible as nat),
    {
        if visible == 0 {
            return;
        }
        let seen: bool = match self.followed {
            Some((v, s, l)) => v == self.view && s == self.selected && l == self.log_selected,
            None => false,
        };
        if seen {
            return;
        }
        self.followed = Some((self.view, self.selected, self.log_selected));
        match self.view {
            GitView::Status => {
                let row: u128 = self.drawn_row();
                let top: u128 = if row < self.top as u128 {
                    if row == 0 || visible == 1 { row } else { row - 1 }
                } else if row - self.top as u128 >= visible as u128 {
                    row - visible as u128 + 1
                } else {
                    self.top as u128
                };
                let lines: Vec<GitLine> = git_lines(&self.entries);
                assert(git_line_list(lines@).len() == lines@.len());
                let limit: usize = if lines.len() <= visible { 0 } else { lines.len() - visible };
                self.top = if top > limit as u128 { limit } else { top as usize };
            },
            GitView::Log => {
                let top: usize = scroll::follow(self.log_top, self.log_selected, visible);
                let n: usize = self.commits.len();
                let limit: usize = if n <= visible { 0 } else { n - visible };
                self.log_top = if top > limit { limit } else { top };
            },
            GitView::Diff => {
                let limit: usize = max_top(self.diff.len(), visible);
                if self.diff_top > limit {
                    self.diff_top = limit;
                }
            },
        }
    }

    /// Wheel scrolling.
    pub fn scroll(&mut self, delta: i32, visible: usize)
        ensures
            final(self)@ == git_wheeled(old(self)@, delta as int, visible as nat),
    {
        match self.view {
            GitView::Status => {
                let lines: Vec<GitLine> = git_lines(&self.entries);
                assert(git_line_list(lines@).len() == lines@.len());
                self.top = stepped_up(self.top, delta, max_top(lines.len(), visible));
            },
            GitView::Log => {
                self.log_top = stepped_up(self.log_top, delta, max_top(self.commits.len(), visible));
            },
            GitView::Diff => {
                self.diff_top = stepped_up(self.diff_top, delta, max_top(self.diff.len(), visible));
            },
        }
    }

    /// Opens a diff over the current screen.
    pub fn show_diff(&mut self, title: String, lines: Vec<(DiffKind, String)>, from_log: bool)
        ensures
            final(self)@ == git_showing(old(self)@, title@, diff_list(lines@), from_log),
    {
        self.diff_title = title;
        self.diff = lines;
        self.diff_top = 0;
        self.diff_from_log = from_log;
        self.view = GitView::Diff;
    }

    /// Esc: one screen back. Says whether there was anywhere to go back to;
    /// Esc on the file list means "close the panel", which is the caller's
    /// job.
    pub fn back(&mut self) -> (r: bool)
        ensures
            r == (old(self)@.view != GitView::Status),
            final(self)@ == git_back(old(self)@),
    {
        match self.view {
            GitView::Diff => {
                self.view = if self.diff_from_log { GitView::Log } else { GitView::Status };
                true
            },
            GitView::Log => {
                self.view = GitView::Status;
                true
            },
            GitView::Status => false,
        }
    }

    /// Says something over the list.
    pub fn say(&mut self, what: String)
        ensures
            final(self)@ == (GitState { status: Some(what@), ..old(self)@ }),
    {
        self.status = Some(what);
    }
}

// ------------------------------------------------------------------ the keys

/// What a key in the panel comes to.
#[derive(Debug, PartialEq, Eq)]
pub enum GitAct {
    /// Not the panel's key.
    Pass,
    /// Done, nothing more to do.
    Done,
    /// Stage it, or take it back; then [`GitPanel::toggled`].
    Toggle(Entry),
    /// Show its diff; then [`GitPanel::diffed`].
    Diff(Entry),
    /// Ask for a commit message.
    CommitMessage,
    /// Read the log; then [`GitPanel::logged`].
    Log,
    /// Show that commit; then [`GitPanel::shown`].
    ShowCommit { hash: String, subject: String },
    /// Read the changes again; then [`GitPanel::refreshed`].
    Refresh,
    /// Leave the panel.
    Close,
    /// Throw its unstaged changes away; then [`GitPanel::discarded`].
    Discard(Entry),
    /// Push or pull, off the UI thread; then [`GitPanel::remote`].
    Remote { pull: bool },
}

/// An act as a value.
pub enum GitActState {
    Pass,
    Done,
    Toggle(EntryState),
    Diff(EntryState),
    CommitMessage,
    Log,
    ShowCommit { hash: Seq<char>, subject: Seq<char> },
    Refresh,
    Close,
    Discard(EntryState),
    Remote { pull: bool },
}

impl View for GitAct {
    type V = GitActState;

    open spec fn view(&self) -> GitActState {
        match self {
            GitAct::Pass => GitActState::Pass,
            GitAct::Done => GitActState::Done,
            GitAct::Toggle(e) => GitActState::Toggle(e@),
            GitAct::Diff(e) => GitActState::Diff(e@),
            GitAct::CommitMessage => GitActState::CommitMessage,
            GitAct::Log => GitActState::Log,
            GitAct::ShowCommit { hash, subject } => GitActState::ShowCommit {
                hash: hash@,
                subject: subject@,
            },
            GitAct::Refresh => GitActState::Refresh,
            GitAct::Close => GitActState::Close,
            GitAct::Discard(e) => GitActState::Discard(e@),
            GitAct::Remote { pull } => GitActState::Remote { pull: *pull },
        }
    }
}

/// The selected entry, on the screen that has one.
pub open spec fn entry_under(m: GitState) -> Option<EntryState> {
    if m.view == GitView::Status && m.selected < m.entries.len() {
        Some(m.entries[m.selected as int])
    } else {
        None
    }
}

/// How far a movement key moves: a line, a page, or to either end.
pub open spec fn key_step(vk: u8, visible: nat) -> Option<int> {
    let page = if visible <= i32::MAX { visible as int } else { i32::MAX as int };
    if vk == 0x26 {
        Some(-1)
    } else if vk == 0x28 {
        Some(1)
    } else if vk == 0x21 {
        Some(-page)
    } else if vk == 0x22 {
        Some(page)
    } else if vk == 0x24 {
        Some(-1_073_741_824)
    } else if vk == 0x23 {
        Some(1_073_741_823)
    } else {
        None
    }
}

pub fn step_of(vk: u8, visible: usize) -> (r: Option<i32>)
    ensures
        match r {
            Some(n) => key_step(vk, visible as nat) == Some(n as int),
            None => key_step(vk, visible as nat) is None,
        },
{
    let page: i32 = if visible <= 0x7fff_ffff { visible as i32 } else { 0x7fff_ffff };
    match vk {
        0x26 => Some(-1),
        0x28 => Some(1),
        0x21 => Some(-page),
        0x22 => Some(page),
        0x24 => Some(-1_073_741_824),
        0x23 => Some(1_073_741_823),
        _ => None,
    }
}

/// What is said when a file whose changes may not be thrown away is asked
/// for, and the question before throwing away those that may.
pub open spec fn discard_said(e: EntryState) -> Seq<char> {
    if e.staged {
        "staged \u{2014} Space unstages it first, then X discards"@
    } else if e.status == Status::Untracked {
        "untracked \u{2014} nothing to restore; delete it in the tree"@
    } else {
        "discard changes to "@ + e.rel + "? this cannot be undone \u{2014} X again"@
    }
}

/// Whether asking again goes through with it: the same file, its changes
/// neither staged nor unknown to git.
pub open spec fn discard_confirmed(e: EntryState, asked: Option<PathState>) -> bool {
    !e.staged && e.status != Status::Untracked && asked == Some(e.path)
}

/// A key in the panel. `asked` is the file whose changes were about to be
/// thrown away, when that was the key before. Beside the panel and the act,
/// the file now being asked about.
pub open spec fn git_pressed(m: GitState, vk: u8, ctrl: bool, shift: bool, visible: nat, asked: Option<PathState>) -> (
    GitState,
    GitActState,
    Option<PathState>,
) {
    if ctrl {
        (m, GitActState::Pass, asked)
    } else if key_step(vk, visible) is Some {
        (git_moved(m, key_step(vk, visible)->Some_0, visible), GitActState::Done, None)
    } else if vk == 0x1B || vk == 0x25 || vk == 0x08 {
        (
            git_back(m),
            if m.view == GitView::Status && vk == 0x1B { GitActState::Close } else { GitActState::Done },
            None,
        )
    } else if vk == 0x20 {
        match entry_under(m) {
            Some(e) => (m, GitActState::Toggle(e), None),
            None => (m, GitActState::Done, None),
        }
    } else if vk == 0x0D {
        match m.view {
            GitView::Status => match entry_under(m) {
                Some(e) => (m, GitActState::Diff(e), None),
                None => (m, GitActState::Done, None),
            },
            GitView::Log => if m.log_selected < m.commits.len() {
                let c = m.commits[m.log_selected as int];
                (m, GitActState::ShowCommit { hash: c.hash, subject: c.subject }, None)
            } else {
                (m, GitActState::Done, None)
            },
            GitView::Diff => (m, GitActState::Done, None),
        }
    } else if vk == 0x43 {
        if staged_count(m.entries) > 0 {
            (m, GitActState::CommitMessage, None)
        } else {
            (
                GitState {
                    status: Some("nothing staged \u{2014} Space stages the selected file"@),
                    ..m
                },
                GitActState::Done,
                None,
            )
        }
    } else if vk == 0x4C {
        (m, GitActState::Log, None)
    } else if vk == 0x52 {
        (m, GitActState::Refresh, None)
    } else if vk == 0x58 {
        match entry_under(m) {
            Some(e) => if discard_confirmed(e, asked) {
                (m, GitActState::Discard(e), None)
            } else {
                (
                    GitState { status: Some(discard_said(e)), ..m },
                    GitActState::Done,
                    if e.staged || e.status == Status::Untracked { None } else { Some(e.path) },
                )
            },
            None => (m, GitActState::Done, None),
        }
    } else if vk == 0x50 {
        (m, GitActState::Remote { pull: shift }, None)
    } else {
        (m, GitActState::Pass, None)
    }
}

/// A path as a value, or nothing.
pub open spec fn opt_path(p: Option<Path>) -> Option<PathState> {
    match p {
        Some(p) => Some(p@),
        None => None,
    }
}

impl GitPanel {
    /// A key in the panel. An unbound Ctrl chord is not its bare letter:
    /// Ctrl+C arriving as C would commit. Any key but the second X means the
    /// user moved on, so a discard asked about does not survive it.
    pub fn key(&mut self, vk: u8, ctrl: bool, shift: bool, visible: usize, asked: Option<Path>) -> (r: (
        GitAct,
        Option<Path>,
    ))
        ensures
            ({
                let (state, act, now) = git_pressed(
                    old(self)@,
                    vk,
                    ctrl,
                    shift,
                    visible as nat,
                    opt_path(asked),
                );
                final(self)@ == state && r.0@ == act && opt_path(r.1) == now
            }),
    {
        if ctrl {
            return (GitAct::Pass, asked);
        }
        match step_of(vk, visible) {
            Some(delta) => {
                self.move_selection(delta, visible);
                return (GitAct::Done, None);
            },
            None => {},
        }
        match vk {
            // One screen back; off the first screen, out. Left and backspace
            // walk back too but never close: leaving takes the deliberate
            // key.
            0x1B | 0x25 | 0x08 => {
                if self.back() || vk != 0x1B {
                    (GitAct::Done, None)
                } else {
                    (GitAct::Close, None)
                }
            },
            0x20 => match self.under() {
                Some(e) => (GitAct::Toggle(e), None),
                None => (GitAct::Done, None),
            },
            0x0D => match self.view {
                GitView::Status => match self.under() {
                    Some(e) => (GitAct::Diff(e), None),
                    None => (GitAct::Done, None),
                },
                GitView::Log => match self.selected_commit() {
                    Some(c) => (
                        GitAct::ShowCommit { hash: c.hash.clone(), subject: c.subject.clone() },
                        None,
                    ),
                    None => (GitAct::Done, None),
                },
                GitView::Diff => (GitAct::Done, None),
            },
            0x43 => {
                if count_staged(&self.entries) > 0 {
                    (GitAct::CommitMessage, None)
                } else {
                    self.say("nothing staged \u{2014} Space stages the selected file".to_owned());
                    (GitAct::Done, None)
                }
            },
            0x4C => (GitAct::Log, None),
            0x52 => (GitAct::Refresh, None),
            0x58 => self.discard_key(asked),
            0x50 => (GitAct::Remote { pull: shift }, None),
            _ => (GitAct::Pass, None),
        }
    }

    /// The selected entry, on the screen that has one.
    fn under(&self) -> (r: Option<Entry>)
        ensures
            match r {
                Some(e) => entry_under(self@) == Some(e@),
                None => entry_under(self@) is None,
            },
    {
        match self.view {
            GitView::Status => match self.selected_entry() {
                Some(e) => Some(e.dup()),
                None => None,
            },
            _ => None,
        }
    }

    fn discard_key(&mut self, asked: Option<Path>) -> (r: (GitAct, Option<Path>))
        ensures
            match entry_under(old(self)@) {
                Some(e) => if discard_confirmed(e, opt_path(asked)) {
                    final(self)@ == old(self)@ && r.0@ == GitActState::Discard(e) && r.1 is None
                } else {
                    &&& final(self)@ == (GitState { status: Some(discard_said(e)), ..old(self)@ })
                    &&& r.0@ == GitActState::Done
                    &&& opt_path(r.1) == (if e.staged || e.status == Status::Untracked { None } else { Some(e.path) })
                },
                None => final(self)@ == old(self)@ && r.0@ == GitActState::Done && r.1 is None,
            },
    {
        let e: Entry = match self.under() {
            Some(e) => e,
            None => {
                return (GitAct::Done, None);
            },
        };
        if e.staged {
            self.say("staged \u{2014} Space unstages it first, then X discards".to_owned());
            return (GitAct::Done, None);
        }
        if e.status == Status::Untracked {
            // Restore has no "before" for a file git never saw; deleting it
            // is the tree's job, with its own confirm.
            self.say("untracked \u{2014} nothing to restore; delete it in the tree".to_owned());
            return (GitAct::Done, None);
        }
        let again: bool = match &asked {
            Some(p) => p.same(&e.path),
            None => false,
        };
        if again {
            return (GitAct::Discard(e), None);
        }
        self.say(
            joined3("discard changes to ", e.rel.as_str(), "? this cannot be undone \u{2014} X again"),
        );
        (GitAct::Done, Some(e.path))
    }

    /// What came of staging a file or taking it back.
    pub fn toggled(&mut self, rel: &str, was_staged: bool, failure: Option<String>, entries: Vec<Entry>)
        ensures
            final(self)@ == (GitState {
                entries: entry_list(entries@),
                selected: content::at_most(
                    old(self)@.selected as int,
                    content::one_less(entries@.len() as int),
                ) as usize,
                status: Some(
                    match failure {
                        Some(e) => e@,
                        None => (if was_staged { "unstaged"@ } else { "staged"@ }) + " "@ + rel@,
                    },
                ),
                ..old(self)@
            }),
    {
        self.set_entries(entries);
        self.say(
            match failure {
                Some(e) => e,
                None => joined3(if was_staged { "unstaged" } else { "staged" }, " ", rel),
            },
        );
    }

    /// A file's diff. Nothing to show (a binary, or the working tree caught
    /// up with the index) is said, because an empty screen would read as a
    /// hang.
    pub fn diffed(&mut self, rel: &str, staged: bool, lines: Vec<(DiffKind, String)>)
        ensures
            final(self)@ == (if lines@.len() == 0 {
                GitState { status: Some("no diff to show for "@ + rel@), ..old(self)@ }
            } else {
                git_showing(
                    old(self)@,
                    if staged { rel@ + " \u{b7} staged"@ } else { rel@ },
                    diff_list(lines@),
                    false,
                )
            }),
    {
        if lines.len() == 0 {
            self.say(joined("no diff to show for ", rel));
        } else {
            let title: String = if staged { joined(rel, " \u{b7} staged") } else { rel.to_owned() };
            self.show_diff(title, lines, false);
        }
    }

    /// The log that was read.
    pub fn logged(&mut self, commits: Vec<Commit>)
        ensures
            final(self)@ == (if commits@.len() == 0 {
                GitState { status: Some("no commits yet"@), ..old(self)@ }
            } else {
                GitState {
                    log_selected: content::at_most(
                        old(self)@.log_selected as int,
                        commits@.len() - 1,
                    ) as usize,
                    commits: commit_list(commits@),
                    view: GitView::Log,
                    ..old(self)@
                }
            }),
    {
        if commits.len() == 0 {
            self.say("no commits yet".to_owned());
        } else {
            let last: usize = commits.len() - 1;
            if self.log_selected > last {
                self.log_selected = last;
            }
            self.commits = commits;
            self.view = GitView::Log;
        }
    }

    /// A commit's diff.
    pub fn shown(&mut self, hash: &str, subject: &str, lines: Vec<(DiffKind, String)>)
        ensures
            final(self)@ == git_showing(
                old(self)@,
                hash@ + " \u{b7} "@ + subject@,
                diff_list(lines@),
                true,
            ),
    {
        self.show_diff(joined3(hash, " \u{b7} ", subject), lines, true);
    }

    /// The changes read again because that was asked for.
    pub fn refreshed(&mut self, entries: Vec<Entry>)
        ensures
            final(self)@ == (GitState {
                entries: entry_list(entries@),
                selected: content::at_most(
                    old(self)@.selected as int,
                    content::one_less(entries@.len() as int),
                ) as usize,
                status: Some("refreshed"@),
                ..old(self)@
            }),
    {
        self.set_entries(entries);
        self.say("refreshed".to_owned());
    }

    /// What came of throwing a file's changes away.
    pub fn discarded(&mut self, rel: &str, failure: Option<String>, entries: Vec<Entry>)
        ensures
            final(self)@ == (GitState {
                entries: entry_list(entries@),
                selected: content::at_most(
                    old(self)@.selected as int,
                    content::one_less(entries@.len() as int),
                ) as usize,
                status: Some(
                    match failure {
                        Some(e) => e@,
                        None => "discarded changes to "@ + rel@,
                    },
                ),
                ..old(self)@
            }),
    {
        self.set_entries(entries);
        self.say(
            match failure {
                Some(e) => e,
                None => joined("discarded changes to ", rel),
            },
        );
    }

    /// What came of starting a push or a pull: its name, or why not.
    pub fn remote(&mut self, started: Result<String, String>)
        ensures
            final(self)@ == (GitState {
                status: Some(
                    match started {
                        Ok(name) => name@ + "ing\u{2026}"@,
                        Err(e) => e@,
                    },
                ),
                ..old(self)@
            }),
    {
        self.say(
            match started {
                Ok(name) => joined(name.as_str(), "ing\u{2026}"),
                Err(e) => e,
            },
        );
    }

    /// What came of a commit.
    pub fn committed(&mut self, result: Result<String, String>)
        ensures
            final(self)@ == (GitState {
                status: Some(
                    match result {
                        Ok(summary) => summary@,
                        Err(e) => "commit failed: "@ + e@,
                    },
                ),
                ..old(self)@
            }),
    {
        self.say(
            match result {
                Ok(summary) => summary,
                Err(e) => joined("commit failed: ", e.as_str()),
            },
        );
    }
}

/// What a push or a pull that finished reads as.
pub fn remote_said(name: &str, result: Result<String, String>) -> (r: String)
    ensures
        r@ == (match result {
            Ok(line) => name@ + ": "@ + line@,
            Err(e) => name@ + " failed: "@ + e@,
        }),
{
    match result {
        Ok(line) => joined3(name, ": ", line.as_str()),
        Err(e) => joined3(name, " failed: ", e.as_str()),
    }
}

/// The whole of a file git does not know, as a diff: all of it is the change.
pub open spec fn all_added(s: Seq<char>) -> Seq<(DiffKind, Seq<char>)> {
    Seq::new(text::lines(s).len(), |i: int| (DiffKind::Add, "+"@ + text::lines(s)[i]))
}

/// A file git has nothing to compare against, as a diff, or why it could not
/// be read.
pub fn untracked_diff(read: Result<String, String>) -> (r: Vec<(DiffKind, String)>)
    ensures
        diff_list(r@) == (match read {
            Ok(s) => all_added(s@),
            Err(e) => seq![(DiffKind::Meta, "unreadable: "@ + e@)],
        }),
{
    let mut out: Vec<(DiffKind, String)> = Vec::new();
    let s: String = match read {
        Ok(s) => s,
        Err(e) => {
            out.push((DiffKind::Meta, joined("unreadable: ", e.as_str())));
            assert(diff_list(out@) =~= seq![(DiffKind::Meta, "unreadable: "@ + e@)]);
            return out;
        },
    };
    let v: Vec<char> = chars_of(s.as_str());
    let lines: Vec<Vec<char>> = text::split_lines(&v);
    let ghost all = text::char_lists(lines@);
    let mut i: usize = 0;
    while i < lines.len()
        invariant
            i <= lines.len(),
            out.len() == i,
            all == text::char_lists(lines@),
            forall|k: int|
                0 <= k < i ==> (#[trigger] out@[k]).0 == DiffKind::Add && out@[k].1@ == "+"@ + all[k],
        decreases lines.len() - i,
    {
        assert(all[i as int] == lines@[i as int]@);
        let line: String = text_of(&lines[i]);
        out.push((DiffKind::Add, joined("+", line.as_str())));
        i = i + 1;
    }
    proof {
        let want = all_added(s@);
        assert forall|k: int| 0 <= k < want.len() implies diff_list(out@)[k] == want[k] by {
            assert(out@[k].1@ == "+"@ + all[k]);
        }
        assert(diff_list(out@) =~= want);
    }
    out
}

// -------------------------------------------------------------------- laws

/// Nothing is thrown away on one press: a discard takes a second X on the
/// same file, with nothing between.
pub proof fn a_discard_is_asked_about_first(
    m: GitState,
    vk: u8,
    ctrl: bool,
    shift: bool,
    visible: nat,
    asked: Option<PathState>,
)
    requires
        git_pressed(m, vk, ctrl, shift, visible, asked).1 is Discard,
    ensures
        vk == 0x58,
        entry_under(m) is Some,
        asked == Some(entry_under(m)->Some_0.path),
        !entry_under(m)->Some_0.staged,
        entry_under(m)->Some_0.status != Status::Untracked,
{
}

/// Any other key of the panel forgets the question.
pub proof fn another_key_forgets_the_question(
    m: GitState,
    vk: u8,
    shift: bool,
    visible: nat,
    asked: Option<PathState>,
)
    requires
        vk != 0x58,
    ensures
        git_pressed(m, vk, false, shift, visible, asked).2 is None,
{
}

/// Esc from a diff goes back to where it came from, with the selection there
/// as it was left.
pub proof fn back_from_a_diff(m: GitState, title: Seq<char>, lines: Seq<(DiffKind, Seq<char>)>)
    requires
        m.view == GitView::Log || m.view == GitView::Status,
    ensures
        ({
            let r = git_back(git_showing(m, title, lines, m.view == GitView::Log));
            &&& r.view == m.view
            &&& r.selected == m.selected
            &&& r.log_selected == m.log_selected
            &&& r.top == m.top
            &&& r.log_top == m.log_top
        }),
{
}

/// The wheel never moves a selection.
pub proof fn the_wheel_keeps_the_selection(m: GitState, delta: int, visible: nat)
    ensures
        git_wheeled(m, delta, visible).selected == m.selected,
        git_wheeled(m, delta, visible).log_selected == m.log_selected,
{
}

// -------------------------------------------------- moving through the panel

/// On the list of files the selection moves by as many rows as asked, inside
/// the list, and stops at its ends; on the log the same holds of the commits.
/// Nothing else moves, and what was said before goes.
pub proof fn the_selection_moves_as_asked(m: GitState, delta: int, visible: nat)
    ensures
        m.view == GitView::Status && m.selected < m.entries.len() <= usize::MAX ==> {
            let n = git_moved(m, delta, visible);
            &&& 0 <= m.selected + delta < m.entries.len() ==> n.selected == m.selected + delta
            &&& m.selected + delta < 0 ==> n.selected == 0
            &&& m.selected + delta >= m.entries.len() ==> n.selected == m.entries.len() - 1
            &&& n == (GitState { selected: n.selected, status: None, ..m })
        },
        m.view == GitView::Log && m.log_selected < m.commits.len() <= usize::MAX ==> {
            let n = git_moved(m, delta, visible);
            &&& 0 <= m.log_selected + delta < m.commits.len() ==> n.log_selected == m.log_selected + delta
            &&& m.log_selected + delta < 0 ==> n.log_selected == 0
            &&& m.log_selected + delta >= m.commits.len() ==> n.log_selected == m.commits.len() - 1
            &&& n == (GitState { log_selected: n.log_selected, status: None, ..m })
        },
{
}

/// Up takes back what Down did wherever Down moved, and Down what Up did; Home
/// selects the first file and End the last.
pub proof fn up_takes_back_down(m: GitState, visible: nat, asked: Option<PathState>)
    requires
        m.view == GitView::Status,
        m.selected < m.entries.len() <= 1_000_000_000,
    ensures
        ({
            let press = |s: GitState, vk: u8| git_pressed(s, vk, false, false, visible, asked).0;
            let quiet = GitState { status: None, ..m };
            &&& m.selected > 0 ==> press(m, 0x26).selected == m.selected - 1
            &&& m.selected + 1 < m.entries.len() ==> press(m, 0x28).selected == m.selected + 1
            &&& m.selected + 1 < m.entries.len() ==> press(press(m, 0x28), 0x26) == quiet
            &&& m.selected > 0 ==> press(press(m, 0x26), 0x28) == quiet
            &&& m.selected == 0 ==> press(m, 0x26) == quiet
            &&& m.selected + 1 == m.entries.len() ==> press(m, 0x28) == quiet
            &&& press(m, 0x24).selected == 0
            &&& press(m, 0x23).selected == m.entries.len() - 1
            &&& visible <= 1_000_000_000 && m.selected >= visible ==> press(m, 0x21).selected == m.selected - visible
            &&& visible <= 1_000_000_000 && m.selected + visible < m.entries.len() ==> press(m, 0x22).selected
                == m.selected + visible
        }),
{
}

/// The same on the log.
pub proof fn up_takes_back_down_in_the_log(m: GitState, visible: nat, asked: Option<PathState>)
    requires
        m.view == GitView::Log,
        m.log_selected < m.commits.len() <= 1_000_000_000,
    ensures
        ({
            let press = |s: GitState, vk: u8| git_pressed(s, vk, false, false, visible, asked).0;
            let quiet = GitState { status: None, ..m };
            &&& m.log_selected + 1 < m.commits.len() ==> press(m, 0x28).log_selected == m.log_selected + 1
            &&& m.log_selected + 1 < m.commits.len() ==> press(press(m, 0x28), 0x26) == quiet
            &&& m.log_selected > 0 ==> press(m, 0x26).log_selected == m.log_selected - 1
            &&& press(m, 0x24).log_selected == 0
            &&& press(m, 0x23).log_selected == m.commits.len() - 1
            &&& visible <= 1_000_000_000 && m.log_selected >= visible ==> press(m, 0x21).log_selected
                == m.log_selected - visible
            &&& visible <= 1_000_000_000 && m.log_selected + visible < m.commits.len() ==> press(m, 0x22).log_selected
                == m.log_selected + visible
        }),
{
}

/// A diff scrolls by as many lines as asked, from its first line to where its
/// last line is at the bottom.
pub proof fn a_diff_scrolls_to_its_end(m: GitState, delta: int, visible: nat)
    requires
        m.view == GitView::Diff,
        0 < visible < m.diff.len() <= usize::MAX,
        m.diff_top + visible <= m.diff.len(),
    ensures
        ({
            let n = git_moved(m, delta, visible);
            &&& n.diff_top + visible <= m.diff.len()
            &&& 0 <= m.diff_top + delta && m.diff_top + delta + visible <= m.diff.len() ==> n.diff_top == m.diff_top
                + delta
            &&& m.diff_top + delta < 0 ==> n.diff_top == 0
            &&& m.diff_top + delta + visible > m.diff.len() ==> n.diff_top + visible == m.diff.len()
            &&& n == (GitState { diff_top: n.diff_top, status: None, ..m })
        }),
{
}

/// The wheel turned up shows what is above and turned down what is below, by
/// as many lines as it turned; turning it back takes that back.
pub proof fn the_wheel_moves_the_view(m: GitState, delta: int, visible: nat)
    requires
        visible > 0,
        m.diff.len() <= usize::MAX,
        m.commits.len() <= usize::MAX,
        git_screen(m.entries).len() <= usize::MAX,
    ensures
        m.view == GitView::Status && 0 <= m.top - delta && m.top - delta + visible <= git_screen(m.entries).len()
            ==> git_wheeled(m, delta, visible) == (GitState { top: (m.top - delta) as usize, ..m }),
        m.view == GitView::Log && 0 <= m.log_top - delta && m.log_top - delta + visible <= m.commits.len()
            ==> git_wheeled(m, delta, visible) == (GitState { log_top: (m.log_top - delta) as usize, ..m }),
        m.view == GitView::Diff && 0 <= m.diff_top - delta && m.diff_top - delta + visible <= m.diff.len()
            ==> git_wheeled(m, delta, visible) == (GitState { diff_top: (m.diff_top - delta) as usize, ..m }),
{
}

// ------------------------------------------------------- what the keys are for

/// Space stages or unstages exactly the selected file, Enter shows its diff,
/// and on the log Enter shows exactly the selected commit.
pub proof fn a_key_acts_on_the_selected_row(m: GitState, shift: bool, visible: nat, asked: Option<PathState>)
    ensures
        m.view == GitView::Status && m.selected < m.entries.len() ==> {
            &&& git_pressed(m, 0x20, false, shift, visible, asked) == (
                m,
                GitActState::Toggle(m.entries[m.selected as int]),
                None::<PathState>,
            )
            &&& git_pressed(m, 0x0D, false, shift, visible, asked) == (
                m,
                GitActState::Diff(m.entries[m.selected as int]),
                None::<PathState>,
            )
        },
        m.view == GitView::Log && m.log_selected < m.commits.len() ==> git_pressed(
            m,
            0x0D,
            false,
            shift,
            visible,
            asked,
        ) == (
            m,
            GitActState::ShowCommit {
                hash: m.commits[m.log_selected as int].hash,
                subject: m.commits[m.log_selected as int].subject,
            },
            None::<PathState>,
        ),
        m.view != GitView::Status ==> git_pressed(m, 0x20, false, shift, visible, asked).1 == GitActState::Done,
{
}

/// A commit is written only when something is staged; otherwise it is said
/// what is missing and nothing happens.
pub proof fn a_commit_needs_something_staged(m: GitState, shift: bool, visible: nat, asked: Option<PathState>)
    ensures
        (exists|i: int| 0 <= i < m.entries.len() && (#[trigger] m.entries[i]).staged) ==> git_pressed(
            m,
            0x43,
            false,
            shift,
            visible,
            asked,
        ) == (m, GitActState::CommitMessage, None::<PathState>),
        (forall|i: int| 0 <= i < m.entries.len() ==> !(#[trigger] m.entries[i]).staged) ==> {
            let (n, act, now) = git_pressed(m, 0x43, false, shift, visible, asked);
            act == GitActState::Done && n.status is Some && n == (GitState { status: n.status, ..m })
        },
{
    lemma_staged_any(m.entries, m.entries.len() as int);
}

proof fn lemma_staged_any(entries: Seq<EntryState>, n: int)
    requires
        0 <= n <= entries.len(),
    ensures
        staged_in(entries, n) > 0 <==> exists|i: int| 0 <= i < n && (#[trigger] entries[i]).staged,
    decreases n,
{
    if n > 0 {
        lemma_staged_any(entries, n - 1);
        if entries[n - 1].staged {
            assert(entries[n - 1].staged);
        }
    }
}

/// The other keys: the log, a fresh look, pushing, and with Shift pulling;
/// Escape on the files closes the panel and nowhere else does.
pub proof fn each_key_has_its_use(m: GitState, shift: bool, visible: nat, asked: Option<PathState>)
    ensures
        git_pressed(m, 0x4C, false, shift, visible, asked).1 == GitActState::Log,
        git_pressed(m, 0x52, false, shift, visible, asked).1 == GitActState::Refresh,
        git_pressed(m, 0x50, false, shift, visible, asked).1 == (GitActState::Remote { pull: shift }),
        git_pressed(m, 0x4C, false, shift, visible, asked).0 == m,
        git_pressed(m, 0x52, false, shift, visible, asked).0 == m,
        git_pressed(m, 0x50, false, shift, visible, asked).0 == m,
        git_pressed(m, 0x1B, false, shift, visible, asked).1 == (if m.view == GitView::Status {
            GitActState::Close
        } else {
            GitActState::Done
        }),
        m.view == GitView::Log ==> git_pressed(m, 0x1B, false, shift, visible, asked).0 == (GitState {
            view: GitView::Status,
            ..m
        }),
        m.view == GitView::Diff ==> git_pressed(m, 0x1B, false, shift, visible, asked).0 == (GitState {
            view: if m.diff_from_log { GitView::Log } else { GitView::Status },
            ..m
        }),
        forall|vk: u8| #[trigger] git_pressed(m, vk, true, shift, visible, asked) == (m, GitActState::Pass, asked),
{
}

/// X twice in a row on the same file throws its changes away, that file's and
/// no other's; the first press only asks, and names the file.
pub proof fn discarding_takes_two_presses(m: GitState, shift: bool, visible: nat)
    requires
        m.view == GitView::Status,
        m.selected < m.entries.len(),
        !m.entries[m.selected as int].staged,
        m.entries[m.selected as int].status != Status::Untracked,
    ensures
        ({
            let e = m.entries[m.selected as int];
            let (asked, act, now) = git_pressed(m, 0x58, false, shift, visible, None);
            let (again, act2, now2) = git_pressed(asked, 0x58, false, shift, visible, now);
            &&& act == GitActState::Done
            &&& now == Some(e.path)
            &&& asked.status is Some && asked == (GitState { status: asked.status, ..m })
            &&& asked.status->Some_0 == "discard changes to "@ + e.rel + "? this cannot be undone \u{2014} X again"@
            &&& act2 == GitActState::Discard(e)
            &&& now2 is None
        }),
{
}

/// The screen lists every file once: the staged ones under their heading, then
/// the others under theirs, each heading with how many there are.
pub proof fn the_screen_lists_every_file(entries: Seq<EntryState>, i: nat)
    requires
        i < entries.len(),
    ensures
        ({
            let staged = staged_count(entries);
            let screen = git_screen(entries);
            let at = (if staged == 0 { i + 1 } else if i < staged { i + 1 } else { i + 2 }) as int;
            &&& at < screen.len()
            &&& screen[at] == GitLineState::Entry(i)
            &&& staged > 0 ==> screen[0] == GitLineState::Heading("STAGED \u{b7} "@ + text::decimal(staged))
            &&& staged < entries.len() ==> screen[(if staged == 0 { 0 } else { staged + 1 }) as int] == GitLineState::Heading(
                "CHANGES \u{b7} "@ + text::decimal((entries.len() - staged) as nat),
            )
            &&& screen.len() == entries.len() + (if staged > 0 { 1int } else { 0 }) + (if staged < entries.len() {
                1int
            } else {
                0
            })
        }),
{
    lemma_staged_bound(entries, entries.len() as int);
    let staged = staged_count(entries);
    let top = half("STAGED \u{b7} "@, 0, staged);
    let bottom = half("CHANGES \u{b7} "@, staged, entries.len());
    assert(top.len() == (if staged > 0 { staged + 1 } else { 0 }));
    if i < staged {
        assert(git_screen(entries)[i as int + 1] == top[i as int + 1]);
    } else {
        assert(git_screen(entries)[top.len() as int + i as int - staged as int + 1] == bottom[i as int - staged as int
            + 1]);
    }
    if staged > 0 {
        assert(git_screen(entries)[0] == top[0]);
    }
    if staged < entries.len() {
        assert(git_screen(entries)[top.len() as int] == bottom[0]);
    }
}

/// A diff is shown from its first line, under its title, and going back leads
/// to where it was asked for, with everything there as it was.
pub proof fn showing_a_diff_and_back(
    m: GitState,
    title: Seq<char>,
    lines: Seq<(DiffKind, Seq<char>)>,
    from_log: bool,
)
    ensures
        ({
            let n = git_showing(m, title, lines, from_log);
            let back = git_back(n);
            &&& n.view == GitView::Diff && n.diff == lines && n.diff_title == title && n.diff_top == 0
            &&& back.view == (if from_log { GitView::Log } else { GitView::Status })
            &&& back.entries == m.entries && back.selected == m.selected && back.top == m.top
            &&& back.commits == m.commits && back.log_selected == m.log_selected && back.log_top == m.log_top
        }),
{
}

/// A new file's diff is all of it, line by line, each marked as added.
pub proof fn a_new_file_is_all_added(s: Seq<char>, i: int)
    requires
        0 <= i < text::lines(s).len(),
    ensures
        all_added(s).len() == text::lines(s).len(),
        all_added(s)[i].0 == DiffKind::Add,
        all_added(s)[i].1 == "+"@ + text::lines(s)[i],
{
}

/// The keys that move in a list: a row, a page, or all the way.
pub proof fn keys_move_a_row_or_a_page(visible: nat, vk: u8)
    requires
        visible < 1_000_000,
    ensures
        key_step(0x26, visible) == Some(-1int),
        key_step(0x28, visible) == Some(1int),
        key_step(0x21, visible) == Some(-(visible as int)),
        key_step(0x22, visible) == Some(visible as int),
        key_step(0x24, visible) is Some && key_step(0x24, visible).unwrap() < -1_000_000_000,
        key_step(0x23, visible) is Some && key_step(0x23, visible).unwrap() > 1_000_000_000,
        key_step(vk, visible) is Some <==> vk == 0x26 || vk == 0x28 || vk == 0x21 || vk == 0x22 || vk == 0x24 || vk
            == 0x23,
{
}

/// What is said before changes are thrown away: nothing staged is, nothing
/// unknown to git is, and the rest only when asked a second time.
pub proof fn throwing_away_is_asked_about(e: EntryState, asked: Option<PathState>)
    ensures
        e.staged ==> discard_said(e) == "staged \u{2014} Space unstages it first, then X discards"@ && !discard_confirmed(
            e,
            asked,
        ),
        !e.staged && e.status == Status::Untracked ==> discard_said(e)
            == "untracked \u{2014} nothing to restore; delete it in the tree"@ && !discard_confirmed(e, asked),
        !e.staged && e.status != Status::Untracked ==> discard_said(e) == "discard changes to "@ + e.rel
            + "? this cannot be undone \u{2014} X again"@ && (discard_confirmed(e, asked) <==> asked == Some(e.path)),
{
}

/// The files that are staged are counted one by one.
pub proof fn staged_files_are_counted(entries: Seq<EntryState>, e: EntryState)
    ensures
        e.staged ==> staged_count(entries.push(e)) == staged_count(entries) + 1,
        !e.staged ==> staged_count(entries.push(e)) == staged_count(entries),
        staged_count(Seq::empty()) == 0,
{
    lemma_staged_prefix(entries, entries.push(e), entries.len() as int);
}

proof fn lemma_staged_prefix(a: Seq<EntryState>, b: Seq<EntryState>, n: int)
    requires
        n <= a.len(),
        n <= b.len(),
        forall|i: int| 0 <= i < n ==> #[trigger] a[i] == b[i],
    ensures
        staged_in(a, n) == staged_in(b, n),
    decreases n,
{
    if n > 0 {
        lemma_staged_prefix(a, b, n - 1);
        assert(a[n - 1] == b[n - 1]);
    }
}

} // verus!
