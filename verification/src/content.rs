//! What a pane holds, as far as the view on it goes: where it is scrolled to,
//! what is selected, which lines it is made of.
use vstd::prelude::*;
use vstd::string::*;
use crate::lsp::Pos;
use crate::path;
use crate::path::{Path, PathState};
use crate::places;
use crate::scroll;
use crate::scroll::{max_top, stepped, stepped_up};
use crate::text;
use crate::text::{joined, joined3, same};

verus! {

/// The highest first row once a view is full: no rows past the last one.
pub open spec fn full_limit(len: nat, visible: nat) -> nat {
    if len <= visible { 0 } else { (len - visible) as nat }
}

fn full_top(len: usize, visible: usize) -> (r: usize)
    ensures
        r == full_limit(len as nat, visible as nat),
{
    if len <= visible { 0 } else { len - visible }
}

/// No more than `limit`.
pub open spec fn at_most(n: int, limit: int) -> int {
    if n <= limit { n } else { limit }
}

/// One less, no less than nothing.
pub open spec fn one_less(n: int) -> int {
    if n <= 0 { 0 } else { n - 1 }
}

/// The first row of a view once it shows `row`, bringing the heading above
/// along when it moves up: a row with no idea what it belongs to is no use.
/// A view of a single row has no room for more than the row itself.
pub open spec fn follow_with_heading(top: int, row: int, visible: int) -> int {
    if row < top {
        if visible <= 1 { row } else { one_less(row) }
    } else if row >= top + visible {
        row + 1 - visible
    } else {
        top
    }
}

fn follow_heading(top: usize, row: usize, visible: usize) -> (r: usize)
    requires
        visible > 0,
    ensures
        r == follow_with_heading(top as int, row as int, visible as int),
{
    if row < top {
        if row == 0 || visible == 1 { row } else { row - 1 }
    } else if row - top >= visible {
        row - visible + 1
    } else {
        top
    }
}

// ------------------------------------------------------------- the settings

/// One drawn line of the settings screen.
///
/// Headings are lines too, because scrolling counts what is on screen; the
/// selection counts settings. Keeping both in one list is what stops those
/// two from disagreeing about where the selected row is.
#[derive(Debug, PartialEq, Eq)]
pub enum Line {
    Heading(String),
    /// A setting, by its place in the list of all of them.
    Row(usize),
    /// An action and the key it is on, by its place in the list of actions.
    /// Read-only: rebinding is a text editor's job.
    Control(usize),
}

/// A line as a value.
pub enum LineState {
    Heading(Seq<char>),
    Row(nat),
    Control(nat),
}

impl View for Line {
    type V = LineState;

    open spec fn view(&self) -> LineState {
        match self {
            Line::Heading(t) => LineState::Heading(t@),
            Line::Row(i) => LineState::Row(*i as nat),
            Line::Control(i) => LineState::Control(*i as nat),
        }
    }
}

/// The lines of a list as values.
pub open spec fn line_list(s: Seq<Line>) -> Seq<LineState> {
    Seq::new(s.len(), |i: int| s[i]@)
}

/// Whether the section changes at that setting.
pub open spec fn opens_section(sections: Seq<Seq<char>>, i: int) -> bool {
    sections[i] != (if i == 0 { Seq::<char>::empty() } else { sections[i - 1] })
}

/// The lines of the first `n` settings: a heading wherever the section
/// changes.
pub open spec fn setting_rows(sections: Seq<Seq<char>>, n: int) -> Seq<LineState>
    decreases n,
{
    if n <= 0 {
        Seq::empty()
    } else {
        let above = setting_rows(sections, n - 1);
        let headed = if opens_section(sections, n - 1) {
            above.push(LineState::Heading(sections[n - 1]))
        } else {
            above
        };
        headed.push(LineState::Row((n - 1) as nat))
    }
}

/// The lines of those of the first `n` actions that have a key. A command
/// with no key on it is something this list cannot teach you to press.
pub open spec fn control_rows(bound: Seq<bool>, n: int) -> Seq<LineState>
    decreases n,
{
    if n <= 0 {
        Seq::empty()
    } else if bound[n - 1] {
        control_rows(bound, n - 1).push(LineState::Control((n - 1) as nat))
    } else {
        control_rows(bound, n - 1)
    }
}

/// The screen as drawn. The controls come last and are not landed on.
pub open spec fn settings_screen(sections: Seq<Seq<char>>, bound: Seq<bool>) -> Seq<LineState> {
    setting_rows(sections, sections.len() as int).push(LineState::Heading("CONTROLS"@)) + control_rows(
        bound,
        bound.len() as int,
    )
}

/// Where a setting sits among the drawn lines: every heading above it pushes
/// it down one.
pub open spec fn setting_row(sections: Seq<Seq<char>>, i: int) -> nat {
    setting_rows(sections, i).len() + (if 0 <= i < sections.len() && opens_section(sections, i) {
        1nat
    } else {
        0
    })
}

/// `sections` names the section of each setting, in order; `bound` says of
/// each action whether it has a key.
pub fn settings_lines(sections: &Vec<String>, bound: &Vec<bool>) -> (r: Vec<Line>)
    ensures
        line_list(r@) == settings_screen(text::texts(sections@), bound@),
{
    let ghost names = text::texts(sections@);
    let mut out: Vec<Line> = Vec::new();
    let mut i: usize = 0;
    assert(line_list(out@) =~= Seq::empty());
    while i < sections.len()
        invariant
            i <= sections.len(),
            names == text::texts(sections@),
            line_list(out@) == setting_rows(names, i as int),
        decreases sections.len() - i,
    {
        let ghost before = line_list(out@);
        let opens: bool = section_opens(sections, i);
        if opens {
            let head: Line = Line::Heading(sections[i].clone());
            out.push(head);
            assert(line_list(out@) =~= before.push(LineState::Heading(names[i as int])));
        }
        let ghost headed = line_list(out@);
        out.push(Line::Row(i));
        assert(line_list(out@) =~= headed.push(LineState::Row(i as nat)));
        i = i + 1;
    }
    let ghost settings = line_list(out@);
    out.push(Line::Heading("CONTROLS".to_owned()));
    assert(line_list(out@) =~= settings.push(LineState::Heading("CONTROLS"@)));
    let ghost front = line_list(out@);
    let mut k: usize = 0;
    assert(front + control_rows(bound@, 0) =~= front);
    while k < bound.len()
        invariant
            k <= bound.len(),
            line_list(out@) == front + control_rows(bound@, k as int),
        decreases bound.len() - k,
    {
        let ghost before = line_list(out@);
        if bound[k] {
            out.push(Line::Control(k));
            assert(line_list(out@) =~= before.push(LineState::Control(k as nat)));
            assert(line_list(out@) =~= front + control_rows(bound@, k + 1));
        }
        k = k + 1;
    }
    out
}

fn section_opens(sections: &Vec<String>, i: usize) -> (r: bool)
    requires
        i < sections@.len(),
    ensures
        r == opens_section(text::texts(sections@), i as int),
{
    if i == 0 {
        let empty: bool = sections[0].as_str().unicode_len() == 0;
        assert(empty == (sections@[0]@ =~= Seq::<char>::empty()));
        !empty
    } else {
        !same(sections[i].as_str(), sections[i - 1].as_str())
    }
}

proof fn lemma_rows_above(sections: Seq<Seq<char>>, i: int, n: int)
    requires
        0 <= i <= n <= sections.len(),
    ensures
        setting_rows(sections, i).len() <= setting_rows(sections, n).len(),
        setting_row(sections, i) <= setting_rows(sections, n).len() || i == n,
    decreases n,
{
    if i < n {
        lemma_rows_above(sections, i, n - 1);
    }
}

proof fn lemma_setting_rows(sections: Seq<Seq<char>>, i: int, n: int)
    requires
        0 <= i < n <= sections.len(),
    ensures
        setting_row(sections, i) < setting_rows(sections, n).len(),
        setting_rows(sections, n)[setting_row(sections, i) as int] == LineState::Row(i as nat),
    decreases n,
{
    if i < n - 1 {
        lemma_setting_rows(sections, i, n - 1);
    }
}

/// A line that is not a heading names a setting, or an action on a key.
pub proof fn lemma_line_names_a_row(sections: Seq<Seq<char>>, bound: Seq<bool>, k: int)
    requires
        0 <= k < settings_screen(sections, bound).len(),
    ensures
        match settings_screen(sections, bound)[k] {
            LineState::Heading(_) => true,
            LineState::Row(i) => i < sections.len(),
            LineState::Control(i) => i < bound.len() && bound[i as int],
        },
{
    let first = setting_rows(sections, sections.len() as int);
    if k < first.len() {
        lemma_settings_named(sections, sections.len() as int, k);
        assert(settings_screen(sections, bound)[k] == first[k]);
    } else if k > first.len() {
        lemma_controls_named(bound, bound.len() as int, k - first.len() - 1);
        assert(settings_screen(sections, bound)[k] == control_rows(bound, bound.len() as int)[k
            - first.len() - 1]);
    }
}

proof fn lemma_settings_named(sections: Seq<Seq<char>>, n: int, k: int)
    requires
        0 <= k < setting_rows(sections, n).len(),
    ensures
        match setting_rows(sections, n)[k] {
            LineState::Heading(_) => true,
            LineState::Row(i) => i < n,
            LineState::Control(_) => false,
        },
    decreases n,
{
    if n > 0 {
        let above = setting_rows(sections, n - 1);
        if k < above.len() {
            lemma_settings_named(sections, n - 1, k);
            assert(setting_rows(sections, n)[k] == above[k]);
        }
    }
}

proof fn lemma_controls_named(bound: Seq<bool>, n: int, k: int)
    requires
        0 <= k < control_rows(bound, n).len(),
        n <= bound.len(),
    ensures
        control_rows(bound, n)[k] is Control,
        control_rows(bound, n)[k]->Control_0 < n,
        bound[control_rows(bound, n)[k]->Control_0 as int],
    decreases n,
{
    if n > 0 {
        let above = control_rows(bound, n - 1);
        if k < above.len() {
            lemma_controls_named(bound, n - 1, k);
            assert(control_rows(bound, n)[k] == above[k]);
        }
    }
}

/// The drawn row of a setting is the row that shows it.
pub proof fn the_selection_is_where_it_is_drawn(sections: Seq<Seq<char>>, bound: Seq<bool>, i: int)
    requires
        0 <= i < sections.len(),
    ensures
        setting_row(sections, i) < settings_screen(sections, bound).len(),
        settings_screen(sections, bound)[setting_row(sections, i) as int] == LineState::Row(i as nat),
{
    lemma_setting_rows(sections, i, sections.len() as int);
}

/// The selected setting is on screen once the view has followed it, however
/// few lines fit.
pub proof fn the_selected_setting_is_in_view(
    sections: Seq<Seq<char>>,
    bound: Seq<bool>,
    selected: int,
    top: int,
    visible: nat,
)
    requires
        0 <= selected < sections.len(),
        0 <= top,
        visible > 0,
    ensures
        ({
            let row = setting_row(sections, selected) as int;
            let r = at_most(
                follow_with_heading(top, row, visible as int),
                full_limit(settings_screen(sections, bound).len(), visible) as int,
            );
            r <= row < r + visible
        }),
{
    the_selection_is_where_it_is_drawn(sections, bound, selected);
}

/// The settings screen.
#[derive(Debug, PartialEq, Eq)]
pub struct Settings {
    /// Which setting, not which drawn line.
    pub selected: usize,
    /// First visible drawn line.
    pub top: usize,
    /// What the last save did. Cleared by the next change, so it can never
    /// claim a file matches a screen it no longer matches.
    pub status: Option<String>,
    /// The selection the view last followed: the wheel moves the view too,
    /// and must not lose every time.
    pub selection_seen: Option<usize>,
}

impl Settings {
    pub fn new() -> (r: Settings)
        ensures
            r == (Settings { selected: 0, top: 0, status: None, selection_seen: None }),
    {
        Settings { selected: 0, top: 0, status: None, selection_seen: None }
    }

    /// The selected setting, by its place in a list of `count` of them.
    pub fn setting(&self, count: usize) -> (r: usize)
        requires
            count > 0,
        ensures
            r == at_most(self.selected as int, count - 1),
            r < count,
    {
        if self.selected <= count - 1 { self.selected } else { count - 1 }
    }

    pub fn move_selection(&mut self, delta: i32, count: usize)
        requires
            count > 0,
        ensures
            final(self).selected == scroll::clamped(old(self).selected + delta, count - 1),
            final(self).selected < count,
            final(self).status is None,
            final(self).top == old(self).top,
            final(self).selection_seen == old(self).selection_seen,
            0 <= old(self).selected + delta < count ==> final(self).selected - delta == old(self).selected,
    {
        self.selected = stepped(self.selected, delta, count - 1);
        self.status = None;
    }

    /// Where the selected setting sits among the drawn lines.
    pub fn drawn_row(&self, sections: &Vec<String>) -> (r: usize)
        ensures
            r == setting_row(
                text::texts(sections@),
                at_most(self.selected as int, sections@.len() as int),
            ),
            forall|bound: Seq<bool>|
                self.selected < sections@.len() ==> r < (#[trigger] settings_screen(
                    text::texts(sections@),
                    bound,
                )).len() && settings_screen(text::texts(sections@), bound)[r as int] == LineState::Row(
                    self.selected as nat,
                ),
    {
        let ghost names = text::texts(sections@);
        let none: Vec<bool> = Vec::new();
        let all: Vec<Line> = settings_lines(sections, &none);
        let limit: usize = all.len();
        assert(line_list(all@).len() == limit);
        proof {
            if self.selected < sections@.len() {
                assert forall|bound: Seq<bool>|
                    self.selected < sections@.len() implies setting_row(names, self.selected as int)
                    < (#[trigger] settings_screen(names, bound)).len() && settings_screen(names, bound)[setting_row(
                    names,
                    self.selected as int,
                ) as int] == LineState::Row(self.selected as nat) by {
                    the_selection_is_where_it_is_drawn(names, bound, self.selected as int);
                }
            }
        }
        let mut row: usize = 0;
        let mut i: usize = 0;
        while i < sections.len()
            invariant
                i <= sections.len(),
                i <= self.selected,
                names == text::texts(sections@),
                setting_rows(names, sections@.len() as int).len() < limit,
                row == setting_rows(names, i as int).len(),
                self.selected < sections@.len() ==> forall|bound: Seq<bool>|
                    setting_row(names, self.selected as int) < (#[trigger] settings_screen(names, bound)).len()
                        && settings_screen(names, bound)[setting_row(names, self.selected as int) as int]
                        == LineState::Row(self.selected as nat),
            decreases sections.len() - i,
        {
            proof {
                lemma_rows_above(names, i as int, sections@.len() as int);
                lemma_rows_above(names, i + 1, sections@.len() as int);
            }
            if section_opens(sections, i) {
                row = row + 1;
            }
            if i == self.selected {
                return row;
            }
            row = row + 1;
            i = i + 1;
        }
        row
    }

    /// Scrolls just enough to keep the selection on screen, and only when it
    /// moved.
    pub fn ensure_visible(&mut self, sections: &Vec<String>, bound: &Vec<bool>, visible: usize)
        ensures
            final(self).selected == old(self).selected,
            final(self).status == old(self).status,
            final(self).selection_seen == (if visible == 0 {
                old(self).selection_seen
            } else {
                Some(old(self).selected)
            }),
            final(self).top == (if visible == 0 || old(self).selection_seen == Some(old(self).selected) {
                old(self).top as int
            } else {
                at_most(
                    follow_with_heading(
                        old(self).top as int,
                        setting_row(
                            text::texts(sections@),
                            at_most(old(self).selected as int, sections@.len() as int),
                        ) as int,
                        visible as int,
                    ),
                    full_limit(settings_screen(text::texts(sections@), bound@).len(), visible as nat) as int,
                )
            }),
    {
        if visible == 0 {
            return;
        }
        let seen: bool = match self.selection_seen {
            Some(s) => s == self.selected,
            None => false,
        };
        if seen {
            return;
        }
        self.selection_seen = Some(self.selected);
        let row: usize = self.drawn_row(sections);
        self.top = follow_heading(self.top, row, visible);
        let lines: Vec<Line> = settings_lines(sections, bound);
        assert(line_list(lines@).len() == lines@.len());
        let limit: usize = full_top(lines.len(), visible);
        if self.top > limit {
            self.top = limit;
        }
    }

    /// The wheel. `total` is how many lines the screen has.
    pub fn scroll(&mut self, total: usize, delta: i32, visible: usize)
        ensures
            *final(self) == (Settings {
                top: scroll::clamped(
                    old(self).top - delta,
                    scroll::top_limit(total as nat, visible as nat) as int,
                ) as usize,
                ..*old(self)
            }),
            // Turned by a line, the view is a line further up or down, as far as there is one.
            0 <= old(self).top - delta <= scroll::top_limit(total as nat, visible as nat) ==> final(self).top + delta == old(self).top,
    {
        self.top = stepped_up(self.top, delta, max_top(total, visible));
    }
}

// --------------------------------------------------------------- the editor

/// The view on a buffer.
#[derive(Debug, PartialEq, Eq)]
pub struct Editor {
    /// First visible line.
    pub top: usize,
    /// First visible column. Long lines scroll sideways rather than wrapping:
    /// wrapping breaks the one-line-one-row assumption the line-number gutter
    /// is built on.
    pub left: usize,
    /// Transient message, such as the result of a save.
    pub status: Option<String>,
    /// Longest line in characters, and the revision it was measured at.
    pub widest: usize,
    pub widest_at: Option<u64>,
    /// The caret and revision the view last followed: what keeps following
    /// the caret out of the wheel's way.
    pub caret_seen: Option<(Pos, u64)>,
    /// The revision the colours were worked out at.
    pub highlighted_at: Option<u64>,
    /// The state of the repository the marks beside the lines were read at.
    pub marks_at: Option<u64>,
}

/// Characters in the longest of the first `n` lines.
pub open spec fn longest(lines: Seq<Seq<char>>, n: int) -> nat
    decreases n,
{
    if n <= 0 {
        0
    } else {
        let before = longest(lines, n - 1);
        if lines[n - 1].len() > before { lines[n - 1].len() } else { before }
    }
}

/// Lines of context kept below and above the caret.
pub open spec fn line_margin(visible: int) -> int {
    at_most(2, visible / 4)
}

/// Columns of context. Wider, so that sideways scrolling happens in jumps.
pub open spec fn column_margin(cols: int) -> int {
    at_most(8, cols / 4)
}

/// The first row of a view of `visible` rows that keeps `at` on screen with a
/// margin around it, moved no further than that takes.
pub open spec fn follow_with_margin(top: int, at: int, visible: int, margin: int) -> int {
    if at < top + margin {
        if at <= margin { 0 } else { at - margin }
    } else if at + margin >= top + visible {
        at + margin + 1 - visible
    } else {
        top
    }
}

fn follow_margin(top: usize, at: usize, visible: usize, margin: usize) -> (r: usize)
    requires
        visible > 0,
        2 * margin < visible,
    ensures
        r == follow_with_margin(top as int, at as int, visible as int, margin as int),
{
    if at < top || at - top < margin {
        if at <= margin { 0 } else { at - margin }
    } else if at - top >= visible - margin {
        at - (visible - margin - 1)
    } else {
        top
    }
}

/// The caret stays on screen: following puts its line and its column in the
/// view, and being held to the last line does not take it out again.
pub proof fn the_caret_stays_on_screen(top: int, left: int, at: Pos, len: nat, visible: int, cols: int)
    requires
        0 <= top,
        0 <= left,
        at.line < len,
        visible > 0,
        cols > 0,
    ensures
        ({
            let r = at_most(
                follow_with_margin(top, at.line as int, visible, line_margin(visible)),
                one_less(len as int),
            );
            let c = follow_with_margin(left, at.col as int, cols, column_margin(cols));
            0 <= r <= at.line < r + visible && 0 <= c <= at.col < c + cols
        }),
{
}

impl Editor {
    pub fn new() -> (r: Editor)
        ensures
            r == (Editor {
                top: 0,
                left: 0,
                status: None,
                widest: 0,
                widest_at: None,
                caret_seen: None,
                highlighted_at: None,
                marks_at: None,
            }),
    {
        Editor {
            top: 0,
            left: 0,
            status: None,
            widest: 0,
            widest_at: None,
            caret_seen: None,
            highlighted_at: None,
            marks_at: None,
        }
    }

    /// Whether the text has to be coloured again: its language is one that
    /// can be, and it changed since last time.
    pub fn sync_highlights(&mut self, coloured: bool, revision: u64) -> (r: bool)
        ensures
            r == (coloured && old(self).highlighted_at != Some(revision)),
            *final(self) == (if r {
                Editor { highlighted_at: Some(revision), ..*old(self) }
            } else {
                *old(self)
            }),
    {
        if !coloured {
            return false;
        }
        if let Some(at) = self.highlighted_at {
            if at == revision {
                return false;
            }
        }
        self.highlighted_at = Some(revision);
        true
    }

    /// Whether the marks beside the lines have to be read again: something
    /// happened to the repository since last time.
    pub fn sync_marks(&mut self, generation: u64) -> (r: bool)
        ensures
            r == (old(self).marks_at != Some(generation)),
            *final(self) == (Editor { marks_at: Some(generation), ..*old(self) }),
    {
        let fresh: bool = match self.marks_at {
            Some(at) => at == generation,
            None => false,
        };
        self.marks_at = Some(generation);
        !fresh
    }

    /// What was measured is the longest line, whenever it was measured at
    /// this revision of these lines.
    pub open spec fn measured(&self, revision: u64, lines: Seq<Seq<char>>) -> bool {
        self.widest_at == Some(revision) ==> self.widest == longest(lines, lines.len() as int)
    }

    /// Characters in the longest line, remeasured only when the text changed.
    /// Characters rather than bytes: every column is one cell.
    pub fn widest(&mut self, revision: u64, lines: &Vec<String>) -> (r: usize)
        ensures
            old(self).measured(revision, text::texts(lines@)) ==> r == longest(
                text::texts(lines@),
                lines@.len() as int,
            ),
            final(self).measured(revision, text::texts(lines@)) || !old(self).measured(
                revision,
                text::texts(lines@),
            ),
            *final(self) == (Editor { widest: r, widest_at: Some(revision), ..*old(self) }),
    {
        let fresh: bool = match self.widest_at {
            Some(at) => at == revision,
            None => false,
        };
        if !fresh {
            let ghost all = text::texts(lines@);
            let mut best: usize = 0;
            let mut i: usize = 0;
            while i < lines.len()
                invariant
                    i <= lines.len(),
                    all == text::texts(lines@),
                    best == longest(all, i as int),
                decreases lines.len() - i,
            {
                assert(all[i as int] == lines@[i as int]@);
                let n: usize = lines[i].as_str().unicode_len();
                if n > best {
                    best = n;
                }
                i = i + 1;
            }
            self.widest = best;
            self.widest_at = Some(revision);
        }
        self.widest
    }

    /// Scrolls so the caret stays on screen, with a little margin.
    ///
    /// Called from drawing, because only the renderer knows how many lines
    /// fit; but it acts only when the caret moved or the text changed.
    /// Following the caret is for typing and jumps; a wheel scroll is
    /// neither, and must not be yanked straight back.
    pub fn ensure_visible(&mut self, cursor: Pos, revision: u64, len: usize, visible: usize, cols: usize)
        ensures
            ({
                let m = *old(self);
                let seen = m.caret_seen == Some((cursor, revision));
                let last = one_less(len as int);
                &&& visible == 0 ==> *final(self) == m
                &&& visible > 0 && seen ==> *final(self) == (Editor {
                    top: at_most(m.top as int, last) as usize,
                    ..m
                })
                &&& visible > 0 && !seen ==> *final(self) == (Editor {
                    caret_seen: Some((cursor, revision)),
                    top: at_most(
                        follow_with_margin(
                            m.top as int,
                            cursor.line as int,
                            visible as int,
                            line_margin(visible as int),
                        ),
                        last,
                    ) as usize,
                    left: if cols == 0 {
                        m.left
                    } else {
                        follow_with_margin(
                            m.left as int,
                            cursor.col as int,
                            cols as int,
                            column_margin(cols as int),
                        ) as usize
                    },
                    ..m
                })
            }),
            visible > 0 && cols > 0 && cursor.line < len && old(self).caret_seen != Some((cursor, revision)) ==> {
                &&& final(self).top <= cursor.line < final(self).top + visible
                &&& final(self).left <= cursor.col < final(self).left + cols
            },
    {
        if visible == 0 {
            return;
        }
        let last: usize = if len == 0 { 0 } else { len - 1 };
        let seen: bool = match self.caret_seen {
            Some((at, rev)) => at.line == cursor.line && at.col == cursor.col && rev == revision,
            None => false,
        };
        if seen {
            // The bounds still hold when the file or the pane shrank.
            if self.top > last {
                self.top = last;
            }
            return;
        }
        self.caret_seen = Some((cursor, revision));
        let margin: usize = if 2 <= visible / 4 { 2 } else { visible / 4 };
        let top: usize = follow_margin(self.top, cursor.line, visible, margin);
        self.top = if top > last { last } else { top };
        if cols == 0 {
            return;
        }
        let wide: usize = if 8 <= cols / 4 { 8 } else { cols / 4 };
        self.left = follow_margin(self.left, cursor.col, cols, wide);
    }

    pub fn scroll(&mut self, len: usize, delta: i32, visible: usize)
        ensures
            *final(self) == (Editor {
                top: scroll::clamped(
                    old(self).top - delta,
                    scroll::top_limit(len as nat, visible as nat) as int,
                ) as usize,
                ..*old(self)
            }),
            // Turned by a line, the view is a line further up or down, as far as there is one.
            0 <= old(self).top - delta <= scroll::top_limit(len as nat, visible as nat) ==> final(self).top + delta == old(self).top,
    {
        self.top = stepped_up(self.top, delta, max_top(len, visible));
    }

    /// What came of a save. Read-only files and permission errors are common
    /// enough that silently doing nothing would be a genuine trap.
    pub fn save(&mut self, failure: Option<String>)
        ensures
            ({
                let said = final(self).status;
                &&& said is Some
                &&& said->Some_0@ == (match failure {
                    None => "saved"@,
                    Some(e) => "save failed: "@ + e@,
                })
                &&& *final(self) == (Editor { status: said, ..*old(self) })
            }),
    {
        self.status = Some(
            match failure {
                None => "saved".to_owned(),
                Some(e) => joined("save failed: ", e.as_str()),
            },
        );
    }

    /// Puts a line in the middle of things: a jump lands with context above
    /// it.
    pub fn center_on(&mut self, line: usize)
        ensures
            *final(self) == (Editor {
                top: (if line <= 4 { 0 } else { line - 4 }) as usize,
                ..*old(self)
            }),
            final(self).top <= line <= final(self).top + 4,
            line >= 4 ==> final(self).top + 4 == line,
    {
        self.top = if line <= 4 { 0 } else { line - 4 };
    }
}

// -------------------------------------------------------------- the welcome

/// The screen opened on when launched somewhere with nothing remembered: the
/// keys that matter and the places you have been. Opening a workspace from
/// here replaces it; it is a hallway, not a room.
#[derive(Debug)]
pub struct Welcome {
    /// `(label, directory)`: the folder it was started in first, so Enter
    /// always has an answer, then the remembered workspaces.
    pub rows: Vec<(String, Path)>,
    pub selected: usize,
}

/// The rows of a list as values.
pub open spec fn welcome_list(s: Seq<(String, Path)>) -> Seq<(Seq<char>, PathState)> {
    Seq::new(s.len(), |i: int| (s[i].0@, s[i].1@))
}

/// What a folder is called: its name, or its whole path when it has none.
pub open spec fn folder_label(p: PathState) -> Seq<char> {
    match path::path_name(p) {
        Some(name) => name,
        None => path::path_text(p),
    }
}

pub fn label_of(p: &Path) -> (r: String)
    ensures
        r@ == folder_label(p@),
{
    match p.file_name() {
        Some(name) => name,
        None => p.text(),
    }
}

/// The rows of the remembered workspaces, but for the one it was started in.
pub open spec fn remembered(recents: Seq<PathState>, cwd: PathState) -> Seq<(Seq<char>, PathState)>
    decreases recents.len(),
{
    if recents.len() == 0 {
        Seq::empty()
    } else if recents.last() == cwd {
        remembered(recents.drop_last(), cwd)
    } else {
        remembered(recents.drop_last(), cwd).push((folder_label(recents.last()), recents.last()))
    }
}

impl Welcome {
    pub fn new(cwd: &Path, recents: Vec<Path>) -> (r: Welcome)
        ensures
            welcome_list(r.rows@) == seq![(folder_label(cwd@) + " (this folder)"@, cwd@)] + remembered(
                places::path_list(recents@),
                cwd@,
            ),
            r.selected == 0,
    {
        let ghost all = places::path_list(recents@);
        let mut rows: Vec<(String, Path)> = Vec::new();
        let here: String = label_of(cwd);
        let first: String = joined(here.as_str(), " (this folder)");
        rows.push((first, cwd.dup()));
        let ghost head = seq![(folder_label(cwd@) + " (this folder)"@, cwd@)];
        let mut i: usize = 0;
        assert(all.take(0) =~= Seq::empty());
        assert(welcome_list(rows@) =~= head + remembered(all.take(0), cwd@));
        while i < recents.len()
            invariant
                i <= recents.len(),
                all == places::path_list(recents@),
                welcome_list(rows@) == head + remembered(all.take(i as int), cwd@),
            decreases recents.len() - i,
        {
            let ghost done = welcome_list(rows@);
            proof {
                assert(all.take(i + 1).drop_last() =~= all.take(i as int));
                assert(all.take(i + 1).last() == recents@[i as int]@);
            }
            if !recents[i].same(cwd) {
                let name: String = label_of(&recents[i]);
                let dir: Path = recents[i].dup();
                rows.push((name, dir));
                proof {
                    assert(welcome_list(rows@) =~= done.push((name@, dir@)));
                    assert(welcome_list(rows@) =~= head + remembered(all.take(i + 1), cwd@));
                }
            }
            i = i + 1;
        }
        assert(all.take(all.len() as int) =~= all);
        Welcome { rows, selected: 0 }
    }

    pub fn move_selection(&mut self, delta: i32)
        ensures
            final(self).rows == old(self).rows,
            final(self).selected == (if old(self).rows@.len() == 0 {
                old(self).selected as int
            } else {
                scroll::clamped(old(self).selected + delta, old(self).rows@.len() - 1)
            }),
            0 <= old(self).selected + delta < old(self).rows@.len() ==> final(self).selected - delta == old(self).selected,
    {
        if self.rows.len() == 0 {
            return;
        }
        let last: usize = self.rows.len() - 1;
        self.selected = stepped(self.selected, delta, last);
    }

    pub fn chosen(&self) -> (r: Option<Path>)
        ensures
            match r {
                Some(p) => self.selected < self.rows@.len() && p@ == self.rows@[self.selected as int].1@,
                None => self.selected >= self.rows@.len(),
            },
    {
        if self.selected < self.rows.len() {
            Some(self.rows[self.selected].1.dup())
        } else {
            None
        }
    }
}

// ---------------------------------------------------------------- the files

/// Read-only file view: what is shown for a file that is not opened for
/// editing, with the reason.
#[derive(Debug)]
pub struct Viewer {
    pub path: Path,
    pub lines: Vec<String>,
    /// Why the content is incomplete, if it is. Silently truncating a file
    /// and letting someone read half of it is worse than refusing to open it.
    pub note: Option<String>,
    pub top: usize,
}

/// Refuse rather than freeze.
pub const MAX_BYTES: u64 = 8_388_608;

pub const MAX_LINES: usize = 50_000;

/// How much of a file is looked at to tell whether it is text.
pub const HEAD_BYTES: usize = 8000;

/// A zero byte near the front. The heuristic every diff tool uses, and it
/// beats guessing from the extension.
pub open spec fn looks_binary(bytes: Seq<u8>) -> bool {
    exists|i: int| 0 <= i < bytes.len() && i < HEAD_BYTES && bytes[i] == 0
}

pub fn is_binary(bytes: &[u8]) -> (r: bool)
    ensures
        r == looks_binary(bytes@),
{
    let mut i: usize = 0;
    while i < bytes.len() && i < HEAD_BYTES
        invariant
            i <= bytes.len(),
            i <= HEAD_BYTES,
            forall|k: int| 0 <= k < i ==> bytes@[k] != 0,
        decreases bytes.len() - i,
    {
        if bytes[i] == 0 {
            return true;
        }
        i = i + 1;
    }
    false
}

/// Newlines among the first `n` bytes.
pub open spec fn newlines(bytes: Seq<u8>, n: int) -> nat
    decreases n,
{
    if n <= 0 {
        0
    } else {
        newlines(bytes, n - 1) + (if bytes[n - 1] == 10 { 1nat } else { 0 })
    }
}

fn count_newlines(bytes: &[u8]) -> (r: usize)
    ensures
        r == newlines(bytes@, bytes@.len() as int),
{
    let mut n: usize = 0;
    let mut i: usize = 0;
    while i < bytes.len()
        invariant
            i <= bytes.len(),
            n <= i,
            n == newlines(bytes@, i as int),
        decreases bytes.len() - i,
    {
        if bytes[i] == 10 {
            n = n + 1;
        }
        i = i + 1;
    }
    n
}

/// Why a file of that size, with those contents, must not be opened for
/// editing. `mb` is its size in megabytes, written with one decimal.
pub open spec fn refusal(size: nat, mb: Seq<char>, bytes: Seq<u8>) -> Option<Seq<char>> {
    if size > MAX_BYTES {
        Some("too large to open ("@ + mb + " MB, limit 8 MB)"@)
    } else if looks_binary(bytes) {
        Some("binary file"@)
    } else if newlines(bytes, bytes.len() as int) > MAX_LINES {
        Some("more than 50000 lines"@)
    } else {
        None
    }
}

impl Viewer {
    /// Whether a file is worth reading at all: a huge one is never loaded
    /// just to be rejected.
    pub fn worth_reading(size: u64) -> (r: bool)
        ensures
            r == (size <= MAX_BYTES),
    {
        size <= MAX_BYTES
    }

    /// Why this file must not be opened for editing, if it must not be.
    pub fn reason_to_refuse(size: u64, mb: &str, bytes: &[u8]) -> (r: Option<String>)
        ensures
            match r {
                Some(why) => refusal(size as nat, mb@, bytes@) == Some(why@),
                None => refusal(size as nat, mb@, bytes@) is None,
            },
    {
        if size > MAX_BYTES {
            return Some(joined3("too large to open (", mb, " MB, limit 8 MB)"));
        }
        if is_binary(bytes) {
            return Some("binary file".to_owned());
        }
        if count_newlines(bytes) > MAX_LINES {
            return Some("more than 50000 lines".to_owned());
        }
        None
    }

    pub fn refused(path: &Path, note: String) -> (r: Viewer)
        ensures
            r.path@ == path@,
            r.lines@.len() == 0,
            r.note == Some(note),
            r.top == 0,
    {
        Viewer { path: path.dup(), lines: Vec::new(), note: Some(note), top: 0 }
    }

    pub fn scroll(&mut self, delta: i32, visible_rows: usize)
        ensures
            *final(self) == (Viewer {
                top: scroll::clamped(
                    old(self).top - delta,
                    scroll::top_limit(old(self).lines@.len(), visible_rows as nat) as int,
                ) as usize,
                ..*old(self)
            }),
            // Turned by a line, the view is a line further up or down, as far as there is one.
            0 <= old(self).top - delta <= scroll::top_limit(old(self).lines@.len(), visible_rows as nat) ==> final(self).top + delta == old(self).top,
    {
        self.top = stepped_up(self.top, delta, max_top(self.lines.len(), visible_rows));
    }
}

/// What opening a file comes to: a pane that says why, for a file that is
/// refused or cannot be read, and an editor otherwise. A refusal is still a
/// pane rather than nothing happening.
pub fn open_path(path: &Path, refused: Option<String>, failed: Option<String>) -> (r: Option<Viewer>)
    ensures
        match r {
            Some(v) => v.path@ == path@ && v.lines@.len() == 0 && v.top == 0 && v.note == (if refused is Some {
                refused
            } else {
                failed
            }) && v.note is Some,
            None => refused is None && failed is None,
        },
{
    match refused {
        Some(note) => Some(Viewer::refused(path, note)),
        None => match failed {
            Some(note) => Some(Viewer::refused(path, note)),
            None => None,
        },
    }
}

// ------------------------------------------------------------- the explorer

/// The view on a file tree.
#[derive(Clone, Copy, Debug, PartialEq, Eq, Structural)]
pub struct Explorer {
    /// First visible row. The explorer scrolls by whole rows.
    pub top: usize,
    /// The selection the view last followed.
    pub selection_seen: Option<usize>,
}

impl Explorer {
    pub fn new() -> (r: Explorer)
        ensures
            r == (Explorer { top: 0, selection_seen: None }),
    {
        Explorer { top: 0, selection_seen: None }
    }

    /// The tree was given another root: the old scroll offset means nothing
    /// in a new listing, and neither does the row that was followed in it.
    pub fn move_root(&mut self)
        ensures
            *final(self) == (Explorer { top: 0, selection_seen: None }),
    {
        self.top = 0;
        self.selection_seen = None;
    }

    /// Scrolls just enough to keep the selection on screen, and only when it
    /// moved: following it on every frame would snap a wheel scroll straight
    /// back.
    pub fn ensure_visible(&mut self, selected: usize, rows: usize, visible_rows: usize)
        ensures
            ({
                let m = *old(self);
                &&& visible_rows == 0 ==> *final(self) == m
                &&& visible_rows > 0 && m.selection_seen == Some(selected) ==> *final(self) == (Explorer {
                    top: at_most(m.top as int, one_less(rows as int)) as usize,
                    ..m
                })
                &&& visible_rows > 0 && m.selection_seen != Some(selected) ==> *final(self) == (Explorer {
                    selection_seen: Some(selected),
                    top: at_most(
                        scroll::follow_top(m.top as int, selected as int, visible_rows as int),
                        full_limit(rows as nat, visible_rows as nat) as int,
                    ) as usize,
                })
            }),
    {
        if visible_rows == 0 {
            return;
        }
        let seen: bool = match self.selection_seen {
            Some(s) => s == selected,
            None => false,
        };
        if seen {
            let last: usize = if rows == 0 { 0 } else { rows - 1 };
            if self.top > last {
                self.top = last;
            }
            return;
        }
        self.selection_seen = Some(selected);
        let top: usize = scroll::follow(self.top, selected, visible_rows);
        let limit: usize = full_top(rows, visible_rows);
        self.top = if top > limit { limit } else { top };
    }

    pub fn scroll(&mut self, rows: usize, delta: i32, visible_rows: usize)
        ensures
            *final(self) == (Explorer {
                top: scroll::clamped(
                    old(self).top - delta,
                    scroll::top_limit(rows as nat, visible_rows as nat) as int,
                ) as usize,
                ..*old(self)
            }),
            // Turned by a line, the view is a line further up or down, as far as there is one.
            0 <= old(self).top - delta <= scroll::top_limit(rows as nat, visible_rows as nat) ==> final(self).top + delta == old(self).top,
    {
        self.top = stepped_up(self.top, delta, max_top(rows, visible_rows));
    }
}

/// A selection that moved is on screen after the view has followed it, as
/// long as it is a row.
pub proof fn the_tree_follows_its_selection(top: int, selected: int, rows: nat, visible: nat)
    requires
        0 <= top,
        0 <= selected < rows,
        visible > 0,
    ensures
        ({
            let r = at_most(
                scroll::follow_top(top, selected, visible as int),
                full_limit(rows, visible) as int,
            );
            r <= selected < r + visible
        }),
{
}

/// A wheel scroll survives the next frame: with the selection where it was,
/// following leaves the view alone.
pub proof fn the_wheel_is_not_undone(top: int, rows: nat)
    requires
        0 <= top < rows,
    ensures
        at_most(top, one_less(rows as int)) == top,
{
}

/// The width of a text is that of its longest line: no line is longer, and
/// unless the text is empty some line is as long.
pub proof fn the_widest_line_is_the_longest(lines: Seq<Seq<char>>, n: int, k: int)
    requires
        0 <= k < n <= lines.len(),
    ensures
        lines[k].len() <= longest(lines, n),
        exists|i: int| 0 <= i < n && #[trigger] lines[i].len() == longest(lines, n),
    decreases n,
{
    if n > 1 {
        let j = if k < n - 1 { k } else { 0 };
        the_widest_line_is_the_longest(lines, n - 1, j);
        let i = choose|i: int| 0 <= i < n - 1 && #[trigger] lines[i].len() == longest(lines, n - 1);
        if lines[n - 1].len() > longest(lines, n - 1) {
            assert(lines[n - 1].len() == longest(lines, n));
        } else {
            assert(lines[i].len() == longest(lines, n));
        }
    } else {
        assert(longest(lines, 0) == 0);
        assert(lines[0].len() == longest(lines, n));
    }
}

/// A caret well inside the view does not move it; one near its edge moves it
/// only as far as the margin asks.
pub proof fn the_view_moves_no_more_than_it_must(top: int, at: int, visible: int, margin: int)
    requires
        0 <= margin,
        2 * margin < visible,
        0 <= top,
        0 <= at,
    ensures
        top + margin <= at < top + visible - margin ==> follow_with_margin(top, at, visible, margin) == top,
        at < top + margin && margin <= at ==> follow_with_margin(top, at, visible, margin) == at - margin,
        at < margin && at < top + margin ==> follow_with_margin(top, at, visible, margin) == 0,
        at >= top + visible - margin ==> follow_with_margin(top, at, visible, margin) + visible == at + margin + 1,
{
}

/// The margins: two lines and eight columns, less in a small view.
pub proof fn margins_shrink_with_the_view(visible: int)
    requires
        visible >= 0,
    ensures
        visible >= 8 ==> line_margin(visible) == 2,
        visible >= 32 ==> column_margin(visible) == 8,
        visible > 0 ==> 0 <= 4 * line_margin(visible) <= visible,
        visible > 0 ==> 0 <= 4 * column_margin(visible) <= visible,
{
}

/// The controls of the settings are the actions that have a key, in their
/// order.
pub proof fn each_bound_action_is_a_control(bound: Seq<bool>, n: int, k: int)
    requires
        0 <= k < n <= bound.len(),
    ensures
        control_rows(bound, n).contains(LineState::Control(k as nat)) <==> bound[k],
        k + 1 == n && bound[k] ==> control_rows(bound, n).last() == LineState::Control(k as nat),
    decreases n,
{
    let rest = control_rows(bound, n - 1);
    let all = control_rows(bound, n);
    if k < n - 1 {
        each_bound_action_is_a_control(bound, n - 1, k);
        if rest.contains(LineState::Control(k as nat)) {
            let i = choose|i: int| 0 <= i < rest.len() && rest[i] == LineState::Control(k as nat);
            assert(all[i] == LineState::Control(k as nat));
        }
        if all.contains(LineState::Control(k as nat)) {
            let i = choose|i: int| 0 <= i < all.len() && all[i] == LineState::Control(k as nat);
            if i < rest.len() {
                assert(rest[i] == LineState::Control(k as nat));
            }
        }
    } else {
        lemma_no_later_control(bound, n - 1, k);
        if bound[k] {
            assert(all[all.len() - 1] == LineState::Control(k as nat));
        }
    }
}

proof fn lemma_no_later_control(bound: Seq<bool>, n: int, k: int)
    requires
        0 <= n <= k,
        n <= bound.len(),
    ensures
        !control_rows(bound, n).contains(LineState::Control(k as nat)),
    decreases n,
{
    if n > 0 {
        lemma_no_later_control(bound, n - 1, k);
        let rest = control_rows(bound, n - 1);
        let all = control_rows(bound, n);
        if all.contains(LineState::Control(k as nat)) {
            let i = choose|i: int| 0 <= i < all.len() && all[i] == LineState::Control(k as nat);
            if i < rest.len() {
                assert(rest[i] == LineState::Control(k as nat));
            }
        }
    }
}

/// A heading stands directly above the first setting of its section, and
/// between two settings of one section there is none.
pub proof fn a_section_is_headed_once(sections: Seq<Seq<char>>, i: int)
    requires
        0 < i < sections.len(),
    ensures
        sections[i] == sections[i - 1] ==> setting_row(sections, i) == setting_row(sections, i - 1) + 1,
        sections[i] != sections[i - 1] ==> setting_row(sections, i) == setting_row(sections, i - 1) + 2
            && setting_rows(sections, i + 1)[setting_row(sections, i) - 1] == LineState::Heading(sections[i]),
{
}

/// The folders that are offered besides this one are the ones gone to
/// lately, each under its name, without this one.
pub proof fn lately_used_folders_are_offered(recents: Seq<PathState>, cwd: PathState, p: PathState)
    ensures
        remembered(recents, cwd).contains((folder_label(p), p)) <==> recents.contains(p) && p != cwd,
    decreases recents.len(),
{
    if recents.len() > 0 {
        let front = recents.drop_last();
        let rest = remembered(front, cwd);
        let all = remembered(recents, cwd);
        let it = (folder_label(p), p);
        lately_used_folders_are_offered(front, cwd, p);
        if all.contains(it) {
            let i = choose|i: int| 0 <= i < all.len() && all[i] == it;
            if i < rest.len() {
                assert(rest[i] == it);
                let j = choose|j: int| 0 <= j < front.len() && front[j] == p;
                assert(recents[j] == p);
            } else {
                assert(recents[recents.len() - 1] == p);
            }
        }
        if recents.contains(p) && p != cwd {
            let j = choose|j: int| 0 <= j < recents.len() && recents[j] == p;
            if j < front.len() {
                assert(front[j] == p);
                let i = choose|i: int| 0 <= i < rest.len() && rest[i] == it;
                assert(all[i] == it);
            } else {
                assert(all[all.len() - 1] == it);
            }
        }
    }
}

/// A file is refused for its size before it is read, for a zero byte among
/// its first ones, or for its lines; what is none of these is opened.
pub proof fn why_a_file_is_refused(size: nat, mb: Seq<char>, bytes: Seq<u8>)
    ensures
        size > 8 * 1024 * 1024 ==> refusal(size, mb, bytes) == Some("too large to open ("@ + mb
            + " MB, limit 8 MB)"@),
        size <= 8 * 1024 * 1024 && (exists|i: int| 0 <= i < bytes.len() && i < 8000 && bytes[i] == 0) ==> refusal(
            size,
            mb,
            bytes,
        ) == Some("binary file"@),
        size <= 8 * 1024 * 1024 && !(exists|i: int| 0 <= i < bytes.len() && i < 8000 && bytes[i] == 0) ==> (
        if newlines(bytes, bytes.len() as int) > 50_000 {
            refusal(size, mb, bytes) == Some("more than 50000 lines"@)
        } else {
            refusal(size, mb, bytes) is None
        }),
{
}

/// The lines of a file are counted by its newlines: each is one more, and no
/// other byte is.
pub proof fn newlines_are_counted(bytes: Seq<u8>, b: u8)
    ensures
        newlines(bytes.push(b), bytes.len() as int + 1) == newlines(bytes, bytes.len() as int) + (if b == '\n' as u8 {
            1nat
        } else {
            0
        }),
        newlines(Seq::empty(), 0) == 0,
{
    lemma_newlines_prefix(bytes, bytes.push(b), bytes.len() as int);
}

proof fn lemma_newlines_prefix(a: Seq<u8>, b: Seq<u8>, n: int)
    requires
        n <= a.len(),
        n <= b.len(),
        forall|i: int| 0 <= i < n ==> #[trigger] a[i] == b[i],
    ensures
        newlines(a, n) == newlines(b, n),
    decreases n,
{
    if n > 0 {
        lemma_newlines_prefix(a, b, n - 1);
        assert(a[n - 1] == b[n - 1]);
    }
}

/// A folder goes by its own name, and by its path where it has none.
pub proof fn a_folder_goes_by_its_name(p: PathState)
    ensures
        path::path_name(p) matches Some(name) ==> folder_label(p) == name,
        path::path_name(p) is None ==> folder_label(p) == path::path_text(p),
{
}

} // verus!
