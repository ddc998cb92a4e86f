//! What an editor pane shows: the header, the numbered lines in coloured
//! runs, the selection behind them, the caret, the bracket pair and the marks
//! of what changed. Columns and rows are counted in cells; the renderer turns
//! cells into pixels.
use vstd::prelude::*;
use vstd::string::*;
use crate::lsp::Pos;
use crate::path;
use crate::path::{Path, PathState};
use crate::text;
use crate::text::{blank, chars_of, decimal_text, joined, joined3, pad, slice_text};

verus! {

/// What a piece of code is, for its colour.
#[derive(Clone, Copy, Debug, PartialEq, Eq, Structural)]
pub enum Kind {
    Keyword,
    Function,
    Type,
    Text,
    Number,
    Comment,
    Constant,
    Operator,
    Punctuation,
    Variable,
    Property,
    Attribute,
}

/// A highlighted stretch of a line, in characters.
#[derive(Clone, Copy, Debug, PartialEq, Eq, Structural)]
pub struct Span {
    pub start: usize,
    pub end: usize,
    pub kind: Kind,
}

/// What happened to a line since the last commit.
#[derive(Clone, Copy, Debug, PartialEq, Eq, Structural)]
pub enum LineChange {
    Added,
    Modified,
    /// The vanished lines have no line to mark, so the boundary they left is
    /// marked.
    Deleted,
}

// ------------------------------------------------------------- the header

/// What a pane is called: its file's name, or `untitled`.
pub open spec fn title_of(p: Option<PathState>) -> Seq<char> {
    match p {
        Some(p) => match path::path_name(p) {
            Some(n) => n,
            None => "untitled"@,
        },
        None => "untitled"@,
    }
}

/// A path as a value, or nothing.
pub open spec fn opt_path(p: Option<Path>) -> Option<PathState> {
    match p {
        Some(p) => Some(p@),
        None => None,
    }
}

/// The line over an editor.
pub open spec fn editor_header(p: Option<PathState>, modified: bool, total: nat) -> Seq<char> {
    title_of(p) + (if modified { " \u{25cf}"@ } else { ""@ }) + "   \u{b7}   "@ + text::decimal(total)
        + " lines"@
}

pub fn header(p: &Option<Path>, modified: bool, total: usize) -> (r: String)
    ensures
        r@ == editor_header(opt_path(*p), modified, total as nat),
{
    let name: Option<String> = match p {
        Some(p) => p.file_name(),
        None => None,
    };
    let title: String = match name {
        Some(n) => n,
        None => "untitled".to_owned(),
    };
    let n: String = decimal_text(total as u64);
    let head: String = joined(title.as_str(), if modified { " \u{25cf}" } else { "" });
    let count: String = joined3(head.as_str(), "   \u{b7}   ", n.as_str());
    joined(count.as_str(), " lines")
}

/// Whether a status is about a failure, and so drawn as one.
pub open spec fn tells_of_failure(status: Seq<char>) -> bool {
    text::has_prefix(status, "save failed"@)
}

pub fn is_failure(status: &str) -> (r: bool)
    ensures
        r == tells_of_failure(status@),
{
    let v: Vec<char> = chars_of(status);
    let p: Vec<char> = chars_of("save failed");
    text::starts_with(&v, &p)
}

// -------------------------------------------------------------- the gutter

/// How many digits the gutter is wide: as many as the widest line number that
/// can be on screen.
pub open spec fn gutter_width(top: nat, visible: nat) -> nat {
    text::decimal(if top + visible == 0 { 1 } else { top + visible }).len()
}

pub fn gutter(top: usize, visible: usize) -> (r: usize)
    requires
        top + visible <= usize::MAX,
    ensures
        r == gutter_width(top as nat, visible as nat),
{
    let n: usize = if top + visible == 0 { 1 } else { top + visible };
    let t: String = decimal_text(n as u64);
    t.as_str().unicode_len()
}

/// A line number, right-aligned in the gutter.
pub open spec fn line_number(line: nat, digits: nat) -> Seq<char> {
    text::padded(text::decimal(line + 1), ' ', digits)
}

fn number(line: usize, digits: usize) -> (r: String)
    requires
        line < usize::MAX,
    ensures
        r@ == line_number(line as nat, digits as nat),
{
    let t: String = decimal_text((line + 1) as u64);
    pad(t.as_str(), ' ', digits)
}

// ------------------------------------------------------- what is in a line

/// A piece of a line drawn in one go, at a column counted from the left edge
/// of what is shown. No kind is the plain text colour.
#[derive(Debug, PartialEq, Eq)]
pub struct Run {
    pub col: usize,
    pub text: String,
    pub kind: Option<Kind>,
}

/// A run as a value.
pub struct RunState {
    pub col: nat,
    pub text: Seq<char>,
    pub kind: Option<Kind>,
}

impl View for Run {
    type V = RunState;

    open spec fn view(&self) -> RunState {
        RunState { col: self.col as nat, text: self.text@, kind: self.kind }
    }
}

/// The runs of a list as values.
pub open spec fn run_list(s: Seq<Run>) -> Seq<RunState> {
    Seq::new(s.len(), |i: int| s[i]@)
}

pub open spec fn larger(a: int, b: int) -> int {
    if a >= b { a } else { b }
}

pub open spec fn smaller(a: int, b: int) -> int {
    if a <= b { a } else { b }
}

/// The characters from `from` up to `to` as a run, unless there is nothing to
/// see in them.
pub open spec fn piece(line: Seq<char>, from: int, to: int, left: int, kind: Option<Kind>) -> Seq<RunState> {
    if from >= to || text::trimmed(line.subrange(from, to)).len() == 0 {
        Seq::empty()
    } else {
        seq![RunState { col: (from - left) as nat, text: line.subrange(from, to), kind }]
    }
}

/// The runs from span `k` on, with everything before column `col` drawn.
/// Text between spans keeps the plain colour.
pub open spec fn runs_from(line: Seq<char>, spans: Seq<Span>, k: int, col: int, left: int) -> Seq<RunState>
    decreases spans.len() - k,
{
    let n = line.len() as int;
    if k < 0 || k >= spans.len() {
        piece(line, larger(col, left), n, left, None)
    } else {
        let start = smaller(spans[k].start as int, n);
        let end = smaller(spans[k].end as int, n);
        piece(line, larger(col, left), start, left, None) + piece(
            line,
            larger(start, left),
            end,
            left,
            Some(spans[k].kind),
        ) + runs_from(line, spans, k + 1, larger(col, end), left)
    }
}

/// What is drawn of a line that is scrolled `left` columns sideways.
pub open spec fn line_runs(line: Seq<char>, spans: Seq<Span>, left: nat) -> Seq<RunState> {
    if text::trimmed(line).len() == 0 {
        Seq::empty()
    } else {
        runs_from(line, spans, 0, 0, left as int)
    }
}

fn push_piece(out: &mut Vec<Run>, line: &Vec<char>, from: usize, to: usize, left: usize, kind: Option<Kind>)
    requires
        left <= from,
        to <= line@.len(),
    ensures
        run_list(final(out)@) == run_list(old(out)@) + piece(
            line@,
            from as int,
            to as int,
            left as int,
            kind,
        ),
{
    let ghost before = run_list(out@);
    if from < to {
        let t: String = slice_text(line, from, to);
        if !blank(t.as_str()) {
            let run: Run = Run { col: from - left, text: t, kind };
            out.push(run);
            assert(run_list(out@) =~= before.push(run@));
            assert(run_list(out@) =~= before + piece(line@, from as int, to as int, left as int, kind));
            return;
        }
    }
    assert(before + piece(line@, from as int, to as int, left as int, kind) =~= before);
}

/// What is drawn of a line, in coloured runs positioned by column: a column
/// is exactly one cell wide, so each run can be placed without measuring what
/// came before it.
pub fn runs(line: &str, spans: &Vec<Span>, left: usize) -> (r: Vec<Run>)
    ensures
        run_list(r@) == line_runs(line@, spans@, left as nat),
{
    let mut out: Vec<Run> = Vec::new();
    assert(run_list(out@) =~= Seq::empty());
    if blank(line) {
        return out;
    }
    let v: Vec<char> = chars_of(line);
    let n: usize = v.len();
    let ghost whole = line_runs(line@, spans@, left as nat);
    let mut col: usize = 0;
    let mut k: usize = 0;
    assert(run_list(out@) + runs_from(line@, spans@, 0, 0, left as int) =~= whole);
    while k < spans.len()
        invariant
            k <= spans.len(),
            v@ == line@,
            n == v@.len(),
            run_list(out@) + runs_from(line@, spans@, k as int, col as int, left as int) == whole,
        decreases spans.len() - k,
    {
        let ghost before = run_list(out@);
        let s: Span = spans[k];
        let start: usize = if s.start <= n { s.start } else { n };
        let end: usize = if s.end <= n { s.end } else { n };
        let from: usize = if col >= left { col } else { left };
        push_piece(&mut out, &v, from, start, left, None);
        let from: usize = if start >= left { start } else { left };
        push_piece(&mut out, &v, from, end, left, Some(s.kind));
        proof {
            let next = larger(col as int, end as int);
            let rest = runs_from(line@, spans@, k + 1, next, left as int);
            let a = piece(line@, larger(col as int, left as int), start as int, left as int, None);
            let b = piece(
                line@,
                larger(start as int, left as int),
                end as int,
                left as int,
                Some(s.kind),
            );
            assert(run_list(out@) + rest =~= before + (a + b + rest));
        }
        if end > col {
            col = end;
        }
        k = k + 1;
    }
    let from: usize = if col >= left { col } else { left };
    push_piece(&mut out, &v, from, n, left, None);
    assert(run_list(out@) =~= whole);
    out
}

/// Every run shows the line's own characters, in their own place.
pub proof fn a_run_shows_its_own_place(line: Seq<char>, spans: Seq<Span>, k: int, col: int, left: int, j: int)
    requires
        0 <= left,
        0 <= j < runs_from(line, spans, k, col, left).len(),
    ensures
        ({
            let r = runs_from(line, spans, k, col, left)[j];
            &&& left + r.col + r.text.len() <= line.len()
            &&& r.text == line.subrange(left + r.col, left + r.col + r.text.len())
        }),
    decreases spans.len() - k,
{
    let n = line.len() as int;
    if k < 0 || k >= spans.len() {
    } else {
        let start = smaller(spans[k].start as int, n);
        let end = smaller(spans[k].end as int, n);
        let a = piece(line, larger(col, left), start, left, None);
        let b = piece(line, larger(start, left), end, left, Some(spans[k].kind));
        let rest = runs_from(line, spans, k + 1, larger(col, end), left);
        let all = runs_from(line, spans, k, col, left);
        if j < a.len() {
            assert(all[j] == a[j]);
        } else if j < a.len() + b.len() {
            assert(all[j] == b[j - a.len()]);
        } else {
            assert(all[j] == rest[j - a.len() - b.len()]);
            a_run_shows_its_own_place(
                line,
                spans,
                k + 1,
                larger(col, end),
                left,
                j - a.len() - b.len(),
            );
        }
    }
}

/// Whether a run covers the character at `i`.
pub open spec fn covers(r: RunState, left: int, i: int) -> bool {
    left + r.col <= i < left + r.col + r.text.len()
}

proof fn lemma_piece_covers(line: Seq<char>, from: int, to: int, left: int, kind: Option<Kind>, i: int)
    requires
        0 <= left <= from <= i < to <= line.len(),
        !text::is_white(line[i]),
    ensures
        piece(line, from, to, left, kind).len() == 1,
        covers(piece(line, from, to, left, kind)[0], left, i),
{
    let part = line.subrange(from, to);
    assert(part[i - from] == line[i]);
    text::lemma_trimmed_blank(part);
}

/// Nothing on screen goes missing: whatever the spans, every visible
/// character that is not blank is in some run.
pub proof fn every_visible_character_is_drawn(line: Seq<char>, spans: Seq<Span>, k: int, col: int, left: int, i: int)
    requires
        0 <= left,
        0 <= k,
        larger(col, left) <= i < line.len(),
        !text::is_white(line[i]),
    ensures
        exists|j: int|
            0 <= j < runs_from(line, spans, k, col, left).len() && covers(
                #[trigger] runs_from(line, spans, k, col, left)[j],
                left,
                i,
            ),
    decreases spans.len() - k,
{
    let n = line.len() as int;
    let all = runs_from(line, spans, k, col, left);
    if k >= spans.len() {
        lemma_piece_covers(line, larger(col, left), n, left, None, i);
        assert(covers(all[0], left, i));
    } else {
        let start = smaller(spans[k].start as int, n);
        let end = smaller(spans[k].end as int, n);
        let a = piece(line, larger(col, left), start, left, None);
        let b = piece(line, larger(start, left), end, left, Some(spans[k].kind));
        let rest = runs_from(line, spans, k + 1, larger(col, end), left);
        if i < start {
            lemma_piece_covers(line, larger(col, left), start, left, None, i);
            assert(all[0] == a[0]);
            assert(covers(all[0], left, i));
        } else if i < end {
            lemma_piece_covers(line, larger(start, left), end, left, Some(spans[k].kind), i);
            assert(all[a.len() as int] == b[0]);
            assert(covers(all[a.len() as int], left, i));
        } else {
            every_visible_character_is_drawn(line, spans, k + 1, larger(col, end), left, i);
            let j = choose|j: int| 0 <= j < rest.len() && covers(#[trigger] rest[j], left, i);
            assert(all[a.len() + b.len() + j] == rest[j]);
            assert(covers(all[a.len() + b.len() + j], left, i));
        }
    }
}

// ----------------------------------------------------- what lies behind it

/// Which cells of a line a selection covers, counted from the left edge of
/// what is shown. A selected line break is shown as one extra cell, so an
/// empty selected line is still visible.
pub open spec fn selected_cells(start: Pos, end: Pos, line: nat, len: nat, left: nat) -> Option<(nat, nat)> {
    if line < start.line || line > end.line {
        None
    } else {
        let from = if line == start.line { start.col as nat } else { 0 };
        let to = if line == end.line { end.col as nat } else { len + 1 };
        if to <= left {
            None
        } else {
            Some((if from <= left { 0 } else { (from - left) as nat }, (to - left) as nat))
        }
    }
}

/// A pair of columns as a value.
pub open spec fn cells(r: Option<(usize, usize)>) -> Option<(nat, nat)> {
    match r {
        Some((a, b)) => Some((a as nat, b as nat)),
        None => None,
    }
}

pub fn selection_on(start: Pos, end: Pos, line: usize, len: usize, left: usize) -> (r: Option<(usize, usize)>)
    requires
        len < usize::MAX,
    ensures
        cells(r) == selected_cells(start, end, line as nat, len as nat, left as nat),
{
    if line < start.line || line > end.line {
        return None;
    }
    let from: usize = if line == start.line { start.col } else { 0 };
    let to: usize = if line == end.line { end.col } else { len + 1 };
    if to <= left {
        return None;
    }
    Some((if from <= left { 0 } else { from - left }, to - left))
}

/// Where a position is on screen, when it is: row and column from the corner
/// of what is shown.
pub open spec fn on_screen(p: Pos, top: nat, visible: nat, left: nat) -> Option<(nat, nat)> {
    if top <= p.line < top + visible && p.col >= left {
        Some(((p.line - top) as nat, (p.col - left) as nat))
    } else {
        None
    }
}

pub fn cell_of(p: Pos, top: usize, visible: usize, left: usize) -> (r: Option<(usize, usize)>)
    ensures
        cells(r) == on_screen(p, top as nat, visible as nat, left as nat),
{
    if p.line >= top && p.line - top < visible && p.col >= left {
        Some((p.line - top, p.col - left))
    } else {
        None
    }
}

/// Where the caret is drawn: only in the focused pane.
pub fn caret(focused: bool, p: Pos, top: usize, visible: usize, left: usize) -> (r: Option<(usize, usize)>)
    ensures
        cells(r) == (if focused { on_screen(p, top as nat, visible as nat, left as nat) } else { None }),
{
    if focused { cell_of(p, top, visible, left) } else { None }
}

/// Where the bracket pair the caret touches is tinted: each of the two that
/// is on screen, in the focused pane only, since the caret is not drawn
/// elsewhere either.
pub open spec fn bracket_cells(focused: bool, pair: Option<(Pos, Pos)>, top: nat, visible: nat, left: nat) -> Seq<(nat, nat)> {
    match pair {
        Some((a, b)) => if focused {
            (match on_screen(a, top, visible, left) {
                Some(c) => seq![c],
                None => Seq::empty(),
            }) + (match on_screen(b, top, visible, left) {
                Some(c) => seq![c],
                None => Seq::empty(),
            })
        } else {
            Seq::empty()
        },
        None => Seq::empty(),
    }
}

/// The cells of a list as values.
pub open spec fn cell_list(s: Seq<(usize, usize)>) -> Seq<(nat, nat)> {
    Seq::new(s.len(), |i: int| (s[i].0 as nat, s[i].1 as nat))
}

pub fn brackets(focused: bool, pair: Option<(Pos, Pos)>, top: usize, visible: usize, left: usize) -> (r: Vec<(usize, usize)>)
    ensures
        cell_list(r@) == bracket_cells(focused, pair, top as nat, visible as nat, left as nat),
{
    let mut out: Vec<(usize, usize)> = Vec::new();
    if focused {
        match pair {
            Some((a, b)) => {
                match cell_of(a, top, visible, left) {
                    Some(c) => {
                        out.push(c);
                    },
                    None => {},
                }
                match cell_of(b, top, visible, left) {
                    Some(c) => {
                        out.push(c);
                    },
                    None => {},
                }
            },
            None => {},
        }
    }
    assert(cell_list(out@) =~= bracket_cells(focused, pair, top as nat, visible as nat, left as nat));
    out
}

/// The marks on a line. Hidden while the buffer is modified: unsaved edits
/// shift lines, and a mark on the wrong line is worse than none.
pub open spec fn marks_at(marks: Seq<(usize, LineChange)>, modified: bool, line: nat) -> Seq<LineChange>
    decreases marks.len(),
{
    if modified || marks.len() == 0 {
        Seq::empty()
    } else if marks.last().0 == line {
        marks_at(marks.drop_last(), modified, line).push(marks.last().1)
    } else {
        marks_at(marks.drop_last(), modified, line)
    }
}

pub fn marks_on(marks: &Vec<(usize, LineChange)>, modified: bool, line: usize) -> (r: Vec<LineChange>)
    ensures
        r@ == marks_at(marks@, modified, line as nat),
{
    let mut out: Vec<LineChange> = Vec::new();
    if modified {
        return out;
    }
    let mut i: usize = 0;
    while i < marks.len()
        invariant
            i <= marks.len(),
            !modified,
            out@ == marks_at(marks@.take(i as int), modified, line as nat),
        decreases marks.len() - i,
    {
        proof {
            assert(marks@.take(i + 1).drop_last() =~= marks@.take(i as int));
            assert(marks@.take(i + 1).last() == marks@[i as int]);
        }
        if marks[i].0 == line {
            out.push(marks[i].1);
        }
        i = i + 1;
    }
    assert(marks@.take(marks@.len() as int) =~= marks@);
    out
}

// ------------------------------------------------------------- the screen

/// One line of an editor as it is drawn.
#[derive(Debug)]
pub struct EditorRow {
    pub number: String,
    pub marks: Vec<LineChange>,
    pub selected: Option<(usize, usize)>,
    pub runs: Vec<Run>,
}

/// A line of an editor as a value.
pub struct EditorRowState {
    pub number: Seq<char>,
    pub marks: Seq<LineChange>,
    pub selected: Option<(nat, nat)>,
    pub runs: Seq<RunState>,
}

impl View for EditorRow {
    type V = EditorRowState;

    open spec fn view(&self) -> EditorRowState {
        EditorRowState {
            number: self.number@,
            marks: self.marks@,
            selected: cells(self.selected),
            runs: run_list(self.runs@),
        }
    }
}

/// What an editor shows of its buffer.
#[derive(Debug)]
pub struct Shown {
    /// The lines of the buffer.
    pub lines: Vec<String>,
    /// The spans of the lines from `top` on.
    pub spans: Vec<Vec<Span>>,
    pub top: usize,
    pub left: usize,
    pub visible: usize,
    pub modified: bool,
    pub selection: Option<(Pos, Pos)>,
    pub marks: Vec<(usize, LineChange)>,
}

/// The spans of the row `i` rows below the top.
pub open spec fn spans_of(spans: Seq<Vec<Span>>, i: int) -> Seq<Span> {
    if 0 <= i < spans.len() { spans[i]@ } else { Seq::empty() }
}

/// The row `i` rows below the top.
pub open spec fn editor_row(s: Shown, i: int) -> EditorRowState {
    let at = s.top + i;
    let line = s.lines@[at]@;
    EditorRowState {
        number: line_number(at as nat, gutter_width(s.top as nat, s.visible as nat)),
        marks: marks_at(s.marks@, s.modified, at as nat),
        selected: match s.selection {
            Some((start, end)) => selected_cells(start, end, at as nat, line.len(), s.left as nat),
            None => None,
        },
        runs: line_runs(line, spans_of(s.spans@, i), s.left as nat),
    }
}

/// How many lines of a buffer are on screen.
pub open spec fn rows_shown(len: nat, top: nat, visible: nat) -> nat {
    if len <= top {
        0
    } else if len - top <= visible {
        (len - top) as nat
    } else {
        visible
    }
}

/// The rows of a list as values.
pub open spec fn row_list(s: Seq<EditorRow>) -> Seq<EditorRowState> {
    Seq::new(s.len(), |i: int| s[i]@)
}

/// The lines of an editor as they are drawn.
pub fn rows(s: &Shown) -> (r: Vec<EditorRow>)
    requires
        s.top + s.visible <= usize::MAX,
        forall|i: int| 0 <= i < s.lines@.len() ==> (#[trigger] s.lines@[i])@.len() < usize::MAX,
    ensures
        row_list(r@) == Seq::new(
            rows_shown(s.lines@.len(), s.top as nat, s.visible as nat),
            |i: int| editor_row(*s, i),
        ),
{
    let digits: usize = gutter(s.top, s.visible);
    let total: usize = s.lines.len();
    let n: usize = if total <= s.top {
        0
    } else if total - s.top <= s.visible {
        total - s.top
    } else {
        s.visible
    };
    let mut out: Vec<EditorRow> = Vec::new();
    let mut i: usize = 0;
    while i < n
        invariant
            i <= n,
            n == rows_shown(s.lines@.len(), s.top as nat, s.visible as nat),
            s.lines@.len() <= usize::MAX,
            s.top + s.visible <= usize::MAX,
            forall|k: int| 0 <= k < s.lines@.len() ==> (#[trigger] s.lines@[k])@.len() < usize::MAX,
            digits == gutter_width(s.top as nat, s.visible as nat),
            out.len() == i,
            forall|k: int| 0 <= k < i ==> (#[trigger] out@[k])@ == editor_row(*s, k),
        decreases n - i,
    {
        let at: usize = s.top + i;
        let line: &str = s.lines[at].as_str();
        let len: usize = line.unicode_len();
        let selected: Option<(usize, usize)> = match s.selection {
            Some((start, end)) => selection_on(start, end, at, len, s.left),
            None => None,
        };
        let row: EditorRow = if i < s.spans.len() {
            EditorRow {
                number: number(at, digits),
                marks: marks_on(&s.marks, s.modified, at),
                selected,
                runs: runs(line, &s.spans[i], s.left),
            }
        } else {
            let none: Vec<Span> = Vec::new();
            assert(none@ =~= Seq::<Span>::empty());
            EditorRow {
                number: number(at, digits),
                marks: marks_on(&s.marks, s.modified, at),
                selected,
                runs: runs(line, &none, s.left),
            }
        };
        out.push(row);
        i = i + 1;
    }
    assert(row_list(out@) =~= Seq::new(
        rows_shown(s.lines@.len(), s.top as nat, s.visible as nat),
        |i: int| editor_row(*s, i),
    ));
    out
}

/// The header names the file, marks one that has changes, and counts its
/// lines.
pub proof fn the_header_names_the_file(p: PathState, total: nat)
    ensures
        path::path_name(p) matches Some(n) ==> editor_header(Some(p), false, total) == n + "   \u{b7}   "@ + text::decimal(
            total,
        ) + " lines"@,
        path::path_name(p) matches Some(n) ==> editor_header(Some(p), true, total) == n + " \u{25cf}"@ + "   \u{b7}   "@
            + text::decimal(total) + " lines"@,
        editor_header(None, false, total) == "untitled"@ + "   \u{b7}   "@ + text::decimal(total) + " lines"@,
{
    reveal_strlit("");
    assert(title_of(Some(p)) + ""@ =~= title_of(Some(p)));
    assert(title_of(None) + ""@ =~= title_of(None));
}

/// What is selected on a line: between the two ends where both are on it, to
/// the end of the line and over its break where the selection goes on, from
/// its start where it began before. Other lines have nothing selected.
pub proof fn what_is_selected_on_a_line(start: Pos, end: Pos, line: nat, len: nat)
    ensures
        ({
            let on = selected_cells(start, end, line, len, 0);
            &&& line < start.line || line > end.line ==> on is None
            &&& start.line == line && line == end.line && end.col > 0 ==> on == Some((start.col as nat, end.col as nat))
            &&& start.line == line && line < end.line ==> on == Some((start.col as nat, len + 1))
            &&& start.line < line && line < end.line ==> on == Some((0nat, len + 1))
            &&& start.line < line && line == end.line && end.col > 0 ==> on == Some((0nat, end.col as nat))
        }),
{
}

/// A view moved to the right shows the same selection that many cells
/// further left, and nothing of what lies to the left of it.
pub proof fn the_selection_moves_with_the_view(start: Pos, end: Pos, line: nat, len: nat, left: nat)
    ensures
        ({
            let whole = selected_cells(start, end, line, len, 0);
            let seen = selected_cells(start, end, line, len, left);
            &&& whole is None ==> seen is None
            &&& whole matches Some((a, b)) ==> {
                &&& b <= left ==> seen is None
                &&& b > left && a >= left ==> seen == Some(((a - left) as nat, (b - left) as nat))
                &&& b > left && a < left ==> seen == Some((0nat, (b - left) as nat))
            }
        }),
{
}

/// A place is on the screen as far from its corner as it is from the first
/// place shown.
pub proof fn a_place_on_the_screen(p: Pos, top: nat, visible: nat, left: nat)
    ensures
        on_screen(p, top, visible, left) is Some <==> top <= p.line && p.line < top + visible && left <= p.col,
        on_screen(p, top, visible, left) matches Some((row, col)) ==> top + row == p.line && left + col == p.col,
{
}

/// A pair of brackets is lit where both are, each one that is on the screen.
pub proof fn both_brackets_are_lit(a: Pos, b: Pos, top: nat, visible: nat, left: nat)
    ensures
        bracket_cells(false, Some((a, b)), top, visible, left).len() == 0,
        bracket_cells(true, None, top, visible, left).len() == 0,
        on_screen(a, top, visible, left) matches Some(x) ==> bracket_cells(true, Some((a, b)), top, visible, left)[0]
            == x,
        on_screen(b, top, visible, left) matches Some(y) ==> bracket_cells(true, Some((a, b)), top, visible, left).last()
            == y,
        on_screen(a, top, visible, left) is None && on_screen(b, top, visible, left) is None ==> bracket_cells(
            true,
            Some((a, b)),
            top,
            visible,
            left,
        ).len() == 0,
{
}

/// The marks of a line are those set on it, in their order, and a file with
/// changes of its own shows none.
pub proof fn a_line_shows_its_own_marks(marks: Seq<(usize, LineChange)>, at: usize, c: LineChange, line: nat)
    ensures
        marks_at(marks.push((at, c)), false, line) == (if at == line {
            marks_at(marks, false, line).push(c)
        } else {
            marks_at(marks, false, line)
        }),
        marks_at(marks, true, line).len() == 0,
        marks_at(Seq::empty(), false, line).len() == 0,
{
    assert(marks.push((at, c)).drop_last() =~= marks);
}

/// Lines are numbered from one, in a gutter as wide as the highest number
/// that may show.
pub proof fn lines_are_numbered_from_one(line: nat, top: nat, visible: nat)
    ensures
        top + visible > 0 ==> gutter_width(top, visible) == text::decimal(top + visible).len(),
        gutter_width(0, 0) == text::decimal(1).len(),
        text::decimal(line + 1).len() >= gutter_width(top, visible) ==> line_number(line, gutter_width(top, visible))
            == text::decimal(line + 1),
        text::decimal(line + 1).len() < gutter_width(top, visible) ==> line_number(line, gutter_width(top, visible)).len()
            == gutter_width(top, visible),
{
}

/// The rows shown are the lines from the first one on, as many as there are
/// or as fit.
pub proof fn as_many_rows_as_fit(len: nat, top: nat, visible: nat)
    ensures
        top + visible <= len ==> rows_shown(len, top, visible) == visible,
        top <= len && len < top + visible ==> rows_shown(len, top, visible) == len - top,
        top > len ==> rows_shown(len, top, visible) == 0,
{
}

} // verus!
