//! The conversation as rows: entries wrapped to a width, a blank line
//! between them, a tool's result tucked under its call.
use vstd::prelude::*;
use vstd::string::*;
use crate::text;
use crate::text::{chars_of, joined, repeat, slice_text};

verus! {

// ---------------------------------------------------------------- wrapping

/// The first place at or after `i` that is not a space.
pub open spec fn skip_spaces(s: Seq<char>, i: int) -> int
    decreases s.len() - i,
{
    if i < 0 || i >= s.len() {
        s.len() as int
    } else if s[i] == ' ' {
        skip_spaces(s, i + 1)
    } else {
        i
    }
}

/// The last space in `s[start..end]`, or `start - 1` when there is none.
pub open spec fn last_space(s: Seq<char>, start: int, end: int) -> int
    decreases end - start,
{
    if end <= start {
        start - 1
    } else if s[end - 1] == ' ' {
        end - 1
    } else {
        last_space(s, start, end - 1)
    }
}

/// Where a row that begins at `start` ends, when the line goes on past it: at
/// the last space that leaves a row no wider than `cols`, or after `cols`
/// characters of a word too long for a row.
pub open spec fn row_end(s: Seq<char>, start: int, cols: int) -> int {
    let end = start + cols;
    let cut = if s[end] == ' ' { end } else { last_space(s, start, end) };
    if cut > start { cut } else { end }
}

/// The rows of one line from `start` on.
pub open spec fn wrapped_from(s: Seq<char>, start: int, cols: int) -> Seq<Seq<char>>
    decreases s.len() - start,
{
    if start < 0 || start >= s.len() || cols < 1 {
        Seq::empty()
    } else if s.len() - start <= cols {
        seq![s.subrange(start, s.len() as int)]
    } else {
        let e = row_end(s, start, cols);
        let next = skip_spaces(s, e);
        if e <= start || next < e || next > s.len() {
            Seq::empty()
        } else {
            seq![s.subrange(start, e)] + wrapped_from(s, next, cols)
        }
    }
}

/// The rows of one line; an empty line is one empty row.
pub open spec fn wrapped_line(s: Seq<char>, cols: int) -> Seq<Seq<char>> {
    if s.len() == 0 {
        seq![Seq::empty()]
    } else {
        wrapped_from(s, 0, cols)
    }
}

/// The rows of several lines, one after another.
pub open spec fn wrapped_lines(lines: Seq<Seq<char>>, cols: int) -> Seq<Seq<char>>
    decreases lines.len(),
{
    if lines.len() == 0 {
        Seq::empty()
    } else {
        wrapped_lines(lines.drop_last(), cols) + wrapped_line(lines.last(), cols)
    }
}

/// A width a row can have: at least one character.
pub open spec fn width_of(cols: nat) -> nat {
    if cols == 0 { 1 } else { cols }
}

/// The rows of a text wrapped to `cols` characters.
pub open spec fn wrapped(s: Seq<char>, cols: nat) -> Seq<Seq<char>> {
    wrapped_lines(text::split_on(s, '\n'), width_of(cols) as int)
}

proof fn lemma_skip_spaces(s: Seq<char>, i: int)
    requires
        0 <= i <= s.len(),
    ensures
        i <= skip_spaces(s, i) <= s.len(),
        forall|k: int| i <= k < skip_spaces(s, i) ==> s[k] == ' ',
    decreases s.len() - i,
{
    if i < s.len() && s[i] == ' ' {
        lemma_skip_spaces(s, i + 1);
    }
}

proof fn lemma_last_space(s: Seq<char>, start: int, end: int)
    requires
        0 <= start <= end <= s.len(),
    ensures
        start - 1 <= last_space(s, start, end) < end || start == end,
        last_space(s, start, end) >= start ==> s[last_space(s, start, end)] == ' ',
        last_space(s, start, end) <= end,
    decreases end - start,
{
    if end > start && s[end - 1] != ' ' {
        lemma_last_space(s, start, end - 1);
    }
}

proof fn lemma_row_end(s: Seq<char>, start: int, cols: int)
    requires
        0 <= start,
        cols >= 1,
        start + cols < s.len(),
    ensures
        start < row_end(s, start, cols) <= start + cols,
        row_end(s, start, cols) <= skip_spaces(s, row_end(s, start, cols)) <= s.len(),
{
    lemma_last_space(s, start, start + cols);
    lemma_skip_spaces(s, row_end(s, start, cols));
}

fn wrap_line(v: &Vec<char>, cols: usize, out: &mut Vec<String>)
    requires
        cols >= 1,
    ensures
        text::texts(final(out)@) == text::texts(old(out)@) + wrapped_line(v@, cols as int),
{
    let ghost before = text::texts(out@);
    if v.len() == 0 {
        out.push(String::new());
        proof {
            assert(text::texts(out@).last() =~= Seq::<char>::empty());
            assert(text::texts(out@) =~= before + wrapped_line(v@, cols as int));
        }
        return;
    }
    let mut start: usize = 0;
    while start < v.len()
        invariant
            cols >= 1,
            start <= v.len(),
            text::texts(out@) + wrapped_from(v@, start as int, cols as int) == before + wrapped_from(
                v@,
                0,
                cols as int,
            ),
        decreases v.len() - start,
    {
        let ghost done = text::texts(out@);
        if v.len() - start <= cols {
            let row: String = slice_text(v, start, v.len());
            out.push(row);
            proof {
                assert(text::texts(out@) =~= done.push(row@));
                assert(text::texts(out@) =~= done + wrapped_from(v@, start as int, cols as int));
                assert(wrapped_from(v@, v@.len() as int, cols as int) =~= Seq::empty());
            }
            start = v.len();
        } else {
            let end: usize = start + cols;
            let mut cut: usize = end;
            proof {
                lemma_row_end(v@, start as int, cols as int);
            }
            if v[end] != ' ' {
                // `cut` is one past the space looked for.
                while cut > start && v[cut - 1] != ' '
                    invariant
                        start <= cut <= end < v.len(),
                        last_space(v@, start as int, end as int) == last_space(v@, start as int, cut as int),
                    decreases cut - start,
                {
                    cut = cut - 1;
                }
                if cut > start + 1 {
                    cut = cut - 1;
                } else {
                    cut = end;
                }
            }
            assert(cut == row_end(v@, start as int, cols as int));
            let row: String = slice_text(v, start, cut);
            out.push(row);
            let ghost from = cut;
            while cut < v.len() && v[cut] == ' '
                invariant
                    from <= cut <= v.len(),
                    skip_spaces(v@, from as int) == skip_spaces(v@, cut as int),
                decreases v.len() - cut,
            {
                cut = cut + 1;
            }
            proof {
                assert(text::texts(out@) =~= done.push(row@));
                assert(text::texts(out@) + wrapped_from(v@, cut as int, cols as int) =~= done + wrapped_from(
                    v@,
                    start as int,
                    cols as int,
                ));
            }
            start = cut;
        }
    }
    assert(text::texts(out@) =~= before + wrapped_from(v@, 0, cols as int));
}

/// Greedy word wrap to `cols` characters. Breaks after the last space that
/// fits; a word longer than a row is split, because a row that runs off the
/// pane is a row nobody can read.
pub fn wrap(s: &str, cols: usize) -> (r: Vec<String>)
    ensures
        text::texts(r@) == wrapped(s@, cols as nat),
{
    let width: usize = if cols == 0 { 1 } else { cols };
    let v: Vec<char> = chars_of(s);
    let lines: Vec<Vec<char>> = text::split_text(&v, '\n');
    let mut out: Vec<String> = Vec::new();
    let mut i: usize = 0;
    let ghost all = text::char_lists(lines@);
    assert(all.take(0) =~= Seq::empty());
    assert(text::texts(out@) =~= Seq::empty());
    while i < lines.len()
        invariant
            i <= lines.len(),
            width >= 1,
            all == text::char_lists(lines@),
            text::texts(out@) == wrapped_lines(all.take(i as int), width as int),
        decreases lines.len() - i,
    {
        wrap_line(&lines[i], width, &mut out);
        proof {
            assert(all.take(i + 1).drop_last() =~= all.take(i as int));
            assert(all.take(i + 1).last() == lines@[i as int]@);
        }
        i = i + 1;
    }
    assert(all.take(all.len() as int) =~= all);
    out
}

// ------------------------------------------------- what wrapping promises

proof fn lemma_wrapped_from_fits(s: Seq<char>, start: int, cols: int)
    requires
        0 <= start <= s.len(),
        cols >= 1,
    ensures
        forall|i: int|
            0 <= i < wrapped_from(s, start, cols).len() ==> (#[trigger] wrapped_from(s, start, cols)[i]).len()
                <= cols,
        start < s.len() ==> wrapped_from(s, start, cols).len() > 0,
    decreases s.len() - start,
{
    if start < s.len() && s.len() - start > cols {
        lemma_row_end(s, start, cols);
        let e = row_end(s, start, cols);
        let next = skip_spaces(s, e);
        lemma_wrapped_from_fits(s, next, cols);
        let rest = wrapped_from(s, next, cols);
        let all = wrapped_from(s, start, cols);
        assert(all == seq![s.subrange(start, e)] + rest);
        assert forall|i: int| 0 <= i < all.len() implies (#[trigger] all[i]).len() <= cols by {
            if i > 0 {
                assert(all[i] == rest[i - 1]);
            }
        }
    }
}

proof fn lemma_wrapped_lines_fit(lines: Seq<Seq<char>>, cols: int)
    requires
        cols >= 1,
    ensures
        wrapped_lines(lines, cols).len() >= lines.len(),
        forall|i: int|
            0 <= i < wrapped_lines(lines, cols).len() ==> (#[trigger] wrapped_lines(lines, cols)[i]).len()
                <= cols,
    decreases lines.len(),
{
    if lines.len() > 0 {
        lemma_wrapped_lines_fit(lines.drop_last(), cols);
        lemma_wrapped_from_fits(lines.last(), 0, cols);
        let front = wrapped_lines(lines.drop_last(), cols);
        let back = wrapped_line(lines.last(), cols);
        let all = wrapped_lines(lines, cols);
        assert(back.len() >= 1);
        assert forall|i: int| 0 <= i < all.len() implies (#[trigger] all[i]).len() <= cols by {
            if i < front.len() {
                assert(all[i] == front[i]);
            } else {
                assert(all[i] == back[i - front.len()]);
            }
        }
    }
}

proof fn lemma_split_has_a_piece(s: Seq<char>, c: char, start: int)
    requires
        0 <= start <= s.len(),
    ensures
        text::split_from(s, c, start).len() >= 1,
{
    text::lemma_find_from(s, c, start);
}

/// No row is wider than asked, and every text has at least one row.
pub proof fn wrapping_fits(s: Seq<char>, cols: nat)
    ensures
        wrapped(s, cols).len() >= 1,
        forall|i: int|
            0 <= i < wrapped(s, cols).len() ==> (#[trigger] wrapped(s, cols)[i]).len() <= width_of(cols),
{
    lemma_split_has_a_piece(s, '\n', 0);
    lemma_wrapped_lines_fit(text::split_on(s, '\n'), width_of(cols) as int);
}

/// The characters of a text that are no break: not spaces, not newlines.
pub open spec fn inked(s: Seq<char>) -> Seq<char>
    decreases s.len(),
{
    if s.len() == 0 {
        Seq::empty()
    } else if s.last() == ' ' || s.last() == '\n' {
        inked(s.drop_last())
    } else {
        inked(s.drop_last()).push(s.last())
    }
}

/// The texts one after another.
pub open spec fn flat(rows: Seq<Seq<char>>) -> Seq<char>
    decreases rows.len(),
{
    if rows.len() == 0 {
        Seq::empty()
    } else {
        flat(rows.drop_last()) + rows.last()
    }
}

proof fn lemma_inked_add(a: Seq<char>, b: Seq<char>)
    ensures
        inked(a + b) == inked(a) + inked(b),
    decreases b.len(),
{
    if b.len() == 0 {
        assert(a + b =~= a);
        assert(inked(a) + inked(b) =~= inked(a));
    } else {
        assert((a + b).drop_last() =~= a + b.drop_last());
        assert((a + b).last() == b.last());
        lemma_inked_add(a, b.drop_last());
        assert(inked(a + b) =~= inked(a) + inked(b));
    }
}

proof fn lemma_inked_spaces(s: Seq<char>)
    requires
        forall|i: int| 0 <= i < s.len() ==> s[i] == ' ',
    ensures
        inked(s) == Seq::<char>::empty(),
    decreases s.len(),
{
    if s.len() > 0 {
        lemma_inked_spaces(s.drop_last());
    }
}

proof fn lemma_flat_add(a: Seq<Seq<char>>, b: Seq<Seq<char>>)
    ensures
        flat(a + b) == flat(a) + flat(b),
    decreases b.len(),
{
    if b.len() == 0 {
        assert(a + b =~= a);
        assert(flat(a) + flat(b) =~= flat(a));
    } else {
        assert((a + b).drop_last() =~= a + b.drop_last());
        assert((a + b).last() == b.last());
        lemma_flat_add(a, b.drop_last());
        assert(flat(a + b) =~= flat(a) + flat(b));
    }
}

proof fn lemma_wrapped_from_keeps(s: Seq<char>, start: int, cols: int)
    requires
        0 <= start <= s.len(),
        cols >= 1,
    ensures
        inked(flat(wrapped_from(s, start, cols))) == inked(s.skip(start)),
    decreases s.len() - start,
{
    reveal_with_fuel(flat, 2);
    if start >= s.len() {
        assert(s.skip(start) =~= Seq::empty());
    } else if s.len() - start <= cols {
        let row = s.subrange(start, s.len() as int);
        assert(seq![row].drop_last() =~= Seq::empty());
        assert(flat(seq![row]) =~= row);
        assert(row =~= s.skip(start));
    } else {
        lemma_row_end(s, start, cols);
        let e = row_end(s, start, cols);
        let next = skip_spaces(s, e);
        let row = s.subrange(start, e);
        let gap = s.subrange(e, next);
        lemma_skip_spaces(s, e);
        lemma_wrapped_from_keeps(s, next, cols);
        lemma_flat_add(seq![row], wrapped_from(s, next, cols));
        assert(seq![row].drop_last() =~= Seq::empty());
        assert(flat(seq![row]) =~= row);
        lemma_inked_add(row, flat(wrapped_from(s, next, cols)));
        lemma_inked_spaces(gap);
        assert(s.skip(start) =~= row + (gap + s.skip(next)));
        lemma_inked_add(row, gap + s.skip(next));
        lemma_inked_add(gap, s.skip(next));
        assert(inked(gap) + inked(s.skip(next)) =~= inked(s.skip(next)));
    }
}

proof fn lemma_wrapped_lines_keep(lines: Seq<Seq<char>>, cols: int)
    requires
        cols >= 1,
    ensures
        inked(flat(wrapped_lines(lines, cols))) == inked(flat(lines)),
    decreases lines.len(),
{
    if lines.len() > 0 {
        lemma_wrapped_lines_keep(lines.drop_last(), cols);
        let last = lines.last();
        let back = wrapped_line(last, cols);
        if last.len() == 0 {
            reveal_with_fuel(flat, 2);
            assert(back.drop_last() =~= Seq::empty());
            assert(flat(back) =~= last);
        } else {
            lemma_wrapped_from_keeps(last, 0, cols);
            assert(last.skip(0) =~= last);
        }
        lemma_flat_add(wrapped_lines(lines.drop_last(), cols), back);
        lemma_inked_add(flat(wrapped_lines(lines.drop_last(), cols)), flat(back));
        lemma_inked_add(flat(lines.drop_last()), last);
    }
}

proof fn lemma_split_keeps(s: Seq<char>, start: int)
    requires
        0 <= start <= s.len(),
    ensures
        inked(flat(text::split_from(s, '\n', start))) == inked(s.skip(start)),
    decreases s.len() - start,
{
    reveal_with_fuel(flat, 2);
    text::lemma_find_from(s, '\n', start);
    let e = text::find_from(s, '\n', start);
    if e >= s.len() {
        let row = s.subrange(start, s.len() as int);
        assert(seq![row].drop_last() =~= Seq::empty());
        assert(flat(seq![row]) =~= row);
        assert(row =~= s.skip(start));
    } else {
        let row = s.subrange(start, e);
        lemma_split_keeps(s, e + 1);
        lemma_flat_add(seq![row], text::split_from(s, '\n', e + 1));
        assert(seq![row].drop_last() =~= Seq::empty());
        assert(flat(seq![row]) =~= row);
        lemma_inked_add(row, flat(text::split_from(s, '\n', e + 1)));
        let nl = seq!['\n'];
        assert(nl.drop_last() =~= Seq::empty());
        assert(inked(nl) =~= Seq::empty()) by {
            reveal_with_fuel(inked, 2);
        }
        assert(s.skip(start) =~= row + (nl + s.skip(e + 1)));
        lemma_inked_add(row, nl + s.skip(e + 1));
        lemma_inked_add(nl, s.skip(e + 1));
        assert(inked(nl) + inked(s.skip(e + 1)) =~= inked(s.skip(e + 1)));
    }
}

/// Wrapping loses nothing but breaks: the rows hold, in order, every
/// character of the text that is no space and no newline.
pub proof fn wrapping_keeps_every_word(s: Seq<char>, cols: nat)
    ensures
        inked(flat(wrapped(s, cols))) == inked(s),
{
    lemma_wrapped_lines_keep(text::split_on(s, '\n'), width_of(cols) as int);
    lemma_split_keeps(s, 0);
    assert(s.skip(0) =~= s);
}

/// A line that fits is one row, as it is.
pub proof fn a_line_that_fits_is_left_alone(s: Seq<char>, cols: nat)
    requires
        s.len() <= width_of(cols),
        !s.contains('\n'),
    ensures
        wrapped(s, cols) == seq![s],
{
    reveal_with_fuel(wrapped_lines, 2);
    text::lemma_find_from(s, '\n', 0);
    assert(s.subrange(0, s.len() as int) =~= s);
    assert(text::split_on(s, '\n') =~= seq![s]);
    assert(seq![s].drop_last() =~= Seq::empty());
    if s.len() == 0 {
        assert(s =~= Seq::empty());
    }
    assert(wrapped_line(s, width_of(cols) as int) =~= seq![s]);
    assert(wrapped(s, cols) =~= seq![s]);
}

// ----------------------------------------------------------------- entries

/// One entry of the transcript, before wrapping.
#[derive(Clone, Debug, PartialEq)]
pub enum Kind {
    /// What was typed.
    User(String),
    /// Typed while a turn was in flight; goes out when that one ends.
    Queued(String),
    /// What the agent said.
    Text(String),
    /// A tool call, with what it came back with once it has.
    Tool { id: String, name: String, summary: String, result: Option<(bool, String)> },
    /// Reasoning happened; the text is not returned.
    Thinking,
    /// Bookkeeping: the turn's cost, an interruption, a restart.
    Note(String),
    /// Something went wrong: the agent's own complaint, a refused start.
    Error(String),
}

/// An entry as a value.
pub enum KindState {
    User(Seq<char>),
    Queued(Seq<char>),
    Text(Seq<char>),
    Tool { id: Seq<char>, name: Seq<char>, summary: Seq<char>, result: Option<(bool, Seq<char>)> },
    Thinking,
    Note(Seq<char>),
    Error(Seq<char>),
}

impl View for Kind {
    type V = KindState;

    open spec fn view(&self) -> KindState {
        match self {
            Kind::User(t) => KindState::User(t@),
            Kind::Queued(t) => KindState::Queued(t@),
            Kind::Text(t) => KindState::Text(t@),
            Kind::Tool { id, name, summary, result } => KindState::Tool {
                id: id@,
                name: name@,
                summary: summary@,
                result: match result {
                    Some((bad, t)) => Some((*bad, t@)),
                    None => None,
                },
            },
            Kind::Thinking => KindState::Thinking,
            Kind::Note(t) => KindState::Note(t@),
            Kind::Error(t) => KindState::Error(t@),
        }
    }
}

/// An optional string as a value.
pub open spec fn opt_text(s: Option<String>) -> Option<Seq<char>> {
    match s {
        Some(t) => Some(t@),
        None => None,
    }
}

/// An entry of the transcript and how far along it is.
#[derive(Clone, Debug, PartialEq)]
pub struct Item {
    pub kind: Kind,
    /// The assistant message this came from, for replacing a streamed draft
    /// with the finished blocks. `None` for anything not the agent's.
    pub message_id: Option<String>,
    /// Still streaming. Drawn through the uncached path: a row that changes
    /// on every frame must not be shaped into a cache that never forgets.
    pub provisional: bool,
    /// How many characters of a text are on screen so far, while the rest is
    /// still being let out. `None` once all of it is out, or for anything
    /// that never streamed.
    pub revealed: Option<usize>,
}

/// An item as a value.
pub struct ItemState {
    pub kind: KindState,
    pub message_id: Option<Seq<char>>,
    pub provisional: bool,
    pub revealed: Option<usize>,
}

impl View for Item {
    type V = ItemState;

    open spec fn view(&self) -> ItemState {
        ItemState {
            kind: self.kind@,
            message_id: opt_text(self.message_id),
            provisional: self.provisional,
            revealed: self.revealed,
        }
    }
}

/// The items of a list as values.
pub open spec fn item_list(s: Seq<Item>) -> Seq<ItemState> {
    Seq::new(s.len(), |i: int| s[i]@)
}

/// Not settled yet: streaming, or still being let out.
pub open spec fn is_unsettled(i: ItemState) -> bool {
    i.provisional || i.revealed is Some
}

/// The text of an item as far as it has been let out.
pub open spec fn shown_text(i: ItemState, t: Seq<char>) -> Seq<char> {
    match i.revealed {
        Some(n) => text::first_chars(t, n as nat),
        None => t,
    }
}

impl Item {
    /// Not settled yet: streaming, or still being let out.
    pub fn unsettled(&self) -> (r: bool)
        ensures
            r == is_unsettled(self@),
    {
        self.provisional || self.revealed.is_some()
    }

    /// The text as far as it has been let out.
    pub fn shown(&self, t: &str) -> (r: String)
        ensures
            r@ == shown_text(self@, t@),
    {
        match self.revealed {
            Some(n) => take_text(t, n),
            None => t.to_owned(),
        }
    }
}

/// The first `n` characters of a text.
pub fn take_text(t: &str, n: usize) -> (r: String)
    ensures
        r@ == text::first_chars(t@, n as nat),
{
    let v: Vec<char> = chars_of(t);
    if v.len() <= n {
        return t.to_owned();
    }
    let out: String = slice_text(&v, 0, n);
    assert(out@ =~= t@.take(n as int));
    out
}

/// Longest a tool row or result gets before an ellipsis. A full command or a
/// whole file's contents is what the terminal is for.
pub const SUMMARY_CHARS: usize = 120;

/// A text cut to the longest a tool row gets, saying so when it was cut.
pub open spec fn clipped(s: Seq<char>) -> Seq<char> {
    if s.len() <= SUMMARY_CHARS {
        s
    } else {
        s.take(SUMMARY_CHARS - 1).push('\u{2026}')
    }
}

pub fn clip(s: &str) -> (r: String)
    ensures
        r@ == clipped(s@),
        r@.len() <= SUMMARY_CHARS,
{
    let v: Vec<char> = chars_of(s);
    if v.len() <= SUMMARY_CHARS {
        return s.to_owned();
    }
    let mut out: String = slice_text(&v, 0, SUMMARY_CHARS - 1);
    out.push('\u{2026}');
    assert(out@ =~= clipped(s@));
    out
}

// -------------------------------------------------------------------- rows

/// How a wrapped row is coloured.
#[derive(Clone, Copy, Debug, PartialEq, Eq, Structural)]
pub enum Style {
    User,
    Text,
    Tool,
    ToolResult,
    ToolError,
    Note,
    Error,
}

/// One drawn line of the transcript.
#[derive(Clone, Debug, PartialEq)]
pub struct Row {
    pub text: String,
    pub style: Style,
    /// Shape without caching, for a row that is still changing.
    pub volatile: bool,
}

/// A row as a value.
pub struct RowState {
    pub text: Seq<char>,
    pub style: Style,
    pub volatile: bool,
}

impl View for Row {
    type V = RowState;

    open spec fn view(&self) -> RowState {
        RowState { text: self.text@, style: self.style, volatile: self.volatile }
    }
}

/// The rows of a list as values.
pub open spec fn row_list(s: Seq<Row>) -> Seq<RowState> {
    Seq::new(s.len(), |i: int| s[i]@)
}

/// The blank row between two entries.
pub open spec fn gap() -> RowState {
    RowState { text: Seq::empty(), style: Style::Note, volatile: false }
}

/// The room a text has beside its prefix.
pub open spec fn room_beside(cols: nat, prefix: Seq<char>) -> nat {
    if prefix.len() >= cols { 1 } else { (cols - prefix.len()) as nat }
}

/// A text's rows: the prefix before the first, as many spaces before the
/// others, so the continuation stands under the text and not the mark.
pub open spec fn marked_rows(t: Seq<char>, prefix: Seq<char>, style: Style, volatile: bool, cols: nat) -> Seq<
    RowState,
> {
    let w = wrapped(t, room_beside(cols, prefix));
    Seq::new(
        w.len(),
        |i: int|
            RowState {
                text: (if i == 0 { prefix } else { text::repeated(' ', prefix.len()) }) + w[i],
                style,
                volatile,
            },
    )
}

/// The rows of one entry.
pub open spec fn item_rows(i: ItemState, cols: nat) -> Seq<RowState> {
    let v = is_unsettled(i);
    match i.kind {
        KindState::User(t) => marked_rows(t, "\u{203a} "@, Style::User, v, cols),
        KindState::Queued(t) => marked_rows(t, "\u{203a} "@, Style::Note, v, cols),
        KindState::Text(t) => marked_rows(shown_text(i, t), ""@, Style::Text, v, cols),
        KindState::Tool { summary, result, .. } => {
            let call = marked_rows(summary, "\u{2022} "@, Style::Tool, v, cols);
            match result {
                Some((bad, t)) => if t.len() > 0 {
                    call + marked_rows(
                        t,
                        "  \u{b7} "@,
                        if bad { Style::ToolError } else { Style::ToolResult },
                        false,
                        cols,
                    )
                } else {
                    call
                },
                None => call,
            }
        },
        KindState::Thinking => marked_rows("thinking"@, "\u{2022} "@, Style::Note, v, cols),
        KindState::Note(t) => marked_rows(t, ""@, Style::Note, v, cols),
        KindState::Error(t) => marked_rows(t, ""@, Style::Error, v, cols),
    }
}

/// The transcript as rows. `gap_first` puts a blank line before the first
/// entry too, for a tail that continues settled rows above it.
pub open spec fn laid(items: Seq<ItemState>, cols: nat, gap_first: bool) -> Seq<RowState>
    decreases items.len(),
{
    if items.len() == 0 {
        Seq::empty()
    } else {
        let above = laid(items.drop_last(), cols, gap_first);
        let spaced = if items.len() > 1 || gap_first { above.push(gap()) } else { above };
        spaced + item_rows(items.last(), cols)
    }
}

fn push_marked(rows: &mut Vec<Row>, t: &str, prefix: &str, style: Style, volatile: bool, cols: usize)
    ensures
        row_list(final(rows)@) == row_list(old(rows)@) + marked_rows(t@, prefix@, style, volatile, cols as nat),
{
    let n: usize = prefix.unicode_len();
    let width: usize = if n >= cols { 1 } else { cols - n };
    let lines: Vec<String> = wrap(t, width);
    let ghost before = row_list(rows@);
    let ghost all = marked_rows(t@, prefix@, style, volatile, cols as nat);
    let ghost w = wrapped(t@, room_beside(cols as nat, prefix@));
    let mut i: usize = 0;
    assert(w == text::texts(lines@));
    assert(all.take(0) =~= Seq::empty());
    while i < lines.len()
        invariant
            i <= lines.len(),
            n == prefix@.len(),
            w == text::texts(lines@),
            w == wrapped(t@, room_beside(cols as nat, prefix@)),
            all == marked_rows(t@, prefix@, style, volatile, cols as nat),
            row_list(rows@) == before + all.take(i as int),
        decreases lines.len() - i,
    {
        let lead: String = if i == 0 { prefix.to_owned() } else { repeat(' ', n) };
        let row: Row = Row { text: joined(lead.as_str(), lines[i].as_str()), style, volatile };
        let ghost done = row_list(rows@);
        rows.push(row);
        proof {
            assert(w[i as int] == lines@[i as int]@);
            assert(row@ == all[i as int]);
            assert(row_list(rows@) =~= done.push(row@));
            assert(all.take(i + 1) =~= all.take(i as int).push(all[i as int]));
        }
        i = i + 1;
        assert(row_list(rows@) =~= before + all.take(i as int));
    }
    assert(all.take(all.len() as int) =~= all);
}

fn push_item_rows(rows: &mut Vec<Row>, item: &Item, cols: usize)
    ensures
        row_list(final(rows)@) == row_list(old(rows)@) + item_rows(item@, cols as nat),
{
    let v: bool = item.unsettled();
    let ghost before = row_list(rows@);
    match &item.kind {
        Kind::User(t) => push_marked(rows, t.as_str(), "\u{203a} ", Style::User, v, cols),
        // Faint until it goes out, so a message that has not been heard yet
        // does not read as one that has.
        Kind::Queued(t) => push_marked(rows, t.as_str(), "\u{203a} ", Style::Note, v, cols),
        Kind::Text(t) => {
            let so_far: String = item.shown(t.as_str());
            push_marked(rows, so_far.as_str(), "", Style::Text, v, cols)
        },
        Kind::Tool { summary, result, .. } => {
            push_marked(rows, summary.as_str(), "\u{2022} ", Style::Tool, v, cols);
            match result {
                Some((bad, t)) => {
                    if t.as_str().unicode_len() > 0 {
                        let style: Style = if *bad { Style::ToolError } else { Style::ToolResult };
                        push_marked(rows, t.as_str(), "  \u{b7} ", style, false, cols);
                        assert(row_list(rows@) =~= before + item_rows(item@, cols as nat));
                    }
                },
                None => {},
            }
        },
        Kind::Thinking => push_marked(rows, "thinking", "\u{2022} ", Style::Note, v, cols),
        Kind::Note(t) => push_marked(rows, t.as_str(), "", Style::Note, v, cols),
        Kind::Error(t) => push_marked(rows, t.as_str(), "", Style::Error, v, cols),
    }
}

/// The transcript as rows: a blank line between entries, a tool's result
/// tucked under it.
pub fn layout(items: &[Item], cols: usize, gap_first: bool) -> (r: Vec<Row>)
    ensures
        row_list(r@) == laid(item_list(items@), cols as nat, gap_first),
{
    let mut rows: Vec<Row> = Vec::new();
    let ghost all = item_list(items@);
    let mut i: usize = 0;
    assert(all.take(0) =~= Seq::empty());
    assert(row_list(rows@) =~= Seq::empty());
    while i < items.len()
        invariant
            i <= items.len(),
            all == item_list(items@),
            row_list(rows@) == laid(all.take(i as int), cols as nat, gap_first),
        decreases items.len() - i,
    {
        let ghost above = row_list(rows@);
        if i > 0 || gap_first {
            let blank: Row = Row { text: String::new(), style: Style::Note, volatile: false };
            rows.push(blank);
            proof {
                assert(blank@.text =~= gap().text);
                assert(row_list(rows@) =~= above.push(gap()));
            }
        }
        push_item_rows(&mut rows, &items[i], cols);
        proof {
            assert(all.take(i + 1).drop_last() =~= all.take(i as int));
            assert(all.take(i + 1).last() == items@[i as int]@);
        }
        i = i + 1;
    }
    assert(all.take(all.len() as int) =~= all);
    rows
}

/// Every entry has at least one row.
pub proof fn every_entry_shows(i: ItemState, cols: nat)
    ensures
        item_rows(i, cols).len() >= 1,
{
    match i.kind {
        KindState::User(t) => wrapping_fits(t, room_beside(cols, "\u{203a} "@)),
        KindState::Queued(t) => wrapping_fits(t, room_beside(cols, "\u{203a} "@)),
        KindState::Text(t) => wrapping_fits(shown_text(i, t), room_beside(cols, ""@)),
        KindState::Tool { summary, .. } => wrapping_fits(summary, room_beside(cols, "\u{2022} "@)),
        KindState::Thinking => wrapping_fits("thinking"@, room_beside(cols, "\u{2022} "@)),
        KindState::Note(t) => wrapping_fits(t, room_beside(cols, ""@)),
        KindState::Error(t) => wrapping_fits(t, room_beside(cols, ""@)),
    }
}

/// Laying a transcript out in two pieces gives the rows of the whole, when
/// the second piece is told whether rows stand above it.
pub proof fn laying_out_in_two_pieces(a: Seq<ItemState>, b: Seq<ItemState>, cols: nat, gap_first: bool)
    ensures
        laid(a + b, cols, gap_first) == laid(a, cols, gap_first) + laid(b, cols, gap_first || a.len() > 0),
        laid(a, cols, gap_first).len() > 0 <==> a.len() > 0,
    decreases b.len(),
{
    if a.len() > 0 {
        every_entry_shows(a.last(), cols);
    }
    if b.len() == 0 {
        assert(a + b =~= a);
        assert(laid(a, cols, gap_first) + laid(b, cols, gap_first || a.len() > 0) =~= laid(
            a,
            cols,
            gap_first,
        ));
    } else {
        assert((a + b).drop_last() =~= a + b.drop_last());
        assert((a + b).last() == b.last());
        laying_out_in_two_pieces(a, b.drop_last(), cols, gap_first);
        assert(laid(a + b, cols, gap_first) =~= laid(a, cols, gap_first) + laid(
            b,
            cols,
            gap_first || a.len() > 0,
        ));
    }
}

/// An entry of the transcript is shown behind its own mark and in its own
/// colour.
pub proof fn an_entry_is_shown_as_what_it_is(i: ItemState, cols: nat, t: Seq<char>, k: int)
    requires
        0 <= k < item_rows(i, cols).len(),
        cols > 4,
        i.revealed is None,
    ensures
        ({
            let row = item_rows(i, cols)[k];
            &&& i.kind == KindState::User(t) ==> row.style == Style::User
            &&& i.kind == KindState::Queued(t) ==> row.style == Style::Note
            &&& i.kind == KindState::Text(t) ==> row.style == Style::Text && row.text == wrapped(t, cols)[k]
            &&& i.kind == KindState::Note(t) ==> row.style == Style::Note && row.text == wrapped(t, cols)[k]
            &&& i.kind == KindState::Error(t) ==> row.style == Style::Error && row.text == wrapped(t, cols)[k]
            &&& i.kind == KindState::Thinking ==> row.style == Style::Note
            &&& (i.kind == KindState::User(t) || i.kind == KindState::Queued(t)) && k == 0 ==> row.text
                == "\u{203a} "@ + wrapped(t, (cols - 2) as nat)[0]
            &&& (i.kind == KindState::User(t) || i.kind == KindState::Queued(t)) && k > 0 ==> row.text == seq![' ', ' ']
                + wrapped(t, (cols - 2) as nat)[k]
            &&& row.volatile ==> i.provisional
        }),
{
    reveal_strlit("");
    reveal_strlit("\u{203a} ");
    assert(text::repeated(' ', 2) =~= seq![' ', ' ']);
    match i.kind {
        KindState::Text(w) => {
            assert(""@ + wrapped(w, cols)[k] =~= wrapped(w, cols)[k]);
            assert(text::repeated(' ', 0) + wrapped(w, cols)[k] =~= wrapped(w, cols)[k]);
        },
        KindState::Note(w) => {
            assert(""@ + wrapped(w, cols)[k] =~= wrapped(w, cols)[k]);
            assert(text::repeated(' ', 0) + wrapped(w, cols)[k] =~= wrapped(w, cols)[k]);
        },
        KindState::Error(w) => {
            assert(""@ + wrapped(w, cols)[k] =~= wrapped(w, cols)[k]);
            assert(text::repeated(' ', 0) + wrapped(w, cols)[k] =~= wrapped(w, cols)[k]);
        },
        _ => {},
    }
}

/// A call that came back shows what it gave below it, coloured as an error
/// where it went wrong; one that is still out, or gave nothing, shows itself
/// alone.
pub proof fn a_call_shows_what_it_gave(i: ItemState, cols: nat, id: Seq<char>, name: Seq<char>, summary: Seq<char>, bad: bool, gave: Seq<char>)
    requires
        gave.len() > 0,
    ensures
        ({
            let out = ItemState { kind: KindState::Tool { id, name, summary, result: None }, ..i };
            let back = ItemState { kind: KindState::Tool { id, name, summary, result: Some((bad, gave)) }, ..i };
            let n = item_rows(out, cols).len();
            let below = item_rows(back, cols).skip(n as int);
            &&& item_rows(back, cols).take(n as int) == item_rows(out, cols)
            &&& item_rows(out, cols)[0].style == Style::Tool
            &&& below.len() > 0
            &&& bad ==> below[0].style == Style::ToolError
            &&& !bad ==> below[0].style == Style::ToolResult
        }),
{
    let out = ItemState { kind: KindState::Tool { id, name, summary, result: None }, ..i };
    let back = ItemState { kind: KindState::Tool { id, name, summary, result: Some((bad, gave)) }, ..i };
    let n = item_rows(out, cols).len();
    wrapping_fits(summary, room_beside(cols, "\u{2022} "@));
    wrapping_fits(gave, room_beside(cols, "  \u{b7} "@));
    assert(item_rows(back, cols).take(n as int) =~= item_rows(out, cols));
}

/// Of a text that is being let out the first letters show, as many as are
/// out.
pub proof fn the_letters_that_are_out_show(i: ItemState, t: Seq<char>)
    ensures
        i.revealed is None ==> shown_text(i, t) == t,
        i.revealed matches Some(n) ==> {
            &&& n >= t.len() ==> shown_text(i, t) == t
            &&& n < t.len() ==> shown_text(i, t) == t.take(n as int)
        },
        is_unsettled(i) <==> i.provisional || i.revealed is Some,
{
}

/// Two entries have an empty row between them, and the first has none above
/// it.
pub proof fn entries_stand_apart(a: ItemState, b: ItemState, cols: nat)
    ensures
        laid(seq![a], cols, false) == item_rows(a, cols),
        laid(seq![a, b], cols, false) == item_rows(a, cols) + seq![gap()] + item_rows(b, cols),
        gap().text.len() == 0,
{
    let one = seq![a];
    let two = seq![a, b];
    assert(one.drop_last() =~= Seq::<ItemState>::empty());
    assert(two.drop_last() =~= one);
    assert(laid(Seq::<ItemState>::empty(), cols, false) =~= Seq::<RowState>::empty());
    assert(laid(one, cols, false) =~= item_rows(a, cols));
    assert(laid(two, cols, false) =~= item_rows(a, cols) + seq![gap()] + item_rows(b, cols));
}

/// A text that is too long for its place keeps its beginning.
pub proof fn a_clipped_text_keeps_its_beginning(s: Seq<char>)
    ensures
        s.len() <= 120 ==> clipped(s) == s,
        s.len() > 120 ==> clipped(s).len() == 120 && clipped(s).take(119) == s.take(119) && clipped(s)[119]
            == '\u{2026}',
{
    if s.len() > 120 {
        assert(clipped(s).take(119) =~= s.take(119));
    }
}

proof fn lemma_last_space_is_there(s: Seq<char>, start: int, end: int)
    requires
        0 <= start <= end <= s.len(),
    ensures
        start - 1 <= last_space(s, start, end) < end || end == start,
        last_space(s, start, end) >= start ==> s[last_space(s, start, end)] == ' ',
        forall|k: int| last_space(s, start, end) < k < end && start <= k ==> #[trigger] s[k] != ' ',
    decreases end - start,
{
    if start < end && s[end - 1] != ' ' {
        lemma_last_space_is_there(s, start, end - 1);
    }
}

/// A row that is full ends at a space, the last one that lets it fit; a word
/// is cut only where it is longer than a row.
pub proof fn a_row_ends_between_words(s: Seq<char>, start: int, cols: int)
    requires
        0 <= start,
        cols >= 1,
        start + cols < s.len(),
    ensures
        ({
            let e = row_end(s, start, cols);
            &&& start < e <= start + cols
            &&& s[start + cols] == ' ' ==> e == start + cols
            &&& (exists|k: int| start < k < start + cols && #[trigger] s[k] == ' ') ==> s[e] == ' '
            &&& s[e] == ' ' ==> forall|k: int| e < k <= start + cols ==> #[trigger] s[k] != ' '
            &&& s[e] != ' ' ==> e == start + cols
        }),
{
    lemma_last_space_is_there(s, start, start + cols);
}

} // verus!
