//! The overlay: go to file, find in file, go to line, and the questions.
//!
//! One overlay for all of them because they are the same interaction: type,
//! see candidates, pick one. It captures every key while open.
//!
//! Ranking names and looking for text are done elsewhere. After a change of
//! the query the palette says what it wants ([`Want`]): the ranked matches
//! ([`Palette::ranked`]), or where the query occurs in each line
//! ([`Palette::found`]).
use vstd::prelude::*;
use vstd::string::*;
use crate::action::Action;
use crate::content;
use crate::folders::Match;
use crate::lsp::Pos;
use crate::path;
use crate::path::{dup_texts, Path, PathState};
use crate::places;
use crate::scroll;
use crate::scroll::stepped;
use crate::text;
use crate::text::{chars_of, decimal_text, joined, joined3, pad, parse_number, swap_char, trim};

verus! {

#[derive(Clone, Copy, Debug, PartialEq, Eq, Structural)]
pub enum Mode {
    /// Fuzzy file open.
    File,
    /// Search within the focused buffer. Literal, unlike [`Mode::File`]: a
    /// file name is something you half-remember, a string in a document is
    /// something you know.
    Find,
    /// Matches from across the project, already found. A fixed list to
    /// narrow, not a search.
    Results,
    /// Jump to a line number.
    Line,
    /// Run a command by name.
    Command,
    /// A question with a fixed set of answers, side by side.
    Choice,
    /// Free text, with the caller deciding what it means.
    Prompt,
}

/// What stands in front of the input.
pub open spec fn mode_label(m: Mode) -> Seq<char> {
    match m {
        Mode::File => "open"@,
        Mode::Find => "find"@,
        Mode::Results => "results"@,
        Mode::Line => "line"@,
        Mode::Command => ">"@,
        Mode::Choice => ""@,
        Mode::Prompt => ""@,
    }
}

impl Mode {
    /// The label in front of the input, so it is never unclear what typing
    /// here will do. A question and a prompt bring their own.
    pub fn prompt(self) -> (r: &'static str)
        ensures
            r@ == mode_label(self),
    {
        match self {
            Mode::File => "open",
            Mode::Find => "find",
            Mode::Results => "results",
            Mode::Line => "line",
            Mode::Command => ">",
            Mode::Choice => "",
            Mode::Prompt => "",
        }
    }
}

/// A candidate row, already formatted for drawing.
#[derive(Debug, PartialEq, Eq)]
pub struct Row {
    pub text: String,
    /// Character positions the match landed on, highlighted so it is visible
    /// why a row is in the list.
    pub hits: Vec<usize>,
    /// The key chord, for the command list. Its own field rather than padded
    /// into `text`, so the renderer can right-align it into a column.
    pub detail: Option<String>,
}

/// A row as a value.
pub struct RowState {
    pub text: Seq<char>,
    pub hits: Seq<usize>,
    pub detail: Option<Seq<char>>,
}

/// An optional string as a value.
pub open spec fn opt_text(s: Option<String>) -> Option<Seq<char>> {
    match s {
        Some(t) => Some(t@),
        None => None,
    }
}

impl View for Row {
    type V = RowState;

    open spec fn view(&self) -> RowState {
        RowState { text: self.text@, hits: self.hits@, detail: opt_text(self.detail) }
    }
}

/// The rows of a list as values.
pub open spec fn row_list(s: Seq<Row>) -> Seq<RowState> {
    Seq::new(s.len(), |i: int| s[i]@)
}

/// What picking a row leads to.
#[derive(Debug, PartialEq, Eq)]
pub enum Target {
    Path(Path),
    Pos(Pos),
    Run(Action),
    /// Whatever was typed. What it means is the caller's business.
    Text(String),
    /// A place in a file that is not necessarily open yet.
    Location(Path, Pos),
    /// One of a fixed set of answers, by position.
    Answer(usize),
}

/// A target as a value.
pub enum TargetState {
    Path(PathState),
    Pos(Pos),
    Run(Action),
    Text(Seq<char>),
    Location(PathState, Pos),
    Answer(usize),
}

impl View for Target {
    type V = TargetState;

    open spec fn view(&self) -> TargetState {
        match self {
            Target::Path(p) => TargetState::Path(p@),
            Target::Pos(p) => TargetState::Pos(*p),
            Target::Run(a) => TargetState::Run(*a),
            Target::Text(t) => TargetState::Text(t@),
            Target::Location(p, at) => TargetState::Location(p@, *at),
            Target::Answer(i) => TargetState::Answer(*i),
        }
    }
}

impl Target {
    pub fn dup(&self) -> (r: Target)
        ensures
            r@ == self@,
    {
        match self {
            Target::Path(p) => Target::Path(p.dup()),
            Target::Pos(p) => Target::Pos(*p),
            Target::Run(a) => Target::Run(*a),
            Target::Text(t) => Target::Text(t.clone()),
            Target::Location(p, at) => Target::Location(p.dup(), *at),
            Target::Answer(i) => Target::Answer(*i),
        }
    }
}

/// The targets of a list as values.
pub open spec fn target_list(s: Seq<Target>) -> Seq<TargetState> {
    Seq::new(s.len(), |i: int| s[i]@)
}

/// A match as a value: the row it names and where the query landed in it.
pub struct MatchState {
    pub index: usize,
    pub positions: Seq<usize>,
}

pub open spec fn match_state(m: Match) -> MatchState {
    MatchState { index: m.index, positions: m.positions@ }
}

/// The matches of a list as values.
pub open spec fn match_list(s: Seq<Match>) -> Seq<MatchState> {
    Seq::new(s.len(), |i: int| match_state(s[i]))
}

/// A line of the project that holds what was searched for.
#[derive(Debug)]
pub struct Hit {
    pub path: Path,
    pub line: usize,
    pub text: String,
}

/// A command for the list: its name, the chord it is bound to or an empty
/// text, and what it does.
#[derive(Debug)]
pub struct Command {
    pub title: String,
    pub chord: String,
    pub action: Action,
}

#[derive(Debug)]
pub struct Palette {
    pub mode: Mode,
    /// Overrides the mode's label, for prompts that ask something specific.
    /// In [`Mode::Choice`] it is the box's title bar.
    pub label: Option<String>,
    /// The sentence a [`Mode::Choice`] box asks. Its own field because `note`
    /// is rewritten by filtering and this must survive.
    pub question: Option<String>,
    pub query: String,
    pub selected: usize,
    /// First visible match.
    pub top: usize,
    /// Everything searchable, as displayed. Built once when the palette
    /// opens.
    pub items: Vec<String>,
    /// Per-item chord, parallel to `items`. Command mode only.
    pub details: Vec<String>,
    pub targets: Vec<Target>,
    /// Filtered indices into `items`, best first.
    pub matches: Vec<Match>,
    /// The buffer's lines, for [`Mode::Find`] only.
    pub lines: Vec<String>,
    /// Message shown instead of results, e.g. why there are none.
    pub note: Option<String>,
}

/// The palette as a value.
#[verifier::ext_equal]
pub struct PaletteState {
    pub mode: Mode,
    pub label: Option<Seq<char>>,
    pub question: Option<Seq<char>>,
    pub query: Seq<char>,
    pub selected: usize,
    pub top: usize,
    pub items: Seq<Seq<char>>,
    pub details: Seq<Seq<char>>,
    pub targets: Seq<TargetState>,
    pub matches: Seq<MatchState>,
    pub lines: Seq<Seq<char>>,
    pub note: Option<Seq<char>>,
}

impl View for Palette {
    type V = PaletteState;

    open spec fn view(&self) -> PaletteState {
        PaletteState {
            mode: self.mode,
            label: opt_text(self.label),
            question: opt_text(self.question),
            query: self.query@,
            selected: self.selected,
            top: self.top,
            items: text::texts(self.items@),
            details: text::texts(self.details@),
            targets: target_list(self.targets@),
            matches: match_list(self.matches@),
            lines: text::texts(self.lines@),
            note: opt_text(self.note),
        }
    }
}

/// A palette of that mode with nothing in it.
pub open spec fn empty_palette(mode: Mode) -> PaletteState {
    PaletteState {
        mode,
        label: None,
        question: None,
        query: Seq::empty(),
        selected: 0,
        top: 0,
        items: Seq::empty(),
        details: Seq::empty(),
        targets: Seq::empty(),
        matches: Seq::empty(),
        lines: Seq::empty(),
        note: None,
    }
}

/// Whether the overlay handles this key itself: escape, backspace, the four
/// arrows and enter.
pub open spec fn is_consumed(vk: u8) -> bool {
    vk == 0x1B || vk == 0x08 || 0x25 <= vk <= 0x28 || vk == 0x0D
}

/// Whether the overlay handles this key itself.
///
/// Anything else must be reported as unhandled, even though the overlay still
/// owns the keyboard. Claiming a key makes the window layer swallow the
/// character that key would have produced, and typing is the entire point of
/// the box.
pub fn consumes(vk: u8) -> (r: bool)
    ensures
        r == is_consumed(vk),
{
    matches!(vk, 0x1B | 0x08 | 0x25 | 0x26 | 0x27 | 0x28 | 0x0D)
}

/// More than this and the list is noise; the pattern is the filter.
pub const MAX_ROWS: usize = 200;

/// What a palette wants after its query changed.
#[derive(Clone, Copy, Debug, PartialEq, Eq, Structural)]
pub enum Want {
    /// Nothing: its rows already fit the query.
    Nothing,
    /// The items ranked by the query, at most [`MAX_ROWS`].
    Rank,
    /// The columns at which the query occurs, line by line.
    Occurrences,
}

/// What the palette wants for the query it has.
pub open spec fn wanted(m: PaletteState) -> Want {
    match m.mode {
        Mode::Prompt | Mode::Line | Mode::Choice => Want::Nothing,
        Mode::Find => if m.query.len() == 0 { Want::Nothing } else { Want::Occurrences },
        Mode::File | Mode::Command | Mode::Results => Want::Rank,
    }
}

// ------------------------------------------------------------ find's rows

/// The first `MAX_ROWS` of a list.
pub open spec fn capped<A>(s: Seq<A>) -> Seq<A> {
    if s.len() <= MAX_ROWS { s } else { s.take(MAX_ROWS as int) }
}

/// Every (line, column) worth going to in the first `n` lines.
pub open spec fn occurrences_in(places: Seq<Seq<usize>>, n: int) -> Seq<(nat, usize)>
    decreases n,
{
    if n <= 0 {
        Seq::empty()
    } else {
        occurrences_in(places, n - 1) + Seq::new(
            places[n - 1].len(),
            |i: int| ((n - 1) as nat, places[n - 1][i]),
        )
    }
}

/// How many lines have been looked through.
pub open spec fn looked_through(lines: nat, places: nat) -> nat {
    if places <= lines { places } else { lines }
}

/// The rows of find: the file itself before anything is typed, one row per
/// occurrence after.
pub open spec fn find_places(lines: nat, query: Seq<char>, places: Seq<Seq<usize>>) -> Seq<(nat, usize)> {
    capped(
        if query.len() == 0 {
            Seq::new(lines, |i: int| (i as nat, 0usize))
        } else {
            occurrences_in(places, looked_through(lines, places.len()) as int)
        },
    )
}

/// The line number in front of a row, right-aligned to the file's widest.
pub open spec fn numbered(line: nat, lines: nat) -> Seq<char> {
    text::padded(text::decimal(line + 1), ' ', text::decimal(lines).len()) + ": "@
}

/// The text of a row.
pub open spec fn find_item(lines: Seq<Seq<char>>, at: (nat, usize)) -> Seq<char> {
    numbered(at.0, lines.len()) + text::trimmed_end(lines[at.0 as int])
}

/// Where the query shows in a row: past the line number.
pub open spec fn find_positions(lines: nat, query: Seq<char>, at: (nat, usize)) -> Seq<usize> {
    Seq::new(query.len(), |i: int| (numbered(at.0, lines).len() + at.1 + i) as usize)
}

/// A message for an empty list.
pub open spec fn no_match(query: Seq<char>) -> Seq<char> {
    "no match for '"@ + query + "'"@
}

/// Find with its rows rebuilt for the query it has.
pub open spec fn refound(m: PaletteState, places: Seq<Seq<usize>>) -> PaletteState {
    let rows = find_places(m.lines.len(), m.query, places);
    PaletteState {
        items: Seq::new(rows.len(), |i: int| find_item(m.lines, rows[i])),
        targets: Seq::new(
            rows.len(),
            |i: int| TargetState::Pos(Pos { line: rows[i].0 as usize, col: rows[i].1 }),
        ),
        matches: Seq::new(
            rows.len(),
            |i: int|
                MatchState { index: i as usize, positions: find_positions(m.lines.len(), m.query, rows[i]) },
        ),
        selected: 0,
        top: 0,
        note: if m.lines.len() == 0 {
            Some("nothing to search"@)
        } else if rows.len() == 0 {
            Some(no_match(m.query))
        } else {
            None
        },
        ..m
    }
}

/// A list narrowed to the matches that were found.
pub open spec fn narrowed(m: PaletteState, found: Seq<MatchState>) -> PaletteState {
    match m.mode {
        Mode::File | Mode::Command | Mode::Results => PaletteState {
            matches: found,
            selected: 0,
            top: 0,
            note: if m.items.len() == 0 {
                // Whatever the constructor said is more specific.
                match m.note {
                    Some(n) => Some(n),
                    None => Some("nothing to search"@),
                }
            } else if found.len() == 0 {
                Some(no_match(m.query))
            } else {
                None
            },
            ..m
        },
        _ => m,
    }
}

/// The palette right after its query became `query`. A prompt's note does
/// not outlive the text it was about; find lists the file again once there
/// is nothing to look for.
pub open spec fn requeried(m: PaletteState, query: Seq<char>) -> PaletteState {
    let n = PaletteState { query, ..m };
    match m.mode {
        Mode::Prompt => PaletteState { note: None, ..n },
        Mode::Find => if query.len() == 0 { refound(n, Seq::empty()) } else { n },
        _ => n,
    }
}

/// Powers of ten.
spec fn tens(k: nat) -> nat
    decreases k,
{
    if k == 0 { 1 } else { 10 * tens((k - 1) as nat) }
}

proof fn lemma_decimal_short(n: nat, k: nat)
    requires
        k > 0,
        n < tens(k),
    ensures
        text::decimal(n).len() <= k,
    decreases k,
{
    if n >= 10 {
        assert(tens(1) == 10) by {
            reveal_with_fuel(tens, 2);
        }
        if k == 1 {
        } else {
            assert(n / 10 < tens((k - 1) as nat));
            lemma_decimal_short(n / 10, (k - 1) as nat);
        }
    }
}

/// A line number takes no more than 22 characters, colon and space included.
proof fn lemma_numbered_short(line: nat, lines: nat)
    requires
        line < lines <= u64::MAX,
    ensures
        numbered(line, lines).len() <= 22,
{
    reveal_strlit(": ");
    assert(u64::MAX < tens(20)) by {
        reveal_with_fuel(tens, 21);
    }
    lemma_decimal_short(line + 1, 20);
    lemma_decimal_short(lines, 20);
}

proof fn lemma_occurrences_prefix(places: Seq<Seq<usize>>, i: int, n: int)
    requires
        0 <= i <= n,
    ensures
        occurrences_in(places, i).len() <= occurrences_in(places, n).len(),
        occurrences_in(places, n).take(occurrences_in(places, i).len() as int) =~= occurrences_in(
            places,
            i,
        ),
    decreases n,
{
    if i < n {
        lemma_occurrences_prefix(places, i, n - 1);
        let a = occurrences_in(places, i);
        let b = occurrences_in(places, n - 1);
        let c = occurrences_in(places, n);
        assert(c.take(a.len() as int) =~= b.take(a.len() as int));
    }
}

proof fn lemma_occurrence_line(places: Seq<Seq<usize>>, n: int, k: int)
    requires
        0 <= n <= places.len(),
        0 <= k < occurrences_in(places, n).len(),
    ensures
        occurrences_in(places, n)[k].0 < n,
        exists|j: int|
            0 <= j < places[occurrences_in(places, n)[k].0 as int].len() && occurrences_in(places, n)[k].1
                == #[trigger] places[occurrences_in(places, n)[k].0 as int][j],
    decreases n,
{
    let before = occurrences_in(places, n - 1);
    if k < before.len() {
        lemma_occurrence_line(places, n - 1, k);
        assert(occurrences_in(places, n)[k] == before[k]);
    } else {
        let j = k - before.len();
        assert(occurrences_in(places, n)[k] == ((n - 1) as nat, places[n - 1][j]));
    }
}

/// The columns of each line as values.
pub open spec fn column_lists(s: Seq<Vec<usize>>) -> Seq<Seq<usize>> {
    Seq::new(s.len(), |i: int| s[i]@)
}

/// The rows gathered so far as values.
spec fn place_list(s: Seq<(usize, usize)>) -> Seq<(nat, usize)> {
    Seq::new(s.len(), |i: int| (s[i].0 as nat, s[i].1))
}

/// Adds the places of one line, as far as there is room.
fn gather_line(rows: &mut Vec<(usize, usize)>, line: usize, cols: &Vec<usize>)
    requires
        old(rows)@.len() < MAX_ROWS,
    ensures
        place_list(final(rows)@) == capped(
            place_list(old(rows)@) + Seq::new(cols@.len(), |i: int| (line as nat, cols@[i])),
        ),
{
    let ghost before = place_list(rows@);
    let ghost more = Seq::new(cols@.len(), |i: int| (line as nat, cols@[i]));
    let mut i: usize = 0;
    assert(place_list(rows@) =~= before + more.take(0));
    while i < cols.len() && rows.len() < MAX_ROWS
        invariant
            i <= cols.len(),
            rows.len() <= MAX_ROWS,
            more == Seq::new(cols@.len(), |i: int| (line as nat, cols@[i])),
            place_list(rows@) == before + more.take(i as int),
        decreases cols.len() - i,
    {
        let ghost done = place_list(rows@);
        rows.push((line, cols[i]));
        proof {
            assert(place_list(rows@) =~= done.push((line as nat, cols@[i as int])));
            assert(more.take(i + 1) =~= more.take(i as int).push((line as nat, cols@[i as int])));
            assert(place_list(rows@) =~= before + more.take(i + 1));
        }
        i = i + 1;
    }
    proof {
        assert(place_list(rows@).len() == rows@.len());
        if i == cols.len() {
            assert(more.take(i as int) =~= more);
            assert(capped(before + more) =~= before + more);
        } else {
            assert(capped(before + more) =~= before + more.take(i as int));
        }
    }
}

/// Every place worth going to, at most `MAX_ROWS` of them.
fn gather(lines: usize, empty_query: bool, places: &Vec<Vec<usize>>) -> (r: Vec<(usize, usize)>)
    ensures
        forall|query: Seq<char>|
            (query.len() == 0) == empty_query ==> place_list(r@) == #[trigger] find_places(
                lines as nat,
                query,
                column_lists(places@),
            ),
        r@.len() <= MAX_ROWS,
{
    let mut rows: Vec<(usize, usize)> = Vec::new();
    let ghost cols = column_lists(places@);
    if empty_query {
        let ghost all = Seq::new(lines as nat, |i: int| (i as nat, 0usize));
        let mut i: usize = 0;
        assert(place_list(rows@) =~= all.take(0));
        while i < lines && i < MAX_ROWS
            invariant
                i <= lines,
                i <= MAX_ROWS,
                rows.len() == i,
                all == Seq::new(lines as nat, |i: int| (i as nat, 0usize)),
                place_list(rows@) == all.take(i as int),
            decreases lines - i,
        {
            let ghost done = place_list(rows@);
            rows.push((i, 0));
            assert(place_list(rows@) =~= done.push((i as nat, 0usize)));
            assert(place_list(rows@) =~= all.take(i + 1));
            i = i + 1;
        }
        proof {
            if lines <= MAX_ROWS {
                assert(all.take(i as int) =~= all);
            }
            assert(place_list(rows@) =~= capped(all));
        }
        return rows;
    }
    let n: usize = if places.len() <= lines { places.len() } else { lines };
    let mut i: usize = 0;
    assert(place_list(rows@) =~= Seq::empty());
    while i < n && rows.len() < MAX_ROWS
        invariant
            i <= n,
            n == looked_through(lines as nat, places@.len()),
            rows.len() <= MAX_ROWS,
            cols == column_lists(places@),
            place_list(rows@) == capped(occurrences_in(cols, i as int)),
            rows.len() < MAX_ROWS ==> place_list(rows@) == occurrences_in(cols, i as int),
        decreases n - i,
    {
        assert(cols[i as int] == places@[i as int]@);
        gather_line(&mut rows, i, &places[i]);
        proof {
            assert(place_list(rows@).len() == rows@.len());
            assert(occurrences_in(cols, i + 1) =~= occurrences_in(cols, i as int) + Seq::new(
                places@[i as int]@.len(),
                |k: int| (i as nat, places@[i as int]@[k]),
            ));
        }
        i = i + 1;
    }
    proof {
        assert(place_list(rows@).len() == rows@.len());
        lemma_occurrences_prefix(cols, i as int, n as int);
        let part = occurrences_in(cols, i as int);
        let whole = occurrences_in(cols, n as int);
        if i < n {
            assert(rows.len() == MAX_ROWS);
            assert(part.len() >= MAX_ROWS);
            assert(whole.take(MAX_ROWS as int) =~= whole.take(part.len() as int).take(MAX_ROWS as int));
            assert(capped(part) =~= part.take(MAX_ROWS as int));
            assert(capped(whole) =~= whole.take(MAX_ROWS as int));
        }
    }
    rows
}

/// Whether the columns lie where a row can show them: a query found at a
/// column still ends within what a machine can count.
pub open spec fn placeable(query: nat, places: Seq<Seq<usize>>) -> bool {
    forall|i: int, j: int|
        0 <= i < places.len() && 0 <= j < places[i].len() ==> #[trigger] places[i][j] + query + 22
            <= usize::MAX
}

impl Palette {
    fn empty(mode: Mode) -> (r: Palette)
        ensures
            r@ == empty_palette(mode),
    {
        let r: Palette = Palette {
            mode,
            label: None,
            question: None,
            query: String::new(),
            selected: 0,
            top: 0,
            items: Vec::new(),
            details: Vec::new(),
            targets: Vec::new(),
            matches: Vec::new(),
            lines: Vec::new(),
            note: None,
        };
        assert(r@ =~= empty_palette(mode));
        r
    }

    /// Rows for [`Mode::Find`]: one per occurrence, rebuilt per keystroke.
    /// `places` holds the columns of each line at which the query occurs.
    fn refilter_find(&mut self, places: &Vec<Vec<usize>>)
        requires
            placeable(old(self)@.query.len(), column_lists(places@)),
        ensures
            final(self)@ == refound(old(self)@, column_lists(places@)),
    {
        let needle: usize = self.query.as_str().unicode_len();
        let n: usize = self.lines.len();
        let ghost m = self@;
        let ghost cols = column_lists(places@);
        let rows: Vec<(usize, usize)> = gather(n, needle == 0, places);
        let ghost want = find_places(n as nat, m.query, cols);
        assert(place_list(rows@) == want);
        let total: String = decimal_text(n as u64);
        let width: usize = total.as_str().unicode_len();
        let mut items: Vec<String> = Vec::new();
        let mut targets: Vec<Target> = Vec::new();
        let mut matches: Vec<Match> = Vec::new();
        let mut k: usize = 0;
        proof {
            assert forall|i: int| 0 <= i < rows@.len() implies (#[trigger] rows@[i]).0 < n && rows@[i].1
                + needle + 22 <= usize::MAX by {
                assert(place_list(rows@)[i] == (rows@[i].0 as nat, rows@[i].1));
                if needle == 0 {
                    assert(want[i] == (i as nat, 0usize));
                } else {
                    let upto = looked_through(n as nat, cols.len()) as int;
                    assert(want[i] == occurrences_in(cols, upto)[i]);
                    lemma_occurrence_line(cols, upto, i);
                }
            }
        }
        while k < rows.len()
            invariant
                k <= rows.len(),
                self@ == m,
                n == m.lines.len(),
                n == self.lines@.len(),
                needle == m.query.len(),
                width == text::decimal(n as nat).len(),
                place_list(rows@) == want,
                forall|i: int|
                    0 <= i < rows@.len() ==> (#[trigger] rows@[i]).0 < n && rows@[i].1 + needle + 22
                        <= usize::MAX,
                items.len() == k,
                targets.len() == k,
                matches.len() == k,
                forall|i: int| 0 <= i < k ==> (#[trigger] items@[i])@ == find_item(m.lines, want[i]),
                forall|i: int|
                    0 <= i < k ==> (#[trigger] targets@[i])@ == TargetState::Pos(
                        Pos { line: want[i].0 as usize, col: want[i].1 },
                    ),
                forall|i: int|
                    0 <= i < k ==> match_state(#[trigger] matches@[i]) == (MatchState {
                        index: i as usize,
                        positions: find_positions(n as nat, m.query, want[i]),
                    }),
            decreases rows.len() - k,
        {
            let (line, col): (usize, usize) = rows[k];
            assert(rows@[k as int].0 < n);
            assert(want[k as int] == (line as nat, col));
            assert(m.lines[line as int] == self.lines@[line as int]@);
            let number: String = decimal_text(line as u64 + 1);
            let aligned: String = pad(number.as_str(), ' ', width);
            let prefix: String = joined(aligned.as_str(), ": ");
            assert(prefix@ == numbered(line as nat, n as nat));
            let v: Vec<char> = chars_of(self.lines[line].as_str());
            let end: usize = text::back_white_at(&v);
            let body: String = text::slice_text(&v, 0, end);
            items.push(joined(prefix.as_str(), body.as_str()));
            targets.push(Target::Pos(Pos { line, col }));
            let shift: usize = prefix.as_str().unicode_len();
            proof {
                lemma_numbered_short(line as nat, n as nat);
            }
            let positions: Vec<usize> = run_of(shift + col, needle);
            assert(positions@ =~= find_positions(n as nat, m.query, want[k as int]));
            matches.push(Match { index: k, positions });
            k = k + 1;
        }
        let none: bool = rows.len() == 0;
        self.items = items;
        self.targets = targets;
        self.matches = matches;
        self.selected = 0;
        self.top = 0;
        self.note = if n == 0 {
            Some("nothing to search".to_owned())
        } else if none {
            Some(joined3("no match for '", self.query.as_str(), "'"))
        } else {
            None
        };
        proof {
            assert(want.len() == rows@.len());
            let r = refound(m, cols);
            assert(self@.items =~= r.items);
            assert(self@.targets =~= r.targets);
            assert(self@.matches =~= r.matches);
            assert(self@ =~= r);
        }
    }

    /// The rows of find for the query it has. `places` holds, line by line,
    /// the columns at which the query occurs; lines past the end of it were
    /// not looked at.
    pub fn found(&mut self, places: &Vec<Vec<usize>>)
        requires
            placeable(old(self)@.query.len(), column_lists(places@)),
        ensures
            final(self)@ == (if old(self)@.mode == Mode::Find {
                refound(old(self)@, column_lists(places@))
            } else {
                old(self)@
            }),
    {
        if self.mode == Mode::Find {
            self.refilter_find(places);
        }
    }

    /// The items the query let through, best first.
    pub fn ranked(&mut self, found: Vec<Match>)
        ensures
            final(self)@ == narrowed(old(self)@, match_list(found@)),
    {
        match self.mode {
            Mode::File | Mode::Command | Mode::Results => {},
            _ => {
                return;
            },
        }
        let none: bool = found.len() == 0;
        self.matches = found;
        self.selected = 0;
        self.top = 0;
        if self.items.len() == 0 {
            if self.note.is_none() {
                self.note = Some("nothing to search".to_owned());
            }
        } else if none {
            self.note = Some(joined3("no match for '", self.query.as_str(), "'"));
        } else {
            self.note = None;
        }
    }

    /// What the palette wants for the query it has.
    pub fn wants(&self) -> (r: Want)
        ensures
            r == wanted(self@),
    {
        match self.mode {
            Mode::Prompt | Mode::Line | Mode::Choice => Want::Nothing,
            Mode::Find => if self.query.as_str().unicode_len() == 0 {
                Want::Nothing
            } else {
                Want::Occurrences
            },
            Mode::File | Mode::Command | Mode::Results => Want::Rank,
        }
    }

    fn requery(&mut self)
        ensures
            final(self)@ == requeried(old(self)@, old(self)@.query),
    {
        match self.mode {
            Mode::Prompt => {
                self.note = None;
            },
            Mode::Find => {
                if self.query.as_str().unicode_len() == 0 {
                    let none: Vec<Vec<usize>> = Vec::new();
                    assert(column_lists(none@) =~= Seq::empty());
                    self.refilter_find(&none);
                }
            },
            _ => {},
        }
    }

    pub fn push(&mut self, c: char) -> (r: Want)
        ensures
            final(self)@ == requeried(old(self)@, old(self)@.query.push(c)),
            r == wanted(final(self)@),
    {
        self.query.push(c);
        self.requery();
        self.wants()
    }

    pub fn backspace(&mut self) -> (r: Want)
        ensures
            final(self)@ == requeried(
                old(self)@,
                if old(self)@.query.len() == 0 { old(self)@.query } else { old(self)@.query.drop_last() },
            ),
            r == wanted(final(self)@),
    {
        let _gone: Option<char> = self.query.pop();
        self.requery();
        self.wants()
    }
}

/// `n` numbers from `from` on.
fn run_of(from: usize, n: usize) -> (r: Vec<usize>)
    requires
        from + n <= usize::MAX,
    ensures
        r@ == Seq::new(n as nat, |i: int| (from + i) as usize),
{
    let mut out: Vec<usize> = Vec::new();
    let mut i: usize = 0;
    while i < n
        invariant
            i <= n,
            from + n <= usize::MAX,
            out.len() == i,
            forall|k: int| 0 <= k < i ==> out@[k] == from + k,
        decreases n - i,
    {
        out.push(from + i);
        i = i + 1;
    }
    assert(out@ =~= Seq::new(n as nat, |i: int| (from + i) as usize));
    out
}

// ------------------------------------------------------------- opening one

/// A path as a row shows it: relative to the project where it is under it,
/// because the absolute prefix is the same on every row, and with forward
/// slashes.
pub open spec fn shown_path(p: PathState, root: PathState) -> Seq<char> {
    text::swapped(
        path::path_text(if path::is_under(p, root) { path::below(p, root) } else { p }),
        '\\',
        '/',
    )
}

fn path_label(p: &Path, root: &Path) -> (r: String)
    ensures
        r@ == shown_path(p@, root@),
{
    let t: String = match p.strip_prefix(root) {
        Some(q) => q.text(),
        None => p.text(),
    };
    swap_char(t.as_str(), '\\', '/')
}

/// A project match as its row shows it.
pub open spec fn hit_item(h: Hit, root: PathState) -> Seq<char> {
    shown_path(h.path@, root) + ":"@ + text::decimal((h.line + 1) as nat) + "  "@ + text::trimmed(
        h.text@,
    )
}

/// A list that is empty says why.
pub open spec fn empty_note(n: nat, why: Seq<char>) -> Option<Seq<char>> {
    if n == 0 { Some(why) } else { None }
}

impl Palette {
    /// The file finder, before its names are ranked.
    pub fn files(paths: Vec<Path>, root: &Path) -> (r: Palette)
        ensures
            r@ == (PaletteState {
                items: Seq::new(paths@.len(), |i: int| shown_path(paths@[i]@, root@)),
                targets: Seq::new(paths@.len(), |i: int| TargetState::Path(paths@[i]@)),
                note: empty_note(paths@.len(), "no files found"@),
                ..empty_palette(Mode::File)
            }),
    {
        let mut me: Palette = Palette::empty(Mode::File);
        let mut items: Vec<String> = Vec::new();
        let mut targets: Vec<Target> = Vec::new();
        let mut i: usize = 0;
        while i < paths.len()
            invariant
                i <= paths.len(),
                items.len() == i,
                targets.len() == i,
                forall|k: int| 0 <= k < i ==> (#[trigger] items@[k])@ == shown_path(paths@[k]@, root@),
                forall|k: int| 0 <= k < i ==> (#[trigger] targets@[k])@ == TargetState::Path(paths@[k]@),
            decreases paths.len() - i,
        {
            items.push(path_label(&paths[i], root));
            targets.push(Target::Path(paths[i].dup()));
            i = i + 1;
        }
        if items.len() == 0 {
            me.note = Some("no files found".to_owned());
        }
        me.items = items;
        me.targets = targets;
        assert(me@.items =~= Seq::new(paths@.len(), |i: int| shown_path(paths@[i]@, root@)));
        assert(me@.targets =~= Seq::new(paths@.len(), |i: int| TargetState::Path(paths@[i]@)));
        me
    }

    /// Search within a buffer. The lines are kept rather than turned into
    /// rows up front, because a row here is one occurrence and not one line.
    pub fn find(lines: &Vec<String>) -> (r: Palette)
        ensures
            r@ == refound(
                PaletteState { lines: text::texts(lines@), ..empty_palette(Mode::Find) },
                Seq::empty(),
            ),
    {
        let mut me: Palette = Palette::empty(Mode::Find);
        me.lines = dup_texts(lines);
        me.requery();
        me
    }

    /// Every action, with its binding shown alongside. The binding is the
    /// point as much as the command is: this is where someone finds out a
    /// shortcut exists.
    pub fn commands(list: Vec<Command>) -> (r: Palette)
        ensures
            r@ == (PaletteState {
                items: Seq::new(list@.len(), |i: int| list@[i].title@),
                details: Seq::new(list@.len(), |i: int| list@[i].chord@),
                targets: Seq::new(list@.len(), |i: int| TargetState::Run(list@[i].action)),
                ..empty_palette(Mode::Command)
            }),
    {
        let mut me: Palette = Palette::empty(Mode::Command);
        let mut items: Vec<String> = Vec::new();
        let mut details: Vec<String> = Vec::new();
        let mut targets: Vec<Target> = Vec::new();
        let mut i: usize = 0;
        while i < list.len()
            invariant
                i <= list.len(),
                items.len() == i,
                details.len() == i,
                targets.len() == i,
                forall|k: int| 0 <= k < i ==> (#[trigger] items@[k])@ == list@[k].title@,
                forall|k: int| 0 <= k < i ==> (#[trigger] details@[k])@ == list@[k].chord@,
                forall|k: int|
                    0 <= k < i ==> (#[trigger] targets@[k])@ == TargetState::Run(list@[k].action),
            decreases list.len() - i,
        {
            items.push(list[i].title.clone());
            details.push(list[i].chord.clone());
            targets.push(Target::Run(list[i].action));
            i = i + 1;
        }
        me.items = items;
        me.details = details;
        me.targets = targets;
        assert(me@.items =~= Seq::new(list@.len(), |i: int| list@[i].title@));
        assert(me@.details =~= Seq::new(list@.len(), |i: int| list@[i].chord@));
        assert(me@.targets =~= Seq::new(list@.len(), |i: int| TargetState::Run(list@[i].action)));
        me
    }

    /// A question with a fixed set of answers, listed in order. Built once
    /// and never filtered: a stray keystroke hiding one of three answers
    /// would be a way to lose work.
    pub fn ask(title: &str, question: &str, answers: Vec<String>) -> (r: Palette)
        ensures
            r@ == asking(title@, question@, text::texts(answers@)),
    {
        let mut me: Palette = Palette::empty(Mode::Choice);
        let mut targets: Vec<Target> = Vec::new();
        let mut matches: Vec<Match> = Vec::new();
        let mut i: usize = 0;
        while i < answers.len()
            invariant
                i <= answers.len(),
                targets.len() == i,
                matches.len() == i,
                forall|k: int| 0 <= k < i ==> (#[trigger] targets@[k])@ == TargetState::Answer(k as usize),
                forall|k: int|
                    0 <= k < i ==> match_state(#[trigger] matches@[k]) == (MatchState {
                        index: k as usize,
                        positions: Seq::empty(),
                    }),
            decreases answers.len() - i,
        {
            targets.push(Target::Answer(i));
            let m: Match = Match { index: i, positions: Vec::new() };
            assert(m.positions@ =~= Seq::empty());
            matches.push(m);
            i = i + 1;
        }
        let ghost n = answers@.len();
        me.label = Some(title.to_owned());
        me.question = Some(question.to_owned());
        me.items = answers;
        me.targets = targets;
        me.matches = matches;
        proof {
            let want = asking(title@, question@, text::texts(answers@));
            assert(me@.targets =~= want.targets);
            assert(me@.matches =~= want.matches);
        }
        me
    }

    /// The answers, in order, for drawing them side by side.
    pub fn answers(&self) -> (r: &Vec<String>)
        ensures
            text::texts(r@) == self@.items,
    {
        &self.items
    }

    /// Search results from across the project, before they are ranked. The
    /// path is shortened and the line number shown, because a list of
    /// matching lines with no idea which file they are in is unreadable.
    pub fn results(hits: Vec<Hit>, root: &Path) -> (r: Palette)
        requires
            forall|i: int| 0 <= i < hits@.len() ==> (#[trigger] hits@[i]).line < usize::MAX,
        ensures
            r@ == (PaletteState {
                items: Seq::new(hits@.len(), |i: int| hit_item(hits@[i], root@)),
                targets: Seq::new(
                    hits@.len(),
                    |i: int| TargetState::Location(hits@[i].path@, Pos { line: hits@[i].line, col: 0 }),
                ),
                note: empty_note(hits@.len(), "no matches"@),
                ..empty_palette(Mode::Results)
            }),
    {
        let mut me: Palette = Palette::empty(Mode::Results);
        let mut items: Vec<String> = Vec::new();
        let mut targets: Vec<Target> = Vec::new();
        let mut i: usize = 0;
        while i < hits.len()
            invariant
                i <= hits.len(),
                items.len() == i,
                targets.len() == i,
                forall|k: int| 0 <= k < hits@.len() ==> (#[trigger] hits@[k]).line < usize::MAX,
                forall|k: int| 0 <= k < i ==> (#[trigger] items@[k])@ == hit_item(hits@[k], root@),
                forall|k: int|
                    0 <= k < i ==> (#[trigger] targets@[k])@ == TargetState::Location(
                        hits@[k].path@,
                        Pos { line: hits@[k].line, col: 0 },
                    ),
            decreases hits.len() - i,
        {
            let h: &Hit = &hits[i];
            assert(hits@[i as int].line < usize::MAX);
            let shown: String = path_label(&h.path, root);
            let number: String = decimal_text((h.line + 1) as u64);
            let body: String = trim(h.text.as_str());
            let head: String = joined3(shown.as_str(), ":", number.as_str());
            items.push(joined3(head.as_str(), "  ", body.as_str()));
            targets.push(Target::Location(h.path.dup(), Pos { line: h.line, col: 0 }));
            i = i + 1;
        }
        if items.len() == 0 {
            me.note = Some("no matches".to_owned());
        }
        me.items = items;
        me.targets = targets;
        assert(me@.items =~= Seq::new(hits@.len(), |i: int| hit_item(hits@[i], root@)));
        assert(me@.targets =~= Seq::new(
            hits@.len(),
            |i: int| TargetState::Location(hits@[i].path@, Pos { line: hits@[i].line, col: 0 }),
        ));
        me
    }

    pub fn line() -> (r: Palette)
        ensures
            r@ == asking_line(),
    {
        let mut me: Palette = Palette::empty(Mode::Line);
        me.note = Some("type a line number".to_owned());
        me
    }

    /// A one-line question: new name, new file, and so on.
    pub fn prompt(label: &str, initial: &str) -> (r: Palette)
        ensures
            r@ == prompting(label@, initial@),
    {
        let mut me: Palette = Palette::empty(Mode::Prompt);
        me.label = Some(label.to_owned());
        me.query = initial.to_owned();
        me
    }
}

/// A question with its answers.
pub open spec fn asking(title: Seq<char>, question: Seq<char>, answers: Seq<Seq<char>>) -> PaletteState {
    PaletteState {
        label: Some(title),
        question: Some(question),
        items: answers,
        targets: Seq::new(answers.len(), |i: int| TargetState::Answer(i as usize)),
        matches: Seq::new(
            answers.len(),
            |i: int| MatchState { index: i as usize, positions: Seq::empty() },
        ),
        ..empty_palette(Mode::Choice)
    }
}

/// Go to line.
pub open spec fn asking_line() -> PaletteState {
    PaletteState { note: Some("type a line number"@), ..empty_palette(Mode::Line) }
}

/// A prompt with what it starts from.
pub open spec fn prompting(label: Seq<char>, initial: Seq<char>) -> PaletteState {
    PaletteState { label: Some(label), query: initial, ..empty_palette(Mode::Prompt) }
}

// -------------------------------------------------------------- the list

/// The selection moved inside the list.
pub open spec fn moved_by(m: PaletteState, delta: int) -> PaletteState {
    if m.matches.len() == 0 {
        m
    } else {
        PaletteState { selected: scroll::clamped(m.selected + delta, m.matches.len() - 1) as usize, ..m }
    }
}

/// The row a match stands for, when it names one.
pub open spec fn row_of(m: PaletteState, k: int) -> RowState {
    let at = m.matches[k].index as int;
    RowState {
        text: m.items[at],
        hits: m.matches[k].positions,
        detail: if at < m.details.len() && m.details[at].len() > 0 { Some(m.details[at]) } else { None },
    }
}

/// The rows from match `from` up to `to`, leaving out what names no item.
pub open spec fn rows_between(m: PaletteState, from: int, to: int) -> Seq<RowState>
    decreases to - from,
{
    if from >= to {
        Seq::empty()
    } else {
        let rest = rows_between(m, from, to - 1);
        if m.matches[to - 1].index < m.items.len() {
            rest.push(row_of(m, to - 1))
        } else {
            rest
        }
    }
}

/// One past the last match that is drawn.
pub open spec fn rows_end(m: PaletteState, limit: nat) -> int {
    if m.matches.len() <= m.top {
        m.top as int
    } else if m.matches.len() - m.top <= limit {
        m.matches.len() as int
    } else {
        m.top + limit
    }
}

/// What Enter leads to. An empty answer is a cancelled prompt; a line number
/// is typed, and counted from one.
pub open spec fn choice(m: PaletteState) -> Option<TargetState> {
    let typed = text::trimmed(m.query);
    if m.mode == Mode::Prompt {
        if typed.len() == 0 { None } else { Some(TargetState::Text(typed)) }
    } else if m.mode == Mode::Line {
        match text::parsed(typed, usize::MAX as nat) {
            Some(n) => Some(
                TargetState::Pos(Pos { line: (if n == 0 { 0 } else { n - 1 }) as usize, col: 0 }),
            ),
            None => None,
        }
    } else if m.selected < m.matches.len() && m.matches[m.selected as int].index < m.targets.len() {
        Some(m.targets[m.matches[m.selected as int].index as int])
    } else {
        None
    }
}

/// What a key does to an open palette.
#[derive(Clone, Copy, Debug, PartialEq, Eq, Structural)]
pub enum Press {
    /// Not a key of the overlay: the character it produces still arrives.
    Pass,
    /// The overlay goes, and with it whatever it was collecting for.
    Drop,
    /// What is chosen is taken.
    Accept,
    /// Handled; the overlay now wants this.
    Did(Want),
}

/// A key while the overlay is open. A question lays its answers out side by
/// side, so there the sideways arrows move too.
pub open spec fn pressed(m: PaletteState, vk: u8) -> (PaletteState, Press) {
    if vk == 0x1B {
        (m, Press::Drop)
    } else if vk == 0x0D {
        (m, Press::Accept)
    } else if vk == 0x08 {
        let n = requeried(m, if m.query.len() == 0 { m.query } else { m.query.drop_last() });
        (n, Press::Did(wanted(n)))
    } else if vk == 0x26 || (vk == 0x25 && m.mode == Mode::Choice) {
        (moved_by(m, -1), Press::Did(Want::Nothing))
    } else if vk == 0x28 || (vk == 0x27 && m.mode == Mode::Choice) {
        (moved_by(m, 1), Press::Did(Want::Nothing))
    } else if is_consumed(vk) {
        (m, Press::Did(Want::Nothing))
    } else {
        (m, Press::Pass)
    }
}

impl Palette {
    pub fn move_selection(&mut self, delta: i32)
        ensures
            final(self)@ == moved_by(old(self)@, delta as int),
    {
        if self.matches.len() == 0 {
            return;
        }
        let last: usize = self.matches.len() - 1;
        self.selected = stepped(self.selected, delta, last);
    }

    /// Scrolls just enough to keep the selection in view. Called from
    /// drawing, because only the renderer knows how many rows fit.
    pub fn ensure_visible(&mut self, visible: usize)
        ensures
            final(self)@ == (if visible == 0 {
                old(self)@
            } else {
                PaletteState {
                    top: content::at_most(
                        scroll::follow_top(
                            old(self)@.top as int,
                            old(self)@.selected as int,
                            visible as int,
                        ),
                        content::full_limit(old(self)@.matches.len(), visible as nat) as int,
                    ) as usize,
                    ..old(self)@
                }
            }),
    {
        if visible == 0 {
            return;
        }
        self.top = scroll::follow(self.top, self.selected, visible);
        let n: usize = self.matches.len();
        let limit: usize = if n <= visible { 0 } else { n - visible };
        if self.top > limit {
            self.top = limit;
        }
    }

    /// How many matches there are, for saying so when they do not all fit.
    pub fn len(&self) -> (r: usize)
        ensures
            r == self@.matches.len(),
    {
        self.matches.len()
    }

    /// Rows to draw, from the current scroll position.
    pub fn rows(&self, limit: usize) -> (r: Vec<Row>)
        ensures
            row_list(r@) == rows_between(self@, self@.top as int, rows_end(self@, limit as nat)),
    {
        let mut out: Vec<Row> = Vec::new();
        assert(row_list(out@) =~= Seq::empty());
        if self.matches.len() <= self.top {
            return out;
        }
        let room: usize = self.matches.len() - self.top;
        let end: usize = if room <= limit { self.matches.len() } else { self.top + limit };
        let mut i: usize = self.top;
        while i < end
            invariant
                self.top <= i <= end <= self.matches.len(),
                row_list(out@) == rows_between(self@, self@.top as int, i as int),
            decreases end - i,
        {
            let ghost done = row_list(out@);
            let k: usize = self.matches[i].index;
            assert(self@.matches[i as int] == match_state(self.matches@[i as int]));
            if k < self.items.len() {
                assert(self@.items[k as int] == self.items@[k as int]@);
                let mut detail: Option<String> = None;
                if k < self.details.len() {
                    assert(self@.details[k as int] == self.details@[k as int]@);
                    if self.details[k].as_str().unicode_len() > 0 {
                        detail = Some(self.details[k].clone());
                    }
                }
                let row: Row = Row {
                    text: self.items[k].clone(),
                    hits: crate::folders::dup_positions(&self.matches[i].positions),
                    detail,
                };
                assert(row@ == row_of(self@, i as int));
                out.push(row);
                assert(row_list(out@) =~= done.push(row@));
            }
            i = i + 1;
        }
        out
    }

    /// What pressing Enter should do.
    pub fn chosen(&self) -> (r: Option<Target>)
        ensures
            match r {
                Some(t) => choice(self@) == Some(t@),
                None => choice(self@) is None,
            },
    {
        match self.mode {
            Mode::Prompt => {
                let t: String = trim(self.query.as_str());
                if t.as_str().unicode_len() == 0 { None } else { Some(Target::Text(t)) }
            },
            Mode::Line => {
                let v: Vec<char> = chars_of(self.query.as_str());
                let t: Vec<char> = text::trim_chars(&v);
                match parse_number(&t, usize::MAX as u64) {
                    Some(n) => {
                        let line: usize = if n == 0 { 0 } else { (n - 1) as usize };
                        Some(Target::Pos(Pos { line, col: 0 }))
                    },
                    None => None,
                }
            },
            _ => {
                if self.selected < self.matches.len() {
                    let k: usize = self.matches[self.selected].index;
                    assert(self@.matches[self.selected as int] == match_state(
                        self.matches@[self.selected as int],
                    ));
                    if k < self.targets.len() {
                        assert(self@.targets[k as int] == self.targets@[k as int]@);
                        return Some(self.targets[k].dup());
                    }
                }
                None
            },
        }
    }

    /// A key while the overlay is open.
    pub fn press(&mut self, vk: u8) -> (r: Press)
        ensures
            final(self)@ == pressed(old(self)@, vk).0,
            r == pressed(old(self)@, vk).1,
    {
        if !consumes(vk) {
            return Press::Pass;
        }
        match vk {
            0x1B => Press::Drop,
            0x08 => {
                let w: Want = self.backspace();
                Press::Did(w)
            },
            0x26 => {
                self.move_selection(-1);
                Press::Did(Want::Nothing)
            },
            0x28 => {
                self.move_selection(1);
                Press::Did(Want::Nothing)
            },
            // Ignored on the lists, which run downwards.
            0x25 | 0x27 => {
                if self.mode == Mode::Choice {
                    self.move_selection(if vk == 0x25 { -1 } else { 1 });
                }
                Press::Did(Want::Nothing)
            },
            0x0D => Press::Accept,
            _ => Press::Did(Want::Nothing),
        }
    }

    /// A click on the row that is `row` rows below the first one drawn, of
    /// `count` drawn. True when that row was already selected: a second
    /// click takes it.
    pub fn click(&mut self, row: usize, count: usize) -> (r: bool)
        requires
            old(self)@.top + count <= usize::MAX,
        ensures
            row < count ==> r == (old(self)@.selected == old(self)@.top + row),
            row < count ==> final(self)@ == (PaletteState {
                selected: (old(self)@.top + row) as usize,
                ..old(self)@
            }),
            row >= count ==> !r && final(self)@ == old(self)@,
    {
        if row >= count {
            return false;
        }
        // The drawn row is an offset into what is on screen, and the list
        // scrolls, so the match it points at is that far past the top.
        let index: usize = self.top + row;
        let already: bool = self.selected == index;
        self.selected = index;
        already
    }
}

// -------------------------------------------------------------------- laws

/// The selection resets when the query changes and the list is ranked again:
/// otherwise it points at whatever happens to be in that slot now.
pub proof fn a_new_query_starts_at_the_top(m: PaletteState, query: Seq<char>, found: Seq<MatchState>)
    requires
        m.mode == Mode::File || m.mode == Mode::Command || m.mode == Mode::Results,
    ensures
        narrowed(requeried(m, query), found).selected == 0,
        narrowed(requeried(m, query), found).top == 0,
{
}

/// What is shown never depends on how the query came about: taking a typed
/// character back restores the list.
pub proof fn backspace_takes_a_character_back(m: PaletteState, c: char, found: Seq<MatchState>)
    requires
        m.mode == Mode::File || m.mode == Mode::Command || m.mode == Mode::Results,
        m.items.len() > 0,
    ensures
        ({
            let typed = requeried(m, m.query.push(c));
            narrowed(requeried(typed, typed.query.drop_last()), found) == narrowed(m, found)
        }),
{
    assert(m.query.push(c).drop_last() =~= m.query);
}

/// Typing into a question changes none of its answers.
pub proof fn an_answer_cannot_be_typed_away(m: PaletteState, query: Seq<char>, found: Seq<MatchState>, places: Seq<Seq<usize>>)
    requires
        m.mode == Mode::Choice,
    ensures
        narrowed(requeried(m, query), found).matches == m.matches,
        narrowed(requeried(m, query), found).items == m.items,
        wanted(requeried(m, query)) == Want::Nothing,
{
}

/// Every row of find leads to the line its number says, and to the column of
/// the occurrence.
pub proof fn a_find_row_leads_to_its_place(m: PaletteState, places: Seq<Seq<usize>>, k: int)
    requires
        m.mode == Mode::Find,
        m.query.len() > 0,
        m.lines.len() <= usize::MAX,
        0 <= k < refound(m, places).matches.len(),
    ensures
        ({
            let r = refound(m, places);
            let p = r.targets[k];
            &&& p is Pos
            &&& p->Pos_0.line < m.lines.len()
            &&& p->Pos_0.line < places.len()
            &&& places[p->Pos_0.line as int].contains(p->Pos_0.col)
            &&& choice(PaletteState { selected: k as usize, ..r }) == Some(p)
            &&& r.items[k] == numbered(p->Pos_0.line as nat, m.lines.len()) + text::trimmed_end(
                m.lines[p->Pos_0.line as int],
            )
        }),
{
    let upto = looked_through(m.lines.len(), places.len()) as int;
    let all = occurrences_in(places, upto);
    let rows = find_places(m.lines.len(), m.query, places);
    assert(rows[k] == all[k]);
    lemma_occurrence_line(places, upto, k);
}

/// Numbers line up: in a file of any length the text of every row starts in
/// the same column.
pub proof fn line_numbers_line_up(a: nat, b: nat, lines: nat)
    requires
        a < lines,
        b < lines,
    ensures
        numbered(a, lines).len() == numbered(b, lines).len(),
{
    lemma_decimal_grows(a + 1, lines);
    lemma_decimal_grows(b + 1, lines);
}

proof fn lemma_decimal_grows(a: nat, b: nat)
    requires
        a <= b,
    ensures
        text::decimal(a).len() <= text::decimal(b).len(),
    decreases b,
{
    if b >= 10 {
        if a >= 10 {
            lemma_decimal_grows(a / 10, b / 10);
        } else {
            lemma_decimal_grows(0, b / 10);
        }
    }
}

/// Wherever the overlay has focus, the keys that produce text are left to
/// produce it.
pub proof fn typing_is_never_swallowed(m: PaletteState, vk: u8)
    requires
        0x30 <= vk <= 0x5A || vk == 0x20,
    ensures
        pressed(m, vk) == (m, Press::Pass),
{
}

/// Every occurrence is listed.
pub proof fn lemma_occurrence_listed(places: Seq<Seq<usize>>, n: int, line: int, k: int) -> (i: int)
    requires
        0 <= line < n <= places.len(),
        0 <= k < places[line].len(),
    ensures
        0 <= i < occurrences_in(places, n).len(),
        occurrences_in(places, n)[i] == (line as nat, places[line][k]),
    decreases n,
{
    let before = occurrences_in(places, n - 1);
    if line == n - 1 {
        assert(occurrences_in(places, n)[before.len() + k] == (line as nat, places[line][k]));
        before.len() + k
    } else {
        let i = lemma_occurrence_listed(places, n - 1, line, k);
        assert(occurrences_in(places, n)[i] == before[i]);
        i
    }
}

/// What is listed is an occurrence.
pub proof fn lemma_occurrence_is_there(places: Seq<Seq<usize>>, n: int, i: int)
    requires
        0 <= n <= places.len(),
        0 <= i < occurrences_in(places, n).len(),
    ensures
        occurrences_in(places, n)[i].0 < n,
        places[occurrences_in(places, n)[i].0 as int].contains(occurrences_in(places, n)[i].1),
{
    lemma_occurrence_line(places, n, i);
}

// ----------------------------------------------------- picking from a list

/// Whether a palette picks from a list of rows.
pub open spec fn picks_rows(mode: Mode) -> bool {
    mode == Mode::File || mode == Mode::Command || mode == Mode::Results || mode == Mode::Choice || mode == Mode::Find
}

/// Enter takes exactly what the selected row names, whichever row that is, in
/// every mode that picks from a list; a row that names nothing and a list
/// without rows give nothing.
pub proof fn enter_takes_what_the_row_names(m: PaletteState, k: int)
    requires
        picks_rows(m.mode),
        0 <= k < m.matches.len() <= usize::MAX,
    ensures
        m.matches[k].index < m.targets.len() ==> choice(PaletteState { selected: k as usize, ..m }) == Some(
            m.targets[m.matches[k].index as int],
        ),
        m.matches[k].index >= m.targets.len() ==> choice(PaletteState { selected: k as usize, ..m }) is None,
        m.selected >= m.matches.len() ==> choice(m) is None,
{
}

/// Two rows that name different things lead to different things.
pub proof fn different_rows_lead_to_different_things(m: PaletteState, a: int, b: int)
    requires
        picks_rows(m.mode),
        m.matches.len() <= usize::MAX,
        0 <= a < m.matches.len(),
        0 <= b < m.matches.len(),
        m.matches[a].index < m.targets.len(),
        m.matches[b].index < m.targets.len(),
        m.targets[m.matches[a].index as int] != m.targets[m.matches[b].index as int],
    ensures
        choice(PaletteState { selected: a as usize, ..m }) != choice(PaletteState { selected: b as usize, ..m }),
{
}

/// From any row, Down then Enter takes the row below and Up then Enter the row
/// above: the keys and the list agree about which row is which.
pub proof fn the_arrows_walk_the_rows(m: PaletteState)
    requires
        picks_rows(m.mode),
        m.matches.len() <= usize::MAX,
        m.selected < m.matches.len(),
        forall|i: int| 0 <= i < m.matches.len() ==> (#[trigger] m.matches[i]).index < m.targets.len(),
    ensures
        m.selected + 1 < m.matches.len() ==> {
            let n = pressed(m, 0x28).0;
            &&& choice(n) == Some(m.targets[m.matches[m.selected + 1].index as int])
            &&& pressed(n, 0x26).0 == m
        },
        m.selected > 0 ==> {
            let n = pressed(m, 0x26).0;
            &&& choice(n) == Some(m.targets[m.matches[m.selected - 1].index as int])
            &&& pressed(n, 0x28).0 == m
        },
        m.selected + 1 == m.matches.len() ==> pressed(m, 0x28).0 == m,
        m.selected == 0 ==> pressed(m, 0x26).0 == m,
        m.mode == Mode::Choice ==> pressed(m, 0x25) == pressed(m, 0x26) && pressed(m, 0x27) == pressed(m, 0x28),
        m.mode != Mode::Choice ==> pressed(m, 0x25).0 == m && pressed(m, 0x27).0 == m,
{
}

/// Moving by any number of rows goes that far inside the list and stops at its
/// ends.
pub proof fn moving_stays_in_the_list(m: PaletteState, delta: int)
    requires
        m.matches.len() <= usize::MAX,
        m.selected < m.matches.len(),
    ensures
        moved_by(m, delta).selected < m.matches.len(),
        0 <= m.selected + delta < m.matches.len() ==> moved_by(m, delta).selected == m.selected + delta,
        m.selected + delta < 0 ==> moved_by(m, delta).selected == 0,
        m.selected + delta >= m.matches.len() ==> moved_by(m, delta).selected == m.matches.len() - 1,
        moved_by(m, delta) == (PaletteState { selected: moved_by(m, delta).selected, ..m }),
{
}

/// What each key is for: Escape drops the overlay, Enter takes, and neither
/// changes what is in it.
pub proof fn escape_drops_and_enter_takes(m: PaletteState)
    ensures
        pressed(m, 0x1B) == (m, Press::Drop),
        pressed(m, 0x0D) == (m, Press::Accept),
        pressed(m, 0x08).0.query == (if m.query.len() == 0 { m.query } else { m.query.take(m.query.len() - 1) }),
        pressed(m, 0x08).1 is Did,
{
    if m.query.len() > 0 {
        assert(m.query.drop_last() =~= m.query.take(m.query.len() - 1));
    }
}

/// Answers are taken by their place: the answer that is highlighted is the one
/// that is given.
pub proof fn an_answer_is_the_highlighted_one(title: Seq<char>, question: Seq<char>, answers: Seq<Seq<char>>, k: int)
    requires
        0 <= k < answers.len() <= usize::MAX,
    ensures
        ({
            let m = asking(title, question, answers);
            &&& m.items == answers
            &&& m.label == Some(title)
            &&& m.question == Some(question)
            &&& m.selected == 0
            &&& choice(PaletteState { selected: k as usize, ..m }) == Some(TargetState::Answer(k as usize))
            &&& rows_between(m, 0, answers.len() as int).len() == answers.len()
            &&& rows_between(m, 0, answers.len() as int)[k].text == answers[k]
        }),
{
    let m = asking(title, question, answers);
    lemma_rows_when_named(m, 0, answers.len() as int);
}

proof fn lemma_rows_when_named(m: PaletteState, from: int, to: int)
    requires
        0 <= from <= to <= m.matches.len(),
        forall|i: int| 0 <= i < m.matches.len() ==> (#[trigger] m.matches[i]).index < m.items.len(),
    ensures
        rows_between(m, from, to).len() == to - from,
        forall|i: int| 0 <= i < to - from ==> #[trigger] rows_between(m, from, to)[i] == row_of(m, from + i),
    decreases to - from,
{
    if from < to {
        lemma_rows_when_named(m, from, to - 1);
        assert(m.matches[to - 1].index < m.items.len());
    }
}

/// What is drawn are the rows from the first visible one on, in order, as many
/// as fit and as there are: each the text its match names, with where the
/// query landed, and a chord where it has one.
pub proof fn the_rows_drawn_are_the_rows_listed(m: PaletteState, limit: nat, k: int)
    requires
        m.top <= m.matches.len(),
        forall|i: int| 0 <= i < m.matches.len() ==> (#[trigger] m.matches[i]).index < m.items.len(),
    ensures
        ({
            let rows = rows_between(m, m.top as int, rows_end(m, limit));
            let left = m.matches.len() - m.top;
            &&& rows.len() == (if left <= limit { left } else { limit as int })
            &&& 0 <= k < rows.len() ==> {
                let named = m.matches[m.top + k];
                &&& rows[k].text == m.items[named.index as int]
                &&& rows[k].hits == named.positions
                &&& named.index < m.details.len() && m.details[named.index as int].len() > 0 ==> rows[k].detail == Some(
                    m.details[named.index as int],
                )
                &&& named.index >= m.details.len() ==> rows[k].detail is None
            }
        }),
{
    lemma_rows_when_named(m, m.top as int, rows_end(m, limit));
}

/// The text of a prompt is taken as typed, without the white space around it,
/// and an empty one is no answer. A line number counts from one, and leads to
/// the start of that line.
pub proof fn what_is_typed_is_taken(m: PaletteState, n: nat)
    requires
        n < usize::MAX,
    ensures
        m.mode == Mode::Prompt && text::trimmed(m.query).len() > 0 ==> choice(m) == Some(
            TargetState::Text(text::trimmed(m.query)),
        ),
        m.mode == Mode::Prompt && text::trimmed(m.query).len() == 0 ==> choice(m) is None,
        m.mode == Mode::Line && m.query == text::decimal(n + 1) ==> choice(m) == Some(
            TargetState::Pos(Pos { line: n as usize, col: 0 }),
        ),
{
    if m.mode == Mode::Line && m.query == text::decimal(n + 1) {
        text::lemma_decimal_is_word(n + 1);
        let d = text::decimal(n + 1);
        assert('0' <= d[0] && '0' <= d[d.len() - 1]);
        assert(!text::is_white(d[0]) && !text::is_white(d[d.len() - 1]));
        text::lemma_trimmed_fixed(d);
        text::lemma_parsed_decimal(n + 1, usize::MAX as nat);
    }
}

/// Find lists every occurrence there is, until the list is full, in the order
/// of the file: further down the list is further down the file.
pub proof fn find_lists_every_occurrence(m: PaletteState, places: Seq<Seq<usize>>, line: int, j: int)
    requires
        m.mode == Mode::Find,
        m.query.len() > 0,
        m.lines.len() <= usize::MAX,
        0 <= line < places.len(),
        line < m.lines.len(),
        0 <= j < places[line].len(),
        refound(m, places).matches.len() < MAX_ROWS,
    ensures
        ({
            let r = refound(m, places);
            exists|k: int|
                0 <= k < r.matches.len() && #[trigger] r.targets[k] == TargetState::Pos(
                    Pos { line: line as usize, col: places[line][j] },
                )
        }),
{
    let upto = looked_through(m.lines.len(), places.len()) as int;
    let i = lemma_occurrence_listed(places, upto, line, j);
    let r = refound(m, places);
    assert(r.targets[i] == TargetState::Pos(Pos { line: line as usize, col: places[line][j] }));
}

pub proof fn find_goes_down_the_file(m: PaletteState, places: Seq<Seq<usize>>, a: int, b: int)
    requires
        m.mode == Mode::Find,
        m.query.len() > 0,
        m.lines.len() <= usize::MAX,
        0 <= a <= b < refound(m, places).targets.len(),
    ensures
        refound(m, places).targets[a] is Pos,
        refound(m, places).targets[b] is Pos,
        refound(m, places).targets[a]->Pos_0.line <= refound(m, places).targets[b]->Pos_0.line,
{
    let upto = looked_through(m.lines.len(), places.len()) as int;
    lemma_occurrences_ordered(places, upto, a, b);
    lemma_occurrence_is_there(places, upto, a);
    lemma_occurrence_is_there(places, upto, b);
}

proof fn lemma_occurrences_ordered(places: Seq<Seq<usize>>, n: int, a: int, b: int)
    requires
        0 <= n <= places.len(),
        0 <= a <= b < occurrences_in(places, n).len(),
    ensures
        occurrences_in(places, n)[a].0 <= occurrences_in(places, n)[b].0,
    decreases n,
{
    let before = occurrences_in(places, n - 1);
    let all = occurrences_in(places, n);
    if b < before.len() {
        lemma_occurrences_ordered(places, n - 1, a, b);
        assert(all[a] == before[a] && all[b] == before[b]);
    } else {
        assert(all[b].0 == n - 1);
        lemma_occurrence_is_there(places, n, a);
    }
}

/// Before anything is typed, find lists the file: row by row its lines.
pub proof fn find_starts_with_the_file(m: PaletteState, k: int)
    requires
        m.mode == Mode::Find,
        0 <= k < m.lines.len() <= MAX_ROWS,
    ensures
        ({
            let r = requeried(m, Seq::empty());
            &&& r.targets.len() == m.lines.len()
            &&& choice(PaletteState { selected: k as usize, ..r }) == Some(
                TargetState::Pos(Pos { line: k as usize, col: 0 }),
            )
        }),
{
}

/// The letters of find that light up are those of the occurrence: as many as
/// were typed, one after another, at its column behind the line number.
pub proof fn find_lights_the_occurrence(m: PaletteState, places: Seq<Seq<usize>>, k: int, i: int)
    requires
        m.mode == Mode::Find,
        m.query.len() > 0,
        m.lines.len() <= usize::MAX,
        placeable(m.query.len(), places),
        0 <= k < refound(m, places).matches.len(),
        0 <= i < m.query.len(),
    ensures
        ({
            let r = refound(m, places);
            let at = r.targets[k]->Pos_0;
            &&& r.matches[k].positions.len() == m.query.len()
            &&& r.matches[k].positions[i] == numbered(at.line as nat, m.lines.len()).len() + at.col + i
        }),
{
    let upto = looked_through(m.lines.len(), places.len()) as int;
    lemma_occurrence_line(places, upto, k);
    let rows = find_places(m.lines.len(), m.query, places);
    let at = rows[k];
    assert(at == occurrences_in(places, upto)[k]);
    lemma_numbered_short(at.0, m.lines.len());
    let j = choose|j: int| 0 <= j < places[at.0 as int].len() && at.1 == #[trigger] places[at.0 as int][j];
    assert(places[at.0 as int][j] + m.query.len() + 22 <= usize::MAX);
}

/// What a list is narrowed to are the matches that were found, and it says
/// what it looked for when there are none.
pub proof fn narrowing_shows_what_was_found(m: PaletteState, found: Seq<MatchState>)
    requires
        m.mode == Mode::File || m.mode == Mode::Command || m.mode == Mode::Results,
        m.items.len() > 0,
    ensures
        narrowed(m, found).matches == found,
        narrowed(m, found).items == m.items,
        narrowed(m, found).targets == m.targets,
        narrowed(m, found).query == m.query,
        narrowed(m, found).note == (if found.len() == 0 {
            Some("no match for '"@ + m.query + "'"@)
        } else {
            None
        }),
{
}

/// What is wanted after typing is what fits the box: a ranking for a list, the
/// occurrences for find, nothing for a prompt, a line number or a question.
pub proof fn typing_asks_for_what_it_needs(m: PaletteState, query: Seq<char>)
    ensures
        requeried(m, query).query == query,
        requeried(m, query).mode == m.mode,
        m.mode == Mode::File || m.mode == Mode::Command || m.mode == Mode::Results ==> wanted(requeried(m, query))
            == Want::Rank,
        m.mode == Mode::Find && query.len() > 0 ==> wanted(requeried(m, query)) == Want::Occurrences,
        m.mode == Mode::Prompt || m.mode == Mode::Line || m.mode == Mode::Choice ==> wanted(requeried(m, query))
            == Want::Nothing,
        m.mode == Mode::Prompt ==> requeried(m, query).note is None,
{
}

/// A row of the finder reads as the file's path below the project, with
/// forward slashes: its folders and its name.
pub proof fn a_row_reads_below_the_project(p: PathState, root: PathState)
    requires
        path::is_under(p, root),
    ensures
        shown_path(p, root) == text::swapped(
            text::join(p.parts.skip(root.parts.len() as int), seq!['\\']),
            '\\',
            '/',
        ),
{
    let rest = path::below(p, root);
    assert(path::path_text(rest) =~= text::join(rest.parts, seq!['\\']));
}

/// The keys that the overlay keeps from the box: Esc, Backspace, Enter and
/// the arrows. Any other key may bring a character.
pub proof fn keys_the_overlay_keeps(vk: u8)
    ensures
        is_consumed(vk) <==> vk == 0x1B || vk == 0x08 || vk == 0x0D || vk == 0x25 || vk == 0x26 || vk == 0x27 || vk
            == 0x28,
{
}

/// A match in the project is shown with its file, its line, counted from
/// one, and the line itself.
pub proof fn a_hit_is_shown_with_its_place(h: Hit, root: PathState, n: nat)
    ensures
        hit_item(h, root) == shown_path(h.path@, root) + ":"@ + text::decimal((h.line + 1) as nat) + "  "@
            + text::trimmed(h.text@),
        empty_note(0, h.text@) == Some(h.text@),
        n > 0 ==> empty_note(n, h.text@) is None,
{
}

/// A prompt starts from what it is given, under its label, and asks for
/// nothing else; going to a line says what to type.
pub proof fn a_prompt_starts_from_what_is_given(label: Seq<char>, initial: Seq<char>)
    ensures
        ({
            let p = prompting(label, initial);
            &&& p.mode == Mode::Prompt && p.label == Some(label) && p.query == initial
            &&& p.items.len() == 0 && p.matches.len() == 0 && p.targets.len() == 0 && p.note is None
            &&& p.selected == 0 && p.top == 0 && p.question is None
        }),
        asking_line().mode == Mode::Line && asking_line().note == Some("type a line number"@),
        asking_line().query.len() == 0 && asking_line().items.len() == 0,
{
}

/// A question lists its answers in their order, all of them, under its title.
pub proof fn a_question_lists_its_answers(title: Seq<char>, question: Seq<char>, answers: Seq<Seq<char>>, i: int)
    requires
        0 <= i < answers.len(),
        answers.len() <= usize::MAX,
    ensures
        ({
            let q = asking(title, question, answers);
            &&& q.mode == Mode::Choice && q.label == Some(title) && q.question == Some(question)
            &&& q.items == answers && q.matches.len() == answers.len() && q.selected == 0
            &&& q.matches[i].index == i
            &&& q.targets[i] == TargetState::Answer(i as usize)
        }),
{
}

/// What stands in front of the box tells what it does.
pub proof fn the_box_tells_what_it_does()
    ensures
        mode_label(Mode::File) == "open"@ && mode_label(Mode::Find) == "find"@ && mode_label(Mode::Results)
            == "results"@,
        mode_label(Mode::Line) == "line"@ && mode_label(Mode::Command) == ">"@,
        mode_label(Mode::Choice) == ""@ && mode_label(Mode::Prompt) == ""@,
{
}

} // verus!
