//! What the overlay shows: the list with its matched letters, and the box a
//! question stands in, drawn out of characters.
use vstd::prelude::*;
use vstd::string::*;
use crate::palette;
use crate::palette::{Palette, PaletteState, Row, RowState};
use crate::text;
use crate::text::{chars_of, copy_text, decimal_text, joined, joined3, repeat};

verus! {

/// A row of the list as drawn.
#[derive(Debug)]
pub struct ListRow {
    pub text: String,
    /// The matched letters, drawn again on top in the accent colour, each
    /// with the cell it stands in.
    pub letters: Vec<(usize, char)>,
    /// The chord, in a column of its own.
    pub detail: Option<String>,
    pub selected: bool,
}

/// A drawn row as a value.
#[verifier::ext_equal]
pub struct ListRowState {
    pub text: Seq<char>,
    pub letters: Seq<(usize, char)>,
    pub detail: Option<Seq<char>>,
    pub selected: bool,
}

impl View for ListRow {
    type V = ListRowState;

    open spec fn view(&self) -> ListRowState {
        ListRowState {
            text: self.text@,
            letters: self.letters@,
            detail: palette::opt_text(self.detail),
            selected: self.selected,
        }
    }
}

/// The letters of a row that were matched, leaving out positions past its
/// end.
pub open spec fn letters_of(text: Seq<char>, hits: Seq<usize>) -> Seq<(usize, char)>
    decreases hits.len(),
{
    if hits.len() == 0 {
        Seq::empty()
    } else {
        let rest = letters_of(text, hits.drop_last());
        if hits.last() < text.len() {
            rest.push((hits.last(), text[hits.last() as int]))
        } else {
            rest
        }
    }
}

fn letters(row: &Row) -> (r: Vec<(usize, char)>)
    ensures
        r@ == letters_of(row@.text, row@.hits),
{
    let cells: Vec<char> = chars_of(row.text.as_str());
    let ghost hits = row.hits@;
    let mut out: Vec<(usize, char)> = Vec::new();
    let mut i: usize = 0;
    assert(hits.take(0) =~= Seq::empty());
    while i < row.hits.len()
        invariant
            i <= row.hits.len(),
            hits == row.hits@,
            cells@ == row.text@,
            out@ == letters_of(row.text@, hits.take(i as int)),
        decreases row.hits.len() - i,
    {
        let at: usize = row.hits[i];
        proof {
            assert(hits.take(i + 1).drop_last() =~= hits.take(i as int));
            assert(hits.take(i + 1).last() == at);
        }
        if at < cells.len() {
            out.push((at, cells[at]));
        }
        i = i + 1;
    }
    assert(hits.take(hits.len() as int) =~= hits);
    out
}

/// A row of the list as drawn.
pub open spec fn list_row(row: RowState, selected: bool) -> ListRowState {
    ListRowState { text: row.text, letters: letters_of(row.text, row.hits), detail: row.detail, selected }
}

/// The rows of the palette that fit.
pub open spec fn fitting(m: PaletteState, visible: nat) -> Seq<RowState> {
    palette::rows_between(m, m.top as int, palette::rows_end(m, visible))
}

/// How many matches are off the bottom.
pub open spec fn below(m: PaletteState, visible: nat) -> nat {
    let end = m.top + fitting(m, visible).len();
    if m.matches.len() <= end { 0 } else { (m.matches.len() - end) as nat }
}

/// What is said of matches that do not fit: without it the box reads as the
/// whole answer rather than as a window onto one.
pub open spec fn more_of(m: PaletteState, visible: nat) -> Option<Seq<char>> {
    if below(m, visible) == 0 || m.note is Some {
        None
    } else if m.top > 0 {
        Some(
            text::decimal(m.top as nat) + " above  \u{b7}  "@ + text::decimal(below(m, visible)) + " below"@,
        )
    } else {
        Some(text::decimal(below(m, visible)) + " more below"@)
    }
}

/// The list as drawn.
#[derive(Debug)]
pub struct ListDrawn {
    /// In front of what is typed.
    pub label: String,
    pub query: String,
    /// Said in place of rows.
    pub note: Option<String>,
    pub rows: Vec<ListRow>,
    /// How many rows answer to the pointer.
    pub count: usize,
    pub more: Option<String>,
    /// How many lines the box holds under the input.
    pub body: usize,
}

/// The list as drawn, `visible` rows of it.
pub fn drawn(p: &Palette, visible: usize) -> (r: ListDrawn)
    ensures
        r.label@ == (match p@.label {
            Some(l) => l,
            None => palette::mode_label(p@.mode),
        }),
        r.query@ == p@.query,
        palette::opt_text(r.note) == p@.note,
        r.count == fitting(p@, visible as nat).len(),
        r.rows@.len() == (if p@.note is Some { 0 } else { fitting(p@, visible as nat).len() }),
        forall|i: int|
            0 <= i < r.rows@.len() ==> (#[trigger] r.rows@[i])@ == list_row(
                fitting(p@, visible as nat)[i],
                p@.top + i == p@.selected,
            ),
        palette::opt_text(r.more) == more_of(p@, visible as nat),
        r.body == (if fitting(p@, visible as nat).len() == 0 {
            1
        } else {
            fitting(p@, visible as nat).len() + (if below(p@, visible as nat) > 0 { 1nat } else { 0 })
        }),
{
    let ghost m = p@;
    let found: Vec<Row> = p.rows(visible);
    let ghost shown = fitting(m, visible as nat);
    let count: usize = found.len();
    proof {
        lemma_rows_bound(m, m.top as int, palette::rows_end(m, visible as nat));
        assert(palette::row_list(found@).len() == found@.len());
    }
    let rest: usize = if p.matches.len() <= p.top { 0 } else { p.matches.len() - p.top };
    let more: usize = if rest <= count { 0 } else { rest - count };
    assert(more == below(m, visible as nat));
    let label: String = match &p.label {
        Some(l) => l.clone(),
        None => copy_text(p.mode.prompt()),
    };
    let query: String = p.query.clone();
    let body: usize = if count == 0 { 1 } else if more > 0 { count + 1 } else { count };
    if let Some(n) = &p.note {
        return ListDrawn { label, query, note: Some(n.clone()), rows: Vec::new(), count, more: None, body };
    }
    let mut rows: Vec<ListRow> = Vec::new();
    let mut i: usize = 0;
    while i < found.len()
        invariant
            i <= found.len(),
            rows.len() == i,
            m == p@,
            shown == palette::row_list(found@),
            found.len() > 0 ==> m.top + found.len() <= usize::MAX,
            forall|k: int|
                0 <= k < i ==> (#[trigger] rows@[k])@ == list_row(shown[k], m.top + k == m.selected),
        decreases found.len() - i,
    {
        let row: &Row = &found[i];
        assert(shown[i as int] == row@);
        let detail: Option<String> = match &row.detail {
            Some(d) => Some(d.clone()),
            None => None,
        };
        let one: ListRow = ListRow {
            text: row.text.clone(),
            letters: letters(row),
            detail,
            selected: p.top + i == p.selected,
        };
        assert(one@ =~= list_row(shown[i as int], m.top + i == m.selected));
        rows.push(one);
        i = i + 1;
    }
    let said: Option<String> = if more == 0 {
        None
    } else {
        let below: String = decimal_text(more as u64);
        if p.top > 0 {
            let above: String = decimal_text(p.top as u64);
            let head: String = joined3(above.as_str(), " above  \u{b7}  ", below.as_str());
            Some(joined(head.as_str(), " below"))
        } else {
            Some(joined(below.as_str(), " more below"))
        }
    };
    ListDrawn { label, query, note: None, rows, count, more: said, body }
}

/// No more rows than matches.
proof fn lemma_rows_bound(m: PaletteState, from: int, to: int)
    requires
        from <= to,
    ensures
        palette::rows_between(m, from, to).len() <= to - from,
    decreases to - from,
{
    if from < to {
        lemma_rows_bound(m, from, to - 1);
    }
}

// -------------------------------------------------------------- a question

/// An answer as a button.
pub open spec fn button(answer: Seq<char>) -> Seq<char> {
    "[ "@ + answer + " ]"@
}

/// The first `n` answers side by side.
pub open spec fn buttons_of(answers: Seq<Seq<char>>, n: int) -> Seq<char>
    decreases n,
{
    if n <= 0 {
        Seq::empty()
    } else if n == 1 {
        button(answers[0])
    } else {
        buttons_of(answers, n - 1) + "  "@ + button(answers[n - 1])
    }
}

/// Where button `i` starts among the buttons.
pub open spec fn button_start(answers: Seq<Seq<char>>, i: int) -> nat {
    if i <= 0 { 0 } else { buttons_of(answers, i).len() + 2 }
}

/// The widest of three.
pub open spec fn widest(a: nat, b: nat, c: nat) -> nat {
    let ab = if a >= b { a } else { b };
    if ab >= c { ab } else { c }
}

/// How many cells the box is wide, inside its frame.
pub open spec fn inner_width(title: Seq<char>, question: Seq<char>, answers: Seq<Seq<char>>) -> nat {
    widest(question.len(), buttons_of(answers, answers.len() as int).len(), title.len()) + 4
}

/// A text in the middle of `inner` cells; an odd cell over goes to the right.
pub open spec fn centred(s: Seq<char>, inner: nat) -> Seq<char> {
    let pad = if inner <= s.len() { 0 } else { (inner - s.len()) as nat };
    text::repeated(' ', pad / 2) + s + text::repeated(' ', (pad - pad / 2) as nat)
}

/// The pieces of a frame: the four corners, the rule, the side, and where the
/// rule under the title meets the sides.
#[derive(Clone, Copy, Debug, PartialEq, Eq, Structural)]
pub struct Frame {
    pub top_left: char,
    pub top_right: char,
    pub bottom_left: char,
    pub bottom_right: char,
    pub rule: char,
    pub side: char,
    pub join_left: char,
    pub join_right: char,
}

/// The frame a font can draw. Every font that comes with the system has the
/// border characters, but the family is chosen from a list and the list is
/// the user's.
pub open spec fn frame_for(boxes: bool) -> Frame {
    if boxes {
        Frame {
            top_left: '\u{2554}',
            top_right: '\u{2557}',
            bottom_left: '\u{255a}',
            bottom_right: '\u{255d}',
            rule: '\u{2550}',
            side: '\u{2551}',
            join_left: '\u{2560}',
            join_right: '\u{2563}',
        }
    } else {
        Frame {
            top_left: '+',
            top_right: '+',
            bottom_left: '+',
            bottom_right: '+',
            rule: '-',
            side: '|',
            join_left: '+',
            join_right: '+',
        }
    }
}

fn frame(boxes: bool) -> (r: Frame)
    ensures
        r == frame_for(boxes),
{
    if boxes {
        Frame {
            top_left: '\u{2554}',
            top_right: '\u{2557}',
            bottom_left: '\u{255a}',
            bottom_right: '\u{255d}',
            rule: '\u{2550}',
            side: '\u{2551}',
            join_left: '\u{2560}',
            join_right: '\u{2563}',
        }
    } else {
        Frame {
            top_left: '+',
            top_right: '+',
            bottom_left: '+',
            bottom_right: '+',
            rule: '-',
            side: '|',
            join_left: '+',
            join_right: '+',
        }
    }
}

/// One line of the box between two pieces of its frame.
pub open spec fn between(left: char, body: Seq<char>, right: char) -> Seq<char> {
    seq![left] + body + seq![right]
}

/// The box a question stands in, line by line.
pub open spec fn choice_lines(title: Seq<char>, question: Seq<char>, answers: Seq<Seq<char>>, boxes: bool) -> Seq<
    Seq<char>,
> {
    let f = frame_for(boxes);
    let inner = inner_width(title, question, answers);
    let rule = text::repeated(f.rule, inner);
    let gap = between(f.side, text::repeated(' ', inner), f.side);
    seq![
        between(f.top_left, rule, f.top_right),
        between(f.side, centred(title, inner), f.side),
        between(f.join_left, rule, f.join_right),
        gap,
        between(f.side, centred(question, inner), f.side),
        gap,
        between(f.side, centred(buttons_of(answers, answers.len() as int), inner), f.side),
        gap,
        between(f.bottom_left, rule, f.bottom_right),
    ]
}

/// Whether a line of the box is its frame, drawn in the accent colour. The
/// border is furniture and should not read as loud as the question.
pub fn is_frame(line: usize) -> (r: bool)
    ensures
        r == (line == 0 || line == 2 || line == 8),
{
    line == 0 || line == 2 || line == 8
}

/// Where the buttons start, counted in cells from the left of the box.
pub open spec fn buttons_at(title: Seq<char>, question: Seq<char>, answers: Seq<Seq<char>>) -> nat {
    1 + (inner_width(title, question, answers) - buttons_of(answers, answers.len() as int).len()) as nat / 2
}

/// The chosen answer, drawn over itself in reverse: a filled block is what a
/// character grid has instead of a raised button.
#[derive(Debug)]
pub struct Picked {
    /// Cells from the left of the box, on its seventh line.
    pub start: usize,
    pub len: usize,
    pub text: String,
}

/// The box as drawn.
#[derive(Debug)]
pub struct ChoiceDrawn {
    pub lines: Vec<String>,
    pub picked: Option<Picked>,
}

fn line_between(left: char, body: &str, right: char) -> (r: String)
    ensures
        r@ == between(left, body@, right),
{
    let mut out: String = String::new();
    out.push(left);
    let mut out: String = joined(out.as_str(), body);
    out.push(right);
    assert(out@ =~= between(left, body@, right));
    out
}

fn in_the_middle(s: &str, inner: usize) -> (r: String)
    ensures
        r@ == centred(s@, inner as nat),
{
    let len: usize = s.unicode_len();
    let pad: usize = if inner <= len { 0 } else { inner - len };
    let left: String = repeat(' ', pad / 2);
    let right: String = repeat(' ', pad - pad / 2);
    joined3(left.as_str(), s, right.as_str())
}

fn all_buttons(answers: &Vec<String>) -> (r: String)
    ensures
        r@ == buttons_of(text::texts(answers@), answers@.len() as int),
{
    let ghost all = text::texts(answers@);
    let mut out: String = String::new();
    let mut i: usize = 0;
    while i < answers.len()
        invariant
            i <= answers.len(),
            all == text::texts(answers@),
            out@ == buttons_of(all, i as int),
        decreases answers.len() - i,
    {
        assert(all[i as int] == answers@[i as int]@);
        let label: String = joined3("[ ", answers[i].as_str(), " ]");
        if i == 0 {
            out = label;
        } else {
            out = joined3(out.as_str(), "  ", label.as_str());
        }
        i = i + 1;
    }
    out
}

/// Where button `i` starts. The buttons before it are laid out again, which
/// costs nothing at this size.
fn start_of(answers: &Vec<String>, i: usize) -> (r: usize)
    requires
        i < answers@.len(),
        buttons_of(text::texts(answers@), answers@.len() as int).len() <= usize::MAX,
    ensures
        r == button_start(text::texts(answers@), i as int),
{
    let ghost all = text::texts(answers@);
    proof {
        lemma_button_inside(all, i as int);
    }
    let mut at: usize = 0;
    let mut k: usize = 0;
    while k < i
        invariant
            k <= i < answers@.len(),
            all == text::texts(answers@),
            at == button_start(all, k as int),
            button_start(all, i as int) <= usize::MAX,
        decreases i - k,
    {
        proof {
            assert(all[k as int] == answers@[k as int]@);
            lemma_starts_grow(all, k as int + 1, i as int);
            reveal_strlit("[ ");
            reveal_strlit(" ]");
            reveal_strlit("  ");
        }
        at = at + answers[k].as_str().unicode_len() + 6;
        k = k + 1;
    }
    at
}

/// A later button starts no further left.
proof fn lemma_starts_grow(answers: Seq<Seq<char>>, i: int, j: int)
    requires
        0 <= i <= j,
    ensures
        button_start(answers, i) <= button_start(answers, j),
    decreases j,
{
    if i < j {
        lemma_starts_grow(answers, i, j - 1);
        reveal_strlit("  ");
        if j > 1 {
            assert(buttons_of(answers, j).len() >= buttons_of(answers, j - 1).len());
        }
    }
}

/// A button lies among the buttons.
proof fn lemma_button_inside(answers: Seq<Seq<char>>, i: int)
    requires
        0 <= i < answers.len(),
    ensures
        button_start(answers, i) + button(answers[i]).len() <= buttons_of(answers, answers.len() as int).len(),
        buttons_of(answers, i + 1).subrange(
            button_start(answers, i) as int,
            button_start(answers, i) as int + button(answers[i]).len(),
        ) == button(answers[i]),
        buttons_of(answers, i + 1).len() == button_start(answers, i) + button(answers[i]).len(),
{
    reveal_strlit("  ");
    lemma_buttons_grow(answers, i + 1, answers.len() as int);
    assert(buttons_of(answers, i + 1).subrange(
        button_start(answers, i) as int,
        button_start(answers, i) as int + button(answers[i]).len(),
    ) =~= button(answers[i]));
}

/// More answers only add to the right.
proof fn lemma_buttons_grow(answers: Seq<Seq<char>>, i: int, j: int)
    requires
        0 < i <= j,
    ensures
        buttons_of(answers, i).len() <= buttons_of(answers, j).len(),
        buttons_of(answers, j).take(buttons_of(answers, i).len() as int) == buttons_of(answers, i),
    decreases j,
{
    if i < j {
        lemma_buttons_grow(answers, i, j - 1);
        let shorter = buttons_of(answers, j - 1);
        let n = buttons_of(answers, i).len() as int;
        assert(buttons_of(answers, j).take(n) =~= shorter.take(n));
    } else {
        assert(buttons_of(answers, j).take(buttons_of(answers, i).len() as int) =~= buttons_of(answers, i));
    }
}

/// What a question's box is made of; empty where the palette says nothing.
pub open spec fn said_or_empty(s: Option<Seq<char>>) -> Seq<char> {
    match s {
        Some(t) => t,
        None => Seq::empty(),
    }
}

fn or_empty(s: &Option<String>) -> (r: String)
    ensures
        r@ == said_or_empty(palette::opt_text(*s)),
{
    match s {
        Some(t) => t.clone(),
        None => String::new(),
    }
}

/// A question as drawn: title, sentence, and the answers side by side.
pub fn draw_choice(p: &Palette, boxes: bool) -> (r: ChoiceDrawn)
    requires
        inner_width(said_or_empty(p@.label), said_or_empty(p@.question), p@.items) + 2 <= usize::MAX,
    ensures
        text::texts(r.lines@) == choice_lines(
            said_or_empty(p@.label),
            said_or_empty(p@.question),
            p@.items,
            boxes,
        ),
        match r.picked {
            Some(b) => {
                &&& p@.selected < p@.items.len()
                &&& b.start == buttons_at(said_or_empty(p@.label), said_or_empty(p@.question), p@.items)
                    + button_start(p@.items, p@.selected as int)
                &&& b.len == button(p@.items[p@.selected as int]).len()
                &&& b.text@ == button(p@.items[p@.selected as int])
            },
            None => p@.selected >= p@.items.len(),
        },
{
    let title: String = or_empty(&p.label);
    let question: String = or_empty(&p.question);
    let answers: &Vec<String> = p.answers();
    let ghost all = text::texts(answers@);
    let buttons: String = all_buttons(answers);
    let b: usize = buttons.as_str().unicode_len();
    let q: usize = question.as_str().unicode_len();
    let t: usize = title.as_str().unicode_len();
    let qb: usize = if q >= b { q } else { b };
    let inner: usize = (if qb >= t { qb } else { t }) + 4;
    assert(inner == inner_width(title@, question@, all));
    let f: Frame = frame(boxes);
    let rule: String = repeat(f.rule, inner);
    let blank: String = repeat(' ', inner);
    let mid_title: String = in_the_middle(title.as_str(), inner);
    let mid_question: String = in_the_middle(question.as_str(), inner);
    let mid_buttons: String = in_the_middle(buttons.as_str(), inner);
    let mut lines: Vec<String> = Vec::new();
    lines.push(line_between(f.top_left, rule.as_str(), f.top_right));
    lines.push(line_between(f.side, mid_title.as_str(), f.side));
    lines.push(line_between(f.join_left, rule.as_str(), f.join_right));
    lines.push(line_between(f.side, blank.as_str(), f.side));
    lines.push(line_between(f.side, mid_question.as_str(), f.side));
    lines.push(line_between(f.side, blank.as_str(), f.side));
    lines.push(line_between(f.side, mid_buttons.as_str(), f.side));
    lines.push(line_between(f.side, blank.as_str(), f.side));
    lines.push(line_between(f.bottom_left, rule.as_str(), f.bottom_right));
    assert(text::texts(lines@) =~= choice_lines(title@, question@, all, boxes));
    let picked: Option<Picked> = if p.selected < answers.len() {
        let i: usize = p.selected;
        proof {
            lemma_button_inside(all, i as int);
            assert(all[i as int] == answers@[i as int]@);
        }
        let at: usize = 1 + (inner - b) / 2;
        let label: String = joined3("[ ", answers[i].as_str(), " ]");
        let len: usize = label.as_str().unicode_len();
        Some(Picked { start: at + start_of(answers, i), len, text: label })
    } else {
        None
    };
    ChoiceDrawn { lines, picked }
}

// -------------------------------------------------------------------- laws

/// The box is a box: its lines are all as wide as each other.
pub proof fn a_box_has_straight_sides(
    title: Seq<char>,
    question: Seq<char>,
    answers: Seq<Seq<char>>,
    boxes: bool,
    i: int,
)
    requires
        0 <= i < 9,
    ensures
        choice_lines(title, question, answers, boxes).len() == 9,
        choice_lines(title, question, answers, boxes)[i].len() == inner_width(title, question, answers) + 2,
{
}

/// The highlight lands on the button, not near it: drawn at its place on the
/// buttons' line, the chosen answer covers exactly itself.
pub proof fn the_highlight_covers_its_button(
    title: Seq<char>,
    question: Seq<char>,
    answers: Seq<Seq<char>>,
    boxes: bool,
    i: int,
)
    requires
        0 <= i < answers.len(),
    ensures
        ({
            let at = buttons_at(title, question, answers) + button_start(answers, i);
            choice_lines(title, question, answers, boxes)[6].subrange(
                at as int,
                at as int + button(answers[i]).len(),
            ) == button(answers[i])
        }),
{
    let line = choice_lines(title, question, answers, boxes)[6];
    let all = buttons_of(answers, answers.len() as int);
    let inner = inner_width(title, question, answers);
    let base = buttons_at(title, question, answers) as int;
    let start = button_start(answers, i) as int;
    let own = button(answers[i]);
    lemma_button_inside(answers, i);
    lemma_buttons_grow(answers, i + 1, answers.len() as int);
    let upto = buttons_of(answers, i + 1);
    assert forall|k: int| 0 <= k < own.len() implies line[base + start + k] == own[k] by {
        assert(own[k] == upto.subrange(start, start + own.len())[k]);
        assert(upto[start + k] == own[k]);
        assert(all.take(upto.len() as int)[start + k] == all[start + k]);
        assert(line[base + start + k] == centred(all, inner)[base - 1 + start + k]);
    }
    assert(line.subrange(base + start, base + start + own.len()) =~= own);
}

/// Every matched letter is drawn over itself.
pub proof fn a_matched_letter_covers_itself(text: Seq<char>, hits: Seq<usize>, i: int)
    requires
        0 <= i < letters_of(text, hits).len(),
    ensures
        letters_of(text, hits)[i].0 < text.len(),
        letters_of(text, hits)[i].1 == text[letters_of(text, hits)[i].0 as int],
    decreases hits.len(),
{
    let rest = letters_of(text, hits.drop_last());
    if i < rest.len() {
        a_matched_letter_covers_itself(text, hits.drop_last(), i);
        assert(letters_of(text, hits)[i] == rest[i]);
    }
}

/// Nothing is hidden silently: every match is behind, on screen, or counted.
pub proof fn nothing_is_hidden_silently(m: PaletteState, visible: nat)
    requires
        m.top <= m.matches.len(),
        forall|k: int| m.top <= k < m.matches.len() ==> (#[trigger] m.matches[k]).index < m.items.len(),
    ensures
        m.top + fitting(m, visible).len() + below(m, visible) == m.matches.len(),
{
    lemma_all_rows(m, m.top as int, palette::rows_end(m, visible));
}

proof fn lemma_all_rows(m: PaletteState, from: int, to: int)
    requires
        from <= to,
        forall|k: int| from <= k < to ==> (#[trigger] m.matches[k]).index < m.items.len(),
    ensures
        palette::rows_between(m, from, to).len() == to - from,
    decreases to - from,
{
    if from < to {
        assert(m.matches[to - 1].index < m.items.len());
        lemma_all_rows(m, from, to - 1);
    }
}

/// The buttons stand in the order of the answers, each with its own answer
/// in it.
pub proof fn the_buttons_stand_in_order(answers: Seq<Seq<char>>, n: int)
    requires
        1 <= n < answers.len(),
    ensures
        buttons_of(answers, 1) == "[ "@ + answers[0] + " ]"@,
        buttons_of(answers, n + 1) == buttons_of(answers, n) + "  "@ + ("[ "@ + answers[n] + " ]"@),
{
    reveal_with_fuel(buttons_of, 2);
}

/// What is set in the middle keeps its text, with as much space on its left
/// as on its right, to within one.
pub proof fn what_is_centred_is_in_the_middle(s: Seq<char>, inner: nat)
    requires
        s.len() <= inner,
    ensures
        ({
            let pad = ((inner - s.len()) / 2) as int;
            &&& centred(s, inner).len() == inner
            &&& centred(s, inner).subrange(pad, pad + s.len()) == s
            &&& forall|i: int| 0 <= i < pad ==> #[trigger] centred(s, inner)[i] == ' '
            &&& forall|i: int| pad + s.len() <= i < inner ==> #[trigger] centred(s, inner)[i] == ' '
        }),
{
    let pad = ((inner - s.len()) / 2) as int;
    assert(centred(s, inner).subrange(pad, pad + s.len()) =~= s);
}

/// A choice shows its title, its question and its answers, each on its own
/// line, in this order.
pub proof fn a_choice_shows_what_it_asks(title: Seq<char>, question: Seq<char>, answers: Seq<Seq<char>>, boxes: bool)
    ensures
        ({
            let lines = choice_lines(title, question, answers, boxes);
            let inner = inner_width(title, question, answers);
            let all = buttons_of(answers, answers.len() as int);
            let side = if boxes { '\u{2551}' } else { '|' };
            &&& lines.len() == 9
            &&& lines[1] == seq![side] + centred(title, inner) + seq![side]
            &&& lines[4] == seq![side] + centred(question, inner) + seq![side]
            &&& lines[6] == seq![side] + centred(all, inner) + seq![side]
            &&& inner >= title.len() + 4 && inner >= question.len() + 4 && inner >= all.len() + 4
        }),
{
}

/// The letters that are lit are the ones that were found, each at its own
/// place.
pub proof fn the_found_letters_are_lit(text: Seq<char>, hits: Seq<usize>, h: usize)
    ensures
        h < text.len() ==> letters_of(text, hits.push(h)) == letters_of(text, hits).push((h, text[h as int])),
        h >= text.len() ==> letters_of(text, hits.push(h)) == letters_of(text, hits),
        letters_of(text, Seq::empty()).len() == 0,
{
    assert(hits.push(h).drop_last() =~= hits);
}

} // verus!
