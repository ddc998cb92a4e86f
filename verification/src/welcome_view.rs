//! What an empty window shows: a quiet mark, the keys that matter, and the
//! places already worked in; and what an empty pane says to press.
use vstd::prelude::*;
use vstd::string::*;
use crate::content;
use crate::content::Welcome;
use crate::path::PathState;
use crate::text;
use crate::text::{blank, chars_of, decimal_text, joined, joined3, pad, pad_right, text_of};

verus! {

/// A command worth naming, and the key it is on, if it is on one.
#[derive(Debug)]
pub struct Key {
    pub chord: Option<String>,
    pub label: &'static str,
}

/// A key as a value.
pub struct KeyState {
    pub chord: Option<Seq<char>>,
    pub label: Seq<char>,
}

impl View for Key {
    type V = KeyState;

    open spec fn view(&self) -> KeyState {
        KeyState {
            chord: match self.chord {
                Some(c) => Some(c@),
                None => None,
            },
            label: self.label@,
        }
    }
}

/// The keys of a list as values.
pub open spec fn key_list(s: Seq<Key>) -> Seq<KeyState> {
    Seq::new(s.len(), |i: int| s[i]@)
}

/// The commands that are on a key: a list that named the others would
/// advertise a key that does nothing.
pub open spec fn bound(keys: Seq<KeyState>) -> Seq<(Seq<char>, Seq<char>)>
    decreases keys.len(),
{
    if keys.len() == 0 {
        Seq::empty()
    } else {
        match keys.last().chord {
            Some(c) => bound(keys.drop_last()).push((c, keys.last().label)),
            None => bound(keys.drop_last()),
        }
    }
}

/// The hints of a list as values.
pub open spec fn hint_list(s: Seq<(String, &'static str)>) -> Seq<(Seq<char>, Seq<char>)> {
    Seq::new(s.len(), |i: int| (s[i].0@, s[i].1@))
}

pub fn bound_keys(keys: &Vec<Key>) -> (r: Vec<(String, &'static str)>)
    ensures
        hint_list(r@) == bound(key_list(keys@)),
{
    let ghost all = key_list(keys@);
    let mut out: Vec<(String, &'static str)> = Vec::new();
    let mut i: usize = 0;
    assert(all.take(0) =~= Seq::empty());
    assert(hint_list(out@) =~= Seq::empty());
    while i < keys.len()
        invariant
            i <= keys.len(),
            all == key_list(keys@),
            hint_list(out@) == bound(all.take(i as int)),
        decreases keys.len() - i,
    {
        let ghost done = hint_list(out@);
        proof {
            assert(all.take(i + 1).drop_last() =~= all.take(i as int));
            assert(all.take(i + 1).last() == keys@[i as int]@);
        }
        if let Some(c) = &keys[i].chord {
            out.push((c.clone(), keys[i].label));
            assert(hint_list(out@) =~= done.push((c@, keys@[i as int].label@)));
        }
        i = i + 1;
    }
    assert(all.take(all.len() as int) =~= all);
    out
}

/// The longest chord of the first `n` hints.
pub open spec fn chord_width(hints: Seq<(Seq<char>, Seq<char>)>, n: int) -> nat
    decreases n,
{
    if n <= 0 {
        0
    } else {
        let rest = chord_width(hints, n - 1);
        if hints[n - 1].0.len() > rest { hints[n - 1].0.len() } else { rest }
    }
}

/// The widest of the first `n` rows, each with its marker.
pub open spec fn rows_width(rows: Seq<(Seq<char>, PathState)>, n: int) -> nat
    decreases n,
{
    if n <= 0 {
        0
    } else {
        let rest = rows_width(rows, n - 1);
        if rows[n - 1].0.len() + 2 > rest { rows[n - 1].0.len() + 2 } else { rest }
    }
}

/// The widest of the first `n` hints, their chords in a column `chord` wide.
pub open spec fn hints_width(hints: Seq<(Seq<char>, Seq<char>)>, chord: nat, n: int) -> nat
    decreases n,
{
    if n <= 0 {
        0
    } else {
        let rest = hints_width(hints, chord, n - 1);
        let own = chord + 3 + hints[n - 1].1.len();
        if own > rest { own } else { rest }
    }
}

pub open spec fn larger(a: nat, b: nat) -> nat {
    if a >= b { a } else { b }
}

/// One column width for everything, so that the block reads as one thing.
pub open spec fn block_width(rows: Seq<(Seq<char>, PathState)>, hints: Seq<(Seq<char>, Seq<char>)>) -> nat {
    let chord = chord_width(hints, hints.len() as int);
    larger(
        larger(rows_width(rows, rows.len() as int), hints_width(hints, chord, hints.len() as int)),
        24,
    )
}

// ---------------------------------------------------------------- the mark

/// The mark is a K, in blocks where the font can draw them.
pub open spec fn mark_rows(blocks: bool) -> nat {
    if blocks { 6 } else { 5 }
}

pub open spec fn mark_row(blocks: bool, i: int) -> Seq<char> {
    if blocks {
        if i == 0 {
            "\u{2588}\u{2588}\u{2557}  \u{2588}\u{2588}\u{2557}"@
        } else if i == 1 {
            "\u{2588}\u{2588}\u{2551} \u{2588}\u{2588}\u{2554}\u{255d}"@
        } else if i == 2 {
            "\u{2588}\u{2588}\u{2588}\u{2588}\u{2588}\u{2554}\u{255d} "@
        } else if i == 3 {
            "\u{2588}\u{2588}\u{2554}\u{2550}\u{2588}\u{2588}\u{2557} "@
        } else if i == 4 {
            "\u{2588}\u{2588}\u{2551}  \u{2588}\u{2588}\u{2557}"@
        } else {
            "\u{255a}\u{2550}\u{255d}  \u{255a}\u{2550}\u{255d}"@
        }
    } else {
        if i == 0 || i == 4 {
            "##  ##"@
        } else if i == 2 {
            "####  "@
        } else {
            "## ## "@
        }
    }
}

fn mark(blocks: bool, i: usize) -> (r: &'static str)
    ensures
        r@ == mark_row(blocks, i as int),
{
    if blocks {
        match i {
            0 => "\u{2588}\u{2588}\u{2557}  \u{2588}\u{2588}\u{2557}",
            1 => "\u{2588}\u{2588}\u{2551} \u{2588}\u{2588}\u{2554}\u{255d}",
            2 => "\u{2588}\u{2588}\u{2588}\u{2588}\u{2588}\u{2554}\u{255d} ",
            3 => "\u{2588}\u{2588}\u{2554}\u{2550}\u{2588}\u{2588}\u{2557} ",
            4 => "\u{2588}\u{2588}\u{2551}  \u{2588}\u{2588}\u{2557}",
            _ => "\u{255a}\u{2550}\u{255d}  \u{255a}\u{2550}\u{255d}",
        }
    } else {
        match i {
            0 | 4 => "##  ##",
            2 => "####  ",
            _ => "## ## ",
        }
    }
}

/// The letter itself; the rest is the shadow it casts.
pub open spec fn is_body(c: char) -> bool {
    c == '\u{2588}' || c == '#'
}

/// The body or the shadow of a row, the other left blank.
pub open spec fn part_of(row: Seq<char>, body: bool) -> Seq<char> {
    Seq::new(row.len(), |i: int| if is_body(row[i]) == body { row[i] } else { ' ' })
}

/// A part of a row as drawn: nothing, where it is blank.
pub open spec fn pass_of(row: Seq<char>, body: bool) -> Option<Seq<char>> {
    if text::is_blank(part_of(row, body)) { None } else { Some(part_of(row, body)) }
}

fn pass(row: &str, body: bool) -> (r: Option<String>)
    ensures
        (match r {
            Some(t) => Some(t@),
            None => None,
        }) == pass_of(row@, body),
{
    let cells: Vec<char> = chars_of(row);
    let mut out: Vec<char> = Vec::new();
    let mut i: usize = 0;
    while i < cells.len()
        invariant
            i <= cells.len(),
            cells@ == row@,
            out.len() == i,
            forall|k: int| 0 <= k < i ==> out@[k] == part_of(row@, body)[k],
        decreases cells.len() - i,
    {
        let c: char = cells[i];
        let own: bool = c == '\u{2588}' || c == '#';
        out.push(if own == body { c } else { ' ' });
        i = i + 1;
    }
    assert(out@ =~= part_of(row@, body));
    let part: String = text_of(&out);
    proof {
        text::lemma_trimmed_blank(part@);
    }
    if blank(part.as_str()) { None } else { Some(part) }
}

/// A row of the mark, in two passes: the letter, then its shadow. In one
/// weight the two read as a smudge.
#[derive(Debug)]
pub struct MarkRow {
    pub body: Option<String>,
    pub shadow: Option<String>,
}

fn all_marks(blocks: bool) -> (r: Vec<MarkRow>)
    ensures
        r@.len() == mark_rows(blocks),
        forall|i: int|
            #![trigger r@[i]]
            0 <= i < r@.len() ==> opt(r@[i].body) == pass_of(mark_row(blocks, i), true) && opt(
                r@[i].shadow,
            ) == pass_of(mark_row(blocks, i), false),
{
    let n: usize = if blocks { 6 } else { 5 };
    let mut out: Vec<MarkRow> = Vec::new();
    let mut i: usize = 0;
    while i < n
        invariant
            i <= n,
            n == mark_rows(blocks),
            out.len() == i,
            forall|k: int|
                #![trigger out@[k]]
                0 <= k < i ==> opt(out@[k].body) == pass_of(mark_row(blocks, k), true) && opt(
                    out@[k].shadow,
                ) == pass_of(mark_row(blocks, k), false),
        decreases n - i,
    {
        let row: &'static str = mark(blocks, i);
        out.push(MarkRow { body: pass(row, true), shadow: pass(row, false) });
        i = i + 1;
    }
    out
}

/// An optional text as a value.
pub open spec fn opt(s: Option<String>) -> Option<Seq<char>> {
    match s {
        Some(t) => Some(t@),
        None => None,
    }
}

// ------------------------------------------------------------- the screen

/// How many lines the block takes, with its gaps.
pub open spec fn block_rows(blocks: bool, hints: nat, rows: nat) -> nat {
    mark_rows(blocks) + 4 + hints + (if rows == 0 { 0 } else { rows + 2 })
}

/// A place to open, marked when it is the selected one.
pub open spec fn place_text(label: Seq<char>, selected: bool) -> Seq<char> {
    (if selected { "\u{25b8} "@ } else { "  "@ }) + label
}

/// The welcome screen as drawn.
#[derive(Debug)]
pub struct WelcomeDrawn {
    pub mark: Vec<MarkRow>,
    /// The mark's width: one left edge for every row of it.
    pub cols: usize,
    pub wordmark: &'static str,
    /// Chord, right-aligned in its column, and what it does.
    pub hints: Vec<(String, &'static str)>,
    /// How wide the chords' column is.
    pub chord: usize,
    /// The heading over the places, when there are any.
    pub heading: Option<&'static str>,
    pub rows: Vec<(String, bool)>,
    /// Cells across and lines down, for centring the block.
    pub width: usize,
    pub height: usize,
}

fn widest_chord(hints: &Vec<(String, &'static str)>) -> (r: usize)
    ensures
        r == chord_width(hint_list(hints@), hints@.len() as int),
{
    let ghost all = hint_list(hints@);
    let mut w: usize = 0;
    let mut i: usize = 0;
    while i < hints.len()
        invariant
            i <= hints.len(),
            all == hint_list(hints@),
            w == chord_width(all, i as int),
        decreases hints.len() - i,
    {
        assert(all[i as int].0 == hints@[i as int].0@);
        let own: usize = hints[i].0.as_str().unicode_len();
        if own > w {
            w = own;
        }
        i = i + 1;
    }
    w
}

fn width(rows: &Vec<(String, crate::path::Path)>, hints: &Vec<(String, &'static str)>, chord: usize) -> (r: usize)
    requires
        chord == chord_width(hint_list(hints@), hints@.len() as int),
        block_width(content::welcome_list(rows@), hint_list(hints@)) <= usize::MAX,
    ensures
        r == block_width(content::welcome_list(rows@), hint_list(hints@)),
{
    let ghost places = content::welcome_list(rows@);
    let ghost all = hint_list(hints@);
    let mut w: u128 = 0;
    let mut i: usize = 0;
    while i < rows.len()
        invariant
            i <= rows.len(),
            places == content::welcome_list(rows@),
            w == rows_width(places, i as int),
        decreases rows.len() - i,
    {
        assert(places[i as int].0 == rows@[i as int].0@);
        let own: u128 = rows[i].0.as_str().unicode_len() as u128 + 2;
        if own > w {
            w = own;
        }
        i = i + 1;
    }
    let mut h: u128 = 0;
    let mut k: usize = 0;
    while k < hints.len()
        invariant
            k <= hints.len(),
            all == hint_list(hints@),
            h == hints_width(all, chord as nat, k as int),
        decreases hints.len() - k,
    {
        assert(all[k as int].1 == hints@[k as int].1@);
        let own: u128 = chord as u128 + 3 + hints[k].1.unicode_len() as u128;
        if own > h {
            h = own;
        }
        k = k + 1;
    }
    let both: u128 = if w >= h { w } else { h };
    if both >= 24 { both as usize } else { 24 }
}

fn places(w: &Welcome) -> (r: Vec<(String, bool)>)
    ensures
        r@.len() == w.rows@.len(),
        forall|i: int|
            #![trigger r@[i]]
            0 <= i < r@.len() ==> r@[i].0@ == place_text(w.rows@[i].0@, i == w.selected) && r@[i].1 == (i
                == w.selected),
{
    let mut out: Vec<(String, bool)> = Vec::new();
    let mut i: usize = 0;
    while i < w.rows.len()
        invariant
            i <= w.rows.len(),
            out.len() == i,
            forall|k: int|
                #![trigger out@[k]]
                0 <= k < i ==> out@[k].0@ == place_text(w.rows@[k].0@, k == w.selected) && out@[k].1 == (k
                    == w.selected),
        decreases w.rows.len() - i,
    {
        let selected: bool = i == w.selected;
        out.push((joined(if selected { "\u{25b8} " } else { "  " }, w.rows[i].0.as_str()), selected));
        i = i + 1;
    }
    out
}

fn aligned(hints: &Vec<(String, &'static str)>, chord: usize) -> (r: Vec<(String, &'static str)>)
    ensures
        r@.len() == hints@.len(),
        forall|i: int|
            #![trigger r@[i]]
            0 <= i < r@.len() ==> r@[i].0@ == text::padded(hints@[i].0@, ' ', chord as nat) && r@[i].1@
                == hints@[i].1@,
{
    let mut out: Vec<(String, &'static str)> = Vec::new();
    let mut i: usize = 0;
    while i < hints.len()
        invariant
            i <= hints.len(),
            out.len() == i,
            forall|k: int|
                #![trigger out@[k]]
                0 <= k < i ==> out@[k].0@ == text::padded(hints@[k].0@, ' ', chord as nat) && out@[k].1@
                    == hints@[k].1@,
        decreases hints.len() - i,
    {
        out.push((pad(hints[i].0.as_str(), ' ', chord), hints[i].1));
        i = i + 1;
    }
    out
}

/// The welcome screen, with the keys worth knowing.
pub fn drawn(w: &Welcome, starters: &Vec<Key>, blocks: bool, boxes: bool) -> (r: WelcomeDrawn)
    requires
        block_width(content::welcome_list(w.rows@), bound(key_list(starters@))) <= usize::MAX,
        block_rows(blocks && boxes, bound(key_list(starters@)).len(), w.rows@.len()) <= usize::MAX,
    ensures
        ({
            let hints = bound(key_list(starters@));
            let chord = chord_width(hints, hints.len() as int);
            let solid = blocks && boxes;
            &&& r.mark@.len() == mark_rows(solid)
            &&& forall|i: int|
                #![trigger r.mark@[i]]
                0 <= i < r.mark@.len() ==> opt(r.mark@[i].body) == pass_of(mark_row(solid, i), true) && opt(
                    r.mark@[i].shadow,
                ) == pass_of(mark_row(solid, i), false)
            &&& r.cols == (if solid { 8nat } else { 6 })
            &&& r.wordmark@ == "k u b I D E"@
            &&& r.chord == chord
            &&& r.hints@.len() == hints.len()
            &&& forall|i: int|
                #![trigger r.hints@[i]]
                0 <= i < hints.len() ==> r.hints@[i].0@ == text::padded(hints[i].0, ' ', chord)
                    && r.hints@[i].1@ == hints[i].1
            &&& (match r.heading {
                Some(h) => w.rows@.len() > 0 && h@ == "OPEN \u{b7} Enter"@,
                None => w.rows@.len() == 0,
            })
            &&& r.rows@.len() == w.rows@.len()
            &&& forall|i: int|
                #![trigger r.rows@[i]]
                0 <= i < r.rows@.len() ==> r.rows@[i].0@ == place_text(w.rows@[i].0@, i == w.selected)
                    && r.rows@[i].1 == (i == w.selected)
            &&& r.width == block_width(content::welcome_list(w.rows@), hints)
            &&& r.height == block_rows(solid, hints.len(), w.rows@.len())
        }),
{
    let solid: bool = blocks && boxes;
    let hints: Vec<(String, &'static str)> = bound_keys(starters);
    assert(hint_list(hints@).len() == hints@.len());
    let chord: usize = widest_chord(&hints);
    let width: usize = width(&w.rows, &hints, chord);
    let shown: Vec<(String, &'static str)> = aligned(&hints, chord);
    proof {
        let all = hint_list(hints@);
        assert forall|i: int| 0 <= i < all.len() implies (#[trigger] shown@[i]).0@ == text::padded(
            all[i].0,
            ' ',
            chord as nat,
        ) && shown@[i].1@ == all[i].1 by {
            assert(all[i] == (hints@[i].0@, hints@[i].1@));
        }
    }
    let rows: Vec<(String, bool)> = places(w);
    let height: usize = (if solid { 6 } else { 5 }) + 4 + hints.len() + (if w.rows.len() == 0 {
        0
    } else {
        w.rows.len() + 2
    });
    let heading: Option<&'static str> = if w.rows.len() > 0 { Some("OPEN \u{b7} Enter") } else { None };
    WelcomeDrawn {
        mark: all_marks(solid),
        cols: if solid { 8 } else { 6 },
        wordmark: "k u b I D E",
        hints: shown,
        chord,
        heading,
        rows,
        width,
        height,
    }
}

// ----------------------------------------------------------- an empty pane

/// One line of what an empty pane says.
pub open spec fn pane_line(hint: (Seq<char>, Seq<char>)) -> Seq<char> {
    text::padded_right(hint.0, ' ', 14) + " "@ + hint.1
}

/// What an empty pane says: the keys that get you anywhere, a blank line, and
/// the keys about this pane.
pub open spec fn pane_lines(starters: Seq<KeyState>, here: Seq<KeyState>) -> Seq<Seq<char>> {
    let first = bound(starters);
    let second = bound(here);
    Seq::new(first.len(), |i: int| pane_line(first[i])).push(Seq::empty()) + Seq::new(
        second.len(),
        |i: int| pane_line(second[i]),
    )
}

fn push_lines(out: &mut Vec<String>, hints: &Vec<(String, &'static str)>)
    ensures
        text::texts(final(out)@) == text::texts(old(out)@) + Seq::new(
            hints@.len(),
            |i: int| pane_line(hint_list(hints@)[i]),
        ),
{
    let ghost before = text::texts(out@);
    let ghost all = hint_list(hints@);
    let ghost whole = Seq::new(all.len(), |i: int| pane_line(all[i]));
    let mut i: usize = 0;
    assert(before + whole.take(0) =~= before);
    while i < hints.len()
        invariant
            i <= hints.len(),
            all == hint_list(hints@),
            whole == Seq::new(all.len(), |k: int| pane_line(all[k])),
            text::texts(out@) == before + whole.take(i as int),
        decreases hints.len() - i,
    {
        let ghost done = text::texts(out@);
        let chord: String = pad_right(hints[i].0.as_str(), ' ', 14);
        let line: String = joined3(chord.as_str(), " ", hints[i].1);
        assert(line@ == pane_line(all[i as int]));
        out.push(line);
        proof {
            assert(text::texts(out@) =~= done.push(whole[i as int]));
            assert(text::texts(out@) =~= before + whole.take(i + 1));
        }
        i = i + 1;
    }
    assert(whole.take(whole.len() as int) =~= whole);
    assert(whole =~= Seq::new(hints@.len(), |k: int| pane_line(hint_list(hints@)[k])));
}

/// What an empty pane says instead of sitting there blank: which pane it is,
/// and what to press.
pub fn placeholder(pane: usize, starters: &Vec<Key>, here: &Vec<Key>) -> (r: (String, Vec<String>))
    ensures
        r.0@ == "pane "@ + text::decimal(pane as nat),
        text::texts(r.1@) == pane_lines(key_list(starters@), key_list(here@)),
{
    let n: String = decimal_text(pane as u64);
    let title: String = joined("pane ", n.as_str());
    let first: Vec<(String, &'static str)> = bound_keys(starters);
    let second: Vec<(String, &'static str)> = bound_keys(here);
    let mut out: Vec<String> = Vec::new();
    assert(text::texts(out@) =~= Seq::empty());
    push_lines(&mut out, &first);
    let ghost done = text::texts(out@);
    out.push(String::new());
    assert(text::texts(out@) =~= done.push(Seq::empty()));
    push_lines(&mut out, &second);
    assert(text::texts(out@) =~= pane_lines(key_list(starters@), key_list(here@)));
    (title, out)
}

// -------------------------------------------------------------------- laws

/// A hint is only ever given for a key that does something.
pub proof fn no_hint_for_an_unbound_key(keys: Seq<KeyState>, i: int)
    requires
        0 <= i < bound(keys).len(),
    ensures
        exists|k: int|
            0 <= k < keys.len() && (#[trigger] keys[k]).chord == Some(bound(keys)[i].0) && keys[k].label
                == bound(keys)[i].1,
    decreases keys.len(),
{
    let rest = bound(keys.drop_last());
    if i < rest.len() {
        no_hint_for_an_unbound_key(keys.drop_last(), i);
        let k = choose|k: int|
            0 <= k < keys.drop_last().len() && (#[trigger] keys.drop_last()[k]).chord == Some(rest[i].0)
                && keys.drop_last()[k].label == rest[i].1;
        assert(keys[k] == keys.drop_last()[k]);
        assert(bound(keys)[i] == rest[i]);
    } else {
        assert(keys[keys.len() - 1] == keys.last());
    }
}

/// The two passes draw the whole mark and nothing twice.
pub proof fn the_passes_make_up_the_mark(row: Seq<char>, i: int)
    requires
        0 <= i < row.len(),
    ensures
        part_of(row, true)[i] == row[i] || part_of(row, false)[i] == row[i],
        row[i] != ' ' ==> part_of(row, true)[i] == ' ' || part_of(row, false)[i] == ' ',
{
}

/// The chords line up on the right.
pub proof fn the_chords_line_up(hints: Seq<(Seq<char>, Seq<char>)>, i: int)
    requires
        0 <= i < hints.len(),
    ensures
        text::padded(hints[i].0, ' ', chord_width(hints, hints.len() as int)).len() == chord_width(
            hints,
            hints.len() as int,
        ),
{
    lemma_chord_width(hints, i, hints.len() as int);
}

proof fn lemma_chord_width(hints: Seq<(Seq<char>, Seq<char>)>, i: int, n: int)
    requires
        0 <= i < n <= hints.len(),
    ensures
        hints[i].0.len() <= chord_width(hints, n),
    decreases n,
{
    if i < n - 1 {
        lemma_chord_width(hints, i, n - 1);
    }
}

/// The hints are the bound keys in their order: each with its chord and what
/// it does.
pub proof fn each_bound_key_is_hinted(keys: Seq<KeyState>, k: KeyState)
    ensures
        k.chord matches Some(c) ==> bound(keys.push(k)) == bound(keys).push((c, k.label)),
        k.chord is None ==> bound(keys.push(k)) == bound(keys),
        bound(Seq::empty()).len() == 0,
{
    assert(keys.push(k).drop_last() =~= keys);
}

/// The block is wide enough for everything in it, and no narrower than
/// twenty-four.
pub proof fn the_block_is_wide_enough(rows: Seq<(Seq<char>, PathState)>, hints: Seq<(Seq<char>, Seq<char>)>, i: int, j: int)
    requires
        0 <= i < rows.len(),
        0 <= j < hints.len(),
    ensures
        block_width(rows, hints) >= 24,
        block_width(rows, hints) >= rows[i].0.len() + 2,
        block_width(rows, hints) >= hints[j].0.len() + 3 + hints[j].1.len(),
{
    lemma_rows_width(rows, rows.len() as int, i);
    let chord = chord_width(hints, hints.len() as int);
    lemma_hints_width(hints, chord, hints.len() as int, j);
    lemma_chord_width(hints, j, hints.len() as int);
}

proof fn lemma_rows_width(rows: Seq<(Seq<char>, PathState)>, n: int, i: int)
    requires
        0 <= i < n <= rows.len(),
    ensures
        rows_width(rows, n) >= rows[i].0.len() + 2,
    decreases n,
{
    if i < n - 1 {
        lemma_rows_width(rows, n - 1, i);
    }
}

proof fn lemma_hints_width(hints: Seq<(Seq<char>, Seq<char>)>, chord: nat, n: int, i: int)
    requires
        0 <= i < n <= hints.len(),
    ensures
        hints_width(hints, chord, n) >= chord + 3 + hints[i].1.len(),
    decreases n,
{
    if i < n - 1 {
        lemma_hints_width(hints, chord, n - 1, i);
    }
}

/// A place that can be opened is shown with its name, the selected one
/// behind a mark.
pub proof fn the_selected_place_is_marked(label: Seq<char>)
    ensures
        place_text(label, true) == "\u{25b8} "@ + label,
        place_text(label, false) == "  "@ + label,
        place_text(label, true).len() == label.len() + 2,
        place_text(label, false).len() == label.len() + 2,
{
    reveal_strlit("\u{25b8} ");
    reveal_strlit("  ");
}

/// An empty pane shows how to begin, and below a gap what can be done here.
pub proof fn an_empty_pane_shows_the_keys(starters: Seq<KeyState>, here: Seq<KeyState>, i: int)
    ensures
        ({
            let first = bound(starters);
            let second = bound(here);
            let lines = pane_lines(starters, here);
            &&& lines.len() == first.len() + 1 + second.len()
            &&& 0 <= i < first.len() ==> lines[i] == text::padded_right(first[i].0, ' ', 14) + " "@ + first[i].1
            &&& lines[first.len() as int].len() == 0
            &&& 0 <= i < second.len() ==> lines[first.len() + 1 + i] == text::padded_right(second[i].0, ' ', 14) + " "@
                + second[i].1
        }),
{
}

} // verus!
