//! Remembering the layout between runs.
//!
//! One file per workspace, so a corrupt session costs you that project's
//! layout and nothing else. Everything here is best-effort: a session that
//! fails to read must never stop the editor from starting.
use vstd::prelude::*;
use vstd::string::*;
use crate::path;
use crate::path::{Path, PathState};
use crate::text;
use crate::text::{chars_of, cut_once, decimal_text, parse_number, spells, split_lines, split_words, sub_chars,
    text_of, trim_chars};

verus! {

/// A pane of the layout.
#[derive(Clone, Copy, Debug, PartialEq, Eq, Structural)]
pub struct PaneId(pub u64);

/// Which way a split puts its children.
#[derive(Clone, Copy, Debug, PartialEq, Eq, Structural)]
pub enum Axis {
    Horizontal,
    Vertical,
}

/// The layout, described. A ratio is held as it is written.
#[derive(Debug, PartialEq)]
pub enum Desc {
    Leaf(PaneId),
    Split { axis: Axis, ratios: Vec<String>, children: Vec<Desc> },
}

/// A described layout as a value.
pub enum DescState {
    Leaf(nat),
    Split { axis: Axis, ratios: Seq<Seq<char>>, children: Seq<DescState> },
}

/// What a described layout stands for.
pub open spec fn desc_state(d: Desc) -> DescState
    decreases d,
{
    match d {
        Desc::Leaf(p) => DescState::Leaf(p.0 as nat),
        Desc::Split { axis, ratios, children } => DescState::Split {
            axis,
            ratios: text::texts(ratios@),
            children: Seq::new(
                children@.len(),
                |i: int|
                    if 0 <= i < children@.len() {
                        desc_state(children@[i])
                    } else {
                        DescState::Leaf(0)
                    },
            ),
        },
    }
}

impl View for Desc {
    type V = DescState;

    open spec fn view(&self) -> DescState {
        desc_state(*self)
    }
}

/// What a pane held.
#[derive(Debug, PartialEq, Eq)]
pub enum Pane {
    Empty,
    Explorer,
    Terminal,
    /// A file, and where the caret was in it.
    File(Path, usize, usize),
}

/// What a pane held, as a value.
pub enum PaneState {
    Empty,
    Explorer,
    Terminal,
    File(PathState, nat, nat),
}

impl View for Pane {
    type V = PaneState;

    open spec fn view(&self) -> PaneState {
        match self {
            Pane::Empty => PaneState::Empty,
            Pane::Explorer => PaneState::Explorer,
            Pane::Terminal => PaneState::Terminal,
            Pane::File(p, line, col) => PaneState::File(p@, *line as nat, *col as nat),
        }
    }
}

#[derive(Debug, PartialEq)]
pub struct Session {
    pub layout: Desc,
    pub panes: Vec<(PaneId, Pane)>,
    pub focus: PaneId,
}

/// A session as a value.
#[verifier::ext_equal]
pub struct SessionState {
    pub layout: DescState,
    pub panes: Seq<(nat, PaneState)>,
    pub focus: nat,
}

/// The panes of a list as values.
pub open spec fn pane_list(s: Seq<(PaneId, Pane)>) -> Seq<(nat, PaneState)> {
    Seq::new(s.len(), |i: int| (s[i].0.0 as nat, s[i].1@))
}

impl View for Session {
    type V = SessionState;

    open spec fn view(&self) -> SessionState {
        SessionState {
            layout: self.layout@,
            panes: pane_list(self.panes@),
            focus: self.focus.0 as nat,
        }
    }
}

// ------------------------------------------------------------- the layout

/// The end of a run of digits from `i` on.
pub open spec fn digits_end(s: Seq<char>, i: int) -> int
    decreases s.len() - i,
{
    if i < 0 || i >= s.len() {
        s.len() as int
    } else if '0' <= s[i] && s[i] <= '9' {
        digits_end(s, i + 1)
    } else {
        i
    }
}

/// Whether what follows an exponent's letter is one: an optional sign, then
/// digits to the end.
pub open spec fn is_exponent(s: Seq<char>, i: int) -> bool {
    let j = if i < s.len() && (s[i] == '+' || s[i] == '-') { i + 1 } else { i };
    j < s.len() && digits_end(s, j) == s.len()
}

/// Whether the text is a decimal number: digits with at most one point among
/// them, at least one digit, and perhaps an exponent.
pub open spec fn is_decimal_number(s: Seq<char>) -> bool {
    let a = digits_end(s, 0);
    let dotted = a < s.len() && s[a] == '.';
    let e = if dotted { digits_end(s, a + 1) } else { a };
    let any = a > 0 || (dotted && e > a + 1);
    any && (e == s.len() || ((s[e] == 'e' || s[e] == 'E') && is_exponent(s, e + 1)))
}

/// A letter, whatever its case.
pub open spec fn folds_to(c: char, lower: char) -> bool {
    c == lower || ('A' <= c && c <= 'Z' && c as int + 32 == lower as int)
}

/// The word, whatever its case.
pub open spec fn spells_any_case(s: Seq<char>, word: Seq<char>) -> bool {
    s.len() == word.len() && forall|i: int| 0 <= i < s.len() ==> folds_to(#[trigger] s[i], word[i])
}

/// Whether a word is a number a ratio can be read from.
pub open spec fn is_number(s: Seq<char>) -> bool {
    let body = if s.len() > 0 && (s[0] == '+' || s[0] == '-') { s.skip(1) } else { s };
    ||| is_decimal_number(body)
    ||| spells_any_case(body, "inf"@)
    ||| spells_any_case(body, "infinity"@)
    ||| spells_any_case(body, "nan"@)
}

fn digits_end_at(v: &Vec<char>, from: usize) -> (r: usize)
    requires
        from <= v.len(),
    ensures
        r == digits_end(v@, from as int),
        from <= r <= v.len(),
{
    let mut i: usize = from;
    while i < v.len() && '0' <= v[i] && v[i] <= '9'
        invariant
            from <= i <= v.len(),
            digits_end(v@, from as int) == digits_end(v@, i as int),
        decreases v.len() - i,
    {
        i = i + 1;
    }
    i
}

fn exponent(v: &Vec<char>, from: usize) -> (r: bool)
    requires
        from <= v.len(),
    ensures
        r == is_exponent(v@, from as int),
{
    let j: usize = if from < v.len() && (v[from] == '+' || v[from] == '-') { from + 1 } else { from };
    j < v.len() && digits_end_at(v, j) == v.len()
}

fn decimal_number(v: &Vec<char>) -> (r: bool)
    ensures
        r == is_decimal_number(v@),
{
    let a: usize = digits_end_at(v, 0);
    let dotted: bool = a < v.len() && v[a] == '.';
    let e: usize = if dotted { digits_end_at(v, a + 1) } else { a };
    let any: bool = a > 0 || (dotted && e > a + 1);
    any && (e == v.len() || ((v[e] == 'e' || v[e] == 'E') && exponent(v, e + 1)))
}

fn any_case(v: &Vec<char>, word: &str) -> (r: bool)
    ensures
        r == spells_any_case(v@, word@),
{
    let w: Vec<char> = chars_of(word);
    if v.len() != w.len() {
        return false;
    }
    let mut i: usize = 0;
    while i < v.len()
        invariant
            i <= v.len(),
            v.len() == w.len(),
            w@ == word@,
            forall|k: int| 0 <= k < i ==> folds_to(#[trigger] v@[k], w@[k]),
        decreases v.len() - i,
    {
        let c: char = v[i];
        let lower: char = w[i];
        let upper: bool = 'A' <= c && c <= 'Z' && 'a' <= lower && lower <= 'z' && c as u32 + 32
            == lower as u32;
        if !(c == lower || upper) {
            assert(!folds_to(v@[i as int], w@[i as int]));
            return false;
        }
        i = i + 1;
    }
    true
}

fn number(v: &Vec<char>) -> (r: bool)
    ensures
        r == is_number(v@),
{
    let from: usize = if v.len() > 0 && (v[0] == '+' || v[0] == '-') { 1 } else { 0 };
    let body: Vec<char> = sub_chars(v, from, v.len());
    assert(body@ =~= v@.skip(from as int));
    assert(v@.skip(0) =~= v@);
    decimal_number(&body) || any_case(&body, "inf") || any_case(&body, "infinity") || any_case(&body, "nan")
}

/// The letter of a split.
pub open spec fn axis_letter(axis: Axis) -> char {
    match axis {
        Axis::Horizontal => 'H',
        Axis::Vertical => 'V',
    }
}

/// A layout as words: what it is, a split's ratios, then its children.
pub open spec fn desc_words(d: DescState) -> Seq<Seq<char>>
    decreases d,
{
    match d {
        DescState::Leaf(p) => seq![seq!['L'] + text::decimal(p)],
        DescState::Split { axis, ratios, children } => seq![
            seq![axis_letter(axis)] + text::decimal(children.len()),
        ] + ratios + child_words(children),
    }
}

/// The words of several layouts, one after another.
pub open spec fn child_words(ds: Seq<DescState>) -> Seq<Seq<char>>
    decreases ds,
{
    if ds.len() == 0 {
        Seq::empty()
    } else {
        desc_words(ds[0]) + child_words(ds.subrange(1, ds.len() as int))
    }
}

/// The numbers among some words.
pub open spec fn numbers(ws: Seq<Seq<char>>) -> Seq<Seq<char>>
    decreases ws.len(),
{
    if ws.len() == 0 {
        Seq::empty()
    } else if is_number(ws.last()) {
        numbers(ws.drop_last()).push(ws.last())
    } else {
        numbers(ws.drop_last())
    }
}

/// Where the ratios of a split of `count` end, when they begin at `pos`.
pub open spec fn ratios_end(len: int, pos: int, count: int) -> int {
    if len - pos <= count { len } else { pos + count }
}

/// A layout read from the words at `pos`, and where reading stopped. A split
/// that lacks one of its ratios or children is no layout.
pub open spec fn desc_at(ws: Seq<Seq<char>>, pos: int) -> (Option<DescState>, int)
    decreases ws.len() - pos, 0nat,
{
    if pos < 0 || pos >= ws.len() {
        (None, pos)
    } else {
        let w = ws[pos];
        if w.len() > 0 && w[0] == 'L' {
            match text::parsed(w.skip(1), u64::MAX as nat) {
                Some(p) => (Some(DescState::Leaf(p)), pos + 1),
                None => (None, pos + 1),
            }
        } else if w.len() > 0 && (w[0] == 'H' || w[0] == 'V') {
            match text::parsed(w.skip(1), usize::MAX as nat) {
                Some(count) => if count == 0 || count > 64 {
                    (None, pos + 1)
                } else {
                    let from = ratios_end(ws.len() as int, pos + 1, count as int);
                    let ratios = numbers(ws.subrange(pos + 1, from));
                    let (children, end) = children_at(ws, from, count);
                    if ratios.len() == count && children.len() == count {
                        let axis = if w[0] == 'H' { Axis::Horizontal } else { Axis::Vertical };
                        (Some(DescState::Split { axis, ratios, children }), end)
                    } else {
                        (None, end)
                    }
                },
                None => (None, pos + 1),
            }
        } else {
            (None, pos + 1)
        }
    }
}

/// Up to `count` layouts read one after another from `pos`; those that could
/// not be read are left out.
pub open spec fn children_at(ws: Seq<Seq<char>>, pos: int, count: nat) -> (Seq<DescState>, int)
    decreases ws.len() - pos, count + 1,
{
    if count == 0 || pos < 0 || pos > ws.len() {
        (Seq::empty(), pos)
    } else {
        let (first, next) = desc_at(ws, pos);
        if next < pos || next > ws.len() {
            (Seq::empty(), pos)
        } else {
            let (rest, end) = children_at(ws, next, (count - 1) as nat);
            (
                match first {
                    Some(d) => seq![d] + rest,
                    None => rest,
                },
                end,
            )
        }
    }
}

proof fn lemma_desc_at_bounds(ws: Seq<Seq<char>>, pos: int)
    requires
        0 <= pos <= ws.len(),
    ensures
        pos <= desc_at(ws, pos).1 <= ws.len(),
        pos < ws.len() ==> pos < desc_at(ws, pos).1,
    decreases ws.len() - pos, 0nat,
{
    if pos < ws.len() {
        let w = ws[pos];
        if w.len() > 0 && (w[0] == 'H' || w[0] == 'V') {
            match text::parsed(w.skip(1), usize::MAX as nat) {
                Some(count) => {
                    if !(count == 0 || count > 64) {
                        let from = ratios_end(ws.len() as int, pos + 1, count as int);
                        lemma_children_at_bounds(ws, from, count);
                    }
                },
                None => {},
            }
        }
    }
}

proof fn lemma_children_at_bounds(ws: Seq<Seq<char>>, pos: int, count: nat)
    requires
        0 <= pos <= ws.len(),
    ensures
        pos <= children_at(ws, pos, count).1 <= ws.len(),
    decreases ws.len() - pos, count + 1,
{
    if count > 0 {
        lemma_desc_at_bounds(ws, pos);
        let next = desc_at(ws, pos).1;
        lemma_children_at_bounds(ws, next, (count - 1) as nat);
    }
}

fn push_words(desc: &Desc, out: &mut Vec<String>)
    ensures
        text::texts(final(out)@) == text::texts(old(out)@) + desc_words(desc@),
    decreases desc,
{
    let ghost before = text::texts(out@);
    match desc {
        Desc::Leaf(p) => {
            let n: String = decimal_text(p.0);
            let mut w: String = String::new();
            w.push('L');
            w.append(n.as_str());
            assert(w@ =~= seq!['L'] + text::decimal(p.0 as nat));
            out.push(w);
            assert(text::texts(out@) =~= before + desc_words(desc@));
        },
        Desc::Split { axis, ratios, children } => {
            let n: String = decimal_text(children.len() as u64);
            let mut w: String = String::new();
            w.push(
                match axis {
                    Axis::Horizontal => 'H',
                    Axis::Vertical => 'V',
                },
            );
            w.append(n.as_str());
            let ghost head = w@;
            assert(head =~= seq![axis_letter(*axis)] + text::decimal(children@.len()));
            out.push(w);
            assert(text::texts(out@) =~= before.push(head));
            let mut i: usize = 0;
            let ghost rs = text::texts(ratios@);
            while i < ratios.len()
                invariant
                    i <= ratios.len(),
                    rs == text::texts(ratios@),
                    text::texts(out@) == before.push(head) + rs.take(i as int),
                decreases ratios.len() - i,
            {
                let ghost done = text::texts(out@);
                out.push(ratios[i].clone());
                proof {
                    assert(text::texts(out@) =~= done.push(rs[i as int]));
                    assert(rs.take(i + 1) =~= rs.take(i as int).push(rs[i as int]));
                }
                i = i + 1;
                assert(text::texts(out@) =~= before.push(head) + rs.take(i as int));
            }
            assert(rs.take(rs.len() as int) =~= rs);
            let ghost start = text::texts(out@);
            let ghost cs = desc@->children;
            let mut k: usize = 0;
            assert(cs.skip(0) =~= cs);
            while k < children.len()
                invariant
                    k <= children.len(),
                    desc == (Desc::Split { axis: *axis, ratios: *ratios, children: *children }),
                    cs == desc@->children,
                    cs.len() == children@.len(),
                    text::texts(out@) + child_words(cs.skip(k as int)) == start + child_words(cs),
                decreases children.len() - k,
            {
                let ghost done = text::texts(out@);
                assert(cs[k as int] == children@[k as int]@);
                push_words(&children[k], out);
                proof {
                    let here = cs.skip(k as int);
                    assert(here[0] == cs[k as int]);
                    assert(here.subrange(1, here.len() as int) =~= cs.skip(k + 1));
                    assert(text::texts(out@) + child_words(cs.skip(k + 1)) =~= done + child_words(here));
                }
                k = k + 1;
            }
            proof {
                assert(cs.skip(cs.len() as int) =~= Seq::empty());
                assert(text::texts(out@) =~= start + child_words(cs));
                assert(text::texts(out@) =~= before + desc_words(desc@));
            }
        },
    }
}

/// The numbers among the words from `from` up to `to`.
fn numbers_in(ws: &Vec<Vec<char>>, from: usize, to: usize) -> (r: Vec<String>)
    requires
        from <= to <= ws.len(),
    ensures
        text::texts(r@) == numbers(text::char_lists(ws@).subrange(from as int, to as int)),
{
    let ghost all = text::char_lists(ws@);
    let mut out: Vec<String> = Vec::new();
    let mut i: usize = from;
    assert(text::texts(out@) =~= Seq::empty());
    while i < to
        invariant
            from <= i <= to <= ws.len(),
            all == text::char_lists(ws@),
            text::texts(out@) == numbers(all.subrange(from as int, i as int)),
        decreases to - i,
    {
        let ghost done = text::texts(out@);
        proof {
            assert(all.subrange(from as int, i + 1).drop_last() =~= all.subrange(from as int, i as int));
            assert(all.subrange(from as int, i + 1).last() == ws@[i as int]@);
        }
        if number(&ws[i]) {
            let w: String = text_of(&ws[i]);
            out.push(w);
            assert(text::texts(out@) =~= done.push(w@));
        }
        i = i + 1;
    }
    out
}

/// A layout as a value, or nothing.
pub open spec fn opt_desc(d: Option<Desc>) -> Option<DescState> {
    match d {
        Some(d) => Some(d@),
        None => None,
    }
}

fn read_desc(ws: &Vec<Vec<char>>, pos: usize) -> (r: (Option<Desc>, usize))
    requires
        pos <= ws.len(),
    ensures
        opt_desc(r.0) == desc_at(text::char_lists(ws@), pos as int).0,
        r.1 == desc_at(text::char_lists(ws@), pos as int).1,
        pos <= r.1 <= ws.len(),
    decreases ws.len() - pos,
{
    let ghost all = text::char_lists(ws@);
    proof {
        lemma_desc_at_bounds(all, pos as int);
    }
    if pos >= ws.len() {
        return (None, pos);
    }
    let w: &Vec<char> = &ws[pos];
    assert(all[pos as int] == w@);
    if w.len() == 0 {
        return (None, pos + 1);
    }
    let tail: Vec<char> = sub_chars(w, 1, w.len());
    assert(tail@ =~= w@.skip(1));
    if w[0] == 'L' {
        return match parse_number(&tail, u64::MAX) {
            Some(p) => (Some(Desc::Leaf(PaneId(p))), pos + 1),
            None => (None, pos + 1),
        };
    }
    if w[0] != 'H' && w[0] != 'V' {
        return (None, pos + 1);
    }
    let count: usize = match parse_number(&tail, usize::MAX as u64) {
        Some(n) => n as usize,
        None => {
            return (None, pos + 1);
        },
    };
    // A count from a file decides how many times we recurse, so it needs a
    // ceiling.
    if count == 0 || count > 64 {
        return (None, pos + 1);
    }
    let from: usize = if ws.len() - (pos + 1) <= count { ws.len() } else { pos + 1 + count };
    assert(from == ratios_end(all.len() as int, pos + 1, count as int));
    let ratios: Vec<String> = numbers_in(ws, pos + 1, from);
    let mut children: Vec<Desc> = Vec::new();
    let mut at: usize = from;
    let mut left: usize = count;
    let ghost target = children_at(all, from as int, count as nat);
    proof {
        assert(desc_list(children@) =~= Seq::empty());
        assert(desc_list(children@) + children_at(all, from as int, count as nat).0 =~= target.0);
    }
    while left > 0
        invariant
            pos < ws.len(),
            pos < from <= at <= ws.len(),
            all == text::char_lists(ws@),
            desc_list(children@) + children_at(all, at as int, left as nat).0 == target.0,
            children_at(all, at as int, left as nat).1 == target.1,
        decreases left,
    {
        let ghost done = desc_list(children@);
        proof {
            lemma_desc_at_bounds(all, at as int);
        }
        let (child, next) = read_desc(ws, at);
        match child {
            Some(d) => {
                children.push(d);
                assert(desc_list(children@) =~= done.push(d@));
            },
            None => {},
        }
        proof {
            assert(desc_list(children@) + children_at(all, next as int, (left - 1) as nat).0 =~= done
                + children_at(all, at as int, left as nat).0);
        }
        at = next;
        left = left - 1;
    }
    assert(desc_list(children@) =~= target.0);
    assert(text::texts(ratios@).len() == ratios@.len());
    assert(desc_list(children@).len() == children@.len());
    if ratios.len() != count || children.len() != count {
        return (None, at);
    }
    let axis: Axis = if w[0] == 'H' { Axis::Horizontal } else { Axis::Vertical };
    let out: Desc = Desc::Split { axis, ratios, children };
    assert(out@->children =~= desc_list(children@));
    (Some(out), at)
}

/// The layouts of a list as values.
pub open spec fn desc_list(s: Seq<Desc>) -> Seq<DescState> {
    Seq::new(s.len(), |i: int| s[i]@)
}

// --------------------------------------------------------------- the file

/// The first line of a session file.
pub open spec fn version_line() -> Seq<char> {
    "kubide-session 1"@
}

/// A file as it is written: relative to the root when it is under it, so
/// that a workspace carrying its own session file survives being moved; its
/// whole path otherwise, because nothing else can name it.
pub open spec fn written_path(p: PathState, root: PathState) -> Seq<char> {
    path::path_text(if path::is_under(p, root) { path::below(p, root) } else { p })
}

/// The line of one pane.
pub open spec fn pane_line(id: nat, pane: PaneState, root: PathState) -> Seq<char> {
    let what = match pane {
        PaneState::Empty => "empty"@,
        PaneState::Explorer => "explorer"@,
        PaneState::Terminal => "terminal"@,
        PaneState::File(p, line, col) => "file"@ + seq![' '] + (text::decimal(line) + seq![' '] + (text::decimal(
            col,
        ) + seq![' '] + written_path(p, root))),
    };
    "pane"@ + seq![' '] + (text::decimal(id) + seq![' '] + what)
}

/// The lines of a session file.
pub open spec fn session_lines(s: SessionState, root: PathState) -> Seq<Seq<char>> {
    seq![
        version_line(),
        "focus"@ + seq![' '] + text::decimal(s.focus),
        "layout"@ + seq![' '] + text::spaced(desc_words(s.layout)),
    ] + Seq::new(s.panes.len(), |i: int| pane_line(s.panes[i].0, s.panes[i].1, root))
}

/// What has been read of a session so far.
#[verifier::ext_equal]
pub struct Reading {
    pub focus: nat,
    pub layout: Option<DescState>,
    pub panes: Seq<(nat, PaneState)>,
}

/// A file's path as it was written, put back under the root it is read with
/// when it has none of its own.
pub open spec fn read_path(s: Seq<char>, root: PathState) -> PathState {
    path::path_join(root, path::path_of(s))
}

/// The rest of a file's line: the caret, then the path, which is last so
/// that it can hold spaces.
pub open spec fn read_file(tail: Seq<char>, root: PathState) -> Option<PaneState> {
    match text::split_once(tail, ' ') {
        None => None,
        Some((line, more)) => match text::split_once(more, ' ') {
            None => None,
            Some((col, p)) => match (
                text::parsed(line, usize::MAX as nat),
                text::parsed(col, usize::MAX as nat),
            ) {
                (Some(line), Some(col)) => Some(PaneState::File(read_path(p, root), line, col)),
                _ => None,
            },
        },
    }
}

/// What a pane held, read from its line behind its number.
pub open spec fn read_pane(rest: Seq<char>, root: PathState) -> Option<PaneState> {
    let plain = {
        let word = text::trimmed(rest);
        if word == "explorer"@ {
            PaneState::Explorer
        } else if word == "terminal"@ {
            PaneState::Terminal
        } else {
            PaneState::Empty
        }
    };
    match text::split_once(rest, ' ') {
        Some((kind, tail)) => if kind == "file"@ { read_file(tail, root) } else { Some(plain) },
        None => Some(plain),
    }
}

/// The keys this version knows.
pub open spec fn is_known_key(key: Seq<char>) -> bool {
    key == "focus"@ || key == "layout"@ || key == "pane"@
}

/// One more line read. `None` means the file is no session.
pub open spec fn read_line(r: Reading, line: Seq<char>, root: PathState) -> Option<Reading> {
    match text::split_once(line, ' ') {
        // A known key alone says nothing; an unknown one is skipped.
        None => if is_known_key(line) { None } else { Some(r) },
        Some((key, rest)) => if key == "focus"@ {
            match text::parsed(text::trimmed(rest), u64::MAX as nat) {
                Some(n) => Some(Reading { focus: n, ..r }),
                None => None,
            }
        } else if key == "layout"@ {
            Some(Reading { layout: desc_at(text::words(rest), 0).0, ..r })
        } else if key == "pane"@ {
            match text::split_once(rest, ' ') {
                None => None,
                Some((id, more)) => match (text::parsed(id, u64::MAX as nat), read_pane(more, root)) {
                    (Some(id), Some(pane)) => Some(Reading { panes: r.panes.push((id, pane)), ..r }),
                    _ => None,
                },
            }
        } else {
            // Unknown keys are skipped rather than fatal, so a newer
            // version's extra lines do not cost an older one its layout.
            Some(r)
        },
    }
}

/// The lines from `i` on, read one after another.
pub open spec fn read_lines(r: Reading, lines: Seq<Seq<char>>, i: int, root: PathState) -> Option<Reading>
    decreases lines.len() - i,
{
    if i < 0 || i >= lines.len() {
        Some(r)
    } else {
        match read_line(r, lines[i], root) {
            Some(next) => read_lines(next, lines, i + 1, root),
            None => None,
        }
    }
}

/// The session a text describes, read for a workspace at `root`.
pub open spec fn read_session(s: Seq<char>, root: PathState) -> Option<SessionState> {
    let lines = text::lines(s);
    if lines.len() == 0 || lines[0] != version_line() {
        None
    } else {
        match read_lines(Reading { focus: 0, layout: None, panes: Seq::empty() }, lines, 1, root) {
            Some(r) => match r.layout {
                Some(layout) => Some(SessionState { layout, panes: r.panes, focus: r.focus }),
                None => None,
            },
            None => None,
        }
    }
}

/// A line onto the end of a text.
fn add_line(out: &mut String, line: &str, Ghost(before): Ghost<Seq<Seq<char>>>)
    requires
        old(out)@ == text::unlines(before),
    ensures
        final(out)@ == text::unlines(before.push(line@)),
{
    out.append(line);
    out.push('\n');
    proof {
        assert(before.push(line@).drop_last() =~= before);
        assert(out@ =~= text::unlines(before.push(line@)));
    }
}

fn pane_text(id: PaneId, pane: &Pane, root: &Path) -> (r: String)
    ensures
        r@ == pane_line(id.0 as nat, pane@, root@),
{
    let what: String = match pane {
        Pane::Empty => "empty".to_owned(),
        Pane::Explorer => "explorer".to_owned(),
        Pane::Terminal => "terminal".to_owned(),
        Pane::File(p, line, col) => {
            let shown: String = match p.strip_prefix(root) {
                Some(rest) => rest.text(),
                None => p.text(),
            };
            let l: String = decimal_text(*line as u64);
            let c: String = decimal_text(*col as u64);
            let mut w: String = "file".to_owned();
            w.push(' ');
            w.append(l.as_str());
            w.push(' ');
            w.append(c.as_str());
            w.push(' ');
            w.append(shown.as_str());
            assert(w@ =~= "file"@ + seq![' '] + (text::decimal(*line as nat) + seq![' '] + (text::decimal(
                *col as nat,
            ) + seq![' '] + written_path(p@, root@))));
            w
        },
    };
    let n: String = decimal_text(id.0);
    let mut out: String = "pane".to_owned();
    out.push(' ');
    out.append(n.as_str());
    out.push(' ');
    out.append(what.as_str());
    assert(out@ =~= pane_line(id.0 as nat, pane@, root@));
    out
}

/// Whether a layout holds a file or a terminal.
pub open spec fn worth_keeping(s: SessionState) -> bool {
    exists|i: int| 0 <= i < s.panes.len() && ((#[trigger] s.panes[i]).1 is File || s.panes[i].1 is Terminal)
}

impl Session {
    /// Whether this layout holds anything a person would want back.
    ///
    /// A session of furniture only, an explorer and empty panes, is not a
    /// place someone was working. A file or a terminal is a sign of life;
    /// nothing else is.
    pub fn worth_restoring(&self) -> (r: bool)
        ensures
            r == worth_keeping(self@),
    {
        let mut i: usize = 0;
        while i < self.panes.len()
            invariant
                i <= self.panes.len(),
                forall|k: int|
                    0 <= k < i ==> !((#[trigger] self@.panes[k]).1 is File || self@.panes[k].1 is Terminal),
            decreases self.panes.len() - i,
        {
            assert(self@.panes[i as int].1 == self.panes@[i as int].1@);
            match &self.panes[i].1 {
                Pane::File(..) | Pane::Terminal => {
                    return true;
                },
                _ => {},
            }
            i = i + 1;
        }
        false
    }

    /// The session as the text of its file, for a workspace at `root`.
    pub fn encode(&self, root: &Path) -> (r: String)
        ensures
            r@ == text::unlines(session_lines(self@, root@)),
    {
        let mut out: String = String::new();
        let ghost mut lines: Seq<Seq<char>> = Seq::empty();
        assert(out@ =~= text::unlines(lines));
        add_line(&mut out, "kubide-session 1", Ghost(lines));
        proof {
            lines = lines.push(version_line());
        }
        let n: String = decimal_text(self.focus.0);
        let mut focus: String = "focus".to_owned();
        focus.push(' ');
        focus.append(n.as_str());
        assert(focus@ =~= "focus"@ + seq![' '] + text::decimal(self@.focus));
        add_line(&mut out, focus.as_str(), Ghost(lines));
        proof {
            lines = lines.push(focus@);
        }
        let mut words: Vec<String> = Vec::new();
        assert(text::texts(words@) =~= Seq::empty());
        push_words(&self.layout, &mut words);
        assert(text::texts(words@) =~= desc_words(self@.layout));
        let tail: String = spaced_text(&words);
        let mut layout: String = "layout".to_owned();
        layout.push(' ');
        layout.append(tail.as_str());
        assert(layout@ =~= "layout"@ + seq![' '] + text::spaced(desc_words(self@.layout)));
        add_line(&mut out, layout.as_str(), Ghost(lines));
        proof {
            lines = lines.push(layout@);
        }
        let ghost all = session_lines(self@, root@);
        let mut i: usize = 0;
        assert(lines =~= all.take(3));
        while i < self.panes.len()
            invariant
                i <= self.panes.len(),
                all == session_lines(self@, root@),
                lines == all.take(3 + i),
                out@ == text::unlines(lines),
            decreases self.panes.len() - i,
        {
            let line: String = pane_text(self.panes[i].0, &self.panes[i].1, root);
            add_line(&mut out, line.as_str(), Ghost(lines));
            proof {
                assert(self@.panes[i as int] == (self.panes@[i as int].0.0 as nat, self.panes@[i as int].1@));
                assert(all[3 + i] == line@);
                lines = lines.push(line@);
                assert(lines =~= all.take(3 + i + 1));
            }
            i = i + 1;
        }
        assert(all.take(all.len() as int) =~= all);
        out
    }
}

/// The words written out, each with a space behind it.
fn spaced_text(ws: &Vec<String>) -> (r: String)
    ensures
        r@ == text::spaced(text::texts(ws@)),
{
    let ghost all = text::texts(ws@);
    let mut out: String = String::new();
    let mut i: usize = 0;
    assert(all.take(0) =~= Seq::empty());
    assert(out@ =~= text::spaced(all.take(0)));
    while i < ws.len()
        invariant
            i <= ws.len(),
            all == text::texts(ws@),
            out@ == text::spaced(all.take(i as int)),
        decreases ws.len() - i,
    {
        out.append(ws[i].as_str());
        out.push(' ');
        proof {
            assert(all.take(i + 1).drop_last() =~= all.take(i as int));
            assert(out@ =~= text::spaced(all.take(i + 1)));
        }
        i = i + 1;
    }
    assert(all.take(all.len() as int) =~= all);
    out
}

fn file_pane(tail: &Vec<char>, root: &Path) -> (r: Option<Pane>)
    ensures
        match r {
            Some(p) => read_file(tail@, root@) == Some(p@),
            None => read_file(tail@, root@) is None,
        },
{
    match cut_once(tail, ' ') {
        None => None,
        Some((line, more)) => match cut_once(&more, ' ') {
            None => None,
            Some((col, p)) => {
                let found: Path = Path::from_chars(&p);
                let whole: Path = root.join(&found);
                match (parse_number(&line, usize::MAX as u64), parse_number(&col, usize::MAX as u64)) {
                    (Some(l), Some(c)) => Some(Pane::File(whole, l as usize, c as usize)),
                    _ => None,
                }
            },
        },
    }
}

fn plain_pane(rest: &Vec<char>) -> (r: Pane)
    ensures
        r@ == ({
            let word = text::trimmed(rest@);
            if word == "explorer"@ {
                PaneState::Explorer
            } else if word == "terminal"@ {
                PaneState::Terminal
            } else {
                PaneState::Empty
            }
        }),
{
    let word: Vec<char> = trim_chars(rest);
    if spells(&word, "explorer") {
        Pane::Explorer
    } else if spells(&word, "terminal") {
        Pane::Terminal
    } else {
        Pane::Empty
    }
}

fn one_pane(rest: &Vec<char>, root: &Path) -> (r: Option<Pane>)
    ensures
        match r {
            Some(p) => read_pane(rest@, root@) == Some(p@),
            None => read_pane(rest@, root@) is None,
        },
{
    match cut_once(rest, ' ') {
        Some((kind, tail)) => if spells(&kind, "file") {
            file_pane(&tail, root)
        } else {
            Some(plain_pane(rest))
        },
        None => Some(plain_pane(rest)),
    }
}

/// A session half read.
struct Partial {
    focus: u64,
    layout: Option<Desc>,
    panes: Vec<(PaneId, Pane)>,
}

impl Partial {
    spec fn reading(&self) -> Reading {
        Reading {
            focus: self.focus as nat,
            layout: opt_desc(self.layout),
            panes: pane_list(self.panes@),
        }
    }

    fn line(&mut self, line: &Vec<char>, root: &Path) -> (ok: bool)
        ensures
            match read_line(old(self).reading(), line@, root@) {
                Some(next) => ok && final(self).reading() == next,
                None => !ok,
            },
    {
        let (key, rest): (Vec<char>, Vec<char>) = match cut_once(line, ' ') {
            Some(halves) => halves,
            None => {
                return !spells(line, "focus") && !spells(line, "layout") && !spells(line, "pane");
            },
        };
        if spells(&key, "focus") {
            let word: Vec<char> = trim_chars(&rest);
            match parse_number(&word, u64::MAX) {
                Some(n) => {
                    self.focus = n;
                    true
                },
                None => false,
            }
        } else if spells(&key, "layout") {
            let ws: Vec<Vec<char>> = split_words(&rest);
            let (desc, _end) = read_desc(&ws, 0);
            self.layout = desc;
            true
        } else if spells(&key, "pane") {
            match cut_once(&rest, ' ') {
                None => false,
                Some((id, more)) => {
                    match (parse_number(&id, u64::MAX), one_pane(&more, root)) {
                        (Some(n), Some(pane)) => {
                            let ghost before = self.panes@;
                            self.panes.push((PaneId(n), pane));
                            assert(pane_list(self.panes@) =~= pane_list(before).push((n as nat, pane@)));
                            true
                        },
                        _ => false,
                    }
                },
            }
        } else {
            true
        }
    }
}

/// A session as a value, or nothing.
pub open spec fn opt_session(s: Option<Session>) -> Option<SessionState> {
    match s {
        Some(s) => Some(s@),
        None => None,
    }
}

impl Session {
    /// Reads a session back out of its file's text.
    pub fn decode(s: &str, root: &Path) -> (r: Option<Session>)
        ensures
            opt_session(r) == read_session(s@, root@),
    {
        let v: Vec<char> = chars_of(s);
        let lines: Vec<Vec<char>> = split_lines(&v);
        let ghost all = text::char_lists(lines@);
        assert(all.len() == lines@.len());
        // A version line, so a future format change can be ignored rather
        // than misread as this one.
        if lines.len() == 0 {
            return None;
        }
        assert(all[0] == lines@[0]@);
        if !spells(&lines[0], "kubide-session 1") {
            return None;
        }
        let mut part: Partial = Partial { focus: 0, layout: None, panes: Vec::new() };
        let mut i: usize = 1;
        let ghost start = Reading { focus: 0, layout: None, panes: Seq::empty() };
        assert(part.reading() =~= start);
        while i < lines.len()
            invariant
                1 <= i <= lines.len(),
                all == text::char_lists(lines@),
                all == text::lines(s@),
                all[0] == version_line(),
                start == (Reading { focus: 0, layout: None, panes: Seq::empty() }),
                read_lines(part.reading(), all, i as int, root@) == read_lines(start, all, 1, root@),
            decreases lines.len() - i,
        {
            assert(all[i as int] == lines@[i as int]@);
            if !part.line(&lines[i], root) {
                return None;
            }
            i = i + 1;
        }
        match part.layout {
            Some(layout) => Some(Session { layout, panes: part.panes, focus: PaneId(part.focus) }),
            None => None,
        }
    }
}

// ------------------------------------------------- what is read of a write

/// A layout whose words read back as itself: every split has as many ratios
/// as children, between one and sixty-four, and a ratio is a number.
pub open spec fn savable_desc(d: DescState) -> bool
    decreases d,
{
    match d {
        DescState::Leaf(p) => p <= u64::MAX,
        DescState::Split { axis, ratios, children } => {
            &&& 1 <= children.len() <= 64
            &&& ratios.len() == children.len()
            &&& forall|i: int| 0 <= i < ratios.len() ==> text::is_word(#[trigger] ratios[i]) && is_number(ratios[i])
            &&& savable_descs(children)
        },
    }
}

/// Layouts each of which is savable.
pub open spec fn savable_descs(ds: Seq<DescState>) -> bool
    decreases ds,
{
    ds.len() > 0 ==> savable_desc(ds[0]) && savable_descs(ds.subrange(1, ds.len() as int))
}

/// A path that is the same file whichever folder it is read from.
pub open spec fn stands_alone(p: PathState, root: PathState) -> bool {
    path::path_join(root, p) == p
}

/// A pane whose line reads back as itself: its path can stand on a line, and
/// a path outside the root stands alone.
pub open spec fn savable_pane(pane: PaneState, root: PathState) -> bool {
    match pane {
        PaneState::File(p, line, col) => {
            let shown = if path::is_under(p, root) { path::below(p, root) } else { p };
            &&& line <= usize::MAX && col <= usize::MAX
            &&& path::clean(shown)
            &&& text::fits_line(path::path_text(shown))
            &&& path::is_under(p, root) || stands_alone(p, root)
        },
        _ => true,
    }
}

/// A session that can be written for a workspace at `root` and read back.
pub open spec fn savable(s: SessionState, root: PathState) -> bool {
    &&& s.focus <= u64::MAX
    &&& savable_desc(s.layout)
    &&& forall|i: int|
        0 <= i < s.panes.len() ==> (#[trigger] s.panes[i]).0 <= u64::MAX && savable_pane(s.panes[i].1, root)
}

proof fn lemma_numbers_all(ws: Seq<Seq<char>>)
    requires
        forall|i: int| 0 <= i < ws.len() ==> is_number(#[trigger] ws[i]),
    ensures
        numbers(ws) == ws,
    decreases ws.len(),
{
    if ws.len() > 0 {
        let front = ws.drop_last();
        assert forall|i: int| 0 <= i < front.len() implies is_number(#[trigger] front[i]) by {
            assert(front[i] == ws[i]);
        }
        lemma_numbers_all(front);
        assert(is_number(ws[ws.len() - 1]));
        assert(front.push(ws.last()) =~= ws);
    } else {
        assert(numbers(ws) =~= ws);
    }
}

proof fn lemma_desc_words(d: DescState)
    requires
        savable_desc(d),
    ensures
        forall|i: int| 0 <= i < desc_words(d).len() ==> text::is_word(#[trigger] desc_words(d)[i]),
    decreases d,
{
    match d {
        DescState::Leaf(p) => {
            text::lemma_decimal_is_word(p);
            let w = seq!['L'] + text::decimal(p);
            assert forall|k: int| 0 <= k < w.len() implies !text::is_white(#[trigger] w[k]) by {
                if k > 0 {
                    assert(w[k] == text::decimal(p)[k - 1]);
                    assert(!text::is_white(text::decimal(p)[k - 1]));
                }
            }
        },
        DescState::Split { axis, ratios, children } => {
            let n = children.len();
            text::lemma_decimal_is_word(n);
            let w = seq![axis_letter(axis)] + text::decimal(n);
            assert forall|k: int| 0 <= k < w.len() implies !text::is_white(#[trigger] w[k]) by {
                if k > 0 {
                    assert(w[k] == text::decimal(n)[k - 1]);
                    assert(!text::is_white(text::decimal(n)[k - 1]));
                }
            }
            lemma_child_words(children);
            let all = desc_words(d);
            assert forall|i: int| 0 <= i < all.len() implies text::is_word(#[trigger] all[i]) by {
                if i == 0 {
                    assert(all[i] == w);
                } else if i < 1 + ratios.len() {
                    assert(all[i] == ratios[i - 1]);
                } else {
                    assert(all[i] == child_words(children)[i - 1 - ratios.len()]);
                }
            }
        },
    }
}

proof fn lemma_child_words(ds: Seq<DescState>)
    requires
        savable_descs(ds),
    ensures
        forall|i: int| 0 <= i < child_words(ds).len() ==> text::is_word(#[trigger] child_words(ds)[i]),
    decreases ds,
{
    if ds.len() > 0 {
        let rest = ds.subrange(1, ds.len() as int);
        lemma_desc_words(ds[0]);
        lemma_child_words(rest);
        let all = child_words(ds);
        let first = desc_words(ds[0]);
        assert forall|i: int| 0 <= i < all.len() implies text::is_word(#[trigger] all[i]) by {
            if i < first.len() {
                assert(all[i] == first[i]);
            } else {
                assert(all[i] == child_words(rest)[i - first.len()]);
            }
        }
    }
}

proof fn lemma_letter_number(letter: char, n: nat, max: nat)
    requires
        n <= max,
    ensures
        text::parsed((seq![letter] + text::decimal(n)).skip(1), max) == Some(n),
        (seq![letter] + text::decimal(n))[0] == letter,
{
    assert((seq![letter] + text::decimal(n)).skip(1) =~= text::decimal(n));
    text::lemma_parsed_decimal(n, max);
}

/// A layout's words, wherever they stand, read back as the layout.
proof fn lemma_desc_reads_back(front: Seq<Seq<char>>, d: DescState, rest: Seq<Seq<char>>)
    requires
        savable_desc(d),
    ensures
        desc_at(front + desc_words(d) + rest, front.len() as int) == (
            Some(d),
            (front.len() + desc_words(d).len()) as int,
        ),
    decreases d,
{
    let ws = front + desc_words(d) + rest;
    let pos = front.len() as int;
    assert(ws[pos] == desc_words(d)[0]);
    match d {
        DescState::Leaf(p) => {
            lemma_letter_number('L', p, u64::MAX as nat);
        },
        DescState::Split { axis, ratios, children } => {
            let n = children.len();
            let letter = axis_letter(axis);
            let head = seq![letter] + text::decimal(n);
            lemma_letter_number(letter, n, usize::MAX as nat);
            let from = pos + 1 + n;
            assert(ws.len() == front.len() + 1 + n + child_words(children).len() + rest.len());
            assert(from == ratios_end(ws.len() as int, pos + 1, n as int));
            assert(ws.subrange(pos + 1, from) =~= ratios);
            lemma_numbers_all(ratios);
            let before = front + seq![head] + ratios;
            assert(ws =~= before + child_words(children) + rest);
            lemma_children_read_back(before, children, rest);
        },
    }
}

proof fn lemma_children_read_back(front: Seq<Seq<char>>, ds: Seq<DescState>, rest: Seq<Seq<char>>)
    requires
        savable_descs(ds),
    ensures
        children_at(front + child_words(ds) + rest, front.len() as int, ds.len()) == (
            ds,
            (front.len() + child_words(ds).len()) as int,
        ),
    decreases ds,
{
    let ws = front + child_words(ds) + rest;
    if ds.len() == 0 {
        assert(children_at(ws, front.len() as int, 0).0 =~= ds);
    } else {
        let more = ds.subrange(1, ds.len() as int);
        let first = desc_words(ds[0]);
        assert(ws =~= front + first + (child_words(more) + rest));
        lemma_desc_reads_back(front, ds[0], child_words(more) + rest);
        assert(ws =~= (front + first) + child_words(more) + rest);
        lemma_children_read_back(front + first, more, rest);
        assert(seq![ds[0]] + more =~= ds);
    }
}

/// A short word of letters: nothing in it ends a line or cuts it.
pub open spec fn is_key(s: Seq<char>) -> bool {
    s.len() > 0 && forall|i: int| 0 <= i < s.len() ==> 'a' <= #[trigger] s[i] && s[i] <= 'z'
}

proof fn lemma_key_cuts(key: Seq<char>, rest: Seq<char>)
    requires
        is_key(key),
    ensures
        text::split_once(key + seq![' '] + rest, ' ') == Some((key, rest)),
{
    assert forall|i: int| 0 <= i < key.len() implies key[i] != ' ' by {
        assert('a' <= key[i]);
    }
    text::lemma_split_once_at(key, ' ', rest);
}

proof fn lemma_key_alone(key: Seq<char>)
    requires
        is_key(key),
    ensures
        text::split_once(key, ' ') is None,
        text::trimmed(key) == key,
        text::fits_line(key),
{
    assert forall|i: int| 0 <= i < key.len() implies key[i] != ' ' by {
        assert('a' <= key[i]);
    }
    text::lemma_find_from_unique(key, ' ', 0, key.len() as int);
    assert('a' <= key[0]);
    assert('a' <= key[key.len() - 1]);
    text::lemma_trimmed_fixed(key);
    assert forall|i: int| 0 <= i < key.len() implies key[i] != '\n' by {
        assert('a' <= key[i]);
    }
}

proof fn lemma_decimal_cuts(n: nat, rest: Seq<char>)
    ensures
        text::split_once(text::decimal(n) + seq![' '] + rest, ' ') == Some((text::decimal(n), rest)),
{
    text::lemma_decimal_is_word(n);
    assert forall|i: int| 0 <= i < text::decimal(n).len() implies text::decimal(n)[i] != ' ' by {
        assert('0' <= text::decimal(n)[i]);
    }
    text::lemma_split_once_at(text::decimal(n), ' ', rest);
}

proof fn lemma_keys()
    ensures
        is_key("focus"@),
        is_key("layout"@),
        is_key("pane"@),
        is_key("file"@),
        is_key("empty"@),
        is_key("explorer"@),
        is_key("terminal"@),
        "focus"@ != "layout"@,
        "focus"@ != "pane"@,
        "layout"@ != "pane"@,
        "empty"@ != "explorer"@,
        "empty"@ != "terminal"@,
        "explorer"@ != "terminal"@,
{
    reveal_strlit("focus");
    reveal_strlit("layout");
    reveal_strlit("pane");
    reveal_strlit("file");
    reveal_strlit("empty");
    reveal_strlit("explorer");
    reveal_strlit("terminal");
    assert("focus"@.len() != "layout"@.len());
    assert("focus"@.len() != "pane"@.len());
    assert("layout"@.len() != "pane"@.len());
    assert("empty"@.len() != "explorer"@.len());
    assert("empty"@.len() != "terminal"@.len());
    assert("explorer"@[0] != "terminal"@[0]);
}

/// Nothing ends a line inside a text put together from texts that fit one,
/// with spaces between.
proof fn lemma_fits_joined(a: Seq<char>, b: Seq<char>)
    requires
        forall|i: int| 0 <= i < a.len() ==> a[i] != '\n',
        text::fits_line(b),
    ensures
        text::fits_line(a + seq![' '] + b),
{
    let s = a + seq![' '] + b;
    assert forall|i: int| 0 <= i < s.len() implies s[i] != '\n' by {
        if i < a.len() {
            assert(s[i] == a[i]);
        } else if i > a.len() {
            assert(s[i] == b[i - a.len() - 1]);
        }
    }
    if b.len() > 0 {
        assert(s.last() == b.last());
    }
}

proof fn lemma_decimal_fits(n: nat)
    ensures
        text::fits_line(text::decimal(n)),
        text::trimmed(text::decimal(n)) == text::decimal(n),
{
    text::lemma_decimal_is_word(n);
    let s = text::decimal(n);
    assert forall|i: int| 0 <= i < s.len() implies s[i] != '\n' by {
        assert('0' <= s[i]);
    }
    assert('0' <= s[s.len() - 1]);
    assert(!text::is_white(s[0]) && !text::is_white(s[s.len() - 1]));
    text::lemma_trimmed_fixed(s);
}

proof fn lemma_spaced_fits(ws: Seq<Seq<char>>)
    requires
        forall|i: int| 0 <= i < ws.len() ==> text::is_word(#[trigger] ws[i]),
    ensures
        text::fits_line(text::spaced(ws)),
    decreases ws.len(),
{
    if ws.len() > 0 {
        let front = ws.drop_last();
        assert forall|i: int| 0 <= i < front.len() implies text::is_word(#[trigger] front[i]) by {
            assert(front[i] == ws[i]);
        }
        lemma_spaced_fits(front);
        let last = ws.last();
        assert(text::is_word(ws[ws.len() - 1]));
        let s = text::spaced(ws);
        let a = text::spaced(front);
        assert forall|i: int| 0 <= i < s.len() implies s[i] != '\n' by {
            if i < a.len() {
                assert(s[i] == a[i]);
            } else if i < a.len() + last.len() {
                assert(s[i] == last[i - a.len()]);
                assert(!text::is_white(last[i - a.len()]));
            }
        }
        assert(s.last() == ' ');
    }
}

/// A file's path, written for one root, reads back as the same path for that
/// root, and as the same place in the workspace for any other.
proof fn lemma_path_line(p: PathState, root: PathState, moved: PathState)
    requires
        savable_pane(PaneState::File(p, 0, 0), root),
        path::is_under(p, root) || stands_alone(p, moved),
    ensures
        read_path(written_path(p, root), moved) == (if path::is_under(p, root) {
            path::path_join(moved, path::below(p, root))
        } else {
            p
        }),
{
    let shown = if path::is_under(p, root) { path::below(p, root) } else { p };
    path::lemma_path_reads_back(shown);
}

/// A pane that can be read for a workspace at `moved`, though it was written
/// for one at `root`: a file outside the root stands alone there too.
pub open spec fn movable_pane(pane: PaneState, root: PathState, moved: PathState) -> bool {
    match pane {
        PaneState::File(p, line, col) => path::is_under(p, root) || stands_alone(p, moved),
        _ => true,
    }
}

/// A session of such panes.
pub open spec fn movable(s: SessionState, root: PathState, moved: PathState) -> bool {
    forall|i: int| 0 <= i < s.panes.len() ==> movable_pane((#[trigger] s.panes[i]).1, root, moved)
}

/// Where a pane's file is once the workspace has moved from `root`.
pub open spec fn moved_pane(pane: PaneState, root: PathState, moved: PathState) -> PaneState {
    match pane {
        PaneState::File(p, line, col) => PaneState::File(
            if path::is_under(p, root) { path::path_join(moved, path::below(p, root)) } else { p },
            line,
            col,
        ),
        other => other,
    }
}

proof fn lemma_pane_line(id: nat, pane: PaneState, root: PathState, moved: PathState, r: Reading)
    requires
        id <= u64::MAX,
        savable_pane(pane, root),
        movable_pane(pane, root, moved),
    ensures
        read_line(r, pane_line(id, pane, root), moved) == Some(
            Reading { panes: r.panes.push((id, moved_pane(pane, root, moved))), ..r },
        ),
        text::fits_line(pane_line(id, pane, root)),
{
    lemma_keys();
    text::lemma_parsed_decimal(id, u64::MAX as nat);
    lemma_decimal_fits(id);
    lemma_key_alone("pane"@);
    match pane {
        PaneState::File(p, line, col) => {
            let w = written_path(p, root);
            let c = text::decimal(col) + seq![' '] + w;
            let l = text::decimal(line) + seq![' '] + c;
            let what = "file"@ + seq![' '] + l;
            let rest = text::decimal(id) + seq![' '] + what;
            assert(pane_line(id, pane, root) == "pane"@ + seq![' '] + rest);
            lemma_key_cuts("pane"@, rest);
            lemma_decimal_cuts(id, what);
            lemma_key_cuts("file"@, l);
            lemma_decimal_cuts(line, c);
            lemma_decimal_cuts(col, w);
            text::lemma_parsed_decimal(line, usize::MAX as nat);
            text::lemma_parsed_decimal(col, usize::MAX as nat);
            lemma_path_line(p, root, moved);
            lemma_decimal_fits(line);
            lemma_decimal_fits(col);
            lemma_key_alone("file"@);
            lemma_fits_joined(text::decimal(col), w);
            lemma_fits_joined(text::decimal(line), c);
            lemma_fits_joined("file"@, l);
            lemma_fits_joined(text::decimal(id), what);
            lemma_fits_joined("pane"@, rest);
        },
        _ => {
            let what = match pane {
                PaneState::Empty => "empty"@,
                PaneState::Explorer => "explorer"@,
                _ => "terminal"@,
            };
            let rest = text::decimal(id) + seq![' '] + what;
            assert(pane_line(id, pane, root) == "pane"@ + seq![' '] + rest);
            lemma_key_cuts("pane"@, rest);
            lemma_decimal_cuts(id, what);
            lemma_key_alone(what);
            lemma_fits_joined(text::decimal(id), what);
            lemma_fits_joined("pane"@, rest);
        },
    }
}

proof fn lemma_pane_lines(s: SessionState, root: PathState, moved: PathState, r: Reading, k: int)
    requires
        savable(s, root),
        movable(s, root, moved),
        0 <= k <= s.panes.len(),
        r.panes == Seq::new(k as nat, |i: int| (s.panes[i].0, moved_pane(s.panes[i].1, root, moved))),
    ensures
        read_lines(r, session_lines(s, root), 3 + k, moved) == Some(
            Reading {
                panes: Seq::new(
                    s.panes.len(),
                    |i: int| (s.panes[i].0, moved_pane(s.panes[i].1, root, moved)),
                ),
                ..r
            },
        ),
    decreases s.panes.len() - k,
{
    let lines = session_lines(s, root);
    if k < s.panes.len() {
        assert(lines[3 + k] == pane_line(s.panes[k].0, s.panes[k].1, root));
        lemma_pane_line(s.panes[k].0, s.panes[k].1, root, moved, r);
        let next = Reading {
            panes: r.panes.push((s.panes[k].0, moved_pane(s.panes[k].1, root, moved))),
            ..r
        };
        assert(next.panes =~= Seq::new(
            (k + 1) as nat,
            |i: int| (s.panes[i].0, moved_pane(s.panes[i].1, root, moved)),
        ));
        lemma_pane_lines(s, root, moved, next, k + 1);
    }
}

/// The session after its workspace has moved from `root`: the files under it
/// are under the new place, everything else is as it was.
pub open spec fn moved_session(s: SessionState, root: PathState, moved: PathState) -> SessionState {
    SessionState {
        panes: Seq::new(s.panes.len(), |i: int| (s.panes[i].0, moved_pane(s.panes[i].1, root, moved))),
        ..s
    }
}

/// A session written for a workspace at `root` and read back for one at
/// `moved` is that session with the files that were under the root under the
/// new place: a renamed folder keeps its layout.
pub proof fn a_moved_workspace_keeps_its_session(s: SessionState, root: PathState, moved: PathState)
    requires
        savable(s, root),
        movable(s, root, moved),
    ensures
        read_session(text::unlines(session_lines(s, root)), moved) == Some(moved_session(s, root, moved)),
{
    lemma_keys();
    let lines = session_lines(s, root);
    let words = desc_words(s.layout);
    let start = Reading { focus: 0, layout: None, panes: Seq::empty() };
    lemma_desc_words(s.layout);
    lemma_spaced_fits(words);
    lemma_decimal_fits(s.focus);
    lemma_key_alone("focus"@);
    lemma_key_alone("layout"@);
    assert(text::fits_line(version_line())) by {
        reveal_strlit("kubide-session 1");
    }
    lemma_fits_joined("focus"@, text::decimal(s.focus));
    lemma_fits_joined("layout"@, text::spaced(words));
    assert forall|i: int| 0 <= i < lines.len() implies text::fits_line(#[trigger] lines[i]) by {
        if i >= 3 {
            assert(lines[i] == pane_line(s.panes[i - 3].0, s.panes[i - 3].1, root));
            lemma_pane_line(s.panes[i - 3].0, s.panes[i - 3].1, root, moved, start);
        }
    }
    text::lemma_lines_read_back(lines);
    lemma_key_cuts("focus"@, text::decimal(s.focus));
    text::lemma_parsed_decimal(s.focus, u64::MAX as nat);
    lemma_key_cuts("layout"@, text::spaced(words));
    text::lemma_words_read_back(words);
    lemma_desc_reads_back(Seq::empty(), s.layout, Seq::empty());
    assert(Seq::<Seq<char>>::empty() + words + Seq::<Seq<char>>::empty() =~= words);
    let r1 = Reading { focus: s.focus, ..start };
    let r2 = Reading { layout: Some(s.layout), ..r1 };
    assert(lines[1] == "focus"@ + seq![' '] + text::decimal(s.focus));
    assert(lines[2] == "layout"@ + seq![' '] + text::spaced(words));
    assert(read_line(start, lines[1], moved) == Some(r1));
    assert(read_line(r1, lines[2], moved) == Some(r2));
    assert(r2.panes =~= Seq::new(0, |i: int| (s.panes[i].0, moved_pane(s.panes[i].1, root, moved))));
    lemma_pane_lines(s, root, moved, r2, 0);
    reveal_with_fuel(read_lines, 3);
}

/// What is read of a session is what was written.
pub proof fn a_session_survives(s: SessionState, root: PathState)
    requires
        savable(s, root),
    ensures
        read_session(text::unlines(session_lines(s, root)), root) == Some(s),
{
    a_moved_workspace_keeps_its_session(s, root, root);
    assert forall|i: int| 0 <= i < s.panes.len() implies moved_session(s, root, root).panes[i] == s.panes[i] by {
        match s.panes[i].1 {
            PaneState::File(p, line, col) => {
                if path::is_under(p, root) {
                    path::lemma_below_joins_back(p, root);
                }
            },
            _ => {},
        }
    }
    assert(moved_session(s, root, root) =~= s);
}

/// Text that does not begin with the version line is never misread.
pub proof fn another_version_is_ignored(s: Seq<char>, root: PathState)
    requires
        text::lines(s).len() == 0 || text::lines(s)[0] != version_line(),
    ensures
        read_session(s, root) is None,
{
}

/// A line with a key this version does not know changes nothing, whether or
/// not anything stands behind the key.
pub proof fn unknown_lines_are_passed_over(r: Reading, key: Seq<char>, rest: Seq<char>, root: PathState)
    requires
        !key.contains(' '),
        !is_known_key(key),
    ensures
        read_line(r, key + seq![' '] + rest, root) == Some(r),
        read_line(r, key, root) == Some(r),
{
    text::lemma_split_once_at(key, ' ', rest);
    text::lemma_find_from_unique(key, ' ', 0, key.len() as int);
}

/// Every split of a layout that was read has as many ratios as children, and
/// at least one of each.
pub open spec fn is_whole(d: DescState) -> bool
    decreases d,
{
    match d {
        DescState::Leaf(_) => true,
        DescState::Split { axis, ratios, children } => {
            &&& 1 <= children.len() <= 64
            &&& ratios.len() == children.len()
            &&& are_whole(children)
        },
    }
}

/// Layouts each of which is whole.
pub open spec fn are_whole(ds: Seq<DescState>) -> bool
    decreases ds,
{
    ds.len() > 0 ==> is_whole(ds[0]) && are_whole(ds.subrange(1, ds.len() as int))
}

/// A truncated layout is never taken for a smaller one: what is read has all
/// its ratios and all its children, at every depth.
pub proof fn what_is_read_is_whole(ws: Seq<Seq<char>>, pos: int)
    requires
        0 <= pos <= ws.len(),
    ensures
        match desc_at(ws, pos).0 {
            Some(d) => is_whole(d),
            None => true,
        },
    decreases ws.len() - pos, 0nat,
{
    if pos < ws.len() {
        let w = ws[pos];
        if w.len() > 0 && (w[0] == 'H' || w[0] == 'V') {
            match text::parsed(w.skip(1), usize::MAX as nat) {
                Some(count) => {
                    if !(count == 0 || count > 64) {
                        lemma_children_are_whole(ws, ratios_end(ws.len() as int, pos + 1, count as int), count);
                    }
                },
                None => {},
            }
        }
    }
}

proof fn lemma_children_are_whole(ws: Seq<Seq<char>>, pos: int, count: nat)
    requires
        0 <= pos <= ws.len(),
    ensures
        are_whole(children_at(ws, pos, count).0),
    decreases ws.len() - pos, count + 1,
{
    if count > 0 {
        what_is_read_is_whole(ws, pos);
        lemma_desc_at_bounds(ws, pos);
        let (first, next) = desc_at(ws, pos);
        lemma_children_are_whole(ws, next, (count - 1) as nat);
        let rest = children_at(ws, next, (count - 1) as nat).0;
        match first {
            Some(d) => {
                let all = seq![d] + rest;
                assert(all.subrange(1, all.len() as int) =~= rest);
            },
            None => {},
        }
    }
}

/// A layout is written from the outside in: a pane as its number, a split as
/// its direction and how many it has, then their shares, then each of them.
pub proof fn a_layout_is_written_from_the_outside_in(p: nat, ratios: Seq<Seq<char>>, a: DescState, b: DescState)
    ensures
        desc_words(DescState::Leaf(p)) == seq![seq!['L'] + text::decimal(p)],
        desc_words(DescState::Split { axis: Axis::Horizontal, ratios, children: seq![a, b] }) == seq![
            seq!['H'] + text::decimal(2),
        ] + ratios + (desc_words(a) + desc_words(b)),
        desc_words(DescState::Split { axis: Axis::Vertical, ratios, children: seq![a, b] }) == seq![
            seq!['V'] + text::decimal(2),
        ] + ratios + (desc_words(a) + desc_words(b)),
{
    let two = seq![a, b];
    let one = seq![b];
    assert(two.subrange(1, 2) =~= one);
    assert(one.subrange(1, 1) =~= Seq::<DescState>::empty());
    assert(child_words(Seq::<DescState>::empty()) =~= Seq::<Seq<char>>::empty());
    assert(child_words(one) =~= desc_words(b));
    assert(child_words(two) =~= desc_words(a) + desc_words(b));
}

/// A session is worth bringing back as soon as one of its panes shows a file
/// or a shell, and not for a tree alone.
pub proof fn a_session_with_work_in_it_is_kept(s: SessionState, i: int)
    requires
        0 <= i < s.panes.len(),
    ensures
        s.panes[i].1 is File || s.panes[i].1 is Terminal ==> worth_keeping(s),
        (forall|k: int| 0 <= k < s.panes.len() ==> (#[trigger] s.panes[k]).1 is Empty || s.panes[k].1 is Explorer)
            ==> !worth_keeping(s),
{
}

/// A file is written as it lies under the folder, and whole where it lies
/// elsewhere.
pub proof fn a_file_is_written_from_the_folder(p: PathState, root: PathState)
    ensures
        written_path(PathState { root: root.root, parts: root.parts + p.parts }, root) == path::path_text(
            PathState { root: Seq::empty(), parts: p.parts },
        ),
        p.root != root.root ==> written_path(p, root) == path::path_text(p),
{
    let whole = PathState { root: root.root, parts: root.parts + p.parts };
    assert(whole.parts.take(root.parts.len() as int) =~= root.parts);
    assert(whole.parts.skip(root.parts.len() as int) =~= p.parts);
}

proof fn lemma_digits_end(s: Seq<char>, i: int, e: int)
    requires
        0 <= i <= e <= s.len(),
        forall|k: int| i <= k < e ==> '0' <= #[trigger] s[k] && s[k] <= '9',
        e < s.len() ==> !('0' <= s[e] && s[e] <= '9'),
    ensures
        digits_end(s, i) == e,
    decreases e - i,
{
    if i < e {
        assert('0' <= s[i] && s[i] <= '9');
        lemma_digits_end(s, i + 1, e);
    }
}

/// A share is a number as it is written: digits, with a point among them or
/// without one.
pub proof fn digits_with_a_point_are_a_number(a: Seq<char>, b: Seq<char>)
    requires
        a.len() > 0,
        forall|k: int| 0 <= k < a.len() ==> '0' <= #[trigger] a[k] && a[k] <= '9',
        forall|k: int| 0 <= k < b.len() ==> '0' <= #[trigger] b[k] && b[k] <= '9',
    ensures
        is_number(a),
        is_number(a + seq!['.'] + b),
        is_number(seq!['-'] + a),
        !is_number(Seq::empty()),
        !is_number(seq!['.']),
{
    lemma_digits_end(a, 0, a.len() as int);
    assert('0' <= a[0] && a[0] <= '9');
    let s = a + seq!['.'] + b;
    assert forall|k: int| 0 <= k < a.len() implies '0' <= #[trigger] s[k] && s[k] <= '9' by {
        assert(s[k] == a[k]);
    }
    assert(s[a.len() as int] == '.');
    lemma_digits_end(s, 0, a.len() as int);
    assert forall|k: int| a.len() < k < s.len() implies '0' <= #[trigger] s[k] && s[k] <= '9' by {
        assert(s[k] == b[k - a.len() - 1]);
    }
    lemma_digits_end(s, a.len() as int + 1, s.len() as int);
    assert(s[0] == a[0]);
    let n = seq!['-'] + a;
    assert(n.skip(1) =~= a);
    reveal_strlit("inf");
    reveal_strlit("infinity");
    reveal_strlit("nan");
    let e = Seq::<char>::empty();
    assert(digits_end(e, 0) == 0);
    let dot = seq!['.'];
    lemma_digits_end(dot, 0, 0);
    lemma_digits_end(dot, 1, 1);
}

} // verus!
