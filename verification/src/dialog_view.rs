//! What the open-folder dialog shows: the navigation corner, the address bar,
//! the search box, the rail of places, the listing under its columns, and the
//! footer. Positions in pixels are the renderer's; which texts and marks
//! there are, and how they give way when the box gets narrow, is decided
//! here. Widths come in whole units of the renderer's choosing.
use vstd::prelude::*;
use vstd::string::*;
use crate::dialog::{Dialog, DialogState};
use crate::folders;
use crate::folders::{Row, RowState};
use crate::path;
use crate::path::{Path, PathState};
use crate::places;
use crate::text;
use crate::text::{chars_of, decimal_text, joined, joined3, slice_text};

verus! {

/// How strongly a text is drawn.
#[derive(Clone, Copy, Debug, PartialEq, Eq, Structural)]
pub enum Ink {
    Full,
    Dim,
    Faint,
}

// ----------------------------------------------------------- the toolbar

/// The three arrows, and whether each leads anywhere.
pub open spec fn arrow_marks(glyphs: bool, back: bool, forward: bool, up: bool) -> Seq<(Seq<char>, bool)> {
    if glyphs {
        seq![("\u{2190}"@, back), ("\u{2192}"@, forward), ("\u{2191}"@, up)]
    } else {
        seq![("<"@, back), (">"@, forward), ("^"@, up)]
    }
}

/// The marks of a list as values.
pub open spec fn mark_list(s: Seq<(&'static str, bool)>) -> Seq<(Seq<char>, bool)> {
    Seq::new(s.len(), |i: int| (s[i].0@, s[i].1))
}

pub fn arrows(glyphs: bool, back: bool, forward: bool, up: bool) -> (r: Vec<(&'static str, bool)>)
    ensures
        mark_list(r@) == arrow_marks(glyphs, back, forward, up),
{
    let mut out: Vec<(&'static str, bool)> = Vec::new();
    if glyphs {
        out.push(("\u{2190}", back));
        out.push(("\u{2192}", forward));
        out.push(("\u{2191}", up));
    } else {
        out.push(("<", back));
        out.push((">", forward));
        out.push(("^", up));
    }
    assert(mark_list(out@) =~= arrow_marks(glyphs, back, forward, up));
    out
}

/// How wide the segments from `k` on are, with separators between them.
pub open spec fn span_from(widths: Seq<u32>, sep: u32, k: int) -> nat
    decreases widths.len() - k,
{
    if k < 0 || k >= widths.len() {
        0
    } else if k + 1 == widths.len() {
        widths[k] as nat
    } else {
        widths[k] as nat + sep as nat + span_from(widths, sep, k + 1)
    }
}

/// The first segment that is shown: cut from the left until the rest fits,
/// because the segments that matter are where one stands. The last one always
/// stays.
pub open spec fn first_shown(widths: Seq<u32>, sep: u32, room: nat, k: int) -> int
    decreases widths.len() - k,
{
    if k < 0 || k + 1 >= widths.len() || span_from(widths, sep, k) <= room {
        k
    } else {
        first_shown(widths, sep, room, k + 1)
    }
}

pub fn crumbs_from(widths: &Vec<u32>, sep: u32, room: u32) -> (r: usize)
    ensures
        r == first_shown(widths@, sep, room as nat, 0),
{
    let n: usize = widths.len();
    // The width of what is left from each segment on, worked out from the
    // right.
    let mut spans: Vec<u128> = Vec::new();
    let mut i: usize = 0;
    while i < n
        invariant
            i <= n,
            n == widths@.len(),
            spans.len() == i,
            forall|j: int|
                0 <= j < i ==> #[trigger] spans@[j] == span_from(widths@, sep, n - 1 - j) && spans@[j] <= (j
                    + 1) * 0x2_0000_0000,
        decreases n - i,
    {
        let w: u128 = widths[n - 1 - i] as u128;
        let s: u128 = if i == 0 {
            w
        } else {
            assert(spans@[i - 1] == span_from(widths@, sep, n - 1 - (i - 1)));
            w + sep as u128 + spans[i - 1]
        };
        spans.push(s);
        i = i + 1;
    }
    let mut k: usize = 0;
    while k + 1 < n && spans[n - 1 - k] > room as u128
        invariant
            n == widths@.len(),
            spans@.len() == n,
            n > 0 ==> k < n,
            n == 0 ==> k == 0,
            forall|j: int| 0 <= j < n ==> #[trigger] spans@[j] == span_from(widths@, sep, n - 1 - j),
            first_shown(widths@, sep, room as nat, 0) == first_shown(widths@, sep, room as nat, k as int),
        decreases n - k,
    {
        assert(spans@[n - 1 - k] == span_from(widths@, sep, k as int));
        k = k + 1;
    }
    if k + 1 < n {
        assert(spans@[n - 1 - k] == span_from(widths@, sep, k as int));
    }
    k
}

/// What is shown fits, unless a single segment alone does not.
pub proof fn what_is_shown_fits(widths: Seq<u32>, sep: u32, room: nat, k: int)
    requires
        0 <= k < widths.len(),
    ensures
        ({
            let first = first_shown(widths, sep, room, k);
            &&& k <= first < widths.len()
            &&& span_from(widths, sep, first) <= room || first + 1 == widths.len()
        }),
    decreases widths.len() - k,
{
    if !(k + 1 >= widths.len() || span_from(widths, sep, k) <= room) {
        what_is_shown_fits(widths, sep, room, k + 1);
    }
}

/// The first character of the typed address that is shown: cut from the left
/// while it overflows, because the end of a path is the part being typed.
/// `widths[k]` is the width of the text from character `k` on.
pub open spec fn tail_from(widths: Seq<u32>, room: nat, k: int) -> int
    decreases widths.len() - k,
{
    if k < 0 || k + 1 >= widths.len() || widths[k] <= room {
        k
    } else {
        tail_from(widths, room, k + 1)
    }
}

/// The typed address as far as it fits.
pub open spec fn address_tail(a: Seq<char>, widths: Seq<u32>, room: nat) -> Seq<char> {
    a.skip(tail_from(widths, room, 0))
}

pub fn shown_address(a: &str, widths: &Vec<u32>, room: u32) -> (r: String)
    requires
        widths@.len() == a@.len(),
    ensures
        r@ == address_tail(a@, widths@, room as nat),
{
    let v: Vec<char> = chars_of(a);
    let n: usize = v.len();
    let mut k: usize = 0;
    while k + 1 < n && widths[k] > room
        invariant
            n == widths@.len(),
            n > 0 ==> k < n,
            n == 0 ==> k == 0,
            tail_from(widths@, room as nat, 0) == tail_from(widths@, room as nat, k as int),
        decreases n - k,
    {
        k = k + 1;
    }
    assert(a@.skip(k as int) =~= v@.subrange(k as int, n as int));
    slice_text(&v, k, n)
}

/// What the search box says, and whether anything has been typed into it.
pub open spec fn search_text(filter: Seq<char>, dir: Seq<char>) -> (Seq<char>, bool) {
    if filter.len() == 0 { ("search "@ + dir, false) } else { (filter, true) }
}

pub fn search_box(filter: &str, dir: &str) -> (r: (String, bool))
    ensures
        (r.0@, r.1) == search_text(filter@, dir@),
{
    if filter.unicode_len() == 0 {
        (joined("search ", dir), false)
    } else {
        (filter.to_owned(), true)
    }
}

/// What stands between two segments of the address bar.
pub fn crumb_separator(plain: bool) -> (r: &'static str)
    ensures
        r@ == (if plain { " > "@ } else { " \u{203a} "@ }),
{
    if plain { " > " } else { " \u{203a} " }
}

// --------------------------------------------------------------- the rail

/// One line of the rail: a group's title, or a place.
#[derive(Debug)]
pub struct RailRow {
    pub label: String,
    /// Where it leads; the titles are furniture, not places.
    pub place: Option<Path>,
    /// Whether it is the folder being browsed.
    pub here: bool,
}

/// A line of the rail as a value.
pub struct RailState {
    pub label: Seq<char>,
    pub place: Option<PathState>,
    pub here: bool,
}

impl View for RailRow {
    type V = RailState;

    open spec fn view(&self) -> RailState {
        RailState {
            label: self.label@,
            place: match self.place {
                Some(p) => Some(p@),
                None => None,
            },
            here: self.here,
        }
    }
}

/// The lines of a rail as values.
pub open spec fn rail_list(s: Seq<RailRow>) -> Seq<RailState> {
    Seq::new(s.len(), |i: int| s[i]@)
}

/// The label at an index, or nothing where there is none.
pub open spec fn label_at(labels: Seq<Seq<char>>, i: int) -> Seq<char> {
    if 0 <= i < labels.len() { labels[i] } else { Seq::empty() }
}

/// How many places of a group have room under its title.
pub open spec fn places_shown(n: nat, room: nat) -> nat {
    if room == 0 {
        0
    } else if n <= room - 1 {
        n
    } else {
        (room - 1) as nat
    }
}

/// One group: its title, then its places, as far as there is room. `at` is
/// where its labels start in the whole rail's.
pub open spec fn group_rows(
    title: Seq<char>,
    group: Seq<PathState>,
    labels: Seq<Seq<char>>,
    at: int,
    current: PathState,
    room: nat,
) -> Seq<RailState> {
    if group.len() == 0 || room == 0 {
        Seq::empty()
    } else {
        seq![RailState { label: title, place: None, here: false }] + Seq::new(
            places_shown(group.len(), room),
            |i: int|
                RailState {
                    label: label_at(labels, at + i),
                    place: Some(group[i]),
                    here: group[i] == current,
                },
        )
    }
}

/// The rail: quick access, recents, drives, in that order. The labels are
/// those of the whole rail, since only a view of all of it can tell two
/// places of one name apart.
pub open spec fn rail_rows(
    quick: Seq<PathState>,
    recents: Seq<PathState>,
    drives: Seq<PathState>,
    labels: Seq<Seq<char>>,
    current: PathState,
    room: nat,
) -> Seq<RailState> {
    let a = group_rows("quick access"@, quick, labels, 0, current, room);
    let b = group_rows(
        "recent"@,
        recents,
        labels,
        quick.len() as int,
        current,
        (room - a.len()) as nat,
    );
    let c = group_rows(
        "this pc"@,
        drives,
        labels,
        (quick.len() + recents.len()) as int,
        current,
        (room - a.len() - b.len()) as nat,
    );
    a + b + c
}

fn push_group(out: &mut Vec<RailRow>, title: &str, group: &Vec<Path>, labels: &Vec<String>, at: usize, current: &Path, room: usize)
    requires
        old(out)@.len() <= room,
        at + group@.len() <= usize::MAX,
    ensures
        rail_list(final(out)@) == rail_list(old(out)@) + group_rows(
            title@,
            places::path_list(group@),
            text::texts(labels@),
            at as int,
            current@,
            (room - old(out)@.len()) as nat,
        ),
        final(out)@.len() <= room,
{
    let ghost before = rail_list(out@);
    let ghost whole = group_rows(
        title@,
        places::path_list(group@),
        text::texts(labels@),
        at as int,
        current@,
        (room - out@.len()) as nat,
    );
    if group.len() == 0 || out.len() >= room {
        assert(before + whole =~= before);
        return;
    }
    let left: usize = room - out.len() - 1;
    let n: usize = if group.len() <= left { group.len() } else { left };
    let head: RailRow = RailRow { label: title.to_owned(), place: None, here: false };
    out.push(head);
    assert(rail_list(out@) =~= before + whole.take(1));
    let mut i: usize = 0;
    while i < n
        invariant
            i <= n,
            n <= group.len(),
            at + group@.len() <= usize::MAX,
            whole.len() == n + 1,
            out@.len() == before.len() + 1 + i,
            rail_list(out@) == before + whole.take(1 + i),
            whole == group_rows(
                title@,
                places::path_list(group@),
                text::texts(labels@),
                at as int,
                current@,
                (room - before.len()) as nat,
            ),
        decreases n - i,
    {
        let ghost done = rail_list(out@);
        assert(places::path_list(group@)[i as int] == group@[i as int]@);
        let label: String = if at + i < labels.len() {
            assert(text::texts(labels@)[at + i] == labels@[at + i]@);
            labels[at + i].clone()
        } else {
            let none: String = String::new();
            assert(none@ =~= Seq::<char>::empty());
            none
        };
        let row: RailRow = RailRow {
            label,
            place: Some(group[i].dup()),
            here: group[i].same(current),
        };
        assert(row@ == whole[1 + i]);
        out.push(row);
        proof {
            assert(rail_list(out@) =~= done.push(row@));
            assert(rail_list(out@) =~= before + whole.take(1 + i + 1));
        }
        i = i + 1;
    }
    assert(whole.take(1 + n) =~= whole);
}

pub fn rail(quick: &Vec<Path>, recents: &Vec<Path>, drives: &Vec<Path>, labels: &Vec<String>, current: &Path, room: usize) -> (r:
    Vec<RailRow>)
    requires
        quick@.len() + recents@.len() + drives@.len() <= usize::MAX,
    ensures
        rail_list(r@) == rail_rows(
            places::path_list(quick@),
            places::path_list(recents@),
            places::path_list(drives@),
            text::texts(labels@),
            current@,
            room as nat,
        ),
{
    let mut out: Vec<RailRow> = Vec::new();
    assert(rail_list(out@) =~= Seq::empty());
    push_group(&mut out, "quick access", quick, labels, 0, current, room);
    assert(rail_list(out@).len() == out@.len());
    push_group(&mut out, "recent", recents, labels, quick.len(), current, room);
    assert(rail_list(out@).len() == out@.len());
    push_group(&mut out, "this pc", drives, labels, quick.len() + recents.len(), current, room);
    assert(rail_list(out@) =~= rail_rows(
        places::path_list(quick@),
        places::path_list(recents@),
        places::path_list(drives@),
        text::texts(labels@),
        current@,
        room as nat,
    ));
    out
}

/// The rail never runs past the room it has.
pub proof fn the_rail_stays_in_its_room(
    quick: Seq<PathState>,
    recents: Seq<PathState>,
    drives: Seq<PathState>,
    labels: Seq<Seq<char>>,
    current: PathState,
    room: nat,
)
    ensures
        rail_rows(quick, recents, drives, labels, current, room).len() <= room,
{
}

// ------------------------------------------------------------- the columns

/// Which columns there are, and where each starts, in cells from the right
/// edge.
#[derive(Clone, Copy, Debug, PartialEq, Eq, Structural)]
pub struct Columns {
    pub stamp: Option<u32>,
    pub kind: Option<u32>,
    pub size: Option<u32>,
    /// How many cells the columns beside the name take.
    pub taken: u32,
}

/// The columns give way from the right when the box gets narrow: the name is
/// the one that can never go. A date takes 17 cells, a type 8, a size 9, with
/// two between any two.
pub open spec fn columns_in(area: nat, cell: nat) -> Columns {
    let size: u32 = if area > 51 * cell { 11 } else { 0 };
    let kind: u32 = if area > 43 * cell { 10 } else { 0 };
    let stamp: u32 = if area > 24 * cell { 19 } else { 0 };
    Columns {
        size: if size > 0 { Some(9) } else { None },
        kind: if kind > 0 { Some((size + 8) as u32) } else { None },
        stamp: if stamp > 0 { Some((size + kind + 17) as u32) } else { None },
        taken: (size + kind + stamp) as u32,
    }
}

pub fn columns(area: u32, cell: u32) -> (r: Columns)
    ensures
        r == columns_in(area as nat, cell as nat),
{
    let a: u64 = area as u64;
    let c: u64 = cell as u64;
    let size: u32 = if a > 51 * c { 11 } else { 0 };
    let kind: u32 = if a > 43 * c { 10 } else { 0 };
    let stamp: u32 = if a > 24 * c { 19 } else { 0 };
    Columns {
        size: if size > 0 { Some(9) } else { None },
        kind: if kind > 0 { Some(size + 8) } else { None },
        stamp: if stamp > 0 { Some(size + kind + 17) } else { None },
        taken: size + kind + stamp,
    }
}

/// A column is only ever dropped after those to its right, and the name
/// always keeps room.
pub proof fn the_name_can_never_go(area: nat, cell: nat)
    requires
        cell > 0,
    ensures
        ({
            let c = columns_in(area, cell);
            &&& c.size is Some ==> c.kind is Some
            &&& c.kind is Some ==> c.stamp is Some
            &&& c.taken > 0 ==> area > (c.taken + 4) * cell
        }),
{
    let c = columns_in(area, cell);
    if c.taken > 0 {
        assert((c.taken + 4) * cell <= area - 1) by (nonlinear_arith)
            requires
                c.taken == 40 ==> area > 51 * cell,
                c.taken == 29 ==> area > 43 * cell,
                c.taken == 19 ==> area > 24 * cell,
                c.taken == 40 || c.taken == 29 || c.taken == 19,
        ;
    }
}

/// How many characters of a name fit beside its mark and two spaces, with one
/// cell to spare.
pub open spec fn name_room(area: nat, cell: nat) -> nat {
    let cells = (if cell == 0 { 0 } else { (area / cell) as int }) - columns_in(area, cell).taken - 4;
    if cells < 0 { 0 } else { cells as nat }
}

pub fn name_cells(area: u32, cell: u32) -> (r: usize)
    ensures
        r == name_room(area as nat, cell as nat),
{
    let c: Columns = columns(area, cell);
    let cells: u32 = if cell == 0 { 0 } else { area / cell };
    if cells < c.taken + 4 { 0 } else { (cells - c.taken - 4) as usize }
}

// -------------------------------------------------------------- the listing

/// A name cut to `n` characters; one that is longer ends in an ellipsis.
pub open spec fn cut_name(name: Seq<char>, n: nat) -> Seq<char> {
    if name.len() <= n {
        name
    } else if n == 0 {
        "\u{2026}"@
    } else {
        name.take(n - 1) + "\u{2026}"@
    }
}

fn cut_to(name: &str, n: usize) -> (r: String)
    ensures
        r@ == cut_name(name@, n as nat),
{
    let v: Vec<char> = chars_of(name);
    if v.len() <= n {
        name.to_owned()
    } else if n == 0 {
        "\u{2026}".to_owned()
    } else {
        let head: String = slice_text(&v, 0, n - 1);
        assert(head@ =~= name@.take(n - 1));
        joined(head.as_str(), "\u{2026}")
    }
}

/// The matched letters of a name and where they stand, up to the first that
/// was cut off.
pub open spec fn lit_letters(name: Seq<char>, hits: Seq<usize>, room: nat, k: int) -> Seq<(usize, char)>
    decreases hits.len() - k,
{
    if k < 0 || k >= hits.len() || hits[k] >= room {
        Seq::empty()
    } else if hits[k] < name.len() {
        seq![(hits[k], name[hits[k] as int])] + lit_letters(name, hits, room, k + 1)
    } else {
        lit_letters(name, hits, room, k + 1)
    }
}

fn lit(name: &str, hits: &Vec<usize>, room: usize) -> (r: Vec<(usize, char)>)
    ensures
        r@ == lit_letters(name@, hits@, room as nat, 0),
{
    let v: Vec<char> = chars_of(name);
    let mut out: Vec<(usize, char)> = Vec::new();
    let ghost whole = lit_letters(name@, hits@, room as nat, 0);
    let mut k: usize = 0;
    assert(out@ + lit_letters(name@, hits@, room as nat, 0) =~= whole);
    while k < hits.len() && hits[k] < room
        invariant
            k <= hits.len(),
            v@ == name@,
            out@ + lit_letters(name@, hits@, room as nat, k as int) == whole,
        decreases hits.len() - k,
    {
        let p: usize = hits[k];
        if p < v.len() {
            let ghost before = out@;
            let ghost rest = lit_letters(name@, hits@, room as nat, k + 1);
            out.push((p, v[p]));
            assert(out@ + rest =~= before + (seq![(p, name@[p as int])] + rest));
        }
        k = k + 1;
    }
    assert(out@ =~= whole);
    out
}

/// One row of the listing as it is drawn.
#[derive(Debug)]
pub struct ListRow {
    pub text: String,
    /// The matched letters and their column, the mark before the name
    /// included.
    pub lit: Vec<(usize, char)>,
    pub picked: bool,
    pub ink: Ink,
    pub modified: Option<String>,
    pub kind: Option<String>,
    pub size: Option<String>,
}

/// A row of the listing as a value.
pub struct ListState {
    pub text: Seq<char>,
    pub lit: Seq<(usize, char)>,
    pub picked: bool,
    pub ink: Ink,
    pub modified: Option<Seq<char>>,
    pub kind: Option<Seq<char>>,
    pub size: Option<Seq<char>>,
}

/// An optional string as a value.
pub open spec fn opt_text(s: Option<String>) -> Option<Seq<char>> {
    match s {
        Some(t) => Some(t@),
        None => None,
    }
}

impl View for ListRow {
    type V = ListState;

    open spec fn view(&self) -> ListState {
        ListState {
            text: self.text@,
            lit: self.lit@,
            picked: self.picked,
            ink: self.ink,
            modified: opt_text(self.modified),
            kind: opt_text(self.kind),
            size: opt_text(self.size),
        }
    }
}

/// A column's text, when the column is there and has one.
pub open spec fn cell_text(shown: bool, t: Seq<char>) -> Option<Seq<char>> {
    if shown && t.len() > 0 { Some(t) } else { None }
}

fn cell_of(shown: bool, t: &String) -> (r: Option<String>)
    ensures
        opt_text(r) == cell_text(shown, t@),
{
    if shown && t.as_str().unicode_len() > 0 { Some(t.clone()) } else { None }
}

/// A row as it is drawn: folders a shade back from what is picked, files a
/// shade back from folders.
pub open spec fn list_row(row: RowState, hits: Seq<usize>, glyph: Seq<char>, picked: bool, room: nat, c: Columns) -> ListState {
    ListState {
        text: glyph + "  "@ + cut_name(row.name, room),
        lit: lit_letters(row.name, hits, room, 0),
        picked,
        ink: if picked {
            Ink::Full
        } else if row.is_dir {
            Ink::Dim
        } else {
            Ink::Faint
        },
        modified: cell_text(c.stamp is Some, row.modified),
        kind: cell_text(c.kind is Some, row.kind),
        size: cell_text(c.size is Some, row.size),
    }
}

pub fn listed(row: &Row, hits: &Vec<usize>, glyph: &str, picked: bool, room: usize, c: Columns) -> (r: ListRow)
    ensures
        r@ == list_row(row@, hits@, glyph@, picked, room as nat, c),
{
    let name: String = cut_to(row.name.as_str(), room);
    ListRow {
        text: joined3(glyph, "  ", name.as_str()),
        lit: lit(row.name.as_str(), hits, room),
        picked,
        ink: if picked {
            Ink::Full
        } else if row.is_dir {
            Ink::Dim
        } else {
            Ink::Faint
        },
        modified: cell_of(c.stamp.is_some(), &row.modified),
        kind: cell_of(c.kind.is_some(), &row.kind),
        size: cell_of(c.size.is_some(), &row.size),
    }
}

// -------------------------------------------------------------- the whole

/// What the renderer brings: how much fits, in its own units, and the marks
/// of its font.
#[derive(Debug)]
pub struct Look {
    /// Whether the font has arrows.
    pub arrows: bool,
    /// How many rows fit the listing.
    pub rows: usize,
    /// How many lines fit the rail.
    pub rail: usize,
    /// The width of the listing, and of one cell.
    pub area: u32,
    pub cell: u32,
    /// The rail's labels, over all of it.
    pub labels: Vec<String>,
    /// The mark of each drawn row.
    pub glyphs: Vec<String>,
}

/// The dialog as it is drawn.
#[derive(Debug)]
pub struct Drawn {
    pub arrows: Vec<(&'static str, bool)>,
    pub search: String,
    pub searching: bool,
    pub rail: Vec<RailRow>,
    pub columns: Columns,
    pub rows: Vec<ListRow>,
    /// Said in place of rows.
    pub empty: Option<&'static str>,
    /// Said under the rows.
    pub more: Option<String>,
    /// What the button will answer with.
    pub field: String,
}

/// The rows drawn as values.
pub open spec fn shown_rows(s: Seq<ListRow>) -> Seq<ListState> {
    Seq::new(s.len(), |i: int| s[i]@)
}

/// Which drawn row is picked.
pub open spec fn picked_row(m: folders::PickerState) -> Option<usize> {
    match m.selected {
        Some(s) => if s >= m.top { Some((s - m.top) as usize) } else { None },
        None => None,
    }
}

/// How many matches lie below what is drawn.
pub open spec fn more_below(len: nat, top: nat, drawn: nat) -> nat {
    if len <= top + drawn { 0 } else { (len - top - drawn) as nat }
}

/// Said under a list that goes on.
pub open spec fn more_text(more: nat) -> Option<Seq<char>> {
    if more == 0 {
        None
    } else {
        Some("\u{2026} "@ + text::decimal(more) + " more \u{2014} type to narrow"@)
    }
}

/// The name of what the button will answer with: a drive root has no name of
/// its own, so it borrows the label of the folder browsed.
pub open spec fn field_text(chosen: PathState, label: Seq<char>) -> Seq<char> {
    match path::path_name(chosen) {
        Some(n) => n,
        None => label,
    }
}

/// The label of the folder the dialog stands in.
pub open spec fn here_label(m: DialogState) -> Seq<char> {
    folders::crumb_name(m.picker.dir)
}

/// What the dialog shows, part by part.
pub open spec fn is_drawn(r: Drawn, m: DialogState, look: Look) -> bool {
    let p = m.picker;
    let rows = folders::drawn(p, p.top as int, folders::drawn_end(p, look.rows as nat));
    let cols = columns_in(look.area as nat, look.cell as nat);
    &&& mark_list(r.arrows@) == arrow_marks(
        look.arrows,
        p.at > 0,
        p.at + 1 < p.history.len(),
        path::path_parent(p.dir) is Some,
    )
    &&& (r.search@, r.searching) == search_text(p.filter, here_label(m))
    &&& rail_list(r.rail@) == rail_rows(
        p.quick,
        p.recents,
        p.drives,
        text::texts(look.labels@),
        p.dir,
        look.rail as nat,
    )
    &&& r.columns == cols
    &&& shown_rows(r.rows@) == Seq::new(
        rows.len(),
        |i: int|
            list_row(
                rows[i].0,
                rows[i].1,
                label_at(text::texts(look.glyphs@), i),
                picked_row(p) == Some(i as usize),
                name_room(look.area as nat, look.cell as nat),
                cols,
            ),
    )
    &&& match r.empty {
        Some(t) => rows.len() == 0 && t@ == (if p.filter.len() == 0 {
            "this folder is empty"@
        } else {
            "no match"@
        }),
        None => rows.len() > 0,
    }
    &&& opt_text(r.more) == more_text(more_below(p.matches.len(), p.top as nat, rows.len()))
    &&& r.field@ == field_text(folders::answer(p), here_label(m))
}

fn list_rows(d: &Dialog, look: &Look, c: Columns) -> (r: Vec<ListRow>)
    requires
        c == columns_in(look.area as nat, look.cell as nat),
    ensures
        ({
            let p = d@.picker;
            let rows = folders::drawn(p, p.top as int, folders::drawn_end(p, look.rows as nat));
            shown_rows(r@) == Seq::new(
                rows.len(),
                |i: int|
                    list_row(
                        rows[i].0,
                        rows[i].1,
                        label_at(text::texts(look.glyphs@), i),
                        picked_row(p) == Some(i as usize),
                        name_room(look.area as nat, look.cell as nat),
                        c,
                    ),
            )
        }),
{
    let rows: Vec<(Row, Vec<usize>)> = d.picker.rows(look.rows);
    let picked: Option<usize> = d.picker.selected_row();
    let room: usize = name_cells(look.area, look.cell);
    let ghost all = folders::drawn_list(rows@);
    let ghost want = Seq::new(
        all.len(),
        |i: int|
            list_row(
                all[i].0,
                all[i].1,
                label_at(text::texts(look.glyphs@), i),
                picked_row(d@.picker) == Some(i as usize),
                name_room(look.area as nat, look.cell as nat),
                c,
            ),
    );
    let mut out: Vec<ListRow> = Vec::new();
    let mut i: usize = 0;
    while i < rows.len()
        invariant
            i <= rows.len(),
            out.len() == i,
            all == folders::drawn_list(rows@),
            want.len() == all.len(),
            room == name_room(look.area as nat, look.cell as nat),
            picked == picked_row(d@.picker),
            forall|k: int|
                0 <= k < all.len() ==> #[trigger] want[k] == list_row(
                    all[k].0,
                    all[k].1,
                    label_at(text::texts(look.glyphs@), k),
                    picked_row(d@.picker) == Some(k as usize),
                    name_room(look.area as nat, look.cell as nat),
                    c,
                ),
            forall|k: int| 0 <= k < i ==> (#[trigger] out@[k])@ == want[k],
        decreases rows.len() - i,
    {
        assert(all[i as int] == (rows@[i as int].0@, rows@[i as int].1@));
        let is_picked: bool = match picked {
            Some(s) => s == i,
            None => false,
        };
        let glyph: &str = if i < look.glyphs.len() {
            assert(text::texts(look.glyphs@)[i as int] == look.glyphs@[i as int]@);
            look.glyphs[i].as_str()
        } else {
            proof {
                reveal_strlit("");
                assert(""@ =~= Seq::<char>::empty());
            }
            ""
        };
        let one: ListRow = listed(&rows[i].0, &rows[i].1, glyph, is_picked, room, c);
        assert(want[i as int] == one@);
        out.push(one);
        i = i + 1;
    }
    assert(shown_rows(out@) =~= want);
    out
}

/// The dialog as it is drawn.
pub fn drawn(d: &Dialog, look: &Look) -> (r: Drawn)
    requires
        d.picker.quick@.len() + d.picker.recents@.len() + d.picker.drives@.len() <= usize::MAX,
    ensures
        is_drawn(r, d@, *look),
{
    let p = &d.picker;
    let up: bool = p.dir.parent().is_some();
    let label: String = folders::crumb_label(&p.dir);
    let cols: Columns = columns(look.area, look.cell);
    let rows: Vec<ListRow> = list_rows(d, look, cols);
    assert(shown_rows(rows@).len() == rows@.len());
    let (search, searching): (String, bool) = search_box(p.filter.as_str(), label.as_str());
    let empty: Option<&'static str> = if rows.len() > 0 {
        None
    } else if searching {
        Some("no match")
    } else {
        Some("this folder is empty")
    };
    let total: usize = p.len();
    let below: usize = if total <= p.top || total - p.top <= rows.len() {
        0
    } else {
        total - p.top - rows.len()
    };
    let more: Option<String> = if below == 0 {
        None
    } else {
        let n: String = decimal_text(below as u64);
        Some(joined3("\u{2026} ", n.as_str(), " more \u{2014} type to narrow"))
    };
    let chosen: Path = p.chosen();
    let field: String = match chosen.file_name() {
        Some(n) => n,
        None => label,
    };
    Drawn {
        arrows: arrows(look.arrows, p.can_back(), p.can_forward(), up),
        search,
        searching,
        rail: rail(&p.quick, &p.recents, &p.drives, &look.labels, &p.dir, look.rail),
        columns: cols,
        rows,
        empty,
        more,
        field,
    }
}

/// The arrows go back, forward and up, in this order, each lit where there
/// is somewhere to go.
pub proof fn the_arrows_are_lit_where_they_lead(back: bool, forward: bool, up: bool)
    ensures
        ({
            let fine = arrow_marks(true, back, forward, up);
            let plain = arrow_marks(false, back, forward, up);
            &&& fine == seq![("\u{2190}"@, back), ("\u{2192}"@, forward), ("\u{2191}"@, up)]
            &&& plain == seq![("<"@, back), (">"@, forward), ("^"@, up)]
        }),
{
}

/// A name that fits is shown whole, and one that was cut ends in dots and
/// takes up the room there is.
pub proof fn a_name_is_cut_at_its_end(name: Seq<char>, n: nat)
    ensures
        name.len() <= n ==> cut_name(name, n) == name,
        name.len() > n && n > 0 ==> cut_name(name, n).len() == n && cut_name(name, n).drop_last() == name.take(n - 1)
            && cut_name(name, n).last() == '\u{2026}',
{
    reveal_strlit("\u{2026}");
    if name.len() > n && n > 0 {
        assert(cut_name(name, n).drop_last() =~= name.take(n - 1));
    }
}

/// A row of the list shows its file: the icon and the name, and each column
/// that there is room for.
pub proof fn a_row_shows_its_file(row: RowState, hits: Seq<usize>, glyph: Seq<char>, picked: bool, room: nat, c: Columns)
    ensures
        ({
            let r = list_row(row, hits, glyph, picked, room, c);
            &&& row.name.len() <= room ==> r.text == glyph + "  "@ + row.name
            &&& r.picked == picked
            &&& picked ==> r.ink == Ink::Full
            &&& !picked && row.is_dir ==> r.ink == Ink::Dim
            &&& !picked && !row.is_dir ==> r.ink == Ink::Faint
            &&& c.stamp is Some && row.modified.len() > 0 ==> r.modified == Some(row.modified)
            &&& c.kind is Some && row.kind.len() > 0 ==> r.kind == Some(row.kind)
            &&& c.size is Some && row.size.len() > 0 ==> r.size == Some(row.size)
            &&& c.stamp is None ==> r.modified is None
            &&& c.kind is None ==> r.kind is None
            &&& c.size is None ==> r.size is None
        }),
{
}

/// The rail: the groups in their order, each under its title, with the
/// places in it, and the folder on view marked.
pub proof fn the_rail_lists_its_places(
    quick: Seq<PathState>,
    recents: Seq<PathState>,
    drives: Seq<PathState>,
    labels: Seq<Seq<char>>,
    current: PathState,
    room: nat,
    i: int,
)
    requires
        quick.len() > 0,
        recents.len() > 0,
        drives.len() > 0,
        quick.len() + recents.len() + drives.len() + 3 <= room,
        labels.len() == quick.len() + recents.len() + drives.len(),
    ensures
        ({
            let rows = rail_rows(quick, recents, drives, labels, current, room);
            let q = quick.len() as int;
            let r = recents.len() as int;
            &&& rows.len() == q + r + drives.len() + 3
            &&& rows[0].label == "quick access"@ && rows[0].place is None
            &&& rows[q + 1].label == "recent"@ && rows[q + 1].place is None
            &&& rows[q + r + 2].label == "this pc"@ && rows[q + r + 2].place is None
            &&& 0 <= i < q ==> rows[1 + i] == (RailState {
                label: labels[i],
                place: Some(quick[i]),
                here: quick[i] == current,
            })
            &&& 0 <= i < r ==> rows[q + 2 + i] == (RailState {
                label: labels[q + i],
                place: Some(recents[i]),
                here: recents[i] == current,
            })
            &&& 0 <= i < drives.len() ==> rows[q + r + 3 + i] == (RailState {
                label: labels[q + r + i],
                place: Some(drives[i]),
                here: drives[i] == current,
            })
        }),
{
    let a = group_rows("quick access"@, quick, labels, 0, current, room);
    assert(a.len() == quick.len() + 1);
    let b = group_rows("recent"@, recents, labels, quick.len() as int, current, (room - a.len()) as nat);
    assert(b.len() == recents.len() + 1);
}

/// What is not drawn is counted.
pub proof fn what_is_not_drawn_is_counted(len: nat, top: nat, drawn: nat)
    ensures
        top + drawn >= len ==> more_text(more_below(len, top, drawn)) is None,
        top + drawn < len ==> more_text(more_below(len, top, drawn)) == Some(
            "\u{2026} "@ + text::decimal((len - (top + drawn)) as nat) + " more \u{2014} type to narrow"@,
        ),
{
}

/// The box says where it searches until something is typed in it.
pub proof fn the_search_box_says_where_it_searches(filter: Seq<char>, dir: Seq<char>)
    ensures
        filter.len() == 0 ==> search_text(filter, dir) == ("search "@ + dir, false),
        filter.len() > 0 ==> search_text(filter, dir) == (filter, true),
{
}

/// The letters that are lit in a name are the ones found, as far as they are
/// shown.
pub proof fn found_letters_are_lit_where_they_show(name: Seq<char>, hits: Seq<usize>, room: nat, k: int)
    requires
        0 <= k < hits.len(),
    ensures
        hits[k] < room && hits[k] < name.len() ==> lit_letters(name, hits, room, k) == seq![
            (hits[k], name[hits[k] as int]),
        ] + lit_letters(name, hits, room, k + 1),
        hits[k] >= room ==> lit_letters(name, hits, room, k).len() == 0,
        lit_letters(name, hits, room, hits.len() as int).len() == 0,
{
}

/// The row that is picked is the selected one, where it is in view.
pub proof fn the_selected_row_is_picked(m: folders::PickerState, s: usize)
    requires
        m.selected == Some(s),
    ensures
        s >= m.top ==> picked_row(m) == Some((s - m.top) as usize),
        s < m.top ==> picked_row(m) is None,
        picked_row(folders::PickerState { selected: None, ..m }) is None,
{
}

/// What stands in the field is the name of the folder that would be chosen.
pub proof fn the_field_names_the_choice(chosen: PathState, label: Seq<char>)
    ensures
        path::path_name(chosen) matches Some(n) ==> field_text(chosen, label) == n,
        path::path_name(chosen) is None ==> field_text(chosen, label) == label,
{
}

} // verus!
