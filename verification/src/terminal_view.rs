//! What a terminal pane shows: runs of background, runs of text, the cursor,
//! and the notes over them.
use vstd::prelude::*;
use vstd::string::*;
use crate::text;
use crate::text::{blank, joined3, signed_text, text_of};

verus! {

/// One cell of the screen. A colour is a number.
#[derive(Clone, Copy, Debug, PartialEq, Eq, Structural)]
pub struct Cell {
    pub ch: char,
    pub fg: u32,
    pub bg: u32,
    pub inverse: bool,
    pub selected: bool,
}

/// Which of a cell's colours is meant: what it stands on, with the colour of
/// the selection, or what it is written in.
#[derive(Clone, Copy, Debug, PartialEq, Eq, Structural)]
pub enum Of {
    Ground(u32),
    Letters,
}

/// The colour of a cell. Selection wins over inverse, so that the highlight
/// stays visible whatever colours the content uses.
pub open spec fn color_of(c: Cell, of: Of) -> u32 {
    match of {
        Of::Ground(selection) => if c.selected {
            selection
        } else if c.inverse {
            c.fg
        } else {
            c.bg
        },
        Of::Letters => if c.inverse { c.bg } else { c.fg },
    }
}

fn color(c: Cell, of: Of) -> (r: u32)
    ensures
        r == color_of(c, of),
{
    match of {
        Of::Ground(selection) => if c.selected {
            selection
        } else if c.inverse {
            c.fg
        } else {
            c.bg
        },
        Of::Letters => if c.inverse { c.bg } else { c.fg },
    }
}

/// The background a cell is drawn with.
pub fn cell_bg(c: Cell, selection: u32) -> (r: u32)
    ensures
        r == color_of(c, Of::Ground(selection)),
{
    color(c, Of::Ground(selection))
}

/// Where the run that starts at `from` ends, once everything before `i` is
/// known to belong to it.
pub open spec fn run_end(row: Seq<Cell>, of: Of, from: int, i: int) -> int
    decreases row.len() - i,
{
    if i >= row.len() {
        row.len() as int
    } else if color_of(row[i], of) != color_of(row[from], of) {
        i
    } else {
        run_end(row, of, from, i + 1)
    }
}

proof fn lemma_run_end(row: Seq<Cell>, of: Of, from: int, i: int)
    requires
        0 <= from < i <= row.len(),
        forall|k: int| from <= k < i ==> color_of(#[trigger] row[k], of) == color_of(row[from], of),
    ensures
        i <= run_end(row, of, from, i) <= row.len(),
        forall|k: int|
            from <= k < run_end(row, of, from, i) ==> color_of(#[trigger] row[k], of) == color_of(row[from], of),
    decreases row.len() - i,
{
    if i < row.len() && color_of(row[i], of) == color_of(row[from], of) {
        lemma_run_end(row, of, from, i + 1);
    }
}

fn end_of_run(row: &Vec<Cell>, of: Of, from: usize) -> (r: usize)
    requires
        from < row@.len(),
    ensures
        r == run_end(row@, of, from as int, from + 1),
        from < r <= row@.len(),
        forall|k: int| from <= k < r ==> color_of(#[trigger] row@[k], of) == color_of(row@[from as int], of),
{
    let own: u32 = color(row[from], of);
    let n: usize = row.len();
    let mut i: usize = from + 1;
    proof {
        lemma_run_end(row@, of, from as int, from + 1);
    }
    while i < n
        invariant
            n == row@.len(),
            from < i <= row@.len(),
            own == color_of(row@[from as int], of),
            run_end(row@, of, from as int, from + 1) == run_end(row@, of, from as int, i as int),
            forall|k: int|
                from <= k < run_end(row@, of, from as int, from + 1) ==> color_of(#[trigger] row@[k], of)
                    == color_of(row@[from as int], of),
        decreases n - i,
    {
        if color(row[i], of) != own {
            return i;
        }
        i = i + 1;
    }
    i
}

/// A stretch of background: the first cell, how many, and the colour.
#[derive(Clone, Copy, Debug, PartialEq, Eq, Structural)]
pub struct Ground {
    pub col: usize,
    pub len: usize,
    pub color: u32,
}

/// The backgrounds of a row from cell `i` on, leaving out the plain one so
/// that what is behind the window shows through.
pub open spec fn grounds_from(row: Seq<Cell>, selection: u32, plain: u32, i: int) -> Seq<Ground>
    decreases row.len() - i,
    via grounds_decrease
{
    if i < 0 || i >= row.len() {
        Seq::empty()
    } else {
        let of = Of::Ground(selection);
        let end = run_end(row, of, i, i + 1);
        let own = color_of(row[i], of);
        (if own != plain {
            seq![Ground { col: i as usize, len: (end - i) as usize, color: own }]
        } else {
            Seq::empty()
        }) + grounds_from(row, selection, plain, end)
    }
}

#[via_fn]
proof fn grounds_decrease(row: Seq<Cell>, selection: u32, plain: u32, i: int) {
    if 0 <= i < row.len() {
        lemma_run_end(row, Of::Ground(selection), i, i + 1);
    }
}

/// The backgrounds of a row.
pub fn grounds(row: &Vec<Cell>, selection: u32, plain: u32) -> (r: Vec<Ground>)
    ensures
        r@ == grounds_from(row@, selection, plain, 0),
{
    let ghost whole = grounds_from(row@, selection, plain, 0);
    let of: Of = Of::Ground(selection);
    let mut out: Vec<Ground> = Vec::new();
    let mut col: usize = 0;
    assert(out@ + whole =~= whole);
    while col < row.len()
        invariant
            col <= row.len(),
            of == Of::Ground(selection),
            out@ + grounds_from(row@, selection, plain, col as int) == whole,
        decreases row.len() - col,
    {
        let ghost before = out@;
        let end: usize = end_of_run(row, of, col);
        let own: u32 = color(row[col], of);
        let ghost rest = grounds_from(row@, selection, plain, end as int);
        if own != plain {
            let one: Ground = Ground { col, len: end - col, color: own };
            out.push(one);
            assert(out@ + rest =~= before + (seq![one] + rest));
        } else {
            assert(Seq::<Ground>::empty() + rest =~= rest);
        }
        col = end;
    }
    assert(out@ + Seq::<Ground>::empty() =~= out@);
    out
}

/// A stretch of text in one colour.
#[derive(Debug)]
pub struct Run {
    pub col: usize,
    pub text: String,
    pub color: u32,
}

/// A stretch of text as a value.
#[verifier::ext_equal]
pub struct RunState {
    pub col: usize,
    pub text: Seq<char>,
    pub color: u32,
}

impl View for Run {
    type V = RunState;

    open spec fn view(&self) -> RunState {
        RunState { col: self.col, text: self.text@, color: self.color }
    }
}

/// The runs of a list as values.
pub open spec fn run_list(s: Seq<Run>) -> Seq<RunState> {
    Seq::new(s.len(), |i: int| s[i]@)
}

/// What a cell shows: an empty one shows a space.
pub open spec fn shown(c: char) -> char {
    if c == '\0' { ' ' } else { c }
}

/// The characters of the cells from `from` up to `to`.
pub open spec fn cells_text(row: Seq<Cell>, from: int, to: int) -> Seq<char> {
    Seq::new((to - from) as nat, |i: int| shown(row[from + i].ch))
}

/// The text of a row from cell `i` on, in runs of one colour. A run of blanks
/// is not drawn.
pub open spec fn runs_from(row: Seq<Cell>, i: int) -> Seq<RunState>
    decreases row.len() - i,
    via runs_decrease
{
    if i < 0 || i >= row.len() {
        Seq::empty()
    } else {
        let end = run_end(row, Of::Letters, i, i + 1);
        let text = cells_text(row, i, end);
        (if text::is_blank(text) {
            Seq::empty()
        } else {
            seq![RunState { col: i as usize, text, color: color_of(row[i], Of::Letters) }]
        }) + runs_from(row, end)
    }
}

#[via_fn]
proof fn runs_decrease(row: Seq<Cell>, i: int) {
    if 0 <= i < row.len() {
        lemma_run_end(row, Of::Letters, i, i + 1);
    }
}

fn text_between(row: &Vec<Cell>, from: usize, to: usize) -> (r: String)
    requires
        from <= to <= row@.len(),
    ensures
        r@ == cells_text(row@, from as int, to as int),
{
    let mut out: Vec<char> = Vec::new();
    let mut i: usize = from;
    while i < to
        invariant
            from <= i <= to <= row@.len(),
            out@ =~= cells_text(row@, from as int, i as int),
        decreases to - i,
    {
        let c: char = row[i].ch;
        out.push(if c == '\0' { ' ' } else { c });
        i = i + 1;
    }
    text_of(&out)
}

/// The text of a row, in runs of one colour.
pub fn runs(row: &Vec<Cell>) -> (r: Vec<Run>)
    ensures
        run_list(r@) == runs_from(row@, 0),
{
    let ghost whole = runs_from(row@, 0);
    let mut out: Vec<Run> = Vec::new();
    let mut col: usize = 0;
    assert(run_list(out@) + whole =~= whole);
    while col < row.len()
        invariant
            col <= row.len(),
            run_list(out@) + runs_from(row@, col as int) == whole,
        decreases row.len() - col,
    {
        let ghost before = run_list(out@);
        let end: usize = end_of_run(row, Of::Letters, col);
        let said: String = text_between(row, col, end);
        let ghost rest = runs_from(row@, end as int);
        proof {
            text::lemma_trimmed_blank(said@);
        }
        if !blank(said.as_str()) {
            let one: Run = Run { col, text: said, color: color(row[col], Of::Letters) };
            let ghost state = one@;
            out.push(one);
            assert(run_list(out@) =~= before.push(state));
            assert(run_list(out@) + rest =~= before + (seq![state] + rest));
        } else {
            assert(Seq::<RunState>::empty() + rest =~= rest);
        }
        col = end;
    }
    assert(run_list(out@) + Seq::<RunState>::empty() =~= run_list(out@));
    out
}

/// Whether the cursor is drawn: in the focused pane, when the program shows
/// it, and on a row there is.
pub fn cursor_shows(focused: bool, visible: bool, row: usize, rows: usize) -> (r: bool)
    ensures
        r == (focused && visible && row < rows),
{
    focused && visible && row < rows
}

/// The badge of a terminal scrolled into its history. It has to be visible,
/// or live output is missed and the terminal looks frozen.
pub fn badge(scrolled_back: bool, arrow: bool) -> (r: Option<&'static str>)
    ensures
        match r {
            Some(b) => scrolled_back && b@ == (if arrow { "\u{21e1} history"@ } else { "history"@ }),
            None => !scrolled_back,
        },
{
    if scrolled_back {
        Some(if arrow { "\u{21e1} history" } else { "history" })
    } else {
        None
    }
}

/// What is said under a shell that has ended.
pub fn exit_line(code: i64) -> (r: String)
    ensures
        r@ == "[shell exited \u{2014} code "@ + text::signed_decimal(code as int) + "]"@,
{
    let n: String = signed_text(code);
    joined3("[shell exited \u{2014} code ", n.as_str(), "]")
}

// -------------------------------------------------------------------- laws

/// A selected cell is drawn on the selection's colour, whatever is in it.
pub proof fn selection_wins(c: Cell, selection: u32)
    requires
        c.selected,
    ensures
        color_of(c, Of::Ground(selection)) == selection,
{
}

/// Every cell whose background is not the plain one lies under a stretch of
/// its own colour.
pub proof fn every_background_is_painted(row: Seq<Cell>, selection: u32, plain: u32, i: int, k: int)
    requires
        0 <= i <= k < row.len(),
        row.len() <= usize::MAX,
        color_of(row[k], Of::Ground(selection)) != plain,
    ensures
        exists|g: int|
            0 <= g < grounds_from(row, selection, plain, i).len() && ({
                let one = #[trigger] grounds_from(row, selection, plain, i)[g];
                one.col <= k < one.col + one.len && one.color == color_of(row[k], Of::Ground(selection))
            }),
    decreases row.len() - i,
{
    let of = Of::Ground(selection);
    let end = run_end(row, of, i, i + 1);
    lemma_run_end(row, of, i, i + 1);
    let all = grounds_from(row, selection, plain, i);
    let rest = grounds_from(row, selection, plain, end);
    let own = color_of(row[i], of);
    if k < end {
        assert(color_of(row[k], of) == own);
        assert(all[0] == (Ground { col: i as usize, len: (end - i) as usize, color: own }));
    } else {
        every_background_is_painted(row, selection, plain, end, k);
        let g = choose|g: int|
            0 <= g < rest.len() && ({
                let one = #[trigger] rest[g];
                one.col <= k < one.col + one.len && one.color == color_of(row[k], of)
            });
        let at = if own != plain { g + 1 } else { g };
        assert(all[at] == rest[g]);
    }
}

/// Every character that is not blank is drawn, at its own cell and in its own
/// colour.
pub proof fn every_letter_is_drawn(row: Seq<Cell>, i: int, k: int)
    requires
        0 <= i <= k < row.len(),
        row.len() <= usize::MAX,
        !text::is_white(shown(row[k].ch)),
    ensures
        exists|g: int|
            0 <= g < runs_from(row, i).len() && ({
                let one = #[trigger] runs_from(row, i)[g];
                &&& one.col <= k < one.col + one.text.len()
                &&& one.text[k - one.col] == shown(row[k].ch)
                &&& one.color == color_of(row[k], Of::Letters)
            }),
    decreases row.len() - i,
{
    let of = Of::Letters;
    let end = run_end(row, of, i, i + 1);
    lemma_run_end(row, of, i, i + 1);
    let all = runs_from(row, i);
    let rest = runs_from(row, end);
    let text = cells_text(row, i, end);
    if k < end {
        assert(color_of(row[k], of) == color_of(row[i], of));
        assert(text[k - i] == shown(row[k].ch));
        assert(!text::is_blank(text));
        assert(all[0] == (RunState { col: i as usize, text, color: color_of(row[i], of) }));
    } else {
        every_letter_is_drawn(row, end, k);
        let g = choose|g: int|
            0 <= g < rest.len() && ({
                let one = #[trigger] rest[g];
                &&& one.col <= k < one.col + one.text.len()
                &&& one.text[k - one.col] == shown(row[k].ch)
                &&& one.color == color_of(row[k], of)
            });
        let at = if text::is_blank(text) { g } else { g + 1 };
        assert(all[at] == rest[g]);
    }
}

/// The colours of a cell: its own two, the other way round where it is
/// inverse, and on the selection's ground where it is selected.
pub proof fn the_colors_of_a_cell(c: Cell, selection: u32)
    ensures
        c.selected ==> color_of(c, Of::Ground(selection)) == selection,
        !c.selected && !c.inverse ==> color_of(c, Of::Ground(selection)) == c.bg,
        !c.selected && c.inverse ==> color_of(c, Of::Ground(selection)) == c.fg,
        !c.inverse ==> color_of(c, Of::Letters) == c.fg,
        c.inverse ==> color_of(c, Of::Letters) == c.bg,
{
}

/// A ground that is painted is the ground of every cell under it, and never
/// the plain one.
pub proof fn a_painted_ground_is_its_cells_own(row: Seq<Cell>, selection: u32, plain: u32, i: int, g: int, k: int)
    requires
        0 <= i <= row.len(),
        row.len() <= usize::MAX,
        0 <= g < grounds_from(row, selection, plain, i).len(),
    ensures
        ({
            let painted = grounds_from(row, selection, plain, i)[g];
            &&& painted.color != plain
            &&& i <= painted.col && painted.col + painted.len <= row.len()
            &&& painted.col <= k < painted.col + painted.len ==> color_of(row[k], Of::Ground(selection))
                == painted.color
        }),
    decreases row.len() - i,
{
    if i < row.len() {
        let of = Of::Ground(selection);
        let end = run_end(row, of, i, i + 1);
        lemma_run_end(row, of, i, i + 1);
        let own = color_of(row[i], of);
        let first: int = if own != plain { 1 } else { 0 };
        if g >= first {
            assert(grounds_from(row, selection, plain, i)[g] == grounds_from(row, selection, plain, end)[g - first]);
            a_painted_ground_is_its_cells_own(row, selection, plain, end, g - first, k);
        } else {
            assert(grounds_from(row, selection, plain, i)[0] == (Ground {
                col: i as usize,
                len: (end - i) as usize,
                color: own,
            }));
        }
    }
}

/// The letters of a run are those of the cells it stands on, in the colour of
/// each of them.
pub proof fn a_run_shows_its_cells(row: Seq<Cell>, i: int, g: int, k: int)
    requires
        0 <= i <= row.len(),
        row.len() <= usize::MAX,
        0 <= g < runs_from(row, i).len(),
        0 <= k < runs_from(row, i)[g].text.len(),
    ensures
        ({
            let run = runs_from(row, i)[g];
            &&& i <= run.col && run.col + run.text.len() <= row.len()
            &&& row[run.col + k].ch != '\0' ==> run.text[k] == row[run.col + k].ch
            &&& row[run.col + k].ch == '\0' ==> run.text[k] == ' '
            &&& color_of(row[run.col + k], Of::Letters) == run.color
        }),
    decreases row.len() - i,
{
    if i < row.len() {
        let end = run_end(row, Of::Letters, i, i + 1);
        lemma_run_end(row, Of::Letters, i, i + 1);
        let text = cells_text(row, i, end);
        let first: int = if text::is_blank(text) { 0 } else { 1 };
        if g >= first {
            assert(runs_from(row, i)[g] == runs_from(row, end)[g - first]);
            a_run_shows_its_cells(row, end, g - first, k);
        } else {
            assert(runs_from(row, i)[0] == (RunState {
                col: i as usize,
                text,
                color: color_of(row[i], Of::Letters),
            }));
        }
    }
}

} // verus!
