//! What the file tree and the read-only viewer show.
use vstd::prelude::*;
use vstd::string::*;
use crate::content;
use crate::content::{label_of, Viewer};
use crate::editor_view;
use crate::editor_view::gutter;
use crate::git::Status;
use crate::git_view;
use crate::git_view::{git_color, Ink};
use crate::path::Path;
use crate::text;
use crate::text::{blank, copy_text, decimal_text, joined, joined3, pad};

verus! {

/// A row of the tree, with the glyph the font has for it and what git says of
/// it.
#[derive(Debug)]
pub struct TreeRow {
    pub name: String,
    pub glyph: String,
    pub is_dir: bool,
    pub depth: usize,
    pub status: Option<Status>,
}

/// A row as drawn.
#[derive(Debug)]
pub struct TreeLine {
    pub text: String,
    pub ink: Ink,
    pub depth: usize,
    pub selected: bool,
}

/// What a row is drawn in: a change first, since the point of the colour is
/// that changes stand out at a glance; then a folder; then a file.
pub open spec fn row_ink(row: TreeRow) -> Ink {
    match row.status {
        Some(s) => git_view::color_of(s),
        None => if row.is_dir { Ink::Accent } else { Ink::Text },
    }
}

/// What a row says: its glyph, two spaces, its name.
pub open spec fn row_text(glyph: Seq<char>, name: Seq<char>) -> Seq<char> {
    glyph + "  "@ + name
}

/// Whether that is row `k` of the tree as drawn.
pub open spec fn is_line(line: TreeLine, row: TreeRow, selected: bool) -> bool {
    &&& line.text@ == row_text(row.glyph@, row.name@)
    &&& line.ink == row_ink(row)
    &&& line.depth == row.depth
    &&& line.selected == selected
}

/// The tree as drawn.
#[derive(Debug)]
pub struct TreeDrawn {
    pub header: String,
    /// Said in place of rows when the folder could not be read.
    pub problem: Option<String>,
    pub rows: Vec<TreeLine>,
}

fn line(row: &TreeRow, selected: bool) -> (r: TreeLine)
    ensures
        is_line(r, *row, selected),
{
    let ink: Ink = match row.status {
        Some(s) => git_color(s),
        None => if row.is_dir { Ink::Accent } else { Ink::Text },
    };
    TreeLine {
        text: joined3(row.glyph.as_str(), "  ", row.name.as_str()),
        ink,
        depth: row.depth,
        selected,
    }
}

/// The tree as drawn, `visible` rows of it from `top`. The same glyphs and
/// the same two spaces in the header as in the rows, or its name sits a
/// column left of every name under it.
pub fn drawn(
    root: &Path,
    root_glyph: &str,
    problem: Option<String>,
    rows: &Vec<TreeRow>,
    selected: usize,
    top: usize,
    visible: usize,
) -> (r: TreeDrawn)
    ensures
        r.header@ == row_text(root_glyph@, content::folder_label(root@)),
        r.problem == problem,
        r.rows@.len() == (if problem is Some {
            0
        } else {
            git_view::in_view(top as nat, visible as nat, rows@.len())
        }),
        forall|i: int|
            0 <= i < r.rows@.len() ==> is_line(#[trigger] r.rows@[i], rows@[top + i], top + i == selected),
{
    let name: String = label_of(root);
    let header: String = joined3(root_glyph, "  ", name.as_str());
    if problem.is_some() {
        return TreeDrawn { header, problem, rows: Vec::new() };
    }
    let n: usize = if top >= rows.len() {
        0
    } else if rows.len() - top <= visible {
        rows.len() - top
    } else {
        visible
    };
    let mut out: Vec<TreeLine> = Vec::new();
    let mut i: usize = 0;
    while i < n
        invariant
            i <= n,
            n > 0 ==> top + n <= rows.len(),
            out.len() == i,
            forall|k: int| 0 <= k < i ==> is_line(#[trigger] out@[k], rows@[top + k], top + k == selected),
        decreases n - i,
    {
        out.push(line(&rows[top + i], top + i == selected));
        i = i + 1;
    }
    TreeDrawn { header, problem, rows: out }
}

// ------------------------------------------------------------- the viewer

/// A line of the viewer: its number, and its text unless it is blank.
#[derive(Debug)]
pub struct ViewerLine {
    pub number: String,
    pub text: Option<String>,
}

/// Whether that is line `k` of the file as drawn.
pub open spec fn is_viewed(line: ViewerLine, k: nat, width: nat, said: Seq<char>) -> bool {
    &&& line.number@ == text::padded(text::decimal(k + 1), ' ', width)
    &&& (match line.text {
        Some(t) => t@ == said && !text::is_blank(said),
        None => text::is_blank(said),
    })
}

/// The viewer as drawn.
#[derive(Debug)]
pub struct ViewerDrawn {
    pub header: String,
    /// Why the content is not all there, said at the right.
    pub note: Option<String>,
    /// How many cells the numbers take, with a gap after them.
    pub gutter: usize,
    pub lines: Vec<ViewerLine>,
}

/// The viewer as drawn, `visible` lines of it.
pub fn viewed(v: &Viewer, visible: usize) -> (r: ViewerDrawn)
    requires
        v.top + visible <= usize::MAX,
    ensures
        r.header@ == content::folder_label(v.path@) + "   \u{b7}   "@ + text::decimal(v.lines@.len())
            + " lines"@,
        (match r.note {
            Some(n) => Some(n@),
            None => None,
        }) == (match v.note {
            Some(n) => Some(n@),
            None => None,
        }),
        r.gutter == editor_view::gutter_width(v.top as nat, visible as nat) + 1,
        r.lines@.len() == git_view::in_view(v.top as nat, visible as nat, v.lines@.len()),
        forall|i: int|
            0 <= i < r.lines@.len() ==> is_viewed(
                #[trigger] r.lines@[i],
                (v.top + i) as nat,
                editor_view::gutter_width(v.top as nat, visible as nat),
                v.lines@[v.top + i]@,
            ),
{
    let name: String = label_of(&v.path);
    let total: String = decimal_text(v.lines.len() as u64);
    let head: String = joined3(name.as_str(), "   \u{b7}   ", total.as_str());
    let header: String = joined(head.as_str(), " lines");
    let note: Option<String> = match &v.note {
        Some(n) => Some(n.clone()),
        None => None,
    };
    let width: usize = gutter(v.top, visible);
    proof {
        let last = (v.top + visible) as nat;
        text::lemma_decimal_short(if last == 0 { 1 } else { last });
    }
    let n: usize = if v.top >= v.lines.len() {
        0
    } else if v.lines.len() - v.top <= visible {
        v.lines.len() - v.top
    } else {
        visible
    };
    let mut out: Vec<ViewerLine> = Vec::new();
    let mut i: usize = 0;
    while i < n
        invariant
            i <= n,
            n > 0 ==> v.top + n <= v.lines.len(),
            out.len() == i,
            forall|k: int|
                0 <= k < i ==> is_viewed(
                    #[trigger] out@[k],
                    (v.top + k) as nat,
                    width as nat,
                    v.lines@[v.top + k]@,
                ),
        decreases n - i,
    {
        let at: usize = v.top + i;
        let num: String = decimal_text((at + 1) as u64);
        let number: String = pad(num.as_str(), ' ', width);
        proof {
            text::lemma_trimmed_blank(v.lines@[at as int]@);
        }
        let said: Option<String> = if blank(v.lines[at].as_str()) {
            None
        } else {
            Some(copy_text(v.lines[at].as_str()))
        };
        out.push(ViewerLine { number, text: said });
        i = i + 1;
    }
    ViewerDrawn { header, note, gutter: width + 1, lines: out }
}

// -------------------------------------------------------------------- laws

/// A change is seen at a glance: whatever git says of a row decides its
/// colour, folder or file.
pub proof fn a_change_outranks_the_kind(a: TreeRow, b: TreeRow)
    requires
        a.status is Some,
        a.status == b.status,
    ensures
        row_ink(a) == row_ink(b),
{
}

/// A row of the tree is its icon and its name, in the colour of what changed
/// about it; what did not change has the colour of its kind.
pub proof fn a_row_of_the_tree(row: TreeRow)
    ensures
        row_text(row.glyph@, row.name@) == row.glyph@ + "  "@ + row.name@,
        row.status is None && row.is_dir ==> row_ink(row) == Ink::Accent,
        row.status is None && !row.is_dir ==> row_ink(row) == Ink::Text,
        row.status == Some(Status::Modified) ==> row_ink(row) == Ink::Modified,
        row.status == Some(Status::Added) ==> row_ink(row) == Ink::Added,
        row.status == Some(Status::Deleted) ==> row_ink(row) == Ink::Deleted,
        row.status == Some(Status::Untracked) ==> row_ink(row) == Ink::Untracked,
        row.status == Some(Status::Conflicted) ==> row_ink(row) == Ink::Conflicted,
{
}

/// A line of a file that is only looked at shows its number, counted from
/// one, and its text, unless that is blank.
pub proof fn a_viewed_line_shows_its_text(line: ViewerLine, k: nat, width: nat, said: Seq<char>)
    requires
        is_viewed(line, k, width, said),
    ensures
        text::decimal(k + 1).len() >= width ==> line.number@ == text::decimal(k + 1),
        line.number@.len() >= width,
        text::is_blank(said) ==> line.text is None,
        !text::is_blank(said) ==> line.text is Some && line.text.unwrap()@ == said,
{
}

/// A line of the tree is its row: the same name, at the same depth, in the
/// row's colour.
pub proof fn a_line_of_the_tree_is_its_row(line: TreeLine, row: TreeRow, selected: bool)
    requires
        is_line(line, row, selected),
    ensures
        line.text@ == row.glyph@ + "  "@ + row.name@,
        line.depth == row.depth,
        line.selected == selected,
        line.ink == row_ink(row),
{
}

} // verus!
