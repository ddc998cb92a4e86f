//! The folder picker: an open dialog in the editor's own material.
//!
//! Back, forward and up in the corner; the path in a boxed address bar; a
//! search box that narrows the listing; a details list with name, date, type
//! and size; places down the left. Files are listed as well as folders: a
//! folder browser that shows you a file is also telling you which folder you
//! want.
//!
//! Reading a directory and ranking names are done elsewhere. After a move
//! the picker wants a listing ([`Picker::fill`]); after a listing or a
//! keystroke it wants the ranked matches ([`Picker::refilter`]).
use vstd::prelude::*;
use vstd::string::*;
use crate::calendar;
use crate::calendar::{kb_size, stamp};
use crate::path;
use crate::path::{Path, PathState};
use crate::places;
use crate::scroll;
use crate::scroll::{stepped, stepped_up};
use crate::text;
use crate::text::{chars_of, same, slice_text, to_lowercase};

verus! {

/// One clickable segment of the address bar.
#[derive(Debug, PartialEq, Eq)]
pub struct Crumb {
    pub name: String,
    /// The path up to and including this segment: a click is a jump.
    pub dir: Path,
}

/// A crumb as a value.
pub struct CrumbState {
    pub name: Seq<char>,
    pub dir: PathState,
}

impl View for Crumb {
    type V = CrumbState;

    open spec fn view(&self) -> CrumbState {
        CrumbState { name: self.name@, dir: self.dir@ }
    }
}

/// One entry of a directory, as it was read.
#[derive(Debug)]
pub struct Listed {
    pub name: String,
    pub is_dir: bool,
    /// Seconds since 1970, when the file system said.
    pub modified: Option<u64>,
    pub size: u64,
}

/// One row, its column texts already formatted for drawing.
#[derive(Debug, PartialEq, Eq)]
pub struct Row {
    pub name: String,
    pub is_dir: bool,
    /// "26.07.2026 10:33", local time, or empty when the file system
    /// declined to say.
    pub modified: String,
    /// "folder" for directories, the extension for files, "file" without.
    pub kind: String,
    /// "30 KB" for files, blank for folders.
    pub size: String,
}

/// A row as a value.
pub struct RowState {
    pub name: Seq<char>,
    pub is_dir: bool,
    pub modified: Seq<char>,
    pub kind: Seq<char>,
    pub size: Seq<char>,
}

impl View for Row {
    type V = RowState;

    open spec fn view(&self) -> RowState {
        RowState {
            name: self.name@,
            is_dir: self.is_dir,
            modified: self.modified@,
            kind: self.kind@,
            size: self.size@,
        }
    }
}

impl Row {
    pub fn dup(&self) -> (r: Row)
        ensures
            r@ == self@,
    {
        Row {
            name: self.name.clone(),
            is_dir: self.is_dir,
            modified: self.modified.clone(),
            kind: self.kind.clone(),
            size: self.size.clone(),
        }
    }
}

/// The rows of a list as values.
pub open spec fn row_list(s: Seq<Row>) -> Seq<RowState> {
    Seq::new(s.len(), |i: int| s[i]@)
}

/// A name that a search let through, and where in it the search landed.
#[derive(Debug, PartialEq, Eq)]
pub struct Match {
    pub index: usize,
    pub positions: Vec<usize>,
}

/// More rows than this and the search box is the interface.
pub const MAX_ROWS: usize = 1000;

pub struct Picker {
    /// The directory being browsed.
    pub dir: Path,
    /// Everything in `dir`, folders first, columns preformatted.
    pub entries: Vec<Row>,
    /// The entries that survive the search box, best first.
    pub matches: Vec<Match>,
    /// What has been typed into the search box.
    pub filter: String,
    /// Into `matches`. `None` until a row is chosen: the dialog opens with
    /// nothing selected.
    pub selected: Option<usize>,
    /// First visible match: the list is longer than the box.
    pub top: usize,
    /// Whether drawing should pull the selection into view. Keyboard moves
    /// set it; the wheel clears it, because wheeling is looking around and
    /// being yanked back to the selection is the opposite of looking.
    pub follow: bool,
    /// The left rail, in three labelled groups.
    pub quick: Vec<Path>,
    pub recents: Vec<Path>,
    pub drives: Vec<Path>,
    /// Where Back goes: every directory browsed, oldest first.
    pub history: Vec<Path>,
    /// The current position in `history`.
    pub at: usize,
    /// Minutes to add to UTC for wall-clock times, measured once at open.
    pub utc_offset_min: i64,
}

/// The picker as a value.
#[verifier::ext_equal]
pub struct PickerState {
    pub dir: PathState,
    pub entries: Seq<RowState>,
    pub matches: Seq<Match>,
    pub filter: Seq<char>,
    pub selected: Option<usize>,
    pub top: usize,
    pub follow: bool,
    pub quick: Seq<PathState>,
    pub recents: Seq<PathState>,
    pub drives: Seq<PathState>,
    pub history: Seq<PathState>,
    pub at: usize,
    pub utc_offset_min: i64,
}

impl View for Picker {
    type V = PickerState;

    open spec fn view(&self) -> PickerState {
        PickerState {
            dir: self.dir@,
            entries: row_list(self.entries@),
            matches: self.matches@,
            filter: self.filter@,
            selected: self.selected,
            top: self.top,
            follow: self.follow,
            quick: places::path_list(self.quick@),
            recents: places::path_list(self.recents@),
            drives: places::path_list(self.drives@),
            history: places::path_list(self.history@),
            at: self.at,
            utc_offset_min: self.utc_offset_min,
        }
    }
}

/// A picker stands somewhere on its own trail.
pub open spec fn on_trail(m: PickerState) -> bool {
    m.at < m.history.len() && m.history[m.at as int] == m.dir
}

// ------------------------------------------------------------- formatting

/// The last place before `n` that holds `c`, or -1.
pub open spec fn last_of(s: Seq<char>, c: char, n: int) -> int
    decreases n,
{
    if n <= 0 {
        -1
    } else if s[n - 1] == c {
        n - 1
    } else {
        last_of(s, c, n - 1)
    }
}

/// What follows the last dot of a name. A name that only begins with a dot
/// has no extension.
pub open spec fn extension(name: Seq<char>) -> Option<Seq<char>> {
    let k = last_of(name, '.', name.len() as int);
    if k <= 0 || name == ".."@ { None } else { Some(name.skip(k + 1)) }
}

/// The type column.
pub open spec fn kind_of(name: Seq<char>, is_dir: bool) -> Seq<char> {
    if is_dir {
        "folder"@
    } else {
        match extension(name) {
            Some(x) => text::lowercase(x),
            None => "file"@,
        }
    }
}

/// Whether an entry's time can be put on the calendar.
pub open spec fn datable(e: Listed, offset: i64) -> bool {
    match e.modified {
        Some(secs) => calendar::stampable(secs, offset),
        None => true,
    }
}

/// Whether a row shows an entry, seen from a zone that many minutes from UTC.
pub open spec fn shows(row: RowState, e: Listed, offset: i64) -> bool {
    &&& row.name == e.name@
    &&& row.is_dir == e.is_dir
    &&& row.kind == kind_of(e.name@, e.is_dir)
    &&& row.size == (if e.is_dir {
        Seq::empty()
    } else {
        calendar::grouped(text::decimal(calendar::kilobytes(e.size as nat)), 0) + " KB"@
    })
    &&& match e.modified {
        Some(secs) => {
            let local = secs + offset * 60;
            exists|y: int, m: int, d: int|
                calendar::is_date(y, m, d) && calendar::days_since_1970(y, m, d) == local / 86_400 && row.modified
                    == #[trigger] calendar::date_text(y, m, d, (local % 86_400) / 60)
        },
        None => row.modified.len() == 0,
    }
}

fn kind_text(name: &str, is_dir: bool) -> (r: String)
    ensures
        r@ == kind_of(name@, is_dir),
{
    if is_dir {
        return "folder".to_owned();
    }
    let v: Vec<char> = chars_of(name);
    let mut n: usize = v.len();
    while n > 0 && v[n - 1] != '.'
        invariant
            n <= v.len(),
            last_of(v@, '.', v@.len() as int) == last_of(v@, '.', n as int),
        decreases n,
    {
        n = n - 1;
    }
    if n <= 1 || same(name, "..") {
        return "file".to_owned();
    }
    let x: String = slice_text(&v, n, v.len());
    assert(x@ =~= v@.skip(n as int));
    to_lowercase(x.as_str())
}

fn row_of(e: &Listed, offset: i64) -> (r: Row)
    requires
        datable(*e, offset),
    ensures
        shows(r@, *e, offset),
{
    let size: String = if e.is_dir {
        let none: String = String::new();
        assert(none@ =~= Seq::<char>::empty());
        none
    } else {
        kb_size(e.size)
    };
    Row {
        name: e.name.clone(),
        is_dir: e.is_dir,
        modified: stamp(e.modified, offset),
        kind: kind_text(e.name.as_str(), e.is_dir),
        size,
    }
}

// ---------------------------------------------------------------- the trail

/// Standing in a directory before its listing has come: nothing listed,
/// nothing searched for, nothing selected. What was typed described names
/// that are no longer on screen.
pub open spec fn entered(m: PickerState, dir: PathState) -> PickerState {
    PickerState {
        dir,
        entries: Seq::empty(),
        matches: Seq::empty(),
        filter: Seq::empty(),
        selected: None,
        top: 0,
        ..m
    }
}

/// A new step: anything Forward pointed at is gone, the way every browser's
/// history works. Where one already is is no step.
pub open spec fn navigated(m: PickerState, dir: PathState) -> PickerState {
    if dir == m.dir {
        m
    } else {
        entered(
            PickerState {
                history: m.history.take(m.at + 1).push(dir),
                at: (m.at + 1) as usize,
                ..m
            },
            dir,
        )
    }
}

/// One step back, when there is one.
pub open spec fn gone_back(m: PickerState) -> PickerState {
    if m.at > 0 {
        entered(PickerState { at: (m.at - 1) as usize, ..m }, m.history[m.at - 1])
    } else {
        m
    }
}

/// One step forward again, when there is one.
pub open spec fn gone_forward(m: PickerState) -> PickerState {
    if m.at + 1 < m.history.len() {
        entered(PickerState { at: (m.at + 1) as usize, ..m }, m.history[m.at + 1])
    } else {
        m
    }
}

impl Picker {
    /// A picker standing in `start`, before its listing has come. A recent
    /// that is also a quick-access folder is one place: the quick group keeps
    /// it, because that is where the eye knows it.
    pub fn new(start: &Path, recents: Vec<Path>, quick: Vec<Path>, drives: Vec<Path>, utc_offset_min: i64) -> (r:
        Picker)
        ensures
            r@.dir == start@,
            r@.entries.len() == 0,
            r@.matches.len() == 0,
            r@.filter.len() == 0,
            r@.selected is None,
            r@.top == 0,
            !r@.follow,
            r@.quick == places::path_list(quick@),
            r@.recents == not_in(places::path_list(recents@), places::path_list(quick@)),
            r@.drives == places::path_list(drives@),
            r@.history == seq![start@],
            r@.at == 0,
            r@.utc_offset_min == utc_offset_min,
            on_trail(r@),
    {
        let ghost all = places::path_list(recents@);
        let mut kept: Vec<Path> = Vec::new();
        let mut i: usize = 0;
        assert(all.take(0) =~= Seq::empty());
        assert(places::path_list(kept@) =~= Seq::empty());
        while i < recents.len()
            invariant
                i <= recents.len(),
                all == places::path_list(recents@),
                places::path_list(kept@) == not_in(all.take(i as int), places::path_list(quick@)),
            decreases recents.len() - i,
        {
            let ghost done = places::path_list(kept@);
            proof {
                assert(all.take(i + 1).drop_last() =~= all.take(i as int));
                assert(all.take(i + 1).last() == recents@[i as int]@);
            }
            if !holds(&quick, &recents[i]) {
                let one: Path = recents[i].dup();
                kept.push(one);
                assert(places::path_list(kept@) =~= done.push(one@));
            }
            i = i + 1;
        }
        assert(all.take(all.len() as int) =~= all);
        let mut history: Vec<Path> = Vec::new();
        history.push(start.dup());
        assert(places::path_list(history@) =~= seq![start@]);
        let r: Picker = Picker {
            dir: start.dup(),
            entries: Vec::new(),
            matches: Vec::new(),
            filter: String::new(),
            selected: None,
            top: 0,
            follow: false,
            quick,
            recents: kept,
            drives,
            history,
            at: 0,
            utc_offset_min,
        };
        r
    }

    fn enter(&mut self, dir: Path)
        ensures
            final(self)@ == entered(old(self)@, dir@),
    {
        self.dir = dir;
        self.entries = Vec::new();
        self.matches = Vec::new();
        self.filter = String::new();
        self.selected = None;
        self.top = 0;
        proof {
            assert(self@.entries =~= Seq::empty());
            assert(self@.filter =~= Seq::<char>::empty());
        }
    }

    /// Browses into `dir` as a new step. Says whether a listing is wanted.
    pub fn navigate(&mut self, dir: Path) -> (moved: bool)
        requires
            on_trail(old(self)@),
        ensures
            moved == (dir@ != old(self)@.dir),
            final(self)@ == navigated(old(self)@, dir@),
            on_trail(final(self)@),
    {
        if dir.same(&self.dir) {
            return false;
        }
        let ghost m = self@;
        let steps: usize = self.history.len();
        assert(self.at < steps);
        self.history.truncate(self.at + 1);
        self.history.push(dir.dup());
        self.at = self.at + 1;
        assert(places::path_list(self.history@) =~= m.history.take(m.at + 1).push(dir@));
        self.enter(dir);
        true
    }

    pub fn can_back(&self) -> (r: bool)
        ensures
            r == (self@.at > 0),
    {
        self.at > 0
    }

    pub fn can_forward(&self) -> (r: bool)
        ensures
            r == (self@.at + 1 < self@.history.len()),
    {
        self.history.len() > 0 && self.at < self.history.len() - 1
    }

    /// Says whether a listing is wanted.
    pub fn back(&mut self) -> (moved: bool)
        requires
            on_trail(old(self)@),
        ensures
            moved == (old(self)@.at > 0),
            final(self)@ == gone_back(old(self)@),
            on_trail(final(self)@),
    {
        if !self.can_back() {
            return false;
        }
        self.at = self.at - 1;
        assert(self@.history[self.at as int] == self.history@[self.at as int]@);
        let dir: Path = self.history[self.at].dup();
        self.enter(dir);
        true
    }

    /// Says whether a listing is wanted.
    pub fn forward(&mut self) -> (moved: bool)
        requires
            on_trail(old(self)@),
        ensures
            moved == (old(self)@.at + 1 < old(self)@.history.len()),
            final(self)@ == gone_forward(old(self)@),
            on_trail(final(self)@),
    {
        if !self.can_forward() {
            return false;
        }
        let steps: usize = self.history.len();
        assert(self.at + 1 < steps);
        self.at = self.at + 1;
        assert(self@.history[self.at as int] == self.history@[self.at as int]@);
        let dir: Path = self.history[self.at].dup();
        self.enter(dir);
        true
    }

    /// One level up. At a drive root there is nowhere to go and nothing
    /// happens: an error would be scolding someone for pressing a key.
    pub fn up(&mut self) -> (moved: bool)
        requires
            on_trail(old(self)@),
        ensures
            moved == (path::path_parent(old(self)@.dir) is Some),
            final(self)@ == (match path::path_parent(old(self)@.dir) {
                Some(parent) => navigated(old(self)@, parent),
                None => old(self)@,
            }),
            on_trail(final(self)@),
    {
        match self.dir.parent() {
            Some(parent) => {
                assert(parent@.parts.len() + 1 == self@.dir.parts.len());
                self.navigate(parent)
            },
            None => false,
        }
    }

    /// The listing of the directory stood in. Wants its matches next.
    pub fn fill(&mut self, listed: &Vec<Listed>)
        requires
            forall|i: int| 0 <= i < listed@.len() ==> datable(#[trigger] listed@[i], old(self)@.utc_offset_min),
        ensures
            final(self)@ == (PickerState { entries: final(self)@.entries, ..old(self)@ }),
            final(self)@.entries.len() == listed@.len(),
            forall|i: int|
                0 <= i < listed@.len() ==> shows(
                    #[trigger] final(self)@.entries[i],
                    listed@[i],
                    old(self)@.utc_offset_min,
                ),
    {
        let offset: i64 = self.utc_offset_min;
        let mut rows: Vec<Row> = Vec::new();
        let mut i: usize = 0;
        while i < listed.len()
            invariant
                i <= listed.len(),
                rows.len() == i,
                forall|k: int| 0 <= k < listed@.len() ==> datable(#[trigger] listed@[k], offset),
                forall|k: int| 0 <= k < i ==> shows(#[trigger] rows@[k]@, listed@[k], offset),
            decreases listed.len() - i,
        {
            let row: Row = row_of(&listed[i], offset);
            rows.push(row);
            i = i + 1;
        }
        self.entries = rows;
        proof {
            assert forall|k: int| 0 <= k < listed@.len() implies shows(
                #[trigger] self@.entries[k],
                listed@[k],
                offset,
            ) by {
                assert(self@.entries[k] == rows@[k]@);
            }
        }
    }

    /// The names to rank, in the order they are listed.
    pub fn names(&self) -> (r: Vec<String>)
        ensures
            text::texts(r@) == Seq::new(self@.entries.len(), |i: int| self@.entries[i].name),
    {
        let mut out: Vec<String> = Vec::new();
        let mut i: usize = 0;
        while i < self.entries.len()
            invariant
                i <= self.entries.len(),
                out.len() == i,
                forall|k: int| 0 <= k < i ==> (#[trigger] out@[k])@ == self.entries@[k].name@,
            decreases self.entries.len() - i,
        {
            out.push(self.entries[i].name.clone());
            i = i + 1;
        }
        assert(text::texts(out@) =~= Seq::new(self@.entries.len(), |i: int| self@.entries[i].name));
        out
    }

    /// What the search lets through now. The selection and the view start
    /// over: they described another list.
    pub fn refilter(&mut self, found: Vec<Match>)
        ensures
            final(self)@ == (PickerState { matches: found@, selected: None, top: 0, ..old(self)@ }),
    {
        self.matches = found;
        self.selected = None;
        self.top = 0;
    }

    /// A character into the search box. Wants new matches.
    pub fn push(&mut self, c: char)
        ensures
            final(self)@ == (PickerState { filter: old(self)@.filter.push(c), ..old(self)@ }),
    {
        self.filter.push(c);
    }

    /// One character less. Wants new matches.
    pub fn backspace(&mut self)
        ensures
            final(self)@ == (PickerState {
                filter: if old(self)@.filter.len() > 0 {
                    old(self)@.filter.drop_last()
                } else {
                    old(self)@.filter
                },
                ..old(self)@
            }),
    {
        self.filter.pop();
    }
}

/// Those of `list` that are not in `other`.
pub open spec fn not_in(list: Seq<PathState>, other: Seq<PathState>) -> Seq<PathState>
    decreases list.len(),
{
    if list.len() == 0 {
        Seq::empty()
    } else if other.contains(list.last()) {
        not_in(list.drop_last(), other)
    } else {
        not_in(list.drop_last(), other).push(list.last())
    }
}

fn holds(list: &Vec<Path>, p: &Path) -> (r: bool)
    ensures
        r == places::path_list(list@).contains(p@),
{
    let ghost all = places::path_list(list@);
    let mut i: usize = 0;
    while i < list.len()
        invariant
            i <= list.len(),
            all == places::path_list(list@),
            forall|k: int| 0 <= k < i ==> all[k] != p@,
        decreases list.len() - i,
    {
        assert(all[i as int] == list@[i as int]@);
        if list[i].same(p) {
            assert(all.contains(p@));
            return true;
        }
        i = i + 1;
    }
    false
}

// ------------------------------------------------------------ the address

/// The path of a folder's first `k` names.
pub open spec fn upper(p: PathState, k: int) -> PathState {
    PathState { root: p.root, parts: p.parts.take(k) }
}

/// The text without backslashes at its end.
pub open spec fn unslashed(s: Seq<char>, n: int) -> Seq<char>
    decreases n,
{
    if n <= 0 {
        Seq::empty()
    } else if s[n - 1] == '\\' {
        unslashed(s, n - 1)
    } else {
        s.take(n)
    }
}

/// What a folder is called in the address bar. The root has no name; its own
/// path, minus the trailing slash, is already a short label.
pub open spec fn crumb_name(p: PathState) -> Seq<char> {
    match path::path_name(p) {
        Some(name) => if p.parts.len() > path::root_parts(p) {
            name
        } else {
            unslashed(path::path_text(p), path::path_text(p).len() as int)
        },
        None => unslashed(path::path_text(p), path::path_text(p).len() as int),
    }
}

/// How many names the topmost folder of a path has.
pub open spec fn topmost(p: PathState) -> int {
    if p.parts.len() <= path::root_parts(p) { p.parts.len() as int } else { path::root_parts(p) as int }
}

pub fn crumb_label(p: &Path) -> (r: String)
    ensures
        r@ == crumb_name(p@),
{
    let above: bool = match p.parent() {
        Some(_) => true,
        None => false,
    };
    assert(above == (p@.parts.len() > path::root_parts(p@)));
    match p.file_name() {
        Some(name) => {
            if above {
                return name;
            }
        },
        None => {},
    }
    let whole: String = p.text();
    let v: Vec<char> = chars_of(whole.as_str());
    let mut n: usize = v.len();
    while n > 0 && v[n - 1] == '\\'
        invariant
            n <= v.len(),
            unslashed(v@, v@.len() as int) == unslashed(v@, n as int),
        decreases n,
    {
        n = n - 1;
    }
    let out: String = slice_text(&v, 0, n);
    assert(out@ =~= unslashed(v@, n as int));
    out
}

impl Picker {
    /// The address bar, one segment per directory, the topmost first.
    pub fn crumbs(&self) -> (r: Vec<Crumb>)
        ensures
            r@.len() == self@.dir.parts.len() - topmost(self@.dir) + 1,
            forall|i: int|
                0 <= i < r@.len() ==> (#[trigger] r@[i])@ == (CrumbState {
                    name: crumb_name(upper(self@.dir, topmost(self@.dir) + i)),
                    dir: upper(self@.dir, topmost(self@.dir) + i),
                }),
    {
        let ghost n = self@.dir.parts.len() as int;
        let ghost t = topmost(self@.dir);
        let mut out: Vec<Crumb> = Vec::new();
        let mut dir: Path = self.dir.dup();
        let mut k: usize = self.dir.parts.len();
        assert(self@.dir.parts.len() == self.dir.parts@.len());
        assert(upper(self@.dir, n).parts =~= self@.dir.parts);
        loop
            invariant
                n == self@.dir.parts.len(),
                t == topmost(self@.dir),
                0 <= t <= k <= n,
                out@.len() == n - k,
                dir@ == upper(self@.dir, k as int),
                forall|i: int|
                    0 <= i < out@.len() ==> (#[trigger] out@[i])@ == (CrumbState {
                        name: crumb_name(upper(self@.dir, k + 1 + i)),
                        dir: upper(self@.dir, k + 1 + i),
                    }),
            decreases k,
        {
            let crumb: Crumb = Crumb { name: crumb_label(&dir), dir: dir.dup() };
            let ghost before = out@;
            out.insert(0, crumb);
            proof {
                assert forall|i: int| 0 <= i < out@.len() implies (#[trigger] out@[i])@ == (CrumbState {
                    name: crumb_name(upper(self@.dir, k + i)),
                    dir: upper(self@.dir, k + i),
                }) by {
                    if i > 0 {
                        assert(out@[i] == before[i - 1]);
                    }
                }
            }
            match dir.parent() {
                Some(up) => {
                    assert(up@.parts =~= upper(self@.dir, k - 1).parts);
                    dir = up;
                    k = k - 1;
                },
                None => {
                    assert(k == t);
                    return out;
                },
            }
        }
    }
}

// ------------------------------------------------------------ the selection

/// Whether a match names an entry.
pub open spec fn named(m: PickerState, k: int) -> bool {
    0 <= k < m.matches.len() && m.matches[k].index < m.entries.len()
}

/// The row the selection is on.
pub open spec fn selected_row_of(m: PickerState) -> Option<RowState> {
    match m.selected {
        Some(s) => if named(m, s as int) {
            Some(m.entries[m.matches[s as int].index as int])
        } else {
            None
        },
        None => None,
    }
}

/// A name under the folder being browsed.
pub open spec fn inside(m: PickerState, name: Seq<char>) -> PathState {
    places::deeper(m.dir, name)
}

/// What "Select folder" answers with: the highlighted folder when one is
/// highlighted, otherwise the folder being browsed. A highlighted file is not
/// an answer to a folder question.
pub open spec fn answer(m: PickerState) -> PathState {
    match selected_row_of(m) {
        Some(row) => if row.is_dir { inside(m, row.name) } else { m.dir },
        None => m.dir,
    }
}

/// The view before it is drawn: on the selection when the keyboard moved it,
/// and never past the end.
pub open spec fn brought_into_view(m: PickerState, visible: nat) -> PickerState {
    if visible == 0 {
        m
    } else {
        let limit = if m.matches.len() <= visible { 0 } else { m.matches.len() - visible };
        let top = match m.selected {
            Some(s) => if m.follow {
                scroll::follow_top(m.top as int, s as int, visible as int)
            } else {
                m.top as int
            },
            None => m.top as int,
        };
        PickerState { follow: false, top: (if top <= limit { top } else { limit }) as usize, ..m }
    }
}

/// The rows drawn: from the scroll position, no more than fit, leaving out
/// what names no entry.
pub open spec fn drawn(m: PickerState, from: int, to: int) -> Seq<(RowState, Seq<usize>)>
    decreases to - from,
{
    if from >= to {
        Seq::empty()
    } else {
        let rest = drawn(m, from, to - 1);
        if named(m, to - 1) {
            rest.push((m.entries[m.matches[to - 1].index as int], m.matches[to - 1].positions@))
        } else {
            rest
        }
    }
}

/// One past the last match that is drawn.
pub open spec fn drawn_end(m: PickerState, limit: nat) -> int {
    if m.matches.len() <= m.top {
        m.top as int
    } else if m.matches.len() - m.top <= limit {
        m.matches.len() as int
    } else {
        m.top + limit
    }
}

/// The drawn rows of a list as values.
pub open spec fn drawn_list(s: Seq<(Row, Vec<usize>)>) -> Seq<(RowState, Seq<usize>)> {
    Seq::new(s.len(), |i: int| (s[i].0@, s[i].1@))
}

pub fn dup_positions(v: &Vec<usize>) -> (r: Vec<usize>)
    ensures
        r@ == v@,
{
    let mut out: Vec<usize> = Vec::new();
    let mut i: usize = 0;
    while i < v.len()
        invariant
            i <= v.len(),
            out@ == v@.take(i as int),
        decreases v.len() - i,
    {
        out.push(v[i]);
        i = i + 1;
        assert(out@ =~= v@.take(i as int));
    }
    assert(v@.take(v@.len() as int) =~= v@);
    out
}

impl Picker {
    /// The row the selection is on, and the full path it names.
    pub fn selected_entry(&self) -> (r: Option<(Row, Path)>)
        ensures
            match r {
                Some((row, p)) => selected_row_of(self@) == Some(row@) && p@ == inside(self@, row@.name),
                None => selected_row_of(self@) is None,
            },
    {
        match self.selected {
            Some(s) => {
                if s < self.matches.len() && self.matches[s].index < self.entries.len() {
                    let k: usize = self.matches[s].index;
                    assert(self@.entries[k as int] == self.entries@[k as int]@);
                    let row: Row = self.entries[k].dup();
                    let p: Path = self.dir.child(row.name.as_str());
                    Some((row, p))
                } else {
                    None
                }
            },
            None => None,
        }
    }

    pub fn chosen(&self) -> (r: Path)
        ensures
            r@ == answer(self@),
    {
        match self.selected_entry() {
            Some((row, p)) => if row.is_dir { p } else { self.dir.dup() },
            None => self.dir.dup(),
        }
    }

    /// Arrows land on the first row when nothing is selected yet.
    pub fn move_selection(&mut self, delta: i32)
        ensures
            final(self)@ == (if old(self)@.matches.len() == 0 {
                old(self)@
            } else {
                PickerState {
                    selected: Some(
                        (match old(self)@.selected {
                            None => 0,
                            Some(s) => scroll::clamped(s + delta, old(self)@.matches.len() - 1),
                        }) as usize,
                    ),
                    follow: true,
                    ..old(self)@
                }
            }),
            // One row down is the next row, and the first key selects the first one.
            old(self)@.selected is None && old(self)@.matches.len() > 0 ==> final(self)@.selected == Some(0usize),
            old(self)@.selected matches Some(s) ==> (0 <= s + delta < old(self)@.matches.len() ==> final(self)@.selected is Some && final(self)@.selected.unwrap() - delta == s),
    {
        if self.matches.len() == 0 {
            return;
        }
        let last: usize = self.matches.len() - 1;
        self.selected = Some(
            match self.selected {
                None => 0,
                Some(s) => stepped(s, delta, last),
            },
        );
        self.follow = true;
    }

    /// The wheel: moves what is shown and nothing else. The selection stays
    /// where it was, off screen if need be.
    pub fn scroll(&mut self, lines: i32, visible: usize)
        ensures
            final(self)@ == (PickerState {
                top: scroll::clamped(
                    old(self)@.top - lines,
                    if old(self)@.matches.len() <= visible {
                        0
                    } else {
                        old(self)@.matches.len() - visible
                    },
                ) as usize,
                follow: false,
                ..old(self)@
            }),
            0 <= old(self)@.top - lines && old(self)@.top - lines + visible <= old(self)@.matches.len() ==> final(self)@.top + lines == old(self)@.top,
    {
        let n: usize = self.matches.len();
        let limit: usize = if n <= visible { 0 } else { n - visible };
        self.top = stepped_up(self.top, lines, limit);
        self.follow = false;
    }

    /// Scrolls just enough to keep the selection in view, but only after the
    /// keyboard moved it. Called from drawing, because only the renderer
    /// knows how many rows fit.
    pub fn ensure_visible(&mut self, visible: usize)
        ensures
            final(self)@ == brought_into_view(old(self)@, visible as nat),
    {
        if visible == 0 {
            return;
        }
        if self.follow {
            self.follow = false;
            match self.selected {
                Some(s) => {
                    self.top = scroll::follow(self.top, s, visible);
                },
                None => {},
            }
        }
        let n: usize = self.matches.len();
        let limit: usize = if n <= visible { 0 } else { n - visible };
        if self.top > limit {
            self.top = limit;
        }
    }

    pub fn len(&self) -> (r: usize)
        ensures
            r == self@.matches.len(),
    {
        self.matches.len()
    }

    /// Rows to draw from the scroll position, with where the search landed in
    /// each name so the match is visible rather than implied.
    pub fn rows(&self, limit: usize) -> (r: Vec<(Row, Vec<usize>)>)
        ensures
            drawn_list(r@) == drawn(self@, self@.top as int, drawn_end(self@, limit as nat)),
    {
        let mut out: Vec<(Row, Vec<usize>)> = Vec::new();
        assert(drawn_list(out@) =~= Seq::empty());
        if self.matches.len() <= self.top {
            return out;
        }
        let room: usize = self.matches.len() - self.top;
        let end: usize = if room <= limit { self.matches.len() } else { self.top + limit };
        let mut i: usize = self.top;
        while i < end
            invariant
                self.top <= i <= end <= self.matches.len(),
                drawn_list(out@) == drawn(self@, self@.top as int, i as int),
            decreases end - i,
        {
            let ghost done = drawn_list(out@);
            let k: usize = self.matches[i].index;
            if k < self.entries.len() {
                assert(self@.entries[k as int] == self.entries@[k as int]@);
                let row: Row = self.entries[k].dup();
                let at: Vec<usize> = dup_positions(&self.matches[i].positions);
                out.push((row, at));
                assert(drawn_list(out@) =~= done.push((row@, at@)));
            }
            i = i + 1;
        }
        out
    }

    /// Which drawn row is selected, if the selection is not above the view.
    pub fn selected_row(&self) -> (r: Option<usize>)
        ensures
            r == (match self@.selected {
                Some(s) => if s >= self@.top { Some((s - self@.top) as usize) } else { None },
                None => None,
            }),
    {
        match self.selected {
            Some(s) => if s >= self.top { Some(s - self.top) } else { None },
            None => None,
        }
    }

    /// Selects the row `index` rows below the top of what is drawn. True when
    /// that row was already selected: a second click, an open.
    pub fn select_visible(&mut self, index: usize) -> (again: bool)
        ensures
            ({
                let target = old(self)@.top + index;
                &&& again == (target < old(self)@.matches.len() && old(self)@.selected == Some(target as usize))
                &&& final(self)@ == (if target < old(self)@.matches.len() {
                    PickerState { selected: Some(target as usize), ..old(self)@ }
                } else {
                    old(self)@
                })
            }),
    {
        let n: usize = self.matches.len();
        if self.top >= n || index >= n - self.top {
            return false;
        }
        let target: usize = self.top + index;
        let again: bool = match self.selected {
            Some(s) => s == target,
            None => false,
        };
        self.selected = Some(target);
        again
    }
}

// -------------------------------------------------------------------- laws

/// Back undoes a step, forward takes it again, and a turn burns what lay
/// ahead.
pub proof fn back_and_forward_walk_the_trail(m: PickerState, dir: PathState, turn: PathState)
    requires
        on_trail(m),
        m.at < usize::MAX - 1,
        dir != m.dir,
        turn != m.dir,
    ensures
        ({
            let there = navigated(m, dir);
            let back = gone_back(there);
            let again = gone_forward(back);
            let turned = navigated(back, turn);
            &&& back.dir == m.dir
            &&& back.at == m.at
            &&& back.at + 1 < back.history.len()
            &&& again.dir == dir
            &&& again.at == there.at
            &&& turned.dir == turn
            &&& turned.at + 1 == turned.history.len()
            &&& turned.at > 0
        }),
{
}

/// Moving somewhere else drops the search.
pub proof fn moving_clears_the_search(m: PickerState, dir: PathState)
    requires
        dir != m.dir,
    ensures
        navigated(m, dir).filter.len() == 0,
        navigated(m, dir).selected is None,
{
}

/// The wheel leaves the selection alone, and drawing does not pull the view
/// back to it.
pub proof fn the_wheel_only_looks_around(m: PickerState, top: usize, visible: nat)
    requires
        top + visible <= m.matches.len(),
    ensures
        ({
            let wheeled = PickerState { top, follow: false, ..m };
            brought_into_view(wheeled, visible) == wheeled
        }),
{
}

/// After a keyboard move, drawing shows the selection.
pub proof fn the_keyboard_brings_the_selection_into_view(m: PickerState, s: usize, visible: nat)
    requires
        m.selected == Some(s),
        s < m.matches.len(),
        m.follow,
        visible > 0,
    ensures
        ({
            let top = brought_into_view(m, visible).top;
            top <= s < top + visible
        }),
{
}

/// Nothing is offered in the recents that the quick-access group has.
pub proof fn no_place_twice(recents: Seq<PathState>, quick: Seq<PathState>, p: PathState)
    requires
        quick.contains(p),
    ensures
        !not_in(recents, quick).contains(p),
    decreases recents.len(),
{
    if recents.len() > 0 {
        no_place_twice(recents.drop_last(), quick, p);
        let kept = not_in(recents.drop_last(), quick);
        let all = not_in(recents, quick);
        if all.contains(p) {
            let k = choose|k: int| 0 <= k < all.len() && all[k] == p;
            if k < kept.len() {
                assert(kept[k] == p);
            }
        }
    }
}

/// The last segment of the address bar is the folder itself, and each other
/// is the parent of the one after it.
pub proof fn crumbs_lead_down(p: PathState, k: int)
    requires
        topmost(p) <= k < p.parts.len(),
    ensures
        upper(p, p.parts.len() as int) == p,
        path::path_parent(upper(p, k + 1)) == Some(upper(p, k)),
{
    assert(upper(p, p.parts.len() as int).parts =~= p.parts);
    assert(upper(p, k + 1).parts.drop_last() =~= upper(p, k).parts);
}

/// The answer of the picker is the folder that is selected, and otherwise
/// the folder that is shown: a file is no answer.
pub proof fn the_answer_is_the_selected_folder(m: PickerState, k: usize)
    requires
        k < m.matches.len(),
        m.matches[k as int].index < m.entries.len(),
        m.selected == Some(k),
    ensures
        ({
            let row = m.entries[m.matches[k as int].index as int];
            &&& row.is_dir ==> answer(m) == places::deeper(m.dir, row.name)
            &&& !row.is_dir ==> answer(m) == m.dir
        }),
{
}

/// With nothing selected the answer is the folder that is shown.
pub proof fn nothing_selected_means_here(m: PickerState)
    requires
        m.selected is None,
    ensures
        answer(m) == m.dir,
        selected_row_of(m) is None,
{
}

/// Going to a folder shows that folder; going where one is changes nothing.
/// The way there is kept, and what lay ahead is forgotten.
pub proof fn going_shows_the_folder(m: PickerState, dir: PathState)
    requires
        on_trail(m),
        m.at < usize::MAX,
    ensures
        navigated(m, dir).dir == dir,
        dir == m.dir ==> navigated(m, dir) == m,
        dir != m.dir ==> {
            let r = navigated(m, dir);
            &&& r.history.len() == m.at + 2
            &&& r.history[r.at as int] == dir
            &&& r.at == r.history.len() - 1
            &&& forall|i: int| 0 <= i <= m.at ==> #[trigger] r.history[i] == m.history[i]
            &&& r.quick == m.quick && r.recents == m.recents && r.drives == m.drives
        },
{
}

/// The kind of a file is what stands behind the last point of its name; a
/// name without one, or with nothing in front of it, has none.
pub proof fn the_kind_is_what_stands_behind_the_last_point(stem: Seq<char>, x: Seq<char>)
    requires
        !x.contains('.'),
        stem + seq!['.'] + x != ".."@,
    ensures
        stem.len() > 0 ==> extension(stem + seq!['.'] + x) == Some(x),
        stem.len() == 0 ==> extension(stem + seq!['.'] + x) is None,
        extension(x) is None,
        stem.len() > 0 ==> kind_of(stem + seq!['.'] + x, false) == text::lowercase(x),
        kind_of(x, false) == "file"@,
        kind_of(x, true) == "folder"@,
        kind_of(stem + seq!['.'] + x, true) == "folder"@,
{
    let name = stem + seq!['.'] + x;
    lemma_last_of(name, '.', stem.len() as int, name.len() as int);
    assert(name.skip(stem.len() as int + 1) =~= x);
    lemma_not_there(x, '.', x.len() as int);
}

proof fn lemma_last_of(s: Seq<char>, c: char, k: int, n: int)
    requires
        0 <= k < n <= s.len(),
        s[k] == c,
        forall|i: int| k < i < n ==> #[trigger] s[i] != c,
    ensures
        last_of(s, c, n) == k,
    decreases n,
{
    if k < n - 1 {
        assert(s[n - 1] != c);
        lemma_last_of(s, c, k, n - 1);
    }
}

proof fn lemma_not_there(s: Seq<char>, c: char, n: int)
    requires
        0 <= n <= s.len(),
        !s.contains(c),
    ensures
        last_of(s, c, n) == -1,
    decreases n,
{
    if n > 0 {
        assert(s[n - 1] != c);
        lemma_not_there(s, c, n - 1);
    }
}

/// The rows on the screen are the matches from the first one shown on, in
/// their order, as many as fit.
pub proof fn the_rows_on_the_screen(m: PickerState, limit: nat, k: int)
    requires
        m.top <= m.matches.len(),
        forall|i: int| 0 <= i < m.matches.len() ==> (#[trigger] m.matches[i]).index < m.entries.len(),
        0 <= k < limit,
        m.top + k < m.matches.len(),
    ensures
        ({
            let rows = drawn(m, m.top as int, drawn_end(m, limit));
            &&& rows.len() == (if m.matches.len() - m.top <= limit { m.matches.len() - m.top } else { limit as int })
            &&& rows[k].0 == m.entries[m.matches[m.top + k].index as int]
            &&& rows[k].1 == m.matches[m.top + k].positions@
        }),
{
    lemma_drawn(m, m.top as int, drawn_end(m, limit), k);
}

proof fn lemma_drawn(m: PickerState, from: int, to: int, k: int)
    requires
        0 <= from <= to <= m.matches.len(),
        forall|i: int| 0 <= i < m.matches.len() ==> (#[trigger] m.matches[i]).index < m.entries.len(),
        0 <= k < to - from,
    ensures
        drawn(m, from, to).len() == to - from,
        drawn(m, from, to)[k].0 == m.entries[m.matches[from + k].index as int],
        drawn(m, from, to)[k].1 == m.matches[from + k].positions@,
    decreases to - from,
{
    assert(m.matches[to - 1].index < m.entries.len());
    if k < to - from - 1 {
        lemma_drawn(m, from, to - 1, k);
    } else if from < to - 1 {
        lemma_drawn(m, from, to - 1, 0);
    } else {
        assert(drawn(m, from, to - 1).len() == 0);
    }
}

/// Of the places gone to lately those stand in the rail that are not there
/// already, in the order they had.
pub proof fn the_rail_keeps_the_order(a: Seq<PathState>, p: PathState, b: Seq<PathState>, other: Seq<PathState>)
    ensures
        other.contains(p) ==> not_in(a + seq![p] + b, other) == not_in(a, other) + not_in(b, other),
        !other.contains(p) ==> not_in(a + seq![p] + b, other) == not_in(a, other) + seq![p] + not_in(b, other),
    decreases b.len(),
{
    if b.len() == 0 {
        assert(a + seq![p] + b =~= a.push(p));
        assert(a.push(p).drop_last() =~= a);
        assert(not_in(b, other) =~= Seq::<PathState>::empty());
        assert(not_in(a, other) + not_in(b, other) =~= not_in(a, other));
        assert(not_in(a, other) + seq![p] + not_in(b, other) =~= not_in(a, other).push(p));
    } else {
        let all = a + seq![p] + b;
        the_rail_keeps_the_order(a, p, b.drop_last(), other);
        assert(all.drop_last() =~= a + seq![p] + b.drop_last());
        assert(all.last() == b.last());
        if other.contains(p) {
            assert(not_in(all, other) =~= not_in(a, other) + not_in(b, other));
        } else {
            assert(not_in(all, other) =~= not_in(a, other) + seq![p] + not_in(b, other));
        }
    }
}

/// Back shows the folder that was shown before, and forward the one after;
/// the way stays as it is. Nothing of the folder left is listed any more.
pub proof fn back_and_forward_show_the_way(m: PickerState)
    requires
        on_trail(m),
        m.history.len() <= usize::MAX,
    ensures
        m.at == 0 ==> gone_back(m) == m,
        m.at > 0 ==> {
            let r = gone_back(m);
            &&& r.dir == m.history[m.at - 1] && r.at == m.at - 1 && r.history == m.history
            &&& r.entries.len() == 0 && r.matches.len() == 0 && r.filter.len() == 0 && r.selected is None && r.top == 0
            &&& r.quick == m.quick && r.recents == m.recents && r.drives == m.drives
        },
        m.at + 1 >= m.history.len() ==> gone_forward(m) == m,
        m.at + 1 < m.history.len() ==> {
            let r = gone_forward(m);
            &&& r.dir == m.history[m.at + 1] && r.at == m.at + 1 && r.history == m.history
            &&& r.entries.len() == 0 && r.matches.len() == 0 && r.filter.len() == 0 && r.selected is None && r.top == 0
            &&& r.quick == m.quick && r.recents == m.recents && r.drives == m.drives
        },
{
}

/// Nothing of the folder left is listed once another one is gone to.
pub proof fn a_new_folder_starts_empty(m: PickerState, dir: PathState)
    requires
        dir != m.dir,
    ensures
        ({
            let r = navigated(m, dir);
            &&& r.entries.len() == 0 && r.matches.len() == 0 && r.filter.len() == 0 && r.selected is None && r.top == 0
            &&& r.utc_offset_min == m.utc_offset_min && r.follow == m.follow
        }),
{
}

/// A segment of the address is named after its folder, and the top of a
/// drive after the drive, without the separator behind it.
pub proof fn a_segment_goes_by_its_name(p: PathState, name: Seq<char>)
    ensures
        path::path_name(p) == Some(name) && p.parts.len() > path::root_parts(p) ==> crumb_name(p) == name,
        p.parts.len() == 0 && p.root.len() == 3 && p.root[1] == ':' && p.root[2] == '\\' ==> crumb_name(p) == seq![
            p.root[0],
            ':',
        ],
{
    if p.parts.len() == 0 && p.root.len() == 3 && p.root[1] == ':' && p.root[2] == '\\' {
        let t = path::path_text(p);
        assert(t =~= p.root);
        reveal_with_fuel(unslashed, 3);
        assert(t.take(2) =~= seq![p.root[0], ':']);
    }
}

/// A selection that is in view leaves the view; one that is not is brought
/// to the nearer edge. Without a key pressed nothing is brought anywhere.
pub proof fn the_view_follows_the_keys_only(m: PickerState, s: usize, visible: nat)
    requires
        visible > 0,
        m.selected == Some(s),
        s < m.matches.len(),
        m.top + visible <= m.matches.len(),
    ensures
        ({
            let r = brought_into_view(m, visible);
            &&& !r.follow
            &&& !m.follow ==> r.top == m.top
            &&& m.follow && m.top <= s && s < m.top + visible ==> r.top == m.top
            &&& m.follow && s < m.top ==> r.top == s
            &&& m.follow && s >= m.top + visible ==> r.top + visible == s + 1
            &&& r.selected == m.selected && r.matches == m.matches && r.dir == m.dir
        }),
{
}

/// A row of a listed file shows its name, its kind and its size in
/// kilobytes; a folder shows no size.
pub proof fn a_row_tells_of_its_file(row: RowState, e: Listed, offset: i64)
    requires
        shows(row, e, offset),
    ensures
        row.name == e.name@ && row.is_dir == e.is_dir,
        e.is_dir ==> row.size.len() == 0 && row.kind == "folder"@,
        !e.is_dir ==> row.size == calendar::grouped(text::decimal(calendar::kilobytes(e.size as nat)), 0) + " KB"@,
        !e.is_dir && extension(e.name@) is None ==> row.kind == "file"@,
        e.modified is None ==> row.modified.len() == 0,
{
}

} // verus!
