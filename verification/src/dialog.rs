//! The open-folder dialog around a [`Picker`]: the address bar that opens for
//! typing, the keys, and the buttons.
//!
//! Explorer's grammar throughout: Enter opens what is selected, Backspace
//! goes back, Alt+Up goes up, with Ctrl+Enter kept as the fast "select this
//! folder". What only the disk or the clipboard can say is asked for
//! ([`Ask`]) and handed back.
use vstd::prelude::*;
use vstd::string::*;
use crate::folders;
use crate::folders::{Picker, PickerState, Row};
use crate::path;
use crate::path::{Path, PathState};
use crate::text;
use crate::text::{chars_of, slice_text, trim_chars};

verus! {

pub struct Dialog {
    pub picker: Picker,
    /// The address bar's text while it is open for typing.
    pub address: Option<String>,
    /// Whether the text being edited is selected whole, so that the next
    /// keystroke replaces it rather than extending it.
    pub select_all: bool,
}

/// The dialog as a value.
#[verifier::ext_equal]
pub struct DialogState {
    pub picker: PickerState,
    pub address: Option<Seq<char>>,
    pub select_all: bool,
}

/// An optional string as a value.
pub open spec fn opt_text(s: Option<String>) -> Option<Seq<char>> {
    match s {
        Some(t) => Some(t@),
        None => None,
    }
}

impl View for Dialog {
    type V = DialogState;

    open spec fn view(&self) -> DialogState {
        DialogState {
            picker: self.picker@,
            address: opt_text(self.address),
            select_all: self.select_all,
        }
    }
}

/// What the dialog wants done, or asked, after a key or a click.
#[derive(Debug, PartialEq, Eq)]
pub enum Ask {
    /// Not the dialog's key: the character it produces still arrives.
    Pass,
    /// Handled, nothing more to do.
    Done,
    /// It stands somewhere else: read that folder, then rank its names.
    List,
    /// The search changed: rank the names again.
    Rank,
    /// The dialog goes, unanswered.
    Close,
    /// The dialog goes, answered with this folder.
    Choose(Path),
    /// The dialog goes, and this file is opened.
    Open(Path),
    /// Whether this is a folder, or its parent is; then [`Dialog::arrived`].
    Visit(Path),
    /// Whether this is a folder; then [`Dialog::tried`].
    Try(Path),
    /// The clipboard's text; then [`Dialog::pasted`].
    Paste,
}

/// What is wanted as a value.
pub enum AskState {
    Pass,
    Done,
    List,
    Rank,
    Close,
    Choose(PathState),
    Open(PathState),
    Visit(PathState),
    Try(PathState),
    Paste,
}

impl View for Ask {
    type V = AskState;

    open spec fn view(&self) -> AskState {
        match self {
            Ask::Pass => AskState::Pass,
            Ask::Done => AskState::Done,
            Ask::List => AskState::List,
            Ask::Rank => AskState::Rank,
            Ask::Close => AskState::Close,
            Ask::Choose(p) => AskState::Choose(p@),
            Ask::Open(p) => AskState::Open(p@),
            Ask::Visit(p) => AskState::Visit(p@),
            Ask::Try(p) => AskState::Try(p@),
            Ask::Paste => AskState::Paste,
        }
    }
}

// ------------------------------------------------------------- typed paths

/// Where the text stops being quotes, from `i` on.
pub open spec fn past_quotes(s: Seq<char>, i: int) -> int
    decreases s.len() - i,
{
    if i < 0 || i >= s.len() || s[i] != '"' {
        i
    } else {
        past_quotes(s, i + 1)
    }
}

/// Where the text before `n` stops being quotes.
pub open spec fn before_quotes(s: Seq<char>, n: int) -> int
    decreases n,
{
    if n <= 0 || n > s.len() || s[n - 1] != '"' {
        n
    } else {
        before_quotes(s, n - 1)
    }
}

/// A text without the quotes around it.
pub open spec fn unquoted(s: Seq<char>) -> Seq<char> {
    let from = past_quotes(s, 0);
    let to = before_quotes(s, s.len() as int);
    if from >= to {
        Seq::empty()
    } else {
        s.subrange(from, to)
    }
}

/// A path as a person types or pastes it: trimmed, and out of its quotes.
pub open spec fn typed_text(s: Seq<char>) -> Seq<char> {
    unquoted(text::trimmed(s))
}

fn typed_of(s: &str) -> (r: String)
    ensures
        r@ == typed_text(s@),
{
    let all: Vec<char> = chars_of(s);
    let v: Vec<char> = trim_chars(&all);
    let mut from: usize = 0;
    while from < v.len() && v[from] == '"'
        invariant
            from <= v.len(),
            past_quotes(v@, 0) == past_quotes(v@, from as int),
        decreases v.len() - from,
    {
        from = from + 1;
    }
    let mut to: usize = v.len();
    while to > 0 && v[to - 1] == '"'
        invariant
            to <= v.len(),
            before_quotes(v@, v@.len() as int) == before_quotes(v@, to as int),
        decreases to,
    {
        to = to - 1;
    }
    if from >= to {
        let r: String = String::new();
        assert(r@ =~= Seq::<char>::empty());
        r
    } else {
        slice_text(&v, from, to)
    }
}

/// Control characters are chords, not text.
pub open spec fn is_control(c: char) -> bool {
    (c as u32) < 0x20 || 0x7f <= (c as u32) <= 0x9f
}

/// A text without its control characters.
pub open spec fn printable(s: Seq<char>) -> Seq<char>
    decreases s.len(),
{
    if s.len() == 0 {
        s
    } else if is_control(s.last()) {
        printable(s.drop_last())
    } else {
        printable(s.drop_last()).push(s.last())
    }
}

fn without_control(s: &str) -> (r: String)
    ensures
        r@ == printable(s@),
{
    let mut out: String = String::new();
    assert(s@.take(0) =~= Seq::<char>::empty());
    for c in iter: s.chars()
        invariant
            iter.seq() == s@,
            out@ == printable(s@.take(iter.index())),
    {
        proof {
            let n = iter.index();
            assert(s@.take(n + 1).drop_last() =~= s@.take(n));
            assert(s@.take(n + 1).last() == c);
        }
        let code: u32 = c as u32;
        if !(code < 0x20 || (0x7f <= code && code <= 0x9f)) {
            out.push(c);
        }
    }
    assert(s@.take(s@.len() as int) =~= s@);
    out
}

// --------------------------------------------------------------- the moves

/// The address bar open, with the path filled in.
pub open spec fn addressing(m: DialogState) -> DialogState {
    DialogState { address: Some(path::path_text(m.picker.dir)), select_all: false, ..m }
}

/// A whole selection deleted: what was selected is the text being edited.
pub open spec fn cleared(m: DialogState) -> DialogState {
    if !m.select_all {
        m
    } else {
        match m.address {
            Some(_) => DialogState { address: Some(Seq::empty()), select_all: false, ..m },
            None => DialogState {
                picker: PickerState { filter: Seq::empty(), ..m.picker },
                select_all: false,
                ..m
            },
        }
    }
}

/// Whether deleting the selection changes the search.
pub open spec fn search_selected(m: DialogState) -> bool {
    m.select_all && m.address is None
}

/// Characters typed: into the address bar while it is open, into the search
/// box otherwise, in place of a selection where there is one.
pub open spec fn extended(m: DialogState, more: Seq<char>) -> DialogState {
    let c = cleared(m);
    match c.address {
        Some(a) => DialogState { address: Some(a + more), ..c },
        None => DialogState { picker: PickerState { filter: c.picker.filter + more, ..c.picker }, ..c },
    }
}

/// In another folder, the address bar closed.
pub open spec fn gone_to(m: DialogState, dir: PathState) -> DialogState {
    DialogState { picker: folders::navigated(m.picker, dir), address: None, select_all: false }
}

/// A listing is wanted only where the folder is another one.
pub open spec fn list_if(moved: bool) -> AskState {
    if moved { AskState::List } else { AskState::Done }
}

/// Acting on the selected row: a folder is somewhere to go, a file is
/// something to open.
pub open spec fn activated(m: DialogState) -> (DialogState, AskState) {
    match folders::selected_row_of(m.picker) {
        Some(row) => {
            let at = folders::inside(m.picker, row.name);
            if row.is_dir {
                (gone_to(m, at), list_if(at != m.picker.dir))
            } else {
                (m, AskState::Open(at))
            }
        },
        None => (m, AskState::Done),
    }
}

/// The selection moved.
pub open spec fn stepped(m: DialogState, delta: int) -> DialogState {
    if m.picker.matches.len() == 0 {
        m
    } else {
        DialogState {
            picker: PickerState {
                selected: Some(
                    (match m.picker.selected {
                        None => 0,
                        Some(s) => crate::scroll::clamped(s + delta, m.picker.matches.len() - 1),
                    }) as usize,
                ),
                follow: true,
                ..m.picker
            },
            ..m
        }
    }
}

/// A key while the address bar is open. It owns the keys: Enter goes to the
/// typed place, Escape only closes the bar.
pub open spec fn address_pressed(m: DialogState, a: Seq<char>, vk: u8, ctrl: bool) -> (DialogState, AskState) {
    if vk == 0x1B || (vk == 0x4C && ctrl) {
        (DialogState { address: None, ..m }, AskState::Done)
    } else if vk == 0x41 && ctrl {
        (DialogState { select_all: true, ..m }, AskState::Done)
    } else if vk == 0x0D {
        (m, AskState::Visit(path::path_of(typed_text(a))))
    } else if vk == 0x08 {
        (
            DialogState { address: Some(if a.len() == 0 { a } else { a.drop_last() }), ..m },
            AskState::Done,
        )
    } else if vk == 0x56 && ctrl {
        (m, AskState::Paste)
    } else {
        (m, AskState::Pass)
    }
}

/// A key of the dialog itself.
pub open spec fn list_pressed(m: DialogState, vk: u8, ctrl: bool, alt: bool) -> (DialogState, AskState) {
    let p = m.picker;
    let typed = path::path_of(typed_text(p.filter));
    if vk == 0x1B {
        (m, AskState::Close)
    } else if (vk == 0x4C && ctrl) || (vk == 0x44 && alt) {
        (addressing(m), AskState::Done)
    } else if vk == 0x41 && ctrl {
        if p.filter.len() == 0 {
            (addressing(m), AskState::Done)
        } else {
            (DialogState { select_all: true, ..m }, AskState::Done)
        }
    } else if vk == 0x0D && ctrl {
        (m, AskState::Choose(folders::answer(p)))
    } else if vk == 0x26 && alt {
        match path::path_parent(p.dir) {
            Some(up) => (DialogState { picker: folders::navigated(p, up), ..m }, AskState::List),
            None => (m, AskState::Done),
        }
    } else if vk == 0x25 {
        (DialogState { picker: folders::gone_back(p), ..m }, list_if(p.at > 0))
    } else if vk == 0x27 && alt {
        (
            DialogState { picker: folders::gone_forward(p), ..m },
            list_if(p.at + 1 < p.history.len()),
        )
    } else if vk == 0x56 && ctrl {
        (m, AskState::Paste)
    } else if vk == 0x2E {
        (cleared(m), if search_selected(m) { AskState::Rank } else { AskState::Done })
    } else if vk == 0x0D || vk == 0x09 || vk == 0x27 {
        if path::is_relative_path(typed) {
            activated(m)
        } else {
            (m, AskState::Try(typed))
        }
    } else if vk == 0x26 {
        (stepped(m, -1), AskState::Done)
    } else if vk == 0x28 {
        (stepped(m, 1), AskState::Done)
    } else if vk == 0x24 {
        (stepped(m, -1_073_741_824), AskState::Done)
    } else if vk == 0x23 {
        (stepped(m, 1_073_741_823), AskState::Done)
    } else if vk == 0x08 {
        if p.filter.len() == 0 {
            (DialogState { picker: folders::gone_back(p), ..m }, list_if(p.at > 0))
        } else {
            (
                DialogState { picker: PickerState { filter: p.filter.drop_last(), ..p }, ..m },
                AskState::Rank,
            )
        }
    } else {
        (m, AskState::Pass)
    }
}

/// A key while the dialog is open.
pub open spec fn dialog_pressed(m: DialogState, vk: u8, ctrl: bool, alt: bool) -> (DialogState, AskState) {
    match m.address {
        Some(a) => address_pressed(m, a, vk, ctrl),
        None => list_pressed(m, vk, ctrl, alt),
    }
}

/// The clipboard's text, pasted. Into the open address bar it is typed. Over
/// the listing an absolute path jumps straight there, a file's path to the
/// folder holding it, and anything else is a search.
pub open spec fn pasted_text(m: DialogState, s: Option<Seq<char>>, is_dir: bool, parent_is_dir: bool) -> (
    DialogState,
    AskState,
) {
    match m.address {
        Some(_) => match s {
            Some(t) => (extended(m, printable(typed_text(t))), AskState::Done),
            None => (cleared(m), AskState::Done),
        },
        None => match s {
            Some(t) => {
                let typed = typed_text(t);
                let p = path::path_of(typed);
                if !path::is_relative_path(p) && is_dir {
                    (gone_to(m, p), list_if(p != m.picker.dir))
                } else if !path::is_relative_path(p) && parent_is_dir && path::path_parent(p) is Some {
                    let up = path::path_parent(p)->Some_0;
                    (gone_to(m, up), list_if(up != m.picker.dir))
                } else if printable(typed).len() == 0 {
                    (m, AskState::Done)
                } else {
                    (extended(m, printable(typed)), AskState::Rank)
                }
            },
            None => (m, AskState::Done),
        },
    }
}

/// What a click in the dialog fell on.
#[derive(Debug, PartialEq, Eq)]
pub enum Spot {
    Open,
    Cancel,
    Back,
    Forward,
    Up,
    /// A segment of the address bar.
    Crumb(Path),
    /// The address bar beside its segments.
    Bar,
    /// The row of the address bar, but nothing on it.
    BarRow,
    /// A place of the rail.
    Place(Path),
    /// The rail, but no place.
    Rail,
    /// A row of the listing, counted from the first drawn.
    Row(usize),
    /// Anywhere else.
    Nowhere,
}

/// A click. Rows follow the tree's rule: one click selects, a second on the
/// same row opens. A click anywhere but on the bar closes an open address
/// bar and then counts as itself.
pub open spec fn dialog_clicked(m: DialogState, spot: Spot) -> (DialogState, AskState) {
    let p = m.picker;
    let shut = DialogState { address: None, ..m };
    match spot {
        Spot::Open => (m, AskState::Choose(folders::answer(p))),
        Spot::Cancel => (m, AskState::Close),
        Spot::Back => (DialogState { picker: folders::gone_back(p), ..m }, list_if(p.at > 0)),
        Spot::Forward => (
            DialogState { picker: folders::gone_forward(p), ..m },
            list_if(p.at + 1 < p.history.len()),
        ),
        Spot::Up => match path::path_parent(p.dir) {
            Some(up) => (DialogState { picker: folders::navigated(p, up), ..m }, AskState::List),
            None => (m, AskState::Done),
        },
        Spot::Crumb(dir) => (gone_to(m, dir@), list_if(dir@ != p.dir)),
        Spot::Bar => (addressing(m), AskState::Done),
        Spot::BarRow => (m, AskState::Done),
        Spot::Place(dir) => (gone_to(m, dir@), list_if(dir@ != p.dir)),
        Spot::Rail => (shut, AskState::Done),
        Spot::Row(i) => {
            let target = p.top + i;
            if target < p.matches.len() {
                let on = DialogState {
                    picker: PickerState { selected: Some(target as usize), ..p },
                    ..shut
                };
                if p.selected == Some(target as usize) { activated(on) } else { (on, AskState::Done) }
            } else {
                (shut, AskState::Done)
            }
        },
        Spot::Nowhere => (shut, AskState::Done),
    }
}

impl Dialog {
    /// Whether the dialog stands on its own trail.
    pub open spec fn wf(&self) -> bool {
        folders::on_trail(self@.picker)
    }

    pub fn new(picker: Picker) -> (r: Dialog)
        ensures
            r@ == (DialogState { picker: picker@, address: None, select_all: false }),
    {
        Dialog { picker, address: None, select_all: false }
    }

    /// Opens the address bar for typing, with the path filled in.
    pub fn edit_address(&mut self)
        ensures
            final(self)@ == addressing(old(self)@),
    {
        let t: String = self.picker.dir.text();
        self.address = Some(t);
        self.select_all = false;
    }

    /// Deletes what is selected whole. Says whether that was the search.
    pub fn clear_selected(&mut self) -> (r: bool)
        ensures
            final(self)@ == cleared(old(self)@),
            r == search_selected(old(self)@),
    {
        if !self.select_all {
            return false;
        }
        self.select_all = false;
        match self.address {
            Some(_) => {
                self.address = Some(String::new());
                assert(self@.address == Some(Seq::<char>::empty())) by {
                    assert(self.address->Some_0@ =~= Seq::<char>::empty());
                }
                false
            },
            None => {
                self.picker.filter = String::new();
                assert(self@.picker.filter =~= Seq::<char>::empty());
                true
            },
        }
    }

    fn extend(&mut self, more: &str)
        ensures
            final(self)@ == extended(old(self)@, more@),
    {
        let _search: bool = self.clear_selected();
        match self.address.take() {
            Some(a) => {
                self.address = Some(text::joined(a.as_str(), more));
            },
            None => {
                let f: String = text::joined(self.picker.filter.as_str(), more);
                self.picker.filter = f;
            },
        }
    }

    /// A typed character. Control characters are chords and type nothing.
    pub fn typed(&mut self, c: char) -> (r: Ask)
        ensures
            ({
                let m = old(self)@;
                if (c as u32) < 0x20 {
                    final(self)@ == m && r@ == AskState::Done
                } else {
                    &&& final(self)@ == extended(m, seq![c])
                    &&& r@ == (if m.address is None { AskState::Rank } else { AskState::Done })
                }
            }),
    {
        if (c as u32) < 0x20 {
            return Ask::Done;
        }
        let mut one: String = String::new();
        one.push(c);
        assert(one@ =~= seq![c]);
        let search: bool = self.address.is_none();
        self.extend(one.as_str());
        if search { Ask::Rank } else { Ask::Done }
    }

    /// Goes to a folder; the address bar closes.
    pub fn go_to(&mut self, dir: Path) -> (r: Ask)
        requires
            old(self).wf(),
        ensures
            final(self)@ == gone_to(old(self)@, dir@),
            r@ == list_if(dir@ != old(self)@.picker.dir),
            final(self).wf(),
    {
        self.address = None;
        self.select_all = false;
        if self.picker.navigate(dir) { Ask::List } else { Ask::Done }
    }

    fn up(&mut self) -> (r: Ask)
        requires
            old(self).wf(),
        ensures
            ({
                let m = old(self)@;
                match path::path_parent(m.picker.dir) {
                    Some(up) => {
                        &&& final(self)@ == (DialogState { picker: folders::navigated(m.picker, up), ..m })
                        &&& r@ == AskState::List
                    },
                    None => final(self)@ == m && r@ == AskState::Done,
                }
            }),
            final(self).wf(),
    {
        if self.picker.up() { Ask::List } else { Ask::Done }
    }

    fn back(&mut self) -> (r: Ask)
        requires
            old(self).wf(),
        ensures
            final(self)@ == (DialogState { picker: folders::gone_back(old(self)@.picker), ..old(self)@ }),
            r@ == list_if(old(self)@.picker.at > 0),
            final(self).wf(),
    {
        if self.picker.back() { Ask::List } else { Ask::Done }
    }

    fn forward(&mut self) -> (r: Ask)
        requires
            old(self).wf(),
        ensures
            final(self)@ == (DialogState {
                picker: folders::gone_forward(old(self)@.picker),
                ..old(self)@
            }),
            r@ == list_if(old(self)@.picker.at + 1 < old(self)@.picker.history.len()),
            final(self).wf(),
    {
        if self.picker.forward() { Ask::List } else { Ask::Done }
    }

    /// Acting on the selected row.
    pub fn activate(&mut self) -> (r: Ask)
        requires
            old(self).wf(),
        ensures
            final(self)@ == activated(old(self)@).0,
            r@ == activated(old(self)@).1,
            final(self).wf(),
    {
        match self.picker.selected_entry() {
            Some((row, at)) => {
                if row.is_dir {
                    self.go_to(at)
                } else {
                    Ask::Open(at)
                }
            },
            None => Ask::Done,
        }
    }

    fn address_key(&mut self, vk: u8, ctrl: bool) -> (r: Ask)
        requires
            old(self).wf(),
            old(self)@.address is Some,
        ensures
            final(self)@ == address_pressed(old(self)@, old(self)@.address->Some_0, vk, ctrl).0,
            r@ == address_pressed(old(self)@, old(self)@.address->Some_0, vk, ctrl).1,
            final(self).wf(),
    {
        if vk == 0x1B || (vk == 0x4C && ctrl) {
            self.address = None;
            return Ask::Done;
        }
        // The next keystroke replaces the whole path.
        if vk == 0x41 && ctrl {
            self.select_all = true;
            return Ask::Done;
        }
        if vk == 0x0D {
            let t: String = match &self.address {
                Some(a) => typed_of(a.as_str()),
                None => String::new(),
            };
            return Ask::Visit(Path::parse(t.as_str()));
        }
        if vk == 0x08 {
            match self.address.take() {
                Some(a) => {
                    let mut a: String = a;
                    let _gone: Option<char> = a.pop();
                    self.address = Some(a);
                },
                None => {},
            }
            return Ask::Done;
        }
        if vk == 0x56 && ctrl {
            return Ask::Paste;
        }
        // Unhandled, so the character still arrives and types the path.
        Ask::Pass
    }

    fn list_key(&mut self, vk: u8, ctrl: bool, alt: bool) -> (r: Ask)
        requires
            old(self).wf(),
        ensures
            final(self)@ == list_pressed(old(self)@, vk, ctrl, alt).0,
            r@ == list_pressed(old(self)@, vk, ctrl, alt).1,
            final(self).wf(),
    {
        match vk {
            0x1B => Ask::Close,
            // Ctrl+L, the browser reflex, and Alt+D, Explorer's own.
            0x4C if ctrl => {
                self.edit_address();
                Ask::Done
            },
            0x44 if alt => {
                self.edit_address();
                Ask::Done
            },
            // With the box already empty there is nothing to select and the
            // address bar is the more useful answer to the reflex.
            0x41 if ctrl => {
                if self.picker.filter.as_str().unicode_len() == 0 {
                    self.edit_address();
                } else {
                    self.select_all = true;
                }
                Ask::Done
            },
            0x0D if ctrl => Ask::Choose(self.picker.chosen()),
            // Alt+arrows are Explorer's own navigation set.
            0x26 if alt => self.up(),
            0x27 if alt => self.forward(),
            0x56 if ctrl => Ask::Paste,
            0x2E => {
                if self.clear_selected() { Ask::Rank } else { Ask::Done }
            },
            // Enter, Tab and Right all open the selection, unless the search
            // box holds an absolute path: then it is an address.
            0x0D | 0x09 | 0x27 => {
                let t: String = typed_of(self.picker.filter.as_str());
                let p: Path = Path::parse(t.as_str());
                if p.is_relative() {
                    self.activate()
                } else {
                    Ask::Try(p)
                }
            },
            0x25 => self.back(),
            0x26 => {
                self.picker.move_selection(-1);
                Ask::Done
            },
            0x28 => {
                self.picker.move_selection(1);
                Ask::Done
            },
            0x24 => {
                self.picker.move_selection(-1_073_741_824);
                Ask::Done
            },
            0x23 => {
                self.picker.move_selection(1_073_741_823);
                Ask::Done
            },
            // Backspace un-types the search while there is one; after that it
            // goes back.
            0x08 => {
                if self.picker.filter.as_str().unicode_len() == 0 {
                    self.back()
                } else {
                    self.picker.backspace();
                    Ask::Rank
                }
            },
            // Unhandled, so the character still arrives and types a search.
            _ => Ask::Pass,
        }
    }

    /// A key while the dialog is open.
    pub fn key(&mut self, vk: u8, ctrl: bool, alt: bool) -> (r: Ask)
        requires
            old(self).wf(),
        ensures
            final(self)@ == dialog_pressed(old(self)@, vk, ctrl, alt).0,
            r@ == dialog_pressed(old(self)@, vk, ctrl, alt).1,
            final(self).wf(),
    {
        if self.address.is_some() {
            self.address_key(vk, ctrl)
        } else {
            self.list_key(vk, ctrl, alt)
        }
    }

    /// Where the typed address leads: the folder itself, or the folder
    /// holding a named file. Nowhere closes the bar, and the crumbs come back
    /// and say where one still is.
    pub fn arrived(&mut self, p: Path, is_dir: bool, parent_is_dir: bool) -> (r: Ask)
        requires
            old(self).wf(),
        ensures
            ({
                let m = old(self)@;
                if is_dir {
                    final(self)@ == gone_to(m, p@) && r@ == list_if(p@ != m.picker.dir)
                } else if parent_is_dir && path::path_parent(p@) is Some {
                    let up = path::path_parent(p@)->Some_0;
                    final(self)@ == gone_to(m, up) && r@ == list_if(up != m.picker.dir)
                } else {
                    final(self)@ == (DialogState { address: None, ..m }) && r@ == AskState::Done
                }
            }),
            final(self).wf(),
    {
        if is_dir {
            return self.go_to(p);
        }
        if parent_is_dir {
            match p.parent() {
                Some(up) => {
                    return self.go_to(up);
                },
                None => {},
            }
        }
        self.address = None;
        Ask::Done
    }

    /// What came of trying the search box as an address.
    pub fn tried(&mut self, p: Path, is_dir: bool) -> (r: Ask)
        requires
            old(self).wf(),
        ensures
            ({
                let m = old(self)@;
                if is_dir {
                    final(self)@ == gone_to(m, p@) && r@ == list_if(p@ != m.picker.dir)
                } else {
                    final(self)@ == activated(m).0 && r@ == activated(m).1
                }
            }),
            final(self).wf(),
    {
        if is_dir {
            self.go_to(p)
        } else {
            self.activate()
        }
    }

    /// The path a pasted text would be, for asking the disk about it.
    pub fn pasted_path(s: &str) -> (r: Path)
        ensures
            r@ == path::path_of(typed_text(s@)),
    {
        let t: String = typed_of(s);
        Path::parse(t.as_str())
    }

    /// The clipboard's text, when it had one, and what the disk says of the
    /// path it would be.
    pub fn pasted(&mut self, s: Option<String>, is_dir: bool, parent_is_dir: bool) -> (r: Ask)
        requires
            old(self).wf(),
        ensures
            ({
                let (state, ask) = pasted_text(old(self)@, opt_text(s), is_dir, parent_is_dir);
                final(self)@ == state && r@ == ask
            }),
            final(self).wf(),
    {
        let open: bool = self.address.is_some();
        let t: String = match s {
            Some(t) => typed_of(t.as_str()),
            None => {
                if open {
                    let _search: bool = self.clear_selected();
                }
                return Ask::Done;
            },
        };
        let clean: String = without_control(t.as_str());
        if open {
            self.extend(clean.as_str());
            return Ask::Done;
        }
        let p: Path = Path::parse(t.as_str());
        if !p.is_relative() && is_dir {
            return self.go_to(p);
        }
        if !p.is_relative() && parent_is_dir {
            match p.parent() {
                Some(up) => {
                    return self.go_to(up);
                },
                None => {},
            }
        }
        if clean.as_str().unicode_len() == 0 {
            return Ask::Done;
        }
        self.extend(clean.as_str());
        Ask::Rank
    }

    /// A click on the dialog.
    pub fn click(&mut self, spot: Spot) -> (r: Ask)
        requires
            old(self).wf(),
        ensures
            final(self)@ == dialog_clicked(old(self)@, spot).0,
            r@ == dialog_clicked(old(self)@, spot).1,
            final(self).wf(),
    {
        match spot {
            Spot::Open => Ask::Choose(self.picker.chosen()),
            Spot::Cancel => Ask::Close,
            Spot::Back => self.back(),
            Spot::Forward => self.forward(),
            Spot::Up => self.up(),
            Spot::Crumb(dir) => self.go_to(dir),
            Spot::Bar => {
                self.edit_address();
                Ask::Done
            },
            Spot::BarRow => Ask::Done,
            Spot::Place(dir) => self.go_to(dir),
            Spot::Rail => {
                self.address = None;
                Ask::Done
            },
            Spot::Row(i) => {
                self.address = None;
                if self.picker.select_visible(i) {
                    self.activate()
                } else {
                    Ask::Done
                }
            },
            Spot::Nowhere => {
                self.address = None;
                Ask::Done
            },
        }
    }
}

// -------------------------------------------------------------------- laws

/// Escape on an open address bar leaves the dialog under it as it was: a
/// mistyped path costs nothing.
pub proof fn a_mistyped_path_costs_nothing(m: DialogState, ctrl: bool, alt: bool)
    requires
        m.address is Some,
    ensures
        dialog_pressed(m, 0x1B, ctrl, alt).0.picker == m.picker,
        dialog_pressed(m, 0x1B, ctrl, alt).0.address is None,
        dialog_pressed(m, 0x1B, ctrl, alt).1 == AskState::Done,
{
}

/// After Ctrl+A the next keystroke replaces the text rather than extending
/// it.
pub proof fn a_selected_text_is_replaced(m: DialogState, c: char)
    requires
        m.select_all,
    ensures
        ({
            let r = extended(m, seq![c]);
            &&& !r.select_all
            &&& m.address is Some ==> r.address == Some(seq![c]) && r.picker == m.picker
            &&& m.address is None ==> r.address is None && r.picker.filter == seq![c]
        }),
{
    assert(Seq::<char>::empty() + seq![c] =~= seq![c]);
}

/// Keys that type are left for the character path, wherever the typing goes.
pub proof fn typing_reaches_the_boxes(m: DialogState, vk: u8)
    requires
        0x30 <= vk <= 0x5A || vk == 0x20,
    ensures
        dialog_pressed(m, vk, false, false) == (m, AskState::Pass),
{
}

/// A click that hits nothing answers nothing.
pub proof fn a_slipped_click_is_no_answer(m: DialogState)
    ensures
        dialog_clicked(m, Spot::Nowhere).1 == AskState::Done,
        dialog_clicked(m, Spot::Nowhere).0.picker == m.picker,
{
}

/// The keys of the list: Up and Down go a row, Home and End to the first and
/// the last, and the first key selects the first row. The search and the
/// folder stay as they are.
pub proof fn keys_walk_the_rows(m: DialogState, ctrl: bool, s: usize)
    requires
        m.address is None,
        m.picker.matches.len() > 0,
        m.picker.matches.len() < 1_000_000,
        m.picker.selected == Some(s),
        s < m.picker.matches.len(),
    ensures
        ({
            let n = m.picker.matches.len();
            let on = |k: int| DialogState {
                picker: PickerState { selected: Some(k as usize), follow: true, ..m.picker },
                ..m
            };
            &&& s > 0 ==> dialog_pressed(m, 0x26, ctrl, false) == (on(s - 1), AskState::Done)
            &&& s == 0 ==> dialog_pressed(m, 0x26, ctrl, false) == (on(0), AskState::Done)
            &&& s + 1 < n ==> dialog_pressed(m, 0x28, ctrl, false) == (on(s + 1), AskState::Done)
            &&& s + 1 == n ==> dialog_pressed(m, 0x28, ctrl, false) == (on(s as int), AskState::Done)
            &&& dialog_pressed(m, 0x24, ctrl, false) == (on(0), AskState::Done)
            &&& dialog_pressed(m, 0x23, ctrl, false) == (on(n - 1), AskState::Done)
        }),
{
}

/// With nothing selected yet, any of those keys selects the first row, and
/// with nothing listed it does nothing.
pub proof fn the_first_key_selects_the_first_row(m: DialogState, vk: u8, ctrl: bool)
    requires
        m.address is None,
        m.picker.selected is None,
        vk == 0x26 || vk == 0x28 || vk == 0x24 || vk == 0x23,
    ensures
        m.picker.matches.len() > 0 ==> dialog_pressed(m, vk, ctrl, false).0 == (DialogState {
            picker: PickerState { selected: Some(0), follow: true, ..m.picker },
            ..m
        }),
        m.picker.matches.len() == 0 ==> dialog_pressed(m, vk, ctrl, false).0 == m,
        dialog_pressed(m, vk, ctrl, false).1 == AskState::Done,
{
}

/// Opening the selected row goes into a folder and lists it, and hands a
/// file over with the folder it lies in; the folder on view is left only for
/// a folder.
pub proof fn a_row_is_opened(m: DialogState, k: usize)
    requires
        folders::on_trail(m.picker),
        m.picker.at < usize::MAX,
        m.picker.selected == Some(k),
        k < m.picker.matches.len(),
        m.picker.matches[k as int].index < m.picker.entries.len(),
    ensures
        ({
            let row = m.picker.entries[m.picker.matches[k as int].index as int];
            let (after, ask) = activated(m);
            &&& row.is_dir ==> {
                &&& after.picker.dir.root == m.picker.dir.root
                &&& after.picker.dir.parts == m.picker.dir.parts.push(row.name)
                &&& after.picker.filter.len() == 0
                &&& after.address is None
                &&& ask == AskState::List
            }
            &&& !row.is_dir ==> {
                &&& after == m
                &&& ask is Open
                &&& ask->Open_0.root == m.picker.dir.root
                &&& ask->Open_0.parts == m.picker.dir.parts.push(row.name)
            }
        }),
{
    let row = m.picker.entries[m.picker.matches[k as int].index as int];
    assert(folders::inside(m.picker, row.name).parts.len() == m.picker.dir.parts.len() + 1);
}

/// The keys of the list that do not move in it.
pub proof fn keys_of_the_list(m: DialogState, ctrl: bool, alt: bool)
    requires
        m.address is None,
        folders::on_trail(m.picker),
        m.picker.at < usize::MAX,
    ensures
        dialog_pressed(m, 0x1B, ctrl, alt) == (m, AskState::Close),
        // Ctrl and Enter take the answer.
        dialog_pressed(m, 0x0D, true, alt) == (m, AskState::Choose(folders::answer(m.picker))),
        // Ctrl+L, or Alt+D, edit the address, which starts as the folder on view.
        dialog_pressed(m, 0x4C, true, alt).0.address == Some(path::path_text(m.picker.dir)),
        dialog_pressed(m, 0x4C, true, alt).0.picker == m.picker,
        dialog_pressed(m, 0x44, ctrl, true) == dialog_pressed(m, 0x4C, true, alt),
        // Ctrl+A selects the search, where there is one.
        m.picker.filter.len() > 0 ==> dialog_pressed(m, 0x41, true, alt) == (
            DialogState { select_all: true, ..m },
            AskState::Done,
        ),
        // Alt and an arrow go up, back and forward.
        path::path_parent(m.picker.dir) matches Some(up) ==> dialog_pressed(m, 0x26, ctrl, true).0.picker.dir == up
            && dialog_pressed(m, 0x26, ctrl, true).1 == AskState::List,
        path::path_parent(m.picker.dir) is None ==> dialog_pressed(m, 0x26, ctrl, true) == (m, AskState::Done),
        m.picker.at > 0 ==> dialog_pressed(m, 0x25, ctrl, alt).0.picker.dir == m.picker.history[m.picker.at - 1]
            && dialog_pressed(m, 0x25, ctrl, alt).1 == AskState::List,
        m.picker.at == 0 ==> dialog_pressed(m, 0x25, ctrl, alt) == (m, AskState::Done),
        m.picker.at + 1 < m.picker.history.len() ==> dialog_pressed(m, 0x27, ctrl, true).0.picker.dir
            == m.picker.history[m.picker.at + 1] && dialog_pressed(m, 0x27, ctrl, true).1 == AskState::List,
        m.picker.at + 1 == m.picker.history.len() ==> dialog_pressed(m, 0x27, ctrl, true) == (m, AskState::Done),
        dialog_pressed(m, 0x56, true, alt) == (m, AskState::Paste),
{
}

/// Backspace takes the last letter of the search and ranks the rows again;
/// with no search left it goes back.
pub proof fn backspace_in_the_list(m: DialogState, ctrl: bool, alt: bool)
    requires
        m.address is None,
    ensures
        m.picker.filter.len() > 0 ==> dialog_pressed(m, 0x08, ctrl, alt) == (
            DialogState {
                picker: PickerState { filter: m.picker.filter.take(m.picker.filter.len() - 1), ..m.picker },
                ..m
            },
            AskState::Rank,
        ),
        m.picker.filter.len() == 0 && m.picker.at > 0 ==> dialog_pressed(m, 0x08, ctrl, alt).0.picker.dir
            == m.picker.history[m.picker.at - 1],
        m.picker.filter.len() == 0 && m.picker.at == 0 ==> dialog_pressed(m, 0x08, ctrl, alt) == (
            m,
            AskState::Done,
        ),
{
    if m.picker.filter.len() > 0 {
        assert(m.picker.filter.drop_last() =~= m.picker.filter.take(m.picker.filter.len() - 1));
    }
}

/// Enter in the list opens the selected row, unless a whole path is typed in
/// the search: that one is tried.
pub proof fn enter_opens_the_row_or_the_typed_path(m: DialogState)
    requires
        m.address is None,
    ensures
        path::is_relative_path(path::path_of(typed_text(m.picker.filter))) ==> dialog_pressed(
            m,
            0x0D,
            false,
            false,
        ) == activated(m),
        !path::is_relative_path(path::path_of(typed_text(m.picker.filter))) ==> dialog_pressed(
            m,
            0x0D,
            false,
            false,
        ) == (m, AskState::Try(path::path_of(typed_text(m.picker.filter)))),
{
}

/// The keys while the address is edited: Enter visits what is typed, Esc
/// gives the bar back, and neither touches the list.
pub proof fn keys_of_the_address(m: DialogState, a: Seq<char>, alt: bool)
    requires
        m.address == Some(a),
    ensures
        dialog_pressed(m, 0x1B, false, alt) == (DialogState { address: None, ..m }, AskState::Done),
        dialog_pressed(m, 0x0D, false, alt) == (m, AskState::Visit(path::path_of(typed_text(a)))),
        a.len() > 0 ==> dialog_pressed(m, 0x08, false, alt) == (
            DialogState { address: Some(a.take(a.len() - 1)), ..m },
            AskState::Done,
        ),
        a.len() == 0 ==> dialog_pressed(m, 0x08, false, alt) == (m, AskState::Done),
        dialog_pressed(m, 0x41, true, alt) == (DialogState { select_all: true, ..m }, AskState::Done),
        dialog_pressed(m, 0x56, true, alt) == (m, AskState::Paste),
{
    if a.len() > 0 {
        assert(a.drop_last() =~= a.take(a.len() - 1));
    }
}

/// A typed character goes to the end of the address where that is edited,
/// and otherwise to the end of the search.
pub proof fn what_is_typed_goes_to_its_box(m: DialogState, more: Seq<char>)
    requires
        !m.select_all,
    ensures
        m.address matches Some(a) ==> extended(m, more) == (DialogState { address: Some(a + more), ..m }),
        m.address is None ==> extended(m, more) == (DialogState {
            picker: PickerState { filter: m.picker.filter + more, ..m.picker },
            ..m
        }),
{
}

/// A path may be typed with quotes around it, as it is copied: they are no
/// part of it.
pub proof fn quotes_are_no_part_of_a_path(s: Seq<char>)
    requires
        s.len() > 0,
        s[0] != '"',
        s.last() != '"',
        !text::is_white(s[0]),
        !text::is_white(s.last()),
    ensures
        typed_text(s) == s,
        typed_text(seq!['"'] + s + seq!['"']) == s,
{
    text::lemma_trimmed_fixed(s);
    assert(s.subrange(0, s.len() as int) =~= s);
    let q = seq!['"'] + s + seq!['"'];
    assert(q[0] == '"' && q.last() == '"');
    text::lemma_trimmed_fixed(q);
    reveal_with_fuel(past_quotes, 3);
    reveal_with_fuel(before_quotes, 3);
    assert(q[1] == s[0]);
    assert(q[q.len() - 2] == s.last());
    assert(q.subrange(1, q.len() - 1) =~= s);
}

/// Text that is pasted loses its control characters and nothing else.
pub proof fn control_characters_are_not_pasted(a: Seq<char>, c: char, b: Seq<char>)
    ensures
        (c as u32) < 0x20 || 0x7f <= (c as u32) <= 0x9f ==> printable(a + seq![c] + b) == printable(a) + printable(b),
        !((c as u32) < 0x20 || 0x7f <= (c as u32) <= 0x9f) ==> printable(a + seq![c] + b) == printable(a) + seq![c]
            + printable(b),
    decreases b.len(),
{
    let all = a + seq![c] + b;
    if b.len() == 0 {
        assert(all =~= a.push(c));
        assert(a.push(c).drop_last() =~= a);
        assert(printable(a) + printable(b) =~= printable(a));
        assert(printable(a) + seq![c] + printable(b) =~= printable(a).push(c));
    } else {
        control_characters_are_not_pasted(a, c, b.drop_last());
        assert(all.drop_last() =~= a + seq![c] + b.drop_last());
        assert(all.last() == b.last());
        if is_control(c) {
            assert(printable(all) =~= printable(a) + printable(b));
        } else {
            assert(printable(all) =~= printable(a) + seq![c] + printable(b));
        }
    }
}

/// A whole path that is pasted into the list is gone to: the folder, or for
/// a file the folder it lies in. Anything else is searched for.
pub proof fn a_pasted_path_is_gone_to(m: DialogState, t: Seq<char>, parent_is_dir: bool)
    requires
        m.address is None,
        folders::on_trail(m.picker),
        m.picker.at < usize::MAX,
    ensures
        ({
            let p = path::path_of(typed_text(t));
            let whole = !path::is_relative_path(p);
            &&& whole ==> pasted_text(m, Some(t), true, parent_is_dir).0.picker.dir == p
            &&& whole && path::path_parent(p) is Some ==> pasted_text(m, Some(t), false, true).0.picker.dir
                == path::path_parent(p).unwrap()
            &&& !whole && printable(typed_text(t)).len() > 0 && !m.select_all ==> pasted_text(
                m,
                Some(t),
                true,
                parent_is_dir,
            ) == (
                DialogState {
                    picker: PickerState { filter: m.picker.filter + printable(typed_text(t)), ..m.picker },
                    ..m
                },
                AskState::Rank,
            )
            &&& pasted_text(m, None, true, parent_is_dir) == (m, AskState::Done)
        }),
{
}

/// What a click does, place by place: the buttons do what they say, a
/// segment of the address and a place in the rail lead there, and a row is
/// selected, or opened where it was selected already.
pub proof fn clicks_do_what_they_are_on(m: DialogState, dir: Path, i: usize)
    requires
        folders::on_trail(m.picker),
        m.picker.at < usize::MAX,
    ensures
        dialog_clicked(m, Spot::Open) == (m, AskState::Choose(folders::answer(m.picker))),
        dialog_clicked(m, Spot::Cancel) == (m, AskState::Close),
        m.picker.at > 0 ==> dialog_clicked(m, Spot::Back).0.picker.dir == m.picker.history[m.picker.at - 1],
        m.picker.at == 0 ==> dialog_clicked(m, Spot::Back) == (m, AskState::Done),
        m.picker.at + 1 < m.picker.history.len() ==> dialog_clicked(m, Spot::Forward).0.picker.dir
            == m.picker.history[m.picker.at + 1],
        path::path_parent(m.picker.dir) matches Some(up) ==> dialog_clicked(m, Spot::Up).0.picker.dir == up,
        dialog_clicked(m, Spot::Crumb(dir)).0.picker.dir == dir@,
        dialog_clicked(m, Spot::Place(dir)).0.picker.dir == dir@,
        dialog_clicked(m, Spot::Crumb(dir)).1 == AskState::List <==> dir@ != m.picker.dir,
        dialog_clicked(m, Spot::Place(dir)).1 == AskState::List <==> dir@ != m.picker.dir,
        dialog_clicked(m, Spot::Bar).0.address == Some(path::path_text(m.picker.dir)),
        m.picker.top + i < m.picker.matches.len() && m.picker.selected != Some((m.picker.top + i) as usize)
            ==> dialog_clicked(m, Spot::Row(i)) == (
            DialogState {
                picker: PickerState { selected: Some((m.picker.top + i) as usize), ..m.picker },
                address: None,
                ..m
            },
            AskState::Done,
        ),
        m.picker.top + i < m.picker.matches.len() && m.picker.selected == Some((m.picker.top + i) as usize)
            && m.address is None ==> dialog_clicked(m, Spot::Row(i)) == activated(m),
        m.picker.top + i >= m.picker.matches.len() ==> dialog_clicked(m, Spot::Row(i)) == (
            DialogState { address: None, ..m },
            AskState::Done,
        ),
{
}

} // verus!
