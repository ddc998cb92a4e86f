//! What a key means, given where the focus is.
//!
//! The overlays take every key while one is open. Bound actions win over pane
//! content: a terminal that swallows every key makes anything checked after
//! it dead code. What is left belongs to whatever the focused pane holds.
use vstd::prelude::*;
use vstd::string::*;
use crate::action::Action;
use crate::content::{Settings, Welcome};
use crate::desk;
use crate::desk::{Confirm, ConfirmState, Desk, DeskState};
use crate::git;
use crate::panes;
use crate::panes::{Content, ContentState};
use crate::path;
use crate::path::{Path, PathState};
use crate::scroll;

verus! {

/// The modifiers held with a key.
#[derive(Clone, Copy, Debug, PartialEq, Eq, Structural)]
pub struct Mods {
    pub ctrl: bool,
    pub shift: bool,
    pub alt: bool,
}

/// Where an action applies. Scoped actions step aside rather than claiming a
/// key from whatever has focus.
#[derive(Clone, Copy, Debug, PartialEq, Eq, Structural)]
pub enum Scope {
    Global,
    /// Everywhere but in a terminal, where it is a control character a shell
    /// needs.
    Editor,
    /// On the file tree only.
    Explorer,
}

pub open spec fn scope_applies(s: Scope, on: Option<ContentState>) -> bool {
    match s {
        Scope::Global => true,
        Scope::Editor => on != Some(ContentState::Terminal),
        Scope::Explorer => on == Some(ContentState::Explorer),
    }
}

/// A key as vim knows it.
#[derive(Clone, Copy, Debug, PartialEq, Eq, Structural)]
pub enum VimKey {
    Esc,
    Enter,
    Backspace,
    Delete,
    Tab,
    Left,
    Up,
    Right,
    Down,
    Home,
    End,
    PageUp,
    PageDown,
    Ctrl(char),
    Char(char),
}

/// The small letter of a letter key.
pub open spec fn small_letter(vk: u8) -> char {
    (vk + 32) as char
}

/// Whether a key is a letter.
pub open spec fn is_letter_key(vk: u8) -> bool {
    0x41 <= vk <= 0x5A
}

/// The keys that reach vim as keys rather than as characters: the ones with
/// no character, and Ctrl with a letter, which the layout cannot move.
pub open spec fn vim_name(vk: u8, mods: Mods) -> Option<VimKey> {
    if mods.ctrl && is_letter_key(vk) && !mods.shift {
        Some(VimKey::Ctrl(small_letter(vk)))
    } else if vk == 0x1B {
        Some(VimKey::Esc)
    } else if vk == 0x0D {
        Some(VimKey::Enter)
    } else if vk == 0x08 {
        Some(VimKey::Backspace)
    } else if vk == 0x2E {
        Some(VimKey::Delete)
    } else if vk == 0x09 {
        Some(VimKey::Tab)
    } else if vk == 0x25 {
        Some(VimKey::Left)
    } else if vk == 0x26 {
        Some(VimKey::Up)
    } else if vk == 0x27 {
        Some(VimKey::Right)
    } else if vk == 0x28 {
        Some(VimKey::Down)
    } else if vk == 0x24 {
        Some(VimKey::Home)
    } else if vk == 0x23 {
        Some(VimKey::End)
    } else if vk == 0x21 {
        Some(VimKey::PageUp)
    } else if vk == 0x22 {
        Some(VimKey::PageDown)
    } else {
        None
    }
}

fn letter(vk: u8) -> (r: char)
    requires
        is_letter_key(vk),
    ensures
        r == small_letter(vk),
{
    (vk + 32) as char
}

pub fn vim_named_key(vk: u8, mods: Mods) -> (r: Option<VimKey>)
    ensures
        r == vim_name(vk, mods),
{
    if mods.ctrl && 0x41 <= vk && vk <= 0x5A && !mods.shift {
        return Some(VimKey::Ctrl(letter(vk)));
    }
    match vk {
        0x1B => Some(VimKey::Esc),
        0x0D => Some(VimKey::Enter),
        0x08 => Some(VimKey::Backspace),
        0x2E => Some(VimKey::Delete),
        0x09 => Some(VimKey::Tab),
        0x25 => Some(VimKey::Left),
        0x26 => Some(VimKey::Up),
        0x27 => Some(VimKey::Right),
        0x28 => Some(VimKey::Down),
        0x24 => Some(VimKey::Home),
        0x23 => Some(VimKey::End),
        0x21 => Some(VimKey::PageUp),
        0x22 => Some(VimKey::PageDown),
        _ => None,
    }
}

/// What a terminal is sent for a key that has no character. The modern
/// contract, backwards from the labels: plain Backspace sends DEL and
/// Ctrl+Backspace sends BS.
pub open spec fn terminal_bytes(vk: u8, ctrl: bool) -> Option<Seq<u8>> {
    if vk == 0x08 {
        Some(if ctrl { seq![0x08u8] } else { seq![0x7fu8] })
    } else if vk == 0x25 {
        Some(seq![0x1bu8, 0x5b, 0x44])
    } else if vk == 0x26 {
        Some(seq![0x1bu8, 0x5b, 0x41])
    } else if vk == 0x27 {
        Some(seq![0x1bu8, 0x5b, 0x43])
    } else if vk == 0x28 {
        Some(seq![0x1bu8, 0x5b, 0x42])
    } else if vk == 0x24 {
        Some(seq![0x1bu8, 0x5b, 0x48])
    } else if vk == 0x23 {
        Some(seq![0x1bu8, 0x5b, 0x46])
    } else if vk == 0x2E {
        Some(seq![0x1bu8, 0x5b, 0x33, 0x7e])
    } else if vk == 0x21 {
        Some(seq![0x1bu8, 0x5b, 0x35, 0x7e])
    } else if vk == 0x22 {
        Some(seq![0x1bu8, 0x5b, 0x36, 0x7e])
    } else {
        None
    }
}

/// Bytes as a value, or nothing.
pub open spec fn opt_bytes(b: Option<Vec<u8>>) -> Option<Seq<u8>> {
    match b {
        Some(v) => Some(v@),
        None => None,
    }
}

fn escape(last: u8) -> (r: Vec<u8>)
    ensures
        r@ == seq![0x1bu8, 0x5b, last],
{
    let mut out: Vec<u8> = Vec::new();
    out.push(0x1b);
    out.push(0x5b);
    out.push(last);
    assert(out@ =~= seq![0x1bu8, 0x5b, last]);
    out
}

fn tilde(n: u8) -> (r: Vec<u8>)
    ensures
        r@ == seq![0x1bu8, 0x5b, n, 0x7e],
{
    let mut out: Vec<u8> = escape(n);
    out.push(0x7e);
    assert(out@ =~= seq![0x1bu8, 0x5b, n, 0x7e]);
    out
}

/// Terminal encoding for special keys. Printable characters come with the
/// layout applied, so only keys with an escape sequence belong here.
pub fn term_key_bytes(vk: u8, ctrl: bool) -> (r: Option<Vec<u8>>)
    ensures
        opt_bytes(r) == terminal_bytes(vk, ctrl),
{
    match vk {
        0x08 => {
            let mut out: Vec<u8> = Vec::new();
            out.push(if ctrl { 0x08 } else { 0x7f });
            assert(out@ =~= seq![if ctrl { 0x08u8 } else { 0x7f }]);
            Some(out)
        },
        0x25 => Some(escape(0x44)),
        0x26 => Some(escape(0x41)),
        0x27 => Some(escape(0x43)),
        0x28 => Some(escape(0x42)),
        0x24 => Some(escape(0x48)),
        0x23 => Some(escape(0x46)),
        0x2E => Some(tilde(0x33)),
        0x21 => Some(tilde(0x35)),
        0x22 => Some(tilde(0x36)),
        _ => None,
    }
}

// ---------------------------------------------------------------- the panes

/// Up, down, a page, or to either end.
pub open spec fn is_step_key(vk: u8) -> bool {
    vk == 0x26 || vk == 0x28 || vk == 0x21 || vk == 0x22 || vk == 0x24 || vk == 0x23
}

/// Whether the settings screen takes a key.
pub open spec fn settings_takes(vk: u8) -> bool {
    is_step_key(vk) || vk == 0x25 || vk == 0x27 || vk == 0x0D || vk == 0x20 || vk == 0x1B
}

/// Whether the welcome screen takes a key.
pub open spec fn welcome_takes(vk: u8) -> bool {
    vk == 0x26 || vk == 0x28 || vk == 0x24 || vk == 0x23 || vk == 0x0D
}

/// Whether the git panel takes a key.
pub open spec fn git_takes(vk: u8) -> bool {
    is_step_key(vk) || vk == 0x1B || vk == 0x25 || vk == 0x08 || vk == 0x20 || vk == 0x0D || vk == 0x43
        || vk == 0x4C || vk == 0x52 || vk == 0x58 || vk == 0x50
}

/// Whether the file tree takes a key.
pub open spec fn tree_takes(vk: u8) -> bool {
    is_step_key(vk) || vk == 0x25 || vk == 0x27 || vk == 0x0D || vk == 0x74 || vk == 0x08
}

/// What a key does to a settings screen.
#[derive(Clone, Copy, Debug, PartialEq, Eq, Structural)]
pub enum SettingsDo {
    Pass,
    Done,
    /// Step this setting by that much, and let it land at once.
    Change { setting: usize, delta: i32 },
    /// Leave the screen.
    Close,
}

/// Moves the settings selection.
pub fn step_selection(s: &mut Settings, delta: i32, count: usize) -> (r: bool)
    requires
        count > 0,
    ensures
        r,
        final(s).selected == scroll::clamped(old(s).selected + delta, count - 1),
        final(s).status is None,
        final(s).top == old(s).top,
        final(s).selection_seen == old(s).selection_seen,
{
    s.move_selection(delta, count);
    true
}

/// Settings keys. Up and down pick a row, left and right change it.
pub fn settings_key(s: &mut Settings, vk: u8, visible: usize, count: usize) -> (r: SettingsDo)
    requires
        count > 0,
    ensures
        ({
            let o = *old(s);
            match git::key_step(vk, visible as nat) {
                Some(by) => {
                    &&& r == SettingsDo::Done
                    &&& final(s).selected == scroll::clamped(o.selected + by, count - 1)
                    &&& final(s).status is None
                    &&& final(s).top == o.top
                    &&& final(s).selection_seen == o.selection_seen
                },
                None => if vk == 0x25 || vk == 0x27 || vk == 0x0D || vk == 0x20 {
                    &&& r == (SettingsDo::Change {
                        setting: scroll::clamped(o.selected as int, count - 1) as usize,
                        delta: (if vk == 0x25 { -1 } else { 1int }) as i32,
                    })
                    &&& final(s).selected == o.selected
                    &&& final(s).status is None
                    &&& final(s).top == o.top
                    &&& final(s).selection_seen == o.selection_seen
                } else {
                    &&& r == (if vk == 0x1B { SettingsDo::Close } else { SettingsDo::Pass })
                    &&& *final(s) == o
                },
            }
        }),
        r == SettingsDo::Pass <==> !settings_takes(vk),
        // Up and down go one row, and the setting changed is the one selected:
        // back with the left key, on with the others.
        vk == 0x26 && 0 < old(s).selected < count ==> final(s).selected == old(s).selected - 1,
        vk == 0x28 && old(s).selected + 1 < count ==> final(s).selected == old(s).selected + 1,
        vk == 0x24 && old(s).selected < 1_000_000 ==> final(s).selected == 0,
        vk == 0x23 && count < 1_000_000 ==> final(s).selected == count - 1,
        vk == 0x25 && old(s).selected < count ==> r == (SettingsDo::Change {
            setting: old(s).selected,
            delta: (-1) as i32,
        }),
        (vk == 0x27 || vk == 0x0D || vk == 0x20) && old(s).selected < count ==> r == (SettingsDo::Change {
            setting: old(s).selected,
            delta: 1,
        }),
        vk == 0x1B ==> r == SettingsDo::Close,
{
    match git::step_of(vk, visible) {
        Some(delta) => {
            let _moved: bool = step_selection(s, delta, count);
            return SettingsDo::Done;
        },
        None => {},
    }
    match vk {
        0x25 | 0x27 | 0x0D | 0x20 => {
            let setting: usize = s.setting(count);
            s.status = None;
            SettingsDo::Change { setting, delta: if vk == 0x25 { -1 } else { 1 } }
        },
        0x1B => SettingsDo::Close,
        _ => SettingsDo::Pass,
    }
}

/// What a key does to the welcome screen.
#[derive(Debug, PartialEq, Eq)]
pub enum WelcomeDo {
    Pass,
    Done,
    /// Go to work there.
    Go(Path),
}

/// Welcome screen keys: pick a place, go there. Everything else falls
/// through, so the global shortcuts all still work from the doorway.
pub fn welcome_key(w: &mut Welcome, vk: u8) -> (r: WelcomeDo)
    ensures
        ({
            let rows = old(w).rows@;
            let at = old(w).selected;
            if vk == 0x26 || vk == 0x28 || vk == 0x24 || vk == 0x23 {
                let by: int = if vk == 0x26 {
                    -1
                } else if vk == 0x28 {
                    1
                } else if vk == 0x24 {
                    -1_073_741_824
                } else {
                    1_073_741_823
                };
                &&& r is Done
                &&& final(w).rows == old(w).rows
                &&& final(w).selected == (if rows.len() == 0 {
                    at as int
                } else {
                    scroll::clamped(at + by, rows.len() - 1)
                })
            } else if vk == 0x0D {
                &&& *final(w) == *old(w)
                &&& if at < rows.len() {
                    r matches WelcomeDo::Go(p) && p@ == rows[at as int].1@
                } else {
                    r is Done
                }
            } else {
                r is Pass && *final(w) == *old(w)
            }
        }),
        r is Pass <==> !welcome_takes(vk),
        // Up and down go one row, Home and End to the first and the last.
        vk == 0x26 && 0 < old(w).selected < old(w).rows@.len() ==> final(w).selected == old(w).selected - 1,
        vk == 0x28 && old(w).selected + 1 < old(w).rows@.len() ==> final(w).selected == old(w).selected + 1,
        vk == 0x24 && 0 < old(w).rows@.len() && old(w).selected < 1_000_000 ==> final(w).selected == 0,
        vk == 0x23 && 0 < old(w).rows@.len() < 1_000_000 ==> final(w).selected == old(w).rows@.len() - 1,
{
    match vk {
        0x26 => {
            w.move_selection(-1);
            WelcomeDo::Done
        },
        0x28 => {
            w.move_selection(1);
            WelcomeDo::Done
        },
        0x24 => {
            w.move_selection(-1_073_741_824);
            WelcomeDo::Done
        },
        0x23 => {
            w.move_selection(1_073_741_823);
            WelcomeDo::Done
        },
        0x0D => match w.chosen() {
            Some(p) => WelcomeDo::Go(p),
            None => WelcomeDo::Done,
        },
        _ => WelcomeDo::Pass,
    }
}

/// What a key does to the file tree.
#[derive(Debug, PartialEq, Eq)]
pub enum TreeDo {
    Pass,
    Done,
    Move(i32),
    First,
    Last,
    CollapseOrParent,
    /// Expand the selected directory, or open the selected file.
    Activate,
    /// Read the tree and the git status again.
    Refresh,
    /// Move the whole workspace up to this.
    Up(Path),
}

/// What a key does to the tree, as a value.
pub enum TreeState {
    Pass,
    Done,
    Move(int),
    First,
    Last,
    CollapseOrParent,
    Activate,
    Refresh,
    Up(PathState),
}

impl View for TreeDo {
    type V = TreeState;

    open spec fn view(&self) -> TreeState {
        match self {
            TreeDo::Pass => TreeState::Pass,
            TreeDo::Done => TreeState::Done,
            TreeDo::Move(n) => TreeState::Move(*n as int),
            TreeDo::First => TreeState::First,
            TreeDo::Last => TreeState::Last,
            TreeDo::CollapseOrParent => TreeState::CollapseOrParent,
            TreeDo::Activate => TreeState::Activate,
            TreeDo::Refresh => TreeState::Refresh,
            TreeDo::Up(p) => TreeState::Up(p@),
        }
    }
}

/// Right expands but never collapses: on a directory that is already open it
/// steps into it. Backspace moves up a level, except at a drive root.
pub open spec fn tree_pressed(vk: u8, visible: nat, on_open_dir: bool, root: PathState) -> TreeState {
    if vk == 0x24 {
        TreeState::First
    } else if vk == 0x23 {
        TreeState::Last
    } else if is_step_key(vk) {
        TreeState::Move(git::key_step(vk, visible)->Some_0)
    } else if vk == 0x25 {
        TreeState::CollapseOrParent
    } else if vk == 0x27 {
        if on_open_dir { TreeState::Move(1) } else { TreeState::Activate }
    } else if vk == 0x0D {
        TreeState::Activate
    } else if vk == 0x74 {
        TreeState::Refresh
    } else if vk == 0x08 {
        match path::path_parent(root) {
            Some(up) => TreeState::Up(up),
            None => TreeState::Done,
        }
    } else {
        TreeState::Pass
    }
}

/// Tree keys. `on_open_dir` says whether the selection is a directory that is
/// open.
pub fn explorer_key(vk: u8, visible: usize, on_open_dir: bool, root: &Path) -> (r: TreeDo)
    ensures
        r@ == tree_pressed(vk, visible as nat, on_open_dir, root@),
        r is Pass <==> !tree_takes(vk),
{
    match vk {
        0x24 => TreeDo::First,
        0x23 => TreeDo::Last,
        0x26 | 0x28 | 0x21 | 0x22 => match git::step_of(vk, visible) {
            Some(n) => TreeDo::Move(n),
            None => TreeDo::Done,
        },
        0x25 => TreeDo::CollapseOrParent,
        0x27 => if on_open_dir { TreeDo::Move(1) } else { TreeDo::Activate },
        0x0D => TreeDo::Activate,
        0x74 => TreeDo::Refresh,
        0x08 => match root.parent() {
            Some(up) => TreeDo::Up(up),
            None => TreeDo::Done,
        },
        _ => TreeDo::Pass,
    }
}

/// What a key does to the focused buffer. Shift extends the selection
/// everywhere.
#[derive(Clone, Copy, Debug, PartialEq, Eq, Structural)]
pub enum EditKey {
    Left { extend: bool },
    Right { extend: bool },
    WordLeft { extend: bool },
    WordRight { extend: bool },
    /// So many lines down.
    Vertical { lines: i64, extend: bool },
    LineStart { extend: bool },
    LineEnd { extend: bool },
    DocStart { extend: bool },
    DocEnd { extend: bool },
    Backspace,
    /// A pair dies whole when the caret sits inside it.
    BackspacePair,
    DeleteWordLeft,
    Delete,
    DeleteWordRight,
    /// A block one level out or in.
    Dedent,
    Indent,
    /// An indent at the caret, not a block shift.
    Spaces,
}

/// Whether a key edits, and so clears what was last said.
pub open spec fn is_edit(k: EditKey) -> bool {
    k is Backspace || k is BackspacePair || k is DeleteWordLeft || k is Delete || k is DeleteWordRight
        || k is Dedent || k is Indent || k is Spaces
}

impl EditKey {
    pub fn edits(self) -> (r: bool)
        ensures
            r == is_edit(self),
    {
        matches!(
            self,
            EditKey::Backspace | EditKey::BackspacePair | EditKey::DeleteWordLeft | EditKey::Delete
                | EditKey::DeleteWordRight | EditKey::Dedent | EditKey::Indent | EditKey::Spaces
        )
    }
}

/// Editor keys: movement and the deletes. Text itself arrives as characters,
/// with the keyboard layout applied. Tab is here because Shift+Tab produces
/// no character at all.
pub open spec fn editor_pressed(vk: u8, mods: Mods, visible: nat, auto_close: bool, selecting: bool) -> Option<EditKey> {
    let extend = mods.shift;
    let page = if visible <= i64::MAX { visible as i64 } else { i64::MAX };
    if vk == 0x25 {
        Some(if mods.ctrl { EditKey::WordLeft { extend } } else { EditKey::Left { extend } })
    } else if vk == 0x27 {
        Some(if mods.ctrl { EditKey::WordRight { extend } } else { EditKey::Right { extend } })
    } else if vk == 0x26 {
        Some(EditKey::Vertical { lines: (-1) as i64, extend })
    } else if vk == 0x28 {
        Some(EditKey::Vertical { lines: 1, extend })
    } else if vk == 0x21 {
        Some(EditKey::Vertical { lines: (-page) as i64, extend })
    } else if vk == 0x22 {
        Some(EditKey::Vertical { lines: page, extend })
    } else if vk == 0x24 {
        Some(if mods.ctrl { EditKey::DocStart { extend } } else { EditKey::LineStart { extend } })
    } else if vk == 0x23 {
        Some(if mods.ctrl { EditKey::DocEnd { extend } } else { EditKey::LineEnd { extend } })
    } else if vk == 0x08 {
        Some(
            if mods.ctrl {
                EditKey::DeleteWordLeft
            } else if auto_close {
                EditKey::BackspacePair
            } else {
                EditKey::Backspace
            },
        )
    } else if vk == 0x2E {
        Some(if mods.ctrl { EditKey::DeleteWordRight } else { EditKey::Delete })
    } else if vk == 0x09 {
        Some(
            if extend {
                EditKey::Dedent
            } else if selecting {
                EditKey::Indent
            } else {
                EditKey::Spaces
            },
        )
    } else {
        None
    }
}

pub fn editor_key(vk: u8, mods: Mods, visible: usize, auto_close: bool, selecting: bool) -> (r: Option<EditKey>)
    ensures
        r == editor_pressed(vk, mods, visible as nat, auto_close, selecting),
{
    let extend: bool = mods.shift;
    let page: i64 = if (visible as u128) <= 0x7fff_ffff_ffff_ffff { visible as i64 } else { i64::MAX };
    match vk {
        0x25 => Some(if mods.ctrl { EditKey::WordLeft { extend } } else { EditKey::Left { extend } }),
        0x27 => Some(if mods.ctrl { EditKey::WordRight { extend } } else { EditKey::Right { extend } }),
        0x26 => Some(EditKey::Vertical { lines: -1, extend }),
        0x28 => Some(EditKey::Vertical { lines: 1, extend }),
        0x21 => Some(EditKey::Vertical { lines: -page, extend }),
        0x22 => Some(EditKey::Vertical { lines: page, extend }),
        0x24 => Some(if mods.ctrl { EditKey::DocStart { extend } } else { EditKey::LineStart { extend } }),
        0x23 => Some(if mods.ctrl { EditKey::DocEnd { extend } } else { EditKey::LineEnd { extend } }),
        0x08 => Some(
            if mods.ctrl {
                EditKey::DeleteWordLeft
            } else if auto_close {
                EditKey::BackspacePair
            } else {
                EditKey::Backspace
            },
        ),
        0x2E => Some(if mods.ctrl { EditKey::DeleteWordRight } else { EditKey::Delete }),
        0x09 => Some(
            if extend {
                EditKey::Dedent
            } else if selecting {
                EditKey::Indent
            } else {
                EditKey::Spaces
            },
        ),
        _ => None,
    }
}

/// What a key does in the agent pane.
#[derive(Clone, Copy, Debug, PartialEq, Eq, Structural)]
pub enum AgentKey {
    Pass,
    Answer,
    Deny,
    AskMove(i32),
    /// Scroll the transcript up by so many lines.
    Scroll(i64),
    CompleteMove(i32),
    Complete,
    Send,
    Cancel,
    Backspace { word: bool },
}

/// How far a key scrolls the transcript: three lines, or a page.
pub open spec fn transcript_step(vk: u8, visible: nat) -> Option<int> {
    let page = if visible <= i64::MAX { visible as int } else { i64::MAX as int };
    if vk == 0x26 {
        Some(3)
    } else if vk == 0x28 {
        Some(-3)
    } else if vk == 0x21 {
        Some(page)
    } else if vk == 0x22 {
        Some(-page)
    } else {
        None
    }
}

/// A question up in the pane takes the keys a question takes; the transcript
/// still scrolls, so what is being asked about can be read. The completion
/// list, while a command is being typed, takes the arrows and Tab.
pub open spec fn agent_pressed(vk: u8, ctrl: bool, asks: bool, completes: bool, visible: nat) -> AgentKey {
    if asks {
        if vk == 0x0D {
            AgentKey::Answer
        } else if vk == 0x1B {
            AgentKey::Deny
        } else if vk == 0x25 {
            AgentKey::AskMove((-1) as i32)
        } else if vk == 0x27 {
            AgentKey::AskMove(1)
        } else {
            match transcript_step(vk, visible) {
                Some(n) => AgentKey::Scroll(n as i64),
                None => AgentKey::Pass,
            }
        }
    } else if completes && vk == 0x26 {
        AgentKey::CompleteMove((-1) as i32)
    } else if completes && vk == 0x28 {
        AgentKey::CompleteMove(1)
    } else if completes && (vk == 0x09 || vk == 0x27) {
        AgentKey::Complete
    } else if vk == 0x0D {
        AgentKey::Send
    } else if vk == 0x1B {
        AgentKey::Cancel
    } else if vk == 0x08 {
        AgentKey::Backspace { word: ctrl }
    } else {
        match transcript_step(vk, visible) {
            Some(n) => AgentKey::Scroll(n as i64),
            None => AgentKey::Pass,
        }
    }
}

fn scroll_by(vk: u8, visible: usize) -> (r: AgentKey)
    ensures
        r == (match transcript_step(vk, visible as nat) {
            Some(n) => AgentKey::Scroll(n as i64),
            None => AgentKey::Pass,
        }),
{
    let page: i64 = if (visible as u128) <= 0x7fff_ffff_ffff_ffff { visible as i64 } else { i64::MAX };
    match vk {
        0x26 => AgentKey::Scroll(3),
        0x28 => AgentKey::Scroll(-3),
        0x21 => AgentKey::Scroll(page),
        0x22 => AgentKey::Scroll(-page),
        _ => AgentKey::Pass,
    }
}

pub fn agent_key(vk: u8, ctrl: bool, asks: bool, completes: bool, visible: usize) -> (r: AgentKey)
    ensures
        r == agent_pressed(vk, ctrl, asks, completes, visible as nat),
{
    if asks {
        return match vk {
            0x0D => AgentKey::Answer,
            0x1B => AgentKey::Deny,
            0x25 => AgentKey::AskMove(-1),
            0x27 => AgentKey::AskMove(1),
            _ => scroll_by(vk, visible),
        };
    }
    if completes {
        match vk {
            0x26 => {
                return AgentKey::CompleteMove(-1);
            },
            0x28 => {
                return AgentKey::CompleteMove(1);
            },
            0x09 | 0x27 => {
                return AgentKey::Complete;
            },
            _ => {},
        }
    }
    match vk {
        0x0D => AgentKey::Send,
        0x1B => AgentKey::Cancel,
        0x08 => AgentKey::Backspace { word: ctrl },
        _ => scroll_by(vk, visible),
    }
}

// ---------------------------------------------------------------- the route

/// Who gets a key.
#[derive(Debug, PartialEq, Eq)]
pub enum Route {
    /// Nobody: the character it produces still arrives.
    Nobody,
    /// The open-folder dialog.
    Dialog,
    /// The overlay.
    Overlay,
    /// Vim; when it declines, ask again without it.
    Vim(VimKey),
    /// This action runs.
    Run(Action),
    Settings,
    Welcome,
    /// The git panel, with the file whose changes were about to be thrown
    /// away.
    Git(Option<Path>),
    Agent(AgentKey),
    Explorer,
    Editor(EditKey),
    /// These bytes go to the shell.
    Terminal(Vec<u8>),
    /// The viewer scrolls up by so many lines.
    Viewer(i64),
}

/// Who gets a key, as a value.
pub enum RouteState {
    Nobody,
    Dialog,
    Overlay,
    Vim(VimKey),
    Run(Action),
    Settings,
    Welcome,
    Git(Option<PathState>),
    Agent(AgentKey),
    Explorer,
    Editor(EditKey),
    Terminal(Seq<u8>),
    Viewer(int),
}

impl View for Route {
    type V = RouteState;

    open spec fn view(&self) -> RouteState {
        match self {
            Route::Nobody => RouteState::Nobody,
            Route::Dialog => RouteState::Dialog,
            Route::Overlay => RouteState::Overlay,
            Route::Vim(k) => RouteState::Vim(*k),
            Route::Run(a) => RouteState::Run(*a),
            Route::Settings => RouteState::Settings,
            Route::Welcome => RouteState::Welcome,
            Route::Git(p) => RouteState::Git(panes::opt_path(*p)),
            Route::Agent(k) => RouteState::Agent(*k),
            Route::Explorer => RouteState::Explorer,
            Route::Editor(k) => RouteState::Editor(*k),
            Route::Terminal(b) => RouteState::Terminal(b@),
            Route::Viewer(n) => RouteState::Viewer(*n as int),
        }
    }
}

/// What a key is bound to, and where that applies.
#[derive(Clone, Copy, Debug, PartialEq, Eq, Structural)]
pub struct Bound {
    pub action: Action,
    pub scope: Scope,
}

/// What is known when a key arrives.
#[derive(Clone, Copy, Debug, PartialEq, Eq, Structural)]
pub struct KeyFacts {
    pub dialog_open: bool,
    pub bound: Option<Bound>,
    pub vim_on: bool,
    /// Whether vim's own chords come before the bindings, and whether the
    /// focused vim would act on this one.
    pub vim_chords: bool,
    pub vim_wants: bool,
    /// Whether vim has had this key as a chord, or as a named key, and
    /// declined.
    pub chord_declined: bool,
    pub key_declined: bool,
    /// How many rows fit the focused pane.
    pub visible: usize,
    pub auto_close: bool,
    pub selecting: bool,
    /// Whether the agent is waiting for an answer, or offers completions.
    pub agent_asks: bool,
    pub agent_completes: bool,
}

/// A key that nobody took before the tree was asked: the user moved on, so a
/// waiting confirmation goes, and unless it activates something the last
/// message goes too.
pub open spec fn moved_on(m: DeskState, vk: u8, ctrl: bool) -> DeskState {
    let a = if ctrl { m } else { DeskState { confirm: None, ..m } };
    if vk == 0x0D || vk == 0x27 { a } else { DeskState { confirm: None, notice: None, ..a } }
}

/// The file a discard was asked about.
pub open spec fn discard_asked(c: Option<ConfirmState>) -> Option<PathState> {
    match c {
        Some(ConfirmState::DiscardFile(p)) => Some(p),
        _ => None,
    }
}

/// Whether a chord is one vim is offered before the bindings.
pub open spec fn is_vim_chord(m: DeskState, vk: u8, mods: Mods, k: KeyFacts) -> bool {
    &&& k.vim_chords
    &&& mods.ctrl
    &&& !mods.shift
    &&& !mods.alt
    &&& is_letter_key(vk)
    &&& k.vim_on
    &&& desk::focused(m) is Some
    &&& desk::focused(m)->Some_0 is Editor
    &&& k.vim_wants
    &&& !k.chord_declined
}

/// What is known once vim has declined the key it was offered: a chord it had
/// before the bindings, or else the named key.
pub open spec fn after_decline(m: DeskState, vk: u8, mods: Mods, k: KeyFacts) -> KeyFacts {
    if is_vim_chord(m, vk, mods, k) {
        KeyFacts { chord_declined: true, ..k }
    } else {
        KeyFacts { key_declined: true, ..k }
    }
}

/// What vim declines is not offered to it again in the same way, so a key is
/// offered to it twice at most and then takes the ordinary path.
pub proof fn vim_is_offered_a_key_twice_at_most(m: DeskState, vk: u8, mods: Mods, k: KeyFacts)
    requires
        routed(m, vk, mods, k).1 is Vim,
    ensures
        ({
            let once = after_decline(m, vk, mods, k);
            let twice = after_decline(m, vk, mods, once);
            &&& !is_vim_chord(m, vk, mods, once)
            &&& !k.chord_declined && once.chord_declined || !k.key_declined && once.key_declined
            &&& once.chord_declined || routed(m, vk, mods, once).1 !is Vim
            &&& routed(m, vk, mods, twice).1 !is Vim
        }),
{
}

/// Who gets a key that is not bound, by what the focused pane holds.
pub open spec fn pane_routed(m: DeskState, vk: u8, mods: Mods, k: KeyFacts) -> (DeskState, RouteState) {
    let on = moved_on(m, vk, mods.ctrl);
    let nobody = (on, RouteState::Nobody);
    match desk::focused(m) {
        None => nobody,
        Some(ContentState::Settings) => if settings_takes(vk) { (m, RouteState::Settings) } else { nobody },
        Some(ContentState::Welcome) => if welcome_takes(vk) { (m, RouteState::Welcome) } else { nobody },
        // An unbound Ctrl chord is not its bare letter: Ctrl+C arriving as C
        // would commit.
        Some(ContentState::Git) => if !mods.ctrl && git_takes(vk) {
            (DeskState { confirm: None, ..m }, RouteState::Git(discard_asked(m.confirm)))
        } else {
            nobody
        },
        Some(ContentState::Agent) => {
            let key = agent_pressed(vk, mods.ctrl, k.agent_asks, k.agent_completes, k.visible as nat);
            if key is Pass {
                nobody
            } else {
                (if mods.ctrl { m } else { DeskState { confirm: None, ..m } }, RouteState::Agent(key))
            }
        },
        Some(ContentState::Explorer) => if tree_takes(vk) { (on, RouteState::Explorer) } else { nobody },
        Some(ContentState::Editor { .. }) => {
            let name = vim_name(vk, mods);
            if k.vim_on && !k.key_declined && name is Some {
                (on, RouteState::Vim(name->Some_0))
            } else {
                match editor_pressed(vk, mods, k.visible as nat, k.auto_close, k.selecting) {
                    Some(e) => (on, RouteState::Editor(e)),
                    None => nobody,
                }
            }
        },
        Some(ContentState::Terminal) => match terminal_bytes(vk, mods.ctrl) {
            Some(b) => (on, RouteState::Terminal(b)),
            None => nobody,
        },
        Some(ContentState::Viewer) => match transcript_step(vk, k.visible as nat) {
            Some(n) => (on, RouteState::Viewer(n)),
            None => nobody,
        },
    }
}

/// Who gets a key.
pub open spec fn routed(m: DeskState, vk: u8, mods: Mods, k: KeyFacts) -> (DeskState, RouteState) {
    if k.dialog_open {
        (m, RouteState::Dialog)
    } else if m.palette is Some {
        (m, RouteState::Overlay)
    } else if is_vim_chord(m, vk, mods, k) {
        (m, RouteState::Vim(VimKey::Ctrl(small_letter(vk))))
    } else {
        match k.bound {
            Some(b) => if scope_applies(b.scope, desk::focused(m)) {
                (m, RouteState::Run(b.action))
            } else if mods.alt {
                (m, RouteState::Nobody)
            } else {
                pane_routed(m, vk, mods, k)
            },
            // Alt is excluded so focus movement cannot be swallowed by
            // whatever is focused.
            None => if mods.alt { (m, RouteState::Nobody) } else { pane_routed(m, vk, mods, k) },
        }
    }
}

impl Desk {
    fn move_on(&mut self, vk: u8, ctrl: bool)
        ensures
            final(self)@ == moved_on(old(self)@, vk, ctrl),
    {
        if !ctrl {
            self.confirm = None;
        }
        if vk != 0x0D && vk != 0x27 {
            self.confirm = None;
            self.notice = None;
        }
    }

    fn pane_key(&mut self, vk: u8, mods: Mods, k: &KeyFacts) -> (r: Route)
        ensures
            final(self)@ == pane_routed(old(self)@, vk, mods, *k).0,
            r@ == pane_routed(old(self)@, vk, mods, *k).1,
    {
        let step: bool = vk == 0x26 || vk == 0x28 || vk == 0x21 || vk == 0x22 || vk == 0x24 || vk == 0x23;
        let top: Option<&Content> = self.panes.top(self.focus);
        let on_settings: bool = matches!(top, Some(Content::Settings));
        let on_welcome: bool = matches!(top, Some(Content::Welcome));
        let on_git: bool = matches!(top, Some(Content::Git));
        let on_agent: bool = matches!(top, Some(Content::Agent));
        let on_tree: bool = matches!(top, Some(Content::Explorer));
        let on_editor: bool = matches!(top, Some(Content::Editor { .. }));
        let on_terminal: bool = matches!(top, Some(Content::Terminal));
        let on_viewer: bool = matches!(top, Some(Content::Viewer));
        if on_settings {
            if step || matches!(vk, 0x25 | 0x27 | 0x0D | 0x20 | 0x1B) {
                return Route::Settings;
            }
        } else if on_welcome {
            if matches!(vk, 0x26 | 0x28 | 0x24 | 0x23 | 0x0D) {
                return Route::Welcome;
            }
        } else if on_git {
            if !mods.ctrl && (step || matches!(
                vk,
                0x1B | 0x25 | 0x08 | 0x20 | 0x0D | 0x43 | 0x4C | 0x52 | 0x58 | 0x50
            )) {
                let asked: Option<Path> = match self.confirm.take() {
                    Some(Confirm::DiscardFile(p)) => Some(p),
                    _ => None,
                };
                return Route::Git(asked);
            }
        } else if on_agent {
            let key: AgentKey = agent_key(vk, mods.ctrl, k.agent_asks, k.agent_completes, k.visible);
            if !matches!(key, AgentKey::Pass) {
                if !mods.ctrl {
                    self.confirm = None;
                }
                return Route::Agent(key);
            }
        }
        self.move_on(vk, mods.ctrl);
        if on_tree {
            if step || matches!(vk, 0x25 | 0x27 | 0x0D | 0x74 | 0x08) {
                return Route::Explorer;
            }
        } else if on_editor {
            if k.vim_on && !k.key_declined {
                match vim_named_key(vk, mods) {
                    Some(key) => {
                        return Route::Vim(key);
                    },
                    None => {},
                }
            }
            match editor_key(vk, mods, k.visible, k.auto_close, k.selecting) {
                Some(e) => {
                    return Route::Editor(e);
                },
                None => {},
            }
        } else if on_terminal {
            match term_key_bytes(vk, mods.ctrl) {
                Some(b) => {
                    return Route::Terminal(b);
                },
                None => {},
            }
        } else if on_viewer {
            match scroll_by(vk, k.visible) {
                AgentKey::Scroll(n) => {
                    return Route::Viewer(n);
                },
                _ => {},
            }
        }
        Route::Nobody
    }

    fn vim_chord(&self, vk: u8, mods: Mods, k: &KeyFacts) -> (r: bool)
        ensures
            r == is_vim_chord(self@, vk, mods, *k),
    {
        let on_editor: bool = matches!(self.panes.top(self.focus), Some(Content::Editor { .. }));
        k.vim_chords && mods.ctrl && !mods.shift && !mods.alt && 0x41 <= vk && vk <= 0x5A && k.vim_on && on_editor
            && k.vim_wants && !k.chord_declined
    }

    /// What is known once vim has declined a key: it takes the ordinary path,
    /// first as a chord, then as a named key.
    pub fn declined(&self, vk: u8, mods: Mods, k: &KeyFacts) -> (r: KeyFacts)
        ensures
            r == after_decline(self@, vk, mods, *k),
    {
        if self.vim_chord(vk, mods, k) {
            KeyFacts { chord_declined: true, ..*k }
        } else {
            KeyFacts { key_declined: true, ..*k }
        }
    }

    /// Who gets a key.
    pub fn on_key(&mut self, vk: u8, mods: Mods, k: &KeyFacts) -> (r: Route)
        ensures
            final(self)@ == routed(old(self)@, vk, mods, *k).0,
            r@ == routed(old(self)@, vk, mods, *k).1,
    {
        if k.dialog_open {
            return Route::Dialog;
        }
        if self.palette.is_some() {
            return Route::Overlay;
        }
        if self.vim_chord(vk, mods, k) {
            return Route::Vim(VimKey::Ctrl(letter(vk)));
        }
        match k.bound {
            Some(b) => {
                let applies: bool = match b.scope {
                    Scope::Global => true,
                    Scope::Editor => !matches!(self.panes.top(self.focus), Some(Content::Terminal)),
                    Scope::Explorer => matches!(self.panes.top(self.focus), Some(Content::Explorer)),
                };
                if applies {
                    return Route::Run(b.action);
                }
            },
            None => {},
        }
        if mods.alt {
            return Route::Nobody;
        }
        self.pane_key(vk, mods, k)
    }
}

// ------------------------------------------------------------- characters

/// Who gets a character.
#[derive(Clone, Copy, Debug, PartialEq, Eq, Structural)]
pub enum CharRoute {
    Nobody,
    Dialog,
    Overlay,
    /// The shell, and its selection is cleared.
    Terminal,
    Vim(VimKey),
    /// A new line in the buffer.
    NewLine,
    /// Tab in the buffer: a snippet, or spaces.
    Tab,
    /// The character itself into the buffer; the pairing lives behind its
    /// switch.
    Text { paired: bool },
    Agent,
}

/// The key a character is to vim: Ctrl+[ arrives as the escape character,
/// and every other control character is a chord that was not bound.
pub open spec fn vim_char(c: char) -> Option<VimKey> {
    if c == '\u{1b}' {
        Some(VimKey::Esc)
    } else if c == '\r' {
        Some(VimKey::Enter)
    } else if c == '\t' {
        Some(VimKey::Tab)
    } else if (c as u32) < 0x20 {
        None
    } else {
        Some(VimKey::Char(c))
    }
}

/// Who gets a character, given what the focused pane holds. `declined` says
/// that vim has had it.
pub open spec fn char_routed(m: DeskState, c: char, dialog_open: bool, vim_on: bool, declined: bool, auto_close: bool, agent_asks: bool) -> (
    DeskState,
    CharRoute,
) {
    let on = DeskState { confirm: None, notice: None, ..m };
    if dialog_open {
        (m, CharRoute::Dialog)
    } else if m.palette is Some {
        (m, CharRoute::Overlay)
    } else {
        (
            on,
            match desk::focused(m) {
                Some(ContentState::Terminal) => CharRoute::Terminal,
                Some(ContentState::Editor { .. }) => if vim_on && !declined {
                    match vim_char(c) {
                        Some(k) => CharRoute::Vim(k),
                        None => CharRoute::Nobody,
                    }
                } else if c == '\r' {
                    CharRoute::NewLine
                } else if c == '\t' {
                    CharRoute::Tab
                } else if (c as u32) < 0x20 {
                    CharRoute::Nobody
                } else {
                    CharRoute::Text { paired: auto_close }
                },
                Some(ContentState::Agent) => if (c as u32) < 0x20 || agent_asks {
                    CharRoute::Nobody
                } else {
                    CharRoute::Agent
                },
                _ => CharRoute::Nobody,
            },
        )
    }
}

impl Desk {
    /// Text input. Typing means the user moved on from whatever was being
    /// confirmed.
    pub fn on_char(&mut self, c: char, dialog_open: bool, vim_on: bool, declined: bool, auto_close: bool, agent_asks: bool) -> (r:
        CharRoute)
        ensures
            ({
                let (state, route) = char_routed(
                    old(self)@,
                    c,
                    dialog_open,
                    vim_on,
                    declined,
                    auto_close,
                    agent_asks,
                );
                final(self)@ == state && r == route
            }),
    {
        if dialog_open {
            return CharRoute::Dialog;
        }
        if self.palette.is_some() {
            return CharRoute::Overlay;
        }
        self.confirm = None;
        self.notice = None;
        let control: bool = (c as u32) < 0x20;
        match self.panes.top(self.focus) {
            Some(Content::Terminal) => CharRoute::Terminal,
            Some(Content::Editor { .. }) => {
                if vim_on && !declined {
                    if c == '\u{1b}' {
                        CharRoute::Vim(VimKey::Esc)
                    } else if c == '\r' {
                        CharRoute::Vim(VimKey::Enter)
                    } else if c == '\t' {
                        CharRoute::Vim(VimKey::Tab)
                    } else if control {
                        CharRoute::Nobody
                    } else {
                        CharRoute::Vim(VimKey::Char(c))
                    }
                } else if c == '\r' {
                    CharRoute::NewLine
                } else if c == '\t' {
                    CharRoute::Tab
                } else if control {
                    CharRoute::Nobody
                } else {
                    CharRoute::Text { paired: auto_close }
                }
            },
            Some(Content::Agent) => if control || agent_asks { CharRoute::Nobody } else { CharRoute::Agent },
            _ => CharRoute::Nobody,
        }
    }
}

/// What Tab looks up: the word before the caret, unless snippets are off or
/// text is selected.
pub fn snippet_trigger(snippets: bool, selecting: bool, word: String) -> (r: Option<String>)
    ensures
        match r {
            Some(w) => snippets && !selecting && word@.len() > 0 && w@ == word@,
            None => !snippets || selecting || word@.len() == 0,
        },
{
    if snippets && !selecting && word.as_str().unicode_len() > 0 { Some(word) } else { None }
}

// -------------------------------------------------------------------- laws

/// The overlays take every key while one is open, whatever it is bound to:
/// anything less lets a stray keystroke through to the editor underneath.
pub proof fn an_overlay_takes_every_key(m: DeskState, vk: u8, mods: Mods, k: KeyFacts)
    requires
        k.dialog_open || m.palette is Some,
    ensures
        routed(m, vk, mods, k).0 == m,
        routed(m, vk, mods, k).1 is Dialog || routed(m, vk, mods, k).1 is Overlay,
{
}

/// Bound actions win over pane content, wherever they apply.
pub proof fn a_bound_key_runs_its_action(m: DeskState, vk: u8, mods: Mods, k: KeyFacts, a: Action, scope: Scope)
    requires
        !k.dialog_open,
        m.palette is None,
        !is_vim_chord(m, vk, mods, k),
        k.bound == Some(Bound { action: a, scope }),
        scope_applies(scope, desk::focused(m)),
    ensures
        routed(m, vk, mods, k) == (m, RouteState::Run(a)),
{
}

/// A shell keeps its control characters: an editor action does not run there.
pub proof fn a_shell_keeps_its_control_characters(m: DeskState, vk: u8, mods: Mods, k: KeyFacts, a: Action)
    requires
        desk::focused(m) == Some(ContentState::Terminal),
        k.bound == Some(Bound { action: a, scope: Scope::Editor }),
    ensures
        !(routed(m, vk, mods, k).1 is Run),
{
}

/// A character that nobody's box takes does not act: with an overlay open it
/// goes nowhere else.
pub proof fn typing_stays_in_the_overlay(m: DeskState, c: char, vim_on: bool, declined: bool, auto_close: bool, asks: bool)
    requires
        m.palette is Some,
    ensures
        char_routed(m, c, false, vim_on, declined, auto_close, asks) == (m, CharRoute::Overlay),
{
}

/// On a focused tree each key has its use.
pub proof fn keys_on_the_tree(visible: nat, on_open_dir: bool, root: PathState)
    requires
        visible < 1_000_000,
    ensures
        ({
            let does = |vk: u8, t: TreeState| tree_pressed(vk, visible, on_open_dir, root) == t;
            &&& does(0x26, TreeState::Move(-1))
            &&& does(0x28, TreeState::Move(1))
            &&& does(0x21, TreeState::Move(-(visible as int)))
            &&& does(0x22, TreeState::Move(visible as int))
            &&& does(0x24, TreeState::First)
            &&& does(0x23, TreeState::Last)
            &&& does(0x25, TreeState::CollapseOrParent)
            &&& does(0x0D, TreeState::Activate)
            &&& does(0x74, TreeState::Refresh)
            // Right goes into an open folder, and opens what is not open.
            &&& on_open_dir ==> does(0x27, TreeState::Move(1))
            &&& !on_open_dir ==> does(0x27, TreeState::Activate)
            // Backspace goes to the folder above, where there is one.
            &&& path::path_parent(root) is None ==> does(0x08, TreeState::Done)
            &&& path::path_parent(root) matches Some(up) ==> does(0x08, TreeState::Up(up))
        }),
{
}

/// In a file each key has its use: Ctrl makes a step of a letter one of a
/// word and a step in the line one in the file, and Shift keeps what was
/// selected and adds to it.
pub proof fn keys_in_a_file(mods: Mods, visible: nat, auto_close: bool, selecting: bool)
    requires
        visible < 1_000_000,
    ensures
        ({
            let extend = mods.shift;
            let does = |vk: u8, e: EditKey| editor_pressed(vk, mods, visible, auto_close, selecting) == Some(e);
            &&& does(0x26, EditKey::Vertical { lines: (-1) as i64, extend })
            &&& does(0x28, EditKey::Vertical { lines: 1, extend })
            &&& does(0x21, EditKey::Vertical { lines: (-visible) as i64, extend })
            &&& does(0x22, EditKey::Vertical { lines: visible as i64, extend })
            &&& !mods.ctrl ==> {
                &&& does(0x25, EditKey::Left { extend })
                &&& does(0x27, EditKey::Right { extend })
                &&& does(0x24, EditKey::LineStart { extend })
                &&& does(0x23, EditKey::LineEnd { extend })
                &&& does(0x2E, EditKey::Delete)
                &&& auto_close ==> does(0x08, EditKey::BackspacePair)
                &&& !auto_close ==> does(0x08, EditKey::Backspace)
            }
            &&& mods.ctrl ==> {
                &&& does(0x25, EditKey::WordLeft { extend })
                &&& does(0x27, EditKey::WordRight { extend })
                &&& does(0x24, EditKey::DocStart { extend })
                &&& does(0x23, EditKey::DocEnd { extend })
                &&& does(0x2E, EditKey::DeleteWordRight)
                &&& does(0x08, EditKey::DeleteWordLeft)
            }
            &&& extend ==> does(0x09, EditKey::Dedent)
            &&& !extend && selecting ==> does(0x09, EditKey::Indent)
            &&& !extend && !selecting ==> does(0x09, EditKey::Spaces)
        }),
{
}

/// A letter is no editing key: it comes in as a character.
pub proof fn letters_are_typed(vk: u8, mods: Mods, visible: nat, auto_close: bool, selecting: bool)
    requires
        is_letter_key(vk),
    ensures
        editor_pressed(vk, mods, visible, auto_close, selecting) is None,
        terminal_bytes(vk, mods.ctrl) is None,
        !tree_takes(vk) && !settings_takes(vk) && !welcome_takes(vk),
{
}

/// The keys that change a file, and those that only move in it.
pub proof fn moving_is_no_edit(lines: i64, extend: bool)
    ensures
        !is_edit(EditKey::Left { extend }) && !is_edit(EditKey::Right { extend }),
        !is_edit(EditKey::WordLeft { extend }) && !is_edit(EditKey::WordRight { extend }),
        !is_edit(EditKey::Vertical { lines, extend }),
        !is_edit(EditKey::LineStart { extend }) && !is_edit(EditKey::LineEnd { extend }),
        !is_edit(EditKey::DocStart { extend }) && !is_edit(EditKey::DocEnd { extend }),
        is_edit(EditKey::Backspace) && is_edit(EditKey::BackspacePair) && is_edit(EditKey::Delete),
        is_edit(EditKey::DeleteWordLeft) && is_edit(EditKey::DeleteWordRight),
        is_edit(EditKey::Dedent) && is_edit(EditKey::Indent) && is_edit(EditKey::Spaces),
{
}

/// With the agent each key has its use. A question that is asked comes
/// before the box, and a completion that is offered takes the keys that go
/// through it.
pub proof fn keys_with_the_agent(ctrl: bool, completes: bool, visible: nat)
    requires
        visible < 1_000_000,
    ensures
        ({
            let does = |vk: u8, a: AgentKey| agent_pressed(vk, ctrl, true, completes, visible) == a;
            &&& does(0x0D, AgentKey::Answer)
            &&& does(0x1B, AgentKey::Deny)
            &&& does(0x25, AgentKey::AskMove((-1) as i32))
            &&& does(0x27, AgentKey::AskMove(1))
            &&& does(0x26, AgentKey::Scroll(3))
            &&& does(0x28, AgentKey::Scroll((-3) as i64))
            &&& does(0x21, AgentKey::Scroll(visible as i64))
            &&& does(0x22, AgentKey::Scroll((-visible) as i64))
            &&& does(0x08, AgentKey::Pass)
        }),
        ({
            let does = |vk: u8, a: AgentKey| agent_pressed(vk, ctrl, false, completes, visible) == a;
            &&& does(0x0D, AgentKey::Send)
            &&& does(0x1B, AgentKey::Cancel)
            &&& does(0x08, AgentKey::Backspace { word: ctrl })
            &&& does(0x21, AgentKey::Scroll(visible as i64))
            &&& does(0x22, AgentKey::Scroll((-visible) as i64))
            &&& completes ==> {
                &&& does(0x26, AgentKey::CompleteMove((-1) as i32))
                &&& does(0x28, AgentKey::CompleteMove(1))
                &&& does(0x09, AgentKey::Complete)
                &&& does(0x27, AgentKey::Complete)
            }
            &&& !completes ==> {
                &&& does(0x26, AgentKey::Scroll(3))
                &&& does(0x28, AgentKey::Scroll((-3) as i64))
                &&& does(0x09, AgentKey::Pass)
                &&& does(0x27, AgentKey::Pass)
            }
        }),
{
}

/// What a shell is sent for a key that is no character: the sequence that
/// terminals send for it, a different one for each key.
pub proof fn each_key_is_sent_as_its_own_sequence(vk: u8, other: u8, ctrl: bool)
    requires
        terminal_bytes(vk, ctrl) is Some,
        terminal_bytes(other, ctrl) == terminal_bytes(vk, ctrl),
    ensures
        vk == other,
        vk != 0x08 ==> terminal_bytes(vk, ctrl).unwrap()[0] == 0x1b && terminal_bytes(vk, ctrl).unwrap()[1] == 0x5b,
        vk == 0x26 ==> terminal_bytes(vk, ctrl).unwrap() == seq![0x1bu8, 0x5b, 'A' as u8],
        vk == 0x28 ==> terminal_bytes(vk, ctrl).unwrap() == seq![0x1bu8, 0x5b, 'B' as u8],
        vk == 0x27 ==> terminal_bytes(vk, ctrl).unwrap() == seq![0x1bu8, 0x5b, 'C' as u8],
        vk == 0x25 ==> terminal_bytes(vk, ctrl).unwrap() == seq![0x1bu8, 0x5b, 'D' as u8],
        vk == 0x24 ==> terminal_bytes(vk, ctrl).unwrap() == seq![0x1bu8, 0x5b, 'H' as u8],
        vk == 0x23 ==> terminal_bytes(vk, ctrl).unwrap() == seq![0x1bu8, 0x5b, 'F' as u8],
        vk == 0x2E ==> terminal_bytes(vk, ctrl).unwrap() == seq![0x1bu8, 0x5b, '3' as u8, '~' as u8],
        vk == 0x21 ==> terminal_bytes(vk, ctrl).unwrap() == seq![0x1bu8, 0x5b, '5' as u8, '~' as u8],
        vk == 0x22 ==> terminal_bytes(vk, ctrl).unwrap() == seq![0x1bu8, 0x5b, '6' as u8, '~' as u8],
        vk == 0x08 && ctrl ==> terminal_bytes(vk, ctrl).unwrap() == seq![0x08u8],
        vk == 0x08 && !ctrl ==> terminal_bytes(vk, ctrl).unwrap() == seq![0x7fu8],
        terminal_bytes(0x25, ctrl) is Some && terminal_bytes(0x26, ctrl) is Some && terminal_bytes(0x27, ctrl) is Some,
        terminal_bytes(0x28, ctrl) is Some && terminal_bytes(0x24, ctrl) is Some && terminal_bytes(0x23, ctrl) is Some,
        terminal_bytes(0x2E, ctrl) is Some && terminal_bytes(0x21, ctrl) is Some && terminal_bytes(0x22, ctrl) is Some,
        terminal_bytes(0x08, ctrl) is Some,
{
    let a = terminal_bytes(vk, ctrl).unwrap();
    let b = terminal_bytes(other, ctrl).unwrap();
    assert(a.len() == b.len() && a[0] == b[0]);
    assert(a.len() > 2 ==> a[2] == b[2]);
}

/// The names by which keys reach the modal layer: the letters with Ctrl, and
/// each key that is no character under its own name.
pub proof fn keys_reach_the_modal_layer_by_name(vk: u8, mods: Mods)
    ensures
        is_letter_key(vk) && mods.ctrl && !mods.shift ==> vim_name(vk, mods) == Some(
            VimKey::Ctrl(small_letter(vk)),
        ),
        is_letter_key(vk) && !mods.ctrl ==> vim_name(vk, mods) is None,
        vk == 0x41 ==> small_letter(vk) == 'a',
        vk == 0x5A ==> small_letter(vk) == 'z',
        ({
            let named = |k: u8, name: VimKey| vim_name(k, mods) == Some(name);
            &&& named(0x1B, VimKey::Esc)
            &&& named(0x0D, VimKey::Enter)
            &&& named(0x08, VimKey::Backspace)
            &&& named(0x2E, VimKey::Delete)
            &&& named(0x09, VimKey::Tab)
            &&& named(0x25, VimKey::Left)
            &&& named(0x26, VimKey::Up)
            &&& named(0x27, VimKey::Right)
            &&& named(0x28, VimKey::Down)
            &&& named(0x24, VimKey::Home)
            &&& named(0x23, VimKey::End)
            &&& named(0x21, VimKey::PageUp)
            &&& named(0x22, VimKey::PageDown)
        }),
{
}

/// A key that nothing takes first goes to what the focused pane shows: a
/// tree, the settings, a shell, a file, whatever it is, gets the keys that
/// are its own.
pub proof fn a_key_goes_to_the_focused_pane(m: DeskState, vk: u8, mods: Mods, k: KeyFacts)
    requires
        !k.dialog_open,
        m.palette is None,
        !k.vim_on,
        k.bound is None,
        !mods.alt,
    ensures
        ({
            let to = routed(m, vk, mods, k).1;
            let on = desk::focused(m);
            &&& on is None ==> to == RouteState::Nobody
            &&& on == Some(ContentState::Settings) ==> (to == RouteState::Settings <==> settings_takes(vk))
            &&& on == Some(ContentState::Welcome) ==> (to == RouteState::Welcome <==> welcome_takes(vk))
            &&& on == Some(ContentState::Explorer) ==> (to == RouteState::Explorer <==> tree_takes(vk))
            &&& on == Some(ContentState::Git) ==> (to is Git <==> git_takes(vk) && !mods.ctrl)
            &&& on == Some(ContentState::Git) && to is Git ==> (to->Git_0 == match m.confirm {
                Some(ConfirmState::DiscardFile(p)) => Some(p),
                _ => None,
            })
            &&& on == Some(ContentState::Terminal) ==> (to is Terminal <==> terminal_bytes(vk, mods.ctrl) is Some)
            &&& on == Some(ContentState::Terminal) && to is Terminal ==> terminal_bytes(vk, mods.ctrl) == Some(
                to->Terminal_0,
            )
            &&& on is Some && on.unwrap() is Editor ==> (match editor_pressed(
                vk,
                mods,
                k.visible as nat,
                k.auto_close,
                k.selecting,
            ) {
                Some(e) => to == RouteState::Editor(e),
                None => to == RouteState::Nobody,
            })
            &&& on == Some(ContentState::Agent) ==> (match agent_pressed(
                vk,
                mods.ctrl,
                k.agent_asks,
                k.agent_completes,
                k.visible as nat,
            ) {
                AgentKey::Pass => to == RouteState::Nobody,
                a => to == RouteState::Agent(a),
            })
            &&& on == Some(ContentState::Viewer) ==> (to is Viewer <==> vk == 0x26 || vk == 0x28 || vk == 0x21 || vk
                == 0x22)
        }),
{
}

/// A key that only moves about takes back what was asked, and never changes
/// what the panes hold.
pub proof fn a_key_leaves_the_panes_alone(m: DeskState, vk: u8, mods: Mods, k: KeyFacts)
    ensures
        ({
            let after = routed(m, vk, mods, k).0;
            &&& after == (DeskState { confirm: after.confirm, notice: after.notice, ..m })
            &&& after.confirm == m.confirm || after.confirm is None
            &&& after.notice == m.notice || after.notice is None
            &&& k.dialog_open || m.palette is Some ==> after == m
        }),
{
}

/// Alt moves the focus only: without a binding nothing takes its keys.
pub proof fn alt_keys_are_for_bindings(m: DeskState, vk: u8, mods: Mods, k: KeyFacts)
    requires
        mods.alt,
        k.bound is None,
        !k.dialog_open,
        m.palette is None,
    ensures
        routed(m, vk, mods, k) == (m, RouteState::Nobody),
{
}

/// A bound key runs its action wherever the binding holds: everywhere, on
/// all but a shell, or on the tree alone.
pub proof fn where_a_binding_holds(on: Option<ContentState>)
    ensures
        scope_applies(Scope::Global, on),
        scope_applies(Scope::Editor, on) <==> on != Some(ContentState::Terminal),
        scope_applies(Scope::Explorer, on) <==> on == Some(ContentState::Explorer),
{
}

/// The modal layer gets every key of a file that has a name for it, before
/// the editor does, until it declines the key.
pub proof fn the_modal_layer_comes_before_the_editor(m: DeskState, vk: u8, mods: Mods, k: KeyFacts)
    requires
        !k.dialog_open,
        m.palette is None,
        k.bound is None,
        !mods.alt,
        k.vim_on,
        !k.vim_chords,
        desk::focused(m) is Some,
        desk::focused(m).unwrap() is Editor,
        vim_name(vk, mods) is Some,
    ensures
        !k.key_declined ==> routed(m, vk, mods, k).1 == RouteState::Vim(vim_name(vk, mods).unwrap()),
        k.key_declined ==> !(routed(m, vk, mods, k).1 is Vim),
{
}

/// A typed character goes to the pane that takes text: to a shell always, to
/// a file, or to the agent's box while it asks nothing. Elsewhere typing is
/// nobody's.
pub proof fn typing_goes_to_the_focused_pane(
    m: DeskState,
    c: char,
    vim_on: bool,
    declined: bool,
    auto_close: bool,
    asks: bool,
)
    requires
        m.palette is None,
    ensures
        ({
            let (after, to) = char_routed(m, c, false, vim_on, declined, auto_close, asks);
            let on = desk::focused(m);
            let printable = c as u32 >= 0x20;
            let file = on is Some && on.unwrap() is Editor;
            &&& after == (DeskState { confirm: None, notice: None, ..m })
            &&& on == Some(ContentState::Terminal) ==> to == CharRoute::Terminal
            &&& on == Some(ContentState::Agent) ==> (to == CharRoute::Agent <==> printable && !asks)
            &&& file && (!vim_on || declined) ==> {
                &&& printable ==> to == (CharRoute::Text { paired: auto_close })
                &&& c == '\r' ==> to == CharRoute::NewLine
                &&& c == '\t' ==> to == CharRoute::Tab
                &&& !printable && c != '\r' && c != '\t' ==> to == CharRoute::Nobody
            }
            &&& file && vim_on && !declined ==> {
                &&& printable ==> to == CharRoute::Vim(VimKey::Char(c))
                &&& c == '\r' ==> to == CharRoute::Vim(VimKey::Enter)
                &&& c == '\t' ==> to == CharRoute::Vim(VimKey::Tab)
                &&& c == '\u{1b}' ==> to == CharRoute::Vim(VimKey::Esc)
            }
            &&& !file && on != Some(ContentState::Terminal) && on != Some(ContentState::Agent) ==> to
                == CharRoute::Nobody
        }),
{
}

/// The keys that each pane takes for itself.
pub proof fn the_keys_each_pane_takes(vk: u8, visible: nat, on_open_dir: bool, root: PathState)
    ensures
        ({
            let moves = vk == 0x26 || vk == 0x28 || vk == 0x21 || vk == 0x22 || vk == 0x24 || vk == 0x23;
            &&& tree_takes(vk) <==> moves || vk == 0x25 || vk == 0x27 || vk == 0x0D || vk == 0x74 || vk == 0x08
            &&& tree_pressed(vk, visible, on_open_dir, root) == TreeState::Pass <==> !tree_takes(vk)
            &&& settings_takes(vk) <==> moves || vk == 0x25 || vk == 0x27 || vk == 0x0D || vk == 0x20 || vk == 0x1B
            &&& welcome_takes(vk) <==> vk == 0x26 || vk == 0x28 || vk == 0x24 || vk == 0x23 || vk == 0x0D
            &&& git_takes(vk) <==> moves || vk == 0x1B || vk == 0x25 || vk == 0x08 || vk == 0x20 || vk == 0x0D || vk
                == 'C' as u8 || vk == 'L' as u8 || vk == 'R' as u8 || vk == 'X' as u8 || vk == 'P' as u8
        }),
{
}

/// What a key leaves of a question and a message: both go with the next key,
/// but Enter and Right keep the message, which may be what they answer, and
/// Ctrl keeps the question.
pub proof fn what_a_key_leaves_standing(m: DeskState, vk: u8, ctrl: bool)
    ensures
        vk != 0x0D && vk != 0x27 ==> moved_on(m, vk, ctrl) == (DeskState { confirm: None, notice: None, ..m }),
        (vk == 0x0D || vk == 0x27) && ctrl ==> moved_on(m, vk, ctrl) == m,
        (vk == 0x0D || vk == 0x27) && !ctrl ==> moved_on(m, vk, ctrl) == (DeskState { confirm: None, ..m }),
{
}

} // verus!
