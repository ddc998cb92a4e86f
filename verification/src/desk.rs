//! What a command does to the window: which questions it asks first, which
//! pane it lands in, and what is left for the program around it to carry out
//! ([`Do`]).
//!
//! Unsaved work cannot vanish from one keystroke. Where there are three ways
//! out (save, discard, cancel) the overlay asks; where there are two,
//! pressing the same thing again confirms and anything else cancels.
use vstd::prelude::*;
use vstd::string::*;
use crate::action;
use crate::action::Action;
use crate::palette;
use crate::palette::{Palette, PaletteState};
use crate::panes;
use crate::panes::{Content, ContentState, Panes, SlotState};
use crate::path;
use crate::path::{Path, PathState};
use crate::places;
use crate::session::{Axis, PaneId};
use crate::text;
use crate::text::{chars_of, decimal_text, has_char, joined3};

verus! {

/// Which way.
#[derive(Clone, Copy, Debug, PartialEq, Eq, Structural)]
pub enum Dir {
    Left,
    Right,
    Up,
    Down,
}

/// A destructive action waiting for the same key again.
#[derive(Debug, PartialEq, Eq)]
pub enum Confirm {
    /// Saving over a file that changed on disk after it was opened.
    Overwrite(PaneId),
    /// Removing the selected path. Nothing here goes to a recycle bin.
    DeletePath,
    /// Throwing away a file's unstaged changes from the git panel. Carries
    /// the path so the confirmation can never land on a different row than
    /// the question was asked about.
    DiscardFile(Path),
}

/// A confirmation as a value.
pub enum ConfirmState {
    Overwrite(PaneId),
    DeletePath,
    DiscardFile(PathState),
}

impl View for Confirm {
    type V = ConfirmState;

    open spec fn view(&self) -> ConfirmState {
        match self {
            Confirm::Overwrite(p) => ConfirmState::Overwrite(*p),
            Confirm::DeletePath => ConfirmState::DeletePath,
            Confirm::DiscardFile(p) => ConfirmState::DiscardFile(p@),
        }
    }
}

/// What an open prompt or question is collecting an answer for.
#[derive(Debug, PartialEq, Eq)]
pub enum Pending {
    NewFile(Path),
    NewFolder(Path),
    Rename(Path),
    ProjectSearch,
    /// Replace, step one: what to look for.
    ReplaceWhat,
    /// Replace, step two, carrying step one's answer.
    ReplaceWith(String),
    /// The git panel asked for a commit message.
    CommitMessage,
    /// Closing a pane whose editor has unsaved work.
    CloseUnsaved(PaneId),
    /// Moving to another workspace with unsaved work on screen.
    SwitchUnsaved(Path),
    /// Quitting with unsaved work anywhere.
    QuitUnsaved,
    /// Opening a file into a pane whose editor has unsaved work.
    ReplaceUnsaved(PaneId, Path),
}

/// What is being collected, as a value.
pub enum PendingState {
    NewFile(PathState),
    NewFolder(PathState),
    Rename(PathState),
    ProjectSearch,
    ReplaceWhat,
    ReplaceWith(Seq<char>),
    CommitMessage,
    CloseUnsaved(PaneId),
    SwitchUnsaved(PathState),
    QuitUnsaved,
    ReplaceUnsaved(PaneId, PathState),
}

impl View for Pending {
    type V = PendingState;

    open spec fn view(&self) -> PendingState {
        match self {
            Pending::NewFile(p) => PendingState::NewFile(p@),
            Pending::NewFolder(p) => PendingState::NewFolder(p@),
            Pending::Rename(p) => PendingState::Rename(p@),
            Pending::ProjectSearch => PendingState::ProjectSearch,
            Pending::ReplaceWhat => PendingState::ReplaceWhat,
            Pending::ReplaceWith(s) => PendingState::ReplaceWith(s@),
            Pending::CommitMessage => PendingState::CommitMessage,
            Pending::CloseUnsaved(p) => PendingState::CloseUnsaved(*p),
            Pending::SwitchUnsaved(p) => PendingState::SwitchUnsaved(p@),
            Pending::QuitUnsaved => PendingState::QuitUnsaved,
            Pending::ReplaceUnsaved(p, f) => PendingState::ReplaceUnsaved(*p, f@),
        }
    }
}

/// The window, as far as deciding about it goes.
#[derive(Debug)]
pub struct Desk {
    pub panes: Panes,
    pub focus: PaneId,
    /// The directory that is open.
    pub root: Path,
    pub confirm: Option<Confirm>,
    /// A message for the status bar, e.g. a refused close.
    pub notice: Option<String>,
    pub pending: Option<Pending>,
    /// The overlay, when one is open. It captures every key while it is.
    pub palette: Option<Palette>,
    /// Whether the full shortcut list is showing.
    pub help_open: bool,
    /// Files the focused pane has shown, most recent first.
    pub recent: Vec<Path>,
}

/// The window as a value.
#[verifier::ext_equal]
pub struct DeskState {
    pub panes: Seq<SlotState>,
    pub focus: PaneId,
    pub root: PathState,
    pub confirm: Option<ConfirmState>,
    pub notice: Option<Seq<char>>,
    pub pending: Option<PendingState>,
    pub palette: Option<PaletteState>,
    pub help_open: bool,
    pub recent: Seq<PathState>,
}

pub open spec fn opt_confirm(c: Option<Confirm>) -> Option<ConfirmState> {
    match c {
        Some(c) => Some(c@),
        None => None,
    }
}

pub open spec fn opt_pending(p: Option<Pending>) -> Option<PendingState> {
    match p {
        Some(p) => Some(p@),
        None => None,
    }
}

pub open spec fn opt_palette(p: Option<Palette>) -> Option<PaletteState> {
    match p {
        Some(p) => Some(p@),
        None => None,
    }
}

/// An optional string as a value.
pub open spec fn opt_text(s: Option<String>) -> Option<Seq<char>> {
    match s {
        Some(t) => Some(t@),
        None => None,
    }
}

impl View for Desk {
    type V = DeskState;

    open spec fn view(&self) -> DeskState {
        DeskState {
            panes: self.panes@,
            focus: self.focus,
            root: self.root@,
            confirm: opt_confirm(self.confirm),
            notice: opt_text(self.notice),
            pending: opt_pending(self.pending),
            palette: opt_palette(self.palette),
            help_open: self.help_open,
            recent: places::path_list(self.recent@),
        }
    }
}

/// What the focused pane shows.
pub open spec fn focused(m: DeskState) -> Option<ContentState> {
    panes::top_in(m.panes, m.focus)
}

/// A message in the status bar.
pub open spec fn warned(m: DeskState, message: Seq<char>) -> DeskState {
    DeskState { notice: Some(message), ..m }
}

/// The answers to "what about the unsaved work", in the order they are
/// listed: saving is what people usually mean, cancelling is also what
/// Escape does.
pub const SAVE: usize = 0;

pub const DISCARD: usize = 1;

/// A question about unsaved work.
pub open spec fn asking_about(m: DeskState, op: PendingState, question: Seq<char>, save: Seq<char>) -> DeskState {
    DeskState {
        pending: Some(op),
        palette: Some(
            palette::asking("Unsaved Changes"@, question, seq![save, "Discard"@, "Cancel"@]),
        ),
        ..m
    }
}

/// A prompt for a text.
pub open spec fn prompting_for(m: DeskState, op: PendingState, label: Seq<char>, initial: Seq<char>) -> DeskState {
    DeskState { pending: Some(op), palette: Some(palette::prompting(label, initial)), ..m }
}

/// How much unsaved work there is, as a sentence can say it.
pub open spec fn unsaved_words(n: nat) -> Seq<char> {
    text::decimal(n) + " unsaved "@ + (if n == 1 { "file"@ } else { "files"@ })
}

/// One phrase for both questions that ask about it, because they are the same
/// question.
pub fn unsaved_phrase(n: usize) -> (r: String)
    ensures
        r@ == unsaved_words(n as nat),
{
    let count: String = decimal_text(n as u64);
    joined3(count.as_str(), " unsaved ", if n == 1 { "file" } else { "files" })
}

/// What is left for the program around the window to carry out.
#[derive(Debug, PartialEq, Eq)]
pub enum Do {
    /// Nothing more.
    Done,
    /// Split the focused pane; then [`Desk::entered`] where there was room.
    Split(Axis),
    /// Close this pane; then [`Desk::close_pane`].
    Close(PaneId),
    OpenTerminal,
    OpenExplorer,
    ToggleExplorer,
    OpenSettings,
    GitPanel,
    OpenAgent,
    /// Move to this folder; [`Desk::switch_workspace`] asks first.
    Switch(Path),
    /// Move to this folder now.
    OpenWorkspace(Path),
    /// Open the folder dialog.
    Browse,
    /// Switch vim mode.
    SetVim(bool),
    /// Remove this; then [`Desk::done_to_files`].
    Delete(Path),
    ListCommands,
    ListFiles,
    LastFile,
    /// Find in the focused buffer.
    FindHere,
    /// Do this to the focused buffer.
    Edit(EditOp),
    Focus(Dir),
    Resize { grow: bool, axis: Axis },
    Minimize,
    ToggleMaximize,
    Copy { cut: bool },
    Paste,
    SaveConfig,
    /// Write the file in this pane; then [`Panes::note_modified`].
    Save(PaneId),
    Timer(TimerOp),
    Font { larger: bool },
    /// Save the session and quit.
    Quit,
    /// Open this file into that pane; then [`Desk::opened`].
    Open(PaneId, Path),
    /// Put the caret there in that pane, where the file is already open.
    Reveal(PaneId),
    /// Search the project; then show the results.
    Grep(String),
    /// Replace every occurrence in the focused buffer.
    ReplaceAll { needle: String, with: String },
    Commit(String),
    /// Make this file; then [`Desk::done_to_files`] and [`Desk::file_made`].
    CreateFile(Path),
    CreateDir(Path),
    Rename { from: Path, to: String },
    /// Read the file trees and the git status again.
    RefreshTrees,
}

/// What is left to do, as a value.
pub enum DoState {
    Done,
    Split(Axis),
    Close(PaneId),
    OpenTerminal,
    OpenExplorer,
    ToggleExplorer,
    OpenSettings,
    GitPanel,
    OpenAgent,
    Switch(PathState),
    OpenWorkspace(PathState),
    Browse,
    SetVim(bool),
    Delete(PathState),
    ListCommands,
    ListFiles,
    LastFile,
    FindHere,
    Edit(EditOp),
    Focus(Dir),
    Resize { grow: bool, axis: Axis },
    Minimize,
    ToggleMaximize,
    Copy { cut: bool },
    Paste,
    SaveConfig,
    Save(PaneId),
    Timer(TimerOp),
    Font { larger: bool },
    Quit,
    Open(PaneId, PathState),
    Reveal(PaneId),
    Grep(Seq<char>),
    ReplaceAll { needle: Seq<char>, with: Seq<char> },
    Commit(Seq<char>),
    CreateFile(PathState),
    CreateDir(PathState),
    Rename { from: PathState, to: Seq<char> },
    RefreshTrees,
}

impl View for Do {
    type V = DoState;

    open spec fn view(&self) -> DoState {
        match self {
            Do::Done => DoState::Done,
            Do::Split(a) => DoState::Split(*a),
            Do::Close(p) => DoState::Close(*p),
            Do::OpenTerminal => DoState::OpenTerminal,
            Do::OpenExplorer => DoState::OpenExplorer,
            Do::ToggleExplorer => DoState::ToggleExplorer,
            Do::OpenSettings => DoState::OpenSettings,
            Do::GitPanel => DoState::GitPanel,
            Do::OpenAgent => DoState::OpenAgent,
            Do::Switch(p) => DoState::Switch(p@),
            Do::OpenWorkspace(p) => DoState::OpenWorkspace(p@),
            Do::Browse => DoState::Browse,
            Do::SetVim(on) => DoState::SetVim(*on),
            Do::Delete(p) => DoState::Delete(p@),
            Do::ListCommands => DoState::ListCommands,
            Do::ListFiles => DoState::ListFiles,
            Do::LastFile => DoState::LastFile,
            Do::FindHere => DoState::FindHere,
            Do::Edit(op) => DoState::Edit(*op),
            Do::Focus(d) => DoState::Focus(*d),
            Do::Resize { grow, axis } => DoState::Resize { grow: *grow, axis: *axis },
            Do::Minimize => DoState::Minimize,
            Do::ToggleMaximize => DoState::ToggleMaximize,
            Do::Copy { cut } => DoState::Copy { cut: *cut },
            Do::Paste => DoState::Paste,
            Do::SaveConfig => DoState::SaveConfig,
            Do::Save(p) => DoState::Save(*p),
            Do::Timer(op) => DoState::Timer(*op),
            Do::Font { larger } => DoState::Font { larger: *larger },
            Do::Quit => DoState::Quit,
            Do::Open(p, f) => DoState::Open(*p, f@),
            Do::Reveal(p) => DoState::Reveal(*p),
            Do::Grep(s) => DoState::Grep(s@),
            Do::ReplaceAll { needle, with } => DoState::ReplaceAll { needle: needle@, with: with@ },
            Do::Commit(s) => DoState::Commit(s@),
            Do::CreateFile(p) => DoState::CreateFile(p@),
            Do::CreateDir(p) => DoState::CreateDir(p@),
            Do::Rename { from, to } => DoState::Rename { from: from@, to: to@ },
            Do::RefreshTrees => DoState::RefreshTrees,
        }
    }
}

/// What a command does to the focused buffer.
#[derive(Clone, Copy, Debug, PartialEq, Eq, Structural)]
pub enum EditOp {
    ToggleComment,
    MoveLines { down: bool },
    DuplicateLines,
    DeleteLines,
    SelectLine,
    GoToBracket,
    Undo,
    Redo,
    SelectAll,
}

/// What a command does to the work timer.
#[derive(Clone, Copy, Debug, PartialEq, Eq, Structural)]
pub enum TimerOp {
    Toggle,
    Reset,
    Skip,
}

/// What a command needs to know of the world around the window.
#[derive(Debug)]
pub struct Facts {
    /// The selected path of the focused file tree, and whether it is a
    /// directory.
    pub selection: Option<Path>,
    pub selection_is_dir: bool,
    /// The root of the focused file tree.
    pub tree_root: Path,
    pub is_repo: bool,
    /// The focused buffer's selection.
    pub selected_text: Option<String>,
    /// Whether the focused file changed on disk since it was opened.
    pub stale: bool,
    pub vim_on: bool,
    /// The panes as one reads them.
    pub order: Vec<PaneId>,
}

// ------------------------------------------------------------------ quitting

/// Whether quitting is allowed now; if not, it has been asked about.
pub open spec fn quitting(m: DeskState) -> (DeskState, bool) {
    let n = panes::unsaved_total(m.panes);
    if n == 0 {
        (m, true)
    } else {
        (
            asking_about(
                m,
                PendingState::QuitUnsaved,
                "Quit with "@ + unsaved_words(n) + "?"@,
                "Save all"@,
            ),
            false,
        )
    }
}

/// Where a new entry should go: the selected directory, or the parent of the
/// selected file; outside the tree beside the file being edited, or at the
/// root.
pub open spec fn target_dir(m: DeskState, f: Facts) -> PathState {
    if focused(m) == Some(ContentState::Explorer) {
        match f.selection {
            None => f.tree_root@,
            Some(p) => if f.selection_is_dir {
                p@
            } else {
                match path::path_parent(p@) {
                    Some(up) => up,
                    None => f.tree_root@,
                }
            },
        }
    } else {
        match panes::path_in(m.panes, m.focus) {
            Some(p) => match path::path_parent(p) {
                Some(up) => up,
                None => m.root,
            },
            None => m.root,
        }
    }
}

/// The selected path, when the focus is on a tree.
pub open spec fn tree_selection(m: DeskState, f: Facts) -> Option<PathState> {
    if focused(m) == Some(ContentState::Explorer) { panes::opt_path(f.selection) } else { None }
}

/// The name of a path as a prompt starts from it.
pub open spec fn own_name(p: PathState) -> Seq<char> {
    match path::path_name(p) {
        Some(n) => n,
        None => Seq::empty(),
    }
}

/// The edit a command makes, when it makes one.
pub open spec fn edit_of(a: Action) -> Option<EditOp> {
    match a {
        Action::ToggleComment => Some(EditOp::ToggleComment),
        Action::MoveLineUp => Some(EditOp::MoveLines { down: false }),
        Action::MoveLineDown => Some(EditOp::MoveLines { down: true }),
        Action::DuplicateLine => Some(EditOp::DuplicateLines),
        Action::DeleteLine => Some(EditOp::DeleteLines),
        Action::SelectLine => Some(EditOp::SelectLine),
        Action::GoToBracket => Some(EditOp::GoToBracket),
        Action::Undo => Some(EditOp::Undo),
        Action::Redo => Some(EditOp::Redo),
        Action::SelectAll => Some(EditOp::SelectAll),
        _ => None,
    }
}

fn edit_op(a: Action) -> (r: Option<EditOp>)
    ensures
        r == edit_of(a),
{
    match a {
        Action::ToggleComment => Some(EditOp::ToggleComment),
        Action::MoveLineUp => Some(EditOp::MoveLines { down: false }),
        Action::MoveLineDown => Some(EditOp::MoveLines { down: true }),
        Action::DuplicateLine => Some(EditOp::DuplicateLines),
        Action::DeleteLine => Some(EditOp::DeleteLines),
        Action::SelectLine => Some(EditOp::SelectLine),
        Action::GoToBracket => Some(EditOp::GoToBracket),
        Action::Undo => Some(EditOp::Undo),
        Action::Redo => Some(EditOp::Redo),
        Action::SelectAll => Some(EditOp::SelectAll),
        _ => None,
    }
}

/// Closing the focused pane. Unsaved work is asked about.
pub open spec fn closing(m: DeskState) -> (DeskState, DoState) {
    if panes::holds_unsaved(m.panes, m.focus) {
        (
            asking_about(
                m,
                PendingState::CloseUnsaved(m.focus),
                "Close "@ + panes::name_in(m.panes, m.focus) + " without saving it?"@,
                "Save"@,
            ),
            DoState::Done,
        )
    } else {
        (m, DoState::Close(m.focus))
    }
}

/// Moving the workspace to the tree's selection: a file means its folder.
pub open spec fn working_here(m: DeskState, f: Facts) -> DoState {
    match tree_selection(m, f) {
        None => DoState::Done,
        Some(p) => if f.selection_is_dir {
            DoState::Switch(p)
        } else {
            match path::path_parent(p) {
                Some(up) => DoState::Switch(up),
                None => DoState::Done,
            }
        },
    }
}

/// Removing the tree's selection: asked about first, done the second time.
pub open spec fn deleting(m: DeskState, asked: Option<ConfirmState>, f: Facts) -> (DeskState, DoState) {
    match tree_selection(m, f) {
        None => (m, DoState::Done),
        Some(p) => if asked == Some(ConfirmState::DeletePath) {
            (m, DoState::Delete(p))
        } else {
            (
                warned(
                    DeskState { confirm: Some(ConfirmState::DeletePath), ..m },
                    "delete "@ + own_name(p) + "? press delete again"@,
                ),
                DoState::Done,
            )
        },
    }
}

/// What replace starts from: the selection when it fits on one line.
pub open spec fn one_liner(s: Option<Seq<char>>) -> Seq<char> {
    match s {
        Some(t) => if t.contains('\n') { Seq::empty() } else { t },
        None => Seq::empty(),
    }
}

/// Saving. Overwriting another program's change cannot be undone, so that is
/// asked about first.
pub open spec fn saving(m: DeskState, asked: Option<ConfirmState>, stale: bool) -> (DeskState, DoState) {
    match focused(m) {
        Some(ContentState::Settings) => (m, DoState::SaveConfig),
        Some(ContentState::Editor { .. }) => if stale && asked != Some(ConfirmState::Overwrite(m.focus)) {
            (
                warned(
                    DeskState { confirm: Some(ConfirmState::Overwrite(m.focus)), ..m },
                    "changed on disk since you opened it \u{2014} press save again to overwrite"@,
                ),
                DoState::Done,
            )
        } else {
            (m, DoState::Save(m.focus))
        },
        _ => (m, DoState::Done),
    }
}

/// A numbered pane, counted where the panes are drawn. A number past the end
/// does nothing.
pub open spec fn to_pane(m: DeskState, i: nat, order: Seq<PaneId>) -> DeskState {
    if i < order.len() { DeskState { focus: order[i as int], ..m } } else { m }
}

/// What a command does. Doing anything means the user moved on, so a waiting
/// confirmation and the last message go first; `asked` is the confirmation
/// that was waiting.
pub open spec fn ran(before: DeskState, a: Action, f: Facts) -> (DeskState, DoState) {
    let asked = before.confirm;
    let m = DeskState { confirm: None, notice: None, ..before };
    let on_editor = focused(m) is Some && focused(m)->Some_0 is Editor;
    match a {
        Action::SplitRight => (m, DoState::Split(Axis::Horizontal)),
        Action::SplitDown => (m, DoState::Split(Axis::Vertical)),
        Action::ClosePane => closing(m),
        Action::OpenTerminal => (m, DoState::OpenTerminal),
        Action::OpenExplorer => (m, DoState::OpenExplorer),
        Action::ToggleExplorer => (m, DoState::ToggleExplorer),
        Action::OpenSettings => (m, DoState::OpenSettings),
        Action::GitPanel => (m, DoState::GitPanel),
        Action::OpenAgent => (m, DoState::OpenAgent),
        Action::WorkspaceHere => (m, working_here(m, f)),
        Action::OpenFolder => (DeskState { palette: None, pending: None, ..m }, DoState::Browse),
        Action::ToggleHelp => (DeskState { help_open: !m.help_open, ..m }, DoState::Done),
        Action::ToggleVim => (
            warned(m, if f.vim_on { "vim mode off"@ } else { "vim mode on"@ }),
            DoState::SetVim(!f.vim_on),
        ),
        Action::NewFile => (
            prompting_for(m, PendingState::NewFile(target_dir(m, f)), "new file"@, Seq::empty()),
            DoState::Done,
        ),
        Action::NewFolder => (
            prompting_for(m, PendingState::NewFolder(target_dir(m, f)), "new folder"@, Seq::empty()),
            DoState::Done,
        ),
        Action::Rename => match tree_selection(m, f) {
            None => (m, DoState::Done),
            Some(p) => (
                prompting_for(m, PendingState::Rename(p), "rename"@, own_name(p)),
                DoState::Done,
            ),
        },
        Action::Delete => deleting(m, asked, f),
        Action::Commands => (m, DoState::ListCommands),
        Action::GoToFile => (m, DoState::ListFiles),
        Action::LastFile => (m, DoState::LastFile),
        Action::Find => (m, if on_editor { DoState::FindHere } else { DoState::Done }),
        Action::Replace => if on_editor {
            (
                prompting_for(
                    m,
                    PendingState::ReplaceWhat,
                    "replace"@,
                    one_liner(opt_text(f.selected_text)),
                ),
                DoState::Done,
            )
        } else {
            (m, DoState::Done)
        },
        Action::GoToLine => (
            DeskState { palette: Some(palette::asking_line()), ..m },
            DoState::Done,
        ),
        Action::FindInProject => if f.is_repo {
            (prompting_for(m, PendingState::ProjectSearch, "search"@, Seq::empty()), DoState::Done)
        } else {
            (warned(m, "project search needs a git repository"@), DoState::Done)
        },
        Action::FocusLeft => (m, DoState::Focus(Dir::Left)),
        Action::FocusRight => (m, DoState::Focus(Dir::Right)),
        Action::FocusUp => (m, DoState::Focus(Dir::Up)),
        Action::FocusDown => (m, DoState::Focus(Dir::Down)),
        Action::GrowPaneWidth => (m, DoState::Resize { grow: true, axis: Axis::Horizontal }),
        Action::ShrinkPaneWidth => (m, DoState::Resize { grow: false, axis: Axis::Horizontal }),
        Action::GrowPaneHeight => (m, DoState::Resize { grow: true, axis: Axis::Vertical }),
        Action::ShrinkPaneHeight => (m, DoState::Resize { grow: false, axis: Axis::Vertical }),
        Action::MinimizeWindow => (m, DoState::Minimize),
        Action::ToggleMaximize => (m, DoState::ToggleMaximize),
        Action::Copy => (m, DoState::Copy { cut: false }),
        Action::Cut => (m, DoState::Copy { cut: true }),
        Action::Paste => (m, DoState::Paste),
        Action::Save => saving(m, asked, f.stale),
        Action::PomodoroToggle => (m, DoState::Timer(TimerOp::Toggle)),
        Action::PomodoroReset => (m, DoState::Timer(TimerOp::Reset)),
        Action::PomodoroSkip => (m, DoState::Timer(TimerOp::Skip)),
        Action::FontLarger => (m, DoState::Font { larger: true }),
        Action::FontSmaller => (m, DoState::Font { larger: false }),
        Action::Quit => {
            let (q, now) = quitting(m);
            (q, if now { DoState::Quit } else { DoState::Done })
        },
        _ => match action::pane_number(a) {
            Some(i) => (to_pane(m, i, f.order@), DoState::Done),
            None => match edit_of(a) {
                Some(op) => (m, if on_editor { DoState::Edit(op) } else { DoState::Done }),
                None => (m, DoState::Done),
            },
        },
    }
}

impl Desk {
    pub fn new(focus: PaneId, root: Path) -> (r: Desk)
        ensures
            r@ == (DeskState {
                panes: Seq::empty(),
                focus,
                root: root@,
                confirm: None,
                notice: None,
                pending: None,
                palette: None,
                help_open: false,
                recent: Seq::empty(),
            }),
    {
        let r: Desk = Desk {
            panes: Panes::new(),
            focus,
            root,
            confirm: None,
            notice: None,
            pending: None,
            palette: None,
            help_open: false,
            recent: Vec::new(),
        };
        assert(r@.recent =~= Seq::empty());
        r
    }

    /// Shows a warning in the status bar.
    pub fn warn(&mut self, message: &str)
        ensures
            final(self)@ == warned(old(self)@, message@),
    {
        self.notice = Some(message.to_owned());
    }

    pub fn ask_about(&mut self, op: Pending, question: &str, save: &str)
        ensures
            final(self)@ == asking_about(old(self)@, op@, question@, save@),
    {
        let mut answers: Vec<String> = Vec::new();
        answers.push(save.to_owned());
        answers.push("Discard".to_owned());
        answers.push("Cancel".to_owned());
        assert(text::texts(answers@) =~= seq![save@, "Discard"@, "Cancel"@]);
        self.pending = Some(op);
        self.palette = Some(Palette::ask("Unsaved Changes", question, answers));
    }

    pub fn prompt_for(&mut self, op: Pending, label: &str, initial: &str)
        ensures
            final(self)@ == prompting_for(old(self)@, op@, label@, initial@),
    {
        self.pending = Some(op);
        self.palette = Some(Palette::prompt(label, initial));
    }

    pub fn prompt_empty(&mut self, op: Pending, label: &str)
        ensures
            final(self)@ == prompting_for(old(self)@, op@, label@, Seq::empty()),
    {
        proof {
            reveal_strlit("");
            assert(""@ =~= Seq::<char>::empty());
        }
        self.prompt_for(op, label, "");
    }

    /// True when quitting is allowed. Asks once if anything is unsaved. The
    /// close button, Alt+F4 and the taskbar all come through here, which is
    /// why the confirmation cannot live only in the quit shortcut.
    pub fn confirm_quit(&mut self) -> (r: bool)
        ensures
            final(self)@ == quitting(old(self)@).0,
            r == quitting(old(self)@).1,
    {
        let n: usize = self.panes.unsaved_count();
        if n == 0 {
            return true;
        }
        let words: String = unsaved_phrase(n);
        let question: String = joined3("Quit with ", words.as_str(), "?");
        self.ask_about(Pending::QuitUnsaved, question.as_str(), "Save all");
        false
    }

    fn on_editor(&self) -> (r: bool)
        ensures
            r == (focused(self@) is Some && focused(self@)->Some_0 is Editor),
    {
        matches!(self.panes.top(self.focus), Some(Content::Editor { .. }))
    }

    fn on_tree(&self) -> (r: bool)
        ensures
            r == (focused(self@) == Some(ContentState::Explorer)),
    {
        matches!(self.panes.top(self.focus), Some(Content::Explorer))
    }

    /// The selected path in the focused tree.
    pub fn explorer_selection(&self, f: &Facts) -> (r: Option<Path>)
        ensures
            panes::opt_path(r) == tree_selection(self@, *f),
    {
        if !self.on_tree() {
            return None;
        }
        match &f.selection {
            Some(p) => Some(p.dup()),
            None => None,
        }
    }

    /// Where a new entry should go.
    pub fn explorer_target_dir(&self, f: &Facts) -> (r: Path)
        ensures
            r@ == target_dir(self@, *f),
    {
        if self.on_tree() {
            return match &f.selection {
                None => f.tree_root.dup(),
                Some(p) => if f.selection_is_dir {
                    p.dup()
                } else {
                    match p.parent() {
                        Some(up) => up,
                        None => f.tree_root.dup(),
                    }
                },
            };
        }
        match self.panes.file_in(self.focus) {
            Some(p) => match p.parent() {
                Some(up) => up,
                None => self.root.dup(),
            },
            None => self.root.dup(),
        }
    }

    fn close_key(&mut self) -> (r: Do)
        ensures
            final(self)@ == closing(old(self)@).0,
            r@ == closing(old(self)@).1,
    {
        if self.panes.unsaved_in(self.focus) {
            let name: String = self.panes.file_name_in(self.focus);
            let question: String = joined3("Close ", name.as_str(), " without saving it?");
            let pane: PaneId = self.focus;
            self.ask_about(Pending::CloseUnsaved(pane), question.as_str(), "Save");
            return Do::Done;
        }
        Do::Close(self.focus)
    }

    fn work_here(&self, f: &Facts) -> (r: Do)
        ensures
            r@ == working_here(self@, *f),
    {
        match self.explorer_selection(f) {
            None => Do::Done,
            Some(p) => if f.selection_is_dir {
                Do::Switch(p)
            } else {
                match p.parent() {
                    Some(up) => Do::Switch(up),
                    None => Do::Done,
                }
            },
        }
    }

    fn name_of(p: &Path) -> (r: String)
        ensures
            r@ == own_name(p@),
    {
        match p.file_name() {
            Some(n) => n,
            None => {
                let none: String = String::new();
                assert(none@ =~= Seq::<char>::empty());
                none
            },
        }
    }

    fn rename_key(&mut self, f: &Facts) -> (r: Do)
        ensures
            match tree_selection(old(self)@, *f) {
                None => final(self)@ == old(self)@,
                Some(p) => final(self)@ == prompting_for(
                    old(self)@,
                    PendingState::Rename(p),
                    "rename"@,
                    own_name(p),
                ),
            },
            r@ == DoState::Done,
    {
        match self.explorer_selection(f) {
            None => {},
            Some(p) => {
                // Prefilled: renaming usually means changing part of a name.
                let name: String = Desk::name_of(&p);
                self.prompt_for(Pending::Rename(p), "rename", name.as_str());
            },
        }
        Do::Done
    }

    fn delete_key(&mut self, asked: Option<Confirm>, f: &Facts) -> (r: Do)
        ensures
            final(self)@ == deleting(old(self)@, opt_confirm(asked), *f).0,
            r@ == deleting(old(self)@, opt_confirm(asked), *f).1,
    {
        match self.explorer_selection(f) {
            None => Do::Done,
            Some(p) => {
                if matches!(asked, Some(Confirm::DeletePath)) {
                    return Do::Delete(p);
                }
                let name: String = Desk::name_of(&p);
                self.confirm = Some(Confirm::DeletePath);
                let message: String = joined3("delete ", name.as_str(), "? press delete again");
                self.warn(message.as_str());
                Do::Done
            },
        }
    }

    fn replace_key(&mut self, f: &Facts)
        ensures
            final(self)@ == prompting_for(
                old(self)@,
                PendingState::ReplaceWhat,
                "replace"@,
                one_liner(opt_text(f.selected_text)),
            ),
    {
        let mut initial: String = String::new();
        assert(initial@ =~= Seq::<char>::empty());
        match &f.selected_text {
            Some(t) => {
                let v: Vec<char> = chars_of(t.as_str());
                if !has_char(&v, '\n') {
                    initial = t.clone();
                }
            },
            None => {},
        }
        self.prompt_for(Pending::ReplaceWhat, "replace", initial.as_str());
    }

    fn save_key(&mut self, asked: Option<Confirm>, stale: bool) -> (r: Do)
        ensures
            final(self)@ == saving(old(self)@, opt_confirm(asked), stale).0,
            r@ == saving(old(self)@, opt_confirm(asked), stale).1,
    {
        if matches!(self.panes.top(self.focus), Some(Content::Settings)) {
            return Do::SaveConfig;
        }
        if !self.on_editor() {
            return Do::Done;
        }
        let confirmed: bool = match asked {
            Some(Confirm::Overwrite(p)) => p == self.focus,
            _ => false,
        };
        if stale && !confirmed {
            self.confirm = Some(Confirm::Overwrite(self.focus));
            self.warn("changed on disk since you opened it \u{2014} press save again to overwrite");
            return Do::Done;
        }
        Do::Save(self.focus)
    }

    /// Runs a bound action.
    pub fn run(&mut self, a: Action, f: &Facts) -> (r: Do)
        ensures
            final(self)@ == ran(old(self)@, a, *f).0,
            r@ == ran(old(self)@, a, *f).1,
    {
        let asked: Option<Confirm> = self.confirm.take();
        self.notice = None;
        match a {
            Action::SplitRight => Do::Split(Axis::Horizontal),
            Action::SplitDown => Do::Split(Axis::Vertical),
            Action::ClosePane => self.close_key(),
            Action::OpenTerminal => Do::OpenTerminal,
            Action::OpenExplorer => Do::OpenExplorer,
            Action::ToggleExplorer => Do::ToggleExplorer,
            Action::OpenSettings => Do::OpenSettings,
            Action::GitPanel => Do::GitPanel,
            Action::OpenAgent => Do::OpenAgent,
            Action::WorkspaceHere => self.work_here(f),
            // The palette drops so two overlays never fight over the
            // keyboard.
            Action::OpenFolder => {
                self.palette = None;
                self.pending = None;
                Do::Browse
            },
            Action::ToggleHelp => {
                self.help_open = !self.help_open;
                Do::Done
            },
            Action::ToggleVim => {
                self.warn(if f.vim_on { "vim mode off" } else { "vim mode on" });
                Do::SetVim(!f.vim_on)
            },
            Action::NewFile => {
                let dir: Path = self.explorer_target_dir(f);
                self.prompt_empty(Pending::NewFile(dir), "new file");
                Do::Done
            },
            Action::NewFolder => {
                let dir: Path = self.explorer_target_dir(f);
                self.prompt_empty(Pending::NewFolder(dir), "new folder");
                Do::Done
            },
            Action::Rename => self.rename_key(f),
            Action::Delete => self.delete_key(asked, f),
            Action::Commands => Do::ListCommands,
            Action::GoToFile => Do::ListFiles,
            Action::LastFile => Do::LastFile,
            Action::Find => if self.on_editor() { Do::FindHere } else { Do::Done },
            Action::Replace => {
                if self.on_editor() {
                    self.replace_key(f);
                }
                Do::Done
            },
            Action::GoToLine => {
                self.palette = Some(Palette::line());
                Do::Done
            },
            Action::FindInProject => {
                if f.is_repo {
                    self.prompt_empty(Pending::ProjectSearch, "search");
                } else {
                    // Without a repository there is no ignore list to honour
                    // and no fast index.
                    self.warn("project search needs a git repository");
                }
                Do::Done
            },
            Action::FocusLeft => Do::Focus(Dir::Left),
            Action::FocusRight => Do::Focus(Dir::Right),
            Action::FocusUp => Do::Focus(Dir::Up),
            Action::FocusDown => Do::Focus(Dir::Down),
            Action::GrowPaneWidth => Do::Resize { grow: true, axis: Axis::Horizontal },
            Action::ShrinkPaneWidth => Do::Resize { grow: false, axis: Axis::Horizontal },
            Action::GrowPaneHeight => Do::Resize { grow: true, axis: Axis::Vertical },
            Action::ShrinkPaneHeight => Do::Resize { grow: false, axis: Axis::Vertical },
            Action::MinimizeWindow => Do::Minimize,
            Action::ToggleMaximize => Do::ToggleMaximize,
            Action::Copy => Do::Copy { cut: false },
            Action::Cut => Do::Copy { cut: true },
            Action::Paste => Do::Paste,
            Action::Save => self.save_key(asked, f.stale),
            Action::PomodoroToggle => Do::Timer(TimerOp::Toggle),
            Action::PomodoroReset => Do::Timer(TimerOp::Reset),
            Action::PomodoroSkip => Do::Timer(TimerOp::Skip),
            Action::FontLarger => Do::Font { larger: true },
            Action::FontSmaller => Do::Font { larger: false },
            Action::Quit => if self.confirm_quit() { Do::Quit } else { Do::Done },
            _ => {
                match a.pane_index() {
                    Some(i) => {
                        if i < f.order.len() {
                            self.focus = f.order[i];
                        }
                        return Do::Done;
                    },
                    None => {},
                }
                match edit_op(a) {
                    Some(op) => if self.on_editor() { Do::Edit(op) } else { Do::Done },
                    None => Do::Done,
                }
            },
        }
    }
}

} // verus!
