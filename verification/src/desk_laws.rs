//! What the commands of the window promise: each does its one thing, asks
//! where work could be lost, and what is asked leads where the answer says.
use vstd::prelude::*;
use crate::action::Action;
use crate::desk;
use crate::desk::{ConfirmState, DeskState, Dir, DoState, EditOp, Facts, PendingState, TimerOp};
use crate::desk_steps;
use crate::desk_steps::OverState;
use crate::lsp::Pos;
use crate::palette;
use crate::palette::{Mode, PaletteState};
use crate::panes;
use crate::panes::{Around, ContentState, SlotState};
use crate::path;
use crate::path::PathState;
use crate::places;
use crate::session::{Axis, PaneId, PaneState};
use crate::text;

verus! {

/// The desk with the waiting confirmation and the last message gone.
pub open spec fn moved_on(m: DeskState) -> DeskState {
    DeskState { confirm: None, notice: None, ..m }
}

/// The focused pane shows a file that can be edited.
pub open spec fn on_file(m: DeskState) -> bool {
    panes::top_in(m.panes, m.focus) matches Some(ContentState::Editor { .. })
}

/// The focused pane shows the file tree.
pub open spec fn on_tree(m: DeskState) -> bool {
    panes::top_in(m.panes, m.focus) == Some(ContentState::Explorer)
}

// ------------------------------------------------------------------- saving

/// Save writes the file in the focused pane. Only a file that changed on disk
/// is asked about, once: the same key again goes through with it.
pub proof fn saving_writes_the_focused_file(m: DeskState, f: Facts, g: Facts)
    requires
        on_file(m),
    ensures
        !f.stale ==> desk::ran(m, Action::Save, f) == (moved_on(m), DoState::Save(m.focus)),
        m.confirm == Some(ConfirmState::Overwrite(m.focus)) ==> desk::ran(m, Action::Save, f) == (
            moved_on(m),
            DoState::Save(m.focus),
        ),
        f.stale && m.confirm != Some(ConfirmState::Overwrite(m.focus)) ==> {
            let (asked, todo) = desk::ran(m, Action::Save, f);
            &&& todo == DoState::Done
            &&& asked.notice is Some
            &&& moved_on(asked) == moved_on(m)
            &&& desk::ran(asked, Action::Save, g) == (moved_on(m), DoState::Save(m.focus))
        },
{
}

/// On the settings screen Save writes the settings; where there is nothing to
/// write it does nothing.
pub proof fn saving_elsewhere(m: DeskState, f: Facts)
    requires
        !on_file(m),
    ensures
        desk::ran(m, Action::Save, f) == (
            moved_on(m),
            if panes::top_in(m.panes, m.focus) == Some(ContentState::Settings) {
                DoState::SaveConfig
            } else {
                DoState::Done
            },
        ),
{
}

/// A confirmation to overwrite one pane's file is no leave to overwrite
/// another's.
pub proof fn leave_to_overwrite_is_for_one_pane(m: DeskState, other: PaneId, f: Facts)
    requires
        on_file(m),
        f.stale,
        other != m.focus,
        m.confirm == Some(ConfirmState::Overwrite(other)),
    ensures
        desk::ran(m, Action::Save, f).1 == DoState::Done,
        desk::ran(m, Action::Save, f).0.confirm == Some(ConfirmState::Overwrite(m.focus)),
{
}

// ----------------------------------------------------- closing and quitting

/// A pane with nothing unsaved in it closes at once, and nothing is asked.
pub proof fn a_saved_pane_closes_at_once(m: DeskState, f: Facts)
    requires
        !(panes::top_in(m.panes, m.focus) matches Some(ContentState::Editor { modified: true, .. })),
    ensures
        desk::ran(m, Action::ClosePane, f) == (moved_on(m), DoState::Close(m.focus)),
{
}

/// Closing a pane with unsaved work names the file in the question, and the
/// answers lead where they say: a save that went through and a discard close
/// that pane, and nothing else does.
pub proof fn the_answer_to_closing(m: DeskState, f: Facts, path: Option<PathState>, index: nat)
    requires
        panes::top_in(m.panes, m.focus) == Some(ContentState::Editor { path, modified: true }),
    ensures
        ({
            let (asked, todo) = desk::ran(m, Action::ClosePane, f);
            &&& todo == DoState::Done
            &&& asked.panes == m.panes && asked.focus == m.focus
            &&& asked.palette is Some && asked.palette->Some_0.question is Some
            &&& path is Some && path::path_name(path->Some_0) is Some ==> asked.palette->Some_0.question->Some_0
                == "Close "@ + path::path_name(path->Some_0)->Some_0 + " without saving it?"@
            &&& (desk_steps::answered(asked, index).1 == DoState::Close(m.focus) <==> index == 1)
            &&& (desk_steps::answered(asked, index).1 == DoState::Done <==> index != 1)
            &&& desk_steps::answered(asked, index).0.panes == m.panes
        }),
{
}

/// What is saved before an answer is acted on: the pane that was asked about,
/// or every pane with unsaved work, and only when saving was the answer.
pub proof fn saving_first_means_what_was_asked_about(m: DeskState, pane: PaneId, f: PathState, index: nat)
    requires
        panes::top_in(m.panes, pane) matches Some(ContentState::Editor { .. }),
    ensures
        m.pending == Some(PendingState::CloseUnsaved(pane)) || m.pending == Some(
            PendingState::ReplaceUnsaved(pane, f),
        ) ==> desk_steps::saves_first(m, index) == (if index == 0 { seq![pane] } else { Seq::empty() }),
        m.pending == Some(PendingState::QuitUnsaved) || m.pending == Some(PendingState::SwitchUnsaved(f))
            ==> desk_steps::saves_first(m, index) == (if index == 0 {
            panes::unsaved_ids(m.panes, m.panes.len() as int)
        } else {
            Seq::empty()
        }),
        m.pending is None ==> desk_steps::saves_first(m, index).len() == 0,
{
}

/// Once nothing is unsaved any more, saving leads on exactly as discarding
/// does: to closing, opening, moving or quitting, whichever was asked about.
pub proof fn a_save_that_went_through_leads_on(m: DeskState, pane: PaneId, f: PathState, index: nat)
    requires
        index <= 1,
        panes::unsaved_total(m.panes) == 0,
        !panes::holds_unsaved(m.panes, pane),
    ensures
        ({
            let t = |op: PendingState| desk_steps::answered(DeskState { pending: Some(op), ..m }, index);
            let gone = DeskState { pending: None, ..m };
            &&& t(PendingState::CloseUnsaved(pane)) == (gone, DoState::Close(pane))
            &&& t(PendingState::ReplaceUnsaved(pane, f)) == (gone, DoState::Open(pane, f))
            &&& t(PendingState::SwitchUnsaved(f)) == (gone, DoState::OpenWorkspace(f))
            &&& t(PendingState::QuitUnsaved) == (gone, DoState::Quit)
        }),
{
}

/// Discarding goes through with what was asked about, unsaved work or not.
pub proof fn discarding_goes_through(m: DeskState, pane: PaneId, f: PathState)
    ensures
        ({
            let t = |op: PendingState| desk_steps::answered(DeskState { pending: Some(op), ..m }, 1);
            let gone = DeskState { pending: None, ..m };
            &&& t(PendingState::CloseUnsaved(pane)) == (gone, DoState::Close(pane))
            &&& t(PendingState::ReplaceUnsaved(pane, f)) == (gone, DoState::Open(pane, f))
            &&& t(PendingState::SwitchUnsaved(f)) == (gone, DoState::OpenWorkspace(f))
            &&& t(PendingState::QuitUnsaved) == (gone, DoState::Quit)
        }),
{
}

/// With nothing unsaved anywhere, quitting quits.
pub proof fn quitting_with_everything_saved(m: DeskState, f: Facts)
    requires
        forall|i: int|
            0 <= i < m.panes.len() && (#[trigger] m.panes[i]).stack.len() > 0 ==> !(m.panes[i].stack.last() matches
            ContentState::Editor { modified: true, .. }),
    ensures
        desk::ran(m, Action::Quit, f) == (moved_on(m), DoState::Quit),
        desk::quitting(m) == (m, true),
{
    panes::the_count_misses_nothing(m.panes, m.panes.len() as int);
}

/// One pane with unsaved work is enough to be asked before quitting, wherever
/// it is, and the question says how much there is.
pub proof fn quitting_with_anything_unsaved(m: DeskState, f: Facts, i: int)
    requires
        0 <= i < m.panes.len(),
        m.panes[i].stack.len() > 0,
        m.panes[i].stack.last() matches ContentState::Editor { modified: true, .. },
    ensures
        ({
            let (asked, todo) = desk::ran(m, Action::Quit, f);
            let n = panes::unsaved_ids(m.panes, m.panes.len() as int).len();
            &&& todo == DoState::Done
            &&& asked.pending == Some(PendingState::QuitUnsaved)
            &&& asked.panes == m.panes
            &&& asked.palette is Some
            &&& asked.palette->Some_0.items == seq!["Save all"@, "Discard"@, "Cancel"@]
            &&& asked.palette->Some_0.question == Some(
                "Quit with "@ + text::decimal(n) + " unsaved "@ + (if n == 1 { "file"@ } else { "files"@ }) + "?"@,
            )
        }),
{
    panes::the_count_misses_nothing(m.panes, m.panes.len() as int);
    let n = panes::unsaved_ids(m.panes, m.panes.len() as int).len();
    assert("Quit with "@ + (text::decimal(n) + " unsaved "@ + (if n == 1 { "file"@ } else { "files"@ })) + "?"@
        =~= "Quit with "@ + text::decimal(n) + " unsaved "@ + (if n == 1 { "file"@ } else { "files"@ }) + "?"@);
}

// ------------------------------------------------------------ each command

/// A command that only asks the program around the window to do something
/// asks for that and nothing else, wherever the focus is.
pub proof fn a_plain_command_does_its_one_thing(m: DeskState, f: Facts)
    ensures
        ({
            let does = |a: Action, d: DoState| desk::ran(m, a, f) == (moved_on(m), d);
            &&& does(Action::SplitRight, DoState::Split(Axis::Horizontal))
            &&& does(Action::SplitDown, DoState::Split(Axis::Vertical))
            &&& does(Action::OpenTerminal, DoState::OpenTerminal)
            &&& does(Action::OpenExplorer, DoState::OpenExplorer)
            &&& does(Action::ToggleExplorer, DoState::ToggleExplorer)
            &&& does(Action::OpenSettings, DoState::OpenSettings)
            &&& does(Action::GitPanel, DoState::GitPanel)
            &&& does(Action::OpenAgent, DoState::OpenAgent)
            &&& does(Action::Commands, DoState::ListCommands)
            &&& does(Action::GoToFile, DoState::ListFiles)
            &&& does(Action::LastFile, DoState::LastFile)
            &&& does(Action::FocusLeft, DoState::Focus(Dir::Left))
            &&& does(Action::FocusRight, DoState::Focus(Dir::Right))
            &&& does(Action::FocusUp, DoState::Focus(Dir::Up))
            &&& does(Action::FocusDown, DoState::Focus(Dir::Down))
            &&& does(Action::GrowPaneWidth, DoState::Resize { grow: true, axis: Axis::Horizontal })
            &&& does(Action::ShrinkPaneWidth, DoState::Resize { grow: false, axis: Axis::Horizontal })
            &&& does(Action::GrowPaneHeight, DoState::Resize { grow: true, axis: Axis::Vertical })
            &&& does(Action::ShrinkPaneHeight, DoState::Resize { grow: false, axis: Axis::Vertical })
            &&& does(Action::MinimizeWindow, DoState::Minimize)
            &&& does(Action::ToggleMaximize, DoState::ToggleMaximize)
            &&& does(Action::Copy, DoState::Copy { cut: false })
            &&& does(Action::Cut, DoState::Copy { cut: true })
            &&& does(Action::Paste, DoState::Paste)
            &&& does(Action::PomodoroToggle, DoState::Timer(TimerOp::Toggle))
            &&& does(Action::PomodoroReset, DoState::Timer(TimerOp::Reset))
            &&& does(Action::PomodoroSkip, DoState::Timer(TimerOp::Skip))
            &&& does(Action::FontLarger, DoState::Font { larger: true })
            &&& does(Action::FontSmaller, DoState::Font { larger: false })
        }),
{
}

/// A command that edits does so to the focused file, and away from a file it
/// does nothing.
pub proof fn an_edit_needs_a_file(m: DeskState, f: Facts)
    ensures
        ({
            let does = |a: Action, op: EditOp|
                desk::ran(m, a, f) == (moved_on(m), if on_file(m) { DoState::Edit(op) } else { DoState::Done });
            &&& does(Action::ToggleComment, EditOp::ToggleComment)
            &&& does(Action::MoveLineUp, EditOp::MoveLines { down: false })
            &&& does(Action::MoveLineDown, EditOp::MoveLines { down: true })
            &&& does(Action::DuplicateLine, EditOp::DuplicateLines)
            &&& does(Action::DeleteLine, EditOp::DeleteLines)
            &&& does(Action::SelectLine, EditOp::SelectLine)
            &&& does(Action::GoToBracket, EditOp::GoToBracket)
            &&& does(Action::Undo, EditOp::Undo)
            &&& does(Action::Redo, EditOp::Redo)
            &&& does(Action::SelectAll, EditOp::SelectAll)
        }),
        desk::ran(m, Action::Find, f) == (moved_on(m), if on_file(m) { DoState::FindHere } else { DoState::Done }),
{
}

/// A numbered key goes to the pane of that number as one reads them, and past
/// the last one it goes nowhere.
pub proof fn a_number_goes_to_its_pane(m: DeskState, f: Facts)
    ensures
        ({
            let goes = |a: Action, n: int|
                desk::ran(m, a, f) == (
                    DeskState { focus: if n <= f.order@.len() { f.order@[n - 1] } else { m.focus }, ..moved_on(m) },
                    DoState::Done,
                );
            &&& goes(Action::FocusPane1, 1)
            &&& goes(Action::FocusPane2, 2)
            &&& goes(Action::FocusPane3, 3)
            &&& goes(Action::FocusPane4, 4)
            &&& goes(Action::FocusPane5, 5)
            &&& goes(Action::FocusPane6, 6)
            &&& goes(Action::FocusPane7, 7)
            &&& goes(Action::FocusPane8, 8)
            &&& goes(Action::FocusPane9, 9)
        }),
{
}

/// Help comes and goes with the same key, and vim mode is switched to what it
/// is not.
pub proof fn a_switch_goes_both_ways(m: DeskState, f: Facts)
    ensures
        desk::ran(m, Action::ToggleHelp, f) == (
            DeskState { help_open: !m.help_open, ..moved_on(m) },
            DoState::Done,
        ),
        desk::ran(desk::ran(m, Action::ToggleHelp, f).0, Action::ToggleHelp, f).0 == moved_on(m),
        desk::ran(m, Action::ToggleVim, f).1 == DoState::SetVim(!f.vim_on),
        desk::ran(m, Action::ToggleVim, f).0.notice == Some(if f.vim_on { "vim mode off"@ } else { "vim mode on"@ }),
        moved_on(desk::ran(m, Action::ToggleVim, f).0) == moved_on(m),
        desk::ran(m, Action::OpenFolder, f) == (
            DeskState { palette: None, pending: None, ..moved_on(m) },
            DoState::Browse,
        ),
{
}

/// Whatever a command does, the message and the confirmation it leaves are its
/// own: what was waiting before it is gone.
pub proof fn a_command_starts_clean(m: DeskState, a: Action, f: Facts)
    requires
        m.confirm != Some(ConfirmState::Overwrite(m.focus)),
        m.confirm != Some(ConfirmState::DeletePath),
    ensures
        desk::ran(m, a, f) == desk::ran(moved_on(m), a, f),
        desk::ran(m, a, f).0.recent == m.recent,
        desk::ran(m, a, f).0.root == m.root,
{
}

// ------------------------------------------------------------ the file tree

/// Deleting what is selected in the tree takes the key twice in a row, and
/// then removes exactly that; away from the tree nothing is deleted.
pub proof fn deleting_takes_two_presses(m: DeskState, f: Facts, p: PathState)
    requires
        on_tree(m),
        f.selection is Some,
        f.selection->Some_0@ == p,
    ensures
        ({
            let first = desk::ran(DeskState { confirm: None, ..m }, Action::Delete, f);
            &&& first.1 == DoState::Done
            &&& first.0.notice is Some
            &&& path::path_name(p) is Some ==> first.0.notice->Some_0 == "delete "@ + path::path_name(p)->Some_0
                + "? press delete again"@
            &&& desk::ran(first.0, Action::Delete, f) == (moved_on(m), DoState::Delete(p))
        }),
{
}

pub proof fn nothing_is_deleted_away_from_the_tree(m: DeskState, f: Facts)
    requires
        !on_tree(m) || f.selection is None,
    ensures
        desk::ran(m, Action::Delete, f) == (moved_on(m), DoState::Done),
        desk::ran(m, Action::Rename, f) == (moved_on(m), DoState::Done),
        desk::ran(m, Action::WorkspaceHere, f) == (moved_on(m), DoState::Done),
{
}

/// Moving the workspace to a folder of the tree goes there, and to a file of
/// it to the folder the file is in.
pub proof fn working_here_means_the_folder(m: DeskState, f: Facts, p: PathState)
    requires
        on_tree(m),
        f.selection is Some,
        f.selection->Some_0@ == p,
    ensures
        f.selection_is_dir ==> desk::ran(m, Action::WorkspaceHere, f) == (moved_on(m), DoState::Switch(p)),
        !f.selection_is_dir && path::path_parent(p) is Some ==> desk::ran(m, Action::WorkspaceHere, f) == (
            moved_on(m),
            DoState::Switch(path::path_parent(p)->Some_0),
        ),
{
}

/// A name that can be typed for a new file: no separator and no drive in it.
pub open spec fn is_file_name(s: Seq<char>) -> bool {
    path::plain_name(s) && !path::has_drive(s)
}

proof fn lemma_named_inside(dir: PathState, name: Seq<char>)
    requires
        is_file_name(name),
    ensures
        path::path_join(dir, path::path_of(name)) == (PathState { root: dir.root, parts: dir.parts.push(name) }),
{
    let p = PathState { root: Seq::empty(), parts: seq![name] };
    assert(text::join(p.parts, seq![path::written_sep(p.root)]) =~= name) by {
        reveal_with_fuel(text::join, 2);
    }
    assert(path::path_text(p) =~= name);
    assert(!path::is_sep(name[0]));
    assert(path::root_of(p.root) =~= p.root);
    path::lemma_path_reads_back(p);
    assert(dir.parts + p.parts =~= dir.parts.push(name));
}

/// A new file or folder goes where one is: into the selected folder of the
/// tree, beside the selected file, beside the file being edited, or into the
/// workspace. What is typed is its name there.
pub proof fn a_new_file_goes_where_one_is(m: DeskState, f: Facts, dir: PathState, name: Seq<char>)
    requires
        is_file_name(name),
        if on_tree(m) {
            match f.selection {
                Some(p) => if f.selection_is_dir {
                    dir == p@
                } else {
                    path::path_parent(p@) == Some(dir)
                },
                None => dir == f.tree_root@,
            }
        } else {
            match panes::top_in(m.panes, m.focus) {
                Some(ContentState::Editor { path: Some(p), .. }) => path::path_parent(p) == Some(dir),
                _ => dir == m.root,
            }
        },
    ensures
        ({
            let file = desk::ran(m, Action::NewFile, f);
            let folder = desk::ran(m, Action::NewFolder, f);
            let there = PathState { root: dir.root, parts: dir.parts.push(name) };
            &&& file.1 == DoState::Done && folder.1 == DoState::Done
            &&& desk_steps::prompted(file.0, name).1 == DoState::CreateFile(there)
            &&& desk_steps::prompted(folder.0, name).1 == DoState::CreateDir(there)
            &&& file.0.palette is Some && file.0.palette->Some_0.mode == Mode::Prompt
            &&& folder.0.palette is Some && folder.0.palette->Some_0.mode == Mode::Prompt
            &&& file.0.palette->Some_0.query.len() == 0 && folder.0.palette->Some_0.query.len() == 0
            &&& file.0.panes == m.panes && folder.0.panes == m.panes
        }),
{
    lemma_named_inside(dir, name);
}

/// Renaming starts from the name a file has, and what is typed becomes the
/// name of exactly that file.
pub proof fn renaming_starts_from_the_name(m: DeskState, f: Facts, p: PathState, to: Seq<char>)
    requires
        on_tree(m),
        f.selection is Some,
        f.selection->Some_0@ == p,
    ensures
        ({
            let (asked, todo) = desk::ran(m, Action::Rename, f);
            &&& todo == DoState::Done
            &&& asked.palette is Some && asked.palette->Some_0.mode == Mode::Prompt
            &&& path::path_name(p) is Some ==> asked.palette->Some_0.query == path::path_name(p)->Some_0
            &&& desk_steps::prompted(asked, to).1 == DoState::Rename { from: p, to }
            &&& desk_steps::prompted(asked, to).0.pending is None
        }),
{
}

// ------------------------------------------------------- search and replace

/// Replace asks for two texts in turn and then replaces the first by the
/// second. It starts from what is selected, when that is on one line.
pub proof fn replacing_asks_for_two_texts(m: DeskState, f: Facts, what: Seq<char>, with: Seq<char>)
    requires
        on_file(m),
    ensures
        ({
            let one = desk::ran(m, Action::Replace, f);
            let two = desk_steps::prompted(one.0, what);
            let three = desk_steps::prompted(two.0, with);
            &&& one.1 == DoState::Done && two.1 == DoState::Done
            &&& one.0.palette is Some && one.0.palette->Some_0.mode == Mode::Prompt
            &&& one.0.palette->Some_0.query == (match f.selected_text {
                Some(t) => if exists|i: int| 0 <= i < t@.len() && t@[i] == '\n' { Seq::empty() } else { t@ },
                None => Seq::empty(),
            })
            &&& two.0.palette is Some && two.0.palette->Some_0.mode == Mode::Prompt
            &&& two.0.palette->Some_0.label == Some("replace '"@ + what + "' with"@)
            &&& three.1 == DoState::ReplaceAll { needle: what, with }
            &&& three.0.pending is None
            &&& three.0.panes == m.panes
        }),
{
}

/// Searching the project needs a repository; in one, what is typed is what is
/// searched for. A commit is made with the message that was typed.
pub proof fn what_is_typed_is_what_is_used(m: DeskState, f: Facts, answer: Seq<char>)
    ensures
        f.is_repo ==> {
            let (asked, todo) = desk::ran(m, Action::FindInProject, f);
            &&& todo == DoState::Done
            &&& asked.palette is Some && asked.palette->Some_0.mode == Mode::Prompt
            &&& desk_steps::prompted(asked, answer).1 == DoState::Grep(answer)
        },
        !f.is_repo ==> {
            let (said, todo) = desk::ran(m, Action::FindInProject, f);
            &&& todo == DoState::Done
            &&& said.notice is Some
            &&& moved_on(said) == moved_on(m)
        },
        desk_steps::prompted(DeskState { pending: Some(PendingState::CommitMessage), ..m }, answer) == (
            DeskState { pending: None, ..m },
            DoState::Commit(answer),
        ),
        desk::ran(m, Action::GoToLine, f).0.palette is Some,
        desk::ran(m, Action::GoToLine, f).0.palette->Some_0.mode == Mode::Line,
{
}

/// Every place of every line that holds the text is replaced, no other, and
/// each for as long as the text is.
pub proof fn every_occurrence_is_replaced(m: DeskState, needle: Seq<char>, cols: Seq<Seq<usize>>, line: int, k: int)
    requires
        on_file(m),
        cols.len() <= usize::MAX,
        0 <= line < cols.len(),
        0 <= k < cols[line].len(),
    ensures
        ({
            let (after, ranges) = desk_steps::replacing(m, needle, cols);
            &&& after == m
            &&& ranges is Some
            &&& ranges->Some_0.contains((Pos { line: line as usize, col: cols[line][k] }, needle.len()))
            &&& forall|i: int|
                0 <= i < ranges->Some_0.len() ==> {
                    let (at, n) = #[trigger] ranges->Some_0[i];
                    &&& n == needle.len()
                    &&& at.line < cols.len()
                    &&& cols[at.line as int].contains(at.col)
                }
        }),
{
    let all = palette::occurrences_in(cols, cols.len() as int);
    let i = palette::lemma_occurrence_listed(cols, cols.len() as int, line, k);
    let ranges = desk_steps::ranges_of(needle.len(), cols);
    assert(ranges[i] == (Pos { line: line as usize, col: cols[line][k] }, needle.len()));
    assert forall|i: int| 0 <= i < ranges.len() implies ({
        let (at, n) = #[trigger] ranges[i];
        n == needle.len() && at.line < cols.len() && cols[at.line as int].contains(at.col)
    }) by {
        palette::lemma_occurrence_is_there(cols, cols.len() as int, i);
    }
}

/// With nothing to replace nothing is, and it is said for what was searched.
pub proof fn nothing_to_replace_is_said(m: DeskState, needle: Seq<char>, cols: Seq<Seq<usize>>)
    requires
        on_file(m),
        forall|i: int| 0 <= i < cols.len() ==> (#[trigger] cols[i]).len() == 0,
    ensures
        desk_steps::replacing(m, needle, cols).1 is None,
        desk_steps::replacing(m, needle, cols).0 == (DeskState {
            notice: Some("no match for '"@ + needle + "'"@),
            ..m
        }),
{
    let all = palette::occurrences_in(cols, cols.len() as int);
    if all.len() > 0 {
        palette::lemma_occurrence_is_there(cols, cols.len() as int, 0);
    }
}

// ------------------------------------------------------------ opening things

/// A file is opened into the pane it was meant for; only unsaved work there
/// is asked about, naming the file that would go, and what was meant to be
/// opened is what the answer opens.
pub proof fn opening_a_file(m: DeskState, target: PaneId, f: PathState)
    ensures
        !(panes::top_in(m.panes, target) matches Some(ContentState::Editor { modified: true, .. }))
            ==> desk_steps::opening_over(m, target, f) == (moved_on(m), DoState::Open(target, f)),
        panes::top_in(m.panes, target) matches Some(ContentState::Editor { modified: true, path }) ==> {
            let (asked, todo) = desk_steps::opening_over(m, target, f);
            &&& todo == DoState::Done
            &&& asked.panes == m.panes && asked.focus == m.focus
            &&& asked.palette is Some && asked.palette->Some_0.mode == Mode::Choice
            &&& path is Some && path::path_name(path->Some_0) is Some ==> asked.palette->Some_0.question == Some(
                "Replace "@ + path::path_name(path->Some_0)->Some_0 + " without saving it?"@,
            )
            &&& desk_steps::answered(asked, 1).1 == DoState::Open(target, f)
            &&& desk_steps::answered(asked, 2).1 == DoState::Done
        },
{
}

/// A place in a file that is open already is gone to where it is; in any
/// other file it is opened first, never over unsaved work.
pub proof fn going_to_a_place(m: DeskState, target: PaneId, f: PathState)
    ensures
        panes::top_in(m.panes, target) matches Some(ContentState::Editor { path, .. }) && path == Some(f)
            ==> desk_steps::opening_at(m, target, f) == (DeskState { focus: target, ..m }, DoState::Reveal(target)),
        panes::top_in(m.panes, target) matches Some(ContentState::Editor { path, modified: true }) && path != Some(f)
            ==> desk_steps::opening_at(m, target, f).1 == DoState::Done && desk_steps::opening_at(m, target, f).0
            == (DeskState { notice: desk_steps::opening_at(m, target, f).0.notice, ..m }) && desk_steps::opening_at(
            m,
            target,
            f,
        ).0.notice is Some,
        !(panes::top_in(m.panes, target) matches Some(ContentState::Editor { path: Some(p), .. }) && p == f) && !(
        panes::top_in(m.panes, target) matches Some(ContentState::Editor { modified: true, .. }))
            ==> desk_steps::opening_at(m, target, f) == (m, DoState::Open(target, f)),
{
}

/// The tree is gone to where it is on screen; otherwise it takes the focused
/// pane, unless something runs there.
pub proof fn opening_the_tree(m: DeskState, chord: Option<Seq<char>>, p: PaneId)
    requires
        panes::tidy(m.panes),
    ensures
        panes::top_in(m.panes, p) == Some(ContentState::Explorer) ==> {
            let (n, done) = desk_steps::exploring(m, chord);
            &&& done
            &&& panes::top_in(m.panes, n.focus) == Some(ContentState::Explorer)
            &&& n == (DeskState { focus: n.focus, ..m })
        },
        (forall|q: PaneId| #[trigger] panes::top_in(m.panes, q) != Some(ContentState::Explorer)) ==> {
            let (n, done) = desk_steps::exploring(m, chord);
            let live = panes::top_in(m.panes, m.focus) == Some(ContentState::Terminal) || panes::top_in(
                m.panes,
                m.focus,
            ) == Some(ContentState::Agent);
            &&& done == !live
            &&& live ==> n == (DeskState { notice: n.notice, ..m }) && n.notice is Some
            &&& !live ==> n.focus == m.focus && panes::top_in(n.panes, p) == (if p == m.focus {
                Some(ContentState::Explorer)
            } else {
                panes::top_in(m.panes, p)
            })
        },
{
    panes::lemma_first_with(m.panes, ContentState::Explorer, 0);
    panes::putting_touches_one_pane(m.panes, m.focus, seq![ContentState::Explorer], p);
    match panes::first_with(m.panes, ContentState::Explorer, 0) {
        Some(q) => {
            let k = panes::lemma_first_with_at(m.panes, ContentState::Explorer, 0);
            panes::what_a_pane_shows(m.panes, k);
        },
        None => {
            if panes::top_in(m.panes, p) == Some(ContentState::Explorer) {
                panes::lemma_slot_of(m.panes, p, 0);
            }
        },
    }
}

/// A screen opened over a pane is left again by the same key, with what it
/// covered back as it was, in that pane and in every other.
pub proof fn a_screen_comes_and_goes(
    m: DeskState,
    target: PaneId,
    screen: ContentState,
    refusal: Seq<char>,
    q: PaneId,
)
    requires
        panes::tidy(m.panes),
        screen == ContentState::Settings || screen == ContentState::Git,
    ensures
        ({
            let shown = panes::top_in(m.panes, target);
            let (n, done) = desk_steps::screened(m, target, screen, refusal);
            let live = shown == Some(ContentState::Terminal) || shown == Some(ContentState::Agent);
            let unsaved = shown matches Some(ContentState::Editor { modified: true, .. });
            &&& live ==> !done && n == (DeskState { notice: Some(refusal), ..m })
            &&& unsaved ==> !done && n == (DeskState { notice: n.notice, ..m }) && n.notice is Some
            &&& !live && !unsaved && shown != Some(screen) ==> {
                &&& done
                &&& n.focus == target
                &&& panes::top_in(n.panes, q) == (if q == target { Some(screen) } else { panes::top_in(m.panes, q) })
                &&& desk_steps::screened(n, target, screen, refusal).1
                &&& panes::stack_in(desk_steps::screened(n, target, screen, refusal).0.panes, q) == panes::stack_in(
                    m.panes,
                    q,
                )
                &&& desk_steps::left(n, screen).1
                &&& panes::stack_in(desk_steps::left(n, screen).0.panes, q) == panes::stack_in(m.panes, q)
            }
            &&& shown != Some(screen) ==> desk_steps::left(DeskState { focus: target, ..m }, screen) == (
                DeskState { focus: target, ..m },
                false,
            )
        }),
{
    let under = panes::stack_in(m.panes, target);
    panes::putting_touches_one_pane(m.panes, target, under.push(screen), target);
    panes::putting_touches_one_pane(m.panes, target, under.push(screen), q);
    panes::leaving_puts_back_what_was_covered(m.panes, target, screen, q);
}

/// A closed pane holds nothing, every other pane holds what it did, and the
/// focus goes to the first neighbour there is: left, right, up, then down. The
/// tree's goes right, down, left, then up.
pub proof fn closing_a_pane(m: DeskState, pane: PaneId, a: Around, q: PaneId)
    requires
        panes::tidy(m.panes),
    ensures
        ({
            let n = desk_steps::closed(m, pane, desk_steps::next_after(a), true);
            &&& panes::top_in(n.panes, q) == (if q == pane { None } else { panes::top_in(m.panes, q) })
            &&& a.left is Some ==> n.focus == a.left->Some_0
            &&& a.left is None && a.right is Some ==> n.focus == a.right->Some_0
            &&& a.left is None && a.right is None && a.up is Some ==> n.focus == a.up->Some_0
            &&& a.left is None && a.right is None && a.up is None && a.down is Some ==> n.focus == a.down->Some_0
            &&& n == (DeskState { panes: n.panes, focus: n.focus, ..m })
            &&& desk_steps::closed(m, pane, desk_steps::next_after(a), false) == (DeskState { panes: n.panes, ..m })
        }),
        ({
            let n = desk_steps::closed(m, pane, desk_steps::next_after_tree(a), true);
            &&& panes::top_in(n.panes, q) == (if q == pane { None } else { panes::top_in(m.panes, q) })
            &&& a.right is Some ==> n.focus == a.right->Some_0
            &&& a.right is None && a.down is Some ==> n.focus == a.down->Some_0
            &&& a.right is None && a.down is None && a.left is Some ==> n.focus == a.left->Some_0
            &&& a.right is None && a.down is None && a.left is None && a.up is Some ==> n.focus == a.up->Some_0
        }),
{
    panes::emptying_touches_one_pane(m.panes, pane, q);
}

/// Moving to a folder moves there when nothing is unsaved, asks when something
/// is, and leaves everything alone for what is no folder or is the workspace
/// already.
pub proof fn moving_to_a_folder(m: DeskState, dir: PathState)
    ensures
        desk_steps::switching(m, dir, false).1 == DoState::Done,
        desk_steps::switching(m, dir, false).0 == (DeskState {
            notice: Some("not a folder: "@ + path::path_text(dir)),
            ..m
        }),
        dir == m.root ==> desk_steps::switching(m, dir, true) == (m, DoState::Done),
        dir != m.root && panes::unsaved_ids(m.panes, m.panes.len() as int).len() == 0 ==> desk_steps::switching(
            m,
            dir,
            true,
        ) == (m, DoState::OpenWorkspace(dir)),
        dir != m.root && panes::unsaved_ids(m.panes, m.panes.len() as int).len() > 0 ==> {
            let (asked, todo) = desk_steps::switching(m, dir, true);
            &&& todo == DoState::Done
            &&& asked.panes == m.panes && asked.root == m.root
            &&& asked.palette is Some && asked.palette->Some_0.mode == Mode::Choice
            &&& desk_steps::answered(asked, 1).1 == DoState::OpenWorkspace(dir)
            &&& desk_steps::answered(asked, 0).1 == DoState::Done
            &&& desk_steps::answered(asked, 2).1 == DoState::Done
        },
{
    panes::the_count_misses_nothing(m.panes, m.panes.len() as int);
}

// -------------------------------------------------------- the file before

/// Noting a file puts it first and keeps the others in their order: each file
/// that was noted is still noted, as far as there is room.
pub proof fn noting_a_file_keeps_the_others(recent: Seq<PathState>, f: PathState, g: PathState)
    requires
        recent.len() < 20,
        recent.no_duplicates(),
    ensures
        desk_steps::recent_with(recent, f)[0] == f,
        desk_steps::recent_with(recent, f).contains(g) <==> g == f || recent.contains(g),
        desk_steps::recent_with(recent, f).no_duplicates(),
        !recent.contains(f) ==> desk_steps::recent_with(recent, f) == seq![f] + recent,
{
    places::lemma_without(recent, f);
    places::lemma_without_keeps(recent, f);
    let rest = places::without(recent, f);
    let all = desk_steps::recent_with(recent, f);
    if !(recent.len() > 0 && recent[0] == f) {
        assert(all == seq![f] + rest);
        assert forall|i: int, j: int| 0 <= i < all.len() && 0 <= j < all.len() && i != j implies all[i] != all[j] by {
            if i > 0 && j > 0 {
                assert(rest[i - 1] != rest[j - 1]);
            } else if i > 0 {
                assert(rest.contains(rest[i - 1]));
            } else {
                assert(rest.contains(rest[j - 1]));
            }
        }
        if all.contains(g) && g != f {
            let i = choose|i: int| 0 <= i < all.len() && all[i] == g;
            assert(rest[i - 1] == g);
            assert(rest.contains(g));
        }
        if rest.contains(g) {
            let i = choose|i: int| 0 <= i < rest.len() && rest[i] == g;
            assert(all[i + 1] == g);
        }
        assert(all[0] == f);
    }
}

/// The file gone back to is the newest noted one that still exists, is not
/// what the pane shows, and is not open anywhere else; every newer one is
/// ruled out by one of these.
pub proof fn going_back_finds_the_newest(m: DeskState, pane: PaneId, there: Seq<bool>, i: int)
    requires
        !panes::holds_live(m.panes, pane),
        !panes::holds_unsaved(m.panes, pane),
        0 <= i < m.recent.len(),
        i < there.len() && there[i],
        panes::path_in(m.panes, pane) != Some(m.recent[i]),
        !desk_steps::open_elsewhere(m.panes, pane, m.recent[i]),
        forall|k: int|
            0 <= k < i ==> k >= there.len() || !there[k] || panes::path_in(m.panes, pane) == Some(
                #[trigger] m.recent[k],
            ) || desk_steps::open_elsewhere(m.panes, pane, m.recent[k]),
    ensures
        desk_steps::going_back(m, pane, there) == (m, DoState::Open(pane, m.recent[i])),
{
    lemma_back_file(m, pane, there, 0, i);
}

proof fn lemma_back_file(m: DeskState, pane: PaneId, there: Seq<bool>, from: int, i: int)
    requires
        0 <= from <= i < m.recent.len(),
        desk_steps::can_go_back(m, pane, there, i),
        forall|k: int| from <= k < i ==> !desk_steps::can_go_back(m, pane, there, k),
    ensures
        desk_steps::back_file(m, pane, there, from) == Some(m.recent[i]),
    decreases i - from,
{
    if from < i {
        assert(!desk_steps::can_go_back(m, pane, there, from));
        lemma_back_file(m, pane, there, from + 1, i);
    }
}

/// Going back never replaces unsaved work, never ends a process, and says so.
pub proof fn going_back_costs_nothing(m: DeskState, pane: PaneId, there: Seq<bool>)
    requires
        panes::holds_live(m.panes, pane) || panes::holds_unsaved(m.panes, pane),
    ensures
        desk_steps::going_back(m, pane, there).1 == DoState::Done,
        desk_steps::going_back(m, pane, there).0.notice is Some,
        desk_steps::going_back(m, pane, there).0.panes == m.panes,
{
}

// ---------------------------------------------------------------- overlays

/// Enter takes the selected row and closes the overlay with it; the overlay
/// stays open when there is nothing to take.
pub proof fn enter_takes_the_selected_row(m: DeskState, p: PaletteState)
    requires
        m.palette == Some(p),
        p.mode != Mode::Prompt && p.mode != Mode::Line,
    ensures
        p.selected < p.matches.len() && p.matches[p.selected as int].index < p.targets.len()
            ==> desk_steps::overlay_pressed(m, 0x0D) == (
            DeskState { palette: None, ..m },
            OverState::Took(p.targets[p.matches[p.selected as int].index as int]),
        ),
        p.selected >= p.matches.len() ==> desk_steps::overlay_pressed(m, 0x0D).0 == m
            && !(desk_steps::overlay_pressed(m, 0x0D).1 is Took),
{
}

/// The arrows move the selection of an overlay by one row, within the list,
/// and Backspace takes the last typed character off. Nothing else of the
/// desk moves.
pub proof fn keys_reach_the_overlay(m: DeskState, p: PaletteState)
    requires
        m.palette == Some(p),
        p.selected < p.matches.len() <= usize::MAX,
    ensures
        ({
            let down = desk_steps::overlay_pressed(m, 0x28).0;
            let up = desk_steps::overlay_pressed(m, 0x26).0;
            &&& down == (DeskState {
                palette: Some(
                    PaletteState {
                        selected: if p.selected + 1 < p.matches.len() { (p.selected + 1) as usize } else { p.selected },
                        ..p
                    },
                ),
                ..m
            })
            &&& up == (DeskState {
                palette: Some(
                    PaletteState { selected: if p.selected > 0 { (p.selected - 1) as usize } else { 0 }, ..p },
                ),
                ..m
            })
        }),
        p.query.len() > 0 ==> desk_steps::overlay_pressed(m, 0x08).0.palette is Some && desk_steps::overlay_pressed(
            m,
            0x08,
        ).0.palette->Some_0.query == p.query.take(p.query.len() - 1),
{
    if p.query.len() > 0 {
        assert(p.query.drop_last() =~= p.query.take(p.query.len() - 1));
    }
}

// ------------------------------------------------------------- the session

/// What a pane is remembered as is what it shows: a file with where its caret
/// is, the tree, a shell, or nothing.
pub proof fn a_pane_is_remembered_as_what_it_shows(s: Seq<SlotState>, p: PaneId, caret: Pos, f: PathState, modified: bool)
    ensures
        panes::top_in(s, p) == Some(ContentState::Editor { path: Some(f), modified }) ==> desk_steps::remembered_as(
            s,
            p,
            caret,
        ) == PaneState::File(f, caret.line as nat, caret.col as nat),
        panes::top_in(s, p) == Some(ContentState::Explorer) ==> desk_steps::remembered_as(s, p, caret)
            == PaneState::Explorer,
        panes::top_in(s, p) == Some(ContentState::Terminal) ==> desk_steps::remembered_as(s, p, caret)
            == PaneState::Terminal,
        panes::top_in(s, p) is None ==> desk_steps::remembered_as(s, p, caret) == PaneState::Empty,
        panes::top_in(s, p) == Some(ContentState::Editor { path: None, modified }) ==> desk_steps::remembered_as(
            s,
            p,
            caret,
        ) == PaneState::Empty,
{
}

/// A file that is put back comes into the pane it was in, with the caret where
/// it was, and only files that are still there and panes that are still known
/// come back.
pub proof fn only_what_was_there_comes_back(
    saved: Seq<(nat, PaneState)>,
    known: Seq<PaneId>,
    there: Seq<bool>,
    n: int,
    k: int,
)
    requires
        0 <= n <= saved.len(),
        0 <= k < desk_steps::files_back(saved, known, there, n).len(),
    ensures
        ({
            let (id, f, line, col) = desk_steps::files_back(saved, known, there, n)[k];
            &&& known.contains(id)
            &&& exists|i: int|
                0 <= i < n && i < there.len() && there[i] && id == PaneId((#[trigger] saved[i]).0 as u64) && saved[i].1
                    == PaneState::File(f, line, col)
        }),
    decreases n,
{
    let rest = desk_steps::files_back(saved, known, there, n - 1);
    if n > 0 {
        if k < rest.len() {
            only_what_was_there_comes_back(saved, known, there, n - 1, k);
            assert(desk_steps::files_back(saved, known, there, n)[k] == rest[k]);
            let (id, f, line, col) = rest[k];
            let i = choose|i: int|
                0 <= i < n - 1 && i < there.len() && there[i] && id == PaneId((#[trigger] saved[i]).0 as u64) && saved[i].1
                    == PaneState::File(f, line, col);
            assert(saved[i].1 == PaneState::File(f, line, col));
        } else {
            assert(saved[n - 1].1 is File);
        }
    }
}

/// The tree comes back where it was.
pub proof fn the_tree_comes_back_where_it_was(saved: Seq<(nat, PaneState)>, known: Seq<PaneId>, n: int, i: int)
    requires
        0 <= i < n <= saved.len(),
        saved[i].1 == PaneState::Explorer,
        known.contains(PaneId(saved[i].0 as u64)),
    ensures
        panes::top_in(desk_steps::put_back(saved, known, n), PaneId(saved[i].0 as u64)) == Some(
            ContentState::Explorer,
        ),
    decreases n,
{
    let rest = desk_steps::put_back(saved, known, n - 1);
    let id = PaneId(saved[n - 1].0 as u64);
    if i < n - 1 {
        the_tree_comes_back_where_it_was(saved, known, n - 1, i);
    }
    panes::putting_touches_one_pane(rest, id, seq![ContentState::Explorer], PaneId(saved[i].0 as u64));
}

/// How unsaved work is counted in a question.
pub proof fn unsaved_files_are_counted_in_words(n: nat)
    ensures
        desk::unsaved_words(1) == text::decimal(1) + " unsaved "@ + "file"@,
        n != 1 ==> desk::unsaved_words(n) == text::decimal(n) + " unsaved "@ + "files"@,
        desk_steps::replaced_words(1) == "replaced "@ + text::decimal(1) + " occurrence"@,
        n != 1 ==> desk_steps::replaced_words(n) == "replaced "@ + text::decimal(n) + " occurrence"@ + "s"@,
{
    reveal_strlit("");
    let one = "replaced "@ + text::decimal(1) + " occurrence"@;
    assert(one + ""@ =~= one);
}

/// The window is named after the folder.
pub proof fn the_window_is_named_after_the_folder(root: PathState)
    ensures
        path::path_name(root) matches Some(n) ==> desk_steps::window_title(root) == n + " \u{2014} kubide"@,
        path::path_name(root) is None ==> desk_steps::window_title(root) == path::path_text(root) + " \u{2014} kubide"@,
{
}

/// The edit that a command makes is its own.
pub proof fn each_edit_is_its_own(a: Action, b: Action)
    ensures
        desk::edit_of(a) is Some && desk::edit_of(a) == desk::edit_of(b) ==> a == b,
        desk::edit_of(Action::ToggleComment) == Some(EditOp::ToggleComment),
        desk::edit_of(Action::MoveLineUp) == Some(EditOp::MoveLines { down: false }),
        desk::edit_of(Action::MoveLineDown) == Some(EditOp::MoveLines { down: true }),
        desk::edit_of(Action::DuplicateLine) == Some(EditOp::DuplicateLines),
        desk::edit_of(Action::DeleteLine) == Some(EditOp::DeleteLines),
        desk::edit_of(Action::SelectLine) == Some(EditOp::SelectLine),
        desk::edit_of(Action::GoToBracket) == Some(EditOp::GoToBracket),
        desk::edit_of(Action::Undo) == Some(EditOp::Undo),
        desk::edit_of(Action::Redo) == Some(EditOp::Redo),
        desk::edit_of(Action::SelectAll) == Some(EditOp::SelectAll),
        desk::edit_of(Action::Save) is None && desk::edit_of(Action::Copy) is None,
{
}

/// What is selected goes into a search as it is, but for more than one line.
pub proof fn one_line_goes_into_a_search(s: Seq<char>)
    ensures
        !s.contains('\n') ==> desk::one_liner(Some(s)) == s,
        s.contains('\n') ==> desk::one_liner(Some(s)).len() == 0,
        desk::one_liner(None).len() == 0,
{
}

/// A change of size: a divider behind the pane moves with the key, one
/// before it against it, so that growing grows.
pub proof fn growing_grows(leading: bool)
    ensures
        desk_steps::resize_plan(true, leading, true) == Some((true, 24int)),
        desk_steps::resize_plan(true, leading, false) == Some((true, -24int)),
        desk_steps::resize_plan(false, true, true) == Some((false, -24int)),
        desk_steps::resize_plan(false, true, false) == Some((false, 24int)),
        desk_steps::resize_plan(false, false, leading) is None,
{
}

/// What cannot be done is said: a search through a project needs git.
pub proof fn a_search_through_a_project_needs_git(m: DeskState, f: Facts)
    ensures
        !f.is_repo ==> desk::ran(m, Action::FindInProject, f) == (
            DeskState { notice: Some("project search needs a git repository"@), ..moved_on(m) },
            DoState::Done,
        ),
        f.is_repo ==> {
            let (after, d) = desk::ran(m, Action::FindInProject, f);
            &&& d == DoState::Done
            &&& after.pending == Some(PendingState::ProjectSearch)
            &&& after.palette == Some(palette::prompting("search"@, Seq::empty()))
            &&& after.notice is None
        },
{
}

} // verus!
