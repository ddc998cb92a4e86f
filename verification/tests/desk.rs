//! The window's decisions: commands, questions, workspaces, sessions.
use kubide::action::Action;
use kubide::desk::{unsaved_phrase, Desk, Do, EditOp, Facts, Pending, DISCARD, SAVE};
use kubide::desk_steps::{replace_ranges, replaced_text, resize_step, title_for, Over};
use kubide::lsp::Pos;
use kubide::palette::Target;
use kubide::panes::{Around, Content, Place};
use kubide::path::Path;
use kubide::session::{Axis, Desc, Pane, PaneId, Session};
use kubide::vim::{scroll_to, Effect, Step};

const P0: PaneId = PaneId(0);
const P1: PaneId = PaneId(1);

fn root() -> Path {
    Path::parse("C:\\work\\thing")
}

fn file(name: &str) -> Path {
    root().child(name)
}

fn editor(name: &str, modified: bool) -> Content {
    Content::Editor { path: Some(file(name)), modified }
}

fn desk(content: Content) -> Desk {
    let mut d = Desk::new(P0, root());
    d.panes.place(P0, content);
    d
}

fn facts() -> Facts {
    Facts {
        selection: None,
        selection_is_dir: false,
        tree_root: root(),
        is_repo: true,
        selected_text: None,
        stale: false,
        vim_on: false,
        order: vec![P0, P1],
    }
}

fn question(d: &Desk) -> Option<String> {
    d.palette.as_ref().and_then(|p| p.question.clone())
}

const NOWHERE: Around = Around { left: None, right: None, up: None, down: None };

/// Closing unsaved work asks, and Save, Discard and anything else do what
/// they say.
#[test]
fn closing_unsaved_work_asks() {
    let mut d = desk(editor("a.rs", true));
    assert_eq!(d.run(Action::ClosePane, &facts()), Do::Done);
    assert_eq!(d.pending, Some(Pending::CloseUnsaved(P0)));
    assert_eq!(question(&d).as_deref(), Some("Close a.rs without saving it?"));
    assert_eq!(d.wants_saving(SAVE), vec![P0]);
    // The save did not take: the file stays.
    assert_ne!(d.apply_answer(SAVE), Do::Close(P0));
    assert!(d.panes.unsaved_in(P0));

    let mut d = desk(editor("a.rs", true));
    d.run(Action::ClosePane, &facts());
    d.panes.note_modified(P0, false);
    assert_eq!(d.apply_answer(SAVE), Do::Close(P0));

    let mut d = desk(editor("a.rs", true));
    d.run(Action::ClosePane, &facts());
    assert_eq!(d.apply_answer(DISCARD), Do::Close(P0));

    let mut d = desk(editor("a.rs", true));
    d.run(Action::ClosePane, &facts());
    assert_eq!(d.apply_answer(2), Do::Done);
    assert!(d.panes.unsaved_in(P0));

    let mut d = desk(editor("a.rs", false));
    assert_eq!(d.run(Action::ClosePane, &facts()), Do::Close(P0));
}

/// Quitting with unsaved work anywhere asks how much there is.
#[test]
fn quitting_with_unsaved_work_asks() {
    let mut d = desk(editor("a.rs", true));
    d.panes.place(P1, editor("b.rs", true));
    assert_eq!(d.run(Action::Quit, &facts()), Do::Done);
    assert_eq!(question(&d).as_deref(), Some("Quit with 2 unsaved files?"));
    assert_eq!(d.apply_answer(DISCARD), Do::Quit);
    let mut d = desk(editor("a.rs", false));
    assert_eq!(d.run(Action::Quit, &facts()), Do::Quit);
    assert_eq!(unsaved_phrase(1), "1 unsaved file");
}

/// Deleting takes two presses, and anything in between forgets the first.
#[test]
fn deleting_takes_two_presses() {
    let mut d = desk(Content::Explorer);
    let f = Facts { selection: Some(file("a.rs")), ..facts() };
    assert_eq!(d.run(Action::Delete, &f), Do::Done);
    assert_eq!(d.notice.as_deref(), Some("delete a.rs? press delete again"));
    assert_eq!(d.run(Action::Delete, &f), Do::Delete(file("a.rs")));
    d.run(Action::Delete, &f);
    d.run(Action::ToggleHelp, &f);
    assert_eq!(d.run(Action::Delete, &f), Do::Done);
}

/// Overwriting another program's change is asked about first.
#[test]
fn a_stale_file_is_not_overwritten_at_once() {
    let mut d = desk(editor("a.rs", true));
    let f = Facts { stale: true, ..facts() };
    assert_eq!(d.run(Action::Save, &f), Do::Done);
    assert!(d.notice.as_deref().unwrap().starts_with("changed on disk"));
    assert_eq!(d.run(Action::Save, &f), Do::Save(P0));
    assert_eq!(desk(Content::Settings).run(Action::Save, &facts()), Do::SaveConfig);
}

/// Commands of every family.
#[test]
fn commands_come_to_what_they_say() {
    let mut d = desk(editor("a.rs", false));
    assert_eq!(d.run(Action::SplitRight, &facts()), Do::Split(Axis::Horizontal));
    assert_eq!(d.run(Action::DuplicateLine, &facts()), Do::Edit(EditOp::DuplicateLines));
    assert_eq!(d.run(Action::Cut, &facts()), Do::Copy { cut: true });
    assert_eq!(d.run(Action::Find, &facts()), Do::FindHere);
    d.run(Action::FocusPane2, &facts());
    assert_eq!(d.focus, P1);
    d.run(Action::FocusPane9, &facts());
    assert_eq!(d.focus, P1);
    assert_eq!(d.run(Action::ToggleVim, &facts()), Do::SetVim(true));
    assert_eq!(d.notice.as_deref(), Some("vim mode on"));
    d.run(Action::FindInProject, &Facts { is_repo: false, ..facts() });
    assert_eq!(d.notice.as_deref(), Some("project search needs a git repository"));
}

/// A prompt's answer is acted on; the name is put where the prompt said.
#[test]
fn a_prompt_is_acted_on() {
    let mut d = desk(editor("src.rs", false));
    d.run(Action::NewFile, &facts());
    assert_eq!(d.pending, Some(Pending::NewFile(root())));
    assert_eq!(d.apply_prompt("notes.md".into()), Do::CreateFile(file("notes.md")));

    d.run(Action::FindInProject, &facts());
    assert_eq!(d.apply_prompt("needle".into()), Do::Grep("needle".into()));

    d.run(Action::Replace, &facts());
    assert_eq!(d.apply_prompt("old".into()), Do::Done);
    assert_eq!(d.apply_prompt("new".into()), Do::ReplaceAll { needle: "old".into(), with: "new".into() });
}

/// A file does not open over unsaved work without asking, nor over a running
/// program.
#[test]
fn opening_over_unsaved_work_asks() {
    let mut d = desk(editor("a.rs", true));
    assert_eq!(d.open_over(P0, file("b.rs")), Do::Done);
    assert_eq!(d.pending, Some(Pending::ReplaceUnsaved(P0, file("b.rs"))));
    assert_eq!(d.apply_answer(DISCARD), Do::Open(P0, file("b.rs")));

    let mut d = desk(editor("a.rs", false));
    assert_eq!(d.open_over(P0, file("b.rs")), Do::Open(P0, file("b.rs")));
    d.opened(P0, file("b.rs"), false);
    assert_eq!(d.panes.file_in(P0), Some(file("b.rs")));
}

/// Settings and the git panel cover what was there and give it back; neither
/// covers unsaved work or a running program.
#[test]
fn a_covered_pane_comes_back() {
    let mut d = desk(editor("a.rs", false));
    assert!(d.open_settings(P0));
    assert_eq!(d.panes.top(P0), Some(&Content::Settings));
    assert!(d.close_settings());
    assert_eq!(d.panes.top(P0), Some(&editor("a.rs", false)));

    assert!(d.toggle_git_panel(true, P0));
    assert_eq!(d.panes.top(P0), Some(&Content::Git));
    assert!(d.close_git_panel());
    assert_eq!(d.panes.top(P0), Some(&editor("a.rs", false)));

    assert!(!d.toggle_git_panel(false, P0));
    assert_eq!(d.notice.as_deref(), Some("not a git repository"));

    let mut d = desk(editor("a.rs", true));
    assert!(!d.open_settings(P0));
    assert_eq!(d.notice.as_deref(), Some("unsaved changes there \u{2014} save first, or use another pane"));
    let mut d = desk(Content::Terminal);
    assert!(!d.open_settings(P0));
    assert_eq!(
        d.notice.as_deref(),
        Some("settings will not replace a running process \u{2014} use another pane")
    );
}

/// Nothing is opened from the tree onto a running program.
#[test]
fn nothing_lands_on_a_process() {
    let mut d = desk(Content::Explorer);
    d.panes.place(P1, Content::Terminal);
    let around = Around { right: Some(P1), ..NOWHERE };
    let place = d.panes.workspace_place(P0, &around);
    assert_ne!(place, Place::Here(P1));
    d.panes.place(P1, editor("a.rs", false));
    assert_eq!(d.panes.workspace_place(P0, &around), Place::Here(P1));
}

/// A shell on the right is skipped for a free pane below.
#[test]
fn a_shell_next_door_is_skipped() {
    let below = PaneId(7);
    let mut d = desk(Content::Explorer);
    d.panes.place(P1, Content::Terminal);
    d.panes.place(below, editor("a.rs", false));
    let around = Around { right: Some(P1), down: Some(below), ..NOWHERE };
    assert_eq!(d.panes.workspace_place(P0, &around), Place::Here(below));
    d.panes.place(below, Content::Terminal);
    assert_eq!(d.panes.workspace_place(P0, &around), Place::Split(P0, Axis::Horizontal));
}

/// One terminal is enough.
#[test]
fn a_terminal_is_gone_to_rather_than_opened_twice() {
    let mut d = desk(editor("a.rs", false));
    assert!(!matches!(d.panes.terminal_place(P0, &vec![P0]), Place::There(_)));
    d.panes.place(P1, Content::Terminal);
    assert_eq!(d.panes.terminal_place(P0, &vec![P0, P1]), Place::There(P1));
}

/// Another workspace is moved to at once, unless unsaved work is in the way.
#[test]
fn another_workspace_asks_about_unsaved_work() {
    let other = Path::parse("C:\\work\\other");
    let mut d = desk(editor("a.rs", false));
    assert_eq!(d.switch_workspace(other.dup(), true), Do::OpenWorkspace(other.dup()));
    let mut d = desk(editor("a.rs", true));
    assert_eq!(d.switch_workspace(other.dup(), true), Do::Done);
    assert_eq!(d.pending, Some(Pending::SwitchUnsaved(other.dup())));
    assert_eq!(d.apply_answer(DISCARD), Do::OpenWorkspace(other));
    assert_eq!(title_for(&root()), "thing \u{2014} kubide");
}

/// The overlay takes its keys and hands over what was picked.
#[test]
fn the_overlay_hands_over_what_was_picked() {
    let mut d = desk(editor("a.rs", false));
    d.run(Action::GoToLine, &facts());
    d.palette_char('7');
    match d.palette_key(0x0D) {
        Over::Took(Target::Pos(p)) => assert_eq!(p, Pos { line: 6, col: 0 }),
        other => panic!("{other:?}"),
    }
    assert!(d.palette.is_none());
    d.run(Action::GoToLine, &facts());
    d.palette_key(0x1B);
    assert!(d.palette.is_none() && d.pending.is_none());
}

/// Escape takes a question back, and the answer that follows does nothing.
#[test]
fn escape_takes_a_question_back() {
    let mut d = desk(editor("a.rs", true));
    d.run(Action::ClosePane, &facts());
    d.palette_key(0x1B);
    assert_eq!(d.pending, None);
    assert_eq!(d.apply_answer(DISCARD), Do::Done);
}

/// A session is written from the panes and put back into them.
#[test]
fn a_session_is_put_back() {
    let mut d = desk(editor("a.rs", false));
    d.panes.place(P1, Content::Terminal);
    let layout = || Desc::Split {
        axis: Axis::Horizontal,
        ratios: vec!["0.5".into(), "0.5".into()],
        children: vec![Desc::Leaf(P0), Desc::Leaf(P1)],
    };
    let saved = d.session(layout(), &vec![P0, P1], &vec![Pos { line: 3, col: 4 }, Pos { line: 0, col: 0 }]);
    assert_eq!(
        saved,
        Session {
            layout: layout(),
            panes: vec![(P0, Pane::File(file("a.rs"), 3, 4)), (P1, Pane::Terminal)],
            focus: P0,
        }
    );
    let mut fresh = Desk::new(P0, root());
    let files = fresh.restore_session(&saved, &vec![P0, P1], &vec![true, true]);
    assert_eq!(files, Some(vec![(P0, file("a.rs"), 3, 4)]));
    assert_eq!(fresh.restore_session(&saved, &vec![P0], &vec![false, true]), None, "one empty pane");
    assert_eq!(fresh.restore_session(&saved, &vec![], &vec![true, true]), None);
}

/// One pane with a file that is still there is worth putting back.
#[test]
fn a_single_file_is_put_back() {
    let saved = Session { layout: Desc::Leaf(P0), panes: vec![(P0, Pane::File(file("a.rs"), 3, 0))], focus: P0 };
    let mut d = Desk::new(P1, root());
    assert_eq!(d.restore_session(&saved, &vec![P0], &vec![false]), None);
    assert_eq!(d.focus, P1);
    assert_eq!(d.restore_session(&saved, &vec![P0], &vec![true]), Some(vec![(P0, file("a.rs"), 3, 0)]));
    assert_eq!(d.focus, P0);
}

/// The last file is the one before this one.
#[test]
fn the_last_file_is_the_one_before() {
    let mut d = desk(editor("a.rs", false));
    d.note_recent();
    d.opened(P0, file("b.rs"), false);
    d.note_recent();
    assert_eq!(d.recent[0], file("b.rs"));
    assert_eq!(d.open_last_file(P0, &vec![true, true]), Do::Open(P0, file("a.rs")));
}

/// Wider is wider on either side of the divider.
#[test]
fn a_pane_grows_whichever_side_it_is_on() {
    assert_eq!(resize_step(true, true, true), Some((true, 24)));
    assert_eq!(resize_step(false, true, true), Some((false, -24)));
    assert_eq!(resize_step(false, false, true), None);
}

/// Replacing takes every occurrence and says how many.
#[test]
fn every_occurrence_is_replaced() {
    let ranges = replace_ranges("ab", &vec![vec![0, 4], Vec::new(), vec![1]]);
    assert_eq!(
        ranges,
        vec![(Pos { line: 0, col: 0 }, 2), (Pos { line: 0, col: 4 }, 2), (Pos { line: 2, col: 1 }, 2)]
    );
    assert_eq!(replaced_text(3), "replaced 3 occurrences");
    assert_eq!(replaced_text(1), "replaced 1 occurrence");
}

/// What vim asks for is done the way its key would do it.
#[test]
fn vim_runs_the_same_commands() {
    let d = desk(editor("a.rs", true));
    assert_eq!(
        d.vim_effect(Effect::SaveClose),
        vec![Step::Run(Action::Save), Step::Run(Action::ClosePane)]
    );
    assert_eq!(d.vim_effect(Effect::ClosePaneForce), vec![Step::Close(P0)]);
    assert_eq!(d.vim_effect(Effect::OpenFile("b.rs".into())), vec![Step::Open(file("b.rs"))]);
    assert_eq!((scroll_to(5, 3), scroll_to(1, 3), scroll_to(5, 0)), (2, 1, 0));
    let mut d = desk(editor("a.rs", false));
    d.vim_open(file("nowhere"), false, P0);
    assert_eq!(d.notice.as_deref(), Some("not a file: C:\\work\\thing\\nowhere"));
}

/// Replacing is for text, and finding nothing is said.
#[test]
fn replacing_needs_text_and_something_to_replace() {
    let mut d = desk(editor("a.rs", false));
    let found = vec![vec![3], Vec::new()];
    assert_eq!(d.replace_all("ab", &found), Some(vec![(Pos { line: 0, col: 3 }, 2)]));
    assert_eq!(d.notice, None);
    assert_eq!(d.replace_all("ab", &vec![Vec::new()]), None);
    assert_eq!(d.notice.as_deref(), Some("no match for 'ab'"));
    let mut d = desk(Content::Terminal);
    assert_eq!(d.replace_all("ab", &found), None);
    assert_eq!(d.notice, None);
}

/// A shell and an agent take their pane and the focus.
#[test]
fn processes_take_their_pane() {
    let mut d = desk(editor("a.rs", false));
    d.terminal_opened(P1);
    assert_eq!((d.focus, d.panes.top(P1)), (P1, Some(&Content::Terminal)));
    d.agent_opened(PaneId(2));
    assert_eq!((d.focus, d.panes.agent_pane()), (PaneId(2), Some(PaneId(2))));
    assert_eq!(d.panes.agent_place(P0, P0), Place::There(PaneId(2)));
    d.panes.take(PaneId(2));
    assert_eq!(d.panes.agent_place(P0, P0), Place::Split(P0, Axis::Horizontal));
    assert_eq!(d.panes.agent_place(P0, PaneId(3)), Place::Here(PaneId(3)));
    assert_eq!(d.panes.agent_place(PaneId(4), P0), Place::Here(PaneId(4)));
    d.agent_refused();
    assert_eq!(d.notice.as_deref(), Some("no room for another pane"));
}

/// The tree opens once, never over a process, and goes with its pane.
#[test]
fn the_tree_comes_and_goes() {
    let mut d = desk(Content::Terminal);
    assert!(!d.open_explorer(Some("Ctrl+B".into())));
    assert_eq!(
        d.notice.as_deref(),
        Some("something is running here \u{2014} Ctrl+B puts the tree beside it")
    );
    d.show_explorer(P0, P1);
    assert_eq!(d.panes.top(P0), Some(&Content::Explorer));
    assert_eq!(d.panes.top(P1), Some(&Content::Terminal));
    assert_eq!(d.focus, P1);
    assert!(d.open_explorer(None));
    assert_eq!(d.focus, P0);
    let around = Around { right: Some(P1), ..NOWHERE };
    d.hide_explorer(P0, &around, true);
    assert_eq!((d.focus, d.panes.top(P0)), (P1, None));
    // A tree at the bottom hands the focus up.
    d.panes.place(P0, Content::Explorer);
    d.entered(P0);
    d.hide_explorer(P0, &Around { up: Some(P1), ..NOWHERE }, true);
    assert_eq!(d.focus, P1);
}

/// A closed pane is empty, and the focus goes next door when it is gone.
#[test]
fn a_closed_pane_hands_the_focus_on() {
    let around = Around { right: Some(P1), up: Some(PaneId(7)), ..NOWHERE };
    let mut d = desk(editor("a.rs", false));
    d.close_pane(P0, &around, true);
    assert_eq!((d.focus, d.panes.top(P0)), (P1, None));
    let mut d = desk(editor("a.rs", false));
    d.close_pane(P0, &around, false);
    assert_eq!((d.focus, d.panes.top(P0)), (P0, None));
}

/// A new file opens, but not over work; a failure is said.
#[test]
fn what_was_done_to_files_shows() {
    let mut d = desk(editor("a.rs", false));
    assert_eq!(d.done_to_files(None), Do::RefreshTrees);
    assert_eq!(d.file_made(P0, file("b.rs")), Do::Open(P0, file("b.rs")));
    assert_eq!(d.done_to_files(Some("denied".into())), Do::Done);
    assert_eq!(d.notice.as_deref(), Some("denied"));
    d.vim_took();
    assert_eq!(d.notice, None);
    let d = desk(editor("a.rs", true));
    assert_eq!(d.file_made(P0, file("b.rs")), Do::Done);
    let d = desk(Content::Terminal);
    assert_eq!(d.file_made(P0, file("b.rs")), Do::Done);
}

/// Moving the root is said, and staying is not a move.
#[test]
fn the_root_moves_out_loud() {
    let mut d = desk(editor("a.rs", false));
    assert!(!d.set_workspace_root(root()));
    assert_eq!(d.notice, None);
    assert!(d.set_workspace_root(Path::parse("D:\\other")));
    assert_eq!(d.root, Path::parse("D:\\other"));
    assert_eq!(d.notice.as_deref(), Some("workspace root is now D:\\other"));
    assert!(d.remembers());
    assert!(!desk(Content::Welcome).remembers());
}

/// The first click on a row selects it, the second takes it.
#[test]
fn a_second_click_takes_the_row() {
    let mut d = desk(editor("a.rs", true));
    d.run(Action::ClosePane, &facts());
    assert_eq!(d.palette_click(9, 3), Over::Did(kubide::palette::Want::Nothing));
    assert_eq!(d.palette_click(1, 3), Over::Did(kubide::palette::Want::Nothing));
    assert_eq!(d.palette.as_ref().map(|p| p.selected), Some(1));
    assert_eq!(d.palette_click(1, 3), Over::Took(Target::Answer(DISCARD)));
    assert!(d.palette.is_none());
}
