//! The git panel: its keys, its screens, and how they are drawn.
use kubide::git::{git_lines, remote_said, untracked_diff, Commit, DiffKind, Entry, GitAct, GitLine, GitPanel, GitView, Status};
use kubide::git_view::{drawn, git_color, letter, GitRow, Ink};
use kubide::path::Path;

fn entry(rel: &str, staged: bool, status: Status) -> Entry {
    Entry { path: Path::parse("C:\\repo").child(rel), rel: rel.into(), staged, status }
}

fn changes() -> Vec<Entry> {
    vec![
        entry("a.rs", true, Status::Added),
        entry("b.rs", false, Status::Modified),
        entry("c.rs", false, Status::Untracked),
    ]
}

fn panel() -> GitPanel {
    GitPanel::new(changes())
}

fn commit(hash: &str, subject: &str) -> Commit {
    Commit { hash: hash.into(), subject: subject.into(), author: "Ann".into(), when: "2 days ago".into() }
}

const ESC: u8 = 0x1B;
const DOWN: u8 = 0x28;
const SPACE: u8 = 0x20;
const ENTER: u8 = 0x0D;

fn press(g: &mut GitPanel, vk: u8) -> GitAct {
    g.key(vk, false, false, 10, None).0
}

/// A heading over each half, the staged files first.
#[test]
fn the_changes_come_in_two_halves() {
    assert_eq!(
        git_lines(&changes()),
        vec![
            GitLine::Heading("STAGED \u{b7} 1".into()),
            GitLine::Entry(0),
            GitLine::Heading("CHANGES \u{b7} 2".into()),
            GitLine::Entry(1),
            GitLine::Entry(2),
        ]
    );
    assert!(git_lines(&Vec::new()).is_empty());
}

/// Throwing changes away is asked about first, and only a second press on the
/// same file does it.
#[test]
fn a_discard_takes_two_presses() {
    let mut g = panel();
    press(&mut g, DOWN);
    let (act, asked) = g.key(b'X', false, false, 10, None);
    assert_eq!(act, GitAct::Done);
    assert_eq!(g.status.as_deref(), Some("discard changes to b.rs? this cannot be undone \u{2014} X again"));
    let (act, after) = g.key(b'X', false, false, 10, asked);
    assert_eq!(act, GitAct::Discard(entry("b.rs", false, Status::Modified)));
    assert_eq!(after, None);
}

/// What is staged or unknown to git cannot be thrown away.
#[test]
fn not_everything_can_be_discarded() {
    let mut g = panel();
    let (act, asked) = g.key(b'X', false, false, 10, None);
    assert_eq!((act, asked), (GitAct::Done, None));
    assert_eq!(g.status.as_deref(), Some("staged \u{2014} Space unstages it first, then X discards"));
    g.selected = 2;
    g.key(b'X', false, false, 10, None);
    assert_eq!(g.status.as_deref(), Some("untracked \u{2014} nothing to restore; delete it in the tree"));
}

/// Another key in between forgets the question.
#[test]
fn a_key_in_between_forgets_the_question() {
    let mut g = panel();
    press(&mut g, DOWN);
    let (_, asked) = g.key(b'X', false, false, 10, None);
    assert!(asked.is_some());
    let (act, asked) = g.key(b'R', false, false, 10, asked);
    assert_eq!((act, asked), (GitAct::Refresh, None));
}

/// The panel's keys on its first screen.
#[test]
fn the_keys_of_the_status_screen() {
    let mut g = panel();
    assert_eq!(press(&mut g, SPACE), GitAct::Toggle(entry("a.rs", true, Status::Added)));
    assert_eq!(press(&mut g, ENTER), GitAct::Diff(entry("a.rs", true, Status::Added)));
    assert_eq!(press(&mut g, b'C'), GitAct::CommitMessage);
    assert_eq!(press(&mut g, b'L'), GitAct::Log);
    assert_eq!(press(&mut g, b'P'), GitAct::Remote { pull: false });
    assert_eq!(g.key(b'P', false, true, 10, None).0, GitAct::Remote { pull: true });
    assert_eq!(g.key(b'C', true, false, 10, None).0, GitAct::Pass);
    assert_eq!(press(&mut g, b'Z'), GitAct::Pass);
    assert_eq!(press(&mut g, ESC), GitAct::Close);

    let mut g = GitPanel::new(vec![entry("b.rs", false, Status::Modified)]);
    assert_eq!(press(&mut g, b'C'), GitAct::Done);
    assert_eq!(g.status.as_deref(), Some("nothing staged \u{2014} Space stages the selected file"));
}

/// A diff goes back to where it came from.
#[test]
fn a_diff_goes_back_to_where_it_came_from() {
    let mut g = panel();
    g.diffed("b.rs", false, vec![(DiffKind::Add, "+x".into())]);
    assert_eq!(g.view, GitView::Diff);
    assert_eq!(press(&mut g, ESC), GitAct::Done);
    assert_eq!(g.view, GitView::Status);

    g.logged(vec![commit("abc", "first"), commit("def", "second")]);
    assert_eq!(g.view, GitView::Log);
    press(&mut g, DOWN);
    assert_eq!(press(&mut g, ENTER), GitAct::ShowCommit { hash: "def".into(), subject: "second".into() });
    g.shown("def", "second", vec![(DiffKind::Hunk, "@@".into())]);
    assert_eq!(g.diff_title, "def \u{b7} second");
    press(&mut g, ESC);
    assert_eq!(g.view, GitView::Log);
    press(&mut g, ESC);
    assert_eq!(g.view, GitView::Status);
}

/// What came of an action is said, a failure with its reason.
#[test]
fn what_git_did_is_said() {
    let mut g = panel();
    g.toggled("b.rs", false, None, changes());
    assert_eq!(g.status.as_deref(), Some("staged b.rs"));
    g.toggled("a.rs", true, None, changes());
    assert_eq!(g.status.as_deref(), Some("unstaged a.rs"));
    g.toggled("a.rs", true, Some("locked".into()), changes());
    assert_eq!(g.status.as_deref(), Some("locked"));
    g.diffed("a.rs", true, Vec::new());
    assert_eq!(g.status.as_deref(), Some("no diff to show for a.rs"));
    g.logged(Vec::new());
    assert_eq!(g.status.as_deref(), Some("no commits yet"));
    g.discarded("b.rs", None, Vec::new());
    assert_eq!(g.status.as_deref(), Some("discarded changes to b.rs"));
    g.remote(Ok("push".into()));
    assert_eq!(g.status.as_deref(), Some("pushing\u{2026}"));
    g.remote(Err("already running".into()));
    assert_eq!(g.status.as_deref(), Some("already running"));
    g.committed(Ok("[main 1234] fix".into()));
    assert_eq!(g.status.as_deref(), Some("[main 1234] fix"));
    g.committed(Err("hook".into()));
    assert_eq!(g.status.as_deref(), Some("commit failed: hook"));
    assert_eq!(remote_said("push", Ok("up to date".into())), "push: up to date");
    assert_eq!(remote_said("pull", Err("offline".into())), "pull failed: offline");
}

/// A file git does not know is all change.
#[test]
fn an_untracked_file_is_all_added() {
    assert_eq!(
        untracked_diff(Ok("a\nb\n".into())),
        vec![(DiffKind::Add, "+a".to_string()), (DiffKind::Add, "+b".to_string())]
    );
    assert_eq!(untracked_diff(Err("gone".into())), vec![(DiffKind::Meta, "unreadable: gone".to_string())]);
}

/// The selection stays in the list when the list gets shorter, and the wheel
/// leaves it alone.
#[test]
fn the_selection_survives_a_shorter_list() {
    let mut g = panel();
    g.selected = 2;
    g.set_entries(vec![entry("a.rs", true, Status::Added)]);
    assert_eq!(g.selected, 0);
    let mut g = GitPanel::new((0..40).map(|i| entry(&format!("f{i}"), false, Status::Modified)).collect());
    g.scroll(-5, 10);
    assert_eq!((g.top, g.selected), (5, 0));
}

/// The changes as drawn: letter and name in the tree's colour, the selected
/// name in the text's.
#[test]
fn the_changes_as_drawn() {
    let mut g = panel();
    let d = drawn(&g, Some("main"), 10);
    assert_eq!(d.title, "GIT \u{b7} main");
    assert!(d.hint.starts_with("Space stages"));
    assert_eq!(d.note, None);
    assert_eq!(d.total, 5);
    assert_eq!(d.rows[0], GitRow::Heading("STAGED \u{b7} 1".into()));
    assert_eq!(
        d.rows[1],
        GitRow::File { letter: "A", mark: Ink::Added, name: "a.rs".into(), name_ink: Ink::Text, selected: true }
    );
    assert_eq!(
        d.rows[4],
        GitRow::File {
            letter: "?",
            mark: Ink::Untracked,
            name: "c.rs".into(),
            name_ink: Ink::Untracked,
            selected: false
        }
    );
    g.top = 3;
    assert_eq!(drawn(&g, None, 1).rows.len(), 1);
    assert_eq!(drawn(&g, None, 1).title, "GIT \u{b7} no branch");
    let clean = GitPanel::new(Vec::new());
    assert_eq!(drawn(&clean, None, 5).note, Some("working tree clean \u{b7} L shows the log"));
}

/// A diff and the log as drawn.
#[test]
fn a_diff_and_the_log_as_drawn() {
    let mut g = panel();
    g.diffed("b.rs", true, vec![(DiffKind::Del, "-x".into()), (DiffKind::Context, "  ".into())]);
    let d = drawn(&g, Some("main"), 10);
    assert_eq!(d.title, "GIT \u{b7} main \u{b7} b.rs \u{b7} staged");
    assert_eq!(d.rows, vec![GitRow::Diff { text: "-x".into(), ink: Ink::Deleted }, GitRow::Blank]);

    g.logged(vec![commit("abc", "first"), commit("def", "second")]);
    let d = drawn(&g, Some("main"), 10);
    assert_eq!(d.title, "GIT \u{b7} main \u{b7} log");
    assert_eq!(
        d.rows[0],
        GitRow::Commit {
            hash: "abc".into(),
            subject: "first".into(),
            meta: "2 days ago \u{b7} Ann".into(),
            selected: true
        }
    );
    g.say("said".into());
    assert_eq!(drawn(&g, None, 10).hint, "said");
}

/// The letters and colours of every state.
#[test]
fn every_state_has_a_letter() {
    let all = [
        (Status::Modified, "M", Ink::Modified),
        (Status::Added, "A", Ink::Added),
        (Status::Deleted, "D", Ink::Deleted),
        (Status::Renamed, "R", Ink::Modified),
        (Status::Untracked, "?", Ink::Untracked),
        (Status::Conflicted, "!", Ink::Conflicted),
    ];
    for (s, l, ink) in all {
        assert_eq!((letter(s), git_color(s)), (l, ink));
    }
}

/// The view follows the selection down past the screen.
#[test]
fn the_view_follows_the_selection() {
    let mut g = GitPanel::new((0..40).map(|i| entry(&format!("f{i}"), false, Status::Modified)).collect());
    g.move_selection(20, 10);
    g.ensure_visible(10);
    let d = drawn(&g, None, 10);
    let marked = d.rows.iter().filter(|r| matches!(r, GitRow::File { selected: true, .. })).count();
    assert_eq!(marked, 1);
}

/// A view of a single row shows the selected file, not the line above it.
#[test]
fn one_row_is_enough_for_the_selection() {
    let mut g = GitPanel::new((0..6).map(|i| entry(&format!("f{i}"), false, Status::Modified)).collect());
    for step in [5, -3, -2] {
        g.move_selection(step, 1);
        g.ensure_visible(1);
        let d = drawn(&g, None, 1);
        assert!(matches!(d.rows[..], [GitRow::File { selected: true, .. }]));
    }
}
