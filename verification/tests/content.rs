//! What panes hold: the tree's view, the editor's view, refused files, the
//! settings screen and the welcome screen.
use kubide::content::{open_path, settings_lines, Editor, Explorer, Line, Settings, Viewer, Welcome};
use kubide::lsp::Pos;
use kubide::panes::Content;
use kubide::path::Path;
use kubide::settings_view;
use kubide::settings_view::{Ink, Sheet, SheetRow};
use kubide::tree_view::viewed;
use kubide::welcome_view::{drawn, placeholder, Key};

#[test]
fn scrolling_keeps_the_selection_visible() {
    let rows = 30;
    let mut e = Explorer::new();
    let selected = 25;
    e.ensure_visible(selected, rows, 10);
    assert!(e.top <= selected);
    assert!(selected < e.top + 10);

    e.ensure_visible(0, rows, 10);
    assert_eq!(e.top, 0, "going back to the top must scroll back up");
}

/// Another root is another listing: the view starts over.
#[test]
fn a_new_root_starts_at_the_top() {
    let mut e = Explorer::new();
    e.top = 5;
    e.move_root();
    assert_eq!(e.top, 0, "the old scroll offset means nothing in a new listing");
    // The same row of another listing is another row, and is followed.
    e.ensure_visible(15, 30, 10);
    e.move_root();
    e.ensure_visible(15, 30, 10);
    assert_eq!(e.top, 6);
}

#[test]
fn a_binary_file_is_refused_with_a_reason() {
    let bytes = [0x00, 0x01, 0x02, 0x00];
    let reason = Viewer::reason_to_refuse(4, "0.0", &bytes);
    assert_eq!(reason.as_deref(), Some("binary file"));
    let p = Path::parse("kubide-content-bin");
    assert!(matches!(Content::open_path(p, reason.is_some()), Content::Viewer));
}

#[test]
fn a_text_file_opens_as_an_editor() {
    let reason = Viewer::reason_to_refuse(6, "0.0", b"hello\n");
    assert_eq!(reason, None);
    let p = Path::parse("kubide-content-text.txt");
    assert!(matches!(Content::open_path(p, reason.is_some()), Content::Editor { .. }));
}

#[test]
fn a_missing_file_still_opens_a_pane_that_says_why() {
    // Pressing Enter and having nothing happen reads as a broken editor.
    let p = Path::parse("no-such-file-anywhere.txt");
    match open_path(&p, None, Some("not found".into())) {
        Some(v) => assert!(v.note.is_some()),
        None => panic!("a missing file must not open as an editor"),
    }
}

#[test]
fn the_view_follows_the_cursor_down_and_back_up() {
    let mut e = Editor::new();
    // Two hundred line ends make two hundred and one lines.
    let cursor = Pos { line: 150, col: 0 };
    e.ensure_visible(cursor, 1, 201, 20, 80);
    assert!(e.top <= cursor.line);
    assert!(cursor.line < e.top + 20);

    e.ensure_visible(Pos { line: 0, col: 0 }, 1, 201, 20, 80);
    assert_eq!(e.top, 0);
}

/// Every reason a file is refused for.
#[test]
fn a_file_is_refused_for_its_size_and_its_lines() {
    assert_eq!(
        Viewer::reason_to_refuse(9_000_000, "8.6", b"x").as_deref(),
        Some("too large to open (8.6 MB, limit 8 MB)")
    );
    let many = vec![b'\n'; 50_001];
    assert_eq!(Viewer::reason_to_refuse(50_001, "0.0", &many).as_deref(), Some("more than 50000 lines"));
    assert_eq!(Viewer::reason_to_refuse(50_000, "0.0", &many[..50_000]), None);
    // A zero byte past the head is not looked for.
    let mut late = vec![b'a'; 9000];
    late[8500] = 0;
    assert_eq!(Viewer::reason_to_refuse(9000, "0.0", &late), None);
}

/// The wheel moves the view away from the caret, and the view stays there
/// until the caret moves.
#[test]
fn the_wheel_is_not_undone_by_the_next_frame() {
    let mut e = Editor::new();
    e.ensure_visible(Pos { line: 0, col: 0 }, 1, 201, 20, 80);
    e.scroll(201, -30, 20);
    assert_eq!(e.top, 30);
    e.ensure_visible(Pos { line: 0, col: 0 }, 1, 201, 20, 80);
    assert_eq!(e.top, 30);
    e.ensure_visible(Pos { line: 1, col: 0 }, 1, 201, 20, 80);
    assert_eq!(e.top, 0);
}

/// What came of a save is said, and a failure is said with its reason.
#[test]
fn a_save_is_said() {
    let mut e = Editor::new();
    e.save(None);
    assert_eq!(e.status.as_deref(), Some("saved"));
    e.save(Some("read-only".into()));
    assert_eq!(e.status.as_deref(), Some("save failed: read-only"));
}

/// Colours and marks are worked out once for each state of what they are
/// read from.
#[test]
fn nothing_is_coloured_twice() {
    let mut e = Editor::new();
    assert!(!e.sync_highlights(false, 1));
    assert!(e.sync_highlights(true, 1));
    assert!(!e.sync_highlights(true, 1));
    assert!(e.sync_highlights(true, 2));
    assert!(e.sync_marks(7));
    assert!(!e.sync_marks(7));
    assert!(e.sync_marks(8));
}

/// The longest line is measured in characters, and again only when the text
/// changed.
#[test]
fn the_longest_line_counts_characters() {
    let mut e = Editor::new();
    assert_eq!(e.widest(1, &vec!["ab".into(), "\u{fc}\u{df}x".into()]), 3);
    assert_eq!(e.widest(1, &vec!["longer than before".into()]), 3);
    assert_eq!(e.widest(2, &vec!["longer than before".into()]), 18);
}

/// The settings screen heads each section once and lists the keys that are
/// bound.
#[test]
fn the_settings_screen_is_headed_by_section() {
    let sections: Vec<String> = vec!["FONT".into(), "FONT".into(), "WINDOW".into()];
    let lines = settings_lines(&sections, &vec![true, false]);
    assert_eq!(
        lines,
        vec![
            Line::Heading("FONT".into()),
            Line::Row(0),
            Line::Row(1),
            Line::Heading("WINDOW".into()),
            Line::Row(2),
            Line::Heading("CONTROLS".into()),
            Line::Control(0),
        ]
    );
    let mut s = Settings::new();
    s.move_selection(2, 3);
    assert_eq!(s.drawn_row(&sections), 4);
    // One line is enough to see the selection, up or down.
    s.ensure_visible(&sections, &vec![true, false], 1);
    assert_eq!(s.top, 4);
    s.move_selection(-1, 3);
    s.ensure_visible(&sections, &vec![true, false], 1);
    assert_eq!((s.drawn_row(&sections), s.top), (2, 2));
    s.top = 5;
    s.move_selection(1, 3);
    s.ensure_visible(&sections, &vec![true, false], 2);
    assert_eq!(s.top, 3, "with its heading");
}

fn sheet() -> Sheet {
    Sheet {
        sections: vec!["FONT".into(), "WINDOW".into()],
        labels: vec!["Size".into(), "Blur".into()],
        values: vec!["14".into(), "ON".into()],
        titles: vec!["Save file".into(), "Minimise".into()],
        chords: vec![Some("Ctrl+S".into()), None],
    }
}

/// The selected setting is marked, a switch that is on is lit, and an action
/// without a key is not listed.
#[test]
fn the_settings_screen_as_drawn() {
    let s = Settings::new();
    let d = settings_view::drawn(&s, &sheet(), 10);
    assert_eq!(d.title, "SETTINGS");
    assert!(d.hint.starts_with("Esc closes"));
    assert_eq!(d.rows.len(), 6);
    match &d.rows[1] {
        SheetRow::Setting { label, value, selected, value_ink, .. } => {
            assert_eq!((label.as_str(), value.as_str(), *selected), ("\u{25b8} Size", "14", true));
            assert_eq!(*value_ink, Ink::Text);
        }
        other => panic!("{other:?}"),
    }
    match &d.rows[3] {
        SheetRow::Setting { label, value_ink, selected, .. } => {
            assert_eq!((label.as_str(), *value_ink, *selected), ("  Blur", Ink::Accent, false));
        }
        other => panic!("{other:?}"),
    }
    match &d.rows[5] {
        SheetRow::Control { title, chord } => {
            assert_eq!((title.as_str(), chord.as_str()), ("Save file", "Ctrl+S"));
        }
        other => panic!("{other:?}"),
    }
    assert_eq!(settings_view::drawn(&s, &sheet(), 2).rows.len(), 2);
}

/// The welcome screen offers the folder it was started in, then the others,
/// each once.
#[test]
fn the_welcome_screen_offers_this_folder_first() {
    let here = Path::parse("C:\\work\\thing");
    let other = Path::parse("C:\\work\\other");
    let mut w = Welcome::new(&here, vec![here.dup(), other.dup()]);
    let labels: Vec<&str> = w.rows.iter().map(|(l, _)| l.as_str()).collect();
    assert_eq!(labels, vec!["thing (this folder)", "other"]);
    assert_eq!(w.chosen(), Some(here));
    w.move_selection(9);
    assert_eq!(w.chosen(), Some(other));
}

fn key(chord: Option<&str>, label: &'static str) -> Key {
    Key { chord: chord.map(|c| c.to_string()), label }
}

/// Only bound keys are hinted at, their chords in one column.
#[test]
fn the_welcome_screen_as_drawn() {
    let here = Path::parse("C:\\work\\thing");
    let w = Welcome::new(&here, Vec::new());
    let keys = vec![key(Some("Ctrl+P"), "Commands"), key(None, "Nothing"), key(Some("F1"), "Help")];
    let d = drawn(&w, &keys, true, true);
    assert_eq!(d.wordmark, "k u b I D E");
    assert_eq!(d.hints, vec![("Ctrl+P".to_string(), "Commands"), ("    F1".to_string(), "Help")]);
    assert_eq!(d.heading, Some("OPEN \u{b7} Enter"));
    assert_eq!(d.rows, vec![("\u{25b8} thing (this folder)".to_string(), true)]);
    assert_eq!((d.mark.len(), d.cols), (6, 8));
    assert_eq!(d.mark[0].body.as_deref(), Some("\u{2588}\u{2588}   \u{2588}\u{2588} "));
    assert_eq!(d.mark[0].shadow.as_deref(), Some("  \u{2557}    \u{2557}"));
    assert_eq!(d.mark[5].body, None);
    assert_eq!(d.width, 24);
    assert_eq!(d.height, 6 + 4 + 2 + 3);

    let d = drawn(&w, &keys, false, true);
    assert_eq!((d.mark.len(), d.cols), (5, 6));
    assert_eq!(d.mark[1].body.as_deref(), Some("## ## "));
    assert_eq!(d.mark[1].shadow, None);
}

/// An empty pane says what to press, with a gap between the two groups.
#[test]
fn an_empty_pane_says_what_to_press() {
    let (title, lines) = placeholder(3, &vec![key(Some("Ctrl+P"), "Commands")], &vec![key(Some("Ctrl+W"), "Close pane")]);
    assert_eq!(title, "pane 3");
    assert_eq!(lines, vec!["Ctrl+P         Commands", "", "Ctrl+W         Close pane"]);
}

/// The viewer numbers its lines and leaves blank ones undrawn.
#[test]
fn the_viewer_numbers_its_lines() {
    let mut v = Viewer::refused(&Path::parse("C:\\a\\log.bin"), "binary file".into());
    v.lines = (0..12).map(|i| if i == 9 { "  ".to_string() } else { format!("l{i}") }).collect();
    v.top = 8;
    let d = viewed(&v, 3);
    assert_eq!(d.header, "log.bin   \u{b7}   12 lines");
    assert_eq!(d.note.as_deref(), Some("binary file"));
    assert_eq!(d.gutter, 3);
    let shown: Vec<(&str, Option<&str>)> = d.lines.iter().map(|l| (l.number.as_str(), l.text.as_deref())).collect();
    assert_eq!(shown, vec![(" 9", Some("l8")), ("10", None), ("11", Some("l10"))]);
}

/// A jump lands with context above it, and a huge file is never read.
#[test]
fn a_jump_has_context_above_it() {
    let mut e = Editor::new();
    e.center_on(20);
    assert_eq!(e.top, 16);
    e.center_on(2);
    assert_eq!(e.top, 0);
    assert!(Viewer::worth_reading(8_388_608));
    assert!(!Viewer::worth_reading(8_388_609));
}
