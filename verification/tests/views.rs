//! What the rest of the window shows: the terminal, the tree, the help, the
//! bars, the editor, the dialog, and the small programs.
use kubide::action::Action;
use kubide::dialog::{Ask, Dialog, Spot};
use kubide::dialog_view::{crumb_separator, crumbs_from, search_box, shown_address};
use kubide::editor_view;
use kubide::editor_view::{brackets, caret, gutter, header, is_failure, runs, selection_on, LineChange, Run, Shown, Span};
use kubide::folders::Picker;
use kubide::git::Status;
use kubide::git_view::Ink;
use kubide::help::{cheat_action, cheat_label, chip, sheet, CHEATS};
use kubide::lsp::Pos;
use kubide::path::Path;
use kubide::start::{beside, comment_marker, config_written, files_to_find, plan, reloads, First, Glyphs, Has, Icons, Lang,
    Named, Refresh, Workspace};
use kubide::status::{bar, button_look, clock, status_line, Button, Caret, Ground, Icon, On, Readout, Tone};
use kubide::terminal_view;
use kubide::terminal_view::{badge, cell_bg, cursor_shows, exit_line, grounds, Cell, Ground as CellGround};
use kubide::tree_view;
use kubide::tree_view::TreeRow;
use kubide::window::{build_lines, client_top, code_lines, hit_test, paint_plan, pick_font, point_of, scaled, size_of,
    transparency_notice, Backdrop, FrameDo, Grip, Look, Painted, Rect, Sample, SampleDo, Tint, TintDo};

fn cell(ch: char, fg: u32, bg: u32) -> Cell {
    Cell { ch, fg, bg, inverse: false, selected: false }
}

/// Backgrounds and text come in runs of one colour; the plain background and
/// blank text are not drawn.
#[test]
fn a_terminal_row_is_drawn_in_runs() {
    let row = vec![
        cell('a', 1, 0),
        cell('b', 1, 0),
        cell('\0', 1, 9),
        Cell { inverse: true, ..cell('c', 1, 2) },
        Cell { selected: true, ..cell(' ', 3, 0) },
    ];
    assert_eq!(
        grounds(&row, 7, 0),
        vec![
            CellGround { col: 2, len: 1, color: 9 },
            CellGround { col: 3, len: 1, color: 1 },
            CellGround { col: 4, len: 1, color: 7 },
        ]
    );
    let text: Vec<(usize, String, u32)> =
        terminal_view::runs(&row).into_iter().map(|r| (r.col, r.text, r.color)).collect();
    assert_eq!(text, vec![(0, "ab ".to_string(), 1), (3, "c".to_string(), 2)]);
    assert_eq!(cell_bg(row[4], 7), 7);
    assert!(cursor_shows(true, true, 0, 1) && !cursor_shows(true, true, 1, 1) && !cursor_shows(false, true, 0, 1));
    assert_eq!(badge(true, true), Some("\u{21e1} history"));
    assert_eq!(badge(true, false), Some("history"));
    assert_eq!(badge(false, true), None);
    assert_eq!(exit_line(-1), "[shell exited \u{2014} code -1]");
}

fn tree_row(name: &str, is_dir: bool, status: Option<Status>) -> TreeRow {
    TreeRow { name: name.into(), glyph: "-".into(), is_dir, depth: 1, status }
}

/// A change decides a row's colour, then whether it is a folder.
#[test]
fn a_change_stands_out_in_the_tree() {
    let rows = vec![
        tree_row("src", true, None),
        tree_row("lib", true, Some(Status::Conflicted)),
        tree_row("a.rs", false, None),
        tree_row("b.rs", false, Some(Status::Renamed)),
    ];
    let root = Path::parse("C:\\work\\thing");
    let d = tree_view::drawn(&root, "v", None, &rows, 2, 1, 9);
    assert_eq!(d.header, "v  thing");
    let shown: Vec<(&str, Ink, bool)> = d.rows.iter().map(|r| (r.text.as_str(), r.ink, r.selected)).collect();
    assert_eq!(
        shown,
        vec![("-  lib", Ink::Conflicted, false), ("-  a.rs", Ink::Text, true), ("-  b.rs", Ink::Modified, false)]
    );
    let d = tree_view::drawn(&root, "v", Some("access denied".into()), &rows, 0, 0, 9);
    assert_eq!((d.problem.as_deref(), d.rows.len()), (Some("access denied"), 0));
}

fn chords(bound: &[(Action, &str)]) -> Vec<Option<String>> {
    (0..CHEATS)
        .map(|i| bound.iter().find(|(a, _)| *a == cheat_action(i)).map(|(_, c)| c.to_string()))
        .collect()
}

/// The list of shortcuts: bound ones only, families by their pattern, and a
/// cut that says so.
#[test]
fn the_shortcuts_that_are_bound() {
    let keys = chords(&[(Action::Commands, "Ctrl+P"), (Action::MoveLineUp, "F9"), (Action::Quit, "Alt+F4")]);
    let h = sheet(&keys, Some("F1"), 10).unwrap();
    assert_eq!(h.title, "SHORTCUTS \u{b7} F1 hides this");
    assert_eq!(
        h.lines,
        vec![
            ("Ctrl+P".to_string(), "All commands"),
            ("Ctrl+Shift+\u{2191}\u{2193}".to_string(), "Move line"),
            ("Alt+F4".to_string(), "Quit"),
        ]
    );
    assert_eq!(h.width, 13 + 9 + 3);
    let h = sheet(&keys, None, 2).unwrap();
    assert_eq!(h.title, "SHORTCUTS");
    assert_eq!(h.lines.len(), 2);
    assert_eq!(h.lines[1], (String::new(), "\u{2026}and more, in the settings screen"));
    assert!(sheet(&chords(&[]), None, 10).is_none());
    assert_eq!(chip(true, Some("Ctrl+P")), Some("Ctrl+P commands".into()));
    assert_eq!(chip(false, Some("Ctrl+P")), None);
    assert_eq!(chip(true, None), None);
    assert_eq!((CHEATS, cheat_label(CHEATS - 1)), (29, "Quit"));
}

/// The clock in both notations.
#[test]
fn the_clock_reads_right() {
    assert_eq!(clock(7, 5, true), "07:05");
    assert_eq!(clock(0, 5, false), "12:05 am");
    assert_eq!(clock(12, 0, false), "12:00 pm");
    assert_eq!(clock(11, 59, false), "11:59 am");
    assert_eq!(clock(23, 59, false), "11:59 pm");
}

fn readout() -> Readout {
    Readout {
        caret: Some(Caret { line: 4, col: 9, selected: Some(3) }),
        family: "Consolas".into(),
        font_size: "14".into(),
        frame_ms: "1.25".into(),
        panes: 2,
        branch: Some(("main".into(), 3)),
        timer: "work 24:13".into(),
        hour: 7,
        minute: 5,
    }
}

const ALL: On =
    On { cursor: true, font: true, panes: true, frame_time: true, git: true, pomodoro: true, clock: true, clock_24h: true };

/// The bar with everything on, and with one segment on.
#[test]
fn the_bar_reads_out_what_is_on() {
    assert_eq!(
        status_line(ALL, &readout(), true, true),
        "Ln 5, Col 10  (3 selected)   \u{b7}   Consolas 14px   \u{b7}   2 panes   \u{b7}   1.25 ms   \u{b7}   \u{e0a0} main ~3   \u{b7}   \u{f017} work 24:13   \u{b7}   07:05"
    );
    let git = On {
        cursor: false,
        font: false,
        panes: false,
        frame_time: false,
        pomodoro: false,
        clock: false,
        ..ALL
    };
    assert_eq!(status_line(git, &readout(), false, false), "main ~3");
    let clean = Readout { branch: Some(("main".into(), 0)), ..readout() };
    assert_eq!(status_line(git, &clean, false, false), "main");
    assert_eq!(status_line(On { git: false, ..git }, &clean, false, false), "");
    assert_eq!(bar(Some("n"), Some("p"), "idle".into()), ("n".to_string(), Tone::Warning));
    assert_eq!(bar(None, Some("p"), "idle".into()), ("config: p".to_string(), Tone::Error));
    assert_eq!(bar(None, None, "idle".into()), ("idle".to_string(), Tone::Idle));
}

/// The buttons of the title bar light up, the close button in its own colour.
#[test]
fn the_close_button_warns() {
    let b = button_look(Button::Close, true, false, false);
    assert_eq!((b.ground, b.icon, b.lit), (Ground::Danger, Icon::Cross, true));
    assert_eq!(button_look(Button::Close, false, true, false).ground, Ground::DangerPress);
    assert_eq!(button_look(Button::Minimize, true, true, false).ground, Ground::Press);
    let b = button_look(Button::Maximize, false, false, true);
    assert_eq!((b.ground, b.icon, b.lit), (Ground::Bare, Icon::Restore, false));
}

/// The pieces of a line, coloured where a span says so, scrolled sideways.
#[test]
fn a_line_is_drawn_in_pieces() {
    let spans = vec![Span { start: 0, end: 3, kind: editor_view::Kind::Keyword }];
    let whole = runs("let x", &spans, 0);
    assert_eq!(
        whole,
        vec![
            Run { col: 0, text: "let".into(), kind: Some(editor_view::Kind::Keyword) },
            Run { col: 3, text: " x".into(), kind: None },
        ]
    );
    assert_eq!(runs("let x", &spans, 2)[0], Run { col: 0, text: "t".into(), kind: Some(editor_view::Kind::Keyword) });
}

/// Selection, caret and brackets land on their cells.
#[test]
fn marks_land_on_their_cells() {
    let (a, b) = (Pos { line: 1, col: 2 }, Pos { line: 3, col: 1 });
    assert_eq!(selection_on(a, b, 0, 5, 0), None);
    assert_eq!(selection_on(a, b, 1, 5, 0), Some((2, 6)));
    assert_eq!(selection_on(a, b, 3, 5, 0), Some((0, 1)));
    assert_eq!(caret(true, a, 0, 10, 0), Some((1, 2)));
    assert_eq!(caret(false, a, 0, 10, 0), None);
    assert_eq!(caret(true, a, 0, 10, 5), None);
    assert_eq!(brackets(true, Some((a, b)), 2, 10, 0), vec![(1, 1)]);
    assert_eq!(gutter(95, 5), 3);
    assert_eq!(header(&Some(Path::parse("C:\\a\\x.rs")), true, 7), "x.rs \u{25cf}   \u{b7}   7 lines");
    assert_eq!(header(&None, false, 1), "untitled   \u{b7}   1 lines");
    assert!(is_failure("save failed: read-only") && !is_failure("saved"));
}

/// The rows of an editor: numbers, marks and text.
#[test]
fn the_rows_of_an_editor() {
    let s = Shown {
        lines: vec!["a".into(), "b".into(), "c".into()],
        spans: Vec::new(),
        top: 1,
        left: 0,
        visible: 5,
        modified: false,
        selection: None,
        marks: vec![(2, LineChange::Added)],
    };
    let rows = editor_view::rows(&s);
    assert_eq!(rows.len(), 2);
    assert_eq!((rows[0].number.as_str(), rows[0].marks.len()), ("2", 0));
    assert_eq!((rows[1].number.as_str(), rows[1].marks.clone()), ("3", vec![LineChange::Added]));
    assert_eq!(rows[1].runs[0].text, "c");
}

/// The dialog's bars are cut from the left, where they matter least.
#[test]
fn the_address_is_cut_from_the_left() {
    assert_eq!(crumbs_from(&vec![10, 10, 10], 2, 100), 0);
    assert_eq!(crumbs_from(&vec![10, 10, 10], 2, 22), 1);
    assert_eq!(crumbs_from(&vec![10, 10, 10], 2, 1), 2);
    assert_eq!(shown_address("abcd", &vec![4, 3, 2, 1], 2), "cd");
    assert_eq!(search_box("", "thing"), ("search thing".to_string(), false));
    assert_eq!(search_box("x", "thing"), ("x".to_string(), true));
    assert_eq!((crumb_separator(true), crumb_separator(false)), (" > ", " \u{203a} "));
}

/// Typing an address, and a mistyped one given up, leave the folder alone.
#[test]
fn an_address_can_be_given_up() {
    let dir = Path::parse("C:\\work\\thing");
    let mut d = Dialog::new(Picker::new(&dir, Vec::new(), Vec::new(), Vec::new(), 0));
    d.click(Spot::Bar);
    assert!(d.address.is_some());
    d.typed('x');
    assert_eq!(d.key(0x1B, false, false), Ask::Done);
    assert_eq!(d.address, None);
    assert_eq!(d.picker.dir, dir);
    assert_eq!(d.click(Spot::Cancel), Ask::Close);
    assert_eq!(d.click(Spot::Open), Ask::Choose(dir.dup()));
    assert_eq!(d.click(Spot::Up), Ask::List);
    assert_eq!(d.picker.dir, Path::parse("C:\\work"));
    assert_eq!(d.click(Spot::Back), Ask::List);
    assert_eq!(d.picker.dir, dir);
}

fn named(word: &str, exists: bool, is_dir: bool) -> Option<Named> {
    Some(Named { word: word.into(), exists, path: Path::parse("C:\\p\\src\\a.rs"), is_dir, marked: None })
}

/// What a start is about, by what was named.
#[test]
fn a_start_is_about_what_was_named() {
    let cwd = || Path::parse("C:\\here");
    let w = Workspace::from_args(cwd(), None, None);
    assert_eq!((w.dir.text().as_str(), w.explicit, w.init), ("C:\\here", false, false));
    let o = w.opening(false, false);
    assert_eq!((o.first, o.file, o.remember), (First::Welcome, false, false));
    assert_eq!(w.opening(false, true).first, First::Tree);
    assert_eq!(w.opening(true, false).first, First::AsLeft);

    let w = Workspace::from_args(cwd(), Some(Path::parse("C:\\")), None);
    assert_eq!((w.dir.text().as_str(), w.explicit), ("C:\\", true));
    let w = Workspace::from_args(cwd(), None, named("workspace", false, false));
    assert_eq!((w.dir.text().as_str(), w.init), ("C:\\here", true));
    let w = Workspace::from_args(cwd(), None, named("workspace", true, true));
    assert!(!w.init && w.wants_restoring());
    let w = Workspace::from_args(cwd(), None, named("a.rs", true, false));
    assert_eq!(w.dir.text(), "C:\\p\\src");
    assert!(!w.wants_restoring());
    let o = w.opening(false, false);
    assert_eq!((o.first, o.file, o.remember), (First::Tree, true, true));
    assert_eq!(beside(&Path::parse("C:\\"), &cwd()), cwd());
}

/// What a font can draw decides the marks, and a poor one is mentioned once.
#[test]
fn the_font_decides_the_marks() {
    let has = Has { folder: true, closed: true, open: true, branch: true, arrow: true, corner: true, block: false };
    assert_eq!(Glyphs::detect(has).icons, Icons::Nerd);
    assert_eq!(Glyphs::detect(has).hint(false), None);
    let shapes = Glyphs::detect(Has { folder: false, ..has });
    assert_eq!((shapes.icons, shapes.boxes, shapes.blocks), (Icons::Shapes, true, false));
    assert!(shapes.hint(false).unwrap().starts_with("no Nerd Font found"));
    assert_eq!(shapes.hint(true), None);
    assert_eq!(Glyphs::detect(Has { folder: false, open: false, ..has }).icons, Icons::Ascii);
    assert_eq!(Glyphs::asked()[0], '\u{f07b}');
}

/// A changed configuration disturbs only what it changes.
#[test]
fn a_new_colour_disturbs_nothing() {
    let none = Refresh { vim: false, font: false, paint: false, window: false, layout: false };
    let p = plan(Refresh { paint: true, ..none }, true);
    assert!(p.colors && !p.fonts && !p.relayout && !p.backdrop);
    let p = plan(Refresh { font: true, window: true, ..none }, false);
    assert!(p.fonts && p.relayout && !p.backdrop);
    let at = Path::parse("C:\\cfg\\config.toml");
    assert_eq!(config_written(&at, Ok(())), ("written to C:\\cfg\\config.toml".to_string(), None));
    assert_eq!(
        config_written(&at, Err("full".into())),
        ("could not write: full".to_string(), Some("config: full".to_string()))
    );
    assert_eq!(comment_marker(Some(Lang::Yaml)), "#");
    assert_eq!((comment_marker(Some(Lang::Other)), comment_marker(None)), ("//", "//"));
    assert_eq!(reloads(false, true), Some("reloaded \u{b7} changed by the agent"));
    assert_eq!((reloads(true, true), reloads(false, false)), (None, None));
    let root = Path::parse("C:\\w");
    assert!(files_to_find(Some(Vec::new()), None, &root).is_none());
    let found = files_to_find(Some(vec![root.child("a")]), Some(Path::parse("C:\\")), &root).unwrap();
    assert_eq!(found.1, Path::parse("C:\\"));
}

const RC: Rect = Rect { left: -100, top: 50, right: 300, bottom: 250 };

/// The parts of a frame without a title bar.
#[test]
fn a_frame_is_taken_hold_of_by_its_edges() {
    assert_eq!(hit_test(-99, 51, RC, 8, 40, false), Grip::TopLeft);
    assert_eq!(hit_test(299, 51, RC, 8, 40, false), Grip::TopRight);
    assert_eq!(hit_test(-99, 249, RC, 8, 40, false), Grip::BottomLeft);
    assert_eq!(hit_test(299, 249, RC, 8, 40, false), Grip::BottomRight);
    assert_eq!(hit_test(100, 51, RC, 8, 40, false), Grip::Top);
    assert_eq!(hit_test(100, 249, RC, 8, 40, false), Grip::Bottom);
    assert_eq!(hit_test(-99, 150, RC, 8, 40, false), Grip::Left);
    assert_eq!(hit_test(299, 150, RC, 8, 40, false), Grip::Right);
    assert_eq!(hit_test(100, 70, RC, 8, 40, false), Grip::Caption);
    assert_eq!(hit_test(100, 150, RC, 8, 40, false), Grip::Client);
    assert_eq!(hit_test(-99, 51, RC, 8, 40, true), Grip::Caption);
    assert_eq!(point_of(0xFFFF_0005), (5, -1));
    assert_eq!(size_of(0x0000_0280), (640, 1));
    assert_eq!((scaled(144, 40), scaled(0, 40)), (60, 40));
    assert_eq!((client_top(-8, true, 8), client_top(3, false, 8)), (0, 3));
    assert_eq!(
        paint_plan(Rect { left: 0, top: 0, right: 1000, bottom: 700 }, 96),
        Painted {
            hairline: Rect { left: 260, top: 0, right: 261, bottom: 700 },
            pane: Rect { left: 272, top: 40, right: 988, bottom: 688 },
            corner: 20,
        }
    );
}

/// The keys of the small programs.
#[test]
fn the_keys_of_the_small_programs() {
    let mut l = Look::new();
    assert_eq!(l.key(b'2'), FrameDo::Apply);
    assert_eq!(l.state(), "  backdrop = Mica \u{2014} samples the wallpaper, cheap   dark = true");
    assert_eq!(l.key(b'D'), FrameDo::Apply);
    assert!(!l.dark);
    assert_eq!((l.key(b'Q'), l.key(b'Z')), (FrameDo::Quit, FrameDo::Nothing));

    let mut s = Sample::new();
    assert_eq!(s.key(0xBB), SampleDo::Rebuild);
    assert_eq!(s.size, 15);
    s.size = 48;
    s.key(0xBB);
    assert_eq!(s.size, 48);
    s.wheel(false, 5000);
    assert_eq!(s.top, 3);
    s.wheel(true, 5000);
    assert_eq!(s.top, 0);
    assert_eq!(s.shown(10, 5), (0, 5));
    assert_eq!(s.labels().len(), 2);
    assert_eq!(
        s.title("Consolas", "1.00"),
        "kubide spike 2 \u{2014} Consolas 48px \u{b7} ligatures ON \u{b7} background DARK \u{b7} draw 1.00 ms"
    );

    let mut t = Tint::new();
    assert_eq!(t.key(0xDD), TintDo::Redraw);
    assert_eq!(t.hundredths, 60);
    assert_eq!(t.key(b'4'), TintDo::Apply);
    assert_eq!(t.backdrop, Backdrop::MicaAlt);
    assert_eq!(
        t.title("2.50"),
        "kubide spike 3 \u{2014} MicaAlt \u{b7} tint 0.60 \u{b7} frame 2.50 ms   ([ ] tint \u{b7} 1-4 backdrop)"
    );
}

/// The sample text is numbered and repeats.
#[test]
fn the_sample_repeats() {
    let lines = build_lines();
    assert_eq!(lines.len(), 5000);
    assert_eq!(lines[0], "    1 \u{2502} // ligature test: these should join into single glyphs");
    assert_eq!(lines[35], "   36 \u{2502} // ligature test: these should join into single glyphs");
    assert_eq!(lines[8], "    9 \u{2502} ");
    assert_eq!(lines[4999].chars().take(5).collect::<String>(), " 5000");
    assert_eq!(code_lines()[0], "impl Renderer for GpuBackend {");
    assert_eq!(pick_font(&vec!["A", "B"], &vec![false, true]), "B");
    assert_eq!(pick_font(&vec!["A"], &vec![false]), "Consolas");
    assert_eq!(transparency_notice(Some(true)), vec!["  transparency effects: on"]);
    assert_eq!(transparency_notice(Some(false)).len(), 6);
}

#[test]
fn the_gutter_widens_with_the_line_numbers() {
    // Otherwise scrolling from line 99 to 100 would shift the text sideways
    // by a column mid-scroll.
    assert!(gutter(1000, 27) > gutter(0, 27));
}
