//! The overlay: its lists, its questions and how they are drawn.
use kubide::action::Action;
use kubide::folders::Match;
use kubide::palette::{consumes, Command, Hit, Mode, Palette, Press, Target, Want, MAX_ROWS};
use kubide::palette_view::{draw_choice, drawn, is_frame};
use kubide::path::Path;

/// Names that hold the letters of the query in order, the tightest first.
fn rank(query: &str, items: &[String]) -> Vec<Match> {
    let mut found: Vec<(usize, Match)> = Vec::new();
    for (index, item) in items.iter().enumerate() {
        let letters: Vec<char> = item.to_lowercase().chars().collect();
        let mut positions = Vec::new();
        let mut from = 0;
        for q in query.to_lowercase().chars() {
            match letters[from..].iter().position(|c| *c == q) {
                Some(at) => {
                    positions.push(from + at);
                    from += at + 1;
                }
                None => break,
            }
        }
        if positions.len() == query.chars().count() {
            let span = match (positions.first(), positions.last()) {
                (Some(a), Some(b)) => b - a,
                _ => 0,
            };
            found.push((span, Match { index, positions }));
        }
    }
    found.sort_by_key(|(span, _)| *span);
    found.truncate(MAX_ROWS);
    found.into_iter().map(|(_, m)| m).collect()
}

/// Where the query occurs in each line, as a character column.
fn occurrences(query: &str, lines: &[String]) -> Vec<Vec<usize>> {
    lines
        .iter()
        .map(|l| l.match_indices(query).map(|(at, _)| l[..at].chars().count()).collect())
        .collect()
}

/// Gives the palette what it wants.
fn serve(p: &mut Palette, want: Want) {
    match want {
        Want::Nothing => {}
        Want::Rank => {
            let found = rank(&p.query, &p.items);
            p.ranked(found);
        }
        Want::Occurrences => {
            let places = occurrences(&p.query, &p.lines);
            p.found(&places);
        }
    }
}

fn typed(p: &mut Palette, query: &str) {
    for c in query.chars() {
        let want = p.push(c);
        serve(p, want);
    }
}

fn erased(p: &mut Palette) {
    let want = p.backspace();
    serve(p, want);
}

/// A palette just opened, its first list drawn up.
fn opened(mut p: Palette) -> Palette {
    let want = p.wants();
    serve(&mut p, want);
    p
}

fn root() -> Path {
    Path::parse("/repo")
}

fn under(name: &str) -> Path {
    root().join(&Path::parse(name))
}

fn files(names: &[&str]) -> Palette {
    opened(Palette::files(names.iter().map(|n| under(n)).collect(), &root()))
}

fn command(title: &str, chord: &str, action: Action) -> Command {
    Command { title: title.into(), chord: chord.into(), action }
}

fn commands() -> Palette {
    opened(Palette::commands(vec![
        command("Split side by side", "", Action::SplitRight),
        command("Open terminal", "Ctrl+T", Action::OpenTerminal),
        command("Save file", "Ctrl+S", Action::Save),
        command("Minimise", "", Action::MinimizeWindow),
    ]))
}

fn lines(of: &[&str]) -> Vec<String> {
    of.iter().map(|s| s.to_string()).collect()
}

#[test]
fn typing_keys_are_left_for_the_character_path() {
    // The bug this pins: claiming these made the window layer swallow the
    // WM_CHAR they generate, so the query stayed empty forever.
    for vk in [b'A', b'Z', b'0', b'9', 0xBF, 0xBE, 0x20] {
        assert!(!consumes(vk), "0x{vk:02X} must reach the character path");
    }
}

#[test]
fn navigation_keys_are_handled_here() {
    for vk in [0x1B, 0x08, 0x26, 0x28, 0x0D] {
        assert!(consumes(vk), "0x{vk:02X}");
    }
    // Tab is not: nothing in the overlay uses it, and a consumed key is
    // a swallowed character.
    assert!(!consumes(0x09));
}

#[test]
fn typing_into_a_prompt_clears_a_stale_note() {
    // A note describes the text it was written about; keeping it while
    // that text changes underneath would have it lie within a keystroke.
    let mut p = Palette::prompt("new file", "");
    p.note = Some("that name is taken".into());
    typed(&mut p, "x");
    assert!(p.note.is_none());
}

#[test]
fn everything_is_listed_before_you_type() {
    // An empty finder is useless; the list is the point of opening it.
    let p = files(&["a.rs", "b.rs"]);
    assert_eq!(p.rows(10).len(), 2);
}

#[test]
fn typing_narrows_and_ranks() {
    let p = {
        let mut p = files(&["src/deep/other.rs", "main.rs"]);
        typed(&mut p, "main");
        p
    };
    assert_eq!(p.rows(10)[0].text, "main.rs");
}

#[test]
fn paths_are_shown_relative_to_the_project() {
    // The absolute prefix is the same on every row and would push the
    // useful part off the edge.
    let p = files(&["src/main.rs"]);
    assert_eq!(p.rows(1)[0].text, "src/main.rs");
}

#[test]
fn no_match_says_so() {
    let mut p = files(&["a.rs"]);
    typed(&mut p, "zzzz");
    assert!(p.rows(10).is_empty());
    assert!(p.note.as_deref().unwrap().contains("zzzz"));
}

#[test]
fn backspace_brings_the_results_back() {
    let mut p = files(&["a.rs"]);
    typed(&mut p, "zz");
    erased(&mut p);
    erased(&mut p);
    assert_eq!(p.rows(10).len(), 1);
}

#[test]
fn the_selection_resets_when_the_query_changes() {
    // Otherwise it points at whatever happens to be in that slot now.
    let mut p = files(&["a.rs", "b.rs", "c.rs"]);
    p.move_selection(2);
    assert_eq!(p.selected, 2);
    typed(&mut p, "a");
    assert_eq!(p.selected, 0);
}

#[test]
fn the_selection_stays_inside_the_list() {
    let mut p = files(&["a.rs", "b.rs"]);
    p.move_selection(-5);
    assert_eq!(p.selected, 0);
    p.move_selection(50);
    assert_eq!(p.selected, 1);
}

#[test]
fn commands_show_their_binding() {
    // Where someone finds out a shortcut exists at all. The chord rides
    // in `detail`, not in the row text: the renderer owns the column.
    let p = commands();
    let save = p
        .rows(200)
        .into_iter()
        .find(|r| r.text.starts_with("Save file"))
        .expect("Save should be listed");
    assert_eq!(save.detail.as_deref(), Some("Ctrl+S"));
}

#[test]
fn an_unbound_command_shows_no_chord() {
    // An empty string drawn right-aligned is invisible, but a Some("")
    // would still make the renderer measure and place it.
    let p = commands();
    assert_eq!(p.rows(200).len(), 4);
    for row in p.rows(200) {
        if let Some(d) = &row.detail {
            assert!(!d.is_empty(), "{}", row.text);
        }
    }
}

#[test]
fn commands_are_searchable_by_name() {
    let mut p = commands();
    typed(&mut p, "termi");
    assert!(p.rows(10)[0].text.starts_with("Open terminal"));
    assert_eq!(p.chosen(), Some(Target::Run(Action::OpenTerminal)));
}

#[test]
fn results_say_which_file_and_line() {
    // A list of matching lines with no file next to them is unreadable.
    let p = opened(Palette::results(
        vec![Hit { path: under("src/main.rs"), line: 41, text: "    let x = 1;".into() }],
        &root(),
    ));
    assert_eq!(p.rows(1)[0].text, "src/main.rs:42  let x = 1;");
}

#[test]
fn empty_results_say_so() {
    let p = opened(Palette::results(Vec::new(), &root()));
    assert_eq!(p.note.as_deref(), Some("no matches"));
}

#[test]
fn a_prompt_returns_what_was_typed() {
    let mut p = Palette::prompt("new file", "");
    typed(&mut p, "notes.md");
    assert!(matches!(p.chosen(), Some(Target::Text(t)) if t == "notes.md"));
}

#[test]
fn an_empty_prompt_is_a_cancelled_prompt() {
    // Not a file named "".
    assert!(Palette::prompt("new file", "").chosen().is_none());
    assert!(Palette::prompt("new file", "   ").chosen().is_none());
}

#[test]
fn a_prompt_can_start_with_the_old_name() {
    // Renaming usually means changing part of a name, not retyping it.
    let p = Palette::prompt("rename", "main.rs");
    assert_eq!(p.query, "main.rs");
}

#[test]
fn go_to_line_counts_from_one() {
    // Humans count from one, buffers from zero. Getting this backwards
    // sends you one line off, every time, quietly.
    let mut p = Palette::line();
    typed(&mut p, "42");
    match p.chosen() {
        Some(Target::Pos(pos)) => assert_eq!(pos.line, 41),
        other => panic!("{other:?} is not a position"),
    }
}

#[test]
fn line_zero_and_junk_do_not_panic() {
    let mut p = Palette::line();
    typed(&mut p, "0");
    assert!(matches!(p.chosen(), Some(Target::Pos(pos)) if pos.line == 0));

    let mut p = Palette::line();
    typed(&mut p, "x");
    assert!(p.chosen().is_none());
}

#[test]
fn find_rows_carry_their_line_number() {
    let mut p = Palette::find(&lines(&["alpha", "beta", "gamma"]));
    typed(&mut p, "beta");
    assert!(p.rows(10)[0].text.starts_with("2: "));
    match p.chosen() {
        Some(Target::Pos(pos)) => assert_eq!(pos.line, 1),
        other => panic!("{other:?} is not a position"),
    }
}

#[test]
fn find_is_literal_not_fuzzy() {
    // The complaint that started this: searching a document for `kubi`
    // returned lines where those letters merely appeared in order.
    let mut p = Palette::find(&lines(&[
        "the issue number, KB number, or doc link",
        "kubide exists to be native",
    ]));
    typed(&mut p, "kubi");
    let rows = p.rows(10);
    assert_eq!(rows.len(), 1, "{:?}", rows.iter().map(|r| &r.text).collect::<Vec<_>>());
    assert!(rows[0].text.contains("kubide exists"));
}

#[test]
fn the_caret_lands_on_the_match_not_the_line_start() {
    // Jumping to column zero of a long line leaves you hunting for the
    // thing you just searched for.
    let mut p = Palette::find(&lines(&["let needle = 1;"]));
    typed(&mut p, "needle");
    match p.chosen() {
        Some(Target::Pos(pos)) => assert_eq!((pos.line, pos.col), (0, 4)),
        other => panic!("{other:?} is not a position"),
    }
}

#[test]
fn a_line_with_several_matches_gets_a_row_each() {
    // This is what "no next/previous within a line" was: three places to
    // go, folded into one row you could not step through.
    let mut p = Palette::find(&lines(&["x = x + x"]));
    typed(&mut p, "x");
    assert_eq!(p.rows(10).len(), 3);

    let columns: Vec<usize> = (0..3)
        .map(|i| {
            p.selected = i;
            match p.chosen() {
                Some(Target::Pos(pos)) => pos.col,
                other => panic!("{other:?}"),
            }
        })
        .collect();
    assert_eq!(columns, vec![0, 4, 8]);
}

#[test]
fn the_highlight_clears_the_line_number() {
    // The row is "12: text", so a match at column 0 is not at position 0.
    let mut p = Palette::find(&lines(&["needle"]));
    typed(&mut p, "needle");
    let row = &p.rows(1)[0];
    let shift = row.text.find("needle").unwrap();
    assert_eq!(row.hits, (shift..shift + 6).collect::<Vec<_>>());
}

#[test]
fn find_lists_the_file_before_you_type() {
    // An empty box reads as a broken widget.
    let p = Palette::find(&lines(&["a", "b", "c"]));
    assert_eq!(p.rows(10).len(), 3);
    assert!(p.note.is_none());
}

#[test]
fn find_says_when_nothing_matches() {
    let mut p = Palette::find(&lines(&["alpha"]));
    typed(&mut p, "zzzz");
    assert!(p.rows(10).is_empty());
    assert!(p.note.as_deref().unwrap().contains("zzzz"));
}

#[test]
fn line_numbers_line_up_in_a_long_file() {
    // Ragged numbers put the text in a different column on every row.
    let many: Vec<String> = (0..120).map(|i| format!("line {i}")).collect();
    let p = Palette::find(&many);
    let rows = p.rows(200);
    assert!(rows[0].text.starts_with("  1: "));
    assert!(rows[99].text.starts_with("100: "));
}

#[test]
fn project_results_still_narrow_by_fuzzy_match() {
    // Results are a list to filter, not a document to search, which is
    // why they are their own mode rather than sharing Find's.
    let hit = |name: &str| Hit { path: under(name), line: 0, text: "x".into() };
    let mut p = opened(Palette::results(vec![hit("src/main.rs"), hit("docs/notes.md")], &root()));
    typed(&mut p, "mn");
    assert!(p.rows(10)[0].text.starts_with("src/main.rs"), "{}", p.rows(10)[0].text);
}

/// Each mode says what typing in it will do.
#[test]
fn every_mode_has_its_label() {
    assert_eq!(Mode::File.prompt(), "open");
    assert_eq!(Mode::Find.prompt(), "find");
    assert_eq!(Mode::Results.prompt(), "results");
    assert_eq!(Mode::Line.prompt(), "line");
    assert_eq!(Mode::Command.prompt(), ">");
    assert_eq!(Mode::Choice.prompt(), "");
    assert_eq!(Mode::Prompt.prompt(), "");
}

/// A list longer than it is allowed to be stops at its ceiling.
#[test]
fn a_long_find_has_a_ceiling() {
    let many: Vec<String> = (0..500).map(|i| format!("line {i}")).collect();
    let p = Palette::find(&many);
    assert_eq!(p.len(), MAX_ROWS);
}

/// Escape drops the overlay, Enter takes what is selected, typing passes.
#[test]
fn the_keys_of_an_open_palette() {
    let mut p = files(&["a.rs", "b.rs"]);
    assert_eq!(p.press(0x28), Press::Did(Want::Nothing));
    assert_eq!(p.selected, 1);
    assert_eq!(p.press(0x26), Press::Did(Want::Nothing));
    assert_eq!(p.selected, 0);
    assert_eq!(p.press(0x0D), Press::Accept);
    assert_eq!(p.press(0x1B), Press::Drop);
    assert_eq!(p.press(b'A'), Press::Pass);
}

/// A click selects the row under it, counted past the scrolled-off part; a
/// second one takes it.
#[test]
fn a_click_counts_from_the_first_row_drawn() {
    let mut p = files(&["a.rs", "b.rs", "c.rs", "d.rs"]);
    p.selected = 3;
    p.ensure_visible(2);
    assert_eq!(p.top, 2);
    assert!(!p.click(0, 2));
    assert_eq!(p.selected, 2);
    assert!(p.click(0, 2));
    assert!(!p.click(5, 2));
    assert_eq!(p.selected, 2);
}

/// The list says what runs past either end of the box.
#[test]
fn a_list_says_what_it_leaves_out() {
    let names: Vec<String> = (0..10).map(|i| format!("f{i}.rs")).collect();
    let names: Vec<&str> = names.iter().map(|n| n.as_str()).collect();
    let mut p = files(&names);
    let d = drawn(&p, 4);
    assert_eq!(d.label, "open");
    assert_eq!(d.rows.len(), 4);
    assert_eq!(d.more.as_deref(), Some("6 more below"));
    assert_eq!(d.body, 5);
    assert!(d.rows[0].selected && !d.rows[1].selected);

    p.selected = 5;
    p.ensure_visible(4);
    let d = drawn(&p, 4);
    assert_eq!(d.more.as_deref(), Some("2 above  \u{b7}  4 below"));
    assert_eq!(d.rows[3].text, "f5.rs");
    assert!(d.rows[3].selected, "the selected match is the one that is marked");
}

/// The matched letters are drawn over themselves; a note is drawn in place of
/// the rows.
#[test]
fn matched_letters_are_lit() {
    let mut p = files(&["main.rs"]);
    typed(&mut p, "mn");
    let d = drawn(&p, 4);
    assert_eq!(d.rows[0].letters, vec![(0, 'm'), (3, 'n')]);
    typed(&mut p, "zz");
    let d = drawn(&p, 4);
    assert!(d.rows.is_empty());
    assert_eq!(d.note.as_deref(), Some("no match for 'mnzz'"));
    assert_eq!(d.body, 1);
}

/// A question is a box with its answers side by side, and the highlight lands
/// on the button.
#[test]
fn a_question_is_a_box() {
    let mut p = Palette::ask("Unsaved", "Save it?", vec!["Save".into(), "Discard".into()]);
    p.selected = 1;
    let d = draw_choice(&p, false);
    assert_eq!(
        d.lines,
        vec![
            "+-------------------------+",
            "|         Unsaved         |",
            "+-------------------------+",
            "|                         |",
            "|        Save it?         |",
            "|                         |",
            "|  [ Save ]  [ Discard ]  |",
            "|                         |",
            "+-------------------------+",
        ]
    );
    let picked = d.picked.unwrap();
    assert_eq!(picked.text, "[ Discard ]");
    let line: Vec<char> = d.lines[6].chars().collect();
    let covered: String = line[picked.start..picked.start + picked.len].iter().collect();
    assert_eq!(covered, "[ Discard ]");
    assert!(is_frame(0) && is_frame(2) && is_frame(8) && !is_frame(4));

    let d = draw_choice(&p, true);
    assert!(d.lines[0].starts_with('\u{2554}') && d.lines[8].ends_with('\u{255d}'));
}
