//! The folder picker and its dialog. Listings are given by hand, folders
//! first, as a directory is read.
use kubide::calendar::{civil_from_days, kb_size, stamp, utc_offset_minutes, Clock};
use kubide::dialog::{Ask, Dialog, Spot};
use kubide::folders::{Listed, Match, Picker};
use kubide::mouse::picker_clickable;
use kubide::path::Path;

/// Names that hold the letters of the search in order.
fn rank(query: &str, names: &[String]) -> Vec<Match> {
    let mut out = Vec::new();
    for (index, name) in names.iter().enumerate() {
        let letters: Vec<char> = name.to_lowercase().chars().collect();
        let mut positions = Vec::new();
        let mut from = 0;
        for q in query.to_lowercase().chars() {
            match letters[from..].iter().position(|c| *c == q) {
                Some(at) => {
                    positions.push(from + at);
                    from += at + 1;
                }
                None => break,
            }
        }
        if positions.len() == query.chars().count() {
            out.push(Match { index, positions });
        }
    }
    out
}

fn folder(name: &str) -> Listed {
    Listed { name: name.into(), is_dir: true, modified: Some(1_785_051_180), size: 0 }
}

fn file(name: &str, size: u64) -> Listed {
    Listed { name: name.into(), is_dir: false, modified: None, size }
}

/// What the folder the picker stands in holds.
fn listing(p: &Picker, base: &Path, extra: usize) -> Vec<Listed> {
    if !p.dir.same(base) {
        return Vec::new();
    }
    let mut out = vec![folder("alpha"), folder("beta")];
    for i in 0..extra {
        out.push(folder(&format!("dir{i:02}")));
    }
    out.push(folder("gamma"));
    out.push(file("notes.txt", 3000));
    out
}

fn load(p: &mut Picker, base: &Path, extra: usize) {
    let listed = listing(p, base, extra);
    p.fill(&listed);
    filter(p);
}

fn filter(p: &mut Picker) {
    let found = rank(&p.filter, &p.names());
    p.refilter(found);
}

fn base(name: &str) -> Path {
    Path::parse("C:\\temp").child(&format!("kubide-picker-{name}"))
}

fn opened(d: &Path) -> Picker {
    let mut p = Picker::new(d, Vec::new(), Vec::new(), Vec::new(), 0);
    load(&mut p, d, 0);
    p
}

#[test]
fn folders_come_first_and_files_are_rows_too() {
    let d = base("rows");
    let p = opened(&d);
    let rows = p.rows(10);
    assert_eq!(rows.len(), 4, "the file is listed, like the real dialog");
    assert!(rows[0].0.is_dir && !rows[3].0.is_dir);
    assert_eq!(rows[3].0.kind, "txt");
    assert_eq!(rows[3].0.size, "3 KB", "2930-odd bytes round up");
    assert_eq!(rows[0].0.size, "", "folders leave the size column blank");
}

#[test]
fn typing_narrows_and_navigation_clears_the_search() {
    let d = base("filter");
    let mut p = opened(&d);
    p.push('a');
    filter(&mut p);
    p.push('l');
    filter(&mut p);
    assert_eq!(p.rows(10)[0].0.name, "alpha");
    // Stepping elsewhere must not carry "al" along: it described names
    // that are no longer on screen.
    p.navigate(d.child("beta"));
    assert!(p.filter.is_empty());
}

#[test]
fn back_and_forward_walk_the_trail_and_a_turn_burns_it() {
    let d = base("history");
    let mut p = opened(&d);
    p.navigate(d.child("alpha"));
    p.back();
    assert_eq!(p.dir, d);
    assert!(p.can_forward());
    p.forward();
    assert_eq!(p.dir, d.child("alpha"));
    p.back();
    // Turning off the trail throws the forward half away, like every
    // browser since the first one.
    p.navigate(d.child("beta"));
    assert!(!p.can_forward());
    assert!(p.can_back());
}

#[test]
fn nothing_is_selected_until_someone_selects() {
    let d = base("selection");
    let mut p = opened(&d);
    assert!(p.selected_entry().is_none(), "the dialog opens neutral");
    p.move_selection(1);
    assert_eq!(p.selected_entry().unwrap().0.name, "alpha", "first press lands on the first row");
}

#[test]
fn a_second_click_on_a_row_reads_as_an_open() {
    let d = base("click");
    let mut p = opened(&d);
    assert!(!p.select_visible(1), "first click only selects");
    assert!(p.select_visible(1), "second click on the same row opens");
    assert!(!p.select_visible(99), "past the list is not a click on it");
}

#[test]
fn selecting_a_folder_is_answering_with_it() {
    let d = base("chosen");
    let mut p = opened(&d);
    assert_eq!(p.chosen(), d, "no selection means the folder being browsed");
    p.move_selection(1);
    assert_eq!(p.chosen(), d.child("alpha"), "one click in is not required");
    // "notes.txt" is not an answer to a folder question.
    p.move_selection(3);
    assert_eq!(p.selected_entry().unwrap().0.name, "notes.txt");
    assert_eq!(p.chosen(), d);
}

#[test]
fn the_wheel_moves_the_view_and_leaves_the_selection() {
    let d = base("wheel");
    let mut p = Picker::new(&d, Vec::new(), Vec::new(), Vec::new(), 0);
    load(&mut p, &d, 20);
    p.move_selection(1);
    p.scroll(-3, 5); // wheel down three
    p.ensure_visible(5);
    assert_eq!(p.top, 3, "the view moved");
    assert_eq!(p.selected, Some(0), "the selection did not");
    // The next keyboard move snaps the view back to the selection.
    p.move_selection(1);
    p.ensure_visible(5);
    assert_eq!(p.top, 1);
    // And the wheel cannot scroll past either end.
    p.scroll(100, 5);
    assert_eq!(p.top, 0);
}

#[test]
fn a_quick_access_folder_is_not_repeated_by_the_recents() {
    let d = base("quick");
    let docs = d.child("alpha");
    let p = Picker::new(&d, vec![docs.dup(), d.child("beta")], vec![docs.dup()], Vec::new(), 0);
    assert_eq!(p.quick, [docs]);
    assert_eq!(p.recents, [d.child("beta")], "the quick group kept it");
}

#[test]
fn up_from_a_drive_root_stays_put() {
    let root = Path::parse("C:\\");
    let mut p = Picker::new(&root, Vec::new(), Vec::new(), Vec::new(), 0);
    p.up();
    assert_eq!(p.dir, root);
}

#[test]
fn crumbs_jump_rather_than_walk() {
    let d = base("crumbs").child("alpha");
    let p = Picker::new(&d, Vec::new(), Vec::new(), Vec::new(), 0);
    let crumbs = p.crumbs();
    assert_eq!(crumbs.last().unwrap().name, "alpha");
    assert_eq!(crumbs[crumbs.len() - 2].dir, d.parent().unwrap());
    assert!(!crumbs[0].name.ends_with('\\'), "the drive labels itself without the slash");
}

#[test]
fn dates_print_like_the_reference_dialog() {
    // 2026-07-26 07:33 UTC, viewed from UTC+3.
    let t = Some(1_785_051_180);
    assert_eq!(stamp(t, 180), "26.07.2026 10:33");
    assert_eq!(stamp(t, 0), "26.07.2026 07:33");
}

#[test]
fn sizes_print_like_the_reference_dialog() {
    assert_eq!(kb_size(1), "1 KB", "Explorer never prints 0 KB");
    assert_eq!(kb_size(30_000), "30 KB");
    assert_eq!(kb_size(2_000_000), "1.954 KB");
}

/// The ends of months and leap years.
#[test]
fn days_are_counted_from_1970() {
    assert_eq!(civil_from_days(0), (1970, 1, 1));
    assert_eq!(civil_from_days(-1), (1969, 12, 31));
    assert_eq!(civil_from_days(11_016), (2000, 2, 29));
    assert_eq!(civil_from_days(11_017), (2000, 3, 1));
}

/// The offset of the local clock, across a month's end in both directions.
#[test]
fn the_clocks_may_straddle_a_month() {
    let clock = |year, month, day, hour, minute| Clock { year, month, day, hour, minute };
    assert_eq!(utc_offset_minutes(clock(2026, 7, 26, 10, 33), clock(2026, 7, 26, 7, 33)), 180);
    assert_eq!(utc_offset_minutes(clock(2026, 8, 1, 1, 0), clock(2026, 7, 31, 22, 0)), 180);
    assert_eq!(utc_offset_minutes(clock(2026, 7, 31, 20, 0), clock(2026, 8, 1, 1, 0)), -300);
}

/// An extension in capitals is listed in small letters, and a file without
/// one is a file.
#[test]
fn a_kind_is_written_small() {
    let d = base("kinds");
    let mut p = Picker::new(&d, Vec::new(), Vec::new(), Vec::new(), 0);
    p.fill(&vec![file("README.MD", 1), file("Makefile", 1), folder("src")]);
    filter(&mut p);
    let kinds: Vec<String> = p.rows(10).into_iter().map(|(r, _)| r.kind).collect();
    assert_eq!(kinds, vec!["md", "file", "folder"]);
}

/// What turns the pointer into a hand is what a click answers to.
#[test]
fn only_what_can_be_pressed_looks_pressable() {
    assert!(picker_clickable(&Spot::Open) && picker_clickable(&Spot::Bar) && picker_clickable(&Spot::Row(0)));
    assert!(!picker_clickable(&Spot::Nowhere) && !picker_clickable(&Spot::Rail));
}

/// An address leads to a folder, or to the folder of a file; one that leads
/// nowhere only closes the bar.
#[test]
fn an_address_leads_somewhere_or_nowhere() {
    let here = Path::parse("C:\\here");
    let new = || Dialog::new(Picker::new(&here, Vec::new(), Vec::new(), Vec::new(), 0));
    let mut d = new();
    d.edit_address();
    assert_eq!(d.arrived(Path::parse("D:\\there"), true, true), Ask::List);
    assert_eq!((d.picker.dir.text().as_str(), &d.address), ("D:\\there", &None));
    d.edit_address();
    assert_eq!(d.arrived(Path::parse("D:\\x\\a.txt"), false, true), Ask::List);
    assert_eq!(d.picker.dir.text(), "D:\\x");
    d.edit_address();
    assert_eq!(d.arrived(Path::parse("D:\\gone\\a"), false, false), Ask::Done);
    assert_eq!((d.picker.dir.text().as_str(), &d.address), ("D:\\x", &None));

    let mut d = new();
    assert_eq!(Dialog::pasted_path(" \"D:\\there\" \n").text(), "D:\\there");
    assert_eq!(d.pasted(Some(" \"D:\\there\" \n".into()), true, true), Ask::List);
    assert_eq!(d.picker.dir.text(), "D:\\there");
    assert_eq!(d.pasted(Some("some words".into()), false, false), Ask::Rank);
    assert_eq!(d.picker.filter, "some words");
    assert_eq!(d.pasted(None, false, false), Ask::Done);
    d.edit_address();
    assert_eq!(d.pasted(Some("E:\\pasted".into()), true, true), Ask::Done);
    assert_eq!(d.picker.dir.text(), "D:\\there");
}
