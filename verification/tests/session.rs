//! What is remembered between runs: the session, the workspaces, the window.
use kubide::path::Path;
use kubide::places::{bumped, hash, note_window_place, path_for, recent_workspaces, recents_lines, recents_text, wants_ignore,
    window_place,
    Placement};
use kubide::session::{Axis, Desc, Pane, PaneId, Session};

fn ratios(of: &[&str]) -> Vec<String> {
    of.iter().map(|r| r.to_string()).collect()
}

fn sample() -> Session {
    Session {
        layout: Desc::Split {
            axis: Axis::Horizontal,
            ratios: ratios(&["0.25", "0.75"]),
            children: vec![
                Desc::Leaf(PaneId(0)),
                Desc::Split {
                    axis: Axis::Vertical,
                    ratios: ratios(&["0.5", "0.5"]),
                    children: vec![Desc::Leaf(PaneId(1)), Desc::Leaf(PaneId(2))],
                },
            ],
        },
        panes: vec![
            (PaneId(0), Pane::Explorer),
            (PaneId(1), Pane::File(inside("src/main.rs"), 42, 7)),
            (PaneId(2), Pane::Terminal),
        ],
        focus: PaneId(1),
    }
}

/// The root a plain round-trip is written against.
fn root() -> Path {
    Path::parse("C:/repo")
}

fn inside(name: &str) -> Path {
    root().join(&Path::parse(name))
}

#[test]
fn a_session_survives_a_round_trip() {
    let s = sample();
    assert_eq!(Session::decode(&s.encode(&root()), &root()).unwrap(), s);
}

#[test]
fn paths_with_spaces_survive() {
    // The path is last on its line precisely so it can contain spaces.
    let s = Session {
        layout: Desc::Leaf(PaneId(0)),
        panes: vec![(PaneId(0), Pane::File(inside("my notes/two words.md"), 1, 2))],
        focus: PaneId(0),
    };
    assert_eq!(Session::decode(&s.encode(&root()), &root()).unwrap(), s);
}

#[test]
fn a_moved_workspace_keeps_its_files() {
    // The whole reason a marked workspace stores its own session: the
    // folder is renamed, the layout comes with it.
    let s = Session {
        layout: Desc::Leaf(PaneId(0)),
        panes: vec![(PaneId(0), Pane::File(inside("src/main.rs"), 3, 0))],
        focus: PaneId(0),
    };
    let moved = Path::parse("D:/elsewhere/repo");
    let back = Session::decode(&s.encode(&root()), &moved).unwrap();
    assert_eq!(back.panes[0].1, Pane::File(moved.join(&Path::parse("src/main.rs")), 3, 0));
}

#[test]
fn a_file_from_outside_the_workspace_keeps_its_own_path() {
    // A root that is not the workspace's.
    for outside in ["D:/notes/todo.md", "/notes/todo.md"] {
        let s = Session {
            layout: Desc::Leaf(PaneId(0)),
            panes: vec![(PaneId(0), Pane::File(Path::parse(outside), 0, 0))],
            focus: PaneId(0),
        };
        let back = Session::decode(&s.encode(&root()), &root()).unwrap();
        assert_eq!(back.panes[0].1, Pane::File(Path::parse(outside), 0, 0));
    }
}

#[test]
fn a_different_version_is_ignored_rather_than_misread() {
    assert!(Session::decode("kubide-session 99\nfocus 0\n", &root()).is_none());
    assert!(Session::decode("garbage", &root()).is_none());
}

#[test]
fn unknown_lines_do_not_cost_the_layout() {
    // A newer kubide writing extra keys must not break an older one.
    let text = "kubide-session 1\nfocus 0\nlayout L0 \nsomething new\n";
    assert!(Session::decode(text, &root()).is_some());
}

#[test]
fn truncated_input_returns_nothing_rather_than_panicking() {
    for text in [
        "kubide-session 1\n",
        "kubide-session 1\nlayout H2 0.5 0.5 L0 \n",
        "kubide-session 1\nlayout H\n",
        "kubide-session 1\nlayout \n",
    ] {
        let _ = Session::decode(text, &root());
    }
}

#[test]
fn an_absurd_child_count_is_refused() {
    // It comes from a file and decides how deep we recurse.
    assert!(Session::decode("kubide-session 1\nlayout H999999 L0 \n", &root()).is_none());
}

#[test]
fn furniture_only_sessions_are_not_worth_restoring() {
    // The shape every pre-welcome kubide saved for any folder it was
    // started in: an explorer and an empty pane. Bringing it back would
    // defeat the welcome screen with a listing of wherever the exe woke
    // up last time.
    let mut s = sample();
    s.panes = vec![(PaneId(0), Pane::Explorer), (PaneId(1), Pane::Empty)];
    assert!(!s.worth_restoring());

    assert!(sample().worth_restoring(), "a file or terminal is a sign of life");

    let mut s = sample();
    s.panes = vec![(PaneId(0), Pane::Explorer), (PaneId(1), Pane::Terminal)];
    assert!(s.worth_restoring(), "a terminal pane counts as work");
}

#[test]
fn a_reopened_workspace_moves_to_the_top_once() {
    let old = vec![Path::parse("C:/a"), Path::parse("C:/b"), Path::parse("C:/c")];
    let list = bumped(&Path::parse("C:/b"), old);
    assert_eq!(list, [Path::parse("C:/b"), Path::parse("C:/a"), Path::parse("C:/c")]);
}

#[test]
fn the_recents_list_has_a_ceiling() {
    let old: Vec<Path> = (0..20).map(|i| Path::parse(&format!("C:/p{i}"))).collect();
    assert_eq!(bumped(&Path::parse("C:/new"), old).len(), 8);
}

#[test]
fn the_same_directory_always_gets_the_same_file() {
    let data = Path::parse("C:/data/kubide");
    let a = path_for(&Path::parse("C:/projects/thing"), false, &data);
    let b = path_for(&Path::parse("C:/projects/thing"), false, &data);
    let c = path_for(&Path::parse("C:/projects/other"), false, &data);
    assert_eq!(a, b);
    assert_ne!(a, c);
}

/// The session as it is written.
#[test]
fn a_session_is_written_as_lines() {
    assert_eq!(
        sample().encode(&root()),
        "kubide-session 1\nfocus 1\nlayout H2 0.25 0.75 L0 V2 0.5 0.5 L1 L2 \npane 0 explorer\npane 1 file 42 7 src\\main.rs\npane 2 terminal\n"
    );
}

/// A marked folder keeps its own session; any other is found by the hash of
/// its path, in which capitals do not count.
#[test]
fn a_marked_folder_keeps_its_own_session() {
    let data = Path::parse("C:/data");
    let root = Path::parse("C:/projects/thing");
    assert_eq!(path_for(&root, true, &data).text(), "C:\\projects\\thing\\.kubide\\session");
    assert_eq!(hash("C:\\Projects"), hash("c:\\projects"));
    assert_ne!(hash("a"), hash("b"));
    assert_eq!(hash(""), 0xcbf2_9ce4_8422_2325);
}

/// Workspaces that are gone are not offered, nor any twice.
#[test]
fn only_what_exists_is_offered() {
    let found = vec![
        (Path::parse("C:/a"), true),
        (Path::parse("C:/gone"), false),
        (Path::parse("C:/a"), true),
        (Path::parse("C:/b"), true),
    ];
    assert_eq!(recent_workspaces(&found), [Path::parse("C:/a"), Path::parse("C:/b")]);
}

/// The list of workspaces and the window's place survive being written down.
#[test]
fn what_is_noted_is_read_back() {
    let list = vec![Path::parse("C:/a b"), Path::parse("C:/c")];
    assert_eq!(recents_lines(&recents_text(&list)), list);

    let place = Placement { x: -5, y: 10, width: 800, height: 600, maximized: true };
    assert_eq!(window_place(&note_window_place(place)), Some(place));
    assert_eq!(window_place("garbage"), None);
    assert_eq!(window_place("1 2 0 600 0"), None);
}

/// A layout kept in the project is kept out of its history, once.
#[test]
fn a_layout_stays_out_of_the_history() {
    assert!(wants_ignore(&Path::parse("C:\\work\\.kubide"), false));
    assert!(!wants_ignore(&Path::parse("C:\\work\\.kubide"), true));
    assert!(!wants_ignore(&Path::parse("C:\\data\\sessions"), false));
}

/// A workspace that stood twice on the list stands once on the new one.
#[test]
fn nothing_is_on_the_list_twice() {
    let old = vec![Path::parse("C:/a"), Path::parse("C:/a")];
    assert_eq!(bumped(&Path::parse("C:/b"), old), [Path::parse("C:/b"), Path::parse("C:/a")]);
    let old = vec![Path::parse("c:/A"), Path::parse("C:\\b"), Path::parse("C:/A"), Path::parse("c:\\b")];
    assert_eq!(bumped(&Path::parse("C:/b"), old), [Path::parse("C:/b"), Path::parse("C:/A")]);
}

/// A layout that was cut short is no layout.
#[test]
fn a_truncated_layout_is_refused() {
    for text in [
        "kubide-session 1\nlayout H2 0.5 0.5 L0 \n",
        "kubide-session 1\nlayout H2 0.5 \n",
        "kubide-session 1\nlayout H2 0.5 x L0 L1 \n",
        "kubide-session 1\nlayout H2 0.5 0.5 L0 V2 0.5 0.5 L1 \n",
        "kubide-session 1\nlayout H65 \n",
    ] {
        assert_eq!(Session::decode(text, &root()), None, "{text}");
    }
}

/// A line this version does not know is passed over, a word alone too; a
/// known key that says nothing is not.
#[test]
fn an_unknown_line_costs_nothing() {
    let plain = Some(Session { layout: Desc::Leaf(PaneId(0)), panes: Vec::new(), focus: PaneId(0) });
    for text in [
        "kubide-session 1\nfocus 0\nlayout L0 \nzen\n",
        "kubide-session 1\nfocus 0\nzen mode on\nlayout L0 \n",
        "kubide-session 1\n\nfocus 0\nlayout L0 \n",
    ] {
        assert_eq!(Session::decode(text, &root()), plain);
    }
    assert_eq!(Session::decode("kubide-session 1\nfocus\nlayout L0 \n", &root()), None);
    assert_eq!(Session::decode("kubide-session 1\npane\nlayout L0 \n", &root()), None);
}

/// A note of the window's place with a word that is no number is no note.
#[test]
fn a_garbled_window_place_is_no_answer() {
    assert_eq!(window_place("10 x 20 800 600 0"), None);
    assert_eq!(window_place("10 20 800 600"), None);
    assert_eq!(window_place("10 20 800 600 0 0"), None);
    assert_eq!(window_place("10 20 800 99999999999 0"), None);
    assert_eq!(
        window_place(" 10 20  800 600 0\n"),
        Some(Placement { x: 10, y: 20, width: 800, height: 600, maximized: false })
    );
}

/// A path from a bare slash is written with slashes, one on a drive with
/// backslashes, and a drive is one drive however it is typed.
#[test]
fn a_path_is_written_as_its_root_is() {
    assert_eq!(Path::parse("/home/u").text(), "/home/u");
    assert_eq!(Path::parse("/").text(), "/");
    assert_eq!(Path::parse("/home/u").child("a b").text(), "/home/u/a b");
    assert_eq!(Path::parse("\\top\\x").text(), "\\top\\x");
    assert_eq!(Path::parse("C:/a/b").text(), "C:\\a\\b");
    assert_eq!(Path::parse("//box/share/x").text(), "\\\\box\\share\\x");
    assert!(Path::parse("c:/a").same(&Path::parse("C:\\a")));
    assert!(!Path::parse("C:/a").same(&Path::parse("D:/a")));
    assert!(Path::parse("c:\\w\\a.rs").strip_prefix(&Path::parse("C:/w")).is_some());
}

/// A path from a bare backslash stays on the drive or the share it is put
/// under; one with a root of its own does not.
#[test]
fn a_join_keeps_the_drive() {
    let base = Path::parse("C:\\work\\thing");
    assert_eq!(base.join(&Path::parse("\\x\\y")).text(), "C:\\x\\y");
    assert_eq!(base.join(&Path::parse("/x")).text(), "/x");
    assert_eq!(base.join(&Path::parse("x")).text(), "C:\\work\\thing\\x");
    assert_eq!(base.join(&Path::parse("D:\\x")).text(), "D:\\x");
    assert_eq!(Path::parse("\\\\box\\share\\a").join(&Path::parse("\\x")).text(), "\\\\box\\share\\x");
    assert_eq!(Path::parse("/home/u").join(&Path::parse("/etc")).text(), "/etc");
    assert_eq!(Path::parse("/home/u").join(&Path::parse("src/a.rs")).text(), "/home/u/src/a.rs");
}
