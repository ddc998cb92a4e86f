//! The list of shortcuts pinned in the corner: what to be told without
//! leaving what you were doing.
use vstd::prelude::*;
use vstd::string::*;
use crate::action::Action;
use crate::text::{joined, joined3};

verus! {

/// How many lines the list has. Curated rather than every action: this is
/// what you scan when you have forgotten a chord, and the full list is a
/// keystroke away on the settings screen.
pub const CHEATS: usize = 29;

/// The action of a line. A line nobody has bound drops out with it.
pub open spec fn action_of(i: int) -> Action {
    if i == 0 {
        Action::Commands
    } else if i == 1 {
        Action::OpenSettings
    } else if i == 2 {
        Action::OpenFolder
    } else if i == 3 {
        Action::GoToFile
    } else if i == 4 {
        Action::LastFile
    } else if i == 5 {
        Action::Find
    } else if i == 6 {
        Action::Replace
    } else if i == 7 {
        Action::FindInProject
    } else if i == 8 {
        Action::GoToLine
    } else if i == 9 {
        Action::GitPanel
    } else if i == 10 {
        Action::Save
    } else if i == 11 {
        Action::ToggleComment
    } else if i == 12 {
        Action::DuplicateLine
    } else if i == 13 {
        Action::DeleteLine
    } else if i == 14 {
        Action::MoveLineUp
    } else if i == 15 {
        Action::ToggleExplorer
    } else if i == 16 {
        Action::OpenTerminal
    } else if i == 17 {
        Action::SplitRight
    } else if i == 18 {
        Action::SplitDown
    } else if i == 19 {
        Action::ClosePane
    } else if i == 20 {
        Action::FocusLeft
    } else if i == 21 {
        Action::FocusPane1
    } else if i == 22 {
        Action::GrowPaneWidth
    } else if i == 23 {
        Action::NewFile
    } else if i == 24 {
        Action::Rename
    } else if i == 25 {
        Action::WorkspaceHere
    } else if i == 26 {
        Action::PomodoroToggle
    } else if i == 27 {
        Action::ToggleMaximize
    } else {
        Action::Quit
    }
}

pub fn cheat_action(i: usize) -> (r: Action)
    ensures
        r == action_of(i as int),
{
    match i {
        0 => Action::Commands,
        1 => Action::OpenSettings,
        2 => Action::OpenFolder,
        3 => Action::GoToFile,
        4 => Action::LastFile,
        5 => Action::Find,
        6 => Action::Replace,
        7 => Action::FindInProject,
        8 => Action::GoToLine,
        9 => Action::GitPanel,
        10 => Action::Save,
        11 => Action::ToggleComment,
        12 => Action::DuplicateLine,
        13 => Action::DeleteLine,
        14 => Action::MoveLineUp,
        15 => Action::ToggleExplorer,
        16 => Action::OpenTerminal,
        17 => Action::SplitRight,
        18 => Action::SplitDown,
        19 => Action::ClosePane,
        20 => Action::FocusLeft,
        21 => Action::FocusPane1,
        22 => Action::GrowPaneWidth,
        23 => Action::NewFile,
        24 => Action::Rename,
        25 => Action::WorkspaceHere,
        26 => Action::PomodoroToggle,
        27 => Action::ToggleMaximize,
        _ => Action::Quit,
    }
}

/// What a line says of what it does.
pub open spec fn label_of(i: int) -> Seq<char> {
    if i == 0 {
        "All commands"@
    } else if i == 1 {
        "Settings"@
    } else if i == 2 {
        "Open folder"@
    } else if i == 3 {
        "Go to file"@
    } else if i == 4 {
        "Switch to last file"@
    } else if i == 5 {
        "Find in file"@
    } else if i == 6 {
        "Replace in file"@
    } else if i == 7 {
        "Find in project"@
    } else if i == 8 {
        "Go to line"@
    } else if i == 9 {
        "Git panel"@
    } else if i == 10 {
        "Save"@
    } else if i == 11 {
        "Toggle comment"@
    } else if i == 12 {
        "Duplicate line"@
    } else if i == 13 {
        "Delete line"@
    } else if i == 14 {
        "Move line"@
    } else if i == 15 {
        "File tree"@
    } else if i == 16 {
        "Terminal"@
    } else if i == 17 {
        "Split side by side"@
    } else if i == 18 {
        "Split stacked"@
    } else if i == 19 {
        "Close pane"@
    } else if i == 20 {
        "Move focus"@
    } else if i == 21 {
        "Focus pane by number"@
    } else if i == 22 {
        "Resize pane"@
    } else if i == 23 {
        "New file (in the tree)"@
    } else if i == 24 {
        "Rename (in the tree)"@
    } else if i == 25 {
        "Open folder as workspace (in the tree)"@
    } else if i == 26 {
        "Work timer"@
    } else if i == 27 {
        "Maximise or restore"@
    } else {
        "Quit"@
    }
}

pub fn cheat_label(i: usize) -> (r: &'static str)
    ensures
        r@ == label_of(i as int),
{
    match i {
        0 => "All commands",
        1 => "Settings",
        2 => "Open folder",
        3 => "Go to file",
        4 => "Switch to last file",
        5 => "Find in file",
        6 => "Replace in file",
        7 => "Find in project",
        8 => "Go to line",
        9 => "Git panel",
        10 => "Save",
        11 => "Toggle comment",
        12 => "Duplicate line",
        13 => "Delete line",
        14 => "Move line",
        15 => "File tree",
        16 => "Terminal",
        17 => "Split side by side",
        18 => "Split stacked",
        19 => "Close pane",
        20 => "Move focus",
        21 => "Focus pane by number",
        22 => "Resize pane",
        23 => "New file (in the tree)",
        24 => "Rename (in the tree)",
        25 => "Open folder as workspace (in the tree)",
        26 => "Work timer",
        27 => "Maximise or restore",
        _ => "Quit",
    }
}

/// A line that stands for a whole family says so in one go: nine numbered
/// jumps spelled out would be a third of the list and none of the interest.
pub open spec fn family_of(i: int) -> Option<Seq<char>> {
    if i == 14 {
        Some("Ctrl+Shift+\u{2191}\u{2193}"@)
    } else if i == 20 {
        Some("Alt+\u{2190}\u{2192}\u{2191}\u{2193}"@)
    } else if i == 21 {
        Some("Alt+1\u{2026}9"@)
    } else if i == 22 {
        Some("Ctrl+Alt+\u{2190}\u{2192}\u{2191}\u{2193}"@)
    } else {
        None
    }
}

pub fn cheat_family(i: usize) -> (r: Option<&'static str>)
    ensures
        (match r {
            Some(s) => Some(s@),
            None => None,
        }) == family_of(i as int),
{
    match i {
        14 => Some("Ctrl+Shift+\u{2191}\u{2193}"),
        20 => Some("Alt+\u{2190}\u{2192}\u{2191}\u{2193}"),
        21 => Some("Alt+1\u{2026}9"),
        22 => Some("Ctrl+Alt+\u{2190}\u{2192}\u{2191}\u{2193}"),
        _ => None,
    }
}

/// One line of the list: the chord and what it does.
pub open spec fn line_of(chords: Seq<Option<Seq<char>>>, i: int) -> Option<(Seq<char>, Seq<char>)> {
    match chords[i] {
        None => None,
        Some(c) => Some(
            (
                match family_of(i) {
                    Some(f) => f,
                    None => c,
                },
                label_of(i),
            ),
        ),
    }
}

/// The first `n` lines, those of them that are bound.
pub open spec fn lines_of(chords: Seq<Option<Seq<char>>>, n: int) -> Seq<(Seq<char>, Seq<char>)>
    decreases n,
{
    if n <= 0 {
        Seq::empty()
    } else {
        match line_of(chords, n - 1) {
            Some(l) => lines_of(chords, n - 1).push(l),
            None => lines_of(chords, n - 1),
        }
    }
}

/// The list cut to what the window can hold, and said so: a list that stops
/// early with no sign of it teaches you the rest do not exist.
pub open spec fn cut(lines: Seq<(Seq<char>, Seq<char>)>, fits: nat) -> Seq<(Seq<char>, Seq<char>)> {
    if lines.len() <= fits {
        lines
    } else {
        lines.take(if fits == 0 { 0 } else { fits - 1 }).push(
            (""@, "\u{2026}and more, in the settings screen"@),
        )
    }
}

/// The widest of the first `n` lines, with a gap between the two columns.
pub open spec fn width_of(lines: Seq<(Seq<char>, Seq<char>)>, n: int) -> nat
    decreases n,
{
    if n <= 0 {
        0
    } else {
        let rest = width_of(lines, n - 1);
        let own = lines[n - 1].0.len() + lines[n - 1].1.len() + 3;
        if own > rest { own } else { rest }
    }
}

/// The lines of a list as values.
pub open spec fn line_list(s: Seq<(String, &'static str)>) -> Seq<(Seq<char>, Seq<char>)> {
    Seq::new(s.len(), |i: int| (s[i].0@, s[i].1@))
}

/// The chords of a list as values.
pub open spec fn chord_list(s: Seq<Option<String>>) -> Seq<Option<Seq<char>>> {
    Seq::new(
        s.len(),
        |i: int|
            match s[i] {
                Some(c) => Some(c@),
                None => None,
            },
    )
}

fn all_lines(chords: &Vec<Option<String>>) -> (r: Vec<(String, &'static str)>)
    requires
        chords@.len() == CHEATS,
    ensures
        line_list(r@) == lines_of(chord_list(chords@), CHEATS as int),
{
    let ghost all = chord_list(chords@);
    let mut out: Vec<(String, &'static str)> = Vec::new();
    let mut i: usize = 0;
    assert(line_list(out@) =~= Seq::empty());
    while i < chords.len()
        invariant
            i <= chords.len(),
            chords@.len() == CHEATS,
            all == chord_list(chords@),
            line_list(out@) == lines_of(all, i as int),
        decreases chords.len() - i,
    {
        let ghost done = line_list(out@);
        if let Some(c) = &chords[i] {
            assert(all[i as int] == Some(c@));
            let chord: String = match cheat_family(i) {
                Some(f) => f.to_owned(),
                None => c.clone(),
            };
            let ghost shown = chord@;
            out.push((chord, cheat_label(i)));
            assert(line_list(out@) =~= done.push((shown, label_of(i as int))));
        }
        i = i + 1;
    }
    out
}

/// The list as drawn.
#[derive(Debug)]
pub struct HelpDrawn {
    pub title: String,
    pub lines: Vec<(String, &'static str)>,
    /// Cells across.
    pub width: usize,
}

fn widest(lines: &Vec<(String, &'static str)>) -> (r: usize)
    requires
        width_of(line_list(lines@), lines@.len() as int) <= usize::MAX,
    ensures
        r == width_of(line_list(lines@), lines@.len() as int),
{
    let ghost all = line_list(lines@);
    let mut w: u128 = 0;
    let mut i: usize = 0;
    while i < lines.len()
        invariant
            i <= lines.len(),
            all == line_list(lines@),
            w == width_of(all, i as int),
        decreases lines.len() - i,
    {
        assert(all[i as int] == (lines@[i as int].0@, lines@[i as int].1@));
        let own: u128 = lines[i].0.as_str().unicode_len() as u128 + lines[i].1.unicode_len() as u128 + 3;
        if own > w {
            w = own;
        }
        i = i + 1;
    }
    w as usize
}

/// The title, with the key that takes the list away again.
pub open spec fn title_of(toggle: Option<Seq<char>>) -> Seq<char> {
    match toggle {
        Some(c) => "SHORTCUTS \u{b7} "@ + c + " hides this"@,
        None => "SHORTCUTS"@,
    }
}

/// The list as drawn in a window that holds `fits` lines of it. Nothing at
/// all, when nothing on it is bound.
pub fn sheet(chords: &Vec<Option<String>>, toggle: Option<&str>, fits: usize) -> (r: Option<HelpDrawn>)
    requires
        chords@.len() == CHEATS,
        ({
            let lines = cut(lines_of(chord_list(chords@), CHEATS as int), fits as nat);
            width_of(lines, lines.len() as int) <= usize::MAX
        }),
    ensures
        ({
            let lines = lines_of(chord_list(chords@), CHEATS as int);
            match r {
                Some(h) => {
                    &&& lines.len() > 0
                    &&& line_list(h.lines@) == cut(lines, fits as nat)
                    &&& h.width == width_of(cut(lines, fits as nat), cut(lines, fits as nat).len() as int)
                    &&& h.title@ == title_of(
                        match toggle {
                            Some(c) => Some(c@),
                            None => None,
                        },
                    )
                },
                None => lines.len() == 0,
            }
        }),
{
    let mut lines: Vec<(String, &'static str)> = all_lines(chords);
    let ghost whole = line_list(lines@);
    if lines.len() == 0 {
        return None;
    }
    if lines.len() > fits {
        let keep: usize = if fits == 0 { 0 } else { fits - 1 };
        lines.truncate(keep);
        let ghost kept = line_list(lines@);
        assert(kept =~= whole.take(keep as int));
        lines.push(("".to_owned(), "\u{2026}and more, in the settings screen"));
        assert(line_list(lines@) =~= kept.push((""@, "\u{2026}and more, in the settings screen"@)));
    }
    let width: usize = widest(&lines);
    let title: String = match toggle {
        Some(c) => joined3("SHORTCUTS \u{b7} ", c, " hides this"),
        None => "SHORTCUTS".to_owned(),
    };
    Some(HelpDrawn { title, lines, width })
}

/// Closed, the list is one quiet line on the status bar, as long as it is
/// wanted and the command list is on a key.
pub fn chip(visible: bool, commands: Option<&str>) -> (r: Option<String>)
    ensures
        match r {
            Some(t) => visible && commands is Some && t@ == commands->Some_0@ + " commands"@,
            None => !visible || commands is None,
        },
{
    match commands {
        Some(c) => if visible { Some(joined(c, " commands")) } else { None },
        None => None,
    }
}

// -------------------------------------------------------------------- laws

/// A list is never taller than the window it is drawn in, as long as that
/// holds anything.
pub proof fn the_list_fits(lines: Seq<(Seq<char>, Seq<char>)>, fits: nat)
    requires
        fits > 0,
    ensures
        cut(lines, fits).len() <= fits,
{
}

/// A shortened list says that it was: its last line points at the rest.
pub proof fn a_cut_is_said(lines: Seq<(Seq<char>, Seq<char>)>, fits: nat)
    requires
        lines.len() > fits,
    ensures
        cut(lines, fits).last() == (""@, "\u{2026}and more, in the settings screen"@),
{
}

/// No line teaches a key that does nothing.
pub proof fn an_unbound_line_drops_out(chords: Seq<Option<Seq<char>>>, n: int)
    requires
        n > 0,
        chords[n - 1] is None,
    ensures
        lines_of(chords, n) == lines_of(chords, n - 1),
{
}

/// Each line of the list tells of the command whose key it shows.
pub proof fn each_line_tells_of_its_command(i: int)
    ensures
        ({
            let tells = |a: Action, label: Seq<char>| action_of(i) == a ==> label_of(i) == label;
            &&& tells(Action::Commands, "All commands"@)
            &&& tells(Action::OpenSettings, "Settings"@)
            &&& tells(Action::OpenFolder, "Open folder"@)
            &&& tells(Action::GoToFile, "Go to file"@)
            &&& tells(Action::LastFile, "Switch to last file"@)
            &&& tells(Action::Find, "Find in file"@)
            &&& tells(Action::Replace, "Replace in file"@)
            &&& tells(Action::FindInProject, "Find in project"@)
            &&& tells(Action::GoToLine, "Go to line"@)
            &&& tells(Action::GitPanel, "Git panel"@)
            &&& tells(Action::Save, "Save"@)
            &&& tells(Action::ToggleComment, "Toggle comment"@)
            &&& tells(Action::DuplicateLine, "Duplicate line"@)
            &&& tells(Action::DeleteLine, "Delete line"@)
            &&& tells(Action::MoveLineUp, "Move line"@)
            &&& tells(Action::ToggleExplorer, "File tree"@)
            &&& tells(Action::OpenTerminal, "Terminal"@)
            &&& tells(Action::SplitRight, "Split side by side"@)
            &&& tells(Action::SplitDown, "Split stacked"@)
            &&& tells(Action::ClosePane, "Close pane"@)
            &&& tells(Action::FocusLeft, "Move focus"@)
            &&& tells(Action::FocusPane1, "Focus pane by number"@)
            &&& tells(Action::GrowPaneWidth, "Resize pane"@)
            &&& tells(Action::NewFile, "New file (in the tree)"@)
            &&& tells(Action::Rename, "Rename (in the tree)"@)
            &&& tells(Action::WorkspaceHere, "Open folder as workspace (in the tree)"@)
            &&& tells(Action::PomodoroToggle, "Work timer"@)
            &&& tells(Action::ToggleMaximize, "Maximise or restore"@)
            &&& tells(Action::Quit, "Quit"@)
        }),
{
}

/// No command has two lines.
pub proof fn no_command_has_two_lines(i: int, j: int)
    requires
        0 <= i < 29,
        0 <= j < 29,
        action_of(i) == action_of(j),
    ensures
        i == j,
{
}

/// A line shows the key that is bound, or the keys of its family where one
/// of them is bound; a command without a key has no line.
pub proof fn a_line_shows_its_key(chords: Seq<Option<Seq<char>>>, n: int)
    requires
        0 <= n < chords.len(),
    ensures
        chords[n] is None ==> lines_of(chords, n + 1) == lines_of(chords, n),
        chords[n] matches Some(c) ==> lines_of(chords, n + 1) == lines_of(chords, n).push(
            (
                match family_of(n) {
                    Some(f) => f,
                    None => c,
                },
                label_of(n),
            ),
        ),
{
}

/// A list that fits is shown whole; one that does not keeps its beginning
/// and says that there is more.
pub proof fn a_list_keeps_its_beginning(lines: Seq<(Seq<char>, Seq<char>)>, fits: nat, i: int)
    ensures
        lines.len() <= fits ==> cut(lines, fits) == lines,
        lines.len() > fits && 0 <= i < fits - 1 ==> cut(lines, fits)[i] == lines[i],
        lines.len() > fits ==> cut(lines, fits).last().1 == "\u{2026}and more, in the settings screen"@,
{
}

} // verus!
