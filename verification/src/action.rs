//! Everything a key or the command list can ask for, by name.
use vstd::prelude::*;

verus! {

#[derive(Clone, Copy, Debug, PartialEq, Eq, Structural)]
pub enum Action {
    SplitRight,
    SplitDown,
    ClosePane,
    OpenTerminal,
    OpenExplorer,
    ToggleExplorer,
    OpenSettings,
    GitPanel,
    OpenAgent,
    WorkspaceHere,
    OpenFolder,
    ToggleHelp,
    ToggleVim,
    NewFile,
    NewFolder,
    Rename,
    Delete,
    Commands,
    GoToFile,
    LastFile,
    Find,
    Replace,
    GoToLine,
    FindInProject,
    ToggleComment,
    MoveLineUp,
    MoveLineDown,
    DuplicateLine,
    DeleteLine,
    SelectLine,
    GoToBracket,
    FocusLeft,
    FocusRight,
    FocusUp,
    FocusDown,
    FocusPane1,
    FocusPane2,
    FocusPane3,
    FocusPane4,
    FocusPane5,
    FocusPane6,
    FocusPane7,
    FocusPane8,
    FocusPane9,
    GrowPaneWidth,
    ShrinkPaneWidth,
    GrowPaneHeight,
    ShrinkPaneHeight,
    MinimizeWindow,
    ToggleMaximize,
    Copy,
    Cut,
    Paste,
    Save,
    Undo,
    Redo,
    SelectAll,
    PomodoroToggle,
    PomodoroReset,
    PomodoroSkip,
    FontLarger,
    FontSmaller,
    Quit,
}

/// The pane a numbered focus action means, counted from zero.
pub open spec fn pane_number(a: Action) -> Option<nat> {
    match a {
        Action::FocusPane1 => Some(0),
        Action::FocusPane2 => Some(1),
        Action::FocusPane3 => Some(2),
        Action::FocusPane4 => Some(3),
        Action::FocusPane5 => Some(4),
        Action::FocusPane6 => Some(5),
        Action::FocusPane7 => Some(6),
        Action::FocusPane8 => Some(7),
        Action::FocusPane9 => Some(8),
        _ => None,
    }
}

impl Action {
    pub fn pane_index(self) -> (r: Option<usize>)
        ensures
            match r {
                Some(i) => pane_number(self) == Some(i as nat),
                None => pane_number(self) is None,
            },
    {
        match self {
            Action::FocusPane1 => Some(0),
            Action::FocusPane2 => Some(1),
            Action::FocusPane3 => Some(2),
            Action::FocusPane4 => Some(3),
            Action::FocusPane5 => Some(4),
            Action::FocusPane6 => Some(5),
            Action::FocusPane7 => Some(6),
            Action::FocusPane8 => Some(7),
            Action::FocusPane9 => Some(8),
            _ => None,
        }
    }
}

} // verus!
