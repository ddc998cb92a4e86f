//! What vim asks for that its buffer cannot do.
use vstd::prelude::*;
use vstd::string::*;
use crate::action::Action;
use crate::desk;
use crate::desk::{Desk, DeskState, Dir, Do, DoState};
use crate::desk_steps;
use crate::path;
use crate::path::{Path, PathState};
use crate::session::PaneId;
use crate::text::joined;

verus! {

#[derive(Debug, PartialEq, Eq)]
pub enum Effect {
    Save,
    SaveAll,
    SaveClose,
    ClosePane,
    ClosePaneForce,
    Quit,
    QuitForce,
    SplitRight,
    SplitDown,
    Focus(Dir),
    OpenTerminal,
    OpenFile(String),
    ScrollTo(usize),
}

/// One thing to do for it.
#[derive(Debug, PartialEq, Eq)]
pub enum Step {
    /// Run this, exactly as its key would.
    Run(Action),
    SaveAll,
    /// Close this pane without asking.
    Close(PaneId),
    /// Save the session and quit without asking.
    QuitNow,
    Focus(Dir),
    OpenTerminal,
    /// Open this file if it is one; see [`Desk::vim_open`].
    Open(Path),
    ScrollTo(usize),
}

/// One thing to do, as a value.
pub enum StepState {
    Run(Action),
    SaveAll,
    Close(PaneId),
    QuitNow,
    Focus(Dir),
    OpenTerminal,
    Open(PathState),
    ScrollTo(usize),
}

impl View for Step {
    type V = StepState;

    open spec fn view(&self) -> StepState {
        match self {
            Step::Run(a) => StepState::Run(*a),
            Step::SaveAll => StepState::SaveAll,
            Step::Close(p) => StepState::Close(*p),
            Step::QuitNow => StepState::QuitNow,
            Step::Focus(d) => StepState::Focus(*d),
            Step::OpenTerminal => StepState::OpenTerminal,
            Step::Open(p) => StepState::Open(p@),
            Step::ScrollTo(n) => StepState::ScrollTo(*n),
        }
    }
}

/// The steps of a list as values.
pub open spec fn step_list(s: Seq<Step>) -> Seq<StepState> {
    Seq::new(s.len(), |i: int| s[i]@)
}

/// What an effect comes to. Writing and closing are the commands themselves,
/// so closing asks if the save did not take: a read-only file must not vanish
/// from the screen.
pub open spec fn steps_of(m: DeskState, e: Effect) -> Seq<StepState> {
    match e {
        Effect::Save => seq![StepState::Run(Action::Save)],
        Effect::SaveAll => seq![StepState::SaveAll],
        Effect::SaveClose => seq![StepState::Run(Action::Save), StepState::Run(Action::ClosePane)],
        Effect::ClosePane => seq![StepState::Run(Action::ClosePane)],
        Effect::ClosePaneForce => seq![StepState::Close(m.focus)],
        Effect::Quit => seq![StepState::Run(Action::Quit)],
        Effect::QuitForce => seq![StepState::QuitNow],
        Effect::SplitRight => seq![StepState::Run(Action::SplitRight)],
        Effect::SplitDown => seq![StepState::Run(Action::SplitDown)],
        Effect::Focus(d) => seq![StepState::Focus(d)],
        Effect::OpenTerminal => seq![StepState::OpenTerminal],
        Effect::OpenFile(name) => seq![
            StepState::Open(path::path_join(m.root, path::path_of(name@))),
        ],
        Effect::ScrollTo(top) => seq![StepState::ScrollTo(top)],
    }
}

impl Desk {
    /// Does what vim asked for.
    pub fn vim_effect(&self, e: Effect) -> (r: Vec<Step>)
        ensures
            step_list(r@) == steps_of(self@, e),
    {
        let mut out: Vec<Step> = Vec::new();
        match e {
            Effect::Save => out.push(Step::Run(Action::Save)),
            Effect::SaveAll => out.push(Step::SaveAll),
            Effect::SaveClose => {
                out.push(Step::Run(Action::Save));
                out.push(Step::Run(Action::ClosePane));
            },
            Effect::ClosePane => out.push(Step::Run(Action::ClosePane)),
            Effect::ClosePaneForce => out.push(Step::Close(self.focus)),
            Effect::Quit => out.push(Step::Run(Action::Quit)),
            Effect::QuitForce => out.push(Step::QuitNow),
            Effect::SplitRight => out.push(Step::Run(Action::SplitRight)),
            Effect::SplitDown => out.push(Step::Run(Action::SplitDown)),
            Effect::Focus(d) => out.push(Step::Focus(d)),
            Effect::OpenTerminal => out.push(Step::OpenTerminal),
            Effect::OpenFile(name) => {
                // Relative to the workspace, the way it reads from a shell
                // standing at the project root.
                let tail: Path = Path::parse(name.as_str());
                out.push(Step::Open(self.root.join(&tail)));
            },
            Effect::ScrollTo(top) => out.push(Step::ScrollTo(top)),
        }
        assert(step_list(out@) =~= steps_of(self@, e));
        out
    }

    /// Opens a file vim named, into the pane content lands in.
    pub fn vim_open(&mut self, f: Path, is_file: bool, target: PaneId) -> (r: Do)
        ensures
            ({
                let m = old(self)@;
                if is_file {
                    &&& final(self)@ == desk_steps::opening_at(m, target, f@).0
                    &&& r@ == desk_steps::opening_at(m, target, f@).1
                } else {
                    &&& final(self)@ == desk::warned(m, "not a file: "@ + path::path_text(f@))
                    &&& r@ == DoState::Done
                }
            }),
    {
        if !is_file {
            let shown: String = f.text();
            let message: String = joined("not a file: ", shown.as_str());
            self.warn(message.as_str());
            return Do::Done;
        }
        self.open_at(target, f)
    }

    /// Vim took a key: the user moved on from whatever was being confirmed.
    pub fn vim_took(&mut self)
        ensures
            final(self)@ == (DeskState { confirm: None, notice: None, ..old(self)@ }),
    {
        self.confirm = None;
        self.notice = None;
    }
}

/// Where the view goes when vim scrolls it: no further than the last line.
pub fn scroll_to(top: usize, lines: usize) -> (r: usize)
    ensures
        r == (if lines == 0 {
            0
        } else if top <= lines - 1 {
            top as int
        } else {
            lines - 1
        }),
{
    let last: usize = if lines == 0 { 0 } else { lines - 1 };
    if top <= last { top } else { last }
}

/// What the modal layer asks for is done as the same command does it; saving
/// and closing comes in that order, and what is forced asks nothing.
pub proof fn each_request_is_carried_out(m: DeskState, d: Dir, name: String, top: usize)
    ensures
        ({
            let does = |e: Effect, s: Seq<StepState>| steps_of(m, e) == s;
            &&& does(Effect::Save, seq![StepState::Run(Action::Save)])
            &&& does(Effect::SaveAll, seq![StepState::SaveAll])
            &&& does(Effect::SaveClose, seq![StepState::Run(Action::Save), StepState::Run(Action::ClosePane)])
            &&& does(Effect::ClosePane, seq![StepState::Run(Action::ClosePane)])
            &&& does(Effect::ClosePaneForce, seq![StepState::Close(m.focus)])
            &&& does(Effect::Quit, seq![StepState::Run(Action::Quit)])
            &&& does(Effect::QuitForce, seq![StepState::QuitNow])
            &&& does(Effect::SplitRight, seq![StepState::Run(Action::SplitRight)])
            &&& does(Effect::SplitDown, seq![StepState::Run(Action::SplitDown)])
            &&& does(Effect::Focus(d), seq![StepState::Focus(d)])
            &&& does(Effect::OpenTerminal, seq![StepState::OpenTerminal])
            &&& does(Effect::ScrollTo(top), seq![StepState::ScrollTo(top)])
            // A file named without a root is looked for in the folder.
            &&& path::is_relative_path(path::path_of(name@)) ==> does(
                Effect::OpenFile(name),
                seq![
                    StepState::Open(
                        PathState { root: m.root.root, parts: m.root.parts + path::path_of(name@).parts },
                    ),
                ],
            )
        }),
{
}

} // verus!
