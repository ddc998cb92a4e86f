//! The window's second steps: what becomes of a command once the program
//! around the window has carried it out, and what an answer to a question or
//! a prompt sets off.
use vstd::prelude::*;
use vstd::string::*;
use crate::desk;
use crate::desk::{unsaved_phrase, Desk, DeskState, Do, DoState, Pending, PendingState, DISCARD, SAVE};
use crate::lsp::Pos;
use crate::palette;
use crate::palette::{Mode, Palette, PaletteState, Press, Target, TargetState, Want};
use crate::panes;
use crate::panes::{Around, Content, ContentState, Panes, SlotState};
use crate::path;
use crate::path::{Path, PathState};
use crate::places;
use crate::session;
use crate::session::{Desc, Pane, PaneId, PaneState, Session, SessionState};
use crate::text;
use crate::text::{decimal_text, joined, joined3};

verus! {

// ----------------------------------------------------------------- opening

/// Opening a file into a pane, asking first when that pane holds unsaved
/// work.
pub open spec fn opening_over(m: DeskState, target: PaneId, f: PathState) -> (DeskState, DoState) {
    if panes::holds_unsaved(m.panes, target) {
        (
            desk::asking_about(
                m,
                PendingState::ReplaceUnsaved(target, f),
                "Replace "@ + panes::name_in(m.panes, target) + " without saving it?"@,
                "Save"@,
            ),
            DoState::Done,
        )
    } else {
        (DeskState { confirm: None, notice: None, ..m }, DoState::Open(target, f))
    }
}

/// Going to a place in a file: where it is open already, there; never over
/// unsaved work.
pub open spec fn opening_at(m: DeskState, target: PaneId, f: PathState) -> (DeskState, DoState) {
    if panes::path_in(m.panes, target) == Some(f) {
        (DeskState { focus: target, ..m }, DoState::Reveal(target))
    } else if panes::holds_unsaved(m.panes, target) {
        (
            desk::warned(m, "unsaved changes there \u{2014} save first, or use another pane"@),
            DoState::Done,
        )
    } else {
        (m, DoState::Open(target, f))
    }
}

/// The tree, opened in the focused pane, or gone to where it is. Never over
/// something that runs: that would end a process.
pub open spec fn exploring(m: DeskState, chord: Option<Seq<char>>) -> (DeskState, bool) {
    match panes::first_with(m.panes, ContentState::Explorer, 0) {
        Some(p) => (DeskState { focus: p, ..m }, true),
        None => if panes::holds_live(m.panes, m.focus) {
            (
                desk::warned(
                    m,
                    "something is running here \u{2014} "@ + (match chord {
                        Some(c) => c,
                        None => "the toggle"@,
                    }) + " puts the tree beside it"@,
                ),
                false,
            )
        } else {
            (
                DeskState { panes: panes::placed(m.panes, m.focus, ContentState::Explorer), ..m },
                true,
            )
        },
    }
}

/// A screen opened over a pane's content, or left again where it is already
/// up. Never over something that runs, and never over unsaved work.
pub open spec fn screened(m: DeskState, target: PaneId, screen: ContentState, refusal: Seq<char>) -> (DeskState, bool) {
    if panes::top_in(m.panes, target) == Some(screen) {
        (DeskState { focus: target, panes: panes::uncovered(m.panes, target), ..m }, true)
    } else if panes::holds_live(m.panes, target) {
        (desk::warned(m, refusal), false)
    } else if panes::holds_unsaved(m.panes, target) {
        (
            desk::warned(m, "unsaved changes there \u{2014} save first, or use another pane"@),
            false,
        )
    } else {
        (DeskState { focus: target, panes: panes::covered(m.panes, target, screen), ..m }, true)
    }
}

/// Leaving a screen, putting back whatever it covered.
pub open spec fn left(m: DeskState, screen: ContentState) -> (DeskState, bool) {
    if desk::focused(m) == Some(screen) {
        (DeskState { panes: panes::uncovered(m.panes, m.focus), ..m }, true)
    } else {
        (m, false)
    }
}

/// A pane closed: emptied, and when the layout let go of it, focus moves to
/// `next`. The last pane cannot be removed, so closing it empties it.
pub open spec fn closed(m: DeskState, pane: PaneId, next: Option<PaneId>, gone: bool) -> DeskState {
    let e = DeskState { panes: panes::without(m.panes, pane), ..m };
    match next {
        Some(n) => if gone { DeskState { focus: n, ..e } } else { e },
        None => e,
    }
}

/// Whichever neighbour focus moves to when a pane goes.
pub open spec fn next_after(a: Around) -> Option<PaneId> {
    panes::first_of(panes::first_of(a.left, a.right), panes::first_of(a.up, a.down))
}

/// Whichever neighbour focus moves to when the tree goes.
pub open spec fn next_after_tree(a: Around) -> Option<PaneId> {
    panes::first_of(panes::first_of(a.right, a.down), panes::first_of(a.left, a.up))
}

/// Focus is never left on a pane that no longer exists: whichever way a
/// closed pane had a neighbour, focus goes to one.
pub proof fn focus_never_stays_on_a_closed_pane(m: DeskState, pane: PaneId, a: Around)
    requires
        a.left is Some || a.right is Some || a.up is Some || a.down is Some,
        a.left != Some(pane) && a.right != Some(pane) && a.up != Some(pane) && a.down != Some(pane),
    ensures
        closed(m, pane, next_after(a), true).focus != pane,
        closed(m, pane, next_after_tree(a), true).focus != pane,
{
}

fn pick(a: Option<PaneId>, b: Option<PaneId>) -> (r: Option<PaneId>)
    ensures
        r == panes::first_of(a, b),
{
    match a {
        Some(p) => Some(p),
        None => b,
    }
}

impl Desk {
    /// A pane the focus moved into.
    pub fn entered(&mut self, p: PaneId)
        ensures
            final(self)@ == (DeskState { focus: p, ..old(self)@ }),
    {
        self.focus = p;
    }

    /// A file was opened into a pane.
    pub fn opened(&mut self, pane: PaneId, f: Path, refused: bool)
        ensures
            final(self)@ == (DeskState {
                panes: panes::placed(old(self)@.panes, pane, panes::opened_as(f@, refused)),
                focus: pane,
                ..old(self)@
            }),
    {
        self.panes.place(pane, Content::open_path(f, refused));
        self.focus = pane;
    }

    /// A shell was started in a pane.
    pub fn terminal_opened(&mut self, pane: PaneId)
        ensures
            final(self)@ == (DeskState {
                panes: panes::placed(old(self)@.panes, pane, ContentState::Terminal),
                focus: pane,
                ..old(self)@
            }),
    {
        self.panes.place(pane, Content::Terminal);
        self.focus = pane;
    }

    /// The agent was put into a pane.
    pub fn agent_opened(&mut self, pane: PaneId)
        ensures
            final(self)@ == (DeskState {
                panes: panes::placed(old(self)@.panes, pane, ContentState::Agent),
                focus: pane,
                ..old(self)@
            }),
    {
        self.panes.place(pane, Content::Agent);
        self.focus = pane;
    }

    /// There was no pane left to put the agent into.
    pub fn agent_refused(&mut self)
        ensures
            final(self)@ == desk::warned(old(self)@, "no room for another pane"@),
    {
        self.warn("no room for another pane");
    }

    /// Opens a file into a pane. Every way of opening a file (the tree, the
    /// finder, the dialog) lands here, so they all ask the same question.
    pub fn open_over(&mut self, target: PaneId, f: Path) -> (r: Do)
        ensures
            final(self)@ == opening_over(old(self)@, target, f@).0,
            r@ == opening_over(old(self)@, target, f@).1,
    {
        if self.panes.unsaved_in(target) {
            let name: String = self.panes.file_name_in(target);
            let question: String = joined3("Replace ", name.as_str(), " without saving it?");
            self.ask_about(Pending::ReplaceUnsaved(target, f), question.as_str(), "Save");
            return Do::Done;
        }
        self.confirm = None;
        self.notice = None;
        Do::Open(target, f)
    }

    /// Opens a file for a place in it, such as a search result.
    pub fn open_at(&mut self, target: PaneId, f: Path) -> (r: Do)
        ensures
            final(self)@ == opening_at(old(self)@, target, f@).0,
            r@ == opening_at(old(self)@, target, f@).1,
    {
        let already: bool = match self.panes.file_in(target) {
            Some(p) => p.same(&f),
            None => false,
        };
        if already {
            self.focus = target;
            return Do::Reveal(target);
        }
        if self.panes.unsaved_in(target) {
            self.warn("unsaved changes there \u{2014} save first, or use another pane");
            return Do::Done;
        }
        Do::Open(target, f)
    }

    /// Opens the file tree, or goes to it. `chord` is what shows the tree
    /// beside the work.
    pub fn open_explorer(&mut self, chord: Option<String>) -> (r: bool)
        ensures
            final(self)@ == exploring(old(self)@, desk::opt_text(chord)).0,
            r == exploring(old(self)@, desk::opt_text(chord)).1,
    {
        match self.panes.explorer_pane() {
            Some(p) => {
                self.focus = p;
                return true;
            },
            None => {},
        }
        if self.panes.live_in(self.focus) {
            let key: String = match chord {
                Some(c) => c,
                None => "the toggle".to_owned(),
            };
            let message: String = joined3(
                "something is running here \u{2014} ",
                key.as_str(),
                " puts the tree beside it",
            );
            self.warn(message.as_str());
            return false;
        }
        self.panes.place(self.focus, Content::Explorer);
        true
    }

    /// Opens the settings screen in a pane, or leaves it.
    pub fn open_settings(&mut self, target: PaneId) -> (r: bool)
        ensures
            ({
                let (state, done) = screened(
                    old(self)@,
                    target,
                    ContentState::Settings,
                    "settings will not replace a running process \u{2014} use another pane"@,
                );
                final(self)@ == state && r == done
            }),
    {
        if matches!(self.panes.top(target), Some(Content::Settings)) {
            self.focus = target;
            self.panes.uncover(target);
            return true;
        }
        if self.panes.live_in(target) {
            self.warn("settings will not replace a running process \u{2014} use another pane");
            return false;
        }
        if self.panes.unsaved_in(target) {
            self.warn("unsaved changes there \u{2014} save first, or use another pane");
            return false;
        }
        self.panes.cover(target, Content::Settings);
        self.focus = target;
        true
    }

    /// Opens the git panel in a pane, or leaves it. Outside a repository it
    /// says so.
    pub fn toggle_git_panel(&mut self, is_repo: bool, target: PaneId) -> (r: bool)
        ensures
            ({
                let (state, done) = if is_repo {
                    screened(
                        old(self)@,
                        target,
                        ContentState::Git,
                        "the git panel will not replace a running process \u{2014} use another pane"@,
                    )
                } else {
                    (desk::warned(old(self)@, "not a git repository"@), false)
                };
                final(self)@ == state && r == done
            }),
    {
        if !is_repo {
            self.warn("not a git repository");
            return false;
        }
        if matches!(self.panes.top(target), Some(Content::Git)) {
            self.focus = target;
            self.panes.uncover(target);
            return true;
        }
        if self.panes.live_in(target) {
            self.warn("the git panel will not replace a running process \u{2014} use another pane");
            return false;
        }
        if self.panes.unsaved_in(target) {
            self.warn("unsaved changes there \u{2014} save first, or use another pane");
            return false;
        }
        self.panes.cover(target, Content::Git);
        self.focus = target;
        true
    }

    /// Leaves the settings screen.
    pub fn close_settings(&mut self) -> (r: bool)
        ensures
            final(self)@ == left(old(self)@, ContentState::Settings).0,
            r == left(old(self)@, ContentState::Settings).1,
    {
        if matches!(self.panes.top(self.focus), Some(Content::Settings)) {
            self.panes.uncover(self.focus);
            true
        } else {
            false
        }
    }

    /// Leaves the git panel.
    pub fn close_git_panel(&mut self) -> (r: bool)
        ensures
            final(self)@ == left(old(self)@, ContentState::Git).0,
            r == left(old(self)@, ContentState::Git).1,
    {
        if matches!(self.panes.top(self.focus), Some(Content::Git)) {
            self.panes.uncover(self.focus);
            true
        } else {
            false
        }
    }

    /// Closes a pane and moves focus somewhere that still exists. `around` is
    /// what was next to it, `gone` whether the layout let go of it.
    pub fn close_pane(&mut self, pane: PaneId, around: &Around, gone: bool)
        ensures
            final(self)@ == closed(old(self)@, pane, next_after(*around), gone),
    {
        let next: Option<PaneId> = pick(pick(around.left, around.right), pick(around.up, around.down));
        let _stack: Vec<Content> = self.panes.take(pane);
        if gone {
            match next {
                Some(n) => {
                    self.focus = n;
                },
                None => {},
            }
        }
    }

    /// Hides the file tree. Its pane goes outright rather than shrinking to
    /// nothing, and focus is never left on it.
    pub fn hide_explorer(&mut self, pane: PaneId, around: &Around, gone: bool)
        ensures
            final(self)@ == closed(old(self)@, pane, next_after_tree(*around), gone),
    {
        let next: Option<PaneId> = pick(pick(around.right, around.down), pick(around.left, around.up));
        let _stack: Vec<Content> = self.panes.take(pane);
        if gone {
            match next {
                Some(n) => {
                    self.focus = n;
                },
                None => {},
            }
        }
    }

    /// Shows the file tree on the left: the leftmost pane was split, its
    /// content goes to the new right half, and focus follows it.
    pub fn show_explorer(&mut self, leftmost: PaneId, right: PaneId)
        ensures
            final(self)@ == (DeskState {
                panes: panes::placed(
                    panes::handed_over(old(self)@.panes, leftmost, right),
                    leftmost,
                    ContentState::Explorer,
                ),
                focus: right,
                ..old(self)@
            }),
    {
        self.panes.hand_over(leftmost, right);
        self.panes.place(leftmost, Content::Explorer);
        self.focus = right;
    }
}

// --------------------------------------------------------------- answering

/// So many files would not save.
pub open spec fn stuck(n: nat, tail: Seq<char>) -> Seq<char> {
    text::decimal(n) + " "@ + (if n == 1 { "file"@ } else { "files"@ }) + tail
}

fn stuck_text(n: usize, tail: &str) -> (r: String)
    ensures
        r@ == stuck(n as nat, tail@),
{
    let count: String = decimal_text(n as u64);
    let head: String = joined3(count.as_str(), " ", if n == 1 { "file" } else { "files" });
    joined(head.as_str(), tail)
}

/// Which panes an answer saves before it goes on: the one asked about when it
/// holds a file, or every one with unsaved work.
pub open spec fn saves_first(m: DeskState, index: nat) -> Seq<PaneId> {
    if index != SAVE {
        Seq::empty()
    } else {
        match m.pending {
            Some(PendingState::ReplaceUnsaved(pane, _)) => one_editor(m, pane),
            Some(PendingState::CloseUnsaved(pane)) => one_editor(m, pane),
            Some(PendingState::SwitchUnsaved(_)) => panes::unsaved_ids(m.panes, m.panes.len() as int),
            Some(PendingState::QuitUnsaved) => panes::unsaved_ids(m.panes, m.panes.len() as int),
            _ => Seq::empty(),
        }
    }
}

pub open spec fn one_editor(m: DeskState, pane: PaneId) -> Seq<PaneId> {
    match panes::top_in(m.panes, pane) {
        Some(ContentState::Editor { .. }) => seq![pane],
        _ => Seq::empty(),
    }
}

/// What an answer sets off, once what it saves has been saved as far as it
/// would. Anything that is not save or discard is a cancel. Work that is
/// still unsaved after saving stays where it is.
pub open spec fn answered(m: DeskState, index: nat) -> (DeskState, DoState) {
    let t = DeskState { pending: None, ..m };
    let n = panes::unsaved_total(m.panes);
    match m.pending {
        None => (m, DoState::Done),
        Some(PendingState::ReplaceUnsaved(pane, f)) => if index == SAVE && panes::holds_unsaved(
            m.panes,
            pane,
        ) {
            (desk::warned(t, "still unsaved \u{2014} nothing was opened over it"@), DoState::Done)
        } else if index == SAVE || index == DISCARD {
            (t, DoState::Open(pane, f))
        } else {
            (t, DoState::Done)
        },
        Some(PendingState::CloseUnsaved(pane)) => if index == SAVE && panes::holds_unsaved(m.panes, pane) {
            (desk::warned(t, "still unsaved \u{2014} the pane is staying open"@), DoState::Done)
        } else if index == SAVE || index == DISCARD {
            (t, DoState::Close(pane))
        } else {
            (t, DoState::Done)
        },
        Some(PendingState::SwitchUnsaved(dir)) => if index == SAVE && n > 0 {
            (desk::warned(t, stuck(n, " would not save \u{2014} staying put"@)), DoState::Done)
        } else if index == SAVE || index == DISCARD {
            (t, DoState::OpenWorkspace(dir))
        } else {
            (t, DoState::Done)
        },
        Some(PendingState::QuitUnsaved) => if index == SAVE && n > 0 {
            (desk::warned(t, stuck(n, " would not save \u{2014} still here"@)), DoState::Done)
        } else if index == SAVE || index == DISCARD {
            (t, DoState::Quit)
        } else {
            (t, DoState::Done)
        },
        // The text prompts answer through their own path; they are dropped.
        Some(_) => (t, DoState::Done),
    }
}

/// What a prompt's answer sets off. A question is answered by picking, not by
/// typing: one left waiting is dropped rather than acted on.
pub open spec fn prompted(m: DeskState, answer: Seq<char>) -> (DeskState, DoState) {
    let t = DeskState { pending: None, ..m };
    match m.pending {
        None => (m, DoState::Done),
        Some(PendingState::ProjectSearch) => (t, DoState::Grep(answer)),
        Some(PendingState::ReplaceWhat) => (
            desk::prompting_for(
                m,
                PendingState::ReplaceWith(answer),
                "replace '"@ + answer + "' with"@,
                Seq::empty(),
            ),
            DoState::Done,
        ),
        Some(PendingState::ReplaceWith(needle)) => (t, DoState::ReplaceAll { needle, with: answer }),
        Some(PendingState::CommitMessage) => (t, DoState::Commit(answer)),
        Some(PendingState::NewFile(dir)) => (
            t,
            DoState::CreateFile(path::path_join(dir, path::path_of(answer))),
        ),
        Some(PendingState::NewFolder(dir)) => (
            t,
            DoState::CreateDir(path::path_join(dir, path::path_of(answer))),
        ),
        Some(PendingState::Rename(from)) => (t, DoState::Rename { from, to: answer }),
        Some(_) => (t, DoState::Done),
    }
}

impl Desk {
    /// The panes to save before [`Desk::apply_answer`].
    pub fn wants_saving(&self, index: usize) -> (r: Vec<PaneId>)
        ensures
            r@ == saves_first(self@, index as nat),
    {
        let mut out: Vec<PaneId> = Vec::new();
        if index != SAVE {
            return out;
        }
        let one: Option<PaneId> = match &self.pending {
            Some(Pending::ReplaceUnsaved(p, _)) => Some(*p),
            Some(Pending::CloseUnsaved(p)) => Some(*p),
            Some(Pending::SwitchUnsaved(_)) | Some(Pending::QuitUnsaved) => {
                return self.panes.unsaved_panes();
            },
            _ => None,
        };
        match one {
            Some(p) => {
                if matches!(self.panes.top(p), Some(Content::Editor { .. })) {
                    out.push(p);
                    assert(out@ =~= seq![p]);
                }
            },
            None => {},
        }
        out
    }

    /// Acts on a choice. Escape drops the pending question with the overlay,
    /// so an answer can never arrive at the wrong operation later.
    pub fn apply_answer(&mut self, index: usize) -> (r: Do)
        ensures
            final(self)@ == answered(old(self)@, index as nat).0,
            r@ == answered(old(self)@, index as nat).1,
    {
        let op: Pending = match self.pending.take() {
            Some(op) => op,
            None => {
                return Do::Done;
            },
        };
        let goes: bool = index == SAVE || index == DISCARD;
        match op {
            Pending::ReplaceUnsaved(pane, f) => {
                if index == SAVE && self.panes.unsaved_in(pane) {
                    self.warn("still unsaved \u{2014} nothing was opened over it");
                    return Do::Done;
                }
                if goes { Do::Open(pane, f) } else { Do::Done }
            },
            Pending::CloseUnsaved(pane) => {
                // A failed save must not close the pane; that is the one case
                // where discarding was never asked for.
                if index == SAVE && self.panes.unsaved_in(pane) {
                    self.warn("still unsaved \u{2014} the pane is staying open");
                    return Do::Done;
                }
                if goes { Do::Close(pane) } else { Do::Done }
            },
            Pending::SwitchUnsaved(dir) => {
                let failed: usize = self.panes.unsaved_count();
                if index == SAVE && failed > 0 {
                    let message: String = stuck_text(failed, " would not save \u{2014} staying put");
                    self.warn(message.as_str());
                    return Do::Done;
                }
                if goes { Do::OpenWorkspace(dir) } else { Do::Done }
            },
            Pending::QuitUnsaved => {
                let failed: usize = self.panes.unsaved_count();
                if index == SAVE && failed > 0 {
                    let message: String = stuck_text(failed, " would not save \u{2014} still here");
                    self.warn(message.as_str());
                    return Do::Done;
                }
                if goes { Do::Quit } else { Do::Done }
            },
            _ => Do::Done,
        }
    }

    /// Acts on a prompt's answer.
    pub fn apply_prompt(&mut self, answer: String) -> (r: Do)
        ensures
            final(self)@ == prompted(old(self)@, answer@).0,
            r@ == prompted(old(self)@, answer@).1,
    {
        let op: Pending = match self.pending.take() {
            Some(op) => op,
            None => {
                return Do::Done;
            },
        };
        match op {
            Pending::ProjectSearch => Do::Grep(answer),
            // Step two rides on step one's answer, and the label carries it so
            // the box says what it is about to touch.
            Pending::ReplaceWhat => {
                let label: String = joined3("replace '", answer.as_str(), "' with");
                self.prompt_empty(Pending::ReplaceWith(answer), label.as_str());
                Do::Done
            },
            Pending::ReplaceWith(needle) => Do::ReplaceAll { needle, with: answer },
            Pending::CommitMessage => Do::Commit(answer),
            Pending::NewFile(dir) => {
                let tail: Path = Path::parse(answer.as_str());
                Do::CreateFile(dir.join(&tail))
            },
            Pending::NewFolder(dir) => {
                let tail: Path = Path::parse(answer.as_str());
                Do::CreateDir(dir.join(&tail))
            },
            Pending::Rename(from) => Do::Rename { from, to: answer },
            _ => Do::Done,
        }
    }

    /// What came of making, renaming or removing something.
    pub fn done_to_files(&mut self, failure: Option<String>) -> (r: Do)
        ensures
            match failure {
                Some(e) => final(self)@ == desk::warned(old(self)@, e@) && r@ == DoState::Done,
                None => final(self)@ == old(self)@ && r@ == DoState::RefreshTrees,
            },
    {
        match failure {
            Some(e) => {
                self.warn(e.as_str());
                Do::Done
            },
            None => Do::RefreshTrees,
        }
    }

    /// A new file opens straight away, in the pane content lands in, but
    /// never over a process or unsaved work.
    pub fn file_made(&self, target: PaneId, f: Path) -> (r: Do)
        ensures
            r@ == (if panes::holds_live(self@.panes, target) || panes::holds_unsaved(
                self@.panes,
                target,
            ) {
                DoState::Done
            } else {
                DoState::Open(target, f@)
            }),
    {
        if self.panes.live_in(target) || self.panes.unsaved_in(target) {
            Do::Done
        } else {
            Do::Open(target, f)
        }
    }
}

// --------------------------------------------------------- the workspace

/// Moving to another workspace, asking first if that would cost work.
pub open spec fn switching(m: DeskState, dir: PathState, is_dir: bool) -> (DeskState, DoState) {
    let n = panes::unsaved_total(m.panes);
    if !is_dir {
        (desk::warned(m, "not a folder: "@ + path::path_text(dir)), DoState::Done)
    } else if dir == m.root {
        (m, DoState::Done)
    } else if n == 0 {
        (m, DoState::OpenWorkspace(dir))
    } else {
        (
            desk::asking_about(
                m,
                PendingState::SwitchUnsaved(dir),
                "Open "@ + (match path::path_name(dir) {
                    Some(name) => name,
                    None => path::path_text(dir),
                }) + " with "@ + desk::unsaved_words(n) + "?"@,
                "Save all"@,
            ),
            DoState::Done,
        )
    }
}

/// The window title for a workspace root: the folder's name rather than the
/// whole path. A drive root has no name and falls back to itself.
pub open spec fn window_title(root: PathState) -> Seq<char> {
    (match path::path_name(root) {
        Some(n) => n,
        None => path::path_text(root),
    }) + " \u{2014} kubide"@
}

pub fn title_for(root: &Path) -> (r: String)
    ensures
        r@ == window_title(root@),
{
    let name: String = match root.file_name() {
        Some(n) => n,
        None => root.text(),
    };
    joined(name.as_str(), " \u{2014} kubide")
}

/// The files gone back through: the newest first, each once, no more than
/// twenty.
pub open spec fn recent_with(recent: Seq<PathState>, f: PathState) -> Seq<PathState> {
    if recent.len() > 0 && recent[0] == f {
        recent
    } else {
        let all = seq![f] + places::without(recent, f);
        if all.len() <= 20 { all } else { all.take(20) }
    }
}

/// Whether a file is open in another pane.
pub open spec fn open_elsewhere(s: Seq<SlotState>, pane: PaneId, f: PathState) -> bool {
    exists|i: int|
        0 <= i < s.len() && (#[trigger] s[i]).pane != pane && s[i].stack.len() > 0 && (match s[i].stack.last() {
            ContentState::Editor { path: Some(p), .. } => p == f,
            _ => false,
        })
}

/// Whether a noted file can be gone back to: not the one on screen, not open
/// in another pane, and still there.
pub open spec fn can_go_back(m: DeskState, pane: PaneId, there: Seq<bool>, i: int) -> bool {
    &&& panes::path_in(m.panes, pane) != Some(m.recent[i])
    &&& !open_elsewhere(m.panes, pane, m.recent[i])
    &&& i < there.len() && there[i]
}

/// The first noted file from `i` on that can be gone back to.
pub open spec fn back_file(m: DeskState, pane: PaneId, there: Seq<bool>, i: int) -> Option<PathState>
    decreases m.recent.len() - i,
{
    if i < 0 || i >= m.recent.len() {
        None
    } else if can_go_back(m, pane, there, i) {
        Some(m.recent[i])
    } else {
        back_file(m, pane, there, i + 1)
    }
}

/// Going back to the file shown before.
pub open spec fn going_back(m: DeskState, pane: PaneId, there: Seq<bool>) -> (DeskState, DoState) {
    if panes::holds_live(m.panes, pane) {
        (
            desk::warned(
                m,
                "something is running in this pane \u{2014} no file to switch back to"@,
            ),
            DoState::Done,
        )
    } else {
        match back_file(m, pane, there, 0) {
            None => (desk::warned(m, "no earlier file to switch back to"@), DoState::Done),
            Some(f) => if panes::holds_unsaved(m.panes, pane) {
                (
                    desk::warned(
                        m,
                        "unsaved changes there \u{2014} save first, or close the pane"@,
                    ),
                    DoState::Done,
                )
            } else {
                (m, DoState::Open(pane, f))
            },
        }
    }
}

impl Desk {
    /// Moves to another workspace. The one way in, so that every route to
    /// another folder behaves the same.
    pub fn switch_workspace(&mut self, dir: Path, is_dir: bool) -> (r: Do)
        ensures
            final(self)@ == switching(old(self)@, dir@, is_dir).0,
            r@ == switching(old(self)@, dir@, is_dir).1,
    {
        if !is_dir {
            let shown: String = dir.text();
            let message: String = joined("not a folder: ", shown.as_str());
            self.warn(message.as_str());
            return Do::Done;
        }
        if dir.same(&self.root) {
            return Do::Done;
        }
        let n: usize = self.panes.unsaved_count();
        if n == 0 {
            return Do::OpenWorkspace(dir);
        }
        let name: String = match dir.file_name() {
            Some(n) => n,
            None => dir.text(),
        };
        let words: String = unsaved_phrase(n);
        let head: String = joined3("Open ", name.as_str(), " with ");
        let question: String = joined3(head.as_str(), words.as_str(), "?");
        self.ask_about(Pending::SwitchUnsaved(dir), question.as_str(), "Save all");
        Do::Done
    }

    /// Moves the root. There is one, and everything keyed to it moves
    /// together; false when it was there already. The move is said out loud.
    pub fn set_workspace_root(&mut self, root: Path) -> (r: bool)
        ensures
            r == (root@ != old(self)@.root),
            final(self)@ == (if root@ == old(self)@.root {
                old(self)@
            } else {
                desk::warned(
                    DeskState { root: root@, ..old(self)@ },
                    "workspace root is now "@ + path::path_text(root@),
                )
            }),
    {
        if root.same(&self.root) {
            return false;
        }
        let shown: String = root.text();
        let message: String = joined("workspace root is now ", shown.as_str());
        self.root = root;
        self.warn(message.as_str());
        true
    }

    /// Notes which file the focused pane is showing, most recent first.
    pub fn note_recent(&mut self)
        ensures
            final(self)@ == (match panes::path_in(old(self)@.panes, old(self)@.focus) {
                Some(f) => DeskState { recent: recent_with(old(self)@.recent, f), ..old(self)@ },
                None => old(self)@,
            }),
    {
        let f: Path = match self.panes.file_in(self.focus) {
            Some(f) => f,
            None => {
                return;
            },
        };
        if self.recent.len() > 0 {
            assert(self@.recent[0] == self.recent@[0]@);
            if self.recent[0].same(&f) {
                return;
            }
        }
        let ghost all = places::path_list(self.recent@);
        let mut out: Vec<Path> = Vec::new();
        out.push(f.dup());
        assert(all.take(0) =~= Seq::<PathState>::empty());
        assert(places::path_list(out@) =~= seq![f@] + places::without(all.take(0), f@));
        let mut i: usize = 0;
        while i < self.recent.len()
            invariant
                i <= self.recent.len(),
                all == places::path_list(self.recent@),
                places::path_list(out@) == seq![f@] + places::without(all.take(i as int), f@),
            decreases self.recent.len() - i,
        {
            let ghost done = places::path_list(out@);
            proof {
                assert(all.take(i + 1).drop_last() =~= all.take(i as int));
                assert(all.take(i + 1).last() == self.recent@[i as int]@);
            }
            if !self.recent[i].same(&f) {
                let one: Path = self.recent[i].dup();
                out.push(one);
                assert(places::path_list(out@) =~= done.push(one@));
                assert(places::path_list(out@) =~= seq![f@] + places::without(all.take(i + 1), f@));
            }
            i = i + 1;
        }
        assert(all.take(all.len() as int) =~= all);
        let ghost whole = places::path_list(out@);
        if out.len() > 20 {
            out.truncate(20);
            assert(places::path_list(out@) =~= whole.take(20));
        }
        self.recent = out;
    }

    fn is_elsewhere(&self, pane: PaneId, f: &Path) -> (r: bool)
        ensures
            r == open_elsewhere(self@.panes, pane, f@),
    {
        let mut i: usize = 0;
        while i < self.panes.slots.len()
            invariant
                i <= self.panes.slots.len(),
                forall|k: int|
                    0 <= k < i ==> !((#[trigger] self@.panes[k]).pane != pane && self@.panes[k].stack.len()
                        > 0 && (match self@.panes[k].stack.last() {
                        ContentState::Editor { path: Some(p), .. } => p == f@,
                        _ => false,
                    })),
            decreases self.panes.slots.len() - i,
        {
            assert(self@.panes[i as int] == self.panes.slots@[i as int]@);
            let n: usize = self.panes.slots[i].stack.len();
            if self.panes.slots[i].pane != pane && n > 0 {
                assert(self@.panes[i as int].stack.last() == self.panes.slots@[i as int].stack@[n - 1]@);
                match &self.panes.slots[i].stack[n - 1] {
                    Content::Editor { path: Some(p), .. } => {
                        if p.same(f) {
                            assert(self@.panes[i as int].pane != pane);
                            return true;
                        }
                    },
                    _ => {},
                }
            }
            i = i + 1;
        }
        false
    }

    /// Back to the file a pane showed before. `there` says of each noted file
    /// whether it still exists.
    pub fn open_last_file(&mut self, pane: PaneId, there: &Vec<bool>) -> (r: Do)
        ensures
            final(self)@ == going_back(old(self)@, pane, there@).0,
            r@ == going_back(old(self)@, pane, there@).1,
    {
        if self.panes.live_in(pane) {
            self.warn("something is running in this pane \u{2014} no file to switch back to");
            return Do::Done;
        }
        let current: Option<Path> = self.panes.file_in(pane);
        let mut i: usize = 0;
        while i < self.recent.len()
            invariant
                i <= self.recent.len(),
                self@ == old(self)@,
                panes::opt_path(current) == panes::path_in(self@.panes, pane),
                !panes::holds_live(self@.panes, pane),
                back_file(self@, pane, there@, 0) == back_file(self@, pane, there@, i as int),
            decreases self.recent.len() - i,
        {
            assert(self@.recent[i as int] == self.recent@[i as int]@);
            let shown: bool = match &current {
                Some(c) => c.same(&self.recent[i]),
                None => false,
            };
            if !shown && !self.is_elsewhere(pane, &self.recent[i]) && i < there.len() && there[i] {
                assert(can_go_back(self@, pane, there@, i as int));
                if self.panes.unsaved_in(pane) {
                    self.warn("unsaved changes there \u{2014} save first, or close the pane");
                    return Do::Done;
                }
                return Do::Open(pane, self.recent[i].dup());
            }
            i = i + 1;
        }
        self.warn("no earlier file to switch back to");
        Do::Done
    }
}

// ------------------------------------------------------------- the overlay

/// What a key or a click in the overlay leads to.
#[derive(Debug, PartialEq, Eq)]
pub enum Over {
    /// Not a key of the overlay: the character it produces still arrives.
    Pass,
    /// Handled; the overlay now wants this.
    Did(Want),
    /// This was taken, and the overlay is gone.
    Took(Target),
}

/// What it leads to, as a value.
pub enum OverState {
    Pass,
    Did(Want),
    Took(TargetState),
}

impl View for Over {
    type V = OverState;

    open spec fn view(&self) -> OverState {
        match self {
            Over::Pass => OverState::Pass,
            Over::Did(w) => OverState::Did(*w),
            Over::Took(t) => OverState::Took(t@),
        }
    }
}

/// Enter in the overlay. With nothing to accept it stays open, so the query
/// can be mended rather than retyped.
pub open spec fn accepted(m: DeskState) -> (DeskState, OverState) {
    match m.palette {
        Some(p) => match palette::choice(p) {
            Some(t) => (DeskState { palette: None, ..m }, OverState::Took(t)),
            None => (m, OverState::Did(Want::Nothing)),
        },
        None => (m, OverState::Did(Want::Nothing)),
    }
}

/// A key while the overlay is open. Escape drops the prompt and whatever it
/// was collecting for, or the operation would fire on the next unrelated
/// prompt.
pub open spec fn overlay_pressed(m: DeskState, vk: u8) -> (DeskState, OverState) {
    match m.palette {
        None => (m, OverState::Pass),
        Some(p) => {
            let (q, press) = palette::pressed(p, vk);
            match press {
                Press::Pass => (m, OverState::Pass),
                Press::Drop => (
                    DeskState { palette: None, pending: None, ..m },
                    OverState::Did(Want::Nothing),
                ),
                Press::Accept => accepted(m),
                Press::Did(w) => (DeskState { palette: Some(q), ..m }, OverState::Did(w)),
            }
        },
    }
}

impl Desk {
    /// Enter in the overlay.
    pub fn palette_accept(&mut self) -> (r: Over)
        ensures
            final(self)@ == accepted(old(self)@).0,
            r@ == accepted(old(self)@).1,
    {
        let chosen: Option<Target> = match &self.palette {
            Some(p) => p.chosen(),
            None => None,
        };
        match chosen {
            Some(t) => {
                self.palette = None;
                Over::Took(t)
            },
            None => Over::Did(Want::Nothing),
        }
    }

    /// Keys while the overlay is open.
    pub fn palette_key(&mut self, vk: u8) -> (r: Over)
        ensures
            final(self)@ == overlay_pressed(old(self)@, vk).0,
            r@ == overlay_pressed(old(self)@, vk).1,
    {
        match self.palette.take() {
            None => Over::Pass,
            Some(p) => {
                let mut p: Palette = p;
                let press: Press = p.press(vk);
                match press {
                    Press::Pass => {
                        self.palette = Some(p);
                        Over::Pass
                    },
                    Press::Drop => {
                        self.pending = None;
                        Over::Did(Want::Nothing)
                    },
                    Press::Accept => {
                        self.palette = Some(p);
                        self.palette_accept()
                    },
                    Press::Did(w) => {
                        self.palette = Some(p);
                        Over::Did(w)
                    },
                }
            },
        }
    }

    /// A click on a drawn row of the overlay: selects it, and on the row
    /// already selected takes it.
    pub fn palette_click(&mut self, row: usize, count: usize) -> (r: Over)
        requires
            old(self)@.palette is Some ==> old(self)@.palette->Some_0.top + count <= usize::MAX,
        ensures
            ({
                let m = old(self)@;
                match m.palette {
                    Some(p) => if row < count {
                        let on = DeskState {
                            palette: Some(PaletteState { selected: (p.top + row) as usize, ..p }),
                            ..m
                        };
                        if p.selected == p.top + row {
                            final(self)@ == accepted(on).0 && r@ == accepted(on).1
                        } else {
                            final(self)@ == on && r@ == OverState::Did(Want::Nothing)
                        }
                    } else {
                        final(self)@ == m && r@ == OverState::Did(Want::Nothing)
                    },
                    None => final(self)@ == m && r@ == OverState::Did(Want::Nothing),
                }
            }),
            // The row clicked is the one selected, counted from the first row shown.
            old(self)@.palette matches Some(p) ==> (row < count && p.selected != p.top + row ==> (final(self)@.palette matches Some(q) && q.selected == p.top + row && q.matches == p.matches)),
    {
        match self.palette.take() {
            None => Over::Did(Want::Nothing),
            Some(p) => {
                let mut p: Palette = p;
                let again: bool = p.click(row, count);
                self.palette = Some(p);
                if again { self.palette_accept() } else { Over::Did(Want::Nothing) }
            },
        }
    }

    /// A character typed into the overlay. A question has no text box, and
    /// control characters are chords.
    pub fn palette_char(&mut self, c: char) -> (r: Want)
        ensures
            ({
                let m = old(self)@;
                match m.palette {
                    Some(p) => if p.mode != Mode::Choice && (c as u32) >= 0x20 {
                        let q = palette::requeried(p, p.query.push(c));
                        &&& final(self)@ == (DeskState { palette: Some(q), ..m })
                        &&& r == palette::wanted(q)
                    } else {
                        final(self)@ == m && r == Want::Nothing
                    },
                    None => final(self)@ == m && r == Want::Nothing,
                }
            }),
    {
        match self.palette.take() {
            None => Want::Nothing,
            Some(p) => {
                let mut p: Palette = p;
                let w: Want = if p.mode != Mode::Choice && (c as u32) >= 0x20 {
                    p.push(c)
                } else {
                    Want::Nothing
                };
                self.palette = Some(p);
                w
            },
        }
    }
}

// ------------------------------------------------------------- the session

/// What a pane is remembered as. A refusal notice, a screen or a process is
/// not worth restoring.
pub open spec fn remembered_as(s: Seq<SlotState>, p: PaneId, caret: Pos) -> PaneState {
    match panes::top_in(s, p) {
        Some(ContentState::Explorer) => PaneState::Explorer,
        Some(ContentState::Terminal) => PaneState::Terminal,
        Some(ContentState::Editor { path: Some(f), .. }) => PaneState::File(
            f,
            caret.line as nat,
            caret.col as nat,
        ),
        _ => PaneState::Empty,
    }
}

/// The caret of the pane `i` panes in.
pub open spec fn caret_at(carets: Seq<Pos>, i: int) -> Pos {
    if 0 <= i < carets.len() { carets[i] } else { Pos { line: 0, col: 0 } }
}

/// What a remembered layout puts back: the trees, and the files that are
/// still there. Shells are not restarted.
pub open spec fn put_back(saved: Seq<(nat, PaneState)>, known: Seq<PaneId>, n: int) -> Seq<SlotState>
    decreases n,
{
    if n <= 0 {
        Seq::empty()
    } else {
        let rest = put_back(saved, known, n - 1);
        let id = PaneId(saved[n - 1].0 as u64);
        if known.contains(id) && saved[n - 1].1 is Explorer {
            panes::placed(rest, id, ContentState::Explorer)
        } else {
            rest
        }
    }
}

/// The files of a remembered layout to open again, with where the caret was.
pub open spec fn files_back(saved: Seq<(nat, PaneState)>, known: Seq<PaneId>, there: Seq<bool>, n: int) -> Seq<(PaneId, PathState, nat, nat)>
    decreases n,
{
    if n <= 0 {
        Seq::empty()
    } else {
        let rest = files_back(saved, known, there, n - 1);
        let id = PaneId(saved[n - 1].0 as u64);
        match saved[n - 1].1 {
            PaneState::File(f, line, col) => if known.contains(id) && n - 1 < there.len() && there[n - 1] {
                rest.push((id, f, line, col))
            } else {
                rest
            },
            _ => rest,
        }
    }
}

/// The files of a list as values.
pub open spec fn back_list(s: Seq<(PaneId, Path, usize, usize)>) -> Seq<(PaneId, PathState, nat, nat)> {
    Seq::new(s.len(), |i: int| (s[i].0, s[i].1@, s[i].2 as nat, s[i].3 as nat))
}

/// Whether a remembered layout is put back: it holds something a person would
/// want back, and it is more than a single empty pane.
pub open spec fn restorable(saved: SessionState, known: Seq<PaneId>, there: Seq<bool>) -> bool {
    &&& session::worth_keeping(saved)
    &&& known.len() > 0
    &&& known.len() > 1 || put_back(saved.panes, known, saved.panes.len() as int).len() > 0 || files_back(
        saved.panes,
        known,
        there,
        saved.panes.len() as int,
    ).len() > 0
}

/// A file that is still there brings its layout back, in a layout of one pane
/// as in any other, and it is among the files to open.
pub proof fn a_file_brings_its_layout_back(saved: SessionState, known: Seq<PaneId>, there: Seq<bool>, i: int)
    requires
        0 <= i < saved.panes.len(),
        saved.panes[i].1 is File,
        known.contains(PaneId(saved.panes[i].0 as u64)),
        i < there.len() && there[i],
    ensures
        restorable(saved, known, there),
        ({
            let pane = saved.panes[i].1;
            files_back(saved.panes, known, there, saved.panes.len() as int).contains(
                (PaneId(saved.panes[i].0 as u64), pane->File_0, pane->File_1, pane->File_2),
            )
        }),
{
    lemma_file_back(saved.panes, known, there, i, saved.panes.len() as int);
}

proof fn lemma_file_back(saved: Seq<(nat, PaneState)>, known: Seq<PaneId>, there: Seq<bool>, i: int, n: int)
    requires
        0 <= i < n <= saved.len(),
        known.contains(PaneId(saved[i].0 as u64)),
        i < there.len() && there[i],
        saved[i].1 is File,
    ensures
        files_back(saved, known, there, n).contains(
            (
                PaneId(saved[i].0 as u64),
                saved[i].1->File_0,
                saved[i].1->File_1,
                saved[i].1->File_2,
            ),
        ),
    decreases n,
{
    let one = (PaneId(saved[i].0 as u64), saved[i].1->File_0, saved[i].1->File_1, saved[i].1->File_2);
    let all = files_back(saved, known, there, n);
    let rest = files_back(saved, known, there, n - 1);
    if i < n - 1 {
        lemma_file_back(saved, known, there, i, n - 1);
        let k = choose|k: int| 0 <= k < rest.len() && rest[k] == one;
        assert(all[k] == one);
    } else {
        assert(all[all.len() - 1] == one);
    }
}

fn known_pane(known: &Vec<PaneId>, p: PaneId) -> (r: bool)
    ensures
        r == known@.contains(p),
{
    let mut i: usize = 0;
    while i < known.len()
        invariant
            i <= known.len(),
            forall|k: int| 0 <= k < i ==> known@[k] != p,
        decreases known.len() - i,
    {
        if known[i] == p {
            assert(known@.contains(p));
            return true;
        }
        i = i + 1;
    }
    false
}

impl Desk {
    /// Describes the current layout for saving. `carets` holds the caret of
    /// each pane of `ids`.
    pub fn session(&self, layout: Desc, ids: &Vec<PaneId>, carets: &Vec<Pos>) -> (r: Session)
        ensures
            r@.layout == layout@,
            r@.focus == self@.focus.0,
            r@.panes == Seq::new(
                ids@.len(),
                |i: int|
                    (
                        ids@[i].0 as nat,
                        remembered_as(self@.panes, ids@[i], caret_at(carets@, i)),
                    ),
            ),
    {
        let mut list: Vec<(PaneId, Pane)> = Vec::new();
        let mut i: usize = 0;
        while i < ids.len()
            invariant
                i <= ids.len(),
                list.len() == i,
                forall|k: int|
                    0 <= k < i ==> (#[trigger] list@[k]).0 == ids@[k] && list@[k].1@ == remembered_as(
                        self@.panes,
                        ids@[k],
                        caret_at(carets@, k),
                    ),
            decreases ids.len() - i,
        {
            let caret: Pos = if i < carets.len() { carets[i] } else { Pos { line: 0, col: 0 } };
            let what: Pane = match self.panes.top(ids[i]) {
                Some(Content::Explorer) => Pane::Explorer,
                Some(Content::Terminal) => Pane::Terminal,
                Some(Content::Editor { path: Some(f), .. }) => Pane::File(f.dup(), caret.line, caret.col),
                _ => Pane::Empty,
            };
            list.push((ids[i], what));
            i = i + 1;
        }
        let ghost want = Seq::new(
            ids@.len(),
            |i: int|
                (ids@[i].0 as nat, remembered_as(self@.panes, ids@[i], caret_at(carets@, i))),
        );
        assert(session::pane_list(list@) =~= want);
        Session { layout, panes: list, focus: self.focus }
    }

    /// Whether the layout on screen is worth remembering: the welcome screen
    /// is a doorway, not a layout.
    pub fn remembers(&self) -> (r: bool)
        ensures
            r == !panes::any_welcome(self@.panes, 0),
    {
        !self.panes.welcoming()
    }

    /// Rebuilds a saved layout. `known` are the panes the layout came to
    /// have, `there` says of each saved pane whether its file is still there.
    /// Gives the files to open, or nothing when there was nothing usable: a
    /// single empty pane is not worth restoring over the normal start.
    pub fn restore_session(&mut self, saved: &Session, known: &Vec<PaneId>, there: &Vec<bool>) -> (r: Option<
        Vec<(PaneId, Path, usize, usize)>,
    >)
        ensures
            match r {
                None => final(self)@ == old(self)@ && !restorable(saved@, known@, there@),
                Some(files) => {
                    &&& restorable(saved@, known@, there@)
                    &&& back_list(files@) == files_back(
                        saved@.panes,
                        known@,
                        there@,
                        saved@.panes.len() as int,
                    )
                    &&& final(self)@ == (DeskState {
                        panes: put_back(saved@.panes, known@, saved@.panes.len() as int),
                        focus: if known@.contains(saved.focus) { saved.focus } else { known@[0] },
                        ..old(self)@
                    })
                },
            },
    {
        if !saved.worth_restoring() || known.len() == 0 {
            return None;
        }
        let mut fresh: Panes = Panes::new();
        let mut files: Vec<(PaneId, Path, usize, usize)> = Vec::new();
        let ghost all = saved@.panes;
        assert(back_list(files@) =~= Seq::empty());
        let mut i: usize = 0;
        while i < saved.panes.len()
            invariant
                i <= saved.panes.len(),
                all == session::pane_list(saved.panes@),
                fresh@ == put_back(all, known@, i as int),
                back_list(files@) == files_back(all, known@, there@, i as int),
            decreases saved.panes.len() - i,
        {
            let ghost done = back_list(files@);
            let id: PaneId = saved.panes[i].0;
            assert(all[i as int] == (id.0 as nat, saved.panes@[i as int].1@));
            assert(PaneId(all[i as int].0 as u64) == id);
            if known_pane(known, id) {
                match &saved.panes[i].1 {
                    Pane::Explorer => {
                        fresh.place(id, Content::Explorer);
                    },
                    Pane::Terminal | Pane::Empty => {},
                    Pane::File(f, line, col) => {
                        if i < there.len() && there[i] {
                            let one: (PaneId, Path, usize, usize) = (id, f.dup(), *line, *col);
                            files.push(one);
                            assert(back_list(files@) =~= done.push(
                                (id, one.1@, one.2 as nat, one.3 as nat),
                            ));
                        }
                    },
                }
            }
            i = i + 1;
        }
        proof {
            assert(fresh@.len() == fresh.slots@.len());
            assert(back_list(files@).len() == files@.len());
        }
        if known.len() == 1 && fresh.slots.len() == 0 && files.len() == 0 {
            return None;
        }
        self.panes = fresh;
        self.focus = if known_pane(known, saved.focus) { saved.focus } else { known[0] };
        Some(files)
    }
}

// ---------------------------------------------------------------- resizing

/// How the focused pane's size changes: which divider moves, the trailing one
/// or the leading one, and by how much. A pane against the window edge has no
/// divider on that side, so the opposite one moves instead and the sign
/// flips: "wider" is true wherever the pane sits.
pub open spec fn resize_plan(trailing: bool, leading: bool, grow: bool) -> Option<(bool, int)> {
    let step: int = if grow { 24 } else { -24 };
    if trailing {
        Some((true, step))
    } else if leading {
        Some((false, -step))
    } else {
        None
    }
}

pub fn resize_step(trailing: bool, leading: bool, grow: bool) -> (r: Option<(bool, i32)>)
    ensures
        match r {
            Some((on_trailing, by)) => resize_plan(trailing, leading, grow) == Some((on_trailing, by as int)),
            None => resize_plan(trailing, leading, grow) is None,
        },
{
    let step: i32 = if grow { 24 } else { -24 };
    if trailing {
        Some((true, step))
    } else if leading {
        Some((false, -step))
    } else {
        None
    }
}

/// Every occurrence, to be replaced in one go: where each is and how long.
pub open spec fn ranges_of(needle: nat, places: Seq<Seq<usize>>) -> Seq<(Pos, nat)> {
    let all = palette::occurrences_in(places, places.len() as int);
    Seq::new(all.len(), |i: int| (Pos { line: all[i].0 as usize, col: all[i].1 }, needle))
}

/// What is said of a replacement.
pub open spec fn replaced_words(n: nat) -> Seq<char> {
    "replaced "@ + text::decimal(n) + " occurrence"@ + (if n == 1 { ""@ } else { "s"@ })
}

pub fn replaced_text(n: usize) -> (r: String)
    ensures
        r@ == replaced_words(n as nat),
{
    let count: String = decimal_text(n as u64);
    let head: String = joined3("replaced ", count.as_str(), " occurrence");
    joined(head.as_str(), if n == 1 { "" } else { "s" })
}

/// The ranges of a list as values.
pub open spec fn range_list(s: Seq<(Pos, usize)>) -> Seq<(Pos, nat)> {
    Seq::new(s.len(), |i: int| (s[i].0, s[i].1 as nat))
}

/// The ranges to replace: exactly the places find would have shown, without
/// its limit.
pub fn replace_ranges(needle: &str, found: &Vec<Vec<usize>>) -> (r: Vec<(Pos, usize)>)
    ensures
        range_list(r@) == ranges_of(needle@.len(), palette::column_lists(found@)),
{
    let n: usize = needle.unicode_len();
    let ghost cols = palette::column_lists(found@);
    let mut out: Vec<(Pos, usize)> = Vec::new();
    let mut i: usize = 0;
    while i < found.len()
        invariant
            i <= found.len(),
            n == needle@.len(),
            cols == palette::column_lists(found@),
            out.len() == palette::occurrences_in(cols, i as int).len(),
            forall|k: int|
                0 <= k < out@.len() ==> (#[trigger] out@[k]) == (
                    Pos {
                        line: palette::occurrences_in(cols, i as int)[k].0 as usize,
                        col: palette::occurrences_in(cols, i as int)[k].1,
                    },
                    n,
                ),
        decreases found.len() - i,
    {
        let ghost before = palette::occurrences_in(cols, i as int);
        let ghost after = palette::occurrences_in(cols, i + 1);
        assert(cols[i as int] == found@[i as int]@);
        let mut j: usize = 0;
        while j < found[i].len()
            invariant
                i < found.len(),
                j <= found@[i as int]@.len(),
                cols == palette::column_lists(found@),
                cols[i as int] == found@[i as int]@,
                before == palette::occurrences_in(cols, i as int),
                after == palette::occurrences_in(cols, i + 1),
                after.len() == before.len() + found@[i as int]@.len(),
                out.len() == before.len() + j,
                forall|k: int|
                    0 <= k < out@.len() ==> (#[trigger] out@[k]) == (
                        Pos { line: after[k].0 as usize, col: after[k].1 },
                        n,
                    ),
            decreases found@[i as int]@.len() - j,
        {
            let col: usize = found[i][j];
            assert(after[before.len() + j] == (i as nat, col));
            out.push((Pos { line: i, col }, n));
            j = j + 1;
        }
        i = i + 1;
    }
    assert(range_list(out@) =~= ranges_of(needle@.len(), cols));
    out
}

/// Replacing in what a pane shows: the ranges to replace, as one step to undo.
/// Only text is replaced in, and finding nothing is said.
pub open spec fn replacing(m: DeskState, needle: Seq<char>, cols: Seq<Seq<usize>>) -> (
    DeskState,
    Option<Seq<(Pos, nat)>>,
) {
    let ranges = ranges_of(needle.len(), cols);
    if !(panes::top_in(m.panes, m.focus) matches Some(ContentState::Editor { .. })) {
        (m, None)
    } else if ranges.len() == 0 {
        (desk::warned(m, "no match for '"@ + needle + "'"@), None)
    } else {
        (m, Some(ranges))
    }
}

impl Desk {
    /// Replaces every occurrence in the focused editor. `found` holds, line by
    /// line, the columns at which the text to replace occurs.
    pub fn replace_all(&mut self, needle: &str, found: &Vec<Vec<usize>>) -> (r: Option<Vec<(Pos, usize)>>)
        ensures
            ({
                let (state, ranges) = replacing(old(self)@, needle@, palette::column_lists(found@));
                &&& final(self)@ == state
                &&& match r {
                    Some(list) => ranges == Some(range_list(list@)),
                    None => ranges is None,
                }
            }),
    {
        match self.panes.top(self.focus) {
            Some(Content::Editor { .. }) => {},
            _ => {
                return None;
            },
        }
        let ranges: Vec<(Pos, usize)> = replace_ranges(needle, found);
        assert(range_list(ranges@).len() == ranges.len());
        if ranges.len() == 0 {
            let message: String = joined3("no match for '", needle, "'");
            self.warn(message.as_str());
            return None;
        }
        Some(ranges)
    }
}

// -------------------------------------------------------------------- laws

/// A command by itself changes no pane: whatever it costs is a step of its
/// own, taken after what it asks.
pub proof fn a_command_alone_loses_nothing(m: DeskState, a: crate::action::Action, f: desk::Facts)
    ensures
        desk::ran(m, a, f).0.panes == m.panes,
{
}

/// Unsaved work cannot vanish from one keystroke: closing its pane is asked
/// about, with saving the first answer.
pub proof fn closing_asks_about_unsaved_work(m: DeskState, f: desk::Facts)
    requires
        panes::holds_unsaved(m.panes, m.focus),
    ensures
        ({
            let (n, todo) = desk::ran(m, crate::action::Action::ClosePane, f);
            &&& todo == DoState::Done
            &&& n.pending == Some(PendingState::CloseUnsaved(m.focus))
            &&& n.palette is Some
            &&& n.palette->Some_0.mode == Mode::Choice
            &&& n.palette->Some_0.items == seq!["Save"@, "Discard"@, "Cancel"@]
        }),
{
}

/// Quitting with unsaved work anywhere is never done at once.
pub proof fn quitting_asks_about_unsaved_work(m: DeskState, f: desk::Facts)
    requires
        panes::unsaved_total(m.panes) > 0,
    ensures
        desk::ran(m, crate::action::Action::Quit, f).1 == DoState::Done,
        desk::ran(m, crate::action::Action::Quit, f).0.pending == Some(PendingState::QuitUnsaved),
        !desk::quitting(m).1,
{
}

/// A failed save discards nothing: with work still unsaved after choosing to
/// save, nothing closes, nothing is opened over it, the workspace stays and
/// the program runs on.
pub proof fn a_failed_save_discards_nothing(m: DeskState)
    requires
        match m.pending {
            Some(PendingState::ReplaceUnsaved(p, _)) => panes::holds_unsaved(m.panes, p),
            Some(PendingState::CloseUnsaved(p)) => panes::holds_unsaved(m.panes, p),
            Some(PendingState::SwitchUnsaved(_)) => panes::unsaved_total(m.panes) > 0,
            Some(PendingState::QuitUnsaved) => panes::unsaved_total(m.panes) > 0,
            _ => false,
        },
    ensures
        answered(m, SAVE as nat).1 == DoState::Done,
        answered(m, SAVE as nat).0.notice is Some,
        answered(m, SAVE as nat).0.panes == m.panes,
{
}

/// Anything but save and discard is a cancel.
pub proof fn any_other_answer_cancels(m: DeskState, index: nat)
    requires
        index != SAVE,
        index != DISCARD,
    ensures
        answered(m, index).1 == DoState::Done,
        answered(m, index).0 == (DeskState { pending: None, ..m }),
{
}

/// An answer never arrives at the wrong operation later: Escape drops the
/// question with the overlay, and an answered question is gone.
pub proof fn a_dropped_question_stays_dropped(m: DeskState, index: nat)
    requires
        m.palette is Some,
    ensures
        overlay_pressed(m, 0x1B).0.pending is None,
        answered(overlay_pressed(m, 0x1B).0, index).1 == DoState::Done,
        answered(m, index).0.pending is None,
{
}

/// A confirmation does not survive another command: only the same key again,
/// with nothing between, goes through with it.
pub proof fn a_confirmation_does_not_survive(m: DeskState, a: crate::action::Action, f: desk::Facts, g: desk::Facts)
    requires
        a != crate::action::Action::Delete,
    ensures
        !(desk::ran(desk::ran(m, a, f).0, crate::action::Action::Delete, g).1 is Delete),
{
}

/// Whoever presses close on a pane with unsaved work and then Escape is back
/// where they were, with the work still there.
pub proof fn escape_undoes_the_question(m: DeskState, f: desk::Facts)
    requires
        panes::holds_unsaved(m.panes, m.focus),
        m.palette is None,
        m.pending is None,
        m.confirm is None,
        m.notice is None,
    ensures
        overlay_pressed(desk::ran(m, crate::action::Action::ClosePane, f).0, 0x1B).0 == m,
{
}

/// The noted files hold each file once, the newest first, and never more than
/// twenty.
pub proof fn a_noted_file_comes_first(recent: Seq<PathState>, f: PathState)
    requires
        recent.len() <= 20,
    ensures
        recent_with(recent, f).len() > 0,
        recent_with(recent, f)[0] == f,
        recent_with(recent, f).len() <= 20,
{
}

/// "Wider" widens wherever the pane sits: the divider on its far side moves
/// out, or the one on its near side moves back.
pub proof fn wider_is_wider_everywhere(trailing: bool, leading: bool)
    ensures
        resize_plan(trailing, leading, true) matches Some((on_trailing, by)) ==> (if on_trailing {
            by > 0
        } else {
            by < 0
        }),
        resize_plan(trailing, leading, true) is None <==> !trailing && !leading,
{
}

} // verus!
