//! The window's panes: which pane holds what, where the next thing lands,
//! and what is still unsaved.
//!
//! One list of pane and content rather than one list per kind. A pane shows
//! exactly one thing; a settings screen or a git panel keeps what it covers
//! under itself, so leaving it puts that back.
use vstd::prelude::*;
use vstd::string::*;
use crate::path;
use crate::path::{Path, PathState};
use crate::session::{Axis, PaneId};

verus! {

/// What a pane holds, as far as deciding about it goes.
#[derive(Debug, PartialEq, Eq)]
pub enum Content {
    Terminal,
    Agent,
    Explorer,
    /// An open file, and whether it has unsaved changes.
    Editor { path: Option<Path>, modified: bool },
    /// Only for files that are not opened: binary, too large, unreadable.
    Viewer,
    Settings,
    Git,
    /// What a bare start shows when it does not recognise where it is.
    Welcome,
}

/// What a pane holds as a value.
pub enum ContentState {
    Terminal,
    Agent,
    Explorer,
    Editor { path: Option<PathState>, modified: bool },
    Viewer,
    Settings,
    Git,
    Welcome,
}

/// A path as a value, or nothing.
pub open spec fn opt_path(p: Option<Path>) -> Option<PathState> {
    match p {
        Some(p) => Some(p@),
        None => None,
    }
}

impl View for Content {
    type V = ContentState;

    open spec fn view(&self) -> ContentState {
        match self {
            Content::Terminal => ContentState::Terminal,
            Content::Agent => ContentState::Agent,
            Content::Explorer => ContentState::Explorer,
            Content::Editor { path, modified } => ContentState::Editor {
                path: opt_path(*path),
                modified: *modified,
            },
            Content::Viewer => ContentState::Viewer,
            Content::Settings => ContentState::Settings,
            Content::Git => ContentState::Git,
            Content::Welcome => ContentState::Welcome,
        }
    }
}

/// Whether something is running in it: replacing it would end a process.
pub open spec fn runs(c: ContentState) -> bool {
    c is Terminal || c is Agent
}

/// Whether it is an editor with unsaved changes.
pub open spec fn is_unsaved(c: ContentState) -> bool {
    match c {
        ContentState::Editor { modified, .. } => modified,
        _ => false,
    }
}

impl Content {
    pub fn is_live(&self) -> (r: bool)
        ensures
            r == runs(self@),
    {
        matches!(self, Content::Terminal | Content::Agent)
    }

    pub fn unsaved(&self) -> (r: bool)
        ensures
            r == is_unsaved(self@),
    {
        match self {
            Content::Editor { modified, .. } => *modified,
            _ => false,
        }
    }

    /// What opening a file puts into a pane: an editor, or for a file that is
    /// refused, the notice why.
    pub fn open_path(path: Path, refused: bool) -> (r: Content)
        ensures
            r@ == opened_as(path@, refused),
    {
        if refused {
            Content::Viewer
        } else {
            Content::Editor { path: Some(path), modified: false }
        }
    }
}

/// What opening a file puts into a pane.
pub open spec fn opened_as(path: PathState, refused: bool) -> ContentState {
    if refused {
        ContentState::Viewer
    } else {
        ContentState::Editor { path: Some(path), modified: false }
    }
}

/// A pane and what is in it, with what that covers under it.
#[derive(Debug)]
pub struct Slot {
    pub pane: PaneId,
    pub stack: Vec<Content>,
}

/// A slot as a value.
pub struct SlotState {
    pub pane: PaneId,
    pub stack: Seq<ContentState>,
}

/// The contents of a stack as values.
pub open spec fn stack_list(s: Seq<Content>) -> Seq<ContentState> {
    Seq::new(s.len(), |i: int| s[i]@)
}

impl View for Slot {
    type V = SlotState;

    open spec fn view(&self) -> SlotState {
        SlotState { pane: self.pane, stack: stack_list(self.stack@) }
    }
}

/// The slots of a list as values.
pub open spec fn slot_list(s: Seq<Slot>) -> Seq<SlotState> {
    Seq::new(s.len(), |i: int| s[i]@)
}

/// Where a pane is in the list, from `i` on: past the end when it is empty.
pub open spec fn slot_of(s: Seq<SlotState>, p: PaneId, i: int) -> int
    decreases s.len() - i,
{
    if i < 0 || i >= s.len() || s[i].pane == p {
        i
    } else {
        slot_of(s, p, i + 1)
    }
}

/// What a pane holds, the topmost last.
pub open spec fn stack_in(s: Seq<SlotState>, p: PaneId) -> Seq<ContentState> {
    let k = slot_of(s, p, 0);
    if k < s.len() { s[k].stack } else { Seq::empty() }
}

/// What a pane shows.
pub open spec fn top_in(s: Seq<SlotState>, p: PaneId) -> Option<ContentState> {
    if stack_in(s, p).len() == 0 { None } else { Some(stack_in(s, p).last()) }
}

/// The list with a pane holding that.
pub open spec fn put(s: Seq<SlotState>, p: PaneId, stack: Seq<ContentState>) -> Seq<SlotState> {
    let k = slot_of(s, p, 0);
    if k < s.len() {
        s.update(k, SlotState { pane: p, stack })
    } else {
        s.push(SlotState { pane: p, stack })
    }
}

/// The list with a pane emptied.
pub open spec fn without(s: Seq<SlotState>, p: PaneId) -> Seq<SlotState> {
    let k = slot_of(s, p, 0);
    if k < s.len() { s.remove(k) } else { s }
}

/// The list with a pane showing that and nothing under it.
pub open spec fn placed(s: Seq<SlotState>, p: PaneId, c: ContentState) -> Seq<SlotState> {
    put(s, p, seq![c])
}

/// The list with a pane showing that, and what it showed kept under it.
pub open spec fn covered(s: Seq<SlotState>, p: PaneId, c: ContentState) -> Seq<SlotState> {
    put(s, p, stack_in(s, p).push(c))
}

/// The list with what a pane shows taken away, and what that covered back.
pub open spec fn uncovered(s: Seq<SlotState>, p: PaneId) -> Seq<SlotState> {
    if stack_in(s, p).len() <= 1 {
        without(s, p)
    } else {
        put(s, p, stack_in(s, p).drop_last())
    }
}

/// No pane is listed twice, and none that holds nothing.
pub open spec fn tidy(s: Seq<SlotState>) -> bool {
    &&& forall|i: int, j: int| 0 <= i < j < s.len() ==> (#[trigger] s[i]).pane != (#[trigger] s[j]).pane
    &&& forall|i: int| 0 <= i < s.len() ==> (#[trigger] s[i]).stack.len() > 0
}

/// How many of the first `n` panes hold unsaved work.
pub open spec fn unsaved_in_first(s: Seq<SlotState>, n: int) -> nat
    decreases n,
{
    if n <= 0 {
        0
    } else {
        unsaved_in_first(s, n - 1) + (if s[n - 1].stack.len() > 0 && is_unsaved(s[n - 1].stack.last()) {
            1nat
        } else {
            0
        })
    }
}

/// How many panes hold unsaved work.
pub open spec fn unsaved_total(s: Seq<SlotState>) -> nat {
    unsaved_in_first(s, s.len() as int)
}

pub proof fn lemma_slot_of(s: Seq<SlotState>, p: PaneId, i: int)
    requires
        0 <= i <= s.len(),
    ensures
        i <= slot_of(s, p, i) <= s.len(),
        slot_of(s, p, i) < s.len() ==> s[slot_of(s, p, i)].pane == p,
        forall|k: int| i <= k < slot_of(s, p, i) ==> (#[trigger] s[k]).pane != p,
    decreases s.len() - i,
{
    if i < s.len() && s[i].pane != p {
        lemma_slot_of(s, p, i + 1);
    }
}

proof fn lemma_slot_unique(s: Seq<SlotState>, p: PaneId, i: int, k: int)
    requires
        0 <= i <= k <= s.len(),
        k < s.len() ==> s[k].pane == p,
        forall|j: int| i <= j < k ==> (#[trigger] s[j]).pane != p,
    ensures
        slot_of(s, p, i) == k,
    decreases k - i,
{
    if i < k {
        lemma_slot_unique(s, p, i + 1, k);
    }
}

/// Putting something into one pane changes that pane and no other.
pub proof fn putting_touches_one_pane(s: Seq<SlotState>, p: PaneId, stack: Seq<ContentState>, q: PaneId)
    ensures
        stack_in(put(s, p, stack), q) == (if q == p { stack } else { stack_in(s, q) }),
{
    lemma_slot_of(s, p, 0);
    lemma_slot_of(s, q, 0);
    let k = slot_of(s, p, 0);
    let t = put(s, p, stack);
    if q == p {
        lemma_slot_unique(t, p, 0, k);
    } else {
        let j = slot_of(s, q, 0);
        if j < s.len() {
            lemma_slot_unique(t, q, 0, j);
        } else {
            assert forall|i: int| 0 <= i < t.len() implies (#[trigger] t[i]).pane != q by {
                if i < s.len() {
                    assert(s[i].pane != q);
                }
            }
            lemma_slot_unique(t, q, 0, t.len() as int);
        }
    }
}

/// Emptying one pane changes that pane and no other.
pub proof fn emptying_touches_one_pane(s: Seq<SlotState>, p: PaneId, q: PaneId)
    requires
        tidy(s),
    ensures
        stack_in(without(s, p), q) == (if q == p { Seq::<ContentState>::empty() } else { stack_in(s, q) }),
{
    lemma_slot_of(s, p, 0);
    lemma_slot_of(s, q, 0);
    let k = slot_of(s, p, 0);
    let t = without(s, p);
    if k < s.len() {
        let j = slot_of(s, q, 0);
        if q == p || j >= s.len() {
            assert forall|i: int| 0 <= i < t.len() implies (#[trigger] t[i]).pane != q by {
                if i < k {
                    assert(t[i] == s[i]);
                } else {
                    assert(t[i] == s[i + 1]);
                    if q == p {
                        assert(s[k].pane != s[i + 1].pane);
                    }
                }
            }
            lemma_slot_unique(t, q, 0, t.len() as int);
        } else if j < k {
            assert(t[j] == s[j]);
            assert forall|i: int| 0 <= i < j implies (#[trigger] t[i]).pane != q by {
                assert(t[i] == s[i]);
            }
            lemma_slot_unique(t, q, 0, j);
        } else {
            assert(t[j - 1] == s[j]);
            assert forall|i: int| 0 <= i < j - 1 implies (#[trigger] t[i]).pane != q by {
                if i < k {
                    assert(t[i] == s[i]);
                } else {
                    assert(t[i] == s[i + 1]);
                }
            }
            lemma_slot_unique(t, q, 0, j - 1);
        }
    } else if q == p {
        assert(stack_in(s, p) =~= Seq::<ContentState>::empty());
    }
}

/// Whatever is put in or taken out, no pane comes to be listed twice.
pub proof fn the_list_stays_tidy(s: Seq<SlotState>, p: PaneId, stack: Seq<ContentState>)
    requires
        tidy(s),
        stack.len() > 0,
    ensures
        tidy(put(s, p, stack)),
        tidy(without(s, p)),
{
    lemma_slot_of(s, p, 0);
    let k = slot_of(s, p, 0);
    let t = put(s, p, stack);
    let w = without(s, p);
    assert forall|i: int, j: int| 0 <= i < j < t.len() implies (#[trigger] t[i]).pane != (#[trigger] t[j]).pane by {
        if j < s.len() {
            assert(s[i].pane != s[j].pane);
        } else {
            assert(s[i].pane != p);
        }
    }
    if k < s.len() {
        assert forall|i: int, j: int| 0 <= i < j < w.len() implies (#[trigger] w[i]).pane != (#[trigger] w[j]).pane by {
            let a = if i < k { i } else { i + 1 };
            let b = if j < k { j } else { j + 1 };
            assert(w[i] == s[a] && w[j] == s[b]);
            assert(s[a].pane != s[b].pane);
        }
        assert forall|i: int| 0 <= i < w.len() implies (#[trigger] w[i]).stack.len() > 0 by {
            assert(w[i] == s[if i < k { i } else { i + 1 }]);
        }
    }
}

/// Leaving a screen that was opened over something puts that back, exactly as
/// it was left.
pub proof fn leaving_puts_back_what_was_covered(s: Seq<SlotState>, p: PaneId, c: ContentState, q: PaneId)
    requires
        tidy(s),
    ensures
        stack_in(uncovered(covered(s, p, c), p), q) == stack_in(s, q),
{
    let over = covered(s, p, c);
    let before = stack_in(s, p);
    putting_touches_one_pane(s, p, before.push(c), p);
    putting_touches_one_pane(s, p, before.push(c), q);
    assert(before.push(c).drop_last() =~= before);
    the_list_stays_tidy(s, p, before.push(c));
    if before.len() == 0 {
        emptying_touches_one_pane(over, p, q);
        assert(before =~= Seq::<ContentState>::empty());
    } else {
        putting_touches_one_pane(over, p, before, q);
    }
}

// ---------------------------------------------------------------- the panes

/// The panes next to a pane, as the layout has them.
#[derive(Clone, Copy, Debug, PartialEq, Eq, Structural)]
pub struct Around {
    pub left: Option<PaneId>,
    pub right: Option<PaneId>,
    pub up: Option<PaneId>,
    pub down: Option<PaneId>,
}

/// The first of two that is there.
pub open spec fn first_of(a: Option<PaneId>, b: Option<PaneId>) -> Option<PaneId> {
    match a {
        Some(p) => Some(p),
        None => b,
    }
}

/// Which pane holds what.
#[derive(Debug)]
pub struct Panes {
    pub slots: Vec<Slot>,
}

impl View for Panes {
    type V = Seq<SlotState>;

    open spec fn view(&self) -> Seq<SlotState> {
        slot_list(self.slots@)
    }
}

/// What a pane shows, when that is of a kind: the first such pane from `i`
/// on.
pub open spec fn first_with(s: Seq<SlotState>, want: ContentState, i: int) -> Option<PaneId>
    decreases s.len() - i,
{
    if i < 0 || i >= s.len() {
        None
    } else if s[i].stack.len() > 0 && s[i].stack.last() == want {
        Some(s[i].pane)
    } else {
        first_with(s, want, i + 1)
    }
}

impl Panes {
    pub fn new() -> (r: Panes)
        ensures
            r@ == Seq::<SlotState>::empty(),
            tidy(r@),
    {
        let r: Panes = Panes { slots: Vec::new() };
        assert(r@ =~= Seq::<SlotState>::empty());
        r
    }

    fn at(&self, p: PaneId) -> (r: usize)
        ensures
            r == slot_of(self@, p, 0),
            r <= self.slots@.len(),
    {
        let mut i: usize = 0;
        while i < self.slots.len() && self.slots[i].pane != p
            invariant
                i <= self.slots.len(),
                slot_of(self@, p, 0) == slot_of(self@, p, i as int),
            decreases self.slots.len() - i,
        {
            assert(self@[i as int] == self.slots@[i as int]@);
            i = i + 1;
        }
        if i < self.slots.len() {
            assert(self@[i as int] == self.slots@[i as int]@);
        }
        i
    }

    /// What a pane shows.
    pub fn top(&self, p: PaneId) -> (r: Option<&Content>)
        ensures
            match r {
                Some(c) => top_in(self@, p) == Some(c@),
                None => top_in(self@, p) is None,
            },
    {
        let k: usize = self.at(p);
        if k >= self.slots.len() {
            return None;
        }
        assert(self@[k as int] == self.slots@[k as int]@);
        let n: usize = self.slots[k].stack.len();
        if n == 0 {
            return None;
        }
        assert(self@[k as int].stack.last() == self.slots@[k as int].stack@[n - 1]@);
        Some(&self.slots[k].stack[n - 1])
    }

    /// A pane shows this, and nothing is under it.
    pub fn place(&mut self, p: PaneId, c: Content)
        ensures
            final(self)@ == placed(old(self)@, p, c@),
    {
        let mut stack: Vec<Content> = Vec::new();
        stack.push(c);
        assert(stack_list(stack@) =~= seq![c@]);
        self.set(p, stack);
    }

    fn set(&mut self, p: PaneId, stack: Vec<Content>)
        ensures
            final(self)@ == put(old(self)@, p, stack_list(stack@)),
    {
        let ghost before = self@;
        let k: usize = self.at(p);
        let slot: Slot = Slot { pane: p, stack };
        if k < self.slots.len() {
            self.slots.set(k, slot);
            assert(self@ =~= before.update(k as int, slot@));
        } else {
            self.slots.push(slot);
            assert(self@ =~= before.push(slot@));
        }
    }

    /// Everything in a pane, taken out.
    pub fn take(&mut self, p: PaneId) -> (r: Vec<Content>)
        ensures
            stack_list(r@) == stack_in(old(self)@, p),
            final(self)@ == without(old(self)@, p),
    {
        let ghost before = self@;
        let k: usize = self.at(p);
        if k < self.slots.len() {
            assert(self@[k as int] == self.slots@[k as int]@);
            let slot: Slot = self.slots.remove(k);
            assert(self@ =~= before.remove(k as int));
            slot.stack
        } else {
            let none: Vec<Content> = Vec::new();
            assert(stack_list(none@) =~= Seq::<ContentState>::empty());
            none
        }
    }

    /// A pane shows this over what it showed.
    pub fn cover(&mut self, p: PaneId, c: Content)
        ensures
            final(self)@ == covered(old(self)@, p, c@),
    {
        let ghost before = self@;
        let k: usize = self.at(p);
        if k < self.slots.len() {
            assert(self@[k as int] == self.slots@[k as int]@);
            let mut slot: Slot = self.slots.remove(k);
            let ghost under = stack_list(slot.stack@);
            slot.stack.push(c);
            assert(stack_list(slot.stack@) =~= under.push(c@));
            proof {
                lemma_slot_of(before, p, 0);
            }
            self.slots.insert(k, slot);
            assert(self@ =~= before.update(k as int, slot@));
        } else {
            let mut stack: Vec<Content> = Vec::new();
            stack.push(c);
            assert(stack_list(stack@) =~= Seq::<ContentState>::empty().push(c@));
            let slot: Slot = Slot { pane: p, stack };
            self.slots.push(slot);
            assert(self@ =~= before.push(slot@));
        }
    }

    /// What a pane shows is gone, and what that covered is back.
    pub fn uncover(&mut self, p: PaneId)
        ensures
            final(self)@ == uncovered(old(self)@, p),
    {
        let ghost before = self@;
        let k: usize = self.at(p);
        if k >= self.slots.len() {
            return;
        }
        proof {
            lemma_slot_of(before, p, 0);
            assert(before[k as int] == self.slots@[k as int]@);
        }
        let mut slot: Slot = self.slots.remove(k);
        let ghost was = stack_list(slot.stack@);
        let _top: Option<Content> = slot.stack.pop();
        if slot.stack.len() == 0 {
            assert(self@ =~= before.remove(k as int));
            return;
        }
        assert(stack_list(slot.stack@) =~= was.drop_last());
        self.slots.insert(k, slot);
        assert(self@ =~= before.update(k as int, slot@));
    }

    /// Whether a pane holds an editor with unsaved changes.
    pub fn unsaved_in(&self, p: PaneId) -> (r: bool)
        ensures
            r == holds_unsaved(self@, p),
    {
        match self.top(p) {
            Some(c) => c.unsaved(),
            None => false,
        }
    }

    /// Whether something is running in a pane.
    pub fn live_in(&self, p: PaneId) -> (r: bool)
        ensures
            r == holds_live(self@, p),
    {
        match self.top(p) {
            Some(c) => c.is_live(),
            None => false,
        }
    }

    pub fn unsaved_count(&self) -> (r: usize)
        ensures
            r == unsaved_total(self@),
    {
        let mut n: usize = 0;
        let mut i: usize = 0;
        while i < self.slots.len()
            invariant
                i <= self.slots.len(),
                n <= i,
                n == unsaved_in_first(self@, i as int),
            decreases self.slots.len() - i,
        {
            assert(self@[i as int] == self.slots@[i as int]@);
            let m: usize = self.slots[i].stack.len();
            if m > 0 {
                assert(self@[i as int].stack.last() == self.slots@[i as int].stack@[m - 1]@);
                if self.slots[i].stack[m - 1].unsaved() {
                    n = n + 1;
                }
            }
            i = i + 1;
        }
        n
    }

    /// The file name in a pane, for asking about it by name.
    pub fn file_name_in(&self, p: PaneId) -> (r: String)
        ensures
            r@ == name_in(self@, p),
    {
        match self.top(p) {
            Some(Content::Editor { path: Some(f), .. }) => match f.file_name() {
                Some(n) => n,
                None => "This file".to_owned(),
            },
            _ => "This file".to_owned(),
        }
    }

    /// The file a pane has open.
    pub fn file_in(&self, p: PaneId) -> (r: Option<Path>)
        ensures
            opt_path(r) == path_in(self@, p),
    {
        match self.top(p) {
            Some(Content::Editor { path: Some(f), .. }) => Some(f.dup()),
            _ => None,
        }
    }

    fn first_where(&self, want: &Content) -> (r: Option<PaneId>)
        requires
            want is Terminal || want is Agent || want is Explorer,
        ensures
            r == first_with(self@, want@, 0),
    {
        let mut i: usize = 0;
        while i < self.slots.len()
            invariant
                i <= self.slots.len(),
                want is Terminal || want is Agent || want is Explorer,
                first_with(self@, want@, 0) == first_with(self@, want@, i as int),
            decreases self.slots.len() - i,
        {
            assert(self@[i as int] == self.slots@[i as int]@);
            let m: usize = self.slots[i].stack.len();
            if m > 0 {
                let c: &Content = &self.slots[i].stack[m - 1];
                assert(self@[i as int].stack.last() == c@);
                let is: bool = match want {
                    Content::Terminal => matches!(c, Content::Terminal),
                    Content::Agent => matches!(c, Content::Agent),
                    _ => matches!(c, Content::Explorer),
                };
                if is {
                    return Some(self.slots[i].pane);
                }
            }
            i = i + 1;
        }
        None
    }

    /// The pane holding a shell, if one is on screen.
    pub fn terminal_pane(&self) -> (r: Option<PaneId>)
        ensures
            r == first_with(self@, ContentState::Terminal, 0),
    {
        self.first_where(&Content::Terminal)
    }

    /// The pane holding the agent, if one is on screen.
    pub fn agent_pane(&self) -> (r: Option<PaneId>)
        ensures
            r == first_with(self@, ContentState::Agent, 0),
    {
        self.first_where(&Content::Agent)
    }

    /// The pane holding the file tree, if one is on screen.
    pub fn explorer_pane(&self) -> (r: Option<PaneId>)
        ensures
            r == first_with(self@, ContentState::Explorer, 0),
    {
        self.first_where(&Content::Explorer)
    }

    /// Whether any pane shows the welcome screen.
    pub fn welcoming(&self) -> (r: bool)
        ensures
            r == any_welcome(self@, 0),
    {
        let mut i: usize = 0;
        while i < self.slots.len()
            invariant
                i <= self.slots.len(),
                any_welcome(self@, 0) == any_welcome(self@, i as int),
            decreases self.slots.len() - i,
        {
            assert(self@[i as int] == self.slots@[i as int]@);
            let m: usize = self.slots[i].stack.len();
            if m > 0 {
                assert(self@[i as int].stack.last() == self.slots@[i as int].stack@[m - 1]@);
                if matches!(&self.slots[i].stack[m - 1], Content::Welcome) {
                    return true;
                }
            }
            i = i + 1;
        }
        false
    }

    /// The pane the code lives in: where a strip under the work belongs. The
    /// focused pane when it holds a file or nothing; otherwise the first file
    /// pane in reading order, then the first that is not furniture.
    pub fn code_pane(&self, focus: PaneId, order: &Vec<PaneId>) -> (r: PaneId)
        ensures
            r == code_in(self@, focus, order@),
    {
        if self.is_code(focus) {
            return focus;
        }
        let mut i: usize = 0;
        while i < order.len()
            invariant
                i <= order.len(),
                !is_code_pane(self@, focus),
                first_code(self@, order@, 0) == first_code(self@, order@, i as int),
            decreases order.len() - i,
        {
            if self.is_code(order[i]) {
                return order[i];
            }
            i = i + 1;
        }
        let mut i: usize = 0;
        while i < order.len()
            invariant
                i <= order.len(),
                !is_code_pane(self@, focus),
                first_code(self@, order@, 0) is None,
                first_not_furniture(self@, order@, 0) == first_not_furniture(self@, order@, i as int),
            decreases order.len() - i,
        {
            let furniture: bool = matches!(
                self.top(order[i]),
                Some(Content::Explorer | Content::Agent | Content::Terminal)
            );
            if !furniture {
                return order[i];
            }
            i = i + 1;
        }
        focus
    }

    fn is_code(&self, p: PaneId) -> (r: bool)
        ensures
            r == is_code_pane(self@, p),
    {
        matches!(self.top(p), None | Some(Content::Editor { .. } | Content::Viewer | Content::Welcome))
    }

    /// Where content lands when it is opened from the focused pane. The tree
    /// is furniture, not a workspace: what is opened from it goes next door,
    /// right, then down, skipping shells; with no next door a new split is
    /// made rather than eating the tree.
    pub fn workspace_place(&self, focus: PaneId, around: &Around) -> (r: Place)
        ensures
            r == workspace_in(self@, focus, *around),
    {
        let on_tree: bool = matches!(self.top(focus), Some(Content::Explorer));
        if !on_tree {
            return Place::Here(focus);
        }
        if let Some(p) = around.right {
            if !self.live_in(p) {
                return Place::Here(p);
            }
        }
        if let Some(p) = around.down {
            if !self.live_in(p) {
                return Place::Here(p);
            }
        }
        Place::Split(focus, Axis::Horizontal)
    }

    /// Where a terminal goes: to the one that is open; whole into an empty
    /// pane; otherwise as a strip under the code, wherever focus happens to
    /// be.
    pub fn terminal_place(&self, focus: PaneId, order: &Vec<PaneId>) -> (r: Place)
        ensures
            r == terminal_in(self@, focus, order@),
    {
        match self.terminal_pane() {
            Some(p) => {
                return Place::There(p);
            },
            None => {},
        }
        if self.top(focus).is_none() {
            return Place::Here(focus);
        }
        let base: PaneId = self.code_pane(focus, order);
        if self.top(base).is_none() { Place::Here(base) } else { Place::Split(base, Axis::Vertical) }
    }

    /// Where the agent goes, `work` being the pane content lands in: to the
    /// one that is open; whole into an empty pane; otherwise as a column
    /// beside the work.
    pub fn agent_place(&self, focus: PaneId, work: PaneId) -> (r: Place)
        ensures
            r == agent_in(self@, focus, work),
    {
        match self.agent_pane() {
            Some(p) => {
                return Place::There(p);
            },
            None => {},
        }
        if self.top(focus).is_none() {
            return Place::Here(focus);
        }
        if self.top(work).is_none() { Place::Here(work) } else { Place::Split(work, Axis::Horizontal) }
    }

    /// Moves everything in one pane to another.
    pub fn hand_over(&mut self, from: PaneId, to: PaneId)
        ensures
            final(self)@ == handed_over(old(self)@, from, to),
    {
        let stack: Vec<Content> = self.take(from);
        if stack.len() > 0 {
            self.set(to, stack);
        }
    }

    /// Notes what saving or typing made of a pane's file.
    pub fn note_modified(&mut self, p: PaneId, modified: bool)
        ensures
            final(self)@ == remarked(old(self)@, p, modified),
    {
        let ghost before = self@;
        let k: usize = self.at(p);
        if k >= self.slots.len() {
            return;
        }
        proof {
            lemma_slot_of(before, p, 0);
            assert(before[k as int] == self.slots@[k as int]@);
        }
        let n: usize = self.slots[k].stack.len();
        if n == 0 {
            return;
        }
        assert(before[k as int].stack.last() == self.slots@[k as int].stack@[n - 1]@);
        if !matches!(&self.slots[k].stack[n - 1], Content::Editor { .. }) {
            return;
        }
        let mut slot: Slot = self.slots.remove(k);
        let ghost was = stack_list(slot.stack@);
        match slot.stack.pop() {
            Some(Content::Editor { path, .. }) => {
                let again: Content = Content::Editor { path, modified };
                slot.stack.push(again);
                assert(stack_list(slot.stack@) =~= was.drop_last().push(again@));
            },
            _ => {},
        }
        self.slots.insert(k, slot);
        assert(self@ =~= before.update(k as int, slot@));
    }

    /// The panes with unsaved work, in the order they are listed.
    pub fn unsaved_panes(&self) -> (r: Vec<PaneId>)
        ensures
            r@ == unsaved_ids(self@, self@.len() as int),
    {
        let mut out: Vec<PaneId> = Vec::new();
        let mut i: usize = 0;
        while i < self.slots.len()
            invariant
                i <= self.slots.len(),
                out@ == unsaved_ids(self@, i as int),
            decreases self.slots.len() - i,
        {
            assert(self@[i as int] == self.slots@[i as int]@);
            let m: usize = self.slots[i].stack.len();
            if m > 0 {
                assert(self@[i as int].stack.last() == self.slots@[i as int].stack@[m - 1]@);
                if self.slots[i].stack[m - 1].unsaved() {
                    out.push(self.slots[i].pane);
                }
            }
            i = i + 1;
        }
        out
    }
}

/// Where something goes.
#[derive(Clone, Copy, Debug, PartialEq, Eq, Structural)]
pub enum Place {
    /// It is already there: go to it.
    There(PaneId),
    /// Into this pane.
    Here(PaneId),
    /// Into a new pane, split off this one.
    Split(PaneId, Axis),
}

pub open spec fn holds_unsaved(s: Seq<SlotState>, p: PaneId) -> bool {
    top_in(s, p) is Some && is_unsaved(top_in(s, p)->Some_0)
}

pub open spec fn holds_live(s: Seq<SlotState>, p: PaneId) -> bool {
    top_in(s, p) is Some && runs(top_in(s, p)->Some_0)
}

/// The file a pane has open.
pub open spec fn path_in(s: Seq<SlotState>, p: PaneId) -> Option<PathState> {
    match top_in(s, p) {
        Some(ContentState::Editor { path, .. }) => path,
        _ => None,
    }
}

/// What a pane's file is called when asking about it.
pub open spec fn name_in(s: Seq<SlotState>, p: PaneId) -> Seq<char> {
    match path_in(s, p) {
        Some(f) => match path::path_name(f) {
            Some(n) => n,
            None => "This file"@,
        },
        None => "This file"@,
    }
}

/// Whether any pane from `i` on shows the welcome screen.
pub open spec fn any_welcome(s: Seq<SlotState>, i: int) -> bool
    decreases s.len() - i,
{
    if i < 0 || i >= s.len() {
        false
    } else {
        (s[i].stack.len() > 0 && s[i].stack.last() is Welcome) || any_welcome(s, i + 1)
    }
}

/// A file, a notice about one, the welcome screen, or nothing.
pub open spec fn is_code_pane(s: Seq<SlotState>, p: PaneId) -> bool {
    match top_in(s, p) {
        None => true,
        Some(c) => c is Editor || c is Viewer || c is Welcome,
    }
}

pub open spec fn first_code(s: Seq<SlotState>, order: Seq<PaneId>, i: int) -> Option<PaneId>
    decreases order.len() - i,
{
    if i < 0 || i >= order.len() {
        None
    } else if is_code_pane(s, order[i]) {
        Some(order[i])
    } else {
        first_code(s, order, i + 1)
    }
}

/// The tree, the agent and a shell are things beside the code.
pub open spec fn is_furniture(s: Seq<SlotState>, p: PaneId) -> bool {
    match top_in(s, p) {
        None => false,
        Some(c) => c is Explorer || c is Agent || c is Terminal,
    }
}

pub open spec fn first_not_furniture(s: Seq<SlotState>, order: Seq<PaneId>, i: int) -> Option<PaneId>
    decreases order.len() - i,
{
    if i < 0 || i >= order.len() {
        None
    } else if !is_furniture(s, order[i]) {
        Some(order[i])
    } else {
        first_not_furniture(s, order, i + 1)
    }
}

pub open spec fn code_in(s: Seq<SlotState>, focus: PaneId, order: Seq<PaneId>) -> PaneId {
    if is_code_pane(s, focus) {
        focus
    } else {
        match first_of(first_code(s, order, 0), first_not_furniture(s, order, 0)) {
            Some(p) => p,
            None => focus,
        }
    }
}

/// A neighbour that is there and runs nothing.
pub open spec fn free(s: Seq<SlotState>, next: Option<PaneId>) -> Option<PaneId> {
    match next {
        Some(p) => if holds_live(s, p) { None } else { Some(p) },
        None => None,
    }
}

pub open spec fn workspace_in(s: Seq<SlotState>, focus: PaneId, around: Around) -> Place {
    if top_in(s, focus) != Some(ContentState::Explorer) {
        Place::Here(focus)
    } else {
        match first_of(free(s, around.right), free(s, around.down)) {
            Some(p) => Place::Here(p),
            None => Place::Split(focus, Axis::Horizontal),
        }
    }
}

pub open spec fn terminal_in(s: Seq<SlotState>, focus: PaneId, order: Seq<PaneId>) -> Place {
    match first_with(s, ContentState::Terminal, 0) {
        Some(p) => Place::There(p),
        None => if top_in(s, focus) is None {
            Place::Here(focus)
        } else {
            let base = code_in(s, focus, order);
            if top_in(s, base) is None { Place::Here(base) } else { Place::Split(base, Axis::Vertical) }
        },
    }
}

pub open spec fn agent_in(s: Seq<SlotState>, focus: PaneId, work: PaneId) -> Place {
    match first_with(s, ContentState::Agent, 0) {
        Some(p) => Place::There(p),
        None => if top_in(s, focus) is None {
            Place::Here(focus)
        } else if top_in(s, work) is None {
            Place::Here(work)
        } else {
            Place::Split(work, Axis::Horizontal)
        },
    }
}

pub open spec fn handed_over(s: Seq<SlotState>, from: PaneId, to: PaneId) -> Seq<SlotState> {
    let stack = stack_in(s, from);
    if stack.len() == 0 { without(s, from) } else { put(without(s, from), to, stack) }
}

/// The list with an editor's unsaved flag as given; anything but an editor is
/// left alone.
pub open spec fn remarked(s: Seq<SlotState>, p: PaneId, modified: bool) -> Seq<SlotState> {
    match top_in(s, p) {
        Some(ContentState::Editor { path, .. }) => put(
            s,
            p,
            stack_in(s, p).drop_last().push(ContentState::Editor { path, modified }),
        ),
        _ => s,
    }
}

/// The panes with unsaved work among the first `n`.
pub open spec fn unsaved_ids(s: Seq<SlotState>, n: int) -> Seq<PaneId>
    decreases n,
{
    if n <= 0 {
        Seq::empty()
    } else if s[n - 1].stack.len() > 0 && is_unsaved(s[n - 1].stack.last()) {
        unsaved_ids(s, n - 1).push(s[n - 1].pane)
    } else {
        unsaved_ids(s, n - 1)
    }
}

// -------------------------------------------------------------------- laws

/// A running process is never what something lands on: where work opens is
/// the focused pane, a free neighbour, or a new pane.
pub proof fn nothing_opened_from_the_tree_lands_on_a_process(s: Seq<SlotState>, focus: PaneId, around: Around)
    requires
        top_in(s, focus) == Some(ContentState::Explorer),
    ensures
        match workspace_in(s, focus, around) {
            Place::Here(p) => !holds_live(s, p),
            Place::Split(p, _) => p == focus,
            Place::There(_) => false,
        },
{
}

/// A shell next to the tree is skipped, not taken for the end of the street:
/// with a free pane on the right or below, nothing is split.
pub proof fn a_shell_next_door_is_skipped(s: Seq<SlotState>, focus: PaneId, around: Around)
    requires
        top_in(s, focus) == Some(ContentState::Explorer),
        free(s, around.right) is Some || free(s, around.down) is Some,
    ensures
        workspace_in(s, focus, around) == Place::Here(
            if free(s, around.right) is Some {
                free(s, around.right)->Some_0
            } else {
                free(s, around.down)->Some_0
            },
        ),
{
}

/// One shell on screen is the shell that was meant: with one open, no second
/// is made.
pub proof fn one_terminal_is_enough(s: Seq<SlotState>, focus: PaneId, order: Seq<PaneId>)
    requires
        first_with(s, ContentState::Terminal, 0) is Some,
    ensures
        terminal_in(s, focus, order) == Place::There(
            first_with(s, ContentState::Terminal, 0)->Some_0,
        ),
{
}

/// Opening a terminal never evicts anything: a pane it goes into whole is
/// empty.
pub proof fn a_terminal_evicts_nothing(s: Seq<SlotState>, focus: PaneId, order: Seq<PaneId>)
    ensures
        terminal_in(s, focus, order) matches Place::Here(p) ==> top_in(s, p) is None,
{
}

/// The same for the agent.
pub proof fn an_agent_evicts_nothing(s: Seq<SlotState>, focus: PaneId, work: PaneId)
    ensures
        agent_in(s, focus, work) matches Place::Here(p) ==> top_in(s, p) is None,
{
}

/// There is unsaved work exactly when some pane holds it.
pub proof fn the_count_misses_nothing(s: Seq<SlotState>, n: int)
    requires
        0 <= n <= s.len(),
    ensures
        unsaved_in_first(s, n) == unsaved_ids(s, n).len(),
        unsaved_in_first(s, n) == 0 <==> forall|i: int|
            0 <= i < n && (#[trigger] s[i]).stack.len() > 0 ==> !is_unsaved(s[i].stack.last()),
    decreases n,
{
    if n > 0 {
        the_count_misses_nothing(s, n - 1);
        if unsaved_in_first(s, n) > 0 && unsaved_in_first(s, n - 1) == 0 {
            assert(is_unsaved(s[n - 1].stack.last()));
        }
        if unsaved_in_first(s, n - 1) > 0 {
            let i = choose|i: int|
                0 <= i < n - 1 && (#[trigger] s[i]).stack.len() > 0 && is_unsaved(s[i].stack.last());
            assert(is_unsaved(s[i].stack.last()));
        }
    }
}

pub proof fn lemma_first_with(s: Seq<SlotState>, want: ContentState, i: int)
    requires
        0 <= i <= s.len(),
    ensures
        first_with(s, want, i) is None ==> forall|k: int|
            i <= k < s.len() && (#[trigger] s[k]).stack.len() > 0 ==> s[k].stack.last() != want,
    decreases s.len() - i,
{
    if i < s.len() {
        lemma_first_with(s, want, i + 1);
    }
}

pub proof fn lemma_first_with_at(s: Seq<SlotState>, want: ContentState, i: int) -> (k: int)
    requires
        0 <= i <= s.len(),
        first_with(s, want, i) is Some,
    ensures
        i <= k < s.len(),
        s[k].stack.len() > 0,
        s[k].stack.last() == want,
        first_with(s, want, i) == Some(s[k].pane),
        forall|j: int| i <= j < k && (#[trigger] s[j]).stack.len() > 0 ==> s[j].stack.last() != want,
    decreases s.len() - i,
{
    if s[i].stack.len() > 0 && s[i].stack.last() == want {
        i
    } else {
        lemma_first_with_at(s, want, i + 1)
    }
}

/// What a pane shows is the last thing put on it, wherever it stands in the
/// list.
pub proof fn what_a_pane_shows(s: Seq<SlotState>, k: int)
    requires
        tidy(s),
        0 <= k < s.len(),
    ensures
        stack_in(s, s[k].pane) == s[k].stack,
        top_in(s, s[k].pane) == Some(s[k].stack[s[k].stack.len() - 1]),
{
    let p = s[k].pane;
    lemma_slot_of(s, p, 0);
    let j = slot_of(s, p, 0);
    if j < k {
        assert(s[j].pane != s[k].pane);
    }
}

/// A pane that is not in the list shows nothing.
pub proof fn a_pane_without_content_is_empty(s: Seq<SlotState>, p: PaneId)
    requires
        forall|i: int| 0 <= i < s.len() ==> (#[trigger] s[i]).pane != p,
    ensures
        top_in(s, p) is None,
        stack_in(s, p).len() == 0,
{
    lemma_slot_of(s, p, 0);
}

/// What runs, and what may be unsaved.
pub proof fn what_runs_and_what_is_unsaved(path: Option<PathState>, modified: bool)
    ensures
        runs(ContentState::Terminal) && runs(ContentState::Agent),
        !runs(ContentState::Explorer) && !runs(ContentState::Settings) && !runs(ContentState::Git),
        !runs(ContentState::Viewer) && !runs(ContentState::Welcome) && !runs(ContentState::Editor { path, modified }),
        is_unsaved(ContentState::Editor { path, modified }) == modified,
        !is_unsaved(ContentState::Terminal) && !is_unsaved(ContentState::Agent) && !is_unsaved(ContentState::Explorer),
        !is_unsaved(ContentState::Settings) && !is_unsaved(ContentState::Git) && !is_unsaved(ContentState::Viewer),
{
}

/// A file that is opened is shown as it is on the disk, and one that is
/// refused is shown as a notice.
pub proof fn an_opened_file_is_shown(f: PathState)
    ensures
        opened_as(f, false) == (ContentState::Editor { path: Some(f), modified: false }),
        opened_as(f, true) == ContentState::Viewer,
        !is_unsaved(opened_as(f, false)),
{
}

/// What is put into a pane is what the pane shows, alone or over what it
/// showed; other panes show what they did.
pub proof fn what_is_put_is_shown(s: Seq<SlotState>, p: PaneId, c: ContentState, q: PaneId)
    ensures
        top_in(placed(s, p, c), p) == Some(c),
        stack_in(placed(s, p, c), p) == seq![c],
        top_in(covered(s, p, c), p) == Some(c),
        stack_in(covered(s, p, c), p) == stack_in(s, p).push(c),
        q != p ==> top_in(placed(s, p, c), q) == top_in(s, q),
        q != p ==> top_in(covered(s, p, c), q) == top_in(s, q),
{
    putting_touches_one_pane(s, p, seq![c], p);
    putting_touches_one_pane(s, p, stack_in(s, p).push(c), p);
    putting_touches_one_pane(s, p, seq![c], q);
    putting_touches_one_pane(s, p, stack_in(s, p).push(c), q);
}

/// Handing a pane over moves all it holds, with what lies under it, and
/// leaves the pane empty.
pub proof fn handing_over_moves_everything(s: Seq<SlotState>, from: PaneId, to: PaneId, q: PaneId)
    requires
        tidy(s),
        from != to,
        stack_in(s, from).len() > 0,
    ensures
        stack_in(handed_over(s, from, to), to) == stack_in(s, from),
        stack_in(handed_over(s, from, to), from).len() == 0,
        q != from && q != to ==> stack_in(handed_over(s, from, to), q) == stack_in(s, q),
{
    emptying_touches_one_pane(s, from, from);
    emptying_touches_one_pane(s, from, q);
    let t = without(s, from);
    putting_touches_one_pane(t, to, stack_in(s, from), to);
    putting_touches_one_pane(t, to, stack_in(s, from), from);
    putting_touches_one_pane(t, to, stack_in(s, from), q);
}

/// Marking a file changes whether it is unsaved, and neither its path nor
/// any other pane; what is no file cannot be marked.
pub proof fn marking_changes_the_mark(s: Seq<SlotState>, p: PaneId, modified: bool, q: PaneId)
    ensures
        top_in(s, p) is Some && top_in(s, p).unwrap() is Editor ==> {
            &&& holds_unsaved(remarked(s, p, modified), p) == modified
            &&& path_in(remarked(s, p, modified), p) == path_in(s, p)
            &&& stack_in(remarked(s, p, modified), p).len() == stack_in(s, p).len()
        },
        !(top_in(s, p) is Some && top_in(s, p).unwrap() is Editor) ==> remarked(s, p, modified) == s,
        q != p ==> stack_in(remarked(s, p, modified), q) == stack_in(s, q),
{
    if let Some(ContentState::Editor { path, .. }) = top_in(s, p) {
        let stack = stack_in(s, p).drop_last().push(ContentState::Editor { path, modified });
        putting_touches_one_pane(s, p, stack, p);
        putting_touches_one_pane(s, p, stack, q);
    }
}

/// A pane is asked about by the name of its file.
pub proof fn a_pane_goes_by_its_file(s: Seq<SlotState>, p: PaneId, f: PathState, modified: bool)
    requires
        top_in(s, p) == Some(ContentState::Editor { path: Some(f), modified }),
    ensures
        path_in(s, p) == Some(f),
        path::path_name(f) matches Some(n) ==> name_in(s, p) == n,
{
}

/// The panes with unsaved work are all the panes that have any, and no
/// others.
pub proof fn unsaved_panes_are_listed(s: Seq<SlotState>, n: int, k: int)
    requires
        0 <= k < n <= s.len(),
        tidy(s),
    ensures
        unsaved_ids(s, n).contains(s[k].pane) <==> is_unsaved(s[k].stack.last()),
    decreases n,
{
    let rest = unsaved_ids(s, n - 1);
    let all = unsaved_ids(s, n);
    if k < n - 1 {
        unsaved_panes_are_listed(s, n - 1, k);
        assert(s[k].pane != s[n - 1].pane);
        if rest.contains(s[k].pane) {
            let i = choose|i: int| 0 <= i < rest.len() && rest[i] == s[k].pane;
            assert(all[i] == s[k].pane);
        }
        if all.contains(s[k].pane) {
            let i = choose|i: int| 0 <= i < all.len() && all[i] == s[k].pane;
            if i < rest.len() {
                assert(rest[i] == s[k].pane);
            }
        }
    } else {
        lemma_not_listed(s, n - 1, k);
        if is_unsaved(s[k].stack.last()) {
            assert(all[all.len() - 1] == s[k].pane);
        }
    }
}

proof fn lemma_not_listed(s: Seq<SlotState>, n: int, k: int)
    requires
        0 <= n <= k < s.len(),
        tidy(s),
    ensures
        !unsaved_ids(s, n).contains(s[k].pane),
    decreases n,
{
    if n > 0 {
        lemma_not_listed(s, n - 1, k);
        assert(s[n - 1].pane != s[k].pane);
        let rest = unsaved_ids(s, n - 1);
        let all = unsaved_ids(s, n);
        if all.contains(s[k].pane) {
            let i = choose|i: int| 0 <= i < all.len() && all[i] == s[k].pane;
            if i < rest.len() {
                assert(rest[i] == s[k].pane);
            }
        }
    }
}

/// Where a file opens: in the focused pane, and from the tree in the pane to
/// the right, or below, or in a new one beside the tree.
pub proof fn where_work_opens(s: Seq<SlotState>, focus: PaneId, around: Around)
    ensures
        top_in(s, focus) != Some(ContentState::Explorer) ==> workspace_in(s, focus, around) == Place::Here(focus),
        top_in(s, focus) == Some(ContentState::Explorer) ==> {
            let right = around.right is Some && !holds_live(s, around.right.unwrap());
            let down = around.down is Some && !holds_live(s, around.down.unwrap());
            &&& right ==> workspace_in(s, focus, around) == Place::Here(around.right.unwrap())
            &&& !right && down ==> workspace_in(s, focus, around) == Place::Here(around.down.unwrap())
            &&& !right && !down ==> workspace_in(s, focus, around) == Place::Split(focus, Axis::Horizontal)
        },
{
}

proof fn lemma_first_code(s: Seq<SlotState>, order: Seq<PaneId>, i: int, k: int)
    requires
        0 <= i <= k < order.len(),
        is_code_pane(s, order[k]),
        forall|j: int| i <= j < k ==> !is_code_pane(s, #[trigger] order[j]),
    ensures
        first_code(s, order, i) == Some(order[k]),
    decreases k - i,
{
    if i < k {
        assert(!is_code_pane(s, order[i]));
        lemma_first_code(s, order, i + 1, k);
    }
}

/// Where the code is: in the focused pane, where that shows a file, a
/// notice, the welcome or nothing, and otherwise in the first pane that does.
pub proof fn where_the_code_is(s: Seq<SlotState>, focus: PaneId, order: Seq<PaneId>, k: int)
    ensures
        ({
            let code = |p: PaneId| top_in(s, p) is None || top_in(s, p).unwrap() is Editor || top_in(
                s,
                p,
            ).unwrap() is Viewer || top_in(s, p).unwrap() is Welcome;
            &&& code(focus) ==> code_in(s, focus, order) == focus
            &&& !code(focus) && 0 <= k < order.len() && code(order[k]) && (forall|j: int|
                0 <= j < k ==> !code(#[trigger] order[j])) ==> code_in(s, focus, order) == order[k]
        }),
{
    let code = |p: PaneId| top_in(s, p) is None || top_in(s, p).unwrap() is Editor || top_in(s, p).unwrap() is Viewer
        || top_in(s, p).unwrap() is Welcome;
    if 0 <= k < order.len() && code(order[k]) && (forall|j: int| 0 <= j < k ==> !code(#[trigger] order[j])) {
        assert forall|j: int| 0 <= j < k implies !is_code_pane(s, #[trigger] order[j]) by {
            assert(!code(order[j]));
        }
        lemma_first_code(s, order, 0, k);
    }
}

/// Where a shell goes that is not open yet: into the focused pane where that
/// is empty, and otherwise below the code, or into the code's pane where
/// that is empty.
pub proof fn where_a_shell_goes(s: Seq<SlotState>, focus: PaneId, order: Seq<PaneId>)
    requires
        first_with(s, ContentState::Terminal, 0) is None,
    ensures
        top_in(s, focus) is None ==> terminal_in(s, focus, order) == Place::Here(focus),
        top_in(s, focus) is Some && top_in(s, code_in(s, focus, order)) is None ==> terminal_in(s, focus, order)
            == Place::Here(code_in(s, focus, order)),
        top_in(s, focus) is Some && top_in(s, code_in(s, focus, order)) is Some ==> terminal_in(s, focus, order)
            == Place::Split(code_in(s, focus, order), Axis::Vertical),
{
}

/// Where the agent goes: to the pane that has it, into an empty one, or
/// beside the work.
pub proof fn where_the_agent_goes(s: Seq<SlotState>, focus: PaneId, work: PaneId)
    ensures
        first_with(s, ContentState::Agent, 0) matches Some(p) ==> agent_in(s, focus, work) == Place::There(p),
        first_with(s, ContentState::Agent, 0) is None ==> {
            &&& top_in(s, focus) is None ==> agent_in(s, focus, work) == Place::Here(focus)
            &&& top_in(s, focus) is Some && top_in(s, work) is None ==> agent_in(s, focus, work) == Place::Here(work)
            &&& top_in(s, focus) is Some && top_in(s, work) is Some ==> agent_in(s, focus, work) == Place::Split(
                work,
                Axis::Horizontal,
            )
        },
{
}

/// The welcome is on the screen exactly where some pane shows it.
pub proof fn the_welcome_shows_in_some_pane(s: Seq<SlotState>, i: int)
    requires
        0 <= i <= s.len(),
    ensures
        any_welcome(s, i) <==> exists|k: int|
            i <= k < s.len() && (#[trigger] s[k]).stack.len() > 0 && s[k].stack.last() is Welcome,
    decreases s.len() - i,
{
    if i < s.len() {
        the_welcome_shows_in_some_pane(s, i + 1);
        if s[i].stack.len() > 0 && s[i].stack.last() is Welcome {
            assert(s[i].stack.last() is Welcome);
        }
    }
}

} // verus!
