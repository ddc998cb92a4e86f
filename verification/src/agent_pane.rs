//! The state of the agent pane and everything that changes it.
use std::collections::VecDeque;
use vstd::prelude::*;
use vstd::string::*;
use crate::agent;
use crate::agent::{in_time, summarize, with_capital, writes_files, Block, Completion, CompletionState, Cost,
    Decision, Event, Limits, Permission, Poll, Step, StepState};
use crate::path;
use crate::path::{Path, PathState};
use crate::scroll;
use crate::scroll::{last_index, stepped};
use crate::text;
use crate::text::{blank, chars_of, joined, joined3, same, slice_text, spells, sub_chars, swap_char, text_of,
    to_lowercase, trim, trim_chars};
use crate::transcript;
use crate::transcript::{clip, take_text, Item, ItemState, Kind, KindState, Row};

verus! {

pub struct AgentPane {
    /// What the agent is called, in small letters.
    pub name: String,
    /// A process is up.
    pub running: bool,
    /// Where it works; files under it are named relative to it.
    pub cwd: Path,
    pub items: Vec<Item>,
    /// Changes when a finished item does (one is added, one gets its tool
    /// result, drafts are replaced), so the settled part of the transcript is
    /// rewrapped only then. Streaming changes `tail_gen` instead: a token a
    /// frame must not rewrap everything above it.
    pub generation: u64,
    pub tail_gen: u64,
    /// Slash commands the agent knows for this workspace, read once.
    pub skills: Vec<Completion>,
    /// Which completion is under the highlight while `/` is being typed.
    pub pick_cmd: usize,
    /// When the turn in flight went out, in nanoseconds of a clock that only
    /// goes forward.
    pub turn_started: Option<u64>,
    pub input: String,
    /// A turn is in flight: sent, no result yet.
    pub busy: bool,
    pub session_id: Option<String>,
    pub model: Option<String>,
    /// Cumulative, as reported. An estimate, only shown when there is nobody
    /// else paying.
    pub cost: Option<Cost>,
    /// The subscription's windows, once a turn has reported them.
    pub limits: Option<Limits>,
    pub turns: u64,
    /// First visible row.
    pub top: usize,
    /// Stick to the bottom as rows arrive. Off once the user scrolls up, back
    /// on when they scroll to the end or send a turn.
    pub follow: bool,
    /// The wrapped transcript: the settled rows, then the streaming tail,
    /// which starts at `final_len`.
    pub rows: Vec<Row>,
    pub final_len: usize,
    pub laid_for: Option<(u64, usize)>,
    pub tail_laid: Option<(u64, u64, usize)>,
    /// Questions, oldest first. Parallel tool calls can ask several at once;
    /// each waits its turn in the one box.
    pub asks: VecDeque<Permission>,
    /// Which answer is under the highlight while a question is up.
    pub pick: usize,
    /// Turns typed while one was in flight, sent one per result.
    pub queue: VecDeque<String>,
    /// An interrupt has gone out and the result that ends the turn has not
    /// come back yet. A second Esc in this state kills the process.
    pub stopping: bool,
}

/// The pane as a value: everything but the rows laid out so far.
#[verifier::ext_equal]
pub struct AgentState {
    pub name: Seq<char>,
    pub running: bool,
    pub cwd: PathState,
    pub items: Seq<ItemState>,
    pub skills: Seq<CompletionState>,
    pub pick_cmd: usize,
    pub turn_started: Option<u64>,
    pub input: Seq<char>,
    pub busy: bool,
    pub session_id: Option<Seq<char>>,
    pub model: Option<Seq<char>>,
    pub cost: Option<Cost>,
    pub limits: Option<Limits>,
    pub turns: u64,
    pub top: usize,
    pub follow: bool,
    pub asks: Seq<Permission>,
    pub pick: usize,
    pub queue: Seq<Seq<char>>,
    pub stopping: bool,
}

impl View for AgentPane {
    type V = AgentState;

    open spec fn view(&self) -> AgentState {
        AgentState {
            name: self.name@,
            running: self.running,
            cwd: self.cwd@,
            items: transcript::item_list(self.items@),
            skills: agent::completion_list(self.skills@),
            pick_cmd: self.pick_cmd,
            turn_started: self.turn_started,
            input: self.input@,
            busy: self.busy,
            session_id: transcript::opt_text(self.session_id),
            model: transcript::opt_text(self.model),
            cost: self.cost,
            limits: self.limits,
            turns: self.turns,
            top: self.top,
            follow: self.follow,
            asks: self.asks@,
            pick: self.pick,
            queue: text::texts(self.queue@),
            stopping: self.stopping,
        }
    }
}

// ------------------------------------------------------------ items as sets

/// An item that never streamed.
pub open spec fn plain_item(kind: KindState) -> ItemState {
    ItemState { kind, message_id: None, provisional: false, revealed: None }
}

/// A streaming item. Text starts with nothing let out; the frames let it out
/// from there.
pub open spec fn draft_item(kind: KindState, id: Seq<char>) -> ItemState {
    ItemState {
        kind,
        message_id: Some(id),
        provisional: true,
        revealed: if kind is Text { Some(0) } else { None },
    }
}

/// A draft of that message.
pub open spec fn is_draft_of(i: ItemState, id: Seq<char>) -> bool {
    i.provisional && i.message_id == Some(id)
}

/// The items without the drafts of a message.
pub open spec fn without_drafts(items: Seq<ItemState>, id: Seq<char>) -> Seq<ItemState>
    decreases items.len(),
{
    if items.len() == 0 {
        Seq::empty()
    } else if is_draft_of(items.last(), id) {
        without_drafts(items.drop_last(), id)
    } else {
        without_drafts(items.drop_last(), id).push(items.last())
    }
}

/// How far each text among a message's drafts had been let out, in order.
pub open spec fn let_out(items: Seq<ItemState>, id: Seq<char>) -> Seq<usize>
    decreases items.len(),
{
    if items.len() == 0 {
        Seq::empty()
    } else {
        let last = items.last();
        let before = let_out(items.drop_last(), id);
        if is_draft_of(last, id) && last.kind is Text {
            before.push(
                match last.revealed {
                    Some(n) => n,
                    None => 0,
                },
            )
        } else {
            before
        }
    }
}

/// The items without the turns still waiting.
pub open spec fn without_queued(items: Seq<ItemState>) -> Seq<ItemState>
    decreases items.len(),
{
    if items.len() == 0 {
        Seq::empty()
    } else if items.last().kind is Queued {
        without_queued(items.drop_last())
    } else {
        without_queued(items.drop_last()).push(items.last())
    }
}

/// The items with nothing streaming any more.
pub open spec fn undrafted(items: Seq<ItemState>) -> Seq<ItemState> {
    Seq::new(items.len(), |i: int| ItemState { provisional: false, ..items[i] })
}

/// Where the first waiting turn at or after `i` is; the length when none.
pub open spec fn first_queued(items: Seq<ItemState>, i: int) -> int
    decreases items.len() - i,
{
    if i < 0 || i >= items.len() {
        items.len() as int
    } else if items[i].kind is Queued {
        i
    } else {
        first_queued(items, i + 1)
    }
}

/// Where the first unsettled item at or after `i` is; the length when none.
pub open spec fn first_unsettled(items: Seq<ItemState>, i: int) -> int
    decreases items.len() - i,
{
    if i < 0 || i >= items.len() {
        items.len() as int
    } else if transcript::is_unsettled(items[i]) {
        i
    } else {
        first_unsettled(items, i + 1)
    }
}

/// A draft of that message that holds text.
pub open spec fn takes_delta(i: ItemState, id: Seq<char>) -> bool {
    is_draft_of(i, id) && i.kind is Text
}

/// The last such item before `n`, or -1.
pub open spec fn delta_at(items: Seq<ItemState>, id: Seq<char>, n: int) -> int
    decreases n,
{
    if n <= 0 {
        -1
    } else if takes_delta(items[n - 1], id) {
        n - 1
    } else {
        delta_at(items, id, n - 1)
    }
}

/// The last call of that tool use before `n`, or -1.
pub open spec fn call_at(items: Seq<ItemState>, id: Seq<char>, n: int) -> int
    decreases n,
{
    if n <= 0 {
        -1
    } else {
        match items[n - 1].kind {
            KindState::Tool { id: own, .. } => if own == id {
                n - 1
            } else {
                call_at(items, id, n - 1)
            },
            _ => call_at(items, id, n - 1),
        }
    }
}

/// The settled items: those before the first that is not.
pub open spec fn settled_part(items: Seq<ItemState>) -> Seq<ItemState> {
    items.take(first_unsettled(items, 0))
}

pub proof fn lemma_first_unsettled(items: Seq<ItemState>, i: int)
    requires
        0 <= i <= items.len(),
    ensures
        i <= first_unsettled(items, i) <= items.len(),
        first_unsettled(items, i) < items.len() ==> transcript::is_unsettled(
            items[first_unsettled(items, i)],
        ),
        forall|k: int| i <= k < first_unsettled(items, i) ==> !transcript::is_unsettled(#[trigger] items[k]),
    decreases items.len() - i,
{
    if i < items.len() && !transcript::is_unsettled(items[i]) {
        lemma_first_unsettled(items, i + 1);
    }
}

proof fn lemma_first_unsettled_unique(items: Seq<ItemState>, i: int, e: int)
    requires
        0 <= i <= e <= items.len(),
        e < items.len() ==> transcript::is_unsettled(items[e]),
        forall|k: int| i <= k < e ==> !transcript::is_unsettled(#[trigger] items[k]),
    ensures
        first_unsettled(items, i) == e,
    decreases e - i,
{
    if i < e {
        assert(!transcript::is_unsettled(items[i]));
        lemma_first_unsettled_unique(items, i + 1, e);
    }
}

/// Lists that agree up to the first unsettled item of one, and are unsettled
/// there (or end there with it), have the same settled part.
pub proof fn lemma_settled_part(a: Seq<ItemState>, b: Seq<ItemState>)
    requires
        ({
            let e = first_unsettled(a, 0);
            &&& e <= b.len()
            &&& forall|k: int| 0 <= k < e ==> a[k] == b[k]
            &&& e < b.len() ==> transcript::is_unsettled(b[e])
        }),
    ensures
        settled_part(a) == settled_part(b),
{
    let e = first_unsettled(a, 0);
    lemma_first_unsettled(a, 0);
    assert forall|k: int| 0 <= k < e implies !transcript::is_unsettled(#[trigger] b[k]) by {
        assert(!transcript::is_unsettled(a[k]));
    }
    lemma_first_unsettled_unique(b, 0, e);
    assert(settled_part(a) =~= settled_part(b));
}

// --------------------------------------------------------------- freshness

impl AgentPane {
    /// What has been laid out is what would be laid out now, wherever the
    /// counters say it still stands.
    pub open spec fn fresh(&self) -> bool {
        &&& (match self.laid_for {
            Some((g, c)) => {
                &&& g <= self.generation
                &&& g == self.generation ==> {
                    &&& self.final_len <= self.rows@.len()
                    &&& transcript::row_list(self.rows@).take(self.final_len as int) == transcript::laid(
                        settled_part(self@.items),
                        c as nat,
                        false,
                    )
                }
            },
            None => true,
        })
        &&& (match self.tail_laid {
            Some((g, t, c)) => {
                &&& g <= self.generation
                &&& g == self.generation ==> t <= self.tail_gen
                &&& g == self.generation && t == self.tail_gen && self.laid_for == Some((g, c))
                    ==> transcript::row_list(self.rows@) == transcript::laid(self@.items, c as nat, false)
            },
            None => true,
        })
    }

    /// Nothing was laid out under counters that are yet to come.
    pub open spec fn counted(&self) -> bool {
        &&& (match self.laid_for {
            Some((g, c)) => g <= self.generation,
            None => true,
        })
        &&& (match self.tail_laid {
            Some((g, t, c)) => g <= self.generation && (g == self.generation ==> t <= self.tail_gen),
            None => true,
        })
    }

    /// Everything laid out is out of date: a settled item changed. The
    /// counter starts over at its end, and what was laid out goes with it.
    pub(crate) fn bump(&mut self)
        ensures
            final(self)@ == old(self)@,
            final(self).rows == old(self).rows,
            final(self).final_len == old(self).final_len,
            old(self).counted() ==> final(self).fresh(),
    {
        if self.generation == u64::MAX {
            self.generation = 0;
            self.laid_for = None;
            self.tail_laid = None;
        } else {
            self.generation = self.generation + 1;
        }
    }

    /// The streaming tail is out of date; the settled rows stand.
    pub(crate) fn bump_tail(&mut self)
        ensures
            final(self)@ == old(self)@,
            final(self).rows == old(self).rows,
            final(self).final_len == old(self).final_len,
            final(self).generation == old(self).generation,
            final(self).laid_for == old(self).laid_for,
            old(self).counted() ==> final(self).counted() && (match final(self).tail_laid {
                Some((g, t, c)) => !(g == final(self).generation && t == final(self).tail_gen),
                None => true,
            }),
    {
        if self.tail_gen == u64::MAX {
            self.tail_gen = 0;
            self.tail_laid = None;
        } else {
            self.tail_gen = self.tail_gen + 1;
        }
    }
}

// ------------------------------------------------------- what a change does

/// The pane with one more finished item.
pub open spec fn noted(m: AgentState, kind: KindState) -> AgentState {
    AgentState { items: m.items.push(plain_item(kind)), ..m }
}

/// The pane with one more streaming item.
pub open spec fn drafted(m: AgentState, kind: KindState, id: Seq<char>) -> AgentState {
    AgentState { items: m.items.push(draft_item(kind, id)), ..m }
}

/// The turn is over, however it ended. `dead` means the process went with
/// it: questions can no longer be answered and waiting turns would go
/// nowhere.
pub open spec fn turn_ended(m: AgentState, dead: bool) -> AgentState {
    let over = AgentState {
        busy: false,
        stopping: false,
        turn_started: None,
        items: undrafted(m.items),
        ..m
    };
    if !dead {
        over
    } else if m.queue.len() == 0 {
        AgentState { asks: Seq::empty(), pick: 0, ..over }
    } else {
        noted(
            AgentState {
                asks: Seq::empty(),
                pick: 0,
                queue: Seq::empty(),
                items: without_queued(over.items),
                ..over
            },
            KindState::Note("queued messages dropped"@),
        )
    }
}

/// The process is killed, and with it the turn.
pub open spec fn after_kill(m: AgentState) -> AgentState {
    noted(turn_ended(AgentState { running: false, ..m }, true), KindState::Note("stopped"@))
}

/// What is asked for when a turn is to go out.
pub open spec fn step_to_send(m: AgentState, t: Seq<char>, shown: bool) -> StepState {
    if m.running {
        StepState::Send { text: t, shown }
    } else {
        StepState::Spawn { resume: m.session_id, text: t, shown }
    }
}

/// A start that came to something, or did not.
pub open spec fn after_start(m: AgentState, r: Result<(), String>) -> AgentState {
    match r {
        Ok(_) => AgentState { running: true, ..m },
        Err(e) => noted(m, KindState::Error(e@)),
    }
}

/// A turn that went out, or did not. One the transcript already shows as
/// waiting becomes the real one rather than a second copy.
pub open spec fn after_send(m: AgentState, r: Result<(), String>, t: Seq<char>, shown: bool, clock: u64) -> AgentState {
    match r {
        Ok(_) => {
            let gone = AgentState { busy: true, turn_started: Some(clock), ..m };
            if !shown {
                noted(gone, KindState::User(t))
            } else {
                let k = first_queued(m.items, 0);
                if k >= m.items.len() {
                    gone
                } else {
                    AgentState {
                        items: m.items.update(k, ItemState { kind: KindState::User(t), ..m.items[k] }),
                        ..gone
                    }
                }
            }
        },
        Err(e) => noted(AgentState { running: false, ..m }, KindState::Error(e@)),
    }
}

impl AgentPane {
    /// The items after `push` of one more.
    fn add(&mut self, item: Item)
        ensures
            final(self)@ == (AgentState { items: old(self)@.items.push(item@), ..old(self)@ }),
            final(self).rows == old(self).rows,
            final(self).final_len == old(self).final_len,
            final(self).generation == old(self).generation,
            final(self).tail_gen == old(self).tail_gen,
            final(self).laid_for == old(self).laid_for,
            final(self).tail_laid == old(self).tail_laid,
    {
        let ghost before = transcript::item_list(self.items@);
        self.items.push(item);
        assert(transcript::item_list(self.items@) =~= before.push(item@));
    }

    pub fn push_item(&mut self, kind: Kind)
        ensures
            final(self)@ == noted(old(self)@, kind@),
            old(self).counted() ==> final(self).fresh(),
    {
        self.add(Item { kind, message_id: None, provisional: false, revealed: None });
        self.bump();
    }

    /// A streaming item. Drafts only ever sit at the end, so adding one
    /// touches the tail and nothing settled.
    fn push_draft(&mut self, kind: Kind, id: String)
        ensures
            final(self)@ == drafted(old(self)@, kind@, id@),
            final(self).generation == old(self).generation,
            final(self).laid_for == old(self).laid_for,
            old(self).fresh() ==> final(self).fresh(),
    {
        let revealed: Option<usize> = match &kind {
            Kind::Text(_) => Some(0),
            _ => None,
        };
        let ghost before = self@.items;
        self.add(Item { kind, message_id: Some(id), provisional: true, revealed });
        self.bump_tail();
        proof {
            lemma_first_unsettled(before, 0);
            lemma_settled_part(before, self@.items);
        }
    }

    /// Nothing is streaming any more; what is there is what there is.
    fn finish_drafts(&mut self)
        ensures
            final(self)@ == (AgentState { items: undrafted(old(self)@.items), ..old(self)@ }),
            old(self).fresh() ==> final(self).fresh(),
    {
        let ghost start = self@;
        let mut i: usize = 0;
        while i < self.items.len()
            invariant
                i <= self.items.len(),
                self.items@.len() == start.items.len(),
                self@ == (AgentState {
                    items: undrafted(start.items).take(i as int) + start.items.skip(i as int),
                    ..start
                }),
                old(self).counted() ==> self.counted(),
            decreases self.items.len() - i,
        {
            let ghost whole = self.items@;
            self.items[i].provisional = false;
            proof {
                assert(transcript::item_list(self.items@) =~= undrafted(start.items).take(i + 1)
                    + start.items.skip(i + 1)) by {
                    let now = transcript::item_list(self.items@);
                    let was = transcript::item_list(whole);
                    assert(was == undrafted(start.items).take(i as int) + start.items.skip(i as int));
                    assert forall|k: int| 0 <= k < now.len() implies now[k] == (undrafted(start.items).take(
                        i + 1,
                    ) + start.items.skip(i + 1))[k] by {
                        assert(was[k] == (undrafted(start.items).take(i as int) + start.items.skip(i as int))[k]);
                    }
                }
            }
            i = i + 1;
        }
        assert(self@.items =~= undrafted(start.items));
        self.bump();
    }

    /// Drops the turns still waiting from the transcript.
    fn drop_queued(&mut self)
        ensures
            final(self)@ == (AgentState { items: without_queued(old(self)@.items), ..old(self)@ }),
            old(self).counted() ==> final(self).counted(),
    {
        let ghost start = self@;
        let ghost all = start.items;
        let ghost mut done: int = 0;
        let mut i: usize = 0;
        assert(all.take(0) =~= Seq::empty());
        assert(self@.items =~= without_queued(all.take(0)) + all.skip(0));
        while i < self.items.len()
            invariant
                0 <= done <= all.len(),
                i == without_queued(all.take(done)).len(),
                i <= self.items.len(),
                self.items@.len() - i == all.len() - done,
                self@ == (AgentState { items: without_queued(all.take(done)) + all.skip(done), ..start }),
                old(self).counted() ==> self.counted(),
            decreases self.items.len() - i,
        {
            let ghost was = self@.items;
            proof {
                assert(all.take(done + 1).drop_last() =~= all.take(done));
                assert(all.take(done + 1).last() == all[done]);
                assert(was[i as int] == all.skip(done)[0]);
                assert(self.items@[i as int]@ == was[i as int]);
            }
            let waiting: bool = match &self.items[i].kind {
                Kind::Queued(_) => true,
                _ => false,
            };
            if waiting {
                self.items.remove(i);
                proof {
                    assert(self@.items =~= was.remove(i as int));
                    assert(self@.items =~= without_queued(all.take(done + 1)) + all.skip(done + 1));
                }
            } else {
                proof {
                    assert(was =~= without_queued(all.take(done + 1)) + all.skip(done + 1));
                }
                i = i + 1;
            }
            proof {
                done = done + 1;
            }
        }
        proof {
            assert(all.take(done) =~= all);
            assert(self@.items =~= without_queued(all));
        }
    }

    /// The turn is over, however it ended.
    fn turn_over(&mut self, dead: bool)
        ensures
            final(self)@ == turn_ended(old(self)@, dead),
            old(self).fresh() ==> final(self).fresh(),
    {
        self.busy = false;
        self.stopping = false;
        self.turn_started = None;
        self.finish_drafts();
        if dead {
            self.asks.clear();
            self.pick = 0;
            assert(text::texts(self.queue@).len() == self.queue@.len());
            if self.queue.len() > 0 {
                self.queue.clear();
                self.drop_queued();
                assert(text::texts(self.queue@) =~= Seq::empty());
                self.push_item(Kind::Note("queued messages dropped".to_owned()));
            }
        }
    }

    /// What came of starting the process.
    pub fn start(&mut self, r: Result<(), String>)
        ensures
            final(self)@ == after_start(old(self)@, r),
            old(self).fresh() ==> final(self).fresh(),
    {
        match r {
            Ok(_) => {
                self.running = true;
            },
            Err(e) => self.push_item(Kind::Error(e)),
        }
    }

    /// Sends one turn. `shown` says the transcript already has it as a
    /// waiting row.
    fn send_now(&self, t: String, shown: bool) -> (step: Step)
        ensures
            step@ == step_to_send(self@, t@, shown),
    {
        if self.running {
            Step::Send { text: t, shown }
        } else {
            // Stopped, or never started. The session id, when there is one,
            // brings the conversation back.
            let resume: Option<String> = match &self.session_id {
                Some(id) => Some(id.clone()),
                None => None,
            };
            Step::Spawn { resume, text: t, shown }
        }
    }

    /// What came of a [`Step::Spawn`]: with a process up, the turn that
    /// wanted it goes out.
    pub fn spawned(&mut self, r: Result<(), String>, t: String, shown: bool) -> (step: Step)
        ensures
            final(self)@ == after_start(old(self)@, r),
            step@ == (if r is Ok { StepState::Send { text: t@, shown } } else { StepState::Done }),
            old(self).fresh() ==> final(self).fresh(),
    {
        let up: bool = match &r {
            Ok(_) => true,
            Err(_) => false,
        };
        self.start(r);
        if up {
            Step::Send { text: t, shown }
        } else {
            Step::Done
        }
    }

    /// What came of a [`Step::Send`].
    pub fn sent(&mut self, r: Result<(), String>, t: String, shown: bool, clock: u64)
        ensures
            final(self)@ == after_send(old(self)@, r, t@, shown, clock),
            old(self).fresh() ==> final(self).fresh(),
    {
        match r {
            Err(e) => {
                self.running = false;
                self.push_item(Kind::Error(e));
            },
            Ok(_) => {
                self.busy = true;
                self.turn_started = Some(clock);
                if !shown {
                    self.push_item(Kind::User(t));
                    return;
                }
                let ghost start = self@;
                let mut i: usize = 0;
                let mut found: bool = false;
                while i < self.items.len() && !found
                    invariant
                        i <= self.items.len(),
                        self@ == start,
                        old(self).counted() ==> self.counted(),
                        first_queued(start.items, 0) == first_queued(start.items, i as int),
                        found ==> i < self.items.len() && start.items[i as int].kind is Queued,
                    decreases self.items.len() - i + (if found { 0int } else { 1int }),
                {
                    assert(start.items[i as int] == self.items@[i as int]@);
                    match &self.items[i].kind {
                        Kind::Queued(_) => {
                            found = true;
                        },
                        _ => {
                            i = i + 1;
                        },
                    }
                }
                if found {
                    let ghost was = self.items@;
                    self.items[i].kind = Kind::User(t);
                    proof {
                        let now = transcript::item_list(self.items@);
                        assert(now =~= start.items.update(
                            i as int,
                            ItemState { kind: KindState::User(t@), ..start.items[i as int] },
                        ));
                    }
                }
                self.bump();
            },
        }
    }
}

// ------------------------------------------------------------- the question

/// How many answers a question has. "Always" only when a rule to remember was
/// proposed.
pub open spec fn answer_count(asks: Seq<Permission>) -> nat {
    if asks.len() > 0 && asks[0].suggestions@.len() > 0 { 3 } else { 2 }
}

/// The answer under the highlight.
pub open spec fn picked(asks: Seq<Permission>, pick: nat) -> Decision {
    if pick == 0 {
        Decision::Allow { remember: false }
    } else if pick == 1 && answer_count(asks) == 3 {
        Decision::Allow { remember: true }
    } else {
        Decision::Deny
    }
}

/// What an answer reads as in the transcript.
pub open spec fn said(d: Decision) -> Seq<char> {
    match d {
        Decision::Allow { remember } => if remember { "allowed \u{b7} rule saved"@ } else { "allowed"@ },
        Decision::Deny => "denied"@,
    }
}

/// The oldest question answered.
pub open spec fn decided(m: AgentState, d: Decision) -> AgentState {
    if m.asks.len() == 0 {
        AgentState { pick: 0, ..m }
    } else {
        noted(AgentState { pick: 0, asks: m.asks.skip(1), ..m }, KindState::Note(said(d)))
    }
}

/// What an answer asks of the process.
pub open spec fn step_to_answer(m: AgentState, d: Decision) -> StepState {
    if m.asks.len() > 0 && m.running {
        StepState::Respond { ask: m.asks[0], decision: d }
    } else {
        StepState::Done
    }
}

/// A file as a person names it: relative to where the agent works, with
/// forward slashes, when it is in there.
pub open spec fn local_name(p: Seq<char>, cwd: PathState) -> Seq<char> {
    let q = path::path_of(p);
    if path::is_under(q, cwd) {
        text::swapped(path::path_text(path::below(q, cwd)), '\\', '/')
    } else {
        p
    }
}

/// What kind of thing a question asks, and the argument decided on.
pub open spec fn question(ask: Permission, cwd: PathState) -> (Seq<char>, Option<Seq<char>>) {
    let tool = ask.tool_name@;
    let file = match agent::field_from(ask.input.fields@, "file_path"@, 0) {
        Some(p) => Some(local_name(p, cwd)),
        None => None,
    };
    if tool == "Bash"@ {
        ("Run a command?"@, agent::field_from(ask.input.fields@, "command"@, 0))
    } else if tool == "Edit"@ || tool == "MultiEdit"@ || tool == "NotebookEdit"@ {
        ("Change a file?"@, file)
    } else if tool == "Write"@ {
        ("Write a file?"@, file)
    } else if tool == "WebFetch"@ {
        ("Fetch a page?"@, agent::field_from(ask.input.fields@, "url"@, 0))
    } else if tool == "WebSearch"@ {
        ("Search the web?"@, agent::field_from(ask.input.fields@, "query"@, 0))
    } else {
        ("Use a tool?"@, None)
    }
}

/// The one line of the question, before it is cut.
pub open spec fn question_line(ask: Permission, cwd: PathState) -> Seq<char> {
    let what = match question(ask, cwd).1 {
        Some(w) => if text::trimmed(w).len() == 0 { None } else { Some(w) },
        None => None,
    };
    text::trimmed(
        match what {
            Some(w) => w,
            None => text::trimmed(ask.tool_name@ + "  "@ + ask.description@),
        },
    )
}

/// The line as it fits: its first line, in the room there is, with an
/// ellipsis where there was more.
pub open spec fn fitted(whole: Seq<char>, max: nat) -> Seq<char> {
    let room = if max < 8 { 7 } else { (max - 1) as nat };
    let line = text::first_chars(text::trimmed(text::first_line(whole)), room);
    if line.len() < whole.len() { line.push('\u{2026}') } else { line }
}

impl AgentPane {
    /// A question is waiting on the person.
    pub fn needs_answer(&self) -> (r: bool)
        ensures
            r == (self@.asks.len() > 0),
    {
        self.asks.len() > 0
    }

    /// The answers on offer for the question that is up. The rule sent back
    /// is the agent's own, not one made up here.
    pub fn answers(&self) -> (r: Vec<&'static str>)
        ensures
            r@.len() == answer_count(self@.asks),
            r@.len() == 3 ==> r@[0]@ == "Allow"@ && r@[1]@ == "Always allow"@ && r@[2]@ == "Deny"@,
            r@.len() == 2 ==> r@[0]@ == "Allow"@ && r@[1]@ == "Deny"@,
    {
        let mut out: Vec<&'static str> = Vec::new();
        out.push("Allow");
        if self.asks.len() > 0 && self.asks[0].suggestions.len() > 0 {
            out.push("Always allow");
        }
        out.push("Deny");
        out
    }

    /// Left and right between the answers.
    pub fn ask_move(&mut self, delta: i32)
        ensures
            final(self)@ == (AgentState {
                pick: scroll::clamped(
                    old(self)@.pick + delta,
                    answer_count(old(self)@.asks) - 1,
                ) as usize,
                ..old(self)@
            }),
            old(self).fresh() ==> final(self).fresh(),
            0 <= old(self)@.pick + delta < answer_count(old(self)@.asks) ==> final(self)@.pick - delta == old(self)@.pick,
    {
        let last: usize = if self.asks.len() > 0 && self.asks[0].suggestions.len() > 0 { 2 } else { 1 };
        self.pick = stepped(self.pick, delta, last);
    }

    fn local(&self, p: String) -> (r: String)
        ensures
            r@ == local_name(p@, self@.cwd),
    {
        let q: Path = Path::parse(p.as_str());
        match q.strip_prefix(&self.cwd) {
            Some(rest) => {
                let t: String = rest.text();
                swap_char(t.as_str(), '\\', '/')
            },
            None => p,
        }
    }

    fn local_file(&self, ask: &Permission) -> (r: Option<String>)
        ensures
            transcript::opt_text(r) == (match agent::field_from(ask.input.fields@, "file_path"@, 0) {
                Some(p) => Some(local_name(p, self@.cwd)),
                None => None,
            }),
    {
        match ask.input.field("file_path") {
            Some(p) => Some(self.local(p)),
            None => None,
        }
    }

    /// The question as the box words it: what kind of thing is being asked,
    /// and the one argument a person decides on. `max` is the room the box
    /// has for that line; a whole script gets cut, and says so.
    pub fn ask_text(&self, max: usize) -> (r: Option<(String, String)>)
        ensures
            match r {
                Some((title, line)) => {
                    &&& self@.asks.len() > 0
                    &&& title@ == agent::capitalized(self@.name) + " \u{b7} "@ + question(self@.asks[0], self@.cwd).0
                    &&& line@ == fitted(question_line(self@.asks[0], self@.cwd), max as nat)
                },
                None => self@.asks.len() == 0,
            },
    {
        if self.asks.len() == 0 {
            return None;
        }
        let ask: &Permission = &self.asks[0];
        let tool: &str = ask.tool_name.as_str();
        let (title, found): (&str, Option<String>) = if same(tool, "Bash") {
            ("Run a command?", ask.input.field("command"))
        } else if same(tool, "Edit") || same(tool, "MultiEdit") || same(tool, "NotebookEdit") {
            ("Change a file?", self.local_file(ask))
        } else if same(tool, "Write") {
            ("Write a file?", self.local_file(ask))
        } else if same(tool, "WebFetch") {
            ("Fetch a page?", ask.input.field("url"))
        } else if same(tool, "WebSearch") {
            ("Search the web?", ask.input.field("query"))
        } else {
            ("Use a tool?", None)
        };
        let useful: bool = match &found {
            Some(w) => !blank(w.as_str()),
            None => false,
        };
        let what: String = match found {
            Some(w) if useful => w,
            _ => {
                let both: String = joined3(tool, "  ", ask.description.as_str());
                trim(both.as_str())
            },
        };
        let raw: Vec<char> = chars_of(what.as_str());
        let whole: Vec<char> = trim_chars(&raw);
        let first: Vec<char> = text::first_line_of(&whole);
        let line: Vec<char> = trim_chars(&first);
        let room: usize = if max < 8 { 7 } else { max - 1 };
        let short: String = text_of(&line);
        let mut out: String = take_text(short.as_str(), room);
        if out.as_str().unicode_len() < whole.len() {
            out.push('\u{2026}');
        }
        let name: String = with_capital(self.name.as_str());
        Some((joined3(name.as_str(), " \u{b7} ", title), out))
    }

    fn decide(&mut self, d: Decision) -> (step: Step)
        ensures
            final(self)@ == decided(old(self)@, d),
            step@ == step_to_answer(old(self)@, d),
            old(self).fresh() ==> final(self).fresh(),
    {
        self.pick = 0;
        let ghost start = self@;
        match self.asks.pop_front() {
            None => Step::Done,
            Some(ask) => {
                proof {
                    assert(ask == start.asks[0]);
                    assert(self@.asks =~= start.asks.skip(1));
                }
                let word: &str = match d {
                    Decision::Allow { remember } => if remember {
                        "allowed \u{b7} rule saved"
                    } else {
                        "allowed"
                    },
                    Decision::Deny => "denied",
                };
                self.push_item(Kind::Note(word.to_owned()));
                if self.running {
                    Step::Respond { ask, decision: d }
                } else {
                    Step::Done
                }
            },
        }
    }

    /// Enter on the box: the highlighted answer.
    pub fn ask_answer(&mut self) -> (step: Step)
        ensures
            final(self)@ == decided(old(self)@, picked(old(self)@.asks, old(self)@.pick as nat)),
            step@ == step_to_answer(old(self)@, picked(old(self)@.asks, old(self)@.pick as nat)),
            old(self).fresh() ==> final(self).fresh(),
    {
        let always: bool = self.asks.len() > 0 && self.asks[0].suggestions.len() > 0;
        let d: Decision = if self.pick == 0 {
            Decision::Allow { remember: false }
        } else if self.pick == 1 && always {
            Decision::Allow { remember: true }
        } else {
            Decision::Deny
        };
        self.decide(d)
    }

    /// Esc on the box. A question cannot just be dropped (the turn behind it
    /// waits until it hears something), so walking away is a no.
    pub fn ask_deny(&mut self) -> (step: Step)
        ensures
            final(self)@ == decided(old(self)@, Decision::Deny),
            step@ == step_to_answer(old(self)@, Decision::Deny),
            old(self).fresh() ==> final(self).fresh(),
    {
        self.decide(Decision::Deny)
    }

    /// What came of a [`Step::Respond`].
    pub fn responded(&mut self, r: Result<(), String>)
        ensures
            final(self)@ == (match r {
                Ok(_) => old(self)@,
                Err(e) => noted(old(self)@, KindState::Error(e@)),
            }),
            old(self).fresh() ==> final(self).fresh(),
    {
        match r {
            Ok(_) => {},
            Err(e) => self.push_item(Kind::Error(e)),
        }
    }
}

// ------------------------------------------------------------------ the box

/// Pasted text from `i` on, on one line: every line break is a space.
pub open spec fn one_line(s: Seq<char>, i: int) -> Seq<char>
    decreases s.len() - i,
{
    if i < 0 || i >= s.len() {
        Seq::empty()
    } else if s[i] == '\r' && i + 1 < s.len() && s[i + 1] == '\n' {
        seq![' '] + one_line(s, i + 2)
    } else if s[i] == '\r' || s[i] == '\n' {
        seq![' '] + one_line(s, i + 1)
    } else {
        seq![s[i]] + one_line(s, i + 1)
    }
}

/// What is left when the word before the caret goes: everything up to and
/// with the last space before it.
pub open spec fn without_word(s: Seq<char>) -> Seq<char> {
    let n = text::back_white(s, s.len() as int);
    s.take(transcript::last_space(s, 0, n) + 1)
}

/// The pane's own slash commands, never sent on.
pub open spec fn local_list() -> Seq<CompletionState> {
    seq![
        CompletionState {
            name: "mode"@,
            description: "permission mode for this session: default, acceptEdits, plan, bypassPermissions"@,
        },
        CompletionState { name: "model"@, description: "the model for the turns from here on"@ },
        CompletionState { name: "stop"@, description: "stop the turn in flight"@ },
    ]
}

/// The commands whose name begins with what was typed, whatever its case.
pub open spec fn matching(list: Seq<CompletionState>, needle: Seq<char>) -> Seq<CompletionState>
    decreases list.len(),
{
    if list.len() == 0 {
        Seq::empty()
    } else if text::has_prefix(text::lowercase(list.last().name), needle) {
        matching(list.drop_last(), needle).push(list.last())
    } else {
        matching(list.drop_last(), needle)
    }
}

/// Whether a text has white space in it.
pub open spec fn has_white(s: Seq<char>) -> bool {
    exists|i: int| 0 <= i < s.len() && text::is_white(#[trigger] s[i])
}

/// What `/` so far could mean: the pane's own commands, then the agent's for
/// this workspace, narrowed by what is typed. Nothing once white space
/// follows the name: from there the rest is arguments.
pub open spec fn offered(m: AgentState) -> Seq<CompletionState> {
    if m.input.len() == 0 || m.input[0] != '/' || has_white(m.input.skip(1)) {
        Seq::empty()
    } else {
        matching(local_list() + m.skills, text::lowercase(m.input.skip(1)))
    }
}

/// The first place that holds no slash.
pub open spec fn skip_slashes(s: Seq<char>, i: int) -> int
    decreases s.len() - i,
{
    if i < 0 || i >= s.len() {
        s.len() as int
    } else if s[i] == '/' {
        skip_slashes(s, i + 1)
    } else {
        i
    }
}

/// Whether Enter takes a completion rather than sending: one is highlighted
/// and it is not what is already typed.
pub open spec fn completes(m: AgentState) -> bool {
    &&& m.pick_cmd < offered(m).len()
    &&& m.input.skip(skip_slashes(m.input, 0)) != offered(m)[m.pick_cmd as int].name
}

/// The box with the highlighted completion in it, and a space after it for
/// what comes next.
pub open spec fn completed(m: AgentState) -> AgentState {
    if completes(m) {
        AgentState {
            input: "/"@ + offered(m)[m.pick_cmd as int].name + " "@,
            pick_cmd: 0,
            ..m
        }
    } else {
        m
    }
}

/// Esc: stop a turn in flight, else clear the box. The first press asks the
/// agent to stop; a second while that is pending kills the process.
pub open spec fn cancelled(m: AgentState) -> (AgentState, StepState) {
    if !m.busy {
        (AgentState { input: Seq::empty(), ..m }, StepState::Done)
    } else if !m.stopping && m.running {
        (m, StepState::Interrupt)
    } else {
        (after_kill(m), if m.running { StepState::Kill } else { StepState::Done })
    }
}

/// Whether a word names one of the pane's own commands.
pub open spec fn is_local(name: Seq<char>) -> bool {
    exists|i: int| 0 <= i < local_list().len() && (#[trigger] local_list()[i]).name == name
}

/// What a command of the pane's own says when it is given wrongly.
pub open spec fn usage(c: CompletionState) -> Seq<char> {
    "/"@ + c.name + " \u{2014} "@ + c.description
}

/// What a pane's own command does; `None` when it is not one. One that lacks
/// its argument, or has one it does not take, is answered with what it is for.
pub open spec fn commanded(m: AgentState, rest: Seq<char>) -> Option<(AgentState, StepState)> {
    let w = text::words(rest);
    let wrong = |i: int| (noted(m, KindState::Error(usage(local_list()[i]))), StepState::Done);
    let nobody = noted(
        m,
        KindState::Error(m.name + " is not running \u{2014} send a message first"@),
    );
    if w.len() == 0 {
        None
    } else if w[0] == "mode"@ {
        Some(
            if w.len() == 1 {
                wrong(0)
            } else if m.running {
                (m, StepState::SetMode(w[1]))
            } else {
                (nobody, StepState::Done)
            },
        )
    } else if w[0] == "model"@ {
        Some(
            if w.len() == 1 {
                wrong(1)
            } else if m.running {
                (m, StepState::SetModel(w[1]))
            } else {
                (nobody, StepState::Done)
            },
        )
    } else if w[0] == "stop"@ {
        Some(if w.len() == 1 { cancelled(m) } else { wrong(2) })
    } else {
        None
    }
}

/// Enter. A turn goes out, or waits its turn behind the one in flight; a
/// leading slash may be one of the pane's own commands.
pub open spec fn entered(m: AgentState) -> (AgentState, StepState) {
    let t = text::trimmed(m.input);
    if completes(m) {
        (completed(m), StepState::Done)
    } else if t.len() == 0 {
        (m, StepState::Done)
    } else {
        let off = AgentState { input: Seq::empty(), follow: true, ..m };
        let own = if t[0] == '/' { commanded(off, t.skip(1)) } else { None };
        match own {
            Some(done) => done,
            None => if m.busy {
                (
                    noted(AgentState { queue: m.queue.push(t), ..off }, KindState::Queued(t)),
                    StepState::Done,
                )
            } else {
                (off, step_to_send(off, t, false))
            },
        }
    }
}

fn local_commands() -> (r: Vec<Completion>)
    ensures
        agent::completion_list(r@) == local_list(),
{
    let mut out: Vec<Completion> = Vec::new();
    out.push(
        Completion {
            name: "mode".to_owned(),
            description: "permission mode for this session: default, acceptEdits, plan, bypassPermissions".to_owned(),
        },
    );
    out.push(
        Completion { name: "model".to_owned(), description: "the model for the turns from here on".to_owned() },
    );
    out.push(Completion { name: "stop".to_owned(), description: "stop the turn in flight".to_owned() });
    assert(agent::completion_list(out@) =~= local_list());
    out
}

/// Those of `list` whose name begins with `needle`, onto the end of `out`.
fn keep_matching(list: &Vec<Completion>, needle: &Vec<char>, out: &mut Vec<Completion>)
    ensures
        agent::completion_list(final(out)@) == agent::completion_list(old(out)@) + matching(
            agent::completion_list(list@),
            needle@,
        ),
{
    let ghost all = agent::completion_list(list@);
    let ghost before = agent::completion_list(out@);
    let mut i: usize = 0;
    assert(all.take(0) =~= Seq::empty());
    assert(before + matching(all.take(0), needle@) =~= before);
    while i < list.len()
        invariant
            i <= list.len(),
            all == agent::completion_list(list@),
            agent::completion_list(out@) == before + matching(all.take(i as int), needle@),
        decreases list.len() - i,
    {
        let low: String = to_lowercase(list[i].name.as_str());
        let name: Vec<char> = chars_of(low.as_str());
        let ghost done = agent::completion_list(out@);
        proof {
            assert(all.take(i + 1).drop_last() =~= all.take(i as int));
            assert(all.take(i + 1).last() == list@[i as int]@);
        }
        if text::starts_with(&name, needle) {
            let one: Completion = Completion {
                name: list[i].name.clone(),
                description: list[i].description.clone(),
            };
            out.push(one);
            proof {
                assert(agent::completion_list(out@) =~= done.push(one@));
                assert(agent::completion_list(out@) =~= before + matching(all.take(i + 1), needle@));
            }
        }
        i = i + 1;
    }
    assert(all.take(all.len() as int) =~= all);
}

proof fn lemma_matching_add(a: Seq<CompletionState>, b: Seq<CompletionState>, needle: Seq<char>)
    ensures
        matching(a + b, needle) == matching(a, needle) + matching(b, needle),
    decreases b.len(),
{
    if b.len() == 0 {
        assert(a + b =~= a);
        assert(matching(a, needle) + matching(b, needle) =~= matching(a, needle));
    } else {
        assert((a + b).drop_last() =~= a + b.drop_last());
        assert((a + b).last() == b.last());
        lemma_matching_add(a, b.drop_last(), needle);
        assert(matching(a + b, needle) =~= matching(a, needle) + matching(b, needle));
    }
}

impl AgentPane {
    /// A turn is in flight.
    pub fn busy(&self) -> (r: bool)
        ensures
            r == self@.busy,
    {
        self.busy
    }

    /// A process is up.
    pub fn running(&self) -> (r: bool)
        ensures
            r == self@.running,
    {
        self.running
    }

    pub fn input(&self) -> (r: &str)
        ensures
            r@ == self@.input,
    {
        self.input.as_str()
    }

    pub fn pick(&self) -> (r: usize)
        ensures
            r == self@.pick,
    {
        self.pick
    }

    pub fn pick_cmd(&self) -> (r: usize)
        ensures
            r == self@.pick_cmd,
    {
        self.pick_cmd
    }

    pub fn push(&mut self, c: char)
        ensures
            final(self)@ == (AgentState { input: old(self)@.input.push(c), pick_cmd: 0, ..old(self)@ }),
            old(self).fresh() ==> final(self).fresh(),
            final(self)@.input.drop_last() == old(self)@.input && final(self)@.input.last() == c,
    {
        self.input.push(c);
        self.pick_cmd = 0;
    }

    /// Backspace, or Ctrl+Backspace for the word before the caret.
    pub fn backspace(&mut self, word: bool)
        ensures
            final(self)@ == (AgentState {
                input: if word {
                    without_word(old(self)@.input)
                } else if old(self)@.input.len() > 0 {
                    old(self)@.input.drop_last()
                } else {
                    old(self)@.input
                },
                pick_cmd: 0,
                ..old(self)@
            }),
            old(self).fresh() ==> final(self).fresh(),
    {
        self.pick_cmd = 0;
        if !word {
            self.input.pop();
            return;
        }
        let v: Vec<char> = chars_of(self.input.as_str());
        let n: usize = text::back_white_at(&v);
        let mut cut: usize = n;
        while cut > 0 && v[cut - 1] != ' '
            invariant
                cut <= n <= v.len(),
                transcript::last_space(v@, 0, n as int) == transcript::last_space(v@, 0, cut as int),
            decreases cut,
        {
            cut = cut - 1;
        }
        self.input = slice_text(&v, 0, cut);
        assert(self.input@ =~= v@.take(transcript::last_space(v@, 0, n as int) + 1));
    }

    /// Pasted text. One line: the box is one row, and a newline in it would
    /// be a row nobody can see.
    pub fn paste(&mut self, t: &str)
        ensures
            final(self)@ == (AgentState {
                input: old(self)@.input + one_line(t@, 0),
                pick_cmd: 0,
                ..old(self)@
            }),
            old(self).fresh() ==> final(self).fresh(),
    {
        let v: Vec<char> = chars_of(t);
        let ghost start = self.input@;
        let mut input: String = self.input.clone();
        let mut i: usize = 0;
        while i < v.len()
            invariant
                i <= v.len(),
                input@ + one_line(v@, i as int) == start + one_line(v@, 0),
            decreases v.len() - i,
        {
            let ghost was = input@;
            let ghost from = i as int;
            if v[i] == '\r' && i + 1 < v.len() && v[i + 1] == '\n' {
                input.push(' ');
                i = i + 2;
            } else if v[i] == '\r' || v[i] == '\n' {
                input.push(' ');
                i = i + 1;
            } else {
                input.push(v[i]);
                i = i + 1;
            }
            assert(input@ + one_line(v@, i as int) =~= was + one_line(v@, from));
        }
        assert(input@ =~= start + one_line(v@, 0));
        self.input = input;
        self.pick_cmd = 0;
    }

    /// What `/` so far could mean.
    pub fn completions(&self) -> (r: Vec<Completion>)
        ensures
            agent::completion_list(r@) == offered(self@),
    {
        let v: Vec<char> = chars_of(self.input.as_str());
        let mut out: Vec<Completion> = Vec::new();
        assert(agent::completion_list(out@) =~= Seq::empty());
        if v.len() == 0 || v[0] != '/' {
            return out;
        }
        let rest: Vec<char> = sub_chars(&v, 1, v.len());
        assert(rest@ =~= self@.input.skip(1));
        let mut i: usize = 0;
        while i < rest.len()
            invariant
                i <= rest.len(),
                rest@ == self@.input.skip(1),
                out@.len() == 0,
                forall|k: int| 0 <= k < i ==> !text::is_white(#[trigger] rest@[k]),
            decreases rest.len() - i,
        {
            if text::white(rest[i]) {
                assert(has_white(rest@));
                assert(agent::completion_list(out@) =~= Seq::empty());
                return out;
            }
            i = i + 1;
        }
        assert(!has_white(rest@));
        let typed: String = text_of(&rest);
        let low: String = to_lowercase(typed.as_str());
        let needle: Vec<char> = chars_of(low.as_str());
        let own: Vec<Completion> = local_commands();
        keep_matching(&own, &needle, &mut out);
        keep_matching(&self.skills, &needle, &mut out);
        proof {
            lemma_matching_add(local_list(), self@.skills, needle@);
            assert(Seq::<CompletionState>::empty() + matching(local_list(), needle@) =~= matching(
                local_list(),
                needle@,
            ));
        }
        out
    }

    /// Up and down through the completions.
    pub fn complete_move(&mut self, delta: i32)
        ensures
            final(self)@ == (AgentState {
                pick_cmd: scroll::clamped(
                    old(self)@.pick_cmd + delta,
                    scroll::last_of(offered(old(self)@).len()) as int,
                ) as usize,
                ..old(self)@
            }),
            old(self).fresh() ==> final(self).fresh(),
            0 <= old(self)@.pick_cmd + delta < offered(old(self)@).len() ==> final(self)@.pick_cmd - delta == old(self)@.pick_cmd,
    {
        let list: Vec<Completion> = self.completions();
        assert(agent::completion_list(list@).len() == list@.len());
        self.pick_cmd = stepped(self.pick_cmd, delta, last_index(list.len()));
    }

    /// Takes the highlighted completion into the box. Says whether the box
    /// changed: an exact match already typed is not a completion, it is a
    /// command.
    pub fn complete(&mut self) -> (r: bool)
        ensures
            r == completes(old(self)@),
            final(self)@ == completed(old(self)@),
            old(self).fresh() ==> final(self).fresh(),
    {
        let list: Vec<Completion> = self.completions();
        assert(agent::completion_list(list@).len() == list@.len());
        if self.pick_cmd >= list.len() {
            return false;
        }
        let v: Vec<char> = chars_of(self.input.as_str());
        let mut i: usize = 0;
        while i < v.len() && v[i] == '/'
            invariant
                i <= v.len(),
                skip_slashes(v@, 0) == skip_slashes(v@, i as int),
            decreases v.len() - i,
        {
            i = i + 1;
        }
        let typed: String = slice_text(&v, i, v.len());
        proof {
            assert(typed@ =~= v@.skip(i as int));
            assert(agent::completion_list(list@)[self.pick_cmd as int] == list@[self.pick_cmd as int]@);
        }
        let name: &str = list[self.pick_cmd].name.as_str();
        if same(typed.as_str(), name) {
            return false;
        }
        let next: String = joined3("/", name, " ");
        self.input = next;
        self.pick_cmd = 0;
        true
    }

    /// Esc.
    pub fn cancel(&mut self) -> (step: Step)
        ensures
            final(self)@ == cancelled(old(self)@).0,
            step@ == cancelled(old(self)@).1,
            old(self).fresh() ==> final(self).fresh(),
    {
        if !self.busy {
            self.input = String::new();
            assert(self.input@ =~= Seq::<char>::empty());
            return Step::Done;
        }
        if !self.stopping && self.running {
            return Step::Interrupt;
        }
        self.kill()
    }

    /// The process goes, and the turn with it.
    fn kill(&mut self) -> (step: Step)
        ensures
            final(self)@ == after_kill(old(self)@),
            step@ == (if old(self)@.running { StepState::Kill } else { StepState::Done }),
            old(self).fresh() ==> final(self).fresh(),
    {
        let was: bool = self.running;
        self.running = false;
        self.turn_over(true);
        self.push_item(Kind::Note("stopped".to_owned()));
        if was { Step::Kill } else { Step::Done }
    }

    /// What came of a [`Step::Interrupt`]: it went out, or there is nothing
    /// left but to kill.
    pub fn interrupted(&mut self, ok: bool) -> (step: Step)
        ensures
            final(self)@ == (if ok {
                noted(
                    AgentState { stopping: true, ..old(self)@ },
                    KindState::Note("stopping\u{2026} Esc again to kill"@),
                )
            } else {
                after_kill(old(self)@)
            }),
            step@ == (if !ok && old(self)@.running { StepState::Kill } else { StepState::Done }),
            old(self).fresh() ==> final(self).fresh(),
    {
        if ok {
            self.stopping = true;
            self.push_item(Kind::Note("stopping\u{2026} Esc again to kill".to_owned()));
            Step::Done
        } else {
            self.kill()
        }
    }

    /// What came of a [`Step::SetMode`].
    pub fn mode_set(&mut self, mode: &str, r: Result<(), String>)
        ensures
            final(self)@ == (match r {
                Ok(_) => noted(old(self)@, KindState::Note("permission mode \u{2192} "@ + mode@)),
                Err(e) => noted(old(self)@, KindState::Error(e@)),
            }),
            old(self).fresh() ==> final(self).fresh(),
    {
        match r {
            Ok(_) => self.push_item(Kind::Note(joined("permission mode \u{2192} ", mode))),
            Err(e) => self.push_item(Kind::Error(e)),
        }
    }

    /// What came of a [`Step::SetModel`].
    pub fn model_set(&mut self, model: &str, r: Result<(), String>)
        ensures
            final(self)@ == (match r {
                Ok(_) => AgentState {
                    model: Some(model@),
                    ..noted(old(self)@, KindState::Note("model \u{2192} "@ + model@))
                },
                Err(e) => noted(old(self)@, KindState::Error(e@)),
            }),
            old(self).fresh() ==> final(self).fresh(),
    {
        match r {
            Ok(_) => {
                self.push_item(Kind::Note(joined("model \u{2192} ", model)));
                self.model = Some(model.to_owned());
            },
            Err(e) => self.push_item(Kind::Error(e)),
        }
    }

    /// The pane's own slash commands. `None` when it is the agent's.
    fn command(&mut self, rest: &Vec<char>) -> (r: Option<Step>)
        ensures
            match r {
                Some(step) => commanded(old(self)@, rest@) == Some((final(self)@, step@)),
                None => commanded(old(self)@, rest@) is None && final(self)@ == old(self)@,
            },
            old(self).fresh() ==> final(self).fresh(),
    {
        let words: Vec<Vec<char>> = text::split_words(rest);
        let ghost w = text::char_lists(words@);
        assert(w.len() == words@.len());
        if words.len() == 0 {
            return None;
        }
        assert(w[0] == words@[0]@);
        let mode: bool = spells(&words[0], "mode");
        let model: bool = spells(&words[0], "model");
        if words.len() == 1 && (mode || model) {
            return Some(self.misused(if mode { 0 } else { 1 }));
        }
        if mode || model {
            assert(w[1] == words@[1]@);
            if !self.running {
                let said: String = joined(
                    self.name.as_str(),
                    " is not running \u{2014} send a message first",
                );
                self.push_item(Kind::Error(said));
                return Some(Step::Done);
            }
            let arg: String = text_of(&words[1]);
            return Some(if mode { Step::SetMode(arg) } else { Step::SetModel(arg) });
        }
        if spells(&words[0], "stop") {
            return Some(if words.len() == 1 { self.cancel() } else { self.misused(2) });
        }
        None
    }

    /// Says what one of the pane's own commands is for.
    fn misused(&mut self, i: usize) -> (step: Step)
        requires
            i < local_list().len(),
        ensures
            final(self)@ == noted(old(self)@, KindState::Error(usage(local_list()[i as int]))),
            step@ == StepState::Done,
            old(self).fresh() ==> final(self).fresh(),
    {
        let list: Vec<Completion> = local_commands();
        assert(agent::completion_list(list@)[i as int] == list@[i as int]@);
        assert(agent::completion_list(list@).len() == list@.len());
        let head: String = joined("/", list[i].name.as_str());
        self.push_item(Kind::Error(joined3(head.as_str(), " \u{2014} ", list[i].description.as_str())));
        Step::Done
    }

    /// Enter.
    pub fn send(&mut self) -> (step: Step)
        ensures
            final(self)@ == entered(old(self)@).0,
            step@ == entered(old(self)@).1,
            old(self).fresh() ==> final(self).fresh(),
    {
        // With the list up, Enter picks from it first and sends on the next
        // press.
        if self.complete() {
            return Step::Done;
        }
        let raw: Vec<char> = chars_of(self.input.as_str());
        let t: Vec<char> = trim_chars(&raw);
        if t.len() == 0 {
            return Step::Done;
        }
        self.input = String::new();
        assert(self.input@ =~= Seq::<char>::empty());
        self.follow = true;
        if t[0] == '/' {
            let rest: Vec<char> = sub_chars(&t, 1, t.len());
            assert(rest@ =~= t@.skip(1));
            match self.command(&rest) {
                Some(step) => return step,
                // Not ours, so the agent gets it as typed.
                None => {},
            }
        }
        let out: String = text_of(&t);
        if self.busy {
            let ghost waiting = self.queue@;
            self.queue.push_back(out.clone());
            assert(text::texts(self.queue@) =~= text::texts(waiting).push(out@));
            self.push_item(Kind::Queued(out));
            return Step::Done;
        }
        self.send_now(out, false)
    }
}

// --------------------------------------------------------------- the stream

/// A block as an entry.
pub open spec fn block_kind(b: Block) -> KindState {
    match b {
        Block::Text(t) => KindState::Text(t@),
        Block::ToolUse { id, name, input } => KindState::Tool {
            id: id@,
            name: name@,
            summary: agent::summary_of(name@, input),
            result: None,
        },
        Block::Thinking => KindState::Thinking,
    }
}

/// A finished text with nothing in it, which leaves no entry.
pub open spec fn is_blank_block(b: Block) -> bool {
    match b {
        Block::Text(t) => text::trimmed(t@).len() == 0,
        _ => false,
    }
}

/// How many of the first `n` blocks are texts that leave an entry.
pub open spec fn texts_before(blocks: Seq<Block>, n: int) -> nat
    decreases n,
{
    if n <= 0 {
        0
    } else {
        texts_before(blocks, n - 1) + (if blocks[n - 1] is Text && !is_blank_block(blocks[n - 1]) { 1nat } else { 0 })
    }
}

/// How much of a finished text is on screen at once: as much of it as its
/// draft had let out, so that it goes on from there.
pub open spec fn carried(out: Seq<usize>, k: nat, len: nat) -> nat {
    if k < out.len() {
        if out[k as int] <= len { out[k as int] as nat } else { len }
    } else {
        0
    }
}

/// The entries of a finished message's first `n` blocks. What the drafts had
/// let out carries over to the texts, in order.
pub open spec fn finished(blocks: Seq<Block>, id: Seq<char>, out: Seq<usize>, n: int) -> Seq<ItemState>
    decreases n,
{
    if n <= 0 {
        Seq::empty()
    } else {
        let before = finished(blocks, id, out, n - 1);
        let b = blocks[n - 1];
        if is_blank_block(b) {
            before
        } else {
            before.push(
                ItemState {
                    kind: block_kind(b),
                    message_id: Some(id),
                    provisional: false,
                    revealed: match b {
                        Block::Text(t) => Some(
                            carried(out, texts_before(blocks, n - 1), t@.len()) as usize,
                        ),
                        _ => None,
                    },
                },
            )
        }
    }
}

/// The finished message in place of its drafts.
pub open spec fn after_message(m: AgentState, id: Seq<char>, blocks: Seq<Block>) -> AgentState {
    AgentState {
        items: without_drafts(m.items, id) + finished(
            blocks,
            id,
            let_out(m.items, id),
            blocks.len() as int,
        ),
        ..m
    }
}

/// A piece of streamed text on the end of its draft; a draft of its own when
/// the start was missed.
pub open spec fn after_delta(m: AgentState, id: Seq<char>, t: Seq<char>) -> AgentState {
    let k = delta_at(m.items, id, m.items.len() as int);
    if k < 0 {
        drafted(m, KindState::Text(t), id)
    } else {
        AgentState {
            items: m.items.update(
                k,
                ItemState { kind: KindState::Text(m.items[k].kind->Text_0 + t), ..m.items[k] },
            ),
            ..m
        }
    }
}

/// The first line with anything on it at or after `i`, trimmed.
pub open spec fn first_full_line(lines: Seq<Seq<char>>, i: int) -> Seq<char>
    decreases lines.len() - i,
{
    if i < 0 || i >= lines.len() {
        Seq::empty()
    } else if text::trimmed(lines[i]).len() > 0 {
        text::trimmed(lines[i])
    } else {
        first_full_line(lines, i + 1)
    }
}

/// A tool call with what it came back with.
pub open spec fn with_result(k: KindState, bad: bool, t: Seq<char>) -> KindState {
    match k {
        KindState::Tool { id, name, summary, .. } => KindState::Tool {
            id,
            name,
            summary,
            result: Some((bad, transcript::clipped(first_full_line(text::lines(t), 0)))),
        },
        other => other,
    }
}

/// A tool's result on its call.
pub open spec fn after_tool(m: AgentState, id: Seq<char>, bad: bool, t: Seq<char>) -> AgentState {
    let k = call_at(m.items, id, m.items.len() as int);
    if k < 0 {
        m
    } else {
        AgentState {
            items: m.items.update(
                k,
                ItemState { kind: with_result(m.items[k].kind, bad, t), ..m.items[k] },
            ),
            ..m
        }
    }
}

/// Whether that result means a file was written.
pub open spec fn tool_edited(m: AgentState, id: Seq<char>, bad: bool) -> bool {
    let k = call_at(m.items, id, m.items.len() as int);
    k >= 0 && !bad && (match m.items[k].kind {
        KindState::Tool { name, .. } => agent::is_writer(name),
        _ => false,
    })
}

/// Whether the plan's wall has been hit.
pub open spec fn at_wall(l: Option<Limits>) -> bool {
    match l {
        Some(l) => l.rejected,
        None => false,
    }
}

/// What the end of a turn reads as.
pub open spec fn turn_verdict(m: AgentState, bad: bool, secs: Seq<char>, t: Option<Seq<char>>) -> KindState {
    if m.stopping {
        KindState::Note("stopped"@)
    } else if bad {
        KindState::Error(
            "turn ended: "@ + (if at_wall(m.limits) {
                "usage limit"@
            } else {
                match t {
                    Some(w) => w,
                    None => "failed"@,
                }
            }),
        )
    } else {
        KindState::Note(secs + "s"@)
    }
}

/// The end of a turn, before the next waiting one is taken.
pub open spec fn after_result(
    m: AgentState,
    bad: bool,
    cost: Option<Cost>,
    turns: u64,
    secs: Seq<char>,
    t: Option<Seq<char>>,
) -> AgentState {
    noted(
        AgentState {
            cost: if cost is Some { cost } else { m.cost },
            turns,
            ..turn_ended(m, false)
        },
        turn_verdict(m, bad, secs, t),
    )
}

/// The next waiting turn taken off the queue, and the step that sends it.
pub open spec fn next_queued(m: AgentState) -> (AgentState, StepState) {
    if m.queue.len() == 0 {
        (m, StepState::Done)
    } else {
        (AgentState { queue: m.queue.skip(1), ..m }, step_to_send(m, m.queue[0], true))
    }
}

/// The windows as reported. Hitting the wall is said once, so the turn that
/// dies right after has a visible reason.
pub open spec fn after_limits(m: AgentState, l: Limits, now: u64) -> AgentState {
    let seen = AgentState { limits: Some(l), ..m };
    if l.rejected && !at_wall(m.limits) {
        let when = match l.five_hour {
            Some(w) => " \u{b7} resets in "@ + agent::time_until(w.resets_at as nat, now as nat),
            None => ""@,
        };
        noted(seen, KindState::Error("usage limit reached"@ + when))
    } else {
        seen
    }
}

/// One event into the transcript.
pub open spec fn applied(m: AgentState, e: Event, now: u64) -> (AgentState, StepState) {
    match e {
        Event::Init { session_id, model } => (
            AgentState { session_id: Some(session_id@), model: Some(model@), ..m },
            StepState::Done,
        ),
        Event::BlockStart { message_id, block } => (
            drafted(m, block_kind(block), message_id@),
            StepState::Done,
        ),
        Event::TextDelta { message_id, text } => (after_delta(m, message_id@, text@), StepState::Done),
        Event::Assistant { message_id, blocks } => (
            after_message(m, message_id@, blocks@),
            StepState::Done,
        ),
        Event::ToolResult { tool_use_id, is_error, text } => (
            after_tool(m, tool_use_id@, is_error, text@),
            StepState::Done,
        ),
        Event::Result { is_error, cost, turns, secs, text } => next_queued(
            after_result(m, is_error, cost, turns, secs@, transcript::opt_text(text)),
        ),
        Event::Permission(ask) => (AgentState { asks: m.asks.push(ask), ..m }, StepState::Done),
        Event::Control { error } => (
            match error {
                Some(e) => noted(m, KindState::Error(m.name + " refused: "@ + e@)),
                None => m,
            },
            StepState::Done,
        ),
        Event::RateLimit(limits) => (after_limits(m, limits, now), StepState::Done),
        Event::Stderr(line) => (noted(m, KindState::Error(line@)), StepState::Done),
        Event::Exited => {
            let over = turn_ended(AgentState { running: false, ..m }, true);
            (
                if m.busy && !m.stopping {
                    noted(over, KindState::Error(m.name + " exited mid-turn"@))
                } else {
                    over
                },
                StepState::Done,
            )
        },
    }
}

/// Whether an event means a file was written.
pub open spec fn edits(m: AgentState, e: Event) -> bool {
    match e {
        Event::ToolResult { tool_use_id, is_error, .. } => tool_edited(m, tool_use_id@, is_error),
        _ => false,
    }
}

/// Whether an event only streams.
pub open spec fn streams(e: Event) -> bool {
    e is BlockStart || e is TextDelta
}

proof fn lemma_delta_at(items: Seq<ItemState>, id: Seq<char>, n: int)
    requires
        0 <= n <= items.len(),
    ensures
        -1 <= delta_at(items, id, n) < n || n == 0,
        delta_at(items, id, n) < n,
        delta_at(items, id, n) >= 0 ==> takes_delta(items[delta_at(items, id, n)], id),
    decreases n,
{
    if n > 0 && !takes_delta(items[n - 1], id) {
        lemma_delta_at(items, id, n - 1);
    }
}

fn same_id(a: &Option<String>, b: &str) -> (r: bool)
    ensures
        r == (transcript::opt_text(*a) == Some(b@)),
{
    match a {
        Some(t) => same(t.as_str(), b),
        None => false,
    }
}

fn entry_of(b: Block) -> (r: Kind)
    ensures
        r@ == block_kind(b),
{
    match b {
        Block::Text(t) => Kind::Text(t),
        Block::ToolUse { id, name, input } => {
            let summary: String = summarize(name.as_str(), &input);
            Kind::Tool { id, name, summary, result: None }
        },
        Block::Thinking => Kind::Thinking,
    }
}

impl AgentPane {
    /// A draft of the message, at that place.
    fn draft_at(&self, i: usize, id: &str) -> (r: bool)
        requires
            i < self.items@.len(),
        ensures
            r == is_draft_of(self@.items[i as int], id@),
    {
        assert(self@.items[i as int] == self.items@[i as int]@);
        self.items[i].provisional && same_id(&self.items[i].message_id, id)
    }

    fn delta(&mut self, id: String, t: String)
        ensures
            final(self)@ == after_delta(old(self)@, id@, t@),
            final(self).generation == old(self).generation,
            final(self).laid_for == old(self).laid_for,
            old(self).fresh() ==> final(self).fresh(),
    {
        let ghost m = self@;
        let mut n: usize = self.items.len();
        let mut found: bool = false;
        while n > 0 && !found
            invariant
                n <= self.items@.len(),
                *self == *old(self),
                m == self@,
                found ==> n > 0 && takes_delta(m.items[n - 1], id@),
                delta_at(m.items, id@, m.items.len() as int) == delta_at(m.items, id@, n as int),
            decreases n + (if found { 0int } else { 1int }),
        {
            assert(m.items[n - 1] == self.items@[n - 1]@);
            let text: bool = match &self.items[n - 1].kind {
                Kind::Text(_) => true,
                _ => false,
            };
            if text && self.draft_at(n - 1, id.as_str()) {
                found = true;
            } else {
                n = n - 1;
            }
        }
        if !found {
            self.push_draft(Kind::Text(t), id);
            return;
        }
        let k: usize = n - 1;
        let grown: String = match &self.items[k].kind {
            Kind::Text(had) => joined(had.as_str(), t.as_str()),
            _ => t,
        };
        let ghost was = self.items@;
        assert(m.items[k as int] == was[k as int]@);
        self.items[k].kind = Kind::Text(grown);
        proof {
            assert(grown@ == m.items[k as int].kind->Text_0 + t@);
            assert(transcript::item_list(self.items@) =~= m.items.update(
                k as int,
                ItemState { kind: KindState::Text(grown@), ..m.items[k as int] },
            ));
        }
        self.bump_tail();
        proof {
            lemma_first_unsettled(m.items, 0);
            let e = first_unsettled(m.items, 0);
            assert(e <= k) by {
                if k < e {
                    assert(!transcript::is_unsettled(m.items[k as int]));
                }
            }
            lemma_settled_part(m.items, self@.items);
        }
    }

    /// Takes the drafts of a message out, handing back how far their texts
    /// had been let out. Rows that showed one are out of date.
    fn take_drafts(&mut self, id: &str) -> (r: Vec<usize>)
        ensures
            final(self)@ == (AgentState { items: without_drafts(old(self)@.items, id@), ..old(self)@ }),
            r@ == let_out(old(self)@.items, id@),
            old(self).fresh() ==> final(self).fresh(),
    {
        let ghost start = self@;
        let ghost all = start.items;
        let ghost mut done: int = 0;
        let mut seen: Vec<usize> = Vec::new();
        let mut gone: bool = false;
        let mut i: usize = 0;
        assert(all.take(0) =~= Seq::empty());
        assert(self@.items =~= without_drafts(all.take(0), id@) + all.skip(0));
        while i < self.items.len()
            invariant
                0 <= done <= all.len(),
                all == start.items,
                start == old(self)@,
                i == without_drafts(all.take(done), id@).len(),
                i <= self.items.len(),
                self.items@.len() - i == all.len() - done,
                self@ == (AgentState { items: without_drafts(all.take(done), id@) + all.skip(done), ..start }),
                seen@ == let_out(all.take(done), id@),
                !gone ==> self@.items == all,
                self.rows == old(self).rows,
                self.final_len == old(self).final_len,
                self.generation == old(self).generation,
                self.tail_gen == old(self).tail_gen,
                self.laid_for == old(self).laid_for,
                self.tail_laid == old(self).tail_laid,
            decreases self.items.len() - i,
        {
            let ghost was = self@.items;
            proof {
                assert(all.take(done + 1).drop_last() =~= all.take(done));
                assert(all.take(done + 1).last() == all[done]);
                assert(was[i as int] == all.skip(done)[0]);
                assert(self.items@[i as int]@ == was[i as int]);
            }
            if self.draft_at(i, id) {
                let text: bool = match &self.items[i].kind {
                    Kind::Text(_) => true,
                    _ => false,
                };
                if text {
                    let n: usize = match self.items[i].revealed {
                        Some(n) => n,
                        None => 0,
                    };
                    seen.push(n);
                }
                self.items.remove(i);
                gone = true;
                proof {
                    assert(self@.items =~= was.remove(i as int));
                    assert(self@.items =~= without_drafts(all.take(done + 1), id@) + all.skip(done + 1));
                }
            } else {
                proof {
                    assert(was =~= without_drafts(all.take(done + 1), id@) + all.skip(done + 1));
                }
                i = i + 1;
            }
            proof {
                done = done + 1;
            }
        }
        proof {
            assert(all.take(done) =~= all);
            assert(self@.items =~= without_drafts(all, id@));
        }
        if gone {
            self.bump();
        }
        seen
    }

    /// The finished message replaces its draft. Tool inputs are complete here
    /// where the draft's were empty, which is what the summary and the file
    /// path need.
    fn message(&mut self, id: String, blocks: Vec<Block>)
        ensures
            final(self)@ == after_message(old(self)@, id@, blocks@),
            old(self).fresh() ==> final(self).fresh(),
    {
        let ghost m = self@;
        let seen: Vec<usize> = self.take_drafts(id.as_str());
        let ghost kept = self@.items;
        let mut blocks = blocks;
        let ghost all = blocks@;
        let mut at: usize = 0;
        let ghost mut n: int = 0;
        assert(all.skip(0) =~= all);
        assert(self@.items =~= kept + finished(all, id@, seen@, 0));
        while blocks.len() > 0
            invariant
                0 <= n <= all.len(),
                blocks@ == all.skip(n),
                at <= seen@.len(),
                at == (if texts_before(all, n) <= seen@.len() { texts_before(all, n) } else { seen@.len() }),
                self@ == (AgentState { items: kept + finished(all, id@, seen@, n), ..m }),
                old(self).fresh() ==> self.fresh(),
            decreases blocks@.len(),
        {
            let ghost b = all[n];
            let ghost before = self@.items;
            assert(blocks@[0] == b);
            let block: Block = blocks.remove(0);
            proof {
                assert(blocks@ =~= all.skip(n + 1));
                assert(block == b);
            }
            let skip: bool = match &block {
                Block::Text(t) => blank(t.as_str()),
                _ => false,
            };
            if !skip {
                let revealed: Option<usize> = match &block {
                    Block::Text(t) => {
                        let total: usize = t.as_str().unicode_len();
                        let had: usize = if at < seen.len() { seen[at] } else { 0 };
                        if at < seen.len() {
                            at = at + 1;
                        }
                        Some(if had <= total { had } else { total })
                    },
                    _ => None,
                };
                let item: Item = Item {
                    kind: entry_of(block),
                    message_id: Some(id.clone()),
                    provisional: false,
                    revealed,
                };
                self.add(item);
                self.bump();
                proof {
                    assert(finished(all, id@, seen@, n + 1) == finished(all, id@, seen@, n).push(item@));
                    assert(self@.items =~= kept + finished(all, id@, seen@, n + 1));
                }
            }
            proof {
                n = n + 1;
            }
        }
        assert(n == all.len());
    }

    fn tool_result(&mut self, id: String, bad: bool, t: String) -> (edited: bool)
        ensures
            final(self)@ == after_tool(old(self)@, id@, bad, t@),
            edited == tool_edited(old(self)@, id@, bad),
            old(self).fresh() ==> final(self).fresh(),
    {
        let ghost m = self@;
        let v: Vec<char> = chars_of(t.as_str());
        let lines: Vec<Vec<char>> = text::split_lines(&v);
        let ghost all = text::char_lists(lines@);
        let mut first: String = String::new();
        assert(first@ =~= Seq::<char>::empty());
        let mut i: usize = 0;
        let mut got: bool = false;
        while i < lines.len() && !got
            invariant
                i <= lines.len(),
                all == text::char_lists(lines@),
                !got ==> first@ == Seq::<char>::empty() && first_full_line(all, 0) == first_full_line(
                    all,
                    i as int,
                ),
                got ==> first@ == first_full_line(all, 0),
            decreases lines.len() - i + (if got { 0int } else { 1int }),
        {
            assert(all[i as int] == lines@[i as int]@);
            let line: Vec<char> = trim_chars(&lines[i]);
            if line.len() > 0 {
                first = text_of(&line);
                got = true;
            } else {
                i = i + 1;
            }
        }
        assert(first@ == first_full_line(text::lines(t@), 0));
        let mut n: usize = self.items.len();
        let mut found: bool = false;
        while n > 0 && !found
            invariant
                n <= self.items@.len(),
                *self == *old(self),
                m == self@,
                found ==> n > 0 && m.items[n - 1].kind is Tool && call_at(m.items, id@, n as int) == n - 1,
                call_at(m.items, id@, m.items.len() as int) == call_at(m.items, id@, n as int),
            decreases n + (if found { 0int } else { 1int }),
        {
            assert(m.items[n - 1] == self.items@[n - 1]@);
            let hit: bool = match &self.items[n - 1].kind {
                Kind::Tool { id: own, .. } => same(own.as_str(), id.as_str()),
                _ => false,
            };
            if hit {
                found = true;
            } else {
                n = n - 1;
            }
        }
        let mut edited: bool = false;
        if found {
            let k: usize = n - 1;
            assert(m.items[k as int] == self.items@[k as int]@);
            let next: Kind = match &self.items[k].kind {
                Kind::Tool { id: own, name, summary, .. } => {
                    edited = !bad && writes_files(name.as_str());
                    Kind::Tool {
                        id: own.clone(),
                        name: name.clone(),
                        summary: summary.clone(),
                        result: Some((bad, clip(first.as_str()))),
                    }
                },
                _ => Kind::Thinking,
            };
            assert(next@ == with_result(m.items[k as int].kind, bad, t@));
            self.items[k].kind = next;
            assert(transcript::item_list(self.items@) =~= m.items.update(
                k as int,
                ItemState { kind: next@, ..m.items[k as int] },
            ));
        }
        self.bump();
        edited
    }

    fn result(&mut self, bad: bool, cost: Option<Cost>, turns: u64, secs: String, t: Option<String>) -> (step: Step)
        ensures
            ({
                let m = after_result(old(self)@, bad, cost, turns, secs@, transcript::opt_text(t));
                final(self)@ == next_queued(m).0 && step@ == next_queued(m).1
            }),
            old(self).fresh() ==> final(self).fresh(),
    {
        let stopped: bool = self.stopping;
        self.turn_over(false);
        if cost.is_some() {
            self.cost = cost;
        }
        self.turns = turns;
        if stopped {
            self.push_item(Kind::Note("stopped".to_owned()));
        } else if bad {
            // The wall was already announced when it was hit; the agent's own
            // sentence about it is the last text, so this row only says why.
            let wall: bool = match &self.limits {
                Some(l) => l.rejected,
                None => false,
            };
            let what: String = if wall {
                "usage limit".to_owned()
            } else {
                match t {
                    Some(w) => w,
                    None => "failed".to_owned(),
                }
            };
            self.push_item(Kind::Error(joined("turn ended: ", what.as_str())));
        } else {
            self.push_item(Kind::Note(joined(secs.as_str(), "s")));
        }
        let ghost over = self@;
        let ghost waiting = self.queue@;
        match self.queue.pop_front() {
            Some(next) => {
                proof {
                    assert(over.queue[0] == next@);
                    assert(text::texts(self.queue@) =~= over.queue.skip(1));
                }
                self.send_now(next, true)
            },
            None => {
                assert(over.queue.len() == waiting.len());
                Step::Done
            },
        }
    }

    fn rate_limit(&mut self, limits: Limits, now: u64)
        ensures
            final(self)@ == after_limits(old(self)@, limits, now),
            old(self).fresh() ==> final(self).fresh(),
    {
        let wall: bool = match &self.limits {
            Some(l) => l.rejected,
            None => false,
        };
        if limits.rejected && !wall {
            let when: String = match &limits.five_hour {
                Some(w) => {
                    let t: String = in_time(w.resets_at, now);
                    joined(" \u{b7} resets in ", t.as_str())
                },
                None => "".to_owned(),
            };
            self.push_item(Kind::Error(joined("usage limit reached", when.as_str())));
        }
        self.limits = Some(limits);
    }

    /// One event into the transcript. `now` is the time in Unix seconds.
    pub fn apply(&mut self, event: Event, out: &mut Poll, now: u64) -> (step: Step)
        ensures
            final(self)@ == applied(old(self)@, event, now).0,
            step@ == applied(old(self)@, event, now).1,
            final(out).changed == old(out).changed,
            final(out).edited == (old(out).edited || edits(old(self)@, event)),
            old(self).fresh() ==> final(self).fresh(),
            streams(event) ==> final(self).generation == old(self).generation && final(self).laid_for
                == old(self).laid_for,
    {
        match event {
            Event::Init { session_id, model } => {
                self.session_id = Some(session_id);
                self.model = Some(model);
                Step::Done
            },
            Event::BlockStart { message_id, block } => {
                let kind: Kind = entry_of(block);
                self.push_draft(kind, message_id);
                Step::Done
            },
            Event::TextDelta { message_id, text } => {
                self.delta(message_id, text);
                Step::Done
            },
            Event::Assistant { message_id, blocks } => {
                self.message(message_id, blocks);
                Step::Done
            },
            Event::ToolResult { tool_use_id, is_error, text } => {
                let edited: bool = self.tool_result(tool_use_id, is_error, text);
                if edited {
                    out.edited = true;
                }
                Step::Done
            },
            Event::Result { is_error, cost, turns, secs, text } => self.result(
                is_error,
                cost,
                turns,
                secs,
                text,
            ),
            Event::Permission(ask) => {
                self.asks.push_back(ask);
                Step::Done
            },
            Event::Control { error } => {
                match error {
                    Some(e) => {
                        let said: String = joined3(self.name.as_str(), " refused: ", e.as_str());
                        self.push_item(Kind::Error(said));
                    },
                    None => {},
                }
                Step::Done
            },
            Event::RateLimit(limits) => {
                self.rate_limit(limits, now);
                Step::Done
            },
            Event::Stderr(line) => {
                self.push_item(Kind::Error(line));
                Step::Done
            },
            Event::Exited => {
                let mid_turn: bool = self.busy && !self.stopping;
                self.running = false;
                self.turn_over(true);
                if mid_turn {
                    let said: String = joined(self.name.as_str(), " exited mid-turn");
                    self.push_item(Kind::Error(said));
                }
                Step::Done
            },
        }
    }

    /// One event of those a poll found.
    pub fn poll(&mut self, event: Event, out: &mut Poll, now: u64) -> (step: Step)
        ensures
            final(self)@ == applied(old(self)@, event, now).0,
            step@ == applied(old(self)@, event, now).1,
            final(out).changed,
            final(out).edited == (old(out).edited || edits(old(self)@, event)),
            old(self).fresh() ==> final(self).fresh(),
    {
        out.changed = true;
        self.apply(event, out, now)
    }
}

} // verus!
