//! What the agent pane looks like: its rows, its title, its hint, and the
//! frames that let streamed text out.
use std::collections::VecDeque;
use vstd::prelude::*;
use vstd::slice::slice_subrange;
use vstd::string::*;
use crate::agent;
use crate::agent::{in_capitals, in_time, Completion, REVEAL_FLOOR, REVEAL_SHARE};
use crate::agent_pane;
use crate::agent_pane::{AgentPane, AgentState};
use crate::path::Path;
use crate::scroll;
use crate::scroll::{max_top, stepped_up};
use crate::text;
use crate::text::{decimal_text, join_texts, joined, joined3};
use crate::transcript;
use crate::transcript::{layout, ItemState, Kind, KindState, Row};

verus! {

// --------------------------------------------------------------- the frames

/// How many characters a frame lets out of a backlog.
pub open spec fn reveal_step(backlog: nat) -> nat {
    let share = backlog / (REVEAL_SHARE as nat);
    if share < REVEAL_FLOOR { REVEAL_FLOOR as nat } else { share }
}

/// An item one frame later. All out, a draft stays a draft until its message
/// lands; a finished one is settled from here.
pub open spec fn frame(i: ItemState) -> ItemState {
    match (i.revealed, i.kind) {
        (Some(n), KindState::Text(t)) => if n >= t.len() {
            if i.provisional { i } else { ItemState { revealed: None, ..i } }
        } else {
            let next = n + reveal_step((t.len() - n) as nat);
            ItemState {
                revealed: Some((if next < t.len() { next as int } else { t.len() as int }) as usize),
                ..i
            }
        },
        _ => i,
    }
}

/// A text of which a frame lets more out.
pub open spec fn moves(i: ItemState) -> bool {
    match (i.revealed, i.kind) {
        (Some(n), KindState::Text(t)) => n < t.len(),
        _ => false,
    }
}

/// A finished text that is all out.
pub open spec fn settles(i: ItemState) -> bool {
    match (i.revealed, i.kind) {
        (Some(n), KindState::Text(t)) => n >= t.len() && !i.provisional,
        _ => false,
    }
}

pub open spec fn any_moves(items: Seq<ItemState>) -> bool {
    exists|i: int| 0 <= i < items.len() && moves(#[trigger] items[i])
}

pub open spec fn any_settles(items: Seq<ItemState>) -> bool {
    exists|i: int| 0 <= i < items.len() && settles(#[trigger] items[i])
}

/// The items one frame later.
pub open spec fn framed(items: Seq<ItemState>) -> Seq<ItemState> {
    Seq::new(items.len(), |i: int| frame(items[i]))
}

/// How much of an item there is left to do before nothing moves.
pub open spec fn remaining(i: ItemState) -> nat {
    match (i.revealed, i.kind) {
        (Some(n), KindState::Text(t)) => (if n < t.len() { (t.len() - n) as nat } else { 0 }) + (if i.provisional {
            0nat
        } else {
            1
        }),
        _ => 0,
    }
}

pub open spec fn backlog(items: Seq<ItemState>) -> nat
    decreases items.len(),
{
    if items.len() == 0 {
        0
    } else {
        backlog(items.drop_last()) + remaining(items.last())
    }
}

proof fn lemma_frame_remaining(i: ItemState)
    requires
        match i.kind {
            KindState::Text(t) => t.len() <= usize::MAX,
            _ => true,
        },
    ensures
        remaining(frame(i)) <= remaining(i),
        moves(i) || settles(i) ==> remaining(frame(i)) < remaining(i),
        !moves(i) && !settles(i) ==> frame(i) == i,
{
}

/// A frame that changes anything leaves less to do, so letting text out comes
/// to an end; and a frame that changes nothing leaves the items as they are.
pub proof fn letting_out_comes_to_an_end(items: Seq<ItemState>)
    requires
        forall|i: int|
            0 <= i < items.len() ==> ((#[trigger] items[i]).kind matches KindState::Text(t) ==> t.len()
                <= usize::MAX),
    ensures
        backlog(framed(items)) <= backlog(items),
        any_moves(items) || any_settles(items) ==> backlog(framed(items)) < backlog(items),
        !any_moves(items) && !any_settles(items) ==> framed(items) == items,
    decreases items.len(),
{
    if items.len() > 0 {
        let front = items.drop_last();
        assert forall|i: int| 0 <= i < front.len() implies ((#[trigger] front[i]).kind matches KindState::Text(
            t,
        ) ==> t.len() <= usize::MAX) by {
            assert(front[i] == items[i]);
        }
        letting_out_comes_to_an_end(front);
        assert(items[items.len() - 1] == items.last());
        lemma_frame_remaining(items.last());
        assert(framed(items).drop_last() =~= framed(front));
        assert(framed(items).last() == frame(items.last()));
        if any_moves(items) {
            let k = choose|i: int| 0 <= i < items.len() && moves(#[trigger] items[i]);
            if k < front.len() {
                assert(front[k] == items[k]);
                assert(any_moves(front));
            }
        }
        if any_settles(items) {
            let k = choose|i: int| 0 <= i < items.len() && settles(#[trigger] items[i]);
            if k < front.len() {
                assert(front[k] == items[k]);
                assert(any_settles(front));
            }
        }
        if !any_moves(items) && !any_settles(items) {
            assert forall|i: int| 0 <= i < items.len() implies framed(items)[i] == items[i] by {
                assert(!moves(items[i]) && !settles(items[i]));
            }
            assert(framed(items) =~= items);
        }
    } else {
        assert(framed(items) =~= items);
    }
}

/// When nothing moves any more, every finished text shows all of it.
pub proof fn still_means_all_out(items: Seq<ItemState>, i: int)
    requires
        !any_moves(items),
        !any_settles(items),
        0 <= i < items.len(),
        !items[i].provisional,
        items[i].kind is Text,
    ensures
        items[i].revealed is None,
        transcript::shown_text(items[i], items[i].kind->Text_0) == items[i].kind->Text_0,
{
    assert(!moves(items[i]) && !settles(items[i]));
}

impl AgentPane {
    /// One frame of letting streamed text out. Says whether anything moved,
    /// which is whether a repaint is owed.
    pub fn animate(&mut self) -> (r: bool)
        ensures
            final(self)@ == (AgentState { items: framed(old(self)@.items), ..old(self)@ }),
            r == (any_moves(old(self)@.items) || any_settles(old(self)@.items)),
            old(self).fresh() ==> final(self).fresh(),
            !any_settles(old(self)@.items) ==> final(self).generation == old(self).generation
                && final(self).laid_for == old(self).laid_for,
    {
        let ghost m = self@;
        let ghost all = m.items;
        let mut moved: bool = false;
        let mut settled: bool = false;
        let mut i: usize = 0;
        assert(self@.items =~= framed(all).take(0) + all.skip(0));
        while i < self.items.len()
            invariant
                i <= self.items@.len(),
                self.items@.len() == all.len(),
                m == old(self)@,
                all == m.items,
                self@ == (AgentState { items: framed(all).take(i as int) + all.skip(i as int), ..m }),
                self.rows == old(self).rows,
                self.final_len == old(self).final_len,
                self.generation == old(self).generation,
                self.tail_gen == old(self).tail_gen,
                self.laid_for == old(self).laid_for,
                self.tail_laid == old(self).tail_laid,
                moved == exists|k: int| 0 <= k < i && moves(#[trigger] all[k]),
                settled == exists|k: int| 0 <= k < i && settles(#[trigger] all[k]),
            decreases self.items.len() - i,
        {
            let ghost was = self.items@;
            proof {
                assert(self@.items[i as int] == all[i as int]);
                assert(self.items@[i as int]@ == self@.items[i as int]);
            }
            let total: Option<usize> = match &self.items[i].kind {
                Kind::Text(t) => Some(t.as_str().unicode_len()),
                _ => None,
            };
            let next: Option<usize> = match (self.items[i].revealed, total) {
                (Some(n), Some(total)) => {
                    if n >= total {
                        if self.items[i].provisional {
                            Some(n)
                        } else {
                            settled = true;
                            None
                        }
                    } else {
                        let share: usize = (total - n) / REVEAL_SHARE;
                        let step: usize = if share < REVEAL_FLOOR { REVEAL_FLOOR } else { share };
                        moved = true;
                        Some(if total - n <= step { total } else { n + step })
                    }
                },
                (old, _) => old,
            };
            assert(next == frame(all[i as int]).revealed);
            self.items[i].revealed = next;
            proof {
                let now = transcript::item_list(self.items@);
                let want = framed(all).take(i + 1) + all.skip(i + 1);
                let before = framed(all).take(i as int) + all.skip(i as int);
                assert forall|k: int| 0 <= k < now.len() implies now[k] == want[k] by {
                    assert(transcript::item_list(was)[k] == before[k]);
                }
                assert(now =~= want);
                if moves(all[i as int]) {
                    assert(moved);
                }
            }
            i = i + 1;
        }
        assert(self@.items =~= framed(all));
        proof {
            assert(moved == any_moves(all));
            assert(settled == any_settles(all));
        }
        if settled {
            self.bump();
        }
        if moved {
            self.bump_tail();
        }
        proof {
            if !settled {
                agent_pane::lemma_first_unsettled(all, 0);
                let e = agent_pane::first_unsettled(all, 0);
                assert forall|k: int| 0 <= k < e implies all[k] == self@.items[k] by {
                    assert(!transcript::is_unsettled(all[k]));
                }
                if e < all.len() {
                    assert(!settles(all[e]));
                }
                agent_pane::lemma_settled_part(all, self@.items);
                if !moved {
                    assert forall|k: int| 0 <= k < all.len() implies framed(all)[k] == all[k] by {
                        assert(!moves(all[k]) && !settles(all[k]));
                    }
                    assert(framed(all) =~= all);
                }
            }
        }
        moved || settled
    }
}

// ----------------------------------------------------------------- the rows

/// A width rows are laid out in: at least eight characters.
pub open spec fn row_width(cols: nat) -> nat {
    if cols < 8 { 8 } else { cols }
}

/// The view on `rows` rows before it is drawn: at the bottom while that is
/// followed, no further down than the bottom otherwise.
pub open spec fn settled(m: AgentState, rows: nat, visible: nat) -> AgentState {
    let limit = scroll::top_limit(rows, visible);
    AgentState { top: (if m.follow || m.top > limit { limit } else { m.top as nat }) as usize, ..m }
}

/// The view moved up by `delta` rows. Back at the end means back to
/// following it.
pub open spec fn scrolled(m: AgentState, delta: int, rows: nat, visible: nat) -> AgentState {
    let limit = scroll::top_limit(rows, visible);
    let top = scroll::clamped(m.top - delta, limit as int);
    AgentState { top: top as usize, follow: top >= limit, ..m }
}

impl AgentPane {
    /// The settled rows stand, laid out for that width.
    pub open spec fn front_stands(&self, cols: nat) -> bool {
        &&& self.final_len <= self.rows@.len()
        &&& transcript::row_list(self.rows@).take(self.final_len as int) == transcript::laid(
            agent_pane::settled_part(self@.items),
            cols,
            false,
        )
    }

    /// How many items are settled.
    fn settled_count(&self) -> (n: usize)
        ensures
            n == agent_pane::first_unsettled(self@.items, 0),
            n <= self.items@.len(),
    {
        let ghost all = self@.items;
        let mut n: usize = 0;
        while n < self.items.len() && !self.items[n].unsettled()
            invariant
                n <= self.items@.len(),
                all == self@.items,
                agent_pane::first_unsettled(all, 0) == agent_pane::first_unsettled(all, n as int),
            decreases self.items.len() - n,
        {
            assert(all[n as int] == self.items@[n as int]@);
            n = n + 1;
        }
        proof {
            if n < all.len() {
                assert(all[n as int] == self.items@[n as int]@);
            }
        }
        n
    }

    /// Lays the settled items out, unless they are.
    fn lay_front(&mut self, n: usize, cols: usize)
        requires
            n == agent_pane::first_unsettled(old(self)@.items, 0),
            n <= old(self).items@.len(),
        ensures
            final(self)@ == old(self)@,
            final(self).items == old(self).items,
            final(self).generation == old(self).generation,
            final(self).tail_gen == old(self).tail_gen,
            final(self).laid_for == Some((old(self).generation, cols)),
            old(self).fresh() ==> final(self).fresh() && final(self).front_stands(cols as nat),
    {
        let laid: bool = match self.laid_for {
            Some((g, c)) => g == self.generation && c == cols,
            None => false,
        };
        if !laid {
            self.rows = layout(slice_subrange(self.items.as_slice(), 0, n), cols, false);
            self.final_len = self.rows.len();
            self.laid_for = Some((self.generation, cols));
            self.tail_laid = None;
            proof {
                assert(transcript::item_list(self.items@.subrange(0, n as int)) =~= agent_pane::settled_part(
                    self@.items,
                ));
                assert(transcript::row_list(self.rows@).take(self.final_len as int) =~= transcript::row_list(
                    self.rows@,
                ));
            }
        }
    }

    /// Lays the rest out under the settled rows.
    fn lay_tail(&mut self, n: usize, cols: usize)
        requires
            n == agent_pane::first_unsettled(old(self)@.items, 0),
            n <= old(self).items@.len(),
            old(self).laid_for == Some((old(self).generation, cols)),
        ensures
            final(self)@ == old(self)@,
            final(self).items == old(self).items,
            final(self).generation == old(self).generation,
            final(self).tail_gen == old(self).tail_gen,
            final(self).laid_for == old(self).laid_for,
            old(self).front_stands(cols as nat) ==> final(self).front_stands(cols as nat),
            old(self).front_stands(cols as nat) ==> transcript::row_list(final(self).rows@)
                == transcript::laid(old(self)@.items, cols as nat, false),
            final(self).tail_laid == Some((old(self).generation, old(self).tail_gen, cols)),
    {
        let ghost above = transcript::row_list(self.rows@);
        let ghost all = self@.items;
        if self.final_len <= self.rows.len() {
            self.rows.truncate(self.final_len);
        }
        let ghost front = transcript::row_list(self.rows@);
        let mut tail: Vec<Row> = layout(
            slice_subrange(self.items.as_slice(), n, self.items.len()),
            cols,
            self.final_len > 0,
        );
        let ghost more = transcript::row_list(tail@);
        self.rows.append(&mut tail);
        self.tail_laid = Some((self.generation, self.tail_gen, cols));
        proof {
            assert(transcript::item_list(self.items@.subrange(n as int, self.items@.len() as int)) =~= all.skip(
                n as int,
            ));
            assert(transcript::row_list(self.rows@) =~= front + more);
            if old(self).front_stands(cols as nat) {
                assert(front =~= above.take(self.final_len as int));
                assert(transcript::row_list(self.rows@).take(self.final_len as int) =~= front);
                transcript::laying_out_in_two_pieces(
                    all.take(n as int),
                    all.skip(n as int),
                    cols as nat,
                    false,
                );
                assert(all.take(n as int) + all.skip(n as int) =~= all);
            }
        }
    }

    /// The transcript wrapped to `cols`. The settled items are rewrapped when
    /// one of them changes or the width does; the streaming tail on every
    /// token, which is a line or two of work rather than the whole
    /// conversation's.
    pub fn rows(&mut self, cols: usize) -> (r: &Vec<Row>)
        ensures
            old(self).fresh() ==> transcript::row_list(r@) == transcript::laid(
                old(self)@.items,
                row_width(cols as nat),
                false,
            ),
            old(self).fresh() ==> final(self).fresh(),
            r@ == final(self).rows@,
            final(self)@ == old(self)@,
            final(self).generation == old(self).generation,
            final(self).laid_for == Some((old(self).generation, row_width(cols as nat) as usize)),
    {
        let width: usize = if cols < 8 { 8 } else { cols };
        let n: usize = self.settled_count();
        self.lay_front(n, width);
        let done: bool = match self.tail_laid {
            Some((g, t, c)) => g == self.generation && t == self.tail_gen && c == width,
            None => false,
        };
        if !done {
            self.lay_tail(n, width);
        }
        &self.rows
    }

    /// Follows the bottom while that is wanted; clamps otherwise. Called from
    /// drawing, which knows how many rows fit.
    pub fn ensure_visible(&mut self, visible: usize)
        ensures
            final(self)@ == settled(old(self)@, old(self).rows@.len(), visible as nat),
            final(self).rows@ == old(self).rows@,
            old(self).fresh() ==> final(self).fresh(),
    {
        let limit: usize = max_top(self.rows.len(), visible);
        if self.follow || self.top > limit {
            self.top = limit;
        }
    }

    /// Wheel and keys. Positive is up, like every other pane. Back at the end
    /// means back to following it.
    pub fn scroll(&mut self, delta: i32, visible: usize)
        ensures
            final(self)@ == scrolled(old(self)@, delta as int, old(self).rows@.len(), visible as nat),
            final(self).rows@ == old(self).rows@,
            old(self).fresh() ==> final(self).fresh(),
    {
        let limit: usize = max_top(self.rows.len(), visible);
        self.top = stepped_up(self.top, delta, limit);
        self.follow = self.top >= limit;
    }
}

// ---------------------------------------------------------------- the words

/// Seconds the turn in flight has been running.
pub open spec fn running_for(m: AgentState, clock: u64) -> Option<nat> {
    match m.turn_started {
        Some(at) => if m.busy {
            Some((if clock <= at { 0 } else { (clock - at) as nat / 1_000_000_000 }) as nat)
        } else {
            None
        },
        None => None,
    }
}

/// The pane's title. The model is known only once the agent has answered
/// something, so before that the title is just the name.
pub open spec fn title(m: AgentState) -> Seq<char> {
    match m.model {
        Some(name) => if m.running {
            agent::capitals(m.name) + " \u{b7} "@ + name
        } else {
            agent::capitals(m.name) + " \u{b7} "@ + name + " \u{b7} stopped"@
        },
        None => agent::capitals(m.name),
    }
}

/// What the plan's windows, or the price, say: how much of each window is
/// spent and when the first starts over. The price is a bill nobody gets on a
/// plan; it shows only with no windows in sight, or once usage has gone into
/// paid overage.
pub open spec fn spending(m: AgentState, now: u64) -> Seq<Seq<char>> {
    match m.limits {
        Some(l) => {
            let five = match l.five_hour {
                Some(w) => seq!["5h "@ + w.percent@ + "%"@],
                None => Seq::empty(),
            };
            let seven = match l.seven_day {
                Some(w) => seq!["7d "@ + w.percent@ + "%"@],
                None => Seq::empty(),
            };
            let resets = match l.five_hour {
                Some(w) => if w.resets_at > now {
                    seq!["resets in "@ + agent::time_until(w.resets_at as nat, now as nat)]
                } else {
                    Seq::empty()
                },
                None => Seq::empty(),
            };
            let over = match m.cost {
                Some(c) => if l.using_overage { seq!["overage $"@ + c.cents@] } else { Seq::empty() },
                None => Seq::empty(),
            };
            five + seven + resets + over
        },
        None => match m.cost {
            Some(c) => seq!["$"@ + c.mills@],
            None => Seq::empty(),
        },
    }
}

/// What is going on, and what to press.
pub open spec fn activity(m: AgentState, clock: u64) -> Seq<char> {
    if m.asks.len() > 0 {
        "waiting for your answer"@
    } else if m.stopping {
        "stopping\u{2026}"@
    } else if m.busy {
        match running_for(m, clock) {
            Some(s) => "working "@ + text::decimal(s) + "s \u{b7} Esc stops"@,
            None => "working\u{2026} Esc stops"@,
        }
    } else {
        "Enter sends"@
    }
}

/// The parts of the hint, left to right.
pub open spec fn hint_parts(m: AgentState, now: u64, clock: u64) -> Seq<Seq<char>> {
    let turns = if m.turns > 0 {
        seq![text::decimal(m.turns as nat) + " "@ + (if m.turns == 1 { "turn"@ } else { "turns"@ })]
    } else {
        Seq::empty()
    };
    spending(m, now) + turns + seq![activity(m, clock)]
}

/// One more part on the end of the hint.
fn add_part(parts: &mut Vec<String>, part: String)
    ensures
        text::texts(final(parts)@) == text::texts(old(parts)@).push(part@),
{
    let ghost before = parts@;
    parts.push(part);
    assert(text::texts(parts@) =~= text::texts(before).push(part@));
}

impl AgentPane {
    /// A pane with nothing in it, before the process is started.
    pub fn new(name: String, cwd: Path, skills: Vec<Completion>) -> (r: AgentPane)
        ensures
            r@ == (AgentState {
                name: name@,
                running: false,
                cwd: cwd@,
                items: Seq::empty(),
                skills: agent::completion_list(skills@),
                pick_cmd: 0,
                turn_started: None,
                input: Seq::empty(),
                busy: false,
                session_id: None,
                model: None,
                cost: None,
                limits: None,
                turns: 0,
                top: 0,
                follow: true,
                asks: Seq::empty(),
                pick: 0,
                queue: Seq::empty(),
                stopping: false,
            }),
            r.fresh(),
    {
        let r: AgentPane = AgentPane {
            name,
            running: false,
            cwd,
            items: Vec::new(),
            generation: 0,
            tail_gen: 0,
            skills,
            pick_cmd: 0,
            turn_started: None,
            input: String::new(),
            busy: false,
            session_id: None,
            model: None,
            cost: None,
            limits: None,
            turns: 0,
            top: 0,
            follow: true,
            rows: Vec::new(),
            final_len: 0,
            laid_for: None,
            tail_laid: None,
            asks: VecDeque::new(),
            pick: 0,
            queue: VecDeque::new(),
            stopping: false,
        };
        proof {
            assert(r@.items =~= Seq::empty());
            assert(r@.input =~= Seq::<char>::empty());
            assert(r@.queue =~= Seq::empty());
        }
        r
    }

    /// Seconds the turn in flight has been running.
    pub fn busy_secs(&self, clock: u64) -> (r: Option<u64>)
        ensures
            match r {
                Some(n) => running_for(self@, clock) == Some(n as nat),
                None => running_for(self@, clock) is None,
            },
    {
        match self.turn_started {
            Some(at) => if self.busy {
                Some(if clock <= at { 0 } else { (clock - at) / 1_000_000_000 })
            } else {
                None
            },
            None => None,
        }
    }

    pub fn header(&self) -> (r: String)
        ensures
            r@ == title(self@),
    {
        let name: String = in_capitals(self.name.as_str());
        match &self.model {
            Some(m) => {
                let at: String = joined3(name.as_str(), " \u{b7} ", m.as_str());
                if self.running { at } else { joined(at.as_str(), " \u{b7} stopped") }
            },
            None => name,
        }
    }

    fn spending_parts(&self, now: u64) -> (r: Vec<String>)
        ensures
            text::texts(r@) == spending(self@, now),
    {
        let mut parts: Vec<String> = Vec::new();
        assert(text::texts(parts@) =~= Seq::empty());
        match &self.limits {
            Some(l) => {
                match &l.five_hour {
                    Some(w) => add_part(&mut parts, joined3("5h ", w.percent.as_str(), "%")),
                    None => {},
                }
                match &l.seven_day {
                    Some(w) => add_part(&mut parts, joined3("7d ", w.percent.as_str(), "%")),
                    None => {},
                }
                match &l.five_hour {
                    Some(w) => if w.resets_at > now {
                        let t: String = in_time(w.resets_at, now);
                        add_part(&mut parts, joined("resets in ", t.as_str()));
                    },
                    None => {},
                }
                if l.using_overage {
                    match &self.cost {
                        Some(c) => add_part(&mut parts, joined("overage $", c.cents.as_str())),
                        None => {},
                    }
                }
            },
            None => {
                match &self.cost {
                    Some(c) => add_part(&mut parts, joined("$", c.mills.as_str())),
                    None => {},
                }
            },
        }
        assert(text::texts(parts@) =~= spending(self@, now));
        parts
    }

    fn activity_text(&self, clock: u64) -> (r: String)
        ensures
            r@ == activity(self@, clock),
    {
        if self.needs_answer() {
            "waiting for your answer".to_owned()
        } else if self.stopping {
            "stopping\u{2026}".to_owned()
        } else if self.busy {
            // A count that moves says the turn is alive while the model
            // thinks; a still "working" reads as a hang.
            match self.busy_secs(clock) {
                Some(s) => {
                    let n: String = decimal_text(s);
                    joined3("working ", n.as_str(), "s \u{b7} Esc stops")
                },
                None => "working\u{2026} Esc stops".to_owned(),
            }
        } else {
            "Enter sends".to_owned()
        }
    }

    /// The right-hand hint: what is happening, then what to press. `now` is
    /// the time in Unix seconds, `clock` the one turns are timed by.
    pub fn hint_at(&self, now: u64, clock: u64) -> (r: String)
        ensures
            r@ == text::join(hint_parts(self@, now, clock), " \u{b7} "@),
    {
        let mut parts: Vec<String> = self.spending_parts(now);
        if self.turns > 0 {
            let n: String = decimal_text(self.turns);
            let word: &str = if self.turns == 1 { "turn" } else { "turns" };
            add_part(&mut parts, joined3(n.as_str(), " ", word));
        }
        add_part(&mut parts, self.activity_text(clock));
        assert(text::texts(parts@) =~= hint_parts(self@, now, clock));
        join_texts(&parts, " \u{b7} ")
    }
}

} // verus!
