//! What holds of the agent pane whatever is typed and whatever arrives.
use vstd::prelude::*;
use crate::agent;
use crate::agent::{Cost, Limits, StepState};
use crate::agent_pane;
use crate::agent_pane::AgentState;
use crate::agent_view;
use crate::path;
use crate::path::PathState;
use crate::scroll;
use crate::text;
use crate::transcript;
use crate::transcript::{ItemState, KindState};

verus! {

proof fn lemma_without_drafts(items: Seq<ItemState>, id: Seq<char>)
    ensures
        forall|i: int|
            0 <= i < agent_pane::without_drafts(items, id).len() ==> !agent_pane::is_draft_of(
                #[trigger] agent_pane::without_drafts(items, id)[i],
                id,
            ),
    decreases items.len(),
{
    if items.len() > 0 {
        lemma_without_drafts(items.drop_last(), id);
        let all = agent_pane::without_drafts(items, id);
        let front = agent_pane::without_drafts(items.drop_last(), id);
        assert forall|i: int| 0 <= i < all.len() implies !agent_pane::is_draft_of(#[trigger] all[i], id) by {
            if i < front.len() {
                assert(all[i] == front[i]);
            }
        }
    }
}

proof fn lemma_finished_settled(blocks: Seq<agent::Block>, id: Seq<char>, out: Seq<usize>, n: int)
    requires
        0 <= n <= blocks.len(),
    ensures
        forall|i: int|
            0 <= i < agent_pane::finished(blocks, id, out, n).len() ==> !(#[trigger] agent_pane::finished(
                blocks,
                id,
                out,
                n,
            )[i]).provisional,
    decreases n,
{
    if n > 0 {
        lemma_finished_settled(blocks, id, out, n - 1);
        let all = agent_pane::finished(blocks, id, out, n);
        let front = agent_pane::finished(blocks, id, out, n - 1);
        assert forall|i: int| 0 <= i < all.len() implies !(#[trigger] all[i]).provisional by {
            if i < front.len() {
                assert(all[i] == front[i]);
            }
        }
    }
}

/// The finished message takes the place of its drafts: none of them is left.
pub proof fn a_finished_message_leaves_no_draft(m: AgentState, id: Seq<char>, blocks: Seq<agent::Block>, i: int)
    requires
        0 <= i < agent_pane::after_message(m, id, blocks).items.len(),
    ensures
        !agent_pane::is_draft_of(agent_pane::after_message(m, id, blocks).items[i], id),
{
    lemma_without_drafts(m.items, id);
    lemma_finished_settled(blocks, id, agent_pane::let_out(m.items, id), blocks.len() as int);
    let kept = agent_pane::without_drafts(m.items, id);
    if i < kept.len() {
        assert(agent_pane::after_message(m, id, blocks).items[i] == kept[i]);
    } else {
        let more = agent_pane::finished(
            blocks,
            id,
            agent_pane::let_out(m.items, id),
            blocks.len() as int,
        );
        assert(agent_pane::after_message(m, id, blocks).items[i] == more[i - kept.len()]);
    }
}

/// A finished message never shows less than its drafts had let out, as far as
/// it is that long: the first text goes on from where its draft was.
pub proof fn the_first_text_goes_on_from_its_draft(m: AgentState, id: Seq<char>, blocks: Seq<agent::Block>)
    requires
        blocks.len() > 0,
        blocks[0] is Text,
        !agent_pane::is_blank_block(blocks[0]),
        agent_pane::let_out(m.items, id).len() > 0,
        agent_pane::let_out(m.items, id)[0] <= blocks[0]->Text_0@.len(),
    ensures
        ({
            let kept = agent_pane::without_drafts(m.items, id);
            let items = agent_pane::after_message(m, id, blocks).items;
            &&& kept.len() < items.len()
            &&& items[kept.len() as int].revealed == Some(agent_pane::let_out(m.items, id)[0])
        }),
{
    let out = agent_pane::let_out(m.items, id);
    lemma_finished_front(blocks, id, out, blocks.len() as int);
    reveal_with_fuel(agent_pane::finished, 2);
    reveal_with_fuel(agent_pane::texts_before, 2);
    let kept = agent_pane::without_drafts(m.items, id);
    let more = agent_pane::finished(blocks, id, out, blocks.len() as int);
    assert((kept + more)[kept.len() as int] == more[0]);
}

proof fn lemma_finished_front(blocks: Seq<agent::Block>, id: Seq<char>, out: Seq<usize>, n: int)
    requires
        1 <= n <= blocks.len(),
        !agent_pane::is_blank_block(blocks[0]),
    ensures
        agent_pane::finished(blocks, id, out, n).len() >= 1,
        agent_pane::finished(blocks, id, out, n)[0] == agent_pane::finished(blocks, id, out, 1)[0],
    decreases n,
{
    reveal_with_fuel(agent_pane::finished, 2);
    if n > 1 {
        lemma_finished_front(blocks, id, out, n - 1);
    }
}

/// Hitting the wall is said once: hearing of it again adds nothing to the
/// transcript.
pub proof fn the_wall_is_said_once(m: AgentState, l: Limits, again: Limits, now: u64, later: u64)
    requires
        l.rejected,
    ensures
        agent_pane::after_limits(agent_pane::after_limits(m, l, now), again, later).items
            == agent_pane::after_limits(m, l, now).items,
        !agent_pane::at_wall(m.limits) ==> agent_pane::after_limits(m, l, now).items.len() == m.items.len() + 1,
{
}

/// On a plan whose usage has not gone into paid overage, the hint says
/// nothing of the price.
pub proof fn a_plan_hides_the_price(m: AgentState, cost: Option<Cost>, now: u64, clock: u64)
    requires
        m.limits is Some,
        !m.limits->Some_0.using_overage,
    ensures
        agent_view::hint_parts(AgentState { cost, ..m }, now, clock) == agent_view::hint_parts(m, now, clock),
{
    let other = AgentState { cost, ..m };
    assert(agent_view::spending(other, now) == agent_view::spending(m, now));
    assert(agent_view::activity(other, clock) == agent_view::activity(m, clock));
}

/// The pane's own commands never go out as a turn, nor wait to, whatever
/// stands behind their name: nothing joins the queue, and no row of the
/// transcript says that a turn was sent or waits.
pub proof fn own_commands_stay_here(m: AgentState)
    requires
        !agent_pane::completes(m),
        text::trimmed(m.input).len() > 0,
        text::trimmed(m.input)[0] == '/',
        text::words(text::trimmed(m.input).skip(1)).len() >= 1,
        agent_pane::is_local(text::words(text::trimmed(m.input).skip(1))[0]),
    ensures
        ({
            let (after, step) = agent_pane::entered(m);
            &&& step !is Send && step !is Spawn
            &&& after.queue == m.queue || after.queue.len() == 0
            &&& forall|i: int|
                0 <= i < after.items.len() ==> is_turn(#[trigger] after.items[i]) ==> had_row(m.items, after.items[i])
        }),
        agent_pane::commanded(m, text::trimmed(m.input).skip(1)) is Some,
{
    let w = text::words(text::trimmed(m.input).skip(1));
    let i = choose|i: int| 0 <= i < agent_pane::local_list().len() && (#[trigger] agent_pane::local_list()[i]).name
        == w[0];
    assert(w[0] == "mode"@ || w[0] == "model"@ || w[0] == "stop"@);
    let after = agent_pane::entered(m).0;
    let bare = agent_pane::undrafted(m.items);
    lemma_without_queued_had(bare);
    let kept = agent_pane::without_queued(bare);
    assert forall|i: int| 0 <= i < after.items.len() && is_turn(#[trigger] after.items[i]) implies had_row(
        m.items,
        after.items[i],
    ) by {
        if i < m.items.len() && after.items[i].kind == m.items[i].kind {
        } else if i < bare.len() && after.items[i].kind == bare[i].kind {
            assert(bare[i].kind == m.items[i].kind);
        } else {
            assert(i < kept.len() && after.items[i] == kept[i]);
            let j = choose|j: int| 0 <= j < bare.len() && (#[trigger] bare[j]).kind == kept[i].kind;
            assert(bare[j].kind == m.items[j].kind);
        }
    }
}

/// A row that says a turn was sent, or waits.
pub open spec fn is_turn(item: ItemState) -> bool {
    item.kind is User || item.kind is Queued
}

/// Whether a row that reads the same was there before.
pub open spec fn had_row(items: Seq<ItemState>, item: ItemState) -> bool {
    exists|j: int| 0 <= j < items.len() && (#[trigger] items[j]).kind == item.kind
}

proof fn lemma_without_queued_had(items: Seq<ItemState>)
    ensures
        forall|i: int|
            0 <= i < agent_pane::without_queued(items).len() ==> had_row(
                items,
                #[trigger] agent_pane::without_queued(items)[i],
            ),
    decreases items.len(),
{
    if items.len() > 0 {
        let front = items.drop_last();
        lemma_without_queued_had(front);
        let all = agent_pane::without_queued(items);
        let kept = agent_pane::without_queued(front);
        assert forall|i: int| 0 <= i < all.len() implies had_row(items, #[trigger] all[i]) by {
            if i < kept.len() {
                assert(had_row(front, kept[i]));
                let j = choose|j: int| 0 <= j < front.len() && (#[trigger] front[j]).kind == kept[i].kind;
                assert(items[j].kind == all[i].kind);
            } else {
                assert(items[items.len() - 1].kind == all[i].kind);
            }
        }
    }
}

/// What is typed while a turn is in flight waits: nothing goes out, the queue
/// grows by it, and the transcript shows it as waiting.
pub proof fn a_turn_typed_mid_turn_waits(m: AgentState)
    requires
        m.busy,
        !agent_pane::completes(m),
        text::trimmed(m.input).len() > 0,
        text::trimmed(m.input)[0] != '/',
    ensures
        ({
            let t = text::trimmed(m.input);
            let (after, step) = agent_pane::entered(m);
            &&& step == StepState::Done
            &&& after.queue == m.queue.push(t)
            &&& after.items == m.items.push(agent_pane::plain_item(KindState::Queued(t)))
            &&& after.input.len() == 0
        }),
{
}

/// A turn that was waiting goes out as the row it already has: the transcript
/// gets no second copy of it.
pub proof fn a_waiting_turn_is_not_copied(m: AgentState, t: Seq<char>, clock: u64)
    ensures
        agent_pane::after_send(m, Ok(()), t, true, clock).items.len() == m.items.len(),
{
    lemma_first_queued(m.items, 0);
}

proof fn lemma_first_queued(items: Seq<ItemState>, i: int)
    requires
        0 <= i <= items.len(),
    ensures
        i <= agent_pane::first_queued(items, i) <= items.len(),
    decreases items.len() - i,
{
    if i < items.len() && !(items[i].kind is Queued) {
        lemma_first_queued(items, i + 1);
    }
}

/// Whatever ends a turn, the pane is ready for the next one, and nothing is
/// left streaming.
pub proof fn a_turn_over_is_over(m: AgentState, dead: bool, i: int)
    requires
        0 <= i < agent_pane::turn_ended(m, dead).items.len(),
    ensures
        !agent_pane::turn_ended(m, dead).busy,
        !agent_pane::turn_ended(m, dead).stopping,
        !agent_pane::turn_ended(m, dead).items[i].provisional,
        dead ==> agent_pane::turn_ended(m, dead).asks.len() == 0 && agent_pane::turn_ended(m, dead).queue.len()
            == 0,
{
    let items = agent_pane::undrafted(m.items);
    lemma_without_queued_settled(items);
    if dead && m.queue.len() > 0 {
        let kept = agent_pane::without_queued(items);
        if i < kept.len() {
            assert(agent_pane::turn_ended(m, dead).items[i] == kept[i]);
        }
    }
}

proof fn lemma_without_queued_settled(items: Seq<ItemState>)
    requires
        forall|i: int| 0 <= i < items.len() ==> !(#[trigger] items[i]).provisional,
    ensures
        forall|i: int|
            0 <= i < agent_pane::without_queued(items).len() ==> !(#[trigger] agent_pane::without_queued(
                items,
            )[i]).provisional,
    decreases items.len(),
{
    if items.len() > 0 {
        let front = items.drop_last();
        assert forall|i: int| 0 <= i < front.len() implies !(#[trigger] front[i]).provisional by {
            assert(front[i] == items[i]);
        }
        lemma_without_queued_settled(front);
        let all = agent_pane::without_queued(items);
        let kept = agent_pane::without_queued(front);
        assert(items[items.len() - 1] == items.last());
        assert forall|i: int| 0 <= i < all.len() implies !(#[trigger] all[i]).provisional by {
            if i < kept.len() {
                assert(all[i] == kept[i]);
            }
        }
    }
}

/// Scrolled up, the pane stays where it is however many rows arrive; scrolled
/// to the end, it follows them.
pub proof fn scrolled_up_stays_put(m: AgentState, delta: int, rows: nat, more: nat, visible: nat)
    requires
        rows + more <= usize::MAX,
    ensures
        ({
            let moved = agent_view::scrolled(m, delta, rows, visible);
            let later = agent_view::settled(moved, rows + more, visible);
            &&& moved.follow <==> moved.top == scroll::top_limit(rows, visible)
            &&& !moved.follow ==> later.top == moved.top
            &&& moved.follow ==> later.top == scroll::top_limit(rows + more, visible)
        }),
{
}

/// What is typed goes out as it was typed, but for white space at its ends:
/// to the process that runs, and otherwise to one that takes the
/// conversation up again. The box is empty afterwards and the view follows.
pub proof fn a_turn_goes_out_as_typed(m: AgentState, t: Seq<char>)
    requires
        m.input == t,
        t.len() > 0,
        t[0] != '/',
        !text::is_white(t[0]),
        !text::is_white(t.last()),
        !m.busy,
    ensures
        agent_pane::entered(m).0 == (AgentState { input: Seq::empty(), follow: true, ..m }),
        m.running ==> agent_pane::entered(m).1 == (StepState::Send { text: t, shown: false }),
        !m.running ==> agent_pane::entered(m).1 == (StepState::Spawn {
            resume: m.session_id,
            text: t,
            shown: false,
        }),
{
    text::lemma_trimmed_fixed(t);
}

/// White space alone is no turn, and a box without a completion to take
/// stays as it is.
pub proof fn white_space_is_no_turn(m: AgentState)
    requires
        forall|i: int| 0 <= i < m.input.len() ==> text::is_white(#[trigger] m.input[i]),
    ensures
        agent_pane::entered(m) == (m, StepState::Done),
{
    text::lemma_trimmed_blank(m.input);
    if m.input.len() > 0 {
        assert(text::is_white(m.input[0]));
    }
}

/// A turn that went out is in the transcript, below all that was there, and
/// the clock of the turn starts; one that could not be sent says why and
/// leaves nobody running.
pub proof fn a_turn_that_went_out_is_shown(m: AgentState, t: Seq<char>, e: String, clock: u64)
    ensures
        ({
            let r = agent_pane::after_send(m, Ok(()), t, false, clock);
            &&& r.busy && r.turn_started == Some(clock)
            &&& r.items.len() == m.items.len() + 1
            &&& r.items.drop_last() == m.items
            &&& r.items.last().kind == KindState::User(t)
            &&& !r.items.last().provisional
            &&& r == (AgentState { busy: true, turn_started: Some(clock), items: r.items, ..m })
        }),
        ({
            let r = agent_pane::after_send(m, Err(e), t, false, clock);
            &&& !r.running
            &&& r.items.drop_last() == m.items
            &&& r.items.last().kind == KindState::Error(e@)
            &&& r == (AgentState { running: false, items: r.items, ..m })
        }),
{
    assert(agent_pane::after_send(m, Ok(()), t, false, clock).items.drop_last() =~= m.items);
    assert(agent_pane::after_send(m, Err(e), t, false, clock).items.drop_last() =~= m.items);
}

/// Starting the process makes it run and changes nothing else; failing to
/// start it says why and changes nothing else.
pub proof fn starting_says_how_it_went(m: AgentState, e: String)
    ensures
        agent_pane::after_start(m, Ok(())) == (AgentState { running: true, ..m }),
        agent_pane::after_start(m, Err(e)).items.drop_last() == m.items,
        agent_pane::after_start(m, Err(e)).items.last().kind == KindState::Error(e@),
        agent_pane::after_start(m, Err(e)) == (AgentState {
            items: agent_pane::after_start(m, Err(e)).items,
            ..m
        }),
{
    assert(agent_pane::after_start(m, Err(e)).items.drop_last() =~= m.items);
}

/// When a turn is over the waiting one that was typed first goes out, and
/// the others wait on in the order they were typed. With none waiting there
/// is nothing to send.
pub proof fn waiting_turns_go_out_in_order(
    m: AgentState,
    is_error: bool,
    cost: Option<Cost>,
    turns: u64,
    secs: String,
    text: Option<String>,
    now: u64,
)
    ensures
        ({
            let e = agent::Event::Result { is_error, cost, turns, secs, text };
            let (after, step) = agent_pane::applied(m, e, now);
            &&& m.queue.len() == 0 ==> step == StepState::Done && after.queue == m.queue
            &&& m.queue.len() > 0 ==> {
                &&& m.queue == seq![m.queue[0]] + after.queue
                &&& m.running ==> step == (StepState::Send { text: m.queue[0], shown: true })
                &&& !m.running ==> step == (StepState::Spawn {
                    resume: m.session_id,
                    text: m.queue[0],
                    shown: true,
                })
            }
        }),
{
    if m.queue.len() > 0 {
        assert(m.queue =~= seq![m.queue[0]] + m.queue.skip(1));
    }
}

/// A result ends the turn: nothing is in flight, the count of turns is the
/// one reported, the price is the newest known, and one line says how the
/// turn went. What was said stays, with nothing left that may still change.
pub proof fn a_result_ends_the_turn(
    m: AgentState,
    is_error: bool,
    cost: Option<Cost>,
    turns: u64,
    secs: String,
    text: Option<String>,
    now: u64,
)
    ensures
        ({
            let e = agent::Event::Result { is_error, cost, turns, secs, text };
            let after = agent_pane::applied(m, e, now).0;
            let verdict = after.items.last().kind;
            &&& !after.busy && !after.stopping && after.turn_started is None
            &&& after.turns == turns
            &&& cost is Some ==> after.cost == cost
            &&& cost is None ==> after.cost == m.cost
            &&& after.items.len() == m.items.len() + 1
            &&& forall|i: int|
                0 <= i < m.items.len() ==> #[trigger] after.items[i] == (ItemState {
                    provisional: false,
                    ..m.items[i]
                })
            &&& m.stopping ==> verdict == KindState::Note("stopped"@)
            &&& !m.stopping && !is_error ==> verdict == KindState::Note(secs@ + "s"@)
            &&& !m.stopping && is_error && m.limits is None && text is Some ==> verdict == KindState::Error(
                "turn ended: "@ + text.unwrap()@,
            )
            &&& !m.stopping && is_error && m.limits is None && text is None ==> verdict == KindState::Error(
                "turn ended: "@ + "failed"@,
            )
            &&& !m.stopping && is_error && m.limits is Some && m.limits.unwrap().rejected ==> verdict
                == KindState::Error("turn ended: "@ + "usage limit"@)
            &&& after.running == m.running && after.input == m.input && after.asks == m.asks
            &&& after.session_id == m.session_id && after.model == m.model && after.limits == m.limits
        }),
{
}

/// What Esc does: out of a turn it empties the box; in a turn it asks the
/// process to stop, and the second time, or with no process, it ends the
/// turn and drops what waits.
pub proof fn stopping_takes_up_to_two_presses(m: AgentState)
    ensures
        ({
            let (after, step) = agent_pane::cancelled(m);
            &&& !m.busy ==> after == (AgentState { input: Seq::empty(), ..m }) && step == StepState::Done
            &&& m.busy && m.running && !m.stopping ==> after == m && step == StepState::Interrupt
            &&& m.busy && m.running && m.stopping ==> step == StepState::Kill
            &&& m.busy && !m.running ==> step == StepState::Done
            &&& m.busy && (m.stopping || !m.running) ==> {
                &&& !after.running && !after.busy && !after.stopping
                &&& after.queue.len() == 0 && after.asks.len() == 0
                &&& after.input == m.input && after.session_id == m.session_id
                &&& after.items.last().kind == KindState::Note("stopped"@)
            }
        }),
{
}

/// An answer is about the question asked first: it is handed over with the
/// decision, that question is gone, and the others come up in their order.
/// One line of the transcript says what was decided.
pub proof fn an_answer_is_about_the_first_question(m: AgentState, d: agent::Decision)
    requires
        m.asks.len() > 0,
    ensures
        m.running ==> agent_pane::step_to_answer(m, d) == (StepState::Respond { ask: m.asks[0], decision: d }),
        !m.running ==> agent_pane::step_to_answer(m, d) == StepState::Done,
        ({
            let after = agent_pane::decided(m, d);
            &&& m.asks == seq![m.asks[0]] + after.asks
            &&& after.pick == 0
            &&& after.items.drop_last() == m.items
            &&& d == agent::Decision::Deny ==> after.items.last().kind == KindState::Note("denied"@)
            &&& d == (agent::Decision::Allow { remember: false }) ==> after.items.last().kind
                == KindState::Note("allowed"@)
            &&& d == (agent::Decision::Allow { remember: true }) ==> after.items.last().kind
                == KindState::Note("allowed \u{b7} rule saved"@)
            &&& after == (AgentState { asks: after.asks, pick: 0, items: after.items, ..m })
        }),
{
    assert(m.asks =~= seq![m.asks[0]] + m.asks.skip(1));
    assert(agent_pane::decided(m, d).items.drop_last() =~= m.items);
}

/// The answers in their order: the first allows once and the last denies. A
/// rule is kept only by the one between them, which is there only where a
/// rule was suggested.
pub proof fn the_answers_mean_what_they_say(asks: Seq<agent::Permission>, pick: nat)
    requires
        asks.len() > 0,
        pick < agent_pane::answer_count(asks),
    ensures
        agent_pane::answer_count(asks) == (if asks[0].suggestions@.len() > 0 { 3nat } else { 2 }),
        agent_pane::picked(asks, pick) == (agent::Decision::Allow { remember: false }) <==> pick == 0,
        agent_pane::picked(asks, pick) == agent::Decision::Deny <==> pick + 1 == agent_pane::answer_count(asks),
        agent_pane::picked(asks, pick) == (agent::Decision::Allow { remember: true }) <==> 0 < pick
            < agent_pane::answer_count(asks) - 1,
        agent_pane::picked(asks, pick) == (agent::Decision::Allow { remember: true })
            ==> asks[0].suggestions@.len() > 0,
{
}

/// A question that arrives waits behind those already asked, and changes
/// nothing else.
pub proof fn questions_wait_their_turn(m: AgentState, ask: agent::Permission, now: u64)
    ensures
        agent_pane::applied(m, agent::Event::Permission(ask), now).0 == (AgentState {
            asks: m.asks + seq![ask],
            ..m
        }),
        agent_pane::applied(m, agent::Event::Permission(ask), now).1 == StepState::Done,
{
    assert(m.asks + seq![ask] =~= m.asks.push(ask));
}

/// The process says once who it is, and that is kept for the next time it
/// has to be started.
pub proof fn the_conversation_is_remembered(m: AgentState, session_id: String, model: String, now: u64)
    ensures
        agent_pane::applied(m, agent::Event::Init { session_id, model }, now).0 == (AgentState {
            session_id: Some(session_id@),
            model: Some(model@),
            ..m
        }),
        agent_pane::applied(m, agent::Event::Init { session_id, model }, now).1 == StepState::Done,
{
}

/// What the process writes as an error is a line of the transcript, as it
/// was written; what it refuses is said with its name.
pub proof fn errors_are_shown(m: AgentState, line: String, now: u64)
    ensures
        ({
            let told = agent_pane::applied(m, agent::Event::Stderr(line), now);
            let refused = agent_pane::applied(m, agent::Event::Control { error: Some(line) }, now);
            let fine = agent_pane::applied(m, agent::Event::Control { error: None }, now);
            &&& told.0.items.drop_last() == m.items
            &&& told.0.items.last().kind == KindState::Error(line@)
            &&& told.0 == (AgentState { items: told.0.items, ..m })
            &&& refused.0.items.drop_last() == m.items
            &&& refused.0.items.last().kind == KindState::Error(m.name + " refused: "@ + line@)
            &&& refused.0 == (AgentState { items: refused.0.items, ..m })
            &&& fine.0 == m
            &&& told.1 == StepState::Done && refused.1 == StepState::Done && fine.1 == StepState::Done
        }),
{
    assert(agent_pane::applied(m, agent::Event::Stderr(line), now).0.items.drop_last() =~= m.items);
    assert(agent_pane::applied(m, agent::Event::Control { error: Some(line) }, now).0.items.drop_last()
        =~= m.items);
}

/// A process that is gone is not running, whatever it did last, and nothing
/// waits on it; gone in the middle of a turn that nobody stopped, that is
/// said.
pub proof fn a_process_that_is_gone_leaves_nothing_waiting(m: AgentState, now: u64)
    ensures
        ({
            let (after, step) = agent_pane::applied(m, agent::Event::Exited, now);
            &&& !after.running && !after.busy && !after.stopping && after.turn_started is None
            &&& after.asks.len() == 0 && after.queue.len() == 0
            &&& after.input == m.input && after.session_id == m.session_id && after.model == m.model
            &&& m.busy && !m.stopping ==> after.items.last().kind == KindState::Error(
                m.name + " exited mid-turn"@,
            )
            &&& (!m.busy || m.stopping) && m.queue.len() == 0 ==> after.items.len() == m.items.len()
            &&& step == StepState::Done
        }),
{
}

proof fn lemma_delta_at(items: Seq<ItemState>, id: Seq<char>, n: int)
    requires
        0 <= n <= items.len(),
    ensures
        -1 <= agent_pane::delta_at(items, id, n) < n,
        agent_pane::delta_at(items, id, n) >= 0 ==> agent_pane::takes_delta(
            items[agent_pane::delta_at(items, id, n)],
            id,
        ),
        forall|i: int|
            agent_pane::delta_at(items, id, n) < i < n ==> !agent_pane::takes_delta(#[trigger] items[i], id),
    decreases n,
{
    if n > 0 && !agent_pane::takes_delta(items[n - 1], id) {
        lemma_delta_at(items, id, n - 1);
    }
}

/// Text that arrives goes to the end of the newest draft of its message:
/// no other entry changes, and what the draft held stays in front. Where the
/// message has no such draft yet, it begins one.
pub proof fn arriving_text_extends_its_draft(m: AgentState, id: String, t: String, now: u64, k: int)
    ensures
        ({
            let after = agent_pane::applied(m, agent::Event::TextDelta { message_id: id, text: t }, now).0;
            let ours = |i: ItemState| i.provisional && i.message_id == Some(id@) && i.kind is Text;
            let newest = 0 <= k < m.items.len() && ours(m.items[k]) && (forall|j: int|
                k < j < m.items.len() ==> !ours(#[trigger] m.items[j]));
            let none = forall|j: int| 0 <= j < m.items.len() ==> !ours(#[trigger] m.items[j]);
            &&& newest ==> {
                &&& after.items.len() == m.items.len()
                &&& after.items[k].kind == KindState::Text(m.items[k].kind->Text_0 + t@)
                &&& after.items[k].provisional
                &&& after.items[k].message_id == Some(id@)
                &&& after.items[k].revealed == m.items[k].revealed
                &&& forall|j: int|
                    0 <= j < m.items.len() && j != k ==> #[trigger] after.items[j] == m.items[j]
            }
            &&& none ==> {
                &&& after.items.drop_last() == m.items
                &&& after.items.last() == (ItemState {
                    kind: KindState::Text(t@),
                    message_id: Some(id@),
                    provisional: true,
                    revealed: Some(0),
                })
            }
            &&& after == (AgentState { items: after.items, ..m })
        }),
{
    let n = m.items.len() as int;
    lemma_delta_at(m.items, id@, n);
    let at = agent_pane::delta_at(m.items, id@, n);
    let after = agent_pane::applied(m, agent::Event::TextDelta { message_id: id, text: t }, now).0;
    if at < 0 {
        assert(after.items.drop_last() =~= m.items);
        if 0 <= k < n {
            assert(!agent_pane::takes_delta(m.items[k], id@));
        }
    } else {
        assert(agent_pane::takes_delta(m.items[at], id@));
        if 0 <= k < n && agent_pane::takes_delta(m.items[k], id@) && k < at {
            assert(m.items[at].provisional);
        }
    }
}

/// A block that begins is a new entry at the end, which may still change.
pub proof fn a_block_begins_a_draft(m: AgentState, id: String, block: agent::Block, now: u64)
    ensures
        ({
            let (after, step) = agent_pane::applied(
                m,
                agent::Event::BlockStart { message_id: id, block },
                now,
            );
            let new = after.items.last();
            &&& after.items.drop_last() == m.items
            &&& new.provisional && new.message_id == Some(id@)
            &&& block is Thinking ==> new.kind == KindState::Thinking
            &&& block matches agent::Block::Text(t) ==> new.kind == KindState::Text(t@) && new.revealed == Some(
                0usize,
            )
            &&& block matches agent::Block::ToolUse { id: call, name, input } ==> new.kind == (KindState::Tool {
                id: call@,
                name: name@,
                summary: agent::summary_of(name@, input),
                result: None,
            })
            &&& step == StepState::Done
            &&& after == (AgentState { items: after.items, ..m })
        }),
{
    assert(agent_pane::applied(m, agent::Event::BlockStart { message_id: id, block }, now).0.items.drop_last()
        =~= m.items);
}

proof fn lemma_call_at(items: Seq<ItemState>, id: Seq<char>, n: int)
    requires
        0 <= n <= items.len(),
    ensures
        -1 <= agent_pane::call_at(items, id, n) < n,
        agent_pane::call_at(items, id, n) >= 0 ==> (items[agent_pane::call_at(items, id, n)].kind matches
            KindState::Tool { id: own, .. } && own == id),
        forall|i: int|
            agent_pane::call_at(items, id, n) < i < n ==> !((#[trigger] items[i]).kind matches KindState::Tool {
                id: own,
                ..
            } && own == id),
    decreases n,
{
    if n > 0 {
        lemma_call_at(items, id, n - 1);
    }
}

/// What a tool gave back goes to the newest call with its number: the call
/// keeps its name and its summary and shows whether it went wrong. No other
/// entry changes. The folder has to be read again exactly where that call
/// was of a tool that writes files and went well.
pub proof fn a_result_goes_to_its_call(m: AgentState, id: String, bad: bool, t: String, now: u64, k: int)
    ensures
        ({
            let after = agent_pane::applied(
                m,
                agent::Event::ToolResult { tool_use_id: id, is_error: bad, text: t },
                now,
            ).0;
            let ours = |i: ItemState| i.kind is Tool && i.kind->Tool_id == id@;
            let newest = 0 <= k < m.items.len() && ours(m.items[k]) && (forall|j: int|
                k < j < m.items.len() ==> !ours(#[trigger] m.items[j]));
            let none = forall|j: int| 0 <= j < m.items.len() ==> !ours(#[trigger] m.items[j]);
            &&& newest ==> {
                let name = m.items[k].kind->Tool_name;
                let now_kind = after.items[k].kind;
                &&& after.items.len() == m.items.len()
                &&& now_kind is Tool
                &&& now_kind->Tool_id == id@
                &&& now_kind->Tool_name == name
                &&& now_kind->Tool_summary == m.items[k].kind->Tool_summary
                &&& now_kind->Tool_result is Some
                &&& now_kind->Tool_result.unwrap().0 == bad
                &&& now_kind->Tool_result.unwrap().1.len() <= 120
                &&& agent_pane::tool_edited(m, id@, bad) == (!bad && (name == "Edit"@ || name == "Write"@ || name
                    == "MultiEdit"@ || name == "NotebookEdit"@))
                &&& forall|j: int|
                    0 <= j < m.items.len() && j != k ==> #[trigger] after.items[j] == m.items[j]
            }
            &&& none ==> after == m && !agent_pane::tool_edited(m, id@, bad)
            &&& after == (AgentState { items: after.items, ..m })
        }),
{
    let n = m.items.len() as int;
    lemma_call_at(m.items, id@, n);
    let at = agent_pane::call_at(m.items, id@, n);
    if at >= 0 {
        assert(m.items[at].kind is Tool);
        if 0 <= k < n && k < at {
            assert(m.items[at].kind->Tool_id == id@);
        }
    } else if 0 <= k < n {
        assert(m.items[k].kind is Tool ==> m.items[k].kind->Tool_id != id@);
    }
}

proof fn lemma_first_full_line(lines: Seq<Seq<char>>, i: int, k: int)
    requires
        0 <= i <= k < lines.len(),
        text::trimmed(lines[k]).len() > 0,
        forall|j: int| i <= j < k ==> text::trimmed(#[trigger] lines[j]).len() == 0,
    ensures
        agent_pane::first_full_line(lines, i) == text::trimmed(lines[k]),
    decreases k - i,
{
    if i < k {
        lemma_first_full_line(lines, i + 1, k);
    }
}

/// The line of a result that is shown is its first one with anything on it,
/// cut where it is too long.
pub proof fn a_result_is_shown_by_its_first_line(lines: Seq<Seq<char>>, k: int)
    requires
        0 <= k < lines.len(),
        text::trimmed(lines[k]).len() > 0,
        forall|j: int| 0 <= j < k ==> text::trimmed(#[trigger] lines[j]).len() == 0,
    ensures
        agent_pane::first_full_line(lines, 0) == text::trimmed(lines[k]),
        text::trimmed(lines[k]).len() <= 120 ==> transcript::clipped(agent_pane::first_full_line(lines, 0))
            == text::trimmed(lines[k]),
        text::trimmed(lines[k]).len() > 120 ==> {
            let cut = transcript::clipped(agent_pane::first_full_line(lines, 0));
            cut.len() == 120 && cut.last() == '\u{2026}' && cut.drop_last() == text::trimmed(lines[k]).take(119)
        },
{
    lemma_first_full_line(lines, 0, k);
    if text::trimmed(lines[k]).len() > 120 {
        assert(transcript::clipped(text::trimmed(lines[k])).drop_last() =~= text::trimmed(lines[k]).take(119));
    }
}

proof fn lemma_finished_in_order(blocks: Seq<agent::Block>, id: Seq<char>, out: Seq<usize>, n: int)
    requires
        0 <= n <= blocks.len(),
        forall|i: int| 0 <= i < n ==> !agent_pane::is_blank_block(#[trigger] blocks[i]),
    ensures
        agent_pane::finished(blocks, id, out, n).len() == n,
        forall|i: int|
            0 <= i < n ==> (#[trigger] agent_pane::finished(blocks, id, out, n)[i]).kind == agent_pane::block_kind(
                blocks[i],
            ) && !agent_pane::finished(blocks, id, out, n)[i].provisional && agent_pane::finished(
                blocks,
                id,
                out,
                n,
            )[i].message_id == Some(id),
    decreases n,
{
    if n > 0 {
        lemma_finished_in_order(blocks, id, out, n - 1);
        let all = agent_pane::finished(blocks, id, out, n);
        let before = agent_pane::finished(blocks, id, out, n - 1);
        assert forall|i: int| 0 <= i < n implies (#[trigger] all[i]).kind == agent_pane::block_kind(blocks[i])
            && !all[i].provisional && all[i].message_id == Some(id) by {
            if i < n - 1 {
                assert(all[i] == before[i]);
            }
        }
    }
}

proof fn lemma_without_drafts_keeps(items: Seq<ItemState>, id: Seq<char>)
    requires
        forall|i: int| 0 <= i < items.len() ==> !agent_pane::is_draft_of(#[trigger] items[i], id),
    ensures
        agent_pane::without_drafts(items, id) == items,
    decreases items.len(),
{
    if items.len() > 0 {
        lemma_without_drafts_keeps(items.drop_last(), id);
        assert(!agent_pane::is_draft_of(items[items.len() - 1], id));
        assert(items.drop_last().push(items.last()) =~= items);
    }
}

/// A finished message stands below what was there, block by block in its
/// order, and nothing of it can still change. Other entries stay.
pub proof fn a_finished_message_is_shown_in_order(
    m: AgentState,
    id: String,
    blocks: Vec<agent::Block>,
    now: u64,
    k: int,
)
    requires
        forall|i: int| 0 <= i < blocks@.len() ==> !agent_pane::is_blank_block(#[trigger] blocks@[i]),
        forall|i: int|
            0 <= i < m.items.len() ==> !((#[trigger] m.items[i]).provisional && m.items[i].message_id == Some(
                id@,
            )),
        0 <= k < blocks@.len(),
    ensures
        ({
            let after = agent_pane::applied(m, agent::Event::Assistant { message_id: id, blocks }, now).0;
            let shown = after.items[m.items.len() + k];
            &&& after.items.len() == m.items.len() + blocks@.len()
            &&& after.items.take(m.items.len() as int) == m.items
            &&& !shown.provisional && shown.message_id == Some(id@)
            &&& blocks@[k] is Thinking ==> shown.kind == KindState::Thinking
            &&& blocks@[k] matches agent::Block::Text(t) ==> shown.kind == KindState::Text(t@)
            &&& blocks@[k] matches agent::Block::ToolUse { id: call, name, input } ==> shown.kind
                == (KindState::Tool {
                id: call@,
                name: name@,
                summary: agent::summary_of(name@, input),
                result: None,
            })
            &&& after == (AgentState { items: after.items, ..m })
        }),
{
    let out = agent_pane::let_out(m.items, id@);
    lemma_finished_in_order(blocks@, id@, out, blocks@.len() as int);
    lemma_without_drafts_keeps(m.items, id@);
    let after = agent_pane::applied(m, agent::Event::Assistant { message_id: id, blocks }, now).0;
    assert(after.items.take(m.items.len() as int) =~= m.items);
}

proof fn lemma_without_drafts_of_two(a: Seq<ItemState>, b: Seq<ItemState>, id: Seq<char>)
    ensures
        agent_pane::without_drafts(a + b, id) == agent_pane::without_drafts(a, id) + agent_pane::without_drafts(
            b,
            id,
        ),
    decreases b.len(),
{
    if b.len() == 0 {
        assert(a + b =~= a);
        assert(agent_pane::without_drafts(a, id) + agent_pane::without_drafts(b, id)
            =~= agent_pane::without_drafts(a, id));
    } else {
        lemma_without_drafts_of_two(a, b.drop_last(), id);
        assert((a + b).drop_last() =~= a + b.drop_last());
        assert((a + b).last() == b.last());
        assert(agent_pane::without_drafts(a + b, id) =~= agent_pane::without_drafts(a, id)
            + agent_pane::without_drafts(b, id));
    }
}

/// Of the entries only the drafts of the message go when it is finished:
/// any other entry stays between what stays above it and below it.
pub proof fn only_its_drafts_go(a: Seq<ItemState>, i: ItemState, b: Seq<ItemState>, id: Seq<char>)
    ensures
        ({
            let above = agent_pane::without_drafts(a, id);
            let below = agent_pane::without_drafts(b, id);
            let ours = i.provisional && i.message_id == Some(id);
            agent_pane::without_drafts(a + seq![i] + b, id) == (if ours {
                above + below
            } else {
                above + seq![i] + below
            })
        }),
{
    lemma_without_drafts_of_two(a + seq![i], b, id);
    lemma_without_drafts_of_two(a, seq![i], id);
    reveal_with_fuel(agent_pane::without_drafts, 2);
    assert(seq![i].drop_last() =~= Seq::<ItemState>::empty());
    assert(agent_pane::without_drafts(a, id) + Seq::<ItemState>::empty() =~= agent_pane::without_drafts(a, id));
    assert(Seq::<ItemState>::empty().push(i) =~= seq![i]);
}

proof fn lemma_matching(list: Seq<agent::CompletionState>, needle: Seq<char>, c: agent::CompletionState)
    ensures
        agent_pane::matching(list, needle).contains(c) <==> list.contains(c) && text::has_prefix(
            text::lowercase(c.name),
            needle,
        ),
    decreases list.len(),
{
    if list.len() > 0 {
        lemma_matching(list.drop_last(), needle, c);
        let rest = agent_pane::matching(list.drop_last(), needle);
        let all = agent_pane::matching(list, needle);
        if all.contains(c) {
            let i = choose|i: int| 0 <= i < all.len() && all[i] == c;
            if i < rest.len() && all != rest {
                assert(rest[i] == c);
            }
            if rest.contains(c) {
                let j = choose|j: int| 0 <= j < list.drop_last().len() && list.drop_last()[j] == c;
                assert(list[j] == c);
            } else {
                assert(list[list.len() - 1] == c);
            }
        }
        if list.contains(c) && text::has_prefix(text::lowercase(c.name), needle) {
            let j = choose|j: int| 0 <= j < list.len() && list[j] == c;
            if j < list.len() - 1 {
                assert(list.drop_last()[j] == c);
                let i = choose|i: int| 0 <= i < rest.len() && rest[i] == c;
                assert(all[i] == c);
            } else {
                assert(all[all.len() - 1] == c);
            }
        }
    }
}

/// What is offered behind a slash is every command whose name begins with
/// what is typed, whatever its case, and nothing else; without a slash, or
/// once there is a second word, nothing is offered.
pub proof fn what_begins_alike_is_offered(m: AgentState, c: agent::CompletionState)
    ensures
        m.input.len() == 0 || m.input[0] != '/' ==> agent_pane::offered(m).len() == 0,
        (exists|i: int| 1 <= i < m.input.len() && text::is_white(#[trigger] m.input[i])) ==> agent_pane::offered(
            m,
        ).len() == 0,
        m.input.len() > 0 && m.input[0] == '/' && (forall|i: int|
            1 <= i < m.input.len() ==> !text::is_white(#[trigger] m.input[i])) ==> (agent_pane::offered(m).contains(
            c,
        ) <==> (agent_pane::local_list().contains(c) || m.skills.contains(c)) && text::has_prefix(
            text::lowercase(c.name),
            text::lowercase(m.input.skip(1)),
        )),
{
    let rest = m.input.skip(1);
    if m.input.len() > 0 && m.input[0] == '/' {
        if agent_pane::has_white(rest) {
            let i = choose|i: int| 0 <= i < rest.len() && text::is_white(#[trigger] rest[i]);
            assert(text::is_white(m.input[i + 1]));
        } else {
            assert forall|i: int| 1 <= i < m.input.len() implies !text::is_white(#[trigger] m.input[i]) by {
                assert(rest[i - 1] == m.input[i]);
            }
            let all = agent_pane::local_list() + m.skills;
            lemma_matching(all, text::lowercase(rest), c);
            if all.contains(c) {
                let i = choose|i: int| 0 <= i < all.len() && all[i] == c;
                if i < agent_pane::local_list().len() {
                    assert(agent_pane::local_list()[i] == c);
                } else {
                    assert(m.skills[i - agent_pane::local_list().len()] == c);
                }
            }
            if agent_pane::local_list().contains(c) {
                let i = choose|i: int| 0 <= i < agent_pane::local_list().len() && agent_pane::local_list()[i] == c;
                assert(all[i] == c);
            }
            if m.skills.contains(c) {
                let i = choose|i: int| 0 <= i < m.skills.len() && m.skills[i] == c;
                assert(all[i + agent_pane::local_list().len()] == c);
            }
        }
    }
}

/// Taking a completion writes the one that is picked, with a space behind it
/// to type on from; sending nothing. Where what is typed is that name
/// already there is nothing to take.
pub proof fn the_picked_completion_is_taken(m: AgentState)
    requires
        m.pick_cmd < agent_pane::offered(m).len(),
        m.input.skip(agent_pane::skip_slashes(m.input, 0)) != agent_pane::offered(m)[m.pick_cmd as int].name,
    ensures
        agent_pane::entered(m).1 == StepState::Done,
        agent_pane::entered(m).0 == (AgentState {
            input: "/"@ + agent_pane::offered(m)[m.pick_cmd as int].name + " "@,
            pick_cmd: 0,
            ..m
        }),
        agent_pane::completed(m) == agent_pane::entered(m).0,
{
}

/// The pane's own commands with an argument: what follows the command is
/// what the process is told, where one runs.
pub proof fn mode_and_model_are_handed_over(m: AgentState, rest: Seq<char>)
    requires
        text::words(rest).len() >= 2,
        m.running,
    ensures
        text::words(rest)[0] == "mode"@ ==> agent_pane::commanded(m, rest) == Some(
            (m, StepState::SetMode(text::words(rest)[1])),
        ),
        text::words(rest)[0] == "model"@ ==> agent_pane::commanded(m, rest) == Some(
            (m, StepState::SetModel(text::words(rest)[1])),
        ),
        text::words(rest)[0] != "mode"@ && text::words(rest)[0] != "model"@ && text::words(rest)[0] != "stop"@
            ==> agent_pane::commanded(m, rest) is None,
{
    reveal_strlit("mode");
    reveal_strlit("model");
    reveal_strlit("stop");
    assert("mode"@.len() != "model"@.len());
}

/// A command that the pane does not know is the agent's own and goes out as
/// it was typed.
pub proof fn other_commands_go_out(m: AgentState)
    requires
        !agent_pane::completes(m),
        !m.busy,
        text::trimmed(m.input).len() > 0,
        text::trimmed(m.input)[0] == '/',
        ({
            let w = text::words(text::trimmed(m.input).skip(1));
            w.len() == 0 || (w[0] != "mode"@ && w[0] != "model"@ && w[0] != "stop"@)
        }),
    ensures
        agent_pane::entered(m).0 == (AgentState { input: Seq::empty(), follow: true, ..m }),
        m.running ==> agent_pane::entered(m).1 == (StepState::Send {
            text: text::trimmed(m.input),
            shown: false,
        }),
        !m.running ==> agent_pane::entered(m).1 == (StepState::Spawn {
            resume: m.session_id,
            text: text::trimmed(m.input),
            shown: false,
        }),
{
}

proof fn lemma_last_space(s: Seq<char>, start: int, end: int, k: int)
    requires
        0 <= start <= k < end <= s.len(),
        s[k] == ' ',
        forall|i: int| k < i < end ==> #[trigger] s[i] != ' ',
    ensures
        transcript::last_space(s, start, end) == k,
    decreases end - start,
{
    if k < end - 1 {
        assert(s[end - 1] != ' ');
        lemma_last_space(s, start, end - 1, k);
    }
}

proof fn lemma_no_space(s: Seq<char>, start: int, end: int)
    requires
        0 <= start <= end <= s.len(),
        forall|i: int| start <= i < end ==> #[trigger] s[i] != ' ',
    ensures
        transcript::last_space(s, start, end) == start - 1,
    decreases end - start,
{
    if start < end {
        assert(s[end - 1] != ' ');
        lemma_no_space(s, start, end - 1);
    }
}

/// Deleting back by a word takes the last word, with the white space behind
/// it, and keeps the space in front of it; the only word goes whole.
pub proof fn a_word_goes_at_once(front: Seq<char>, word: Seq<char>)
    requires
        word.len() > 0,
        !text::is_white(word.last()),
        forall|i: int| 0 <= i < word.len() ==> #[trigger] word[i] != ' ',
    ensures
        agent_pane::without_word(front + seq![' '] + word) == front + seq![' '],
        agent_pane::without_word(word) == Seq::<char>::empty(),
{
    let s = front + seq![' '] + word;
    let n = s.len() as int;
    assert(s[n - 1] == word.last());
    assert(text::back_white(s, n) == n);
    assert forall|i: int| front.len() < i < n implies #[trigger] s[i] != ' ' by {
        assert(s[i] == word[i - front.len() - 1]);
    }
    lemma_last_space(s, 0, n, front.len() as int);
    assert(s.take(front.len() as int + 1) =~= front + seq![' ']);
    assert(text::back_white(word, word.len() as int) == word.len());
    lemma_no_space(word, 0, word.len() as int);
    assert(word.take(0) =~= Seq::<char>::empty());
}

/// Pasted text has no line break left in it, and text without one is pasted
/// as it is.
pub proof fn pasted_text_is_one_line(s: Seq<char>, i: int)
    requires
        0 <= i <= s.len(),
    ensures
        forall|k: int|
            0 <= k < agent_pane::one_line(s, i).len() ==> (#[trigger] agent_pane::one_line(s, i)[k]) != '\n'
                && agent_pane::one_line(s, i)[k] != '\r',
        agent_pane::one_line(s, i).len() <= s.len() - i,
        (forall|k: int| i <= k < s.len() ==> (#[trigger] s[k]) != '\n' && s[k] != '\r') ==> agent_pane::one_line(
            s,
            i,
        ) == s.skip(i),
        i < s.len() && s[i] == '\n' ==> agent_pane::one_line(s, i) == seq![' '] + agent_pane::one_line(s, i + 1),
        i + 1 < s.len() && s[i] == '\r' && s[i + 1] == '\n' ==> agent_pane::one_line(s, i) == seq![' ']
            + agent_pane::one_line(s, i + 2),
    decreases s.len() - i,
{
    if i < s.len() {
        if s[i] == '\r' && i + 1 < s.len() && s[i + 1] == '\n' {
            pasted_text_is_one_line(s, i + 2);
        } else {
            pasted_text_is_one_line(s, i + 1);
            assert(seq![s[i]] + s.skip(i + 1) =~= s.skip(i));
        }
    } else {
        assert(s.skip(i) =~= Seq::<char>::empty());
    }
}

/// A call is summed up by its tool and the argument that tells most: the
/// file of a tool that reads or writes one, the command of a shell, what is
/// searched for, the address of a page.
pub proof fn a_call_is_summed_up_by_what_it_is_about(name: Seq<char>)
    ensures
        name == "Read"@ || name == "Edit"@ || name == "Write"@ || name == "MultiEdit"@ || name == "NotebookEdit"@
            ==> agent::telling_field(name) == Some("file_path"@),
        name == "Bash"@ ==> agent::telling_field(name) == Some("command"@),
        name == "Grep"@ || name == "Glob"@ ==> agent::telling_field(name) == Some("pattern"@),
        name == "WebFetch"@ ==> agent::telling_field(name) == Some("url"@),
        name == "WebSearch"@ ==> agent::telling_field(name) == Some("query"@),
        name == "Task"@ || name == "Agent"@ ==> agent::telling_field(name) == Some("description"@),
{
    reveal_strlit("Read");
    reveal_strlit("Edit");
    reveal_strlit("Write");
    reveal_strlit("MultiEdit");
    reveal_strlit("NotebookEdit");
    reveal_strlit("Bash");
    reveal_strlit("Grep");
    reveal_strlit("Glob");
    reveal_strlit("WebFetch");
    reveal_strlit("WebSearch");
    reveal_strlit("Task");
    reveal_strlit("Agent");
    assert("Bash"@[0] == 'B' && "Grep"@[0] == 'G' && "Glob"@[0] == 'G' && "Task"@[0] == 'T' && "Read"@[0] == 'R'
        && "Edit"@[0] == 'E');
    assert("Write"@[0] == 'W' && "Agent"@[0] == 'A');
    assert("MultiEdit"@[0] == 'M' && "WebSearch"@[0] == 'W');
    assert("WebFetch"@.len() == 8 && "WebSearch"@.len() == 9 && "MultiEdit"@.len() == 9 && "NotebookEdit"@.len()
        == 12);
}

proof fn lemma_field_from(fields: Seq<(String, String)>, key: Seq<char>, i: int, k: int)
    requires
        0 <= i <= k < fields.len(),
        fields[k].0@ == key,
        forall|j: int| i <= j < k ==> (#[trigger] fields[j]).0@ != key,
    ensures
        agent::field_from(fields, key, i) == Some(fields[k].1@),
    decreases k - i,
{
    if i < k {
        lemma_field_from(fields, key, i + 1, k);
    }
}

proof fn lemma_no_field(fields: Seq<(String, String)>, key: Seq<char>, i: int)
    requires
        0 <= i <= fields.len(),
        forall|j: int| i <= j < fields.len() ==> (#[trigger] fields[j]).0@ != key,
    ensures
        agent::field_from(fields, key, i) is None,
    decreases fields.len() - i,
{
    if i < fields.len() {
        lemma_no_field(fields, key, i + 1);
    }
}

/// An argument is found under its name, and one that is not there is not
/// found.
pub proof fn an_argument_is_found_by_name(fields: Seq<(String, String)>, key: Seq<char>, k: int)
    requires
        0 <= k <= fields.len(),
        forall|j: int| 0 <= j < k ==> (#[trigger] fields[j]).0@ != key,
        k < fields.len() ==> fields[k].0@ == key,
    ensures
        k < fields.len() ==> agent::field_from(fields, key, 0) == Some(fields[k].1@),
        k == fields.len() ==> agent::field_from(fields, key, 0) is None,
{
    if k < fields.len() {
        lemma_field_from(fields, key, 0, k);
    } else {
        lemma_no_field(fields, key, 0);
    }
}

/// The summary of a call is its tool's name, and behind it the first line of
/// what it is about, where that fits.
pub proof fn a_summary_names_the_tool(name: Seq<char>, input: agent::Input)
    ensures
        ({
            let about = text::trimmed(text::first_line(agent::telling_argument(name, input)));
            &&& about.len() == 0 ==> agent::summary_of(name, input) == name
            &&& about.len() > 0 && name.len() + 2 + about.len() <= 120 ==> agent::summary_of(name, input) == name
                + "  "@ + about
            &&& about.len() > 0 && name.len() + 2 + about.len() > 120 ==> agent::summary_of(name, input).len()
                == 120
        }),
{
    reveal_strlit("  ");
}

/// How long until a limit lifts: in hours and minutes that make up the time
/// left to within the minute, and never a time that is past.
pub proof fn the_time_left_is_hours_and_minutes(at: nat, now: nat, h: nat, m: nat)
    requires
        m < 60,
    ensures
        at < now + 60 ==> agent::time_until(at, now) == "under a minute"@,
        0 < m && now + 60 * m <= at < now + 60 * m + 60 ==> agent::time_until(at, now) == text::decimal(m) + "m"@,
        0 < h && now + 3600 * h + 60 * m <= at < now + 3600 * h + 60 * m + 60 ==> agent::time_until(at, now)
            == text::decimal(h) + "h"@ + text::padded(text::decimal(m), '0', 2) + "m"@,
{
    let secs: int = at - now;
    if 0 < h && now + 3600 * h + 60 * m <= at && at < now + 3600 * h + 60 * m + 60 {
        assert(secs / 3600 == h && (secs % 3600) / 60 == m) by (nonlinear_arith)
            requires
                3600 * h + 60 * m <= secs,
                secs < 3600 * h + 60 * m + 60,
                m < 60,
        ;
    }
}

/// What a question is about: the title tells what is to be done, and the
/// line below shows what it is to be done to.
pub proof fn a_question_shows_what_is_asked(ask: agent::Permission, cwd: PathState)
    ensures
        ask.tool_name@ == "Bash"@ ==> agent_pane::question(ask, cwd) == (
            "Run a command?"@,
            agent::field_from(ask.input.fields@, "command"@, 0),
        ),
        ask.tool_name@ == "WebFetch"@ ==> agent_pane::question(ask, cwd) == (
            "Fetch a page?"@,
            agent::field_from(ask.input.fields@, "url"@, 0),
        ),
        ask.tool_name@ == "WebSearch"@ ==> agent_pane::question(ask, cwd) == (
            "Search the web?"@,
            agent::field_from(ask.input.fields@, "query"@, 0),
        ),
        ask.tool_name@ == "Write"@ ==> agent_pane::question(ask, cwd).0 == "Write a file?"@,
        ask.tool_name@ == "Edit"@ || ask.tool_name@ == "MultiEdit"@ || ask.tool_name@ == "NotebookEdit"@
            ==> agent_pane::question(ask, cwd).0 == "Change a file?"@,
        agent::is_writer(ask.tool_name@) ==> agent_pane::question(ask, cwd).1 == (match agent::field_from(
            ask.input.fields@,
            "file_path"@,
            0,
        ) {
            Some(p) => Some(agent_pane::local_name(p, cwd)),
            None => None,
        }),
{
    reveal_strlit("Edit");
    reveal_strlit("Write");
    reveal_strlit("MultiEdit");
    reveal_strlit("NotebookEdit");
    reveal_strlit("Bash");
    reveal_strlit("WebFetch");
    reveal_strlit("WebSearch");
    assert("Bash"@[0] == 'B' && "Edit"@[0] == 'E' && "Write"@[0] == 'W' && "MultiEdit"@[0] == 'M' && "WebSearch"@[0]
        == 'W');
    assert("WebFetch"@.len() == 8 && "WebSearch"@.len() == 9 && "MultiEdit"@.len() == 9 && "NotebookEdit"@.len()
        == 12);
}

/// A line that is fitted is never longer than asked, nor is it cut shorter
/// than eight; one that fits is shown as it is, and one that was cut ends in
/// dots.
pub proof fn a_fitted_line_fits(whole: Seq<char>, max: nat)
    ensures
        agent_pane::fitted(whole, max).len() <= (if max < 8 { 8 } else { max }),
        text::trimmed(text::first_line(whole)) == whole && whole.len() < (if max < 8 { 8 } else { max })
            ==> agent_pane::fitted(whole, max) == whole,
        agent_pane::fitted(whole, max).len() > 0 && agent_pane::fitted(whole, max).len() < whole.len()
            ==> agent_pane::fitted(whole, max).last() == '\u{2026}',
{
}

/// A text that is let out on the screen goes on from where it was: never
/// back, by at least two characters a frame while any are left, and no
/// further than its end. Whole and finished, it is let be.
pub proof fn text_comes_out_until_it_is_all_there(i: ItemState, t: Seq<char>, n: usize)
    requires
        i.kind == KindState::Text(t),
        i.revealed == Some(n),
    ensures
        ({
            let next = agent_view::frame(i);
            &&& next.kind == i.kind && next.message_id == i.message_id && next.provisional == i.provisional
            &&& n < t.len() && t.len() <= usize::MAX ==> next.revealed is Some && n < next.revealed.unwrap()
                <= t.len() && (next.revealed.unwrap() >= n + 2 || next.revealed.unwrap() == t.len())
            &&& n >= t.len() && !i.provisional ==> next.revealed is None
            &&& n >= t.len() && i.provisional ==> next == i
        }),
{
}

/// An entry that shows all it has is not touched by the passing of time.
pub proof fn what_is_all_there_stays(i: ItemState)
    requires
        i.revealed is None,
    ensures
        agent_view::frame(i) == i,
{
}

/// The transcript follows its end until it is scrolled, and never runs past
/// it; scrolled to its end, it follows again.
pub proof fn the_transcript_follows_its_end(m: AgentState, rows: nat, visible: nat)
    requires
        rows <= usize::MAX,
        visible > 0,
    ensures
        m.follow && visible <= rows ==> agent_view::settled(m, rows, visible).top == rows - visible,
        m.follow && visible > rows ==> agent_view::settled(m, rows, visible).top == 0,
        !m.follow && m.top + visible <= rows ==> agent_view::settled(m, rows, visible) == m,
        agent_view::settled(m, rows, visible) == (AgentState {
            top: agent_view::settled(m, rows, visible).top,
            ..m
        }),
        agent_view::scrolled(m, -(rows as int) - m.top, rows, visible).follow,
        m.top > 0 && visible < rows && m.top + visible <= rows ==> agent_view::scrolled(m, 1, rows, visible).top
            == m.top - 1 && !agent_view::scrolled(m, 1, rows, visible).follow,
{
}

/// The header names the agent and the model that answers, and says where
/// nobody runs.
pub proof fn the_header_names_who_answers(m: AgentState, model: Seq<char>)
    ensures
        m.model is None ==> agent_view::title(m) == agent::capitals(m.name),
        m.model == Some(model) && m.running ==> agent_view::title(m) == agent::capitals(m.name) + " \u{b7} "@ + model,
        m.model == Some(model) && !m.running ==> agent_view::title(m) == agent::capitals(m.name) + " \u{b7} "@ + model
            + " \u{b7} stopped"@,
{
}

/// What the hint says of what goes on: a question comes first, then a stop
/// that is under way, then the time a turn takes.
pub proof fn the_hint_says_what_goes_on(m: AgentState, clock: u64, at: u64)
    ensures
        m.asks.len() > 0 ==> agent_view::activity(m, clock) == "waiting for your answer"@,
        m.asks.len() == 0 && m.stopping ==> agent_view::activity(m, clock) == "stopping\u{2026}"@,
        m.asks.len() == 0 && !m.stopping && !m.busy ==> agent_view::activity(m, clock) == "Enter sends"@,
        m.asks.len() == 0 && !m.stopping && m.busy && m.turn_started == Some(at) && at <= clock
            ==> agent_view::activity(m, clock) == "working "@ + text::decimal(
            ((clock - at) / 1_000_000_000) as nat,
        ) + "s \u{b7} Esc stops"@,
        m.asks.len() == 0 && !m.stopping && m.busy && m.turn_started is None ==> agent_view::activity(m, clock)
            == "working\u{2026} Esc stops"@,
        !m.busy ==> agent_view::running_for(m, clock) is None,
{
}

/// What the hint holds, in its order: what was spent, how many turns, and
/// what goes on.
pub proof fn the_hint_in_its_order(m: AgentState, now: u64, clock: u64)
    ensures
        ({
            let parts = agent_view::hint_parts(m, now, clock);
            let spent = agent_view::spending(m, now);
            &&& parts.last() == agent_view::activity(m, clock)
            &&& m.turns == 0 ==> parts.len() == spent.len() + 1
            &&& m.turns == 1 ==> parts.len() == spent.len() + 2 && parts[spent.len() as int] == text::decimal(1) + " "@
                + "turn"@
            &&& m.turns > 1 ==> parts.len() == spent.len() + 2 && parts[spent.len() as int] == text::decimal(
                m.turns as nat,
            ) + " "@ + "turns"@
            &&& forall|i: int| 0 <= i < spent.len() ==> #[trigger] parts[i] == spent[i]
        }),
        m.limits is None && m.cost is None ==> agent_view::spending(m, now).len() == 0,
        m.limits is None && m.cost is Some ==> agent_view::spending(m, now) == seq!["$"@ + m.cost.unwrap().mills@],
{
}

/// What is left of a plan: its two windows by name, and when the nearer one
/// opens again.
pub proof fn the_windows_of_a_plan(m: AgentState, l: Limits, five: agent::Window, seven: agent::Window, now: u64)
    requires
        m.limits == Some(l),
        l.five_hour == Some(five),
        l.seven_day == Some(seven),
        !l.using_overage,
    ensures
        ({
            let s = agent_view::spending(m, now);
            &&& s[0] == "5h "@ + five.percent@ + "%"@
            &&& s[1] == "7d "@ + seven.percent@ + "%"@
            &&& five.resets_at <= now ==> s.len() == 2
            &&& five.resets_at > now ==> s.len() == 3 && s[2] == "resets in "@ + agent::time_until(
                five.resets_at as nat,
                now as nat,
            )
        }),
{
}

/// A name in capitals is the same name, letter for letter.
pub proof fn capitals_letter_for_letter(s: Seq<char>, i: int)
    requires
        0 <= i < s.len(),
    ensures
        agent::capitals(s).len() == s.len() && agent::capitalized(s).len() == s.len(),
        s[i] == 'a' ==> agent::capitals(s)[i] == 'A',
        s[i] == 'z' ==> agent::capitals(s)[i] == 'Z',
        'a' <= s[i] <= 'z' ==> agent::capitals(s)[i] as u32 + 32 == s[i] as u32,
        !('a' <= s[i] <= 'z') ==> agent::capitals(s)[i] == s[i],
        i > 0 ==> agent::capitalized(s)[i] == s[i],
        agent::capitalized(s)[0] == agent::capitals(s)[0],
{
}

/// What is said of a limit that is reached: once, with when it lifts.
pub proof fn a_limit_that_is_reached_is_said(m: AgentState, l: Limits, now: u64)
    ensures
        ({
            let (after, step) = agent_pane::applied(m, agent::Event::RateLimit(l), now);
            let before = m.limits is Some && m.limits.unwrap().rejected;
            &&& after.limits == Some(l)
            &&& step == StepState::Done
            &&& !l.rejected || before ==> after.items == m.items
            &&& l.rejected && !before ==> after.items.len() == m.items.len() + 1 && after.items.last().kind is Error
            &&& l.rejected && !before && l.five_hour is Some ==> after.items.last().kind == KindState::Error(
                "usage limit reached"@ + (" \u{b7} resets in "@ + agent::time_until(
                    l.five_hour.unwrap().resets_at as nat,
                    now as nat,
                )),
            )
            &&& after == (AgentState { limits: after.limits, items: after.items, ..m })
        }),
{
}

/// The line below a question shows what it is about, and where nothing tells
/// that, the tool with what it says of itself.
pub proof fn the_line_below_a_question(ask: agent::Permission, cwd: PathState, w: Seq<char>)
    ensures
        agent_pane::question(ask, cwd).1 == Some(w) && text::trimmed(w).len() > 0 ==> agent_pane::question_line(ask, cwd)
            == text::trimmed(w),
        agent_pane::question(ask, cwd).1 is None ==> agent_pane::question_line(ask, cwd) == text::trimmed(
            text::trimmed(ask.tool_name@ + "  "@ + ask.description@),
        ),
{
}

/// A file in the folder is shown by its path in it, and another one by its
/// whole path.
pub proof fn a_file_in_the_folder_is_shown_short(p: Seq<char>, cwd: PathState)
    ensures
        path::is_under(path::path_of(p), cwd) ==> agent_pane::local_name(p, cwd) == text::swapped(
            path::path_text(path::below(path::path_of(p), cwd)),
            '\\',
            '/',
        ),
        !path::is_under(path::path_of(p), cwd) ==> agent_pane::local_name(p, cwd) == p,
{
}

/// The transcript is laid out to the width of the pane, and to eight columns
/// in a narrower one.
pub proof fn rows_are_as_wide_as_the_pane(cols: nat)
    ensures
        cols >= 8 ==> agent_view::row_width(cols) == cols,
        cols < 8 ==> agent_view::row_width(cols) == 8,
{
}

/// A frame moves what is still coming out and leaves the rest; anything that
/// moved or came to its end is worth drawing.
pub proof fn a_frame_is_worth_drawing(items: Seq<ItemState>, k: int, t: Seq<char>, n: usize)
    requires
        0 <= k < items.len(),
        items[k].kind == KindState::Text(t),
        items[k].revealed == Some(n),
    ensures
        n < t.len() ==> agent_view::any_moves(items),
        n >= t.len() && !items[k].provisional ==> agent_view::any_settles(items),
        agent_view::framed(items).len() == items.len(),
        agent_view::framed(items)[k] == agent_view::frame(items[k]),
{
    if n < t.len() {
        assert(agent_view::moves(items[k]));
    }
    if n >= t.len() && !items[k].provisional {
        assert(agent_view::settles(items[k]));
    }
}

/// What is out of each draft is kept in the order of the drafts.
pub proof fn what_is_out_is_kept_in_order(items: Seq<ItemState>, i: ItemState, id: Seq<char>)
    ensures
        ({
            let ours = i.provisional && i.message_id == Some(id) && i.kind is Text;
            let before = agent_pane::let_out(items, id);
            let after = agent_pane::let_out(items.push(i), id);
            &&& !ours ==> after == before
            &&& ours && i.revealed is Some ==> after == before.push(i.revealed.unwrap())
            &&& ours && i.revealed is None ==> after == before.push(0usize)
        }),
        agent_pane::let_out(Seq::empty(), id).len() == 0,
{
    assert(items.push(i).drop_last() =~= items);
}

/// The texts of a message are counted without its calls and its thoughts,
/// and without what is blank.
pub proof fn the_texts_of_a_message_are_counted(blocks: Seq<agent::Block>, n: int)
    requires
        0 <= n < blocks.len(),
    ensures
        agent_pane::texts_before(blocks, 0) == 0,
        blocks[n] is Thinking || blocks[n] is ToolUse ==> agent_pane::texts_before(blocks, n + 1)
            == agent_pane::texts_before(blocks, n),
        blocks[n] matches agent::Block::Text(t) ==> (if text::trimmed(t@).len() == 0 {
            agent_pane::texts_before(blocks, n + 1) == agent_pane::texts_before(blocks, n)
        } else {
            agent_pane::texts_before(blocks, n + 1) == agent_pane::texts_before(blocks, n) + 1
        }),
{
}

/// Each text of a finished message goes on from the draft that stood in its
/// place: what was out of it stays out, as far as the text goes; one without
/// a draft starts from nothing.
pub proof fn each_text_goes_on_from_its_own_draft(
    blocks: Seq<agent::Block>,
    id: Seq<char>,
    out: Seq<usize>,
    n: int,
    t: String,
)
    requires
        0 <= n < blocks.len(),
        blocks[n] == agent::Block::Text(t),
        text::trimmed(t@).len() > 0,
        t@.len() <= usize::MAX,
    ensures
        ({
            let k = agent_pane::texts_before(blocks, n) as int;
            let shown = agent_pane::finished(blocks, id, out, n + 1).last();
            &&& shown.kind == KindState::Text(t@)
            &&& shown.revealed is Some
            &&& k >= out.len() ==> shown.revealed.unwrap() == 0
            &&& k < out.len() && out[k] <= t@.len() ==> shown.revealed.unwrap() == out[k]
            &&& k < out.len() && out[k] > t@.len() ==> shown.revealed.unwrap() == t@.len()
        }),
{
}

/// A block that is blank leaves no entry.
pub proof fn a_blank_block_leaves_no_entry(blocks: Seq<agent::Block>, id: Seq<char>, out: Seq<usize>, n: int, t: String)
    requires
        0 <= n < blocks.len(),
        blocks[n] == agent::Block::Text(t),
        text::trimmed(t@).len() == 0,
    ensures
        agent_pane::finished(blocks, id, out, n + 1) == agent_pane::finished(blocks, id, out, n),
{
}

/// A tool that nothing is known of is asked about as a tool.
pub proof fn an_unknown_tool_is_asked_about_as_one(ask: agent::Permission, cwd: PathState)
    requires
        ask.tool_name@ != "Bash"@ && ask.tool_name@ != "Edit"@ && ask.tool_name@ != "MultiEdit"@,
        ask.tool_name@ != "NotebookEdit"@ && ask.tool_name@ != "Write"@,
        ask.tool_name@ != "WebFetch"@ && ask.tool_name@ != "WebSearch"@,
    ensures
        agent_pane::question(ask, cwd) == ("Use a tool?"@, None::<Seq<char>>),
{
}

/// The pane's own commands are offered with what they do.
pub proof fn own_commands_are_three()
    ensures
        agent_pane::local_list().len() == 3,
        agent_pane::local_list()[0].name == "mode"@,
        agent_pane::local_list()[1].name == "model"@,
        agent_pane::local_list()[2].name == "stop"@,
        agent_pane::local_list()[0].description
            == "permission mode for this session: default, acceptEdits, plan, bypassPermissions"@,
        agent_pane::local_list()[1].description == "the model for the turns from here on"@,
        agent_pane::local_list()[2].description == "stop the turn in flight"@,
{
}

/// A command of the pane's own that lacks its argument says how it is used,
/// and one that needs the process says that nobody runs.
pub proof fn a_command_without_its_argument_says_how(m: AgentState, rest: Seq<char>)
    requires
        text::words(rest).len() > 0,
    ensures
        ({
            let w = text::words(rest);
            let told = |t: Seq<char>| agent_pane::commanded(m, rest) == Some(
                (
                    AgentState { items: m.items.push(agent_pane::plain_item(KindState::Error(t))), ..m },
                    StepState::Done,
                ),
            );
            &&& w.len() == 1 && w[0] == "mode"@ ==> told(
                "/"@ + "mode"@ + " \u{2014} "@
                    + "permission mode for this session: default, acceptEdits, plan, bypassPermissions"@,
            )
            &&& w.len() == 1 && w[0] == "model"@ ==> told(
                "/"@ + "model"@ + " \u{2014} "@ + "the model for the turns from here on"@,
            )
            &&& w.len() > 1 && w[0] == "stop"@ ==> told("/"@ + "stop"@ + " \u{2014} "@ + "stop the turn in flight"@)
            &&& w.len() > 1 && !m.running && (w[0] == "mode"@ || w[0] == "model"@) ==> told(
                m.name + " is not running \u{2014} send a message first"@,
            )
            &&& w.len() == 1 && w[0] == "stop"@ ==> agent_pane::commanded(m, rest) == Some(agent_pane::cancelled(m))
        }),
{
    reveal_strlit("mode");
    reveal_strlit("model");
    reveal_strlit("stop");
    assert("mode"@.len() != "model"@.len());
    assert("mode"@[0] == 'm' && "stop"@[0] == 's');
    assert("model"@.len() != "stop"@.len());
}

/// Nothing that still waited is left behind when the process is gone: its
/// marks go from the transcript, and that is said.
pub proof fn what_waited_is_dropped_with_the_process(m: AgentState, i: int)
    requires
        m.queue.len() > 0,
    ensures
        ({
            let after = agent_pane::turn_ended(m, true);
            &&& after.queue.len() == 0 && after.asks.len() == 0 && after.pick == 0
            &&& after.items.last().kind == KindState::Note("queued messages dropped"@)
            &&& 0 <= i < after.items.len() ==> !(after.items[i].kind is Queued)
        }),
{
    lemma_without_queued(agent_pane::undrafted(m.items));
}

proof fn lemma_without_queued(items: Seq<ItemState>)
    ensures
        forall|i: int|
            0 <= i < agent_pane::without_queued(items).len() ==> !((#[trigger] agent_pane::without_queued(
                items,
            )[i]).kind is Queued),
    decreases items.len(),
{
    if items.len() > 0 {
        lemma_without_queued(items.drop_last());
        let rest = agent_pane::without_queued(items.drop_last());
        let all = agent_pane::without_queued(items);
        assert forall|i: int| 0 <= i < all.len() implies !((#[trigger] all[i]).kind is Queued) by {
            if i < rest.len() {
                assert(all[i] == rest[i]);
            }
        }
    }
}

} // verus!
