//! The agent pane, fed events by hand: no process is ever started.
use std::collections::VecDeque;

use kubide::agent::{in_time, summarize, Block, Completion, Cost, Decision, Event, Input, Limits, Permission, Poll, Step,
    Window};
use kubide::agent_pane::AgentPane;
use kubide::path::Path;
use kubide::transcript::{layout, wrap, Item, Kind, Style};

/// The time the tests happen at, for turns that are timed.
const CLOCK: u64 = 0;

fn pane() -> AgentPane {
    AgentPane {
        name: "agent".into(),
        running: false,
        cwd: Path::parse("C:\\proj"),
        items: Vec::new(),
        generation: 0,
        tail_gen: 0,
        skills: vec![Completion { name: "review".into(), description: "Review the diff".into() }],
        pick_cmd: 0,
        turn_started: None,
        input: String::new(),
        busy: true,
        session_id: None,
        model: None,
        cost: None,
        limits: None,
        turns: 0,
        top: 0,
        follow: true,
        rows: Vec::new(),
        final_len: 0,
        laid_for: None,
        tail_laid: None,
        asks: VecDeque::new(),
        pick: 0,
        queue: VecDeque::new(),
        stopping: false,
    }
}

fn no_input() -> Input {
    Input { fields: Vec::new(), filled: false, json: "{}".into() }
}

/// Arguments with one string member.
fn input(key: &str, value: &str) -> Input {
    Input {
        fields: vec![(key.to_string(), value.to_string())],
        filled: true,
        json: format!("{{\"{key}\":\"{value}\"}}"),
    }
}

/// There is no process to start, so a step that wants one is refused.
fn refuse(p: &mut AgentPane, step: Step) {
    match step {
        Step::Spawn { text, shown, .. } => {
            assert_eq!(p.spawned(Err("no such program".into()), text, shown), Step::Done);
        }
        Step::Send { text, shown } => p.sent(Err("closed".into()), text, shown, CLOCK),
        Step::SetMode(mode) => p.mode_set(&mode, Err("closed".into())),
        Step::SetModel(model) => p.model_set(&model, Err("closed".into())),
        Step::Interrupt => {
            assert_eq!(p.interrupted(false), Step::Kill);
        }
        Step::Respond { .. } => p.responded(Ok(())),
        Step::Kill | Step::Done => {}
    }
}

fn feed(p: &mut AgentPane, events: Vec<Event>) -> Poll {
    let mut out = Poll::default();
    for e in events {
        let step = p.apply(e, &mut out, 0);
        refuse(p, step);
    }
    out
}

fn text_start(id: &str) -> Event {
    Event::BlockStart { message_id: id.into(), block: Block::Text(String::new()) }
}

fn delta(id: &str, text: &str) -> Event {
    Event::TextDelta { message_id: id.into(), text: text.into() }
}

fn price(cents: &str, mills: &str) -> Option<Cost> {
    Some(Cost { cents: cents.into(), mills: mills.into() })
}

fn result(is_error: bool, cost: Option<Cost>, turns: u64, secs: &str, text: Option<&str>) -> Event {
    Event::Result { is_error, cost, turns, secs: secs.into(), text: text.map(|t| t.to_string()) }
}

fn shown(p: &mut AgentPane) -> String {
    p.rows(80).last().map(|r| r.text.clone()).unwrap_or_default()
}

fn texts(p: &mut AgentPane, cols: usize) -> Vec<String> {
    p.rows(cols).iter().map(|r| r.text.clone()).collect()
}

#[test]
fn streamed_text_is_let_out_a_few_characters_a_frame() {
    let mut p = pane();
    feed(&mut p, vec![text_start("m"), delta("m", "a burst of text")]);
    assert_eq!(shown(&mut p), "", "nothing is out before the first frame");
    assert!(p.animate());
    let first = shown(&mut p);
    assert!(!first.is_empty() && first.len() < "a burst of text".len(), "{first:?}");

    // The finished message keeps the count rather than jumping to the end.
    feed(
        &mut p,
        vec![Event::Assistant { message_id: "m".into(), blocks: vec![Block::Text("a burst of text".into())] }],
    );
    assert_eq!(shown(&mut p), first);
    let mut frames = 0;
    while p.animate() {
        frames += 1;
        assert!(frames < 100, "must finish letting the text out");
    }
    assert_eq!(shown(&mut p), "a burst of text");
    assert!(p.items[0].revealed.is_none() && !p.items[0].provisional, "settled once it is all out");
}

#[test]
fn streaming_rewraps_only_the_tail() {
    let mut p = pane();
    p.push_item(Kind::User("first".into()));
    p.rows(40);
    let settled = p.laid_for;
    feed(&mut p, vec![text_start("m"), delta("m", "hello")]);
    while p.animate() {}
    assert_eq!(texts(&mut p, 40), vec!["\u{203a} first", "", "hello"]);
    assert_eq!(p.laid_for, settled, "the settled rows were not laid out again");

    feed(&mut p, vec![delta("m", " there")]);
    while p.animate() {}
    assert_eq!(texts(&mut p, 40), vec!["\u{203a} first", "", "hello there"]);
}

#[test]
fn slash_lists_the_panes_commands_and_the_skills() {
    let mut p = pane();
    p.busy = false;
    for c in "/".chars() {
        p.push(c);
    }
    let names: Vec<String> = p.completions().into_iter().map(|c| c.name).collect();
    assert_eq!(names, vec!["mode", "model", "stop", "review"]);

    p.push('m');
    p.push('o');
    assert_eq!(p.completions().len(), 2);
    p.complete_move(1);
    assert!(p.complete());
    assert_eq!(p.input(), "/model ");
    assert!(p.completions().is_empty(), "arguments are not completed");

    // Enter on a partial name completes rather than sending.
    p.input = "/rev".into();
    assert_eq!(p.send(), Step::Done);
    assert_eq!(p.input(), "/review ");
    assert!(p.queue.is_empty());
}

/// What is typed after the slash is matched without regard to case.
#[test]
fn a_command_is_found_whatever_its_case() {
    let mut p = pane();
    for c in "/MOD".chars() {
        p.push(c);
    }
    let names: Vec<String> = p.completions().into_iter().map(|c| c.name).collect();
    assert_eq!(names, vec!["mode", "model"]);
}

fn ask(id: &str) -> Permission {
    Permission {
        request_id: id.into(),
        tool_name: "Bash".into(),
        input: input("command", "cargo test"),
        description: "cargo test".into(),
        suggestions: Vec::new(),
        tool_use_id: "t".into(),
    }
}

#[test]
fn questions_are_answered_in_order_with_the_highlighted_answer() {
    let mut p = pane();
    let mut b = ask("b");
    b.suggestions.push("{\"type\":\"addRules\"}".into());
    feed(&mut p, vec![Event::Permission(ask("a")), Event::Permission(b)]);
    assert!(p.needs_answer());
    assert_eq!(p.answers(), vec!["Allow", "Deny"], "no rule offered, no always");
    assert_eq!(p.ask_text(80).map(|(t, _)| t), Some("Agent \u{b7} Run a command?".into()));

    p.ask_move(5);
    assert_eq!(p.pick(), 1, "clamped to the last answer");
    p.ask_answer();
    assert_eq!(p.items.last().map(|i| &i.kind), Some(&Kind::Note("denied".into())));

    assert_eq!(p.answers().len(), 3, "a rule was offered for the second");
    assert_eq!(p.pick(), 0, "the highlight starts over per question");
    p.ask_move(1);
    p.ask_answer();
    assert_eq!(p.items.last().map(|i| &i.kind), Some(&Kind::Note("allowed \u{b7} rule saved".into())));
    assert!(!p.needs_answer());
}

/// With a process up, the answer that was picked is the one that goes out.
#[test]
fn the_picked_answer_goes_out() {
    let mut p = pane();
    p.running = true;
    feed(&mut p, vec![Event::Permission(ask("a"))]);
    match p.ask_answer() {
        Step::Respond { ask, decision } => {
            assert_eq!(ask.request_id, "a");
            assert_eq!(decision, Decision::Allow { remember: false });
        }
        other => panic!("expected an answer, got {other:?}"),
    }
    assert_eq!(p.items.last().map(|i| &i.kind), Some(&Kind::Note("allowed".into())));
}

#[test]
fn the_question_line_names_the_argument_and_cuts_a_script() {
    let mut p = pane();
    let mut a = ask("a");
    a.input = input("command", "cargo test --all\ncargo clippy");
    feed(&mut p, vec![Event::Permission(a)]);
    assert_eq!(p.ask_text(80).map(|(_, l)| l), Some("cargo test --all\u{2026}".into()));
    assert_eq!(p.ask_text(10).map(|(_, l)| l), Some("cargo tes\u{2026}".into()));
    p.ask_deny();

    let mut e = ask("e");
    e.tool_name = "Edit".into();
    let file = p.cwd.child("src").child("main.rs").text();
    e.input = input("file_path", &file);
    feed(&mut p, vec![Event::Permission(e)]);
    assert_eq!(p.ask_text(80), Some(("Agent \u{b7} Change a file?".into(), "src/main.rs".into())));
}

#[test]
fn a_message_typed_mid_turn_waits_and_then_goes_out() {
    let mut p = pane();
    p.input = "next thing".into();
    assert_eq!(p.send(), Step::Done);
    assert!(p.input.is_empty());
    assert_eq!(p.queue.len(), 1);
    assert!(matches!(p.items.last().map(|i| &i.kind), Some(Kind::Queued(_))));

    // The turn ends; with no process to send to, the queued row is
    // still the one that would have gone out — no copy of it.
    feed(&mut p, vec![result(false, None, 1, "0.0", None)]);
    assert!(p.queue.is_empty());
    assert_eq!(p.items.iter().filter(|i| matches!(i.kind, Kind::Queued(_) | Kind::User(_))).count(), 1);
}

/// With a process up, the waiting message goes out as it was typed, and its
/// row becomes an ordinary one.
#[test]
fn a_waiting_message_is_sent_when_the_turn_ends() {
    let mut p = pane();
    p.running = true;
    p.input = "next thing".into();
    p.send();
    let mut out = Poll::default();
    let step = p.apply(result(false, None, 1, "0.0", None), &mut out, 0);
    assert_eq!(step, Step::Send { text: "next thing".into(), shown: true });
    p.sent(Ok(()), "next thing".into(), true, CLOCK);
    assert!(p.busy());
    let said: Vec<&Kind> = p.items.iter().map(|i| &i.kind).collect();
    assert!(said.contains(&&Kind::User("next thing".into())));
    assert!(!said.iter().any(|k| matches!(k, Kind::Queued(_))));
}

#[test]
fn a_stop_that_the_cli_confirms_reads_as_stopped_not_failed() {
    let mut p = pane();
    p.stopping = true;
    feed(&mut p, vec![result(true, None, 1, "0.0", Some("error_during_execution"))]);
    assert!(!p.busy() && !p.stopping);
    assert_eq!(p.items.last().map(|i| &i.kind), Some(&Kind::Note("stopped".into())));
}

#[test]
fn the_panes_own_commands_do_not_reach_the_cli() {
    let mut p = pane();
    p.busy = false;
    p.input = "/mode plan".into();
    let step = p.send();
    refuse(&mut p, step);
    // No process: the command is reported as unsendable rather than
    // queued or typed into the transcript as a turn.
    assert!(matches!(p.items.last().map(|i| &i.kind), Some(Kind::Error(_))));
    assert!(!p.items.iter().any(|i| matches!(i.kind, Kind::User(_) | Kind::Queued(_))));

    p.busy = true;
    p.input = "/compact".into();
    p.send();
    assert_eq!(p.queue.front().map(String::as_str), Some("/compact"), "the CLI's commands pass through");
}

#[test]
fn streamed_text_becomes_one_entry_that_the_finished_message_replaces() {
    let mut p = pane();
    feed(&mut p, vec![text_start("m1"), delta("m1", "Hel"), delta("m1", "lo")]);
    assert_eq!(p.items.len(), 1);
    assert_eq!(p.items[0].kind, Kind::Text("Hello".into()));
    assert!(p.items[0].provisional);
    while p.animate() {}

    feed(
        &mut p,
        vec![Event::Assistant { message_id: "m1".into(), blocks: vec![Block::Text("Hello".into())] }],
    );
    assert_eq!(p.items.len(), 1, "the draft is replaced, not duplicated");
    assert!(!p.items[0].provisional);
}

#[test]
fn a_tool_call_gets_its_arguments_and_then_its_result() {
    let mut p = pane();
    let out = feed(
        &mut p,
        vec![
            Event::BlockStart {
                message_id: "m1".into(),
                block: Block::ToolUse { id: "t1".into(), name: "Edit".into(), input: no_input() },
            },
            Event::Assistant {
                message_id: "m1".into(),
                blocks: vec![Block::ToolUse {
                    id: "t1".into(),
                    name: "Edit".into(),
                    input: input("file_path", "C:\\proj\\src\\main.rs"),
                }],
            },
            Event::ToolResult {
                tool_use_id: "t1".into(),
                is_error: false,
                text: "The file has been updated.\nmore".into(),
            },
        ],
    );
    assert_eq!(p.items.len(), 1);
    match &p.items[0].kind {
        Kind::Tool { summary, result, .. } => {
            assert_eq!(summary, "Edit  C:\\proj\\src\\main.rs");
            assert_eq!(result, &Some((false, "The file has been updated.".to_string())));
        }
        other => panic!("expected a tool row, got {other:?}"),
    }
    assert!(out.edited, "a successful Edit means open files may be stale");
}

#[test]
fn a_failed_edit_and_a_read_do_not_count_as_edits() {
    let mut p = pane();
    let out = feed(
        &mut p,
        vec![
            Event::Assistant {
                message_id: "m1".into(),
                blocks: vec![
                    Block::ToolUse { id: "t1".into(), name: "Read".into(), input: input("file_path", "x") },
                    Block::ToolUse { id: "t2".into(), name: "Write".into(), input: input("file_path", "y") },
                ],
            },
            Event::ToolResult { tool_use_id: "t1".into(), is_error: false, text: "1: fn".into() },
            Event::ToolResult { tool_use_id: "t2".into(), is_error: true, text: "denied".into() },
        ],
    );
    assert!(!out.edited);
}

#[test]
fn the_result_ends_the_turn_and_keeps_the_running_cost() {
    let mut p = pane();
    feed(&mut p, vec![result(false, price("0.02", "0.020"), 2, "3.4", Some("done"))]);
    assert!(!p.busy());
    assert_eq!(p.cost, price("0.02", "0.020"));
    assert_eq!(p.turns, 2);
    assert_eq!(p.items.last().map(|i| &i.kind), Some(&Kind::Note("3.4s".into())));
}

#[test]
fn a_subscription_sees_its_windows_and_never_a_price() {
    let mut p = pane();
    feed(
        &mut p,
        vec![
            Event::RateLimit(Limits {
                rejected: false,
                five_hour: Some(Window { percent: "64".into(), resets_at: 10_000 }),
                seven_day: Some(Window { percent: "10".into(), resets_at: 20_000 }),
                using_overage: false,
            }),
            result(false, price("0.27", "0.270"), 1, "0.0", None),
        ],
    );
    let hint = p.hint_at(2_020, CLOCK);
    assert_eq!(hint, "5h 64% \u{b7} 7d 10% \u{b7} resets in 2h13m \u{b7} 1 turn \u{b7} Enter sends");
    assert!(!hint.contains('$'), "{hint}");
}

#[test]
fn an_api_key_sees_the_price_it_pays() {
    let mut p = pane();
    feed(&mut p, vec![result(false, price("0.27", "0.270"), 1, "0.0", None)]);
    assert!(p.hint_at(0, CLOCK).starts_with("$0.270"));
}

#[test]
fn hitting_the_wall_is_said_once() {
    let mut p = pane();
    let hit = Limits {
        rejected: true,
        five_hour: Some(Window { percent: "100".into(), resets_at: 3_600 }),
        seven_day: None,
        using_overage: false,
    };
    feed(&mut p, vec![Event::RateLimit(hit.clone()), Event::RateLimit(hit)]);
    let errors = p.items.iter().filter(|i| matches!(i.kind, Kind::Error(_))).count();
    assert_eq!(errors, 1);
    assert_eq!(
        p.items.last().map(|i| &i.kind),
        Some(&Kind::Error("usage limit reached \u{b7} resets in 1h00m".into()))
    );
}

#[test]
fn time_until_reads_like_a_person_says_it() {
    assert_eq!(in_time(100, 90), "under a minute");
    assert_eq!(in_time(60 * 48, 0), "48m");
    assert_eq!(in_time(3600 * 2 + 60 * 5, 0), "2h05m");
    assert_eq!(in_time(5, 10), "under a minute");
}

#[test]
fn an_exit_mid_turn_is_said_out_loud() {
    let mut p = pane();
    feed(&mut p, vec![Event::Exited]);
    assert!(!p.busy());
    assert!(matches!(p.items.last().map(|i| &i.kind), Some(Kind::Error(_))));
}

#[test]
fn wrapping_breaks_at_spaces_and_splits_long_words() {
    assert_eq!(wrap("the quick brown fox", 9), vec!["the quick", "brown fox"]);
    assert_eq!(wrap("abcdefghij", 4), vec!["abcd", "efgh", "ij"]);
    assert_eq!(wrap("a\n\nb", 10), vec!["a", "", "b"]);
    assert_eq!(wrap("fits", 4), vec!["fits"]);
}

#[test]
fn rows_indent_continuations_under_their_prefix() {
    let items = vec![Item {
        kind: Kind::User("one two three four".into()),
        message_id: None,
        provisional: false,
        revealed: None,
    }];
    let rows = layout(&items, 12, false);
    assert_eq!(rows[0].text, "\u{203a} one two");
    assert_eq!(rows[1].text, "  three four");
    assert!(rows.iter().all(|r| r.style == Style::User));
}

#[test]
fn following_the_bottom_stops_when_the_user_scrolls_up() {
    let mut p = pane();
    for i in 0..30 {
        p.push_item(Kind::Note(format!("{i}")));
    }
    p.rows(40);
    p.ensure_visible(10);
    let bottom = p.top;
    assert!(bottom > 0);

    p.scroll(3, 10);
    assert!(!p.follow);
    p.push_item(Kind::Note("new".into()));
    p.rows(40);
    p.ensure_visible(10);
    assert_eq!(p.top, bottom - 3, "new rows must not yank the view back down");

    p.scroll(-100, 10);
    assert!(p.follow, "scrolling to the end resumes following");
}

#[test]
fn the_summary_names_the_argument_a_person_wants() {
    assert_eq!(summarize("Bash", &input("command", "cargo test\n--all")), "Bash  cargo test");
    assert_eq!(summarize("Grep", &input("pattern", "fn main")), "Grep  fn main");
    assert_eq!(summarize("Read", &no_input()), "Read");
    let odd = Input { fields: Vec::new(), filled: true, json: "{\"k\":1}".into() };
    assert_eq!(summarize("Odd", &odd), "Odd  {\"k\":1}");
}

/// A long summary is cut with an ellipsis rather than wrapped over the rows.
#[test]
fn a_long_summary_is_cut() {
    let long = "x".repeat(200);
    let said = summarize("Bash", &input("command", &long));
    assert_eq!(said.chars().count(), 120);
    assert!(said.ends_with('\u{2026}'));
}

/// Laying the settled entries and the rest out apart gives the rows of laying
/// them out together.
#[test]
fn two_pieces_lay_out_like_one() {
    let item = |t: &str| Item { kind: Kind::Text(t.into()), message_id: None, provisional: false, revealed: None };
    let all = vec![item("one"), item("two three"), item("four")];
    let whole = layout(&all, 6, false);
    let mut parts = layout(&all[..1], 6, false);
    parts.extend(layout(&all[1..], 6, true));
    assert_eq!(whole, parts);
}

/// Stopping a busy pane asks the process first, and kills it when it cannot
/// be asked.
#[test]
fn a_stop_asks_first() {
    let mut p = pane();
    p.running = true;
    assert_eq!(p.cancel(), Step::Interrupt);
    assert_eq!(p.interrupted(true), Step::Done);
    assert!(p.stopping && p.running());
    assert_eq!(p.cancel(), Step::Kill);
    assert!(!p.running() && !p.busy());
}

/// A changed mode is said, a refused one is an error.
#[test]
fn a_mode_is_said_when_it_is_taken() {
    let mut p = pane();
    p.running = true;
    p.busy = false;
    p.input = "/mode plan".into();
    assert_eq!(p.send(), Step::SetMode("plan".into()));
    p.mode_set("plan", Ok(()));
    assert!(matches!(p.items.last().map(|i| &i.kind), Some(Kind::Note(_))));
    p.model_set("fast", Err("closed".into()));
    assert_eq!(p.items.last().map(|i| &i.kind), Some(&Kind::Error("closed".into())));
}

/// Pasting a script into the box makes one line of it.
#[test]
fn a_pasted_script_is_one_line() {
    let mut p = pane();
    p.paste("one\r\ntwo\nthree");
    assert_eq!(p.input(), "one two three");
    p.backspace(true);
    assert_eq!(p.input(), "one two ");
}

/// One of the pane's own commands, given wrongly, says what it is for and
/// stays here.
#[test]
fn a_command_given_wrongly_stays_here() {
    for (typed, said) in [
        (
            "/mode ",
            "/mode \u{2014} permission mode for this session: default, acceptEdits, plan, bypassPermissions",
        ),
        ("/model ", "/model \u{2014} the model for the turns from here on"),
        ("/stop now", "/stop \u{2014} stop the turn in flight"),
    ] {
        for busy in [true, false] {
            let mut p = pane();
            p.busy = busy;
            p.input = typed.into();
            assert_eq!(p.send(), Step::Done);
            assert!(p.queue.is_empty());
            assert!(p.input.is_empty());
            let kinds: Vec<&Kind> = p.items.iter().map(|i| &i.kind).collect();
            assert_eq!(kinds, [&Kind::Error(said.into())]);
        }
    }
    let mut p = pane();
    p.input = "/mode".into();
    p.send();
    assert!(p.queue.is_empty());
    assert!(!p.items.iter().any(|i| matches!(i.kind, Kind::User(_) | Kind::Queued(_))));
}

/// Drafts that a finished message leaves nothing of are gone from the screen.
#[test]
fn drafts_that_come_to_nothing_leave_no_rows() {
    let mut p = pane();
    feed(&mut p, vec![text_start("m"), delta("m", "Hello")]);
    while p.animate() {}
    assert!(!p.rows(40).is_empty());
    feed(&mut p, vec![Event::Assistant { message_id: "m".into(), blocks: Vec::new() }]);
    assert!(p.items.is_empty());
    assert!(p.rows(40).is_empty());
}
