//! The agent pane: a conversation with a coding agent.
//!
//! A pane rather than an overlay, like the terminal: a live process you
//! glance at while working next to it. The transcript is the agent's stream
//! turned into rows, with a one-line box at the bottom to type the next turn
//! into.
//!
//! The process itself is not here. What the pane wants of it comes out as a
//! [`Step`]; what came of that goes back in through the method named in the
//! step.
use vstd::prelude::*;
use vstd::string::*;
use crate::text;
use crate::text::{chars_of, decimal_text, joined, joined3, pad, same, text_of, trim_chars};
use crate::transcript;
use crate::transcript::clip;

verus! {

/// Fewest characters let out per frame, and the share of the backlog let out
/// on top of that. At sixty frames a second the floor is a brisk typist; the
/// share means a paragraph that lands whole is out in a fraction of a second
/// rather than typed at leisure.
pub const REVEAL_FLOOR: usize = 2;

pub const REVEAL_SHARE: usize = 8;

// ---------------------------------------------------- what the agent sends

/// A tool call's arguments, as far as a row or a question reads them: the
/// members that are strings, and the whole as it is written.
#[derive(Clone, Debug, PartialEq)]
pub struct Input {
    pub fields: Vec<(String, String)>,
    /// An object with at least one member.
    pub filled: bool,
    /// The whole value on one line.
    pub json: String,
}

/// The first member at or after `i` that goes by the name.
pub open spec fn field_from(fields: Seq<(String, String)>, key: Seq<char>, i: int) -> Option<Seq<char>>
    decreases fields.len() - i,
{
    if i < 0 || i >= fields.len() {
        None
    } else if fields[i].0@ == key {
        Some(fields[i].1@)
    } else {
        field_from(fields, key, i + 1)
    }
}

impl Input {
    /// The string member of that name.
    pub fn field(&self, key: &str) -> (r: Option<String>)
        ensures
            transcript::opt_text(r) == field_from(self.fields@, key@, 0),
    {
        let mut i: usize = 0;
        while i < self.fields.len()
            invariant
                i <= self.fields.len(),
                field_from(self.fields@, key@, 0) == field_from(self.fields@, key@, i as int),
            decreases self.fields.len() - i,
        {
            if same(self.fields[i].0.as_str(), key) {
                return Some(self.fields[i].1.clone());
            }
            i = i + 1;
        }
        None
    }
}

/// One block of a message.
#[derive(Clone, Debug, PartialEq)]
pub enum Block {
    Text(String),
    ToolUse { id: String, name: String, input: Input },
    Thinking,
}

/// One of the plan's usage windows: how much of it is spent, written in
/// whole percent, and when it starts over, in Unix seconds.
#[derive(Clone, Debug, PartialEq)]
pub struct Window {
    pub percent: String,
    pub resets_at: u64,
}

/// The subscription's windows, as a turn reported them.
#[derive(Clone, Debug, PartialEq)]
pub struct Limits {
    /// The wall has been hit.
    pub rejected: bool,
    pub five_hour: Option<Window>,
    pub seven_day: Option<Window>,
    pub using_overage: bool,
}

/// What the conversation has cost so far in dollars, written with two and
/// with three decimals.
#[derive(Clone, Debug, PartialEq)]
pub struct Cost {
    pub cents: String,
    pub mills: String,
}

/// A question from the agent: may it use this tool?
#[derive(Clone, Debug, PartialEq)]
pub struct Permission {
    pub request_id: String,
    pub tool_name: String,
    pub input: Input,
    pub description: String,
    /// The rules it proposes to remember, as it wrote them.
    pub suggestions: Vec<String>,
    pub tool_use_id: String,
}

/// What comes out of the agent.
#[derive(Clone, Debug, PartialEq)]
pub enum Event {
    Init { session_id: String, model: String },
    BlockStart { message_id: String, block: Block },
    TextDelta { message_id: String, text: String },
    Assistant { message_id: String, blocks: Vec<Block> },
    ToolResult { tool_use_id: String, is_error: bool, text: String },
    /// The turn is over. `secs` is how long it took, written with one
    /// decimal.
    Result { is_error: bool, cost: Option<Cost>, turns: u64, secs: String, text: Option<String> },
    Permission(Permission),
    Control { error: Option<String> },
    RateLimit(Limits),
    Stderr(String),
    Exited,
}

/// What a question is answered with.
#[derive(Clone, Copy, Debug, PartialEq, Eq, Structural)]
pub enum Decision {
    Allow { remember: bool },
    Deny,
}

/// What the pane wants done to the process next.
#[derive(Clone, Debug, PartialEq)]
pub enum Step {
    /// Nothing.
    Done,
    /// Start it, on the session that was going if there was one; then
    /// [`AgentPane::spawned`].
    Spawn { resume: Option<String>, text: String, shown: bool },
    /// Send a turn; then [`AgentPane::sent`].
    Send { text: String, shown: bool },
    /// Change the permission mode; then [`AgentPane::mode_set`].
    SetMode(String),
    /// Change the model; then [`AgentPane::model_set`].
    SetModel(String),
    /// Ask it to stop; then [`AgentPane::interrupted`].
    Interrupt,
    /// Kill it. Nothing to report.
    Kill,
    /// Answer its question; then [`AgentPane::responded`].
    Respond { ask: Permission, decision: Decision },
}

/// A step as a value.
pub enum StepState {
    Done,
    Spawn { resume: Option<Seq<char>>, text: Seq<char>, shown: bool },
    Send { text: Seq<char>, shown: bool },
    SetMode(Seq<char>),
    SetModel(Seq<char>),
    Interrupt,
    Kill,
    Respond { ask: Permission, decision: Decision },
}

impl View for Step {
    type V = StepState;

    open spec fn view(&self) -> StepState {
        match self {
            Step::Done => StepState::Done,
            Step::Spawn { resume, text, shown } => StepState::Spawn {
                resume: transcript::opt_text(*resume),
                text: text@,
                shown: *shown,
            },
            Step::Send { text, shown } => StepState::Send { text: text@, shown: *shown },
            Step::SetMode(m) => StepState::SetMode(m@),
            Step::SetModel(m) => StepState::SetModel(m@),
            Step::Interrupt => StepState::Interrupt,
            Step::Kill => StepState::Kill,
            Step::Respond { ask, decision } => StepState::Respond { ask: *ask, decision: *decision },
        }
    }
}

/// What a poll found, for the owner to act on.
#[derive(Clone, Copy, Debug, PartialEq, Eq, Structural)]
pub struct Poll {
    /// Something on screen changed.
    pub changed: bool,
    /// A file was written. Editors should look at the disk.
    pub edited: bool,
}

impl Default for Poll {
    fn default() -> (r: Poll)
        ensures
            r == (Poll { changed: false, edited: false }),
    {
        Poll { changed: false, edited: false }
    }
}

/// A slash command on offer while `/` is being typed.
#[derive(Clone, Debug, PartialEq, Eq)]
pub struct Completion {
    pub name: String,
    pub description: String,
}

/// A completion as a value.
pub struct CompletionState {
    pub name: Seq<char>,
    pub description: Seq<char>,
}

impl View for Completion {
    type V = CompletionState;

    open spec fn view(&self) -> CompletionState {
        CompletionState { name: self.name@, description: self.description@ }
    }
}

/// The completions of a list as values.
pub open spec fn completion_list(s: Seq<Completion>) -> Seq<CompletionState> {
    Seq::new(s.len(), |i: int| s[i]@)
}

// ---------------------------------------------------------- the agent's name

/// A small letter as a capital.
pub open spec fn raised(c: char) -> char {
    if 'a' <= c <= 'z' { (c as u32 - 32) as char } else { c }
}

/// A name in capitals.
pub open spec fn capitals(s: Seq<char>) -> Seq<char> {
    Seq::new(s.len(), |i: int| raised(s[i]))
}

/// A name with its first letter a capital.
pub open spec fn capitalized(s: Seq<char>) -> Seq<char> {
    Seq::new(s.len(), |i: int| if i == 0 { raised(s[i]) } else { s[i] })
}

fn raise(c: char) -> (r: char)
    ensures
        r == raised(c),
{
    if 'a' <= c && c <= 'z' { (c as u32 - 32) as u8 as char } else { c }
}

/// A name in capitals.
pub fn in_capitals(s: &str) -> (r: String)
    ensures
        r@ == capitals(s@),
{
    let v: Vec<char> = chars_of(s);
    let mut out: Vec<char> = Vec::new();
    let mut i: usize = 0;
    while i < v.len()
        invariant
            i <= v.len(),
            v@ == s@,
            out.len() == i,
            forall|k: int| 0 <= k < i ==> out@[k] == raised(s@[k]),
        decreases v.len() - i,
    {
        out.push(raise(v[i]));
        i = i + 1;
    }
    assert(out@ =~= capitals(s@));
    text_of(&out)
}

/// A name with its first letter a capital.
pub fn with_capital(s: &str) -> (r: String)
    ensures
        r@ == capitalized(s@),
{
    let mut v: Vec<char> = chars_of(s);
    if v.len() > 0 {
        let first: char = raise(v[0]);
        v.set(0, first);
    }
    assert(v@ =~= capitalized(s@));
    text_of(&v)
}

// ------------------------------------------------------------- small words

/// "2h13m", "48m", "under a minute": how long until `at`.
pub open spec fn time_until(at: nat, now: nat) -> Seq<char> {
    let secs = if at <= now { 0 } else { (at - now) as nat };
    let h = secs / 3600;
    let m = (secs % 3600) / 60;
    if h == 0 && m == 0 {
        "under a minute"@
    } else if h == 0 {
        text::decimal(m) + "m"@
    } else {
        text::decimal(h) + "h"@ + text::padded(text::decimal(m), '0', 2) + "m"@
    }
}

pub fn in_time(at: u64, now: u64) -> (r: String)
    ensures
        r@ == time_until(at as nat, now as nat),
{
    let secs: u64 = if at <= now { 0 } else { at - now };
    let h: u64 = secs / 3600;
    let m: u64 = (secs % 3600) / 60;
    if h == 0 && m == 0 {
        "under a minute".to_owned()
    } else if h == 0 {
        let t: String = decimal_text(m);
        joined(t.as_str(), "m")
    } else {
        let hours: String = decimal_text(h);
        let minutes: String = decimal_text(m);
        let two: String = pad(minutes.as_str(), '0', 2);
        let front: String = joined3(hours.as_str(), "h", two.as_str());
        joined(front.as_str(), "m")
    }
}

/// Tools that change the working tree, whose success means open editors may
/// be stale.
pub open spec fn is_writer(name: Seq<char>) -> bool {
    name == "Edit"@ || name == "Write"@ || name == "MultiEdit"@ || name == "NotebookEdit"@
}

pub fn writes_files(name: &str) -> (r: bool)
    ensures
        r == is_writer(name@),
{
    same(name, "Edit") || same(name, "Write") || same(name, "MultiEdit") || same(name, "NotebookEdit")
}

/// The argument of a tool call that a person would want to see.
pub open spec fn telling_field(name: Seq<char>) -> Option<Seq<char>> {
    if name == "Read"@ || is_writer(name) {
        Some("file_path"@)
    } else if name == "Bash"@ {
        Some("command"@)
    } else if name == "Grep"@ || name == "Glob"@ {
        Some("pattern"@)
    } else if name == "WebFetch"@ {
        Some("url"@)
    } else if name == "WebSearch"@ {
        Some("query"@)
    } else if name == "Task"@ || name == "Agent"@ {
        Some("description"@)
    } else {
        None
    }
}

/// That argument, or all of them where there is no such one.
pub open spec fn telling_argument(name: Seq<char>, input: Input) -> Seq<char> {
    let arg = match telling_field(name) {
        Some(key) => field_from(input.fields@, key, 0),
        None => None,
    };
    match arg {
        Some(a) => a,
        None => if input.filled { input.json@ } else { Seq::empty() },
    }
}

/// One line for a tool call.
pub open spec fn summary_of(name: Seq<char>, input: Input) -> Seq<char> {
    let arg = text::trimmed(text::first_line(telling_argument(name, input)));
    if arg.len() == 0 {
        name
    } else {
        transcript::clipped(name + "  "@ + arg)
    }
}

pub fn summarize(name: &str, input: &Input) -> (r: String)
    ensures
        r@ == summary_of(name@, *input),
{
    let found: Option<String> = if same(name, "Read") || writes_files(name) {
        input.field("file_path")
    } else if same(name, "Bash") {
        input.field("command")
    } else if same(name, "Grep") || same(name, "Glob") {
        input.field("pattern")
    } else if same(name, "WebFetch") {
        input.field("url")
    } else if same(name, "WebSearch") {
        input.field("query")
    } else if same(name, "Task") || same(name, "Agent") {
        input.field("description")
    } else {
        None
    };
    let arg: String = match found {
        Some(a) => a,
        None => if input.filled {
            input.json.clone()
        } else {
            let none: String = String::new();
            assert(none@ =~= Seq::<char>::empty());
            none
        },
    };
    // First line only: a multi-line command is a script, and the row is a
    // label.
    let chars: Vec<char> = chars_of(arg.as_str());
    let line: Vec<char> = text::first_line_of(&chars);
    let short: Vec<char> = trim_chars(&line);
    if short.len() == 0 {
        name.to_owned()
    } else {
        let tail: String = text_of(&short);
        let whole: String = joined3(name, "  ", tail.as_str());
        clip(whole.as_str())
    }
}

} // verus!
