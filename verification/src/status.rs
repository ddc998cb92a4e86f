//! The bar at the bottom and the buttons at the top: what they say and how
//! they light up.
use vstd::prelude::*;
use vstd::string::*;
use crate::text;
use crate::text::{copy_text, decimal_text, join_texts, joined, joined3, pad};

verus! {

/// The time of day as it reads on a twelve-hour clock: noon and midnight are
/// twelve.
pub open spec fn twelve(hour: nat) -> nat {
    if hour == 0 || hour == 12 {
        12
    } else if hour < 12 {
        hour
    } else {
        (hour - 12) as nat
    }
}

pub open spec fn clock_text(hour: nat, minute: nat, twenty_four: bool) -> Seq<char> {
    if twenty_four {
        text::padded(text::decimal(hour), '0', 2) + ":"@ + text::padded(text::decimal(minute), '0', 2)
    } else {
        text::decimal(twelve(hour)) + ":"@ + text::padded(text::decimal(minute), '0', 2) + (if hour < 12 {
            " am"@
        } else {
            " pm"@
        })
    }
}

/// The local time, in the notation that was chosen.
pub fn clock(hour: u16, minute: u16, twenty_four: bool) -> (r: String)
    ensures
        r@ == clock_text(hour as nat, minute as nat, twenty_four),
{
    let m: String = decimal_text(minute as u64);
    let mm: String = pad(m.as_str(), '0', 2);
    if twenty_four {
        let h: String = decimal_text(hour as u64);
        let hh: String = pad(h.as_str(), '0', 2);
        return joined3(hh.as_str(), ":", mm.as_str());
    }
    let twelve: u16 = if hour == 0 || hour == 12 {
        12
    } else if hour < 12 {
        hour
    } else {
        hour - 12
    };
    let h: String = decimal_text(twelve as u64);
    let at: String = joined3(h.as_str(), ":", mm.as_str());
    joined(at.as_str(), if hour < 12 { " am" } else { " pm" })
}

/// Which segments of the bar are switched on.
#[derive(Clone, Copy, Debug, PartialEq, Eq, Structural)]
pub struct On {
    pub cursor: bool,
    pub font: bool,
    pub panes: bool,
    pub frame_time: bool,
    pub git: bool,
    pub pomodoro: bool,
    pub clock: bool,
    pub clock_24h: bool,
}

/// Where the caret is, and how much is selected.
#[derive(Clone, Copy, Debug, PartialEq, Eq)]
pub struct Caret {
    pub line: usize,
    pub col: usize,
    pub selected: Option<usize>,
}

/// What the bar reads out.
#[derive(Debug)]
pub struct Readout {
    /// Of the focused editor, when one is focused.
    pub caret: Option<Caret>,
    pub family: String,
    /// The size of the font and the time of a frame, as they are printed.
    pub font_size: String,
    pub frame_ms: String,
    pub panes: usize,
    /// The branch, and how many files changed.
    pub branch: Option<(String, usize)>,
    pub timer: String,
    pub hour: u16,
    pub minute: u16,
}

/// The caret, counted from one.
pub open spec fn caret_text(c: Caret) -> Seq<char> {
    "Ln "@ + text::decimal((c.line + 1) as nat) + ", Col "@ + text::decimal((c.col + 1) as nat) + (match c.selected {
        Some(n) => "  ("@ + text::decimal(n as nat) + " selected)"@,
        None => Seq::empty(),
    })
}

/// The branch, with its symbol where the font has one. A placeholder box in
/// front of the name is worse than no symbol at all: the name already says it
/// is a branch.
pub open spec fn branch_text(branch: Seq<char>, changed: nat, symbol: bool) -> Seq<char> {
    let mark = if symbol { "\u{e0a0} "@ } else { Seq::empty() };
    if changed == 0 { mark + branch } else { mark + branch + " ~"@ + text::decimal(changed) }
}

/// The timer. Its clock is an icon, so it stands or falls with the icons.
pub open spec fn timer_text(label: Seq<char>, icons: bool) -> Seq<char> {
    (if icons { "\u{f017} "@ } else { Seq::empty() }) + label
}

/// One part, when it is there.
pub open spec fn part(on: bool, text: Seq<char>) -> Seq<Seq<char>> {
    if on { seq![text] } else { Seq::empty() }
}

/// The parts of the bar, whatever is switched on.
pub open spec fn parts_of(on: On, r: Readout, symbol: bool, icons: bool) -> Seq<Seq<char>> {
    (match r.caret {
        Some(c) => part(on.cursor, caret_text(c)),
        None => Seq::empty(),
    }) + part(on.font, r.family@ + " "@ + r.font_size@ + "px"@) + part(
        on.panes,
        text::decimal(r.panes as nat) + " panes"@,
    ) + part(on.frame_time, r.frame_ms@ + " ms"@) + (match r.branch {
        Some((b, n)) => part(on.git, branch_text(b@, n as nat, symbol)),
        None => Seq::empty(),
    }) + part(on.pomodoro, timer_text(r.timer@, icons)) + part(
        on.clock,
        clock_text(r.hour as nat, r.minute as nat, on.clock_24h),
    )
}

fn caret(c: Caret) -> (r: String)
    requires
        c.line < usize::MAX,
        c.col < usize::MAX,
    ensures
        r@ == caret_text(c),
{
    let line: String = decimal_text((c.line + 1) as u64);
    let col: String = decimal_text((c.col + 1) as u64);
    let head: String = joined3("Ln ", line.as_str(), ", Col ");
    let at: String = joined(head.as_str(), col.as_str());
    match c.selected {
        Some(n) => {
            let count: String = decimal_text(n as u64);
            let said: String = joined3("  (", count.as_str(), " selected)");
            joined(at.as_str(), said.as_str())
        },
        None => {
            assert(at@ =~= caret_text(c));
            at
        },
    }
}

fn branch(name: &str, changed: usize, symbol: bool) -> (r: String)
    ensures
        r@ == branch_text(name@, changed as nat, symbol),
{
    let marked: String = if symbol { joined("\u{e0a0} ", name) } else { copy_text(name) };
    assert(marked@ =~= (if symbol { "\u{e0a0} "@ } else { Seq::empty() }) + name@);
    if changed == 0 {
        marked
    } else {
        let n: String = decimal_text(changed as u64);
        joined3(marked.as_str(), " ~", n.as_str())
    }
}

fn timer(label: &str, icons: bool) -> (r: String)
    ensures
        r@ == timer_text(label@, icons),
{
    if icons {
        joined("\u{f017} ", label)
    } else {
        let plain: String = copy_text(label);
        assert(plain@ =~= timer_text(label@, icons));
        plain
    }
}

/// Adds a part at the end.
fn add_part(parts: &mut Vec<String>, on: bool, said: String)
    ensures
        text::texts(final(parts)@) == text::texts(old(parts)@) + part(on, said@),
{
    let ghost before = text::texts(parts@);
    if on {
        parts.push(said);
        assert(text::texts(parts@) =~= before + seq![said@]);
    } else {
        assert(before + Seq::<Seq<char>>::empty() =~= before);
    }
}

/// The idle status line. A list of parts rather than one pattern, so that
/// turning a segment off cannot leave a stray separator behind.
pub fn status_line(on: On, r: &Readout, symbol: bool, icons: bool) -> (s: String)
    requires
        r.caret is Some ==> r.caret->Some_0.line < usize::MAX && r.caret->Some_0.col < usize::MAX,
    ensures
        s@ == text::join(parts_of(on, *r, symbol, icons), "   \u{b7}   "@),
{
    let mut parts: Vec<String> = Vec::new();
    assert(text::texts(parts@) =~= Seq::empty());
    if let Some(c) = r.caret {
        add_part(&mut parts, on.cursor, caret(c));
    }
    assert(text::texts(parts@) =~= (match r.caret {
        Some(c) => part(on.cursor, caret_text(c)),
        None => Seq::empty(),
    }));
    let font: String = joined3(r.family.as_str(), " ", r.font_size.as_str());
    add_part(&mut parts, on.font, joined(font.as_str(), "px"));
    let panes: String = decimal_text(r.panes as u64);
    add_part(&mut parts, on.panes, joined(panes.as_str(), " panes"));
    add_part(&mut parts, on.frame_time, joined(r.frame_ms.as_str(), " ms"));
    let ghost before = text::texts(parts@);
    if let Some(b) = &r.branch {
        add_part(&mut parts, on.git, branch(b.0.as_str(), b.1, symbol));
    }
    assert(text::texts(parts@) =~= before + (match r.branch {
        Some((b, n)) => part(on.git, branch_text(b@, n as nat, symbol)),
        None => Seq::empty(),
    }));
    add_part(&mut parts, on.pomodoro, timer(r.timer.as_str(), icons));
    add_part(&mut parts, on.clock, clock(r.hour, r.minute, on.clock_24h));
    join_texts(&parts, "   \u{b7}   ")
}

/// What the bar is read as.
#[derive(Clone, Copy, Debug, PartialEq, Eq, Structural)]
pub enum Tone {
    Warning,
    Error,
    Idle,
}

/// What the bar says. A refused close outranks a problem with the
/// configuration, which outranks the idle readout: the most recent thing that
/// was done comes first. Anything less, and a typo looks like a setting that
/// had no effect.
pub fn bar(notice: Option<&str>, problem: Option<&str>, idle: String) -> (r: (String, Tone))
    ensures
        match notice {
            Some(n) => r.0@ == n@ && r.1 == Tone::Warning,
            None => match problem {
                Some(p) => r.0@ == "config: "@ + p@ && r.1 == Tone::Error,
                None => r.0@ == idle@ && r.1 == Tone::Idle,
            },
        },
{
    match notice {
        Some(n) => (copy_text(n), Tone::Warning),
        None => match problem {
            Some(p) => (joined("config: ", p), Tone::Error),
            None => (idle, Tone::Idle),
        },
    }
}

/// How a button is lit.
#[derive(Clone, Copy, Debug, PartialEq, Eq, Structural)]
pub enum Ground {
    Bare,
    Hover,
    Press,
    /// The close button's own, so that it is not pressed by mistake.
    Danger,
    DangerPress,
}

/// The buttons of the title bar.
#[derive(Clone, Copy, Debug, PartialEq, Eq, Structural)]
pub enum Button {
    Minimize,
    Maximize,
    Close,
}

/// What a button shows.
#[derive(Clone, Copy, Debug, PartialEq, Eq, Structural)]
pub enum Icon {
    Line,
    Square,
    /// Two squares: the window is maximized and this brings it back.
    Restore,
    Cross,
}

/// A button as drawn.
#[derive(Clone, Copy, Debug, PartialEq, Eq, Structural)]
pub struct ButtonLook {
    pub ground: Ground,
    pub icon: Icon,
    /// Whether the icon is drawn at its brightest.
    pub lit: bool,
}

/// A button of the title bar under the pointer and the mouse button.
pub fn button_look(b: Button, hovered: bool, pressed: bool, maximized: bool) -> (r: ButtonLook)
    ensures
        r.lit == (hovered || pressed),
        r.ground == (if !hovered && !pressed {
            Ground::Bare
        } else if b == Button::Close {
            if pressed { Ground::DangerPress } else { Ground::Danger }
        } else {
            if pressed { Ground::Press } else { Ground::Hover }
        }),
        r.icon == (match b {
            Button::Minimize => Icon::Line,
            Button::Maximize => if maximized { Icon::Restore } else { Icon::Square },
            Button::Close => Icon::Cross,
        }),
{
    let ground: Ground = if !hovered && !pressed {
        Ground::Bare
    } else {
        match b {
            Button::Close => if pressed { Ground::DangerPress } else { Ground::Danger },
            _ => if pressed { Ground::Press } else { Ground::Hover },
        }
    };
    let icon: Icon = match b {
        Button::Minimize => Icon::Line,
        Button::Maximize => if maximized { Icon::Restore } else { Icon::Square },
        Button::Close => Icon::Cross,
    };
    ButtonLook { ground, icon, lit: hovered || pressed }
}

// -------------------------------------------------------------------- laws

/// Turning a segment off leaves no stray separator: with one segment on, the
/// bar is that segment.
pub proof fn a_lone_segment_stands_alone(on: On, r: Readout, symbol: bool, icons: bool)
    requires
        on == (On {
            cursor: false,
            font: false,
            panes: true,
            frame_time: false,
            git: false,
            pomodoro: false,
            clock: false,
            clock_24h: on.clock_24h,
        }),
    ensures
        text::join(parts_of(on, r, symbol, icons), "   \u{b7}   "@) == text::decimal(r.panes as nat)
            + " panes"@,
{
    assert(parts_of(on, r, symbol, icons) =~= seq![text::decimal(r.panes as nat) + " panes"@]);
}

/// With everything off the bar says nothing.
pub proof fn an_empty_bar_is_empty(on: On, r: Readout, symbol: bool, icons: bool)
    requires
        !on.cursor && !on.font && !on.panes && !on.frame_time && !on.git && !on.pomodoro && !on.clock,
    ensures
        text::join(parts_of(on, r, symbol, icons), "   \u{b7}   "@).len() == 0,
{
    assert(parts_of(on, r, symbol, icons) =~= Seq::empty());
}

/// No hour of the day reads as zero or as thirteen on a twelve-hour clock.
pub proof fn a_twelve_hour_clock_has_twelve_hours(hour: nat)
    requires
        hour < 24,
    ensures
        1 <= twelve(hour) <= 12,
{
}

/// The clock reads the hour and the minute: of the day, or of its half with
/// the half behind it. Midnight and noon are both twelve.
pub proof fn the_clock_reads_the_time(hour: nat, minute: nat)
    requires
        hour < 24,
        minute < 60,
    ensures
        ({
            let digits = |n: nat| if n < 10 { "0"@ + text::decimal(n) } else { text::decimal(n) };
            let half = clock_text(hour, minute, false);
            &&& clock_text(hour, minute, true) == digits(hour) + ":"@ + digits(minute)
            &&& hour == 0 ==> half == text::decimal(12) + ":"@ + digits(minute) + " am"@
            &&& 0 < hour < 12 ==> half == text::decimal(hour) + ":"@ + digits(minute) + " am"@
            &&& hour == 12 ==> half == text::decimal(12) + ":"@ + digits(minute) + " pm"@
            &&& hour > 12 ==> half == text::decimal((hour - 12) as nat) + ":"@ + digits(minute) + " pm"@
        }),
{
    reveal_strlit("0");
    assert("0"@ =~= seq!['0']);
    text::lemma_two_digits(hour);
    text::lemma_two_digits(minute);
}

/// The place of the caret is counted from one, and a selection is told with
/// its length.
pub proof fn the_caret_is_counted_from_one(c: Caret)
    ensures
        c.selected is None ==> caret_text(c) == "Ln "@ + text::decimal((c.line + 1) as nat) + ", Col "@ + text::decimal(
            (c.col + 1) as nat,
        ),
        c.selected matches Some(n) ==> caret_text(c) == "Ln "@ + text::decimal((c.line + 1) as nat) + ", Col "@
            + text::decimal((c.col + 1) as nat) + ("  ("@ + text::decimal(n as nat) + " selected)"@),
{
    let front = "Ln "@ + text::decimal((c.line + 1) as nat) + ", Col "@ + text::decimal((c.col + 1) as nat);
    assert(front + Seq::<char>::empty() =~= front);
}

/// The branch is named, with what changed on it where anything did.
pub proof fn the_branch_is_named(branch: Seq<char>, changed: nat)
    ensures
        branch_text(branch, 0, false) == branch,
        changed > 0 ==> branch_text(branch, changed, false) == branch + " ~"@ + text::decimal(changed),
        branch_text(branch, changed, true) == "\u{e0a0} "@ + branch_text(branch, changed, false),
        timer_text(branch, false) == branch,
        timer_text(branch, true) == "\u{f017} "@ + branch,
{
    assert(Seq::<char>::empty() + branch =~= branch);
    assert(branch_text(branch, changed, true) =~= "\u{e0a0} "@ + branch_text(branch, changed, false));
}

/// Each readout that is on has its place in the bar, once, in the order of
/// the settings; with all of them on the bar has seven.
pub proof fn each_readout_has_its_place(on: On, r: Readout, symbol: bool, icons: bool, c: Caret, b: String, n: usize)
    requires
        on.cursor && on.font && on.panes && on.frame_time && on.git && on.pomodoro && on.clock,
        r.caret == Some(c),
        r.branch == Some((b, n)),
    ensures
        ({
            let p = parts_of(on, r, symbol, icons);
            &&& p.len() == 7
            &&& p[0] == caret_text(c)
            &&& p[1] == r.family@ + " "@ + r.font_size@ + "px"@
            &&& p[2] == text::decimal(r.panes as nat) + " panes"@
            &&& p[3] == r.frame_ms@ + " ms"@
            &&& p[4] == branch_text(b@, n as nat, symbol)
            &&& p[5] == timer_text(r.timer@, icons)
            &&& p[6] == clock_text(r.hour as nat, r.minute as nat, on.clock_24h)
        }),
{
}

/// A part that is on is one part, and one that is off is none.
pub proof fn a_part_is_there_or_not(t: Seq<char>)
    ensures
        part(true, t) == seq![t],
        part(false, t).len() == 0,
{
}

} // verus!
