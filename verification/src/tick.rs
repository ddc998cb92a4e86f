//! What is due on a tick, and whether a frame is owed.
//!
//! Elapsed time, not a tick count: a background window's timer is throttled
//! hard, and counting ticks turns "every two seconds" into "every few
//! minutes". A frame is drawn only when what it would show differs from what
//! is on screen, so that doing nothing costs nothing. Times are nanoseconds
//! of one clock.
use vstd::prelude::*;

verus! {

/// How often the layout is written: often enough that a crash loses little.
pub const SESSION_INTERVAL: u128 = 30_000_000_000;

/// How often git status is read again.
pub const GIT_INTERVAL: u128 = 2_000_000_000;

/// How long a caret holds still after a keystroke.
pub const HOLD: u128 = 500_000_000;

/// How many milliseconds each phase of its blinking lasts.
pub const PHASE: u128 = 530;

/// Time gone by since `then`.
pub open spec fn since(now: u128, then: u128) -> nat {
    if now <= then { 0 } else { (now - then) as nat }
}

fn elapsed(now: u128, then: u128) -> (r: u128)
    ensures
        r == since(now, then),
{
    if now <= then { 0 } else { now - then }
}

/// Solid for a moment after each keystroke, blinking after that.
pub open spec fn caret_shows(now: u128, typed_at: u128) -> bool {
    since(now, typed_at) < HOLD || (since(now, typed_at) / 1_000_000 / PHASE as nat) % 2 == 0
}

/// Whether an overlay's caret is showing this frame.
pub fn caret_on(now: u128, typed_at: u128) -> (r: bool)
    ensures
        r == caret_shows(now, typed_at),
{
    let gone: u128 = elapsed(now, typed_at);
    gone < HOLD || (gone / 1_000_000 / PHASE) % 2 == 0
}

/// A pair of numbers that changes exactly when the clock or the countdown
/// does: minutes for the clock, seconds for the countdown, and zero for
/// either when it is switched off, so that a hidden segment causes no
/// repaint.
#[derive(Clone, Copy, Debug, PartialEq, Eq, Structural)]
pub struct Stamp {
    pub minute: u64,
    pub countdown: u64,
}

pub open spec fn stamp_of(clock: bool, unix_secs: u64, timer: bool, remaining_secs: u64) -> Stamp {
    Stamp {
        minute: if clock { (unix_secs / 60) as u64 } else { 0 },
        countdown: if timer { remaining_secs } else { 0 },
    }
}

pub fn status_stamp(clock: bool, unix_secs: u64, timer: bool, remaining_secs: u64) -> (r: Stamp)
    ensures
        r == stamp_of(clock, unix_secs, timer, remaining_secs),
{
    Stamp {
        minute: if clock { unix_secs / 60 } else { 0 },
        countdown: if timer { remaining_secs } else { 0 },
    }
}

/// What repeats, and what was last on screen.
#[derive(Clone, Copy, Debug, PartialEq, Eq, Structural)]
pub struct Ticker {
    /// When the layout was last written.
    pub session_at: u128,
    /// When git was last asked.
    pub git_at: u128,
    /// Counts up whenever git reports news. Gutters read their marks again
    /// when their own stamp falls behind.
    pub git_gen: u64,
    pub agent_stamp: u64,
    pub status_stamp: Stamp,
    pub blink: bool,
}

/// What is due.
#[derive(Clone, Copy, Debug, PartialEq, Eq, Structural)]
pub enum Due {
    /// The configuration changed: load it again, and nothing else this tick.
    Reload,
    /// Write the layout, and read git and the trees again, where due.
    Work { save: bool, refresh: bool },
}

/// What this tick saw.
#[derive(Clone, Copy, Debug, PartialEq, Eq, Structural)]
pub struct Seen {
    pub terminal_dirty: bool,
    pub git_changed: bool,
    pub tree_changed: bool,
    pub remote_done: bool,
    /// The agent's stream moved.
    pub agent_changed: bool,
    /// How long the busy agents have been at it, summed.
    pub busy_secs: u64,
    pub stamp: Stamp,
    /// The timer moved on to another period.
    pub timer_turned: bool,
    /// Whether a caret that blinks is on screen, and its phase.
    pub caret_shown: bool,
    pub blink: bool,
}

/// Whether this tick owes a frame.
pub open spec fn owes_frame(t: Ticker, s: Seen) -> bool {
    ||| s.terminal_dirty
    ||| s.git_changed
    ||| s.tree_changed
    ||| s.remote_done
    ||| s.agent_changed
    ||| s.busy_secs != t.agent_stamp
    ||| s.timer_turned
    ||| s.stamp != t.status_stamp
    ||| (s.caret_shown && s.blink != t.blink)
}

impl Ticker {
    pub fn new(now: u128) -> (r: Ticker)
        ensures
            r == (Ticker {
                session_at: now,
                git_at: now,
                git_gen: 0,
                agent_stamp: 0,
                status_stamp: Stamp { minute: 0, countdown: 0 },
                blink: true,
            }),
    {
        Ticker {
            session_at: now,
            git_at: now,
            git_gen: 0,
            agent_stamp: 0,
            status_stamp: Stamp { minute: 0, countdown: 0 },
            blink: true,
        }
    }

    /// What is due now.
    pub fn due(&mut self, now: u128, config_changed: bool) -> (r: Due)
        ensures
            ({
                let t = *old(self);
                if config_changed {
                    r == Due::Reload && *final(self) == t
                } else {
                    let save = since(now, t.session_at) >= SESSION_INTERVAL;
                    let refresh = since(now, t.git_at) >= GIT_INTERVAL;
                    &&& r == (Due::Work { save, refresh })
                    &&& *final(self) == (Ticker {
                        session_at: if save { now } else { t.session_at },
                        git_at: if refresh { now } else { t.git_at },
                        ..t
                    })
                }
            }),
    {
        if config_changed {
            return Due::Reload;
        }
        let save: bool = elapsed(now, self.session_at) >= SESSION_INTERVAL;
        if save {
            self.session_at = now;
        }
        let refresh: bool = elapsed(now, self.git_at) >= GIT_INTERVAL;
        if refresh {
            self.git_at = now;
        }
        Due::Work { save, refresh }
    }

    /// Git reported news.
    pub fn git_news(&mut self)
        requires
            old(self).git_gen < u64::MAX,
        ensures
            *final(self) == (Ticker { git_gen: (old(self).git_gen + 1) as u64, ..*old(self) }),
    {
        self.git_gen = self.git_gen + 1;
    }

    /// Git was discovered anew: its clock and the layout's start over, or the
    /// next tick would run a second status at once.
    pub fn moved(&mut self, now: u128)
        ensures
            *final(self) == (Ticker { git_at: now, session_at: now, ..*old(self) }),
    {
        self.git_at = now;
        self.session_at = now;
    }

    /// Whether this tick owes a frame. Treating "enabled" as "changed" would
    /// repaint sixty times a second for a display that moves once.
    pub fn finish(&mut self, s: &Seen) -> (r: bool)
        ensures
            r == owes_frame(*old(self), *s),
            *final(self) == (Ticker {
                agent_stamp: s.busy_secs,
                status_stamp: s.stamp,
                blink: s.blink,
                ..*old(self)
            }),
    {
        let mut redraw: bool = s.terminal_dirty || s.git_changed || s.tree_changed || s.remote_done
            || s.agent_changed || s.timer_turned;
        if s.busy_secs != self.agent_stamp {
            redraw = true;
        }
        if s.stamp != self.status_stamp {
            redraw = true;
        }
        if s.caret_shown && s.blink != self.blink {
            redraw = true;
        }
        self.agent_stamp = s.busy_secs;
        self.status_stamp = s.stamp;
        self.blink = s.blink;
        redraw
    }
}

/// What is left of the tick's answer when nothing at all happened.
pub open spec fn nothing_happened(t: Ticker, s: Seen) -> bool {
    &&& !s.terminal_dirty && !s.git_changed && !s.tree_changed && !s.remote_done && !s.agent_changed
    &&& !s.timer_turned
    &&& s.busy_secs == t.agent_stamp
    &&& s.stamp == t.status_stamp
    &&& !s.caret_shown || s.blink == t.blink
}

/// An idle window never touches the screen: a tick on which nothing happened
/// owes no frame, and the tick after one that drew owes none either.
pub proof fn an_idle_tick_owes_nothing(t: Ticker, s: Seen)
    ensures
        nothing_happened(t, s) ==> !owes_frame(t, s),
        ({
            let after = Ticker { agent_stamp: s.busy_secs, status_stamp: s.stamp, blink: s.blink, ..t };
            let quiet = Seen {
                terminal_dirty: false,
                git_changed: false,
                tree_changed: false,
                remote_done: false,
                agent_changed: false,
                timer_turned: false,
                ..s
            };
            !owes_frame(after, quiet)
        }),
{
}

/// A clock that is switched off causes no repaint, whatever the time.
pub proof fn a_hidden_clock_never_repaints(a: u64, b: u64, timer: bool, left: u64)
    ensures
        stamp_of(false, a, timer, left) == stamp_of(false, b, timer, left),
{
}

/// The caret is solid right after a keystroke.
pub proof fn a_typing_caret_holds_still(now: u128, typed_at: u128)
    requires
        typed_at <= now < typed_at + HOLD,
    ensures
        caret_shows(now, typed_at),
{
}

/// The caret blinks: shown for its phase, hidden for the next, counted from
/// the last key.
pub proof fn the_caret_blinks(typed_at: u128, k: nat, within: nat)
    requires
        within < 530_000_000,
        typed_at + 530_000_000 * k + within <= u128::MAX,
    ensures
        ({
            let now = (typed_at + 530_000_000 * k + within) as u128;
            &&& k % 2 == 0 ==> caret_shows(now, typed_at)
            &&& k % 2 == 1 ==> !caret_shows(now, typed_at)
        }),
{
    let now = (typed_at + 530_000_000 * k + within) as u128;
    let ms = since(now, typed_at) / 1_000_000;
    assert(530 * k <= ms < 530 * k + 530);
    assert(ms / 530 == k) by (nonlinear_arith)
        requires
            530 * k <= ms,
            ms < 530 * k + 530,
    ;
}

/// A frame is owed for anything that changed and for nothing else.
pub proof fn a_change_owes_a_frame(t: Ticker, s: Seen)
    ensures
        s.terminal_dirty || s.git_changed || s.tree_changed || s.remote_done || s.agent_changed || s.timer_turned
            ==> owes_frame(t, s),
        s.busy_secs != t.agent_stamp ==> owes_frame(t, s),
        s.stamp != t.status_stamp ==> owes_frame(t, s),
        s.caret_shown && s.blink != t.blink ==> owes_frame(t, s),
        !owes_frame(t, s) ==> s.busy_secs == t.agent_stamp && s.stamp == t.status_stamp,
{
}

/// A clock that shows changes with the minute, a timer with the second.
pub proof fn the_stamp_changes_with_what_shows(secs: u64, later: u64, left: u64, less: u64)
    ensures
        stamp_of(true, secs, false, left) == stamp_of(true, later, false, less) <==> secs / 60 == later / 60,
        stamp_of(false, secs, true, left) == stamp_of(false, later, true, less) <==> left == less,
{
}

} // verus!
