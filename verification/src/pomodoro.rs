//! A work timer.
//!
//! Deliberately not a notification system. It shows a countdown in the status
//! bar and stops when the period ends; it does not pop up, make noise, or
//! take focus.
//!
//! Time is asked for on every read rather than accumulated on a tick, so the
//! countdown stays right even when the window is in the background. It is
//! nanoseconds of a clock that only goes forward.
use vstd::prelude::*;
use vstd::string::*;
use crate::text;
use crate::text::{joined, joined3, pad, wide_text};

verus! {

#[derive(Clone, Copy, Debug, PartialEq, Eq, Structural)]
pub enum Phase {
    Work,
    ShortBreak,
    LongBreak,
}

impl Phase {
    pub open spec fn name(self) -> Seq<char> {
        match self {
            Phase::Work => "work"@,
            Phase::ShortBreak => "break"@,
            Phase::LongBreak => "long break"@,
        }
    }

    pub fn label(self) -> (r: &'static str)
        ensures
            r@ == self.name(),
    {
        match self {
            Phase::Work => "work",
            Phase::ShortBreak => "break",
            Phase::LongBreak => "long break",
        }
    }
}

/// How long the periods are, in minutes, and what follows what.
#[derive(Clone, Copy, Debug, PartialEq, Eq, Structural)]
pub struct Config {
    pub work: u32,
    pub short_break: u32,
    pub long_break: u32,
    /// Work periods before a long break; 0 for never.
    pub rounds: u32,
    /// Start the next period when one ends.
    pub auto_advance: bool,
}

/// Nanoseconds in a minute and in a second.
pub const MINUTE: u128 = 60_000_000_000;

pub const SECOND: u128 = 1_000_000_000;

/// How long a period lasts. Zero minutes is treated as one: a period of no
/// length would be permanently finished.
pub open spec fn period(cfg: Config, phase: Phase) -> nat {
    let minutes = match phase {
        Phase::Work => cfg.work,
        Phase::ShortBreak => cfg.short_break,
        Phase::LongBreak => cfg.long_break,
    };
    (if minutes == 0 { 1nat } else { minutes as nat }) * (MINUTE as nat)
}

#[derive(Clone, Copy, Debug, PartialEq, Eq, Structural)]
pub struct Pomodoro {
    pub phase: Phase,
    /// When it was started; `None` while paused. Either way, what was left
    /// then is in `left`.
    pub started: Option<u128>,
    pub left: u128,
    /// Work periods finished since the last long break.
    pub done: u32,
    pub cfg: Config,
}

/// What is left of a period at `now`.
pub open spec fn left_at(p: Pomodoro, now: u128) -> nat {
    match p.started {
        Some(at) => {
            let gone = if now <= at { 0 } else { now - at };
            if gone >= p.left { 0 } else { (p.left - gone) as nat }
        },
        None => p.left as nat,
    }
}

/// Running, and nothing left.
pub open spec fn is_finished(p: Pomodoro, now: u128) -> bool {
    p.started is Some && left_at(p, now) == 0
}

/// The period after this one. Once `rounds` work periods are finished since
/// the last long break, the next is due.
pub open spec fn next_phase(p: Pomodoro) -> Phase {
    match p.phase {
        Phase::Work => if p.cfg.rounds > 0 && p.done + 1 >= p.cfg.rounds {
            Phase::LongBreak
        } else {
            Phase::ShortBreak
        },
        _ => Phase::Work,
    }
}

/// The timer at the start of the next period.
pub open spec fn advanced(p: Pomodoro, now: u128) -> Pomodoro {
    let phase = next_phase(p);
    Pomodoro {
        phase,
        left: period(p.cfg, phase) as u128,
        done: (if phase == Phase::LongBreak {
            0
        } else if p.phase == Phase::Work {
            p.done + 1
        } else {
            p.done as int
        }) as u32,
        started: if p.cfg.auto_advance { Some(now) } else { None },
        cfg: p.cfg,
    }
}

/// Paused at the very start of a first work period.
pub open spec fn untouched(p: Pomodoro) -> bool {
    p.started is None && p.done == 0 && p.phase == Phase::Work && p.left == period(p.cfg, Phase::Work)
}

/// The timer with a changed config.
pub open spec fn reconfigured(p: Pomodoro, cfg: Config) -> Pomodoro {
    Pomodoro { cfg, left: if untouched(p) { period(cfg, Phase::Work) as u128 } else { p.left }, ..p }
}

/// A finished period rolled over: into the next one when that is wanted,
/// stopped at nothing left otherwise.
pub open spec fn polled(p: Pomodoro, now: u128) -> Pomodoro {
    if !is_finished(p, now) {
        p
    } else if p.cfg.auto_advance {
        advanced(p, now)
    } else {
        Pomodoro { started: None, left: 0, ..p }
    }
}

/// `work 24:13`, or `work 25:00 paused`.
pub open spec fn countdown(p: Pomodoro, now: u128) -> Seq<char> {
    let secs = left_at(p, now) / (SECOND as nat);
    let state = if left_at(p, now) == 0 {
        " done"@
    } else if p.started is Some {
        ""@
    } else {
        " paused"@
    };
    p.phase.name() + " "@ + text::padded(text::decimal(secs / 60), '0', 2) + ":"@ + text::padded(
        text::decimal(secs % 60),
        '0',
        2,
    ) + state
}

impl Pomodoro {
    /// A timer at the start of a work period, paused: opening the editor
    /// should not start a clock on you.
    pub fn new(cfg: Config) -> (r: Pomodoro)
        ensures
            r == (Pomodoro {
                phase: Phase::Work,
                started: None,
                left: period(cfg, Phase::Work) as u128,
                done: 0,
                cfg,
            }),
            r.left == period(cfg, Phase::Work),
    {
        let mut me: Pomodoro = Pomodoro { phase: Phase::Work, started: None, left: 0, done: 0, cfg };
        me.left = me.length(Phase::Work);
        me
    }

    fn length(&self, phase: Phase) -> (r: u128)
        ensures
            r == period(self.cfg, phase),
    {
        let minutes: u32 = match phase {
            Phase::Work => self.cfg.work,
            Phase::ShortBreak => self.cfg.short_break,
            Phase::LongBreak => self.cfg.long_break,
        };
        let n: u128 = if minutes == 0 { 1 } else { minutes as u128 };
        n * MINUTE
    }

    /// Picks up a changed config without resetting a running period: the
    /// countdown jumping under you is worse than it taking effect next time
    /// round. A timer that nobody has started is simply set anew.
    pub fn set_config(&mut self, cfg: Config)
        ensures
            *final(self) == reconfigured(*old(self), cfg),
            untouched(*old(self)) ==> final(self).left == period(cfg, Phase::Work),
    {
        let fresh: bool = self.started.is_none() && self.done == 0 && self.phase == Phase::Work && self.left
            == self.length(Phase::Work);
        self.cfg = cfg;
        if fresh {
            self.left = self.length(Phase::Work);
        }
    }

    pub fn running(&self) -> (r: bool)
        ensures
            r == (self.started is Some),
    {
        self.started.is_some()
    }

    /// Time left, no less than nothing.
    pub fn remaining(&self, now: u128) -> (r: u128)
        ensures
            r == left_at(*self, now),
    {
        match self.started {
            Some(at) => {
                let gone: u128 = if now <= at { 0 } else { now - at };
                if gone >= self.left { 0 } else { self.left - gone }
            },
            None => self.left,
        }
    }

    pub fn finished(&self, now: u128) -> (r: bool)
        ensures
            r == is_finished(*self, now),
    {
        self.running() && self.remaining(now) == 0
    }

    /// Start, or pause and keep what is left.
    pub fn toggle(&mut self, now: u128)
        ensures
            *final(self) == (match old(self).started {
                Some(_) => Pomodoro {
                    started: None,
                    left: left_at(*old(self), now) as u128,
                    ..*old(self)
                },
                None => Pomodoro { started: Some(now), ..*old(self) },
            }),
            left_at(*final(self), now) == left_at(*old(self), now),
    {
        if self.running() {
            self.left = self.remaining(now);
            self.started = None;
        } else {
            self.started = Some(now);
        }
    }

    /// Back to the start of the current period, paused.
    pub fn reset(&mut self)
        ensures
            *final(self) == (Pomodoro {
                started: None,
                left: period(old(self).cfg, old(self).phase) as u128,
                ..*old(self)
            }),
            final(self).left == period(old(self).cfg, old(self).phase),
            old(self).phase == Phase::Work && old(self).cfg.work > 0 ==> final(self).left == old(self).cfg.work
                * 60_000_000_000,
            old(self).phase == Phase::ShortBreak && old(self).cfg.short_break > 0 ==> final(self).left == old(self).cfg.short_break
                * 60_000_000_000,
            old(self).phase == Phase::LongBreak && old(self).cfg.long_break > 0 ==> final(self).left == old(self).cfg.long_break
                * 60_000_000_000,
    {
        self.started = None;
        self.left = self.length(self.phase);
    }

    /// Moves to the next period. Called when one ends, and by the user.
    pub fn advance(&mut self, now: u128)
        requires
            old(self).done < u32::MAX,
        ensures
            *final(self) == advanced(*old(self), now),
            final(self).left == period(old(self).cfg, final(self).phase),
            final(self).phase == Phase::Work && old(self).cfg.work > 0 ==> final(self).left == old(self).cfg.work
                * 60_000_000_000,
            final(self).phase == Phase::ShortBreak && old(self).cfg.short_break > 0 ==> final(self).left == old(self).cfg.short_break
                * 60_000_000_000,
            final(self).phase == Phase::LongBreak && old(self).cfg.long_break > 0 ==> final(self).left == old(self).cfg.long_break
                * 60_000_000_000,
    {
        self.phase = match self.phase {
            Phase::Work => {
                self.done = self.done + 1;
                if self.cfg.rounds > 0 && self.done >= self.cfg.rounds {
                    self.done = 0;
                    Phase::LongBreak
                } else {
                    Phase::ShortBreak
                }
            },
            _ => Phase::Work,
        };
        self.left = self.length(self.phase);
        self.started = if self.cfg.auto_advance { Some(now) } else { None };
    }

    /// Rolls over a finished period. Returns true when something changed, so
    /// the caller only redraws for that.
    pub fn poll(&mut self, now: u128) -> (r: bool)
        requires
            old(self).done < u32::MAX,
        ensures
            r == is_finished(*old(self), now),
            *final(self) == polled(*old(self), now),
    {
        if !self.finished(now) {
            return false;
        }
        if self.cfg.auto_advance {
            self.advance(now);
        } else {
            // Stop and sit there. Silently starting the break while someone
            // is mid-thought is the nagging this is meant to avoid.
            self.started = None;
            self.left = 0;
        }
        true
    }

    pub fn label(&self, now: u128) -> (r: String)
        ensures
            r@ == countdown(*self, now),
    {
        let left: u128 = self.remaining(now);
        let secs: u128 = left / SECOND;
        let state: &str = if left == 0 {
            " done"
        } else if self.running() {
            ""
        } else {
            " paused"
        };
        let m: String = wide_text(secs / 60);
        let s: String = wide_text(secs % 60);
        let mm: String = pad(m.as_str(), '0', 2);
        let ss: String = pad(s.as_str(), '0', 2);
        let front: String = joined3(self.phase.label(), " ", mm.as_str());
        let whole: String = joined3(front.as_str(), ":", ss.as_str());
        joined(whole.as_str(), state)
    }
}

/// A period is never of no length, so a fresh one is not finished.
pub proof fn a_period_has_length(cfg: Config, phase: Phase)
    ensures
        period(cfg, phase) >= MINUTE,
{
}

/// Pausing keeps what is left: however long the pause, starting again goes on
/// from there.
pub proof fn pausing_keeps_what_is_left(p: Pomodoro, paused: u128, resumed: u128)
    requires
        p.started is Some,
    ensures
        ({
            let idle = Pomodoro { started: None, left: left_at(p, paused) as u128, ..p };
            let again = Pomodoro { started: Some(resumed), ..idle };
            &&& left_at(idle, resumed) == left_at(p, paused)
            &&& left_at(again, resumed) == left_at(p, paused)
        }),
{
}

/// A finished period with no automatic advance stays where it is: the same
/// phase, stopped, and polling it again changes nothing.
pub proof fn a_finished_period_waits(p: Pomodoro, now: u128, later: u128)
    requires
        !p.cfg.auto_advance,
        is_finished(p, now),
    ensures
        polled(p, now).phase == p.phase,
        polled(p, now).started is None,
        !is_finished(polled(p, now), later),
        polled(polled(p, now), later) == polled(p, now),
{
}

/// A timer that is not running never finishes, and polling it changes
/// nothing.
pub proof fn an_idle_timer_is_left_alone(p: Pomodoro, now: u128)
    requires
        p.started is None,
    ensures
        polled(p, now) == p,
{
}

/// With no rounds there is never a long break.
pub proof fn no_rounds_no_long_break(p: Pomodoro)
    requires
        p.cfg.rounds == 0,
    ensures
        next_phase(p) != Phase::LongBreak,
{
}

/// The timer after `n` more work periods, each followed by its break.
pub open spec fn after_rounds(p: Pomodoro, n: nat, now: u128) -> Pomodoro
    decreases n,
{
    if n == 0 {
        p
    } else {
        let before = after_rounds(p, (n - 1) as nat, now);
        advanced(advanced(before, now), now)
    }
}

/// From a fresh start, the long break follows the `rounds`th work period, and
/// the work periods before it are followed by short ones.
pub proof fn the_long_break_comes_after_the_rounds(cfg: Config, n: nat, now: u128)
    requires
        n < cfg.rounds,
    ensures
        ({
            let start = Pomodoro {
                phase: Phase::Work,
                started: None,
                left: period(cfg, Phase::Work) as u128,
                done: 0,
                cfg,
            };
            let p = after_rounds(start, n, now);
            &&& p.phase == Phase::Work
            &&& p.done == n
            &&& p.cfg == cfg
            &&& n + 1 == cfg.rounds ==> next_phase(p) == Phase::LongBreak
            &&& n + 1 < cfg.rounds ==> next_phase(p) == Phase::ShortBreak
        }),
    decreases n,
{
    if n > 0 {
        the_long_break_comes_after_the_rounds(cfg, (n - 1) as nat, now);
    }
}

/// A new config never moves the countdown of a period that has begun: what is
/// left stays, running or paused, and so do the phase and the count.
pub proof fn a_begun_period_keeps_its_countdown(p: Pomodoro, cfg: Config, now: u128)
    requires
        !untouched(p),
    ensures
        left_at(reconfigured(p, cfg), now) == left_at(p, now),
        reconfigured(p, cfg).phase == p.phase,
        reconfigured(p, cfg).started == p.started,
        reconfigured(p, cfg).done == p.done,
{
}

/// The count starts over at the long break, and short of it goes up by one
/// with each work period: whatever the rounds were set to before, a long break
/// comes exactly when enough work periods lie behind the last one.
pub proof fn the_count_starts_over_at_the_long_break(p: Pomodoro, now: u128)
    requires
        p.done < u32::MAX,
    ensures
        advanced(p, now).phase == Phase::LongBreak <==> p.phase == Phase::Work && p.cfg.rounds > 0 && p.done + 1
            >= p.cfg.rounds,
        advanced(p, now).phase == Phase::LongBreak ==> advanced(p, now).done == 0,
        advanced(p, now).phase == Phase::ShortBreak ==> advanced(p, now).done == p.done + 1,
        advanced(p, now).phase == Phase::Work ==> advanced(p, now).done == p.done,
{
}

// ------------------------------------------------------ how long periods are

/// Each period is as long as its own setting says, in minutes, whatever the
/// others are set to; one of no minutes lasts one.
pub proof fn each_period_has_its_own_length(cfg: Config)
    ensures
        cfg.work > 0 ==> period(cfg, Phase::Work) == cfg.work * 60_000_000_000,
        cfg.short_break > 0 ==> period(cfg, Phase::ShortBreak) == cfg.short_break * 60_000_000_000,
        cfg.long_break > 0 ==> period(cfg, Phase::LongBreak) == cfg.long_break * 60_000_000_000,
        cfg.work == 0 ==> period(cfg, Phase::Work) == 60_000_000_000,
        cfg.short_break == 0 ==> period(cfg, Phase::ShortBreak) == 60_000_000_000,
        cfg.long_break == 0 ==> period(cfg, Phase::LongBreak) == 60_000_000_000,
{
}

/// Moving on starts the next period at its full length: a break after work, as
/// long as the setting for that break, and work after a break.
pub proof fn moving_on_starts_a_whole_period(p: Pomodoro, now: u128)
    requires
        p.cfg.work > 0,
        p.cfg.short_break > 0,
        p.cfg.long_break > 0,
    ensures
        ({
            let n = advanced(p, now);
            &&& p.phase == Phase::ShortBreak || p.phase == Phase::LongBreak ==> n.phase == Phase::Work
            &&& p.phase == Phase::Work ==> n.phase == Phase::ShortBreak || n.phase == Phase::LongBreak
            &&& n.phase == Phase::Work ==> left_at(n, now) == p.cfg.work * 60_000_000_000
            &&& n.phase == Phase::ShortBreak ==> left_at(n, now) == p.cfg.short_break * 60_000_000_000
            &&& n.phase == Phase::LongBreak ==> left_at(n, now) == p.cfg.long_break * 60_000_000_000
            &&& n.started is Some <==> p.cfg.auto_advance
            &&& n.cfg == p.cfg
        }),
{
}

/// A running timer loses exactly the time that passes, down to nothing, and a
/// paused one loses none.
pub proof fn time_passes_while_running(p: Pomodoro, start: u128, now: u128)
    requires
        start <= now,
    ensures
        p.started == Some(start) && now - start <= p.left ==> left_at(p, now) == p.left - (now - start),
        p.started == Some(start) && now - start >= p.left ==> left_at(p, now) == 0 && is_finished(p, now),
        p.started == Some(start) && now - start < p.left ==> !is_finished(p, now),
        p.started is None ==> left_at(p, now) == p.left,
{
}

/// A period that is over goes on to the next one when that is wanted, and a
/// period that is not over stays.
pub proof fn a_period_that_is_over_moves_on(p: Pomodoro, now: u128)
    ensures
        is_finished(p, now) && p.cfg.auto_advance ==> polled(p, now) == advanced(p, now) && polled(p, now).started
            == Some(now),
        !is_finished(p, now) ==> polled(p, now) == p,
{
}

/// The countdown reads as minutes and seconds, two digits each, behind the
/// name of the period, and says whether it is paused or done.
pub proof fn the_countdown_reads_as_minutes_and_seconds(p: Pomodoro, now: u128, minutes: nat, seconds: nat)
    requires
        left_at(p, now) / 1_000_000_000 == 60 * minutes + seconds,
        seconds < 60,
    ensures
        ({
            let name = match p.phase {
                Phase::Work => "work"@,
                Phase::ShortBreak => "break"@,
                Phase::LongBreak => "long break"@,
            };
            let digits = |n: nat| if n < 10 { "0"@ + text::decimal(n) } else { text::decimal(n) };
            let clock = name + " "@ + digits(minutes) + ":"@ + digits(seconds);
            &&& left_at(p, now) == 0 ==> countdown(p, now) == clock + " done"@
            &&& left_at(p, now) > 0 && p.started is Some ==> countdown(p, now) == clock
            &&& left_at(p, now) > 0 && p.started is None ==> countdown(p, now) == clock + " paused"@
        }),
{
    reveal_strlit("0");
    reveal_strlit("");
    assert("0"@ =~= seq!['0']);
    let secs = left_at(p, now) / (SECOND as nat);
    assert(secs / 60 == minutes && secs % 60 == seconds);
    text::lemma_two_digits(minutes);
    text::lemma_two_digits(seconds);
    let digits = |n: nat| if n < 10 { "0"@ + text::decimal(n) } else { text::decimal(n) };
    let clock = p.phase.name() + " "@ + digits(minutes) + ":"@ + digits(seconds);
    assert(clock + ""@ =~= clock);
}

/// A new config is taken over by a timer that has not begun, and leaves the
/// countdown of any other: of one that runs, of one paused part of the way,
/// of one in a break and of one with work behind it.
pub proof fn a_new_config_is_for_a_timer_not_begun(p: Pomodoro, cfg: Config)
    ensures
        p.started is None && p.done == 0 && p.phase == Phase::Work && p.left == period(p.cfg, Phase::Work)
            ==> reconfigured(p, cfg).left == period(cfg, Phase::Work),
        p.started is Some ==> reconfigured(p, cfg).left == p.left,
        p.done > 0 ==> reconfigured(p, cfg).left == p.left,
        p.phase != Phase::Work ==> reconfigured(p, cfg).left == p.left,
        p.left != period(p.cfg, Phase::Work) ==> reconfigured(p, cfg).left == p.left,
        reconfigured(p, cfg).cfg == cfg,
{
}

} // verus!
