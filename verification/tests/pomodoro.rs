//! The work timer. Time is given in nanoseconds on a clock of its own.
use kubide::pomodoro::{Config, Phase, Pomodoro, MINUTE, SECOND};

fn cfg() -> Config {
    Config { work: 25, short_break: 5, long_break: 15, rounds: 4, auto_advance: false }
}

/// Some time after the clock was started.
const NOW: u128 = 1_000 * MINUTE;

#[test]
fn it_starts_paused_at_the_full_period() {
    // Opening the editor should not start a clock on you.
    let p = Pomodoro::new(cfg());
    assert!(!p.running());
    assert_eq!(p.remaining(NOW), 25 * MINUTE);
    assert!(p.label(NOW).contains("work 25:00"));
    assert!(p.label(NOW).contains("paused"));
}

#[test]
fn pausing_keeps_what_is_left() {
    let mut p = Pomodoro::new(cfg());
    p.toggle(NOW);
    assert!(p.running());
    p.toggle(NOW + SECOND / 2);
    assert!(!p.running());
    // Some fraction of a second has passed, so it must be under the full
    // period but nowhere near zero.
    assert!(p.remaining(NOW + MINUTE) <= 25 * MINUTE);
    assert!(p.remaining(NOW + MINUTE) > 24 * MINUTE);
}

#[test]
fn the_long_break_comes_after_the_configured_rounds() {
    let mut p = Pomodoro::new(cfg());
    for _ in 0..3 {
        p.advance(NOW); // work -> short break
        p.advance(NOW); // break -> work
    }
    assert_eq!(p.phase, Phase::Work);
    p.advance(NOW);
    assert_eq!(p.phase, Phase::LongBreak, "fourth work period");
}

#[test]
fn a_finished_period_does_not_start_the_next_one_by_itself() {
    // Counting your break while you are still typing is nagging.
    let mut p = Pomodoro::new(cfg());
    p.left = 0;
    p.started = Some(NOW);
    assert!(p.finished(NOW));
    assert!(p.poll(NOW));
    assert!(!p.running());
    assert_eq!(p.phase, Phase::Work, "still on the same period");
    assert!(p.label(NOW).contains("done"));
}

#[test]
fn auto_advance_rolls_over_and_keeps_running() {
    let mut p = Pomodoro::new(Config { auto_advance: true, ..cfg() });
    p.left = 0;
    p.started = Some(NOW);
    assert!(p.poll(NOW));
    assert_eq!(p.phase, Phase::ShortBreak);
    assert!(p.running());
}

#[test]
fn polling_an_idle_timer_costs_nothing() {
    // It runs on every frame; it must not report a change when there is
    // none, or the window would redraw forever.
    let mut p = Pomodoro::new(cfg());
    assert!(!p.poll(NOW));
    p.toggle(NOW);
    assert!(!p.poll(NOW));
}

#[test]
fn reset_goes_back_to_the_start_of_this_period() {
    let mut p = Pomodoro::new(cfg());
    p.advance(NOW);
    assert_eq!(p.phase, Phase::ShortBreak);
    p.toggle(NOW);
    p.reset();
    assert!(!p.running());
    assert_eq!(p.remaining(NOW), 5 * MINUTE);
}

#[test]
fn a_zero_length_period_is_treated_as_one_minute() {
    // Straight from a config file, and a zero-length period would be
    // permanently finished.
    let p = Pomodoro::new(Config { work: 0, ..cfg() });
    assert_eq!(p.remaining(NOW), 60 * SECOND);
}

#[test]
fn zero_rounds_never_reaches_the_long_break() {
    // `done % 0` would panic.
    let mut p = Pomodoro::new(Config { rounds: 0, ..cfg() });
    for _ in 0..10 {
        p.advance(NOW);
    }
    assert_ne!(p.phase, Phase::LongBreak);
}

#[test]
fn changing_the_config_does_not_disturb_a_running_period() {
    // The countdown jumping under you is worse than it taking effect next
    // time round.
    let mut p = Pomodoro::new(cfg());
    p.toggle(NOW);
    let before = p.remaining(NOW);
    p.set_config(Config { work: 50, ..cfg() });
    assert!(p.remaining(NOW + SECOND) <= before);
    assert!(p.remaining(NOW + SECOND) > 24 * MINUTE);
}

#[test]
fn changing_the_config_while_idle_takes_effect_at_once() {
    let mut p = Pomodoro::new(cfg());
    p.set_config(Config { work: 50, ..cfg() });
    assert_eq!(p.remaining(NOW), 50 * MINUTE);
}

/// The countdown reads as a clock does.
#[test]
fn the_label_counts_down() {
    let mut p = Pomodoro::new(cfg());
    p.toggle(NOW);
    assert_eq!(p.label(NOW + 47 * SECOND), "work 24:13");
    p.toggle(NOW + 47 * SECOND);
    assert_eq!(p.label(NOW + MINUTE), "work 24:13 paused");
    assert_eq!(Phase::ShortBreak.label(), "break");
}

/// The count is of the work periods since the last long break, so fewer
/// rounds do not bring the next one before its time.
#[test]
fn the_count_starts_over_at_the_long_break() {
    let mut p = Pomodoro::new(cfg());
    for _ in 0..8 {
        p.advance(NOW);
    }
    assert_eq!((p.phase, p.done), (Phase::Work, 0));
    p.set_config(Config { rounds: 3, ..cfg() });
    p.advance(NOW);
    p.advance(NOW);
    p.advance(NOW);
    assert_eq!(p.phase, Phase::ShortBreak);
    assert_eq!(p.label(NOW), "break 05:00 paused");
    p.advance(NOW);
    p.advance(NOW);
    assert_eq!((p.phase, p.done), (Phase::LongBreak, 0));
}

/// A period that was begun and paused keeps what is left of it.
#[test]
fn a_new_length_waits_for_the_next_period() {
    let mut p = Pomodoro::new(cfg());
    p.toggle(NOW);
    p.toggle(NOW + 10 * MINUTE);
    assert_eq!(p.remaining(NOW), 15 * MINUTE);
    p.set_config(Config { work: 50, ..cfg() });
    assert_eq!(p.remaining(NOW), 15 * MINUTE);
    assert!(!p.running());
    let mut fresh = Pomodoro::new(cfg());
    fresh.set_config(Config { work: 50, ..cfg() });
    assert_eq!(fresh.remaining(NOW), 50 * MINUTE);
}
