use pixelflux::clock::{Duration, Instant};
use pixelflux::pace::{FramePace, TickTrigger};

fn ms(n: u64) -> Duration {
    Duration::from_millis(n)
}

fn us(n: u64) -> Duration {
    Duration::from_micros(n)
}

fn period() -> Duration {
    ms(20)
}

fn start() -> Instant {
    Instant { nanos: 1_000_000_000_000 }
}

fn at(base: Instant, n: u64) -> Instant {
    base.plus(ms(n))
}

/// The earliest pull and the pull gate agree.
#[test]
fn the_earliest_pull_is_the_instant_the_gate_opens() {
    let base = start();
    let mut pace = FramePace::default();
    assert_eq!(pace.pull_at(period(), base), base, "a fresh capture waits for nothing");
    pace.ticked(TickTrigger::Timer, period(), base, false);
    let earliest = pace.pull_at(period(), base);
    assert_eq!(earliest, at(base, 10), "a whole budget buys half a period");
    assert!(pace.due(TickTrigger::Damage, period(), earliest));
    let before = Instant { nanos: earliest.nanos - ms(1).nanos };
    assert!(!pace.due(TickTrigger::Damage, period(), before));
    pace.ticked(TickTrigger::Damage, period(), earliest, false);
    assert_eq!(pace.pull_at(period(), earliest), at(base, 30), "a spent budget waits the period out");
}

#[test]
fn a_fresh_capture_is_due_at_once() {
    let pace = FramePace::default();
    let now = start();
    assert!(pace.due(TickTrigger::Timer, period(), now));
    assert!(pace.due(TickTrigger::Input, period(), now));
    assert_eq!(pace.next_due(period(), now), now);
}

#[test]
fn the_timer_ticks_at_its_period_with_jitter_slack() {
    let base = start();
    let mut pace = FramePace::default();
    pace.ticked(TickTrigger::Timer, period(), base, false);
    assert!(!pace.due(TickTrigger::Timer, period(), at(base, 17)));
    assert!(pace.due(TickTrigger::Timer, period(), at(base, 18)));
    assert_eq!(pace.next_due(period(), at(base, 5)), at(base, 20));
}

#[test]
fn input_pulls_a_frame_forward_from_a_budget() {
    let base = start();
    let mut pace = FramePace::default();
    pace.ticked(TickTrigger::Timer, period(), base, false);
    assert!(!pace.due(TickTrigger::Input, period(), at(base, 9)), "under half a period waits for the timer");
    assert!(pace.due(TickTrigger::Input, period(), at(base, 10)));
    pace.ticked(TickTrigger::Input, period(), at(base, 10), false);
    assert_eq!(pace.next_due(period(), at(base, 10)), at(base, 30), "a pull off the cadence leaves the timer its period");
    assert!(pace.due(TickTrigger::Timer, period(), at(base, 30)));
    assert!(!pace.due(TickTrigger::Input, period(), at(base, 25)), "the budget is spent for a second pull");
    assert!(pace.due(TickTrigger::Input, period(), at(base, 30)), "a whole period on, input takes the due frame");
    pace.ticked(TickTrigger::Input, period(), at(base, 30), false);
    // About 4 ms refilled by now: a pull of 10 ms does not fit, one of 3 ms does.
    pace.ticked(TickTrigger::Timer, period(), at(base, 120), false);
    assert!(!pace.due(TickTrigger::Input, period(), at(base, 130)), "a whole pull needs the whole budget back");
    assert!(pace.due(TickTrigger::Input, period(), at(base, 137)), "a small pull fits what refilled");
    pace.ticked(TickTrigger::Input, period(), at(base, 137), false);
    pace.ticked(TickTrigger::Timer, period(), at(base, 500), false);
    assert!(pace.due(TickTrigger::Input, period(), at(base, 510)), "the budget is whole again");
}

#[test]
fn input_a_hair_slower_than_the_cadence_renders_every_move() {
    let base = start();
    let mut pace = FramePace::default();
    pace.ticked(TickTrigger::Timer, period(), base, false);
    let spacing = us(20_400);
    assert!(FramePace::input_paced(Some(spacing), period()));
    let mut t = 16.0;
    pace.ticked(TickTrigger::Input, period(), at(base, 16), true);
    for _ in 0..50 {
        t += 20.4;
        let now = base.plus(us((t * 1000.0) as u64));
        assert!(pace.next_due(period(), now).nanos > now.nanos, "no timer frame slipped in ahead of the move");
        assert!(pace.due(TickTrigger::Input, period(), now), "the move renders its own frame");
        pace.ticked(TickTrigger::Input, period(), now, true);
    }
    let stopped = base.plus(us((t * 1000.0) as u64));
    assert_eq!(pace.next_due(period(), stopped), stopped.plus(ms(25)),
               "once the moves stop, the timer resumes after the grace");
}

#[test]
fn a_pull_that_arrives_late_pays_the_budget_back() {
    let base = start();
    let mut pace = FramePace::default();
    pace.ticked(TickTrigger::Timer, period(), base, false);
    pace.ticked(TickTrigger::Input, period(), at(base, 10), true);
    assert!(!pace.due(TickTrigger::Input, period(), at(base, 25)), "the budget is spent");
    pace.ticked(TickTrigger::Input, period(), at(base, 40), true);
    assert!(pace.due(TickTrigger::Input, period(), at(base, 50)), "a pull 10 ms late earned a 10 ms pull back");
}

#[test]
fn only_input_at_the_cadence_holds_the_timer_back() {
    let base = start();
    let mut pace = FramePace::default();
    pace.ticked(TickTrigger::Timer, period(), base, false);
    assert!(!FramePace::input_paced(Some(ms(7)), period()), "a 143 Hz client is not paced at 50 Hz");
    assert!(!FramePace::input_paced(Some(ms(40)), period()), "nor is one at half the rate");
    assert!(!FramePace::input_paced(None, period()), "nor no input at all");
    pace.ticked(TickTrigger::Input, period(), at(base, 12), false);
    assert_eq!(pace.next_due(period(), at(base, 12)), at(base, 32), "an unpaced pull leaves the timer its period");
    pace.ticked(TickTrigger::Input, period(), at(base, 32), true);
    assert_eq!(pace.next_due(period(), at(base, 32)), at(base, 57), "a paced one adds the grace");
    pace.ticked(TickTrigger::HostFrame, period(), at(base, 57), true);
    assert_eq!(pace.next_due(period(), at(base, 57)), at(base, 77), "a host frame never does");
}

#[test]
fn a_host_frame_pulls_forward_like_input() {
    let base = start();
    let mut pace = FramePace::default();
    pace.ticked(TickTrigger::Timer, period(), base, false);
    assert!(!pace.due(TickTrigger::HostFrame, period(), at(base, 9)), "under half a period waits for the timer");
    assert!(pace.due(TickTrigger::HostFrame, period(), at(base, 10)));
    pace.ticked(TickTrigger::HostFrame, period(), at(base, 10), false);
    assert_eq!(pace.next_due(period(), at(base, 10)), at(base, 30), "the cadence follows the host's frames");
    assert!(!pace.due(TickTrigger::Timer, period(), at(base, 20)), "the old phase's tick is skipped");
    assert!(!pace.due(TickTrigger::HostFrame, period(), at(base, 25)), "the budget is spent for a second pull");
    assert!(pace.due(TickTrigger::HostFrame, period(), at(base, 30)), "a whole period on, the frame is due");
}

#[test]
fn a_deferred_tick_holds_the_timer_without_counting_a_frame() {
    let base = start();
    let mut pace = FramePace::default();
    pace.ticked(TickTrigger::Timer, period(), base, false);
    pace.defer(at(base, 30));
    assert_eq!(pace.next_due(period(), at(base, 20)), at(base, 30), "the timer waits where it was held to");
    assert!(pace.due(TickTrigger::HostFrame, period(), at(base, 21)), "a frame a period on is still due at once");
    pace.ticked(TickTrigger::HostFrame, period(), at(base, 21), false);
    assert_eq!(pace.next_due(period(), at(base, 21)), at(base, 41), "a rendered frame lifts the hold");
}

#[test]
fn input_faster_than_the_period_raises_the_rate_by_the_refill_at_most() {
    let base = start();
    let mut pace = FramePace::default();
    let end = base.plus(Duration::from_secs(2));
    let (mut frames, mut next_input, mut next_timer) = (0, base, base);
    loop {
        let t = if next_input.nanos <= next_timer.nanos { next_input } else { next_timer };
        if t.nanos >= end.nanos {
            break;
        }
        if t == next_timer {
            if pace.due(TickTrigger::Timer, period(), t) {
                pace.ticked(TickTrigger::Timer, period(), t, false);
                frames += 1;
            }
            next_timer = pace.next_due(period(), t);
        }
        if t == next_input {
            if pace.due(TickTrigger::Input, period(), t) {
                pace.ticked(TickTrigger::Input, period(), t, false);
                frames += 1;
                next_timer = pace.next_due(period(), t);
            }
            next_input = t.plus(ms(7));
        }
    }
    assert!((100..=104).contains(&frames), "{frames} frames in two seconds at 50 fps");
}

#[test]
fn the_time_since_the_last_tick_never_runs_backwards() {
    let base = start();
    let mut pace = FramePace::default();
    assert_eq!(pace.since_last_tick(base), None);
    pace.ticked(TickTrigger::Timer, period(), at(base, 5), false);
    assert_eq!(pace.since_last_tick(at(base, 12)), Some(ms(7)));
    assert_eq!(pace.since_last_tick(base), Some(ms(0)));
}

#[test]
fn fractions_round_to_the_nearest_nanosecond() {
    assert_eq!(Duration::from_nanos(3).fraction(1, 2), 2);
    assert_eq!(Duration::from_nanos(7).fraction(1, 3), 2);
    assert_eq!(ms(20).fraction(5, 4), 25_000_000);
}

/// A frame starts the cadence over, whatever held the timer off before it.
#[test]
fn frames_lift_what_held_the_timer_off() {
    let base = start();
    let mut pace = FramePace::default();
    pace.defer(at(base, 500));
    assert_eq!(pace.next_due(period(), base), at(base, 500));
    pace.ticked(TickTrigger::Timer, period(), base, false);
    assert_eq!(pace.since_last_tick(base), Some(ms(0)));
    assert_eq!(pace.next_due(period(), base), at(base, 20));
    pace.ticked(TickTrigger::Input, period(), at(base, 20), true);
    assert_eq!(pace.next_due(period(), base), at(base, 45));
}

/// Waiting for the earliest pull suffices, and it lies between half a period and a whole one.
#[test]
fn pulls_are_due_where_they_were_waited_for() {
    let base = start();
    let mut pace = FramePace::default();
    pace.ticked(TickTrigger::Timer, period(), base, false);
    for step in [0, 3, 11, 40] {
        let now = at(base, step);
        let earliest = pace.pull_at(period(), now);
        assert!(earliest.nanos >= at(base, 10).nanos && earliest.nanos <= at(base, 20).nanos);
        let then = if earliest.nanos >= now.nanos { earliest } else { now };
        assert!(pace.due(TickTrigger::HostFrame, period(), then));
    }
}
