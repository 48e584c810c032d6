//! The frame pacing every capture backend shares: when a display is due a frame, and how far a
//! change that just happened may bring the next one forward.
//!
//! A capture renders on its frame timer, and something that actually happened (input the
//! compositor processed, a frame a host delivered, a region the X server reports damaged) may
//! render one ahead of that timer. The pull spends from a budget that refills slowly, so a screen
//! changing faster than the cadence raises the output rate by no more than the refill while a
//! change arriving on its own schedule is published as it lands rather than up to a period later.

use vstd::prelude::*;
use crate::clock;
use crate::clock::{Duration, Instant};

verus! {

/// What asks a display for a frame: its frame timer, fresh input, a frame the host just delivered
/// under host capture, or a region the X server reports damaged. All but the timer say something
/// has actually changed, and so may pull the cadence's phase forward.
#[derive(Clone, Copy, Debug, PartialEq, Eq, Structural)]
pub enum TickTrigger {
    Timer,
    Input,
    HostFrame,
    Damage,
}

impl TickTrigger {
    /// This trigger may render ahead of the timer, moving the cadence to its phase.
    pub open spec fn pulls(self) -> bool {
        self != TickTrigger::Timer
    }

    fn pulls_forward(self) -> (b: bool)
        ensures
            b == self.pulls(),
    {
        self != TickTrigger::Timer
    }
}

/// Half a period: what has to pass before a pull may render, and the most a pull may come early.
pub open spec fn half(period: int) -> int {
    clock::share(period, 1, 2)
}

/// What of a passed time accrues to the budget: a thirty-second of it.
pub open spec fn refill(passed: int) -> int {
    clock::share(passed, 1, 32)
}

/// A period and the quarter the timer stands back beyond it after a frame that paced input drew.
pub open spec fn graced(period: int) -> int {
    clock::share(period, 5, 4)
}

/// The timer's period less the tenth its wakeup may come early by.
pub open spec fn slack_period(period: int) -> int {
    clock::share(period, 9, 10)
}

/// A capture's frame pacing: the last frame it rendered, and how far a pull may still bring the
/// next one forward.
///
/// The shared frame timer fires for the earliest due capture; each capture renders on it once its
/// own period has (nearly) passed. A whole period after the last frame a pull renders at once, and
/// from half a period on it brings the frame forward, spending the time it comes early by from a
/// budget that refills slowly, is paid back by a pull that arrives late, and holds half a period
/// at most.
///
/// After an input frame, while the input's own spacing sits at the cadence, the timer stands back
/// for a quarter beyond a period, so such input keeps rendering its own frames whether it runs a
/// hair faster or slower than the timer. When the input stops, the timer renders after the grace
/// and carries on from there.
#[derive(Clone, Copy, Debug)]
pub struct FramePace {
    /// Last tick this capture actually rendered.
    pub last_tick: Option<Instant>,
    /// That frame was input's, with the input pacing itself at the cadence, so the timer stands
    /// back for the next move.
    pub last_paced: bool,
    /// The budget left when it was last spent, and when that was; a fresh capture holds the cap.
    pub borrow_budget: Option<(Duration, Instant)>,
    /// Where the timer was held off to by a tick that rendered nothing.
    pub deferred_until: Option<Instant>,
}

impl Default for FramePace {
    fn default() -> (p: Self)
        ensures
            p == (FramePace {
                last_tick: None,
                last_paced: false,
                borrow_budget: None,
                deferred_until: None,
            }),
    {
        FramePace { last_tick: None, last_paced: false, borrow_budget: None, deferred_until: None }
    }
}

impl FramePace {
    /// How far a pull may bring the next frame forward at `now`: what was left when it was last
    /// spent and what accrued since, half a period at most.
    pub open spec fn budget_at(self, period: int, now: int) -> int {
        match self.borrow_budget {
            None => half(period),
            Some((left, at)) => {
                let grown = left.nanos + refill(clock::since(now, at.nanos as int));
                if grown <= half(period) {
                    grown
                } else {
                    half(period)
                }
            },
        }
    }

    /// How long after the last frame the timer's own tick renders again.
    pub open spec fn timer_wait_of(self, period: int) -> int {
        if self.last_paced {
            graced(period)
        } else {
            slack_period(period)
        }
    }

    /// A capture rendering every `period` is due a frame at `now`, given what asks.
    pub open spec fn is_due(self, trigger: TickTrigger, period: int, now: int) -> bool {
        match self.last_tick {
            None => true,
            Some(last) => {
                let elapsed = clock::since(now, last.nanos as int);
                if trigger.pulls() {
                    elapsed >= period || (elapsed >= half(period) && self.budget_at(period, now)
                        >= period - elapsed)
                } else {
                    elapsed >= self.timer_wait_of(period)
                }
            },
        }
    }

    /// What a pull at `now`, `elapsed` after the last frame, leaves of the budget: less what it
    /// came early by, or more by what it came late by.
    pub open spec fn budget_left(self, period: int, now: int, elapsed: int) -> int {
        let budget = self.budget_at(period, now);
        if elapsed < period {
            if budget >= period - elapsed {
                budget - (period - elapsed)
            } else {
                0
            }
        } else if budget + (elapsed - period) <= half(period) {
            budget + (elapsed - period)
        } else {
            half(period)
        }
    }

    /// The pacing once a frame rendered at `now`.
    pub open spec fn after_tick(
        self,
        trigger: TickTrigger,
        period: int,
        now: Instant,
        paced: bool,
    ) -> Self {
        FramePace {
            last_tick: Some(now),
            last_paced: trigger == TickTrigger::Input && paced,
            borrow_budget: match self.last_tick {
                Some(last) => if trigger.pulls() {
                    Some(
                        (
                            Duration {
                                nanos: self.budget_left(
                                    period,
                                    now.nanos as int,
                                    clock::since(now.nanos as int, last.nanos as int),
                                ) as u64,
                            },
                            now,
                        ),
                    )
                } else {
                    self.borrow_budget
                },
                None => self.borrow_budget,
            },
            deferred_until: None,
        }
    }

    /// Whether a capture rendering every `period` is due a frame at `now`, given what asks.
    pub fn due(&self, trigger: TickTrigger, period: Duration, now: Instant) -> (b: bool)
        ensures
            b == self.is_due(trigger, period.nanos as int, now.nanos as int),
    {
        match self.last_tick {
            None => true,
            Some(last) => {
                let elapsed = now.saturating_duration_since(last);
                if !trigger.pulls_forward() {
                    return elapsed.nanos as u128 >= self.timer_wait(period);
                }
                elapsed.nanos >= period.nanos || (elapsed.nanos as u128 >= period.fraction(1, 2)
                    && self.budget(period, now) >= (period.nanos - elapsed.nanos) as u128)
            },
        }
    }

    /// Whether input spaced `interval` apart paces itself at the cadence of `period`: between
    /// three and five quarters of it.
    pub fn input_paced(interval: Option<Duration>, period: Duration) -> (b: bool)
        ensures
            b == (interval matches Some(i) && clock::share(period.nanos as int, 3, 4) <= i.nanos
                <= clock::share(period.nanos as int, 5, 4)),
    {
        match interval {
            None => false,
            Some(i) => i.nanos as u128 >= period.fraction(3, 4) && i.nanos as u128
                <= period.fraction(5, 4),
        }
    }

    /// Record the frame rendered at `now`. A pull ahead of the period spends the budget by what it
    /// came early; one behind the period pays back what it came late. `input_paced` says whether
    /// the input driving the capture paces itself at the cadence, which is what lets the timer
    /// stand back after an input frame.
    pub fn ticked(&mut self, trigger: TickTrigger, period: Duration, now: Instant, input_paced: bool)
        ensures
            *final(self) == old(self).after_tick(trigger, period.nanos as int, now, input_paced),
    {
        if trigger.pulls_forward() {
            match self.last_tick {
                None => {},
                Some(last) => {
                    let elapsed: u64 = now.saturating_duration_since(last).nanos;
                    let budget: u128 = self.budget(period, now);
                    let cap: u128 = period.fraction(1, 2);
                    proof {
                        half_bounds(period.nanos as int);
                    }
                    let left: u128 = if elapsed < period.nanos {
                        let early: u128 = (period.nanos - elapsed) as u128;
                        if budget >= early {
                            budget - early
                        } else {
                            0
                        }
                    } else {
                        let grown: u128 = budget + (elapsed - period.nanos) as u128;
                        if grown <= cap {
                            grown
                        } else {
                            cap
                        }
                    };
                    self.borrow_budget = Some((Duration { nanos: left as u64 }, now));
                },
            }
        }
        self.last_paced = trigger == TickTrigger::Input && input_paced;
        self.last_tick = Some(now);
        self.deferred_until = None;
    }

    /// How long after the last frame the timer's own tick renders again.
    fn timer_wait(&self, period: Duration) -> (n: u128)
        ensures
            n == self.timer_wait_of(period.nanos as int),
    {
        if self.last_paced {
            period.fraction(5, 4)
        } else {
            period.fraction(9, 10)
        }
    }

    /// Hold the timer off this capture until `until` without a frame counting: a tick that
    /// published nothing must neither spin the timer nor move the cadence a fresh frame is
    /// measured against.
    pub fn defer(&mut self, until: Instant)
        ensures
            *final(self) == (FramePace { deferred_until: Some(until), ..*old(self) }),
    {
        self.deferred_until = Some(until);
    }

    /// Time since this capture last rendered, if it has.
    pub fn since_last_tick(&self, now: Instant) -> (d: Option<Duration>)
        ensures
            match self.last_tick {
                None => d is None,
                Some(last) => d == Some(
                    Duration { nanos: clock::since(now.nanos as int, last.nanos as int) as u64 },
                ),
            },
    {
        match self.last_tick {
            None => None,
            Some(last) => Some(now.saturating_duration_since(last)),
        }
    }

    /// How far a pull may bring the next frame forward at `now`.
    fn budget(&self, period: Duration, now: Instant) -> (n: u128)
        ensures
            n == self.budget_at(period.nanos as int, now.nanos as int),
            n <= half(period.nanos as int),
            n <= 0xffff_ffff_ffff_ffff_ffff,
    {
        let cap: u128 = period.fraction(1, 2);
        match self.borrow_budget {
            None => cap,
            Some((left, at)) => {
                let grown: u128 = left.nanos as u128 + now.saturating_duration_since(at).fraction(
                    1,
                    32,
                );
                if grown <= cap {
                    grown
                } else {
                    cap
                }
            },
        }
    }

    /// The earliest a trigger that pulls forward may render.
    pub open spec fn earliest_pull(self, period: int, now: int) -> int {
        match self.last_tick {
            None => now,
            Some(last) => last.nanos + clock::since(period, self.budget_at(period, now)),
        }
    }

    /// The earliest a trigger that pulls forward may render: a whole period after the last frame,
    /// less what the budget still allows it to borrow. A caller that waits until then need not
    /// test `due` again, since the budget only grows with time.
    pub fn pull_at(&self, period: Duration, now: Instant) -> (i: Instant)
        requires
            self.last_tick matches Some(last) ==> last.nanos + period.nanos <= u64::MAX,
        ensures
            i.nanos == self.earliest_pull(period.nanos as int, now.nanos as int),
    {
        match self.last_tick {
            None => now,
            Some(last) => {
                let budget: u128 = self.budget(period, now);
                let wait: u64 = if period.nanos as u128 >= budget {
                    (period.nanos as u128 - budget) as u64
                } else {
                    0
                };
                last.plus(Duration { nanos: wait })
            },
        }
    }

    /// When the timer is next due for this capture: a period after the last frame, and the grace
    /// beyond that after an input frame the input paced; no earlier than where it was held off to.
    pub open spec fn next_due_at(self, period: int, now: int) -> int {
        let due = match self.last_tick {
            None => now,
            Some(last) => last.nanos + if self.last_paced {
                graced(period)
            } else {
                period
            },
        };
        match self.deferred_until {
            None => due,
            Some(held) => if held.nanos >= due {
                held.nanos as int
            } else {
                due
            },
        }
    }

    /// When the timer is next due for this capture.
    pub fn next_due(&self, period: Duration, now: Instant) -> (i: Instant)
        requires
            self.last_tick matches Some(last) ==> last.nanos + graced(period.nanos as int)
                <= u64::MAX,
        ensures
            i.nanos == self.next_due_at(period.nanos as int, now.nanos as int),
    {
        let due = match self.last_tick {
            None => now,
            Some(last) => {
                let wait: u64 = if self.last_paced {
                    period.fraction(5, 4) as u64
                } else {
                    proof {
                        graced_bounds(period.nanos as int);
                    }
                    period.nanos
                };
                last.plus(Duration { nanos: wait })
            },
        };
        match self.deferred_until {
            None => due,
            Some(held) => if held.nanos >= due.nanos {
                held
            } else {
                due
            },
        }
    }
}

proof fn half_bounds(period: int)
    requires
        period >= 0,
    ensures
        0 <= half(period) <= period / 2 + 1,
        period > 0 ==> half(period) <= period,
        2 * half(period) >= period,
        2 * half(period) <= period + 1,
{
}

proof fn graced_bounds(period: int)
    requires
        period >= 0,
    ensures
        graced(period) >= period,
        graced(period) == (10 * period + 4) / 8,
        slack_period(period) == (18 * period + 10) / 20,
        slack_period(period) <= period,
        refill(period) == (2 * period + 32) / 64,
{
    assert(2 * period * 5 == 10 * period) by (nonlinear_arith);
    assert(2 * period * 9 == 18 * period) by (nonlinear_arith);
    assert(2 * period * 1 == 2 * period) by (nonlinear_arith);
}

/// The budget never exceeds half a period, and only grows with time.
pub proof fn budget_grows_up_to_half_a_period(p: FramePace, period: int, now: int, then: int)
    requires
        0 <= now <= then,
        period >= 0,
    ensures
        0 <= p.budget_at(period, now) <= p.budget_at(period, then) <= half(period),
{
    half_bounds(period);
    match p.borrow_budget {
        None => {},
        Some((left, at)) => {
            graced_bounds(clock::since(now, at.nanos as int));
            graced_bounds(clock::since(then, at.nanos as int));
        },
    }
}

/// A capture due for a pull, or on its timer, stays due until it renders.
pub proof fn due_stays_due(p: FramePace, trigger: TickTrigger, period: int, now: int, then: int)
    requires
        0 <= now <= then,
        period >= 0,
        p.is_due(trigger, period, now),
    ensures
        p.is_due(trigger, period, then),
{
    budget_grows_up_to_half_a_period(p, period, now, then);
}

/// The instant [`FramePace::pull_at`] gives is one at which the pull gate is open, so a caller
/// that waits until then need not ask again. Half a period is rounded to whole nanoseconds, so a
/// whole budget of an odd period overstates by one what it buys; such a budget is left out.
pub proof fn gate_is_open_at_the_earliest_pull(
    p: FramePace,
    trigger: TickTrigger,
    period: int,
    last: int,
    now: int,
    at: int,
)
    requires
        trigger.pulls(),
        period >= 0,
        p.last_tick matches Some(l) && l.nanos == last,
        0 <= now <= at,
        p.budget_at(period, now) + half(period) <= period,
        at == last + clock::since(period, p.budget_at(period, now)),
    ensures
        p.is_due(trigger, period, at),
{
    budget_grows_up_to_half_a_period(p, period, now, at);
}

/// Waiting for the earliest pull suffices: a pull then, or at once where that is past, is due. It
/// lies between half a period and a whole one after the last frame; a fresh capture waits for
/// nothing. Stated of periods that halve to whole nanoseconds, as those of whole milliseconds do.
pub proof fn waiting_for_the_earliest_pull_suffices(
    p: FramePace,
    trigger: TickTrigger,
    period: int,
    now: int,
)
    requires
        trigger.pulls(),
        period >= 0,
        period % 2 == 0,
        now >= 0,
    ensures
        ({
            let at = p.earliest_pull(period, now);
            &&& p.is_due(
                trigger,
                period,
                if at >= now {
                    at
                } else {
                    now
                },
            )
            &&& p.last_tick is None ==> at == now
            &&& p.last_tick matches Some(last) ==> last.nanos + period / 2 <= at <= last.nanos
                + period
        }),
{
    half_bounds(period);
    budget_grows_up_to_half_a_period(p, period, now, now);
    match p.last_tick {
        None => {},
        Some(last) => {
            let at = p.earliest_pull(period, now);
            let then = if at >= now {
                at
            } else {
                now
            };
            budget_grows_up_to_half_a_period(p, period, now, then);
        },
    }
}

/// A frame starts the cadence over, whatever came before: it is the last one, whatever held the
/// timer off is lifted, and the timer is next due a period on, or after the grace where paced input
/// drew it. A timer's frame leaves the budget as it was.
pub proof fn frames_start_the_cadence_over(
    p: FramePace,
    trigger: TickTrigger,
    period: int,
    now: Instant,
    paced: bool,
    later: int,
)
    ensures
        ({
            let q = p.after_tick(trigger, period, now, paced);
            &&& q.last_tick == Some(now)
            &&& clock::since(now.nanos as int, q.last_tick->0.nanos as int) == 0
            &&& q.next_due_at(period, later) == now.nanos + if trigger == TickTrigger::Input
                && paced {
                graced(period)
            } else {
                period
            }
            &&& trigger == TickTrigger::Timer ==> q.borrow_budget == p.borrow_budget
        }),
{
}

/// The timer is due when it says it is next due.
pub proof fn timer_is_due_when_next_due(p: FramePace, period: int, now: int)
    requires
        period >= 0,
        now >= 0,
    ensures
        p.is_due(TickTrigger::Timer, period, p.next_due_at(period, now)),
{
    graced_bounds(period);
}

/// A tick that rendered nothing changes when the timer is next due and nothing else: the cadence
/// a fresh frame is measured against, and the budget, stay as they were.
pub proof fn deferring_counts_no_frame(
    p: FramePace,
    until: Instant,
    trigger: TickTrigger,
    period: int,
    now: int,
)
    ensures
        (FramePace { deferred_until: Some(until), ..p }).is_due(trigger, period, now) == p.is_due(
            trigger,
            period,
            now,
        ),
        (FramePace { deferred_until: Some(until), ..p }).budget_at(period, now) == p.budget_at(
            period,
            now,
        ),
        (FramePace { deferred_until: Some(until), ..p }).next_due_at(period, now) >= until.nanos,
{
}

/// A frame renders on cadence: a whole period after the last one, or as a pull its budget covers.
pub open spec fn on_cadence(p: FramePace, trigger: TickTrigger, period: int, now: Instant) -> bool {
    p.last_tick matches Some(last) && last.nanos <= now.nanos && if trigger.pulls() {
        p.is_due(trigger, period, now.nanos as int)
    } else {
        now.nanos - last.nanos >= period
    }
}

/// What one frame costs: its period is covered by the time since the last frame, what that time
/// accrued to the budget and what was drawn from the budget.
pub proof fn frame_is_paid_for(
    p: FramePace,
    trigger: TickTrigger,
    period: int,
    now: Instant,
    paced: bool,
)
    requires
        0 <= period <= u64::MAX,
        on_cadence(p, trigger, period, now),
        p.borrow_budget matches Some((left, at)) ==> at.nanos <= p.last_tick.unwrap().nanos,
    ensures
        ({
            let last = p.last_tick.unwrap().nanos as int;
            let q = p.after_tick(trigger, period, now, paced);
            32 * period + 32 * q.budget_at(period, now.nanos as int) <= 33 * (now.nanos - last) + 32
                * p.budget_at(period, last) + 32
        }),
        p.after_tick(trigger, period, now, paced).borrow_budget matches Some((left, at))
            ==> at.nanos <= now.nanos,
{
    let last = p.last_tick.unwrap().nanos as int;
    let e = now.nanos - last;
    let q = p.after_tick(trigger, period, now, paced);
    half_bounds(period);
    graced_bounds(0);
    graced_bounds(e);
    budget_grows_up_to_half_a_period(p, period, last, now.nanos as int);
    match p.borrow_budget {
        None => {},
        Some((left, at)) => {
            graced_bounds(last - at.nanos);
            graced_bounds(now.nanos - at.nanos);
        },
    }
    if trigger.pulls() {
        let left = p.budget_left(period, now.nanos as int, e);
        assert(0 <= left <= half(period));
        assert(q.budget_at(period, now.nanos as int) == left);
    } else {
        assert(q.budget_at(period, now.nanos as int) == p.budget_at(period, now.nanos as int));
    }
}

/// The pacing once frames rendered one behind another, each with its trigger.
pub open spec fn after_ticks(
    p: FramePace,
    period: int,
    frames: Seq<(TickTrigger, Instant, bool)>,
) -> FramePace
    decreases frames.len(),
{
    if frames.len() == 0 {
        p
    } else {
        let (trigger, now, paced) = frames.last();
        after_ticks(p, period, frames.drop_last()).after_tick(trigger, period, now, paced)
    }
}

/// Every one of the frames renders on cadence.
pub open spec fn all_on_cadence(
    p: FramePace,
    period: int,
    frames: Seq<(TickTrigger, Instant, bool)>,
) -> bool
    decreases frames.len(),
{
    frames.len() == 0 || ({
        let (trigger, now, paced) = frames.last();
        all_on_cadence(p, period, frames.drop_last()) && on_cadence(
            after_ticks(p, period, frames.drop_last()),
            trigger,
            period,
            now,
        )
    })
}

/// Pulls raise the rate by no more than the refill: however many frames render on cadence, their
/// periods fit the time they took, a thirty-second of it more, and the half period the budget
/// starts with (to a nanosecond a frame, for rounding).
pub proof fn pulls_raise_the_rate_by_the_refill_at_most(
    p: FramePace,
    period: int,
    frames: Seq<(TickTrigger, Instant, bool)>,
)
    requires
        0 <= period <= u64::MAX,
        frames.len() > 0,
        p.last_tick is Some,
        p.borrow_budget matches Some((left, at)) ==> at.nanos <= p.last_tick.unwrap().nanos,
        all_on_cadence(p, period, frames),
    ensures
        32 * (frames.len() * period) <= 33 * (frames.last().1.nanos - p.last_tick.unwrap().nanos)
            + 32 * half(period) + 32 * frames.len(),
{
    let start = p.last_tick.unwrap().nanos as int;
    frames_are_paid_for(p, period, frames);
    let q = after_ticks(p, period, frames);
    let end = frames.last().1.nanos as int;
    budget_grows_up_to_half_a_period(p, period, start, start);
    budget_grows_up_to_half_a_period(q, period, end, end);
}

proof fn frames_are_paid_for(p: FramePace, period: int, frames: Seq<(TickTrigger, Instant, bool)>)
    requires
        0 <= period <= u64::MAX,
        p.last_tick is Some,
        p.borrow_budget matches Some((left, at)) ==> at.nanos <= p.last_tick.unwrap().nanos,
        all_on_cadence(p, period, frames),
    ensures
        ({
            let q = after_ticks(p, period, frames);
            let start = p.last_tick.unwrap().nanos as int;
            let end = q.last_tick.unwrap().nanos as int;
            &&& q.last_tick is Some
            &&& frames.len() > 0 ==> end == frames.last().1.nanos
            &&& q.borrow_budget matches Some((left, at)) ==> at.nanos <= end
            &&& 32 * (frames.len() * period) + 32 * q.budget_at(period, end) <= 33 * (end - start)
                + 32 * p.budget_at(period, start) + 32 * frames.len()
        }),
    decreases frames.len(),
{
    if frames.len() > 0 {
        let shorter = frames.drop_last();
        let (trigger, now, paced) = frames.last();
        frames_are_paid_for(p, period, shorter);
        frame_is_paid_for(after_ticks(p, period, shorter), trigger, period, now, paced);
        assert(frames.len() * period == shorter.len() * period + period) by (nonlinear_arith)
            requires
                frames.len() == shorter.len() + 1,
        ;
    } else {
        assert(frames.len() * period == 0) by (nonlinear_arith)
            requires
                frames.len() == 0,
        ;
    }
}

} // verus!
