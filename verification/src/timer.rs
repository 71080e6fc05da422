//! A countdown that can be restarted without being rebuilt.
//!
//! The timer is a passive state machine over a monotonic clock counted in
//! milliseconds. Its owner polls it with the current instant; the poll says
//! whether the timer fires, and the owner then runs whatever the firing
//! stands for.

use vstd::prelude::*;

verus! {

/// How a timer counts.
#[derive(Clone, Copy, Debug, PartialEq, Eq, Structural)]
pub enum TimerMode {
    /// Created, not started: it never fires.
    Idle,
    /// Fires once when the duration has elapsed, then lies dormant.
    OneShot,
    /// Fires every time the duration has elapsed, counting anew from each firing.
    Repeating,
}

/// The mathematical state of a [`Timer`].
pub struct TimerState {
    pub mode: TimerMode,
    /// The instant the countdown is measured from.
    pub start: nat,
    /// The length of the countdown.
    pub duration: nat,
    /// Whether a one-shot countdown has fired and not been reset since.
    pub done: bool,
}

impl TimerState {
    /// Time gone by since the start; zero for an instant before the start.
    pub open spec fn elapsed(self, now: nat) -> nat {
        if now >= self.start {
            (now - self.start) as nat
        } else {
            0
        }
    }

    /// Whether a poll at `now` fires.
    pub open spec fn due(self, now: nat) -> bool {
        match self.mode {
            TimerMode::Idle => false,
            TimerMode::OneShot => !self.done && self.elapsed(now) >= self.duration,
            TimerMode::Repeating => self.elapsed(now) >= self.duration,
        }
    }

    /// The state a poll at `now` leaves behind.
    pub open spec fn polled(self, now: nat) -> TimerState {
        if !self.due(now) {
            self
        } else if self.mode == TimerMode::Repeating {
            TimerState { start: now, ..self }
        } else {
            TimerState { done: true, ..self }
        }
    }

    /// The state a reset at `now` leaves behind: the countdown starts over,
    /// and a one-shot timer that had fired counts again.
    pub open spec fn reset(self, now: nat) -> TimerState {
        TimerState {
            mode: if self.done {
                TimerMode::OneShot
            } else {
                self.mode
            },
            start: now,
            duration: self.duration,
            done: false,
        }
    }

    /// A one-shot countdown of `duration` that starts at `now`.
    pub open spec fn one_shot(duration: nat, now: nat) -> TimerState {
        TimerState { mode: TimerMode::OneShot, start: now, duration, done: false }
    }
}

/// A restartable countdown.
#[derive(Clone, Copy, Debug)]
pub struct Timer {
    mode: TimerMode,
    start: u64,
    duration: u64,
    done: bool,
}

impl View for Timer {
    type V = TimerState;

    closed spec fn view(&self) -> TimerState {
        TimerState {
            mode: self.mode,
            start: self.start as nat,
            duration: self.duration as nat,
            done: self.done,
        }
    }
}

impl Timer {
    /// A timer of `duration` milliseconds whose countdown is measured from
    /// `now`. It does not count until [`Timer::timeout`] or
    /// [`Timer::interval`] starts it.
    pub fn new(duration: u64, now: u64) -> (timer: Timer)
        ensures
            timer@ == (TimerState {
                mode: TimerMode::Idle,
                start: now as nat,
                duration: duration as nat,
                done: false,
            }),
    {
        Timer { mode: TimerMode::Idle, start: now, duration, done: false }
    }

    /// Starts the timer as a one-shot countdown, measured from the start it
    /// already has.
    pub fn timeout(&mut self)
        ensures
            final(self)@ == (TimerState { mode: TimerMode::OneShot, done: false, ..old(self)@ }),
    {
        self.mode = TimerMode::OneShot;
        self.done = false;
    }

    /// Starts the timer as a repeating countdown, measured from the start it
    /// already has.
    pub fn interval(&mut self)
        ensures
            final(self)@ == (TimerState { mode: TimerMode::Repeating, done: false, ..old(self)@ }),
    {
        self.mode = TimerMode::Repeating;
        self.done = false;
    }

    /// Measures the countdown anew from `now`. A one-shot timer that had
    /// fired is started again.
    pub fn reset(&mut self, now: u64)
        ensures
            final(self)@ == old(self)@.reset(now as nat),
    {
        self.start = now;
        if self.done {
            self.done = false;
            self.mode = TimerMode::OneShot;
        }
    }

    /// Lets the timer see the instant `now`. Returns whether it fires.
    pub fn poll(&mut self, now: u64) -> (fired: bool)
        ensures
            fired == old(self)@.due(now as nat),
            final(self)@ == old(self)@.polled(now as nat),
    {
        let elapsed: u64 = if now >= self.start {
            now - self.start
        } else {
            0
        };
        match self.mode {
            TimerMode::Idle => false,
            TimerMode::OneShot => {
                if !self.done && elapsed >= self.duration {
                    self.done = true;
                    true
                } else {
                    false
                }
            },
            TimerMode::Repeating => {
                if elapsed >= self.duration {
                    self.start = now;
                    true
                } else {
                    false
                }
            },
        }
    }

    /// Whether a poll at `now` would fire, without changing the timer.
    pub fn is_due(&self, now: u64) -> (due: bool)
        ensures
            due == self@.due(now as nat),
    {
        let mut probe = *self;
        probe.poll(now)
    }

    /// Whether the timer has fired as a one-shot and was not reset since.
    pub fn is_done(&self) -> (done: bool)
        ensures
            done == self@.done,
    {
        self.done
    }

    /// The mode the timer counts in.
    pub fn mode(&self) -> (mode: TimerMode)
        ensures
            mode == self@.mode,
    {
        self.mode
    }
}

/// A one-shot timer that is reset at `at` before it has fired does not fire
/// before a full duration has passed since `at`. In particular it stays
/// silent at its first deadline whenever the reset came after its start.
pub proof fn lemma_reset_defers_firing(t: TimerState, at: nat, now: nat)
    requires
        t.mode == TimerMode::OneShot,
        !t.done,
        !t.due(at),
    ensures
        now < at + t.duration ==> !t.reset(at).due(now),
        t.start < at && t.duration > 0 ==> !t.reset(at).due(t.start + t.duration),
        now >= at + t.duration ==> t.reset(at).due(now),
{
}

/// A one-shot timer that has fired is dormant: no later poll fires.
pub proof fn lemma_fired_timer_is_dormant(t: TimerState, fired_at: nat, now: nat)
    requires
        t.mode == TimerMode::OneShot,
        t.due(fired_at),
    ensures
        t.polled(fired_at).done,
        !t.polled(fired_at).due(now),
{
}

/// Resetting a one-shot timer after it has fired starts it again: it is the
/// one-shot countdown of the same duration measured from the reset, and from
/// the reset on it fires exactly when that duration has passed.
pub proof fn lemma_reset_rearms(t: TimerState, fired_at: nat, at: nat, now: nat)
    requires
        t.mode == TimerMode::OneShot,
        t.due(fired_at),
    ensures
        t.polled(fired_at).reset(at) == TimerState::one_shot(t.duration, at),
        now >= at ==> (t.polled(fired_at).reset(at).due(now) <==> now >= at + t.duration),
{
}

/// Resetting twice at one instant is resetting once.
pub proof fn lemma_reset_idempotent(t: TimerState, at: nat)
    ensures
        t.reset(at).reset(at) == t.reset(at),
{
}

/// A repeating timer is never done, fires whenever a duration has passed
/// since its start, and then counts from the instant it fired. A reset only
/// moves its start.
pub proof fn lemma_repeating_rebases(t: TimerState, now: nat, at: nat)
    requires
        t.mode == TimerMode::Repeating,
        !t.done,
    ensures
        t.due(now) <==> t.elapsed(now) >= t.duration,
        t.due(now) ==> t.polled(now) == (TimerState { start: now, ..t }),
        t.reset(at) == (TimerState { start: at, ..t }),
{
}

} // verus!
