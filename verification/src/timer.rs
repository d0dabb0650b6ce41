//! The decisions of a repeating timer. The caller sleeps for the interval and
//! waits for the stop signal at once, and reports which of the two came
//! first.

use vstd::prelude::*;

verus! {

/// What ended a wait.
#[derive(Debug, Clone, Copy, PartialEq, Eq, Structural)]
pub enum TimerEvent {
    /// The interval went by.
    Elapsed,
    /// The timer's handle was stopped or dropped.
    Stopped,
}

/// What the caller is to do next.
#[derive(Debug, Clone, Copy, PartialEq, Eq, Structural)]
pub enum TimerAction {
    /// Start the callback as work of its own, then wait again.
    Fire,
    /// Leave the loop.
    Exit,
}

/// A timer's schedule: running until it is stopped.
#[derive(Debug, Clone, Copy, PartialEq, Eq, Structural)]
pub struct TimerState {
    pub running: bool,
}

/// How often the callback is started over a run of waits: once for each
/// interval that went by before the first stop.
pub open spec fn fires(events: Seq<TimerEvent>) -> nat
    decreases events.len(),
{
    if events.len() == 0 || events[0] == TimerEvent::Stopped {
        0
    } else {
        1 + fires(events.drop_first())
    }
}

/// The schedule after a run of waits.
pub open spec fn running_after(running: bool, events: Seq<TimerEvent>) -> bool
    decreases events.len(),
{
    if events.len() == 0 {
        running
    } else {
        running_after(running && events[0] == TimerEvent::Elapsed, events.drop_first())
    }
}

/// How often a timer in the given state starts the callback over a run of
/// waits.
pub open spec fn fired(running: bool, events: Seq<TimerEvent>) -> nat
    decreases events.len(),
{
    if events.len() == 0 {
        0
    } else {
        let fire: nat = if running && events[0] == TimerEvent::Elapsed {
            1
        } else {
            0
        };
        fire + fired(running && events[0] == TimerEvent::Elapsed, events.drop_first())
    }
}

impl TimerState {
    /// A running timer.
    pub fn new() -> (t: TimerState)
        ensures
            t.running,
    {
        TimerState { running: true }
    }

    /// Takes the end of one wait. A running timer fires when the interval
    /// went by and goes on; a stop ends it for good.
    pub fn step(&mut self, event: TimerEvent) -> (action: TimerAction)
        ensures
            final(self).running == (old(self).running && event == TimerEvent::Elapsed),
            action == if old(self).running && event == TimerEvent::Elapsed {
                TimerAction::Fire
            } else {
                TimerAction::Exit
            },
    {
        if self.running && event == TimerEvent::Elapsed {
            TimerAction::Fire
        } else {
            self.running = false;
            TimerAction::Exit
        }
    }
}

/// A stopped timer never starts the callback again.
pub proof fn lemma_stopped_never_fires(events: Seq<TimerEvent>)
    ensures
        fired(false, events) == 0,
        !running_after(false, events),
    decreases events.len(),
{
    if events.len() > 0 {
        lemma_stopped_never_fires(events.drop_first());
    }
}

/// A running timer starts the callback once for each interval that goes by
/// before the first stop, and never after it.
pub proof fn lemma_fires_until_stopped(events: Seq<TimerEvent>)
    ensures
        fired(true, events) == fires(events),
    decreases events.len(),
{
    if events.len() > 0 {
        if events[0] == TimerEvent::Elapsed {
            lemma_fires_until_stopped(events.drop_first());
        } else {
            lemma_stopped_never_fires(events.drop_first());
        }
    }
}

} // verus!
