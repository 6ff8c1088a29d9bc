use vstd::prelude::*;

verus! {

/// Where the reconciliation loop stands.
#[derive(Clone, Copy, Debug, PartialEq, Eq, Structural)]
pub enum SchedState {
    /// Not started yet.
    Idle,
    /// A cycle is in flight. Cancellation is not observed here: a cycle is
    /// never preempted, only awaited to completion.
    Running,
    /// Between cycles, waiting for the interval timer or cancellation,
    /// whichever comes first.
    Waiting,
    /// Shut down; nothing runs any more.
    Stopped,
}

/// What the loop's driver reports to the state machine.
#[derive(Clone, Copy, Debug, PartialEq, Eq, Structural)]
pub enum SchedEvent {
    /// The loop was asked to start.
    Start,
    /// The in-flight cycle completed, successfully or not.
    CycleFinished,
    /// The inter-cycle interval elapsed.
    IntervalElapsed,
    /// A cancellation signal arrived.
    Cancelled,
}

/// What the driver must do next.
#[derive(Clone, Copy, Debug, PartialEq, Eq, Structural)]
pub enum SchedAction {
    /// Run one reconciliation cycle now.
    RunCycle,
    /// Wait for the interval timer or a cancellation signal.
    WaitInterval,
    /// Tear the loop down.
    Halt,
    /// Nothing; the event does not apply in this state.
    Stay,
}

/// The scheduling discipline: one cycle immediately on start, then wait a
/// fixed interval after each cycle ends, repeating until a cancellation
/// signal arrives during a wait. A cancellation seen while running takes
/// effect only once the cycle has finished and the wait begins.
pub open spec fn spec_sched_step(s: SchedState, e: SchedEvent) -> (SchedState, SchedAction) {
    match (s, e) {
        (SchedState::Idle, SchedEvent::Start) => (SchedState::Running, SchedAction::RunCycle),
        (SchedState::Running, SchedEvent::CycleFinished) => (
            SchedState::Waiting,
            SchedAction::WaitInterval,
        ),
        (SchedState::Waiting, SchedEvent::IntervalElapsed) => (
            SchedState::Running,
            SchedAction::RunCycle,
        ),
        (SchedState::Waiting, SchedEvent::Cancelled) => (SchedState::Stopped, SchedAction::Halt),
        (SchedState::Stopped, _) => (SchedState::Stopped, SchedAction::Stay),
        _ => (s, SchedAction::Stay),
    }
}

/// Advances the loop's state by one observed event.
pub fn sched_step(s: SchedState, e: SchedEvent) -> (r: (SchedState, SchedAction))
    ensures
        r == spec_sched_step(s, e),
{
    match (s, e) {
        (SchedState::Idle, SchedEvent::Start) => (SchedState::Running, SchedAction::RunCycle),
        (SchedState::Running, SchedEvent::CycleFinished) => (
            SchedState::Waiting,
            SchedAction::WaitInterval,
        ),
        (SchedState::Waiting, SchedEvent::IntervalElapsed) => (
            SchedState::Running,
            SchedAction::RunCycle,
        ),
        (SchedState::Waiting, SchedEvent::Cancelled) => (SchedState::Stopped, SchedAction::Halt),
        (SchedState::Stopped, _) => (SchedState::Stopped, SchedAction::Stay),
        _ => (s, SchedAction::Stay),
    }
}

/// The interval between cycles, converted from configured minutes.
pub fn interval_seconds(minutes: u64) -> (r: u64)
    requires
        minutes <= u64::MAX / 60,
    ensures
        r == minutes * 60,
{
    minutes * 60
}

/// Cancellation during the inter-cycle wait stops the loop at once, and a
/// stopped loop never starts another cycle: no event ever yields a
/// `RunCycle` action again, so no further provider call can follow.
pub proof fn lemma_cancel_during_wait_stops_loop()
    ensures
        spec_sched_step(SchedState::Waiting, SchedEvent::Cancelled) == (
            SchedState::Stopped,
            SchedAction::Halt,
        ),
        forall|e: SchedEvent|
            #[trigger] spec_sched_step(SchedState::Stopped, e) == (
                SchedState::Stopped,
                SchedAction::Stay,
            ),
{
}

/// Start runs a cycle immediately: there is no initial delay, and the first
/// wait happens only after that cycle has finished.
pub proof fn lemma_start_runs_immediately()
    ensures
        spec_sched_step(SchedState::Idle, SchedEvent::Start) == (
            SchedState::Running,
            SchedAction::RunCycle,
        ),
        spec_sched_step(SchedState::Running, SchedEvent::CycleFinished) == (
            SchedState::Waiting,
            SchedAction::WaitInterval,
        ),
{
}

/// Cancellation while a cycle is in flight is not observed: the state only
/// moves once the cycle finishes, and the following wait is where the
/// signal takes effect.
pub proof fn lemma_cancel_in_flight_waits_for_cycle()
    ensures
        spec_sched_step(SchedState::Running, SchedEvent::Cancelled) == (
            SchedState::Running,
            SchedAction::Stay,
        ),
{
}

} // verus!
