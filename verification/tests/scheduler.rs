use cloudflare_ddns::scheduler::{interval_seconds, sched_step, SchedAction, SchedEvent, SchedState};

#[test]
fn start_runs_a_cycle_immediately() {
    assert_eq!(
        sched_step(SchedState::Idle, SchedEvent::Start),
        (SchedState::Running, SchedAction::RunCycle)
    );
}

#[test]
fn finished_cycle_waits_then_runs_again() {
    let (s, a) = sched_step(SchedState::Running, SchedEvent::CycleFinished);
    assert_eq!((s, a), (SchedState::Waiting, SchedAction::WaitInterval));
    assert_eq!(
        sched_step(s, SchedEvent::IntervalElapsed),
        (SchedState::Running, SchedAction::RunCycle)
    );
}

#[test]
fn cancellation_during_wait_stops_before_any_further_cycle() {
    // Cancellation arriving while the loop waits between cycles halts it,
    // and no later event ever yields another cycle.
    let (s, a) = sched_step(SchedState::Waiting, SchedEvent::Cancelled);
    assert_eq!((s, a), (SchedState::Stopped, SchedAction::Halt));
    for e in [
        SchedEvent::Start,
        SchedEvent::CycleFinished,
        SchedEvent::IntervalElapsed,
        SchedEvent::Cancelled,
    ] {
        assert_eq!(sched_step(SchedState::Stopped, e), (SchedState::Stopped, SchedAction::Stay));
    }
}

#[test]
fn cancellation_while_running_is_deferred() {
    assert_eq!(
        sched_step(SchedState::Running, SchedEvent::Cancelled),
        (SchedState::Running, SchedAction::Stay)
    );
}

#[test]
fn interval_is_minutes_times_sixty() {
    assert_eq!(interval_seconds(300), 18000);
    assert_eq!(interval_seconds(1), 60);
}
