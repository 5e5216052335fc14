use rbackup::state::{RunSignal, RunState};

const STATES: [RunState; 5] =
    [RunState::Planning, RunState::Executing, RunState::Draining, RunState::Completed, RunState::Fatal];
const SIGNALS: [RunSignal; 7] = [
    RunSignal::Planned,
    RunSignal::PatternRejected,
    RunSignal::WorkersDone,
    RunSignal::RunFailed,
    RunSignal::FileFailed,
    RunSignal::SinkUnavailable,
    RunSignal::SinksDrained,
];

#[test]
fn a_run_goes_through_its_stages() {
    let s = RunState::new();
    assert_eq!(s, RunState::Planning);
    let s = s.next(RunSignal::Planned);
    assert_eq!(s, RunState::Executing);
    let s = s.next(RunSignal::FileFailed).next(RunSignal::SinkUnavailable);
    assert_eq!(s, RunState::Executing);
    let s = s.next(RunSignal::WorkersDone);
    assert_eq!(s, RunState::Draining);
    let s = s.next(RunSignal::SinksDrained);
    assert_eq!(s, RunState::Completed);
    assert!(s.is_final());
    assert!(s.flushes_log());
}

#[test]
fn a_refused_pattern_is_fatal_while_planning() {
    assert_eq!(RunState::Planning.next(RunSignal::PatternRejected), RunState::Fatal);
    assert_eq!(RunState::Executing.next(RunSignal::PatternRejected), RunState::Executing);
}

#[test]
fn a_failure_of_the_run_is_fatal_while_planning_and_executing() {
    assert_eq!(RunState::Planning.next(RunSignal::RunFailed), RunState::Fatal);
    assert_eq!(RunState::Executing.next(RunSignal::RunFailed), RunState::Fatal);
    assert_eq!(RunState::Draining.next(RunSignal::RunFailed), RunState::Draining);
    assert!(RunState::Fatal.flushes_log());
    assert!(RunState::Fatal.is_final());
}

#[test]
fn fatal_is_reached_from_planning_and_executing_only() {
    for state in STATES {
        for signal in SIGNALS {
            if state.next(signal) == RunState::Fatal {
                assert!(matches!(state, RunState::Planning | RunState::Executing | RunState::Fatal));
            }
        }
    }
}

#[test]
fn final_stages_stay() {
    for signal in SIGNALS {
        assert_eq!(RunState::Completed.next(signal), RunState::Completed);
        assert_eq!(RunState::Fatal.next(signal), RunState::Fatal);
    }
}

#[test]
fn the_log_is_not_flushed_while_the_run_goes_on() {
    for state in [RunState::Planning, RunState::Executing, RunState::Draining] {
        assert!(!state.flushes_log());
        assert!(!state.is_final());
    }
}
