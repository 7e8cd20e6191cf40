use moveit_ros::execution::{
    ExecutionEvent, ExecutionEventMsg, ExecutionState, ExecutionStatus, StopOutcome,
    TrajectoryExecution,
};

fn event(data: &str) -> ExecutionEventMsg {
    ExecutionEventMsg(data.to_string())
}

#[test]
fn stop_is_the_one_recognised_event() {
    assert_eq!(
        ExecutionEvent::try_from(event("stop")).unwrap(),
        ExecutionEvent::Stop
    );
}

#[test]
fn an_unknown_event_is_rejected_and_names_the_payload() {
    let err = ExecutionEvent::try_from(event("wobble"))
        .unwrap_err()
        .message()
        .clone();
    assert!(
        err.contains("'wobble'"),
        "the rejection must quote the payload, got: {err}"
    );
}

#[test]
fn an_empty_payload_is_not_stop() {
    ExecutionEvent::try_from(event("")).unwrap_err();
}

#[test]
fn stop_is_matched_exactly_not_by_prefix() {
    ExecutionEvent::try_from(event("stopped")).unwrap_err();
    ExecutionEvent::try_from(event(" stop")).unwrap_err();
    ExecutionEvent::try_from(event("STOP")).unwrap_err();
}

#[test]
fn a_stop_while_idle_is_a_defined_no_op() {
    let mut execution = TrajectoryExecution::new();
    assert_eq!(execution.stop(), StopOutcome::NothingToStop);
    assert_eq!(execution.state(), ExecutionState::Idle { last: None });
}

#[test]
fn a_stop_while_executing_preempts_and_lands_idle() {
    let mut execution = TrajectoryExecution::new();
    execution.begin();
    assert_eq!(execution.state(), ExecutionState::Executing);
    assert_eq!(execution.stop(), StopOutcome::Preempted);
    assert_eq!(
        execution.state(),
        ExecutionState::Idle {
            last: Some(ExecutionStatus::Preempted)
        }
    );
}

#[test]
fn a_second_stop_after_a_preempt_is_a_no_op_and_keeps_the_preempted_status() {
    let mut execution = TrajectoryExecution::new();
    execution.begin();
    execution.stop();
    assert_eq!(execution.stop(), StopOutcome::NothingToStop);
    assert_eq!(
        execution.state(),
        ExecutionState::Idle {
            last: Some(ExecutionStatus::Preempted)
        }
    );
}

#[test]
fn the_rejection_text_is_exact() {
    let err = ExecutionEvent::try_from(event("go")).unwrap_err();
    assert_eq!(
        err.message(),
        "unknown trajectory_execution_event type: 'go' (the only recognised event is 'stop')"
    );
}

#[test]
fn begin_after_a_preempt_executes_again_and_stops_again() {
    let mut execution = TrajectoryExecution::new();
    execution.begin();
    assert_eq!(execution.stop(), StopOutcome::Preempted);
    execution.begin();
    assert_eq!(execution.state(), ExecutionState::Executing);
    assert_eq!(execution.stop(), StopOutcome::Preempted);
    assert_eq!(ExecutionState::default(), ExecutionState::Idle { last: None });
}

#[test]
fn a_history_is_idle_with_no_status_until_a_stop_preempts() {
    let mut e = TrajectoryExecution::new();
    assert_eq!(e.stop(), StopOutcome::NothingToStop);
    assert_eq!(e.state(), ExecutionState::Idle { last: None });
    e.begin();
    e.begin();
    assert_eq!(e.state(), ExecutionState::Executing);
    assert_eq!(e.stop(), StopOutcome::Preempted);
    assert_eq!(e.stop(), StopOutcome::NothingToStop);
    assert_eq!(e.state(), ExecutionState::Idle { last: Some(ExecutionStatus::Preempted) });
    e.begin();
    assert_eq!(e.stop(), StopOutcome::Preempted);
    assert_eq!(e.state(), ExecutionState::Idle { last: Some(ExecutionStatus::Preempted) });
}
