//! The `trajectory_execution_event` topic and the execution state its one
//! recognised event transitions.
//!
//! The wire vocabulary is closed: a `std_msgs/String` whose payload is
//! exactly `"stop"` asks for the running execution to be preempted, and any
//! other payload is rejected with an error that quotes it.
//!
//! The state is a single value rather than a "complete" flag beside a
//! separate last-status field, so "was this preempted" cannot be answered
//! two ways. [`TrajectoryExecution::stop`] is the only transition out of
//! [`ExecutionState::Executing`].

use vstd::prelude::*;
use vstd::string::StringExecFns;

use crate::error::Error;
use crate::text::chars_of;

verus! {

/// The one event the execution manager recognises.
#[derive(Debug, Clone, Copy, PartialEq, Eq, Structural)]
pub enum ExecutionEvent {
    /// The payload `"stop"`: preempt whatever is executing.
    Stop,
}

/// The payload of one `trajectory_execution_event` message (its `data`
/// field).
#[derive(Debug, Clone, PartialEq, Eq)]
pub struct ExecutionEventMsg(pub String);

/// The last execution status this node can reach.
///
/// Only `Preempted` is reachable: it is the one status
/// [`TrajectoryExecution::stop`] writes.
#[derive(Debug, Clone, Copy, PartialEq, Eq, Structural)]
pub enum ExecutionStatus {
    /// A running execution was stopped.
    Preempted,
}

/// "Is anything executing" and "what happened last" as one value.
#[derive(Debug, Clone, Copy, PartialEq, Eq, Structural)]
pub enum ExecutionState {
    /// Nothing is executing. `last` is `None` until something has executed
    /// and `Some` from then on.
    Idle {
        /// The status of the most recent execution, if any.
        last: Option<ExecutionStatus>,
    },
    /// A trajectory is executing.
    Executing,
}

/// What [`TrajectoryExecution::stop`] actually did.
#[derive(Debug, Clone, Copy, PartialEq, Eq, Structural)]
pub enum StopOutcome {
    /// Execution was in flight and is now preempted.
    Preempted,
    /// Nothing was executing; the stop was a defined no-op.
    NothingToStop,
}

/// The payload that names [`ExecutionEvent::Stop`].
pub open spec fn is_stop_payload(payload: Seq<char>) -> bool {
    payload == seq!['s', 't', 'o', 'p']
}

/// The rejection text for an unrecognised payload: it quotes the payload.
pub open spec fn unknown_event_message(payload: Seq<char>) -> Seq<char> {
    "unknown trajectory_execution_event type: '"@ + payload + "' (the only recognised event is 'stop')"@
}

impl ExecutionEvent {
    /// Decodes one event payload.
    ///
    /// Matching is exact: no prefix, no case folding, no trimming.
    pub fn try_from(msg: ExecutionEventMsg) -> (res: Result<ExecutionEvent, Error>)
        ensures
            is_stop_payload(msg.0@) ==> res == Ok::<ExecutionEvent, Error>(ExecutionEvent::Stop),
            !is_stop_payload(msg.0@) ==> (res matches Err(Error::Other(m))
                && m@ == unknown_event_message(msg.0@)),
    {
        let chars = chars_of(msg.0.as_str());
        if chars.len() == 4 && chars[0] == 's' && chars[1] == 't' && chars[2] == 'o' && chars[3]
            == 'p' {
            assert(chars@ =~= seq!['s', 't', 'o', 'p']);
            return Ok(ExecutionEvent::Stop);
        }
        let mut m = String::from_str("unknown trajectory_execution_event type: '");
        m.append(msg.0.as_str());
        m.append("' (the only recognised event is 'stop')");
        Err(Error::Other(m))
    }
}

/// The state before anything has executed.
pub open spec fn initial_state() -> ExecutionState {
    ExecutionState::Idle { last: None }
}

/// What a stop does to `state`, and what it reports.
pub open spec fn spec_stop(state: ExecutionState) -> (ExecutionState, StopOutcome) {
    match state {
        ExecutionState::Executing => (
            ExecutionState::Idle { last: Some(ExecutionStatus::Preempted) },
            StopOutcome::Preempted,
        ),
        ExecutionState::Idle { .. } => (state, StopOutcome::NothingToStop),
    }
}

impl ExecutionState {
    /// Nothing has executed yet.
    pub fn default() -> (s: ExecutionState)
        ensures
            s == initial_state(),
    {
        ExecutionState::Idle { last: None }
    }
}

/// The execution state a node keeps, and the only thing allowed to change
/// it.
#[derive(Debug)]
pub struct TrajectoryExecution {
    state: ExecutionState,
}

impl View for TrajectoryExecution {
    type V = ExecutionState;

    closed spec fn view(&self) -> ExecutionState {
        self.state
    }
}

impl TrajectoryExecution {
    /// Nothing has executed yet.
    pub fn new() -> (e: TrajectoryExecution)
        ensures
            e@ == initial_state(),
    {
        TrajectoryExecution { state: ExecutionState::default() }
    }

    /// The current state.
    pub fn state(&self) -> (s: ExecutionState)
        ensures
            s == self@,
    {
        self.state
    }

    /// Enter [`ExecutionState::Executing`]; the only producer of that state.
    pub fn begin(&mut self)
        ensures
            final(self)@ == ExecutionState::Executing,
    {
        self.state = ExecutionState::Executing;
    }

    /// Stop whatever is executing.
    ///
    /// From `Executing` this lands on `Idle` with a `Preempted` status and
    /// reports `Preempted`; from `Idle` it changes nothing and reports
    /// `NothingToStop`.
    pub fn stop(&mut self) -> (outcome: StopOutcome)
        ensures
            (final(self)@, outcome) == spec_stop(old(self)@),
    {
        match self.state {
            ExecutionState::Executing => {
                self.state = ExecutionState::Idle { last: Some(ExecutionStatus::Preempted) };
                StopOutcome::Preempted
            },
            ExecutionState::Idle { .. } => StopOutcome::NothingToStop,
        }
    }
}

/// After any stop nothing is executing, and a second stop is a no-op that
/// keeps whatever status the first one left.
pub proof fn stop_lands_idle_and_is_idempotent(state: ExecutionState)
    ensures
        spec_stop(state).0 is Idle,
        spec_stop(spec_stop(state).0).0 == spec_stop(state).0,
        spec_stop(spec_stop(state).0).1 == StopOutcome::NothingToStop,
{
}

/// A stop reports `Preempted` exactly when something was executing, and
/// only then records a `Preempted` status.
pub proof fn stop_preempts_only_an_execution(state: ExecutionState)
    ensures
        (spec_stop(state).1 == StopOutcome::Preempted) <==> (state is Executing),
        state is Idle ==> spec_stop(state).0 == state,
{
}

/// Begin followed by stop always preempts, whatever the state was before.
pub proof fn begin_then_stop_preempts(state: ExecutionState)
    ensures
        spec_stop(ExecutionState::Executing) == (
            ExecutionState::Idle { last: Some(ExecutionStatus::Preempted) },
            StopOutcome::Preempted,
        ),
{
}

/// One call made on a [`TrajectoryExecution`].
#[derive(Debug, Clone, Copy, PartialEq, Eq, Structural)]
pub enum ExecutionCall {
    /// [`TrajectoryExecution::begin`].
    Begin,
    /// [`TrajectoryExecution::stop`].
    Stop,
}

/// The state after `calls`, made in order on the value
/// [`TrajectoryExecution::new`] gives.
pub open spec fn state_after(calls: Seq<ExecutionCall>) -> ExecutionState
    decreases calls.len(),
{
    if calls.len() == 0 {
        initial_state()
    } else {
        match calls.last() {
            ExecutionCall::Begin => ExecutionState::Executing,
            ExecutionCall::Stop => spec_stop(state_after(calls.drop_last())).0,
        }
    }
}

/// Some stop among `calls` reported `Preempted`.
pub open spec fn some_stop_preempted(calls: Seq<ExecutionCall>) -> bool {
    exists|i: int|
        0 <= i < calls.len() && calls[i] == ExecutionCall::Stop && #[trigger] spec_stop(
            state_after(calls.take(i)),
        ).1 == StopOutcome::Preempted
}

/// Over any history of begins and stops on a fresh value: something is
/// executing exactly when the last call was a begin; otherwise the state
/// is "idle, nothing yet" exactly when no stop ever preempted, and "idle,
/// last preempted" when one did.
pub proof fn history_of_begins_and_stops(calls: Seq<ExecutionCall>)
    ensures
        (state_after(calls) is Executing) == (calls.len() > 0 && calls.last() == ExecutionCall::Begin),
        !(state_after(calls) is Executing) ==> ((state_after(calls) == initial_state())
            == !some_stop_preempted(calls)),
        !(state_after(calls) is Executing) && some_stop_preempted(calls) ==> state_after(calls)
            == (ExecutionState::Idle { last: Some(ExecutionStatus::Preempted) }),
    decreases calls.len(),
{
    if calls.len() > 0 {
        let prefix = calls.drop_last();
        let n = prefix.len() as int;
        history_of_begins_and_stops(prefix);
        assert forall|i: int| 0 <= i < n implies #[trigger] calls.take(i) == prefix.take(i) && calls[i]
            == prefix[i] by {
            assert(calls.take(i) =~= prefix.take(i));
        }
        assert(calls.take(n) =~= prefix);
        if some_stop_preempted(prefix) {
            let i = choose|i: int|
                0 <= i < prefix.len() && prefix[i] == ExecutionCall::Stop && #[trigger] spec_stop(
                    state_after(prefix.take(i)),
                ).1 == StopOutcome::Preempted;
            assert(calls.take(i) == prefix.take(i));
            assert(spec_stop(state_after(calls.take(i))).1 == StopOutcome::Preempted);
        }
        if some_stop_preempted(calls) {
            let i = choose|i: int|
                0 <= i < calls.len() && calls[i] == ExecutionCall::Stop && #[trigger] spec_stop(
                    state_after(calls.take(i)),
                ).1 == StopOutcome::Preempted;
            if i < n {
                assert(calls.take(i) == prefix.take(i));
                assert(spec_stop(state_after(prefix.take(i))).1 == StopOutcome::Preempted);
            } else {
                assert(state_after(calls.take(n)) == state_after(prefix));
            }
        }
        if calls.last() == ExecutionCall::Stop && state_after(prefix) is Executing {
            assert(spec_stop(state_after(calls.take(n))).1 == StopOutcome::Preempted);
        }
    }
}

} // verus!
