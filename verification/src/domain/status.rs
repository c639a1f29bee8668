//! The states that a rule runs through.
use crate::identity;
use vstd::prelude::*;

verus! {

#[derive(Clone, Copy, Debug, PartialEq, Eq, Structural, Hash)]
pub struct AttemptId(u128);

impl View for AttemptId {
    type V = u128;

    closed spec fn view(&self) -> u128 {
        self.0
    }
}

impl AttemptId {
    /// A random identifier.
    pub fn new() -> (r: Self)
        ensures
            identity::version_four(r@),
    {
        AttemptId(identity::random_uuid())
    }

    pub fn from_uuid(value: u128) -> (r: Self)
        ensures
            r@ == value,
    {
        AttemptId(value)
    }

    pub fn as_uuid(self) -> (r: u128)
        ensures
            r == self@,
    {
        self.0
    }
}

impl Default for AttemptId {
    fn default() -> (r: Self)
        ensures
            identity::version_four(r@),
    {
        AttemptId::new()
    }
}

#[derive(Clone, Copy, Debug, PartialEq, Eq, Structural)]
pub enum RuntimeState {
    Stopped,
    Starting { attempt_id: AttemptId },
    Active { attempt_id: AttemptId },
    Reconnecting { failed_attempt_id: AttemptId },
    Stopping { attempt_id: Option<AttemptId> },
    Failed { attempt_id: AttemptId },
}

#[derive(Clone, Copy, Debug, PartialEq, Eq, Structural)]
pub enum RuntimeEvent {
    StartRequested { attempt_id: AttemptId },
    ForwardingAccepted { attempt_id: AttemptId },
    AttemptFailed { attempt_id: AttemptId, retry: bool },
    ProcessExited { attempt_id: AttemptId, retry: bool },
    RetryDue { failed_attempt_id: AttemptId, next_attempt_id: AttemptId },
    StopRequested,
    CleanupComplete,
}

#[derive(Clone, Copy, Debug, PartialEq, Eq, Structural)]
pub struct Transition {
    pub from: RuntimeState,
    pub to: RuntimeState,
    pub changed: bool,
}

#[derive(Clone, Copy, Debug, PartialEq, Eq, Structural)]
pub enum TransitionError {
    Invalid { state: RuntimeState, event: RuntimeEvent },
    StaleAttempt { expected: AttemptId, actual: AttemptId },
}

#[derive(Clone, Debug, PartialEq, Eq)]
pub struct RuntimeStateMachine {
    state: RuntimeState,
}

/// `next`, if the event belongs to the current attempt.
pub open spec fn current(expected: AttemptId, actual: AttemptId, next: RuntimeState) -> Result<
    RuntimeState,
    TransitionError,
> {
    if expected == actual {
        Ok(next)
    } else {
        Err(TransitionError::StaleAttempt { expected, actual })
    }
}

/// An attempt that ended is tried again or has failed for good.
pub open spec fn after_failure(attempt_id: AttemptId, retry: bool) -> RuntimeState {
    if retry {
        RuntimeState::Reconnecting { failed_attempt_id: attempt_id }
    } else {
        RuntimeState::Failed { attempt_id }
    }
}

/// The state that `event` leads to, or why it does not.
pub open spec fn next(state: RuntimeState, event: RuntimeEvent) -> Result<
    RuntimeState,
    TransitionError,
> {
    let invalid = Err(TransitionError::Invalid { state, event });
    match event {
        RuntimeEvent::StartRequested { attempt_id } => match state {
            RuntimeState::Stopped => Ok(RuntimeState::Starting { attempt_id }),
            RuntimeState::Failed { .. } => Ok(RuntimeState::Starting { attempt_id }),
            _ => invalid,
        },
        RuntimeEvent::ForwardingAccepted { attempt_id } => match state {
            RuntimeState::Starting { attempt_id: expected } => current(
                expected,
                attempt_id,
                RuntimeState::Active { attempt_id },
            ),
            _ => invalid,
        },
        RuntimeEvent::AttemptFailed { attempt_id, retry } => match state {
            RuntimeState::Starting { attempt_id: expected } => current(
                expected,
                attempt_id,
                after_failure(attempt_id, retry),
            ),
            _ => invalid,
        },
        RuntimeEvent::ProcessExited { attempt_id, retry } => match state {
            RuntimeState::Active { attempt_id: expected } => current(
                expected,
                attempt_id,
                after_failure(attempt_id, retry),
            ),
            _ => invalid,
        },
        RuntimeEvent::RetryDue { failed_attempt_id, next_attempt_id } => match state {
            RuntimeState::Reconnecting { failed_attempt_id: expected } => current(
                expected,
                failed_attempt_id,
                RuntimeState::Starting { attempt_id: next_attempt_id },
            ),
            _ => invalid,
        },
        RuntimeEvent::StopRequested => match state {
            RuntimeState::Stopped => Ok(state),
            RuntimeState::Stopping { .. } => Ok(state),
            RuntimeState::Starting { attempt_id } => Ok(
                RuntimeState::Stopping { attempt_id: Some(attempt_id) },
            ),
            RuntimeState::Active { attempt_id } => Ok(
                RuntimeState::Stopping { attempt_id: Some(attempt_id) },
            ),
            RuntimeState::Failed { attempt_id } => Ok(
                RuntimeState::Stopping { attempt_id: Some(attempt_id) },
            ),
            RuntimeState::Reconnecting { failed_attempt_id } => Ok(
                RuntimeState::Stopping { attempt_id: Some(failed_attempt_id) },
            ),
        },
        RuntimeEvent::CleanupComplete => match state {
            RuntimeState::Stopping { .. } => Ok(RuntimeState::Stopped),
            _ => invalid,
        },
    }
}

impl View for RuntimeStateMachine {
    type V = RuntimeState;

    closed spec fn view(&self) -> RuntimeState {
        self.state
    }
}

fn ensure_attempt(expected: AttemptId, actual: AttemptId) -> (r: Result<(), TransitionError>)
    ensures
        r == (if expected == actual {
            Ok::<(), TransitionError>(())
        } else {
            Err(TransitionError::StaleAttempt { expected, actual })
        }),
{
    if expected == actual {
        Ok(())
    } else {
        Err(TransitionError::StaleAttempt { expected, actual })
    }
}

fn failed_state(attempt_id: AttemptId, retry: bool) -> (r: RuntimeState)
    ensures
        r == after_failure(attempt_id, retry),
{
    if retry {
        RuntimeState::Reconnecting { failed_attempt_id: attempt_id }
    } else {
        RuntimeState::Failed { attempt_id }
    }
}

impl RuntimeStateMachine {
    pub fn new() -> (r: Self)
        ensures
            r@ == RuntimeState::Stopped,
    {
        RuntimeStateMachine { state: RuntimeState::Stopped }
    }

    pub fn state(&self) -> (r: RuntimeState)
        ensures
            r == self@,
    {
        self.state
    }

    /// Moves to the state that `event` leads to. A refused event changes nothing.
    pub fn apply(&mut self, event: RuntimeEvent) -> (r: Result<Transition, TransitionError>)
        ensures
            match next(old(self)@, event) {
                Ok(to) => final(self)@ == to && r == Ok::<Transition, TransitionError>(
                    (Transition { from: old(self)@, to, changed: old(self)@ != to }),
                ),
                Err(error) => *final(self) == *old(self) && r == Err::<Transition, TransitionError>(
                    error,
                ),
            },
    {
        let from = self.state;
        let to = match (from, event) {
            (RuntimeState::Stopped, RuntimeEvent::StartRequested { attempt_id }) => {
                RuntimeState::Starting { attempt_id }
            },
            (RuntimeState::Failed { .. }, RuntimeEvent::StartRequested { attempt_id }) => {
                RuntimeState::Starting { attempt_id }
            },
            (
                RuntimeState::Starting { attempt_id: expected },
                RuntimeEvent::ForwardingAccepted { attempt_id },
            ) => {
                ensure_attempt(expected, attempt_id)?;
                RuntimeState::Active { attempt_id }
            },
            (
                RuntimeState::Starting { attempt_id: expected },
                RuntimeEvent::AttemptFailed { attempt_id, retry },
            ) => {
                ensure_attempt(expected, attempt_id)?;
                failed_state(attempt_id, retry)
            },
            (
                RuntimeState::Active { attempt_id: expected },
                RuntimeEvent::ProcessExited { attempt_id, retry },
            ) => {
                ensure_attempt(expected, attempt_id)?;
                failed_state(attempt_id, retry)
            },
            (
                RuntimeState::Reconnecting { failed_attempt_id: expected },
                RuntimeEvent::RetryDue { failed_attempt_id, next_attempt_id },
            ) => {
                ensure_attempt(expected, failed_attempt_id)?;
                RuntimeState::Starting { attempt_id: next_attempt_id }
            },
            (RuntimeState::Stopped, RuntimeEvent::StopRequested) => from,
            (RuntimeState::Stopping { .. }, RuntimeEvent::StopRequested) => from,
            (RuntimeState::Starting { attempt_id }, RuntimeEvent::StopRequested) => {
                RuntimeState::Stopping { attempt_id: Some(attempt_id) }
            },
            (RuntimeState::Active { attempt_id }, RuntimeEvent::StopRequested) => {
                RuntimeState::Stopping { attempt_id: Some(attempt_id) }
            },
            (RuntimeState::Failed { attempt_id }, RuntimeEvent::StopRequested) => {
                RuntimeState::Stopping { attempt_id: Some(attempt_id) }
            },
            (RuntimeState::Reconnecting { failed_attempt_id }, RuntimeEvent::StopRequested) => {
                RuntimeState::Stopping { attempt_id: Some(failed_attempt_id) }
            },
            (RuntimeState::Stopping { .. }, RuntimeEvent::CleanupComplete) => RuntimeState::Stopped,
            _ => return Err(TransitionError::Invalid { state: from, event }),
        };
        self.state = to;
        Ok(Transition { from, to, changed: from != to })
    }
}

impl Default for RuntimeStateMachine {
    fn default() -> (r: Self)
        ensures
            r@ == RuntimeState::Stopped,
    {
        RuntimeStateMachine::new()
    }
}

/// A rule can be stopped in every state, and then it is stopped or stopping.
pub proof fn stop_is_always_accepted(state: RuntimeState)
    ensures
        next(state, RuntimeEvent::StopRequested) is Ok,
        next(state, RuntimeEvent::StopRequested)->Ok_0 is Stopped || next(
            state,
            RuntimeEvent::StopRequested,
        )->Ok_0 is Stopping,
{
}

/// A second stop changes nothing.
pub proof fn stop_is_idempotent(state: RuntimeState)
    ensures
        ({
            let stopped = next(state, RuntimeEvent::StopRequested)->Ok_0;
            next(stopped, RuntimeEvent::StopRequested) == Ok::<RuntimeState, TransitionError>(
                stopped,
            )
        }),
{
}

/// A rule becomes active only when the attempt that is starting is accepted.
pub proof fn active_needs_the_starting_attempt(
    state: RuntimeState,
    event: RuntimeEvent,
    attempt_id: AttemptId,
)
    requires
        next(state, event) == Ok::<RuntimeState, TransitionError>(
            RuntimeState::Active { attempt_id },
        ),
    ensures
        state == (RuntimeState::Starting { attempt_id }),
        event == (RuntimeEvent::ForwardingAccepted { attempt_id }),
{
}

/// A success that comes in after a stop was requested is refused.
pub proof fn late_success_is_refused(state: RuntimeState, attempt_id: AttemptId)
    ensures
        next(
            next(state, RuntimeEvent::StopRequested)->Ok_0,
            RuntimeEvent::ForwardingAccepted { attempt_id },
        ) is Err,
{
}

/// An event of another attempt than the current one never changes the state.
pub proof fn stale_attempts_are_refused(
    expected: AttemptId,
    actual: AttemptId,
    other: AttemptId,
    retry: bool,
)
    requires
        expected != actual,
    ensures
        ({
            let stale = Err::<RuntimeState, TransitionError>(
                TransitionError::StaleAttempt { expected, actual },
            );
            let starting = RuntimeState::Starting { attempt_id: expected };
            let active = RuntimeState::Active { attempt_id: expected };
            let waiting = RuntimeState::Reconnecting { failed_attempt_id: expected };
            &&& next(starting, RuntimeEvent::ForwardingAccepted { attempt_id: actual }) == stale
            &&& next(starting, RuntimeEvent::AttemptFailed { attempt_id: actual, retry }) == stale
            &&& next(active, RuntimeEvent::ProcessExited { attempt_id: actual, retry }) == stale
            &&& next(
                waiting,
                RuntimeEvent::RetryDue { failed_attempt_id: actual, next_attempt_id: other },
            ) == stale
        }),
{
}

/// The states of an attempt that goes well: a start by hand from rest or from a failure, then
/// success, then a stop, then the cleanup, and the rule is at rest again.
pub proof fn a_good_attempt_comes_to_rest(attempt_id: AttemptId, before: AttemptId)
    ensures
        ({
            let starting = Ok::<RuntimeState, TransitionError>(
                RuntimeState::Starting { attempt_id },
            );
            &&& next(RuntimeState::Stopped, RuntimeEvent::StartRequested { attempt_id }) == starting
            &&& next(
                RuntimeState::Failed { attempt_id: before },
                RuntimeEvent::StartRequested { attempt_id },
            ) == starting
            &&& next(
                RuntimeState::Starting { attempt_id },
                RuntimeEvent::ForwardingAccepted { attempt_id },
            ) == Ok::<RuntimeState, TransitionError>(RuntimeState::Active { attempt_id })
            &&& next(RuntimeState::Active { attempt_id }, RuntimeEvent::StopRequested) == Ok::<
                RuntimeState,
                TransitionError,
            >(RuntimeState::Stopping { attempt_id: Some(attempt_id) })
            &&& next(
                RuntimeState::Stopping { attempt_id: Some(attempt_id) },
                RuntimeEvent::CleanupComplete,
            ) == Ok::<RuntimeState, TransitionError>(RuntimeState::Stopped)
        }),
{
}

/// An attempt that fails, and one whose process ends, waits for a retry if one is wanted and has
/// failed for good otherwise. A retry starts the next attempt.
pub proof fn a_bad_attempt_is_retried_or_failed(
    attempt_id: AttemptId,
    next_attempt_id: AttemptId,
    retry: bool,
)
    ensures
        ({
            let after = Ok::<RuntimeState, TransitionError>(
                if retry {
                    RuntimeState::Reconnecting { failed_attempt_id: attempt_id }
                } else {
                    RuntimeState::Failed { attempt_id }
                },
            );
            &&& next(
                RuntimeState::Starting { attempt_id },
                RuntimeEvent::AttemptFailed { attempt_id, retry },
            ) == after
            &&& next(
                RuntimeState::Active { attempt_id },
                RuntimeEvent::ProcessExited { attempt_id, retry },
            ) == after
            &&& next(
                RuntimeState::Reconnecting { failed_attempt_id: attempt_id },
                RuntimeEvent::RetryDue { failed_attempt_id: attempt_id, next_attempt_id },
            ) == Ok::<RuntimeState, TransitionError>(
                RuntimeState::Starting { attempt_id: next_attempt_id },
            )
        }),
{
}

/// A stop ends whatever was going on and remembers its attempt. A rule at rest has nothing to end.
pub proof fn a_stop_remembers_the_attempt(attempt_id: AttemptId, other: Option<AttemptId>)
    ensures
        ({
            let stopping = Ok::<RuntimeState, TransitionError>(
                RuntimeState::Stopping { attempt_id: Some(attempt_id) },
            );
            &&& next(RuntimeState::Starting { attempt_id }, RuntimeEvent::StopRequested) == stopping
            &&& next(RuntimeState::Failed { attempt_id }, RuntimeEvent::StopRequested) == stopping
            &&& next(
                RuntimeState::Reconnecting { failed_attempt_id: attempt_id },
                RuntimeEvent::StopRequested,
            ) == stopping
            &&& next(RuntimeState::Stopped, RuntimeEvent::StopRequested) == Ok::<
                RuntimeState,
                TransitionError,
            >(RuntimeState::Stopped)
            &&& next(RuntimeState::Stopping { attempt_id: other }, RuntimeEvent::StopRequested)
                == Ok::<RuntimeState, TransitionError>(RuntimeState::Stopping { attempt_id: other })
            &&& next(RuntimeState::Stopping { attempt_id: other }, RuntimeEvent::CleanupComplete)
                == Ok::<RuntimeState, TransitionError>(RuntimeState::Stopped)
        }),
{
}

/// Each event belongs to certain states. In any other state it is refused, and what is told is the
/// state and the event.
pub proof fn events_belong_to_states(state: RuntimeState, event: RuntimeEvent)
    ensures
        ({
            let fits = match event {
                RuntimeEvent::StartRequested { .. } => state is Stopped || state is Failed,
                RuntimeEvent::ForwardingAccepted { .. } => state is Starting,
                RuntimeEvent::AttemptFailed { .. } => state is Starting,
                RuntimeEvent::ProcessExited { .. } => state is Active,
                RuntimeEvent::RetryDue { .. } => state is Reconnecting,
                RuntimeEvent::StopRequested => true,
                RuntimeEvent::CleanupComplete => state is Stopping,
            };
            &&& !fits <==> next(state, event) == Err::<RuntimeState, TransitionError>(
                TransitionError::Invalid { state, event },
            )
            &&& fits && next(state, event) is Err ==> next(state, event)->Err_0 is StaleAttempt
        }),
{
}

/// A rule comes to rest only by a cleanup, or by a stop while it is at rest.
pub proof fn rest_needs_a_cleanup(state: RuntimeState, event: RuntimeEvent)
    requires
        next(state, event) == Ok::<RuntimeState, TransitionError>(RuntimeState::Stopped),
    ensures
        (state is Stopping && event is CleanupComplete) || (state is Stopped
            && event is StopRequested),
{
}

} // verus!
