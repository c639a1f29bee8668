//! What the daemon remembers of a rule in order to bring it up again. Times are in milliseconds.
use crate::daemon::process;
use crate::daemon::process::{read_failure, DiagnosticKind, ProcessError};
use crate::daemon::reconnect;
use crate::daemon::reconnect::{full_jitter, MAX_DELAY, RESET_AFTER};
use crate::domain::status;
use crate::domain::status::{
    AttemptId, RuntimeEvent, RuntimeState, RuntimeStateMachine, TransitionError,
};
use crate::ipc::RunState;
use vstd::prelude::*;
use vstd::string::*;

verus! {

/// A rule's state, its failures in a row, how often it was brought up again, and when the next
/// attempt is due.
#[derive(Debug)]
pub struct Recovery {
    machine: RuntimeStateMachine,
    failures: u32,
    reconnects: u64,
    active_since: Option<u64>,
    retry_at: Option<u64>,
    diagnostic: Option<DiagnosticKind>,
}

/// What a `Recovery` says.
#[verifier::ext_equal]
pub struct RecoveryModel {
    pub state: RuntimeState,
    pub failures: u32,
    pub reconnects: u64,
    pub active_since: Option<u64>,
    pub retry_at: Option<u64>,
    pub diagnostic: Option<DiagnosticKind>,
}

impl View for Recovery {
    type V = RecoveryModel;

    closed spec fn view(&self) -> RecoveryModel {
        RecoveryModel {
            state: self.machine@,
            failures: self.failures,
            reconnects: self.reconnects,
            active_since: self.active_since,
            retry_at: self.retry_at,
            diagnostic: self.diagnostic,
        }
    }
}

/// What the status tells of a rule besides its state. The last error is the name of a kind of
/// failure.
#[derive(Clone, Copy, Debug, PartialEq, Eq)]
pub struct RuntimeInfo {
    pub uptime_seconds: u64,
    pub reconnect_count: u64,
    pub last_error: Option<&'static str>,
}

// ---------------------------------------------------------------------------
// What events do
// ---------------------------------------------------------------------------
pub open spec fn at_rest() -> RecoveryModel {
    RecoveryModel {
        state: RuntimeState::Stopped,
        failures: 0,
        reconnects: 0,
        active_since: None,
        retry_at: None,
        diagnostic: None,
    }
}

/// `a + b`, or the largest number.
pub open spec fn saturated(a: int, b: int) -> u64 {
    if a + b > u64::MAX {
        u64::MAX
    } else {
        (a + b) as u64
    }
}

pub open spec fn one_more(n: u32) -> u32 {
    if n == u32::MAX {
        n
    } else {
        (n + 1) as u32
    }
}

/// The event that begins an attempt: a retry where one is pending.
pub open spec fn start_event(state: RuntimeState, attempt_id: AttemptId) -> RuntimeEvent {
    match state {
        RuntimeState::Reconnecting { failed_attempt_id } => RuntimeEvent::RetryDue {
            failed_attempt_id,
            next_attempt_id: attempt_id,
        },
        _ => RuntimeEvent::StartRequested { attempt_id },
    }
}

/// The rule is on an attempt. A retry counts as a reconnection; a start by hand begins a new
/// series of failures.
pub open spec fn begun(m: RecoveryModel, to: RuntimeState) -> RecoveryModel {
    RecoveryModel {
        state: to,
        failures: if m.state is Reconnecting {
            m.failures
        } else {
            0
        },
        reconnects: if m.state is Reconnecting {
            saturated(m.reconnects as int, 1)
        } else {
            m.reconnects
        },
        active_since: None,
        retry_at: None,
        ..m
    }
}

/// The rule has ended after `failures` failures in a row.
pub open spec fn ended(
    m: RecoveryModel,
    to: RuntimeState,
    failures: u32,
    kind: DiagnosticKind,
    entropy: u64,
    now: u64,
) -> RecoveryModel {
    RecoveryModel {
        state: to,
        failures: if to is Reconnecting {
            one_more(failures)
        } else {
            failures
        },
        active_since: None,
        retry_at: if to is Reconnecting {
            Some(
                saturated(
                    now as int,
                    (entropy as nat % (reconnect::delay_cap(failures) + 1)) as int,
                ),
            )
        } else {
            None
        },
        diagnostic: Some(kind),
        ..m
    }
}

/// The failures that still count when a rule ends: none, if it was up for long enough.
pub open spec fn failures_that_count(m: RecoveryModel, now: u64) -> u32 {
    match m.active_since {
        Some(since) => if now - since >= RESET_AFTER {
            0
        } else {
            m.failures
        },
        None => m.failures,
    }
}

/// What `event` makes of `m`, if `m` admits it, and `m` otherwise.
pub open spec fn settled(
    m: RecoveryModel,
    event: RuntimeEvent,
    changed: RecoveryModel,
) -> RecoveryModel {
    if status::next(m.state, event) is Ok {
        changed
    } else {
        m
    }
}

/// The outcome of `event`.
pub open spec fn outcome(m: RecoveryModel, event: RuntimeEvent) -> Result<(), TransitionError> {
    match status::next(m.state, event) {
        Ok(_) => Ok(()),
        Err(error) => Err(error),
    }
}

pub open spec fn target(m: RecoveryModel, event: RuntimeEvent) -> RuntimeState {
    status::next(m.state, event)->Ok_0
}

pub open spec fn after_begin(m: RecoveryModel, attempt_id: AttemptId) -> RecoveryModel {
    let event = start_event(m.state, attempt_id);
    settled(m, event, begun(m, target(m, event)))
}

pub open spec fn after_acceptance(
    m: RecoveryModel,
    attempt_id: AttemptId,
    now: u64,
) -> RecoveryModel {
    let event = RuntimeEvent::ForwardingAccepted { attempt_id };
    settled(
        m,
        event,
        RecoveryModel { state: target(m, event), active_since: Some(now), ..m },
    )
}

/// A startup that failed is retried if the rule asks for it and the failure is worth it.
pub open spec fn startup_event(
    attempt_id: AttemptId,
    reconnect: bool,
    failure: process::ProcessFailure,
) -> RuntimeEvent {
    RuntimeEvent::AttemptFailed {
        attempt_id,
        retry: reconnect && process::is_transient(failure),
    }
}

pub open spec fn after_startup_failure(
    m: RecoveryModel,
    attempt_id: AttemptId,
    reconnect: bool,
    failure: process::ProcessFailure,
    entropy: u64,
    now: u64,
) -> RecoveryModel {
    let event = startup_event(attempt_id, reconnect, failure);
    settled(
        m,
        event,
        ended(m, target(m, event), m.failures, process::failure_kind(failure), entropy, now),
    )
}

/// A rule that ends while it is up is retried if it asks for it. Why it ended is not known.
pub open spec fn after_exit(
    m: RecoveryModel,
    attempt_id: AttemptId,
    reconnect: bool,
    entropy: u64,
    now: u64,
) -> RecoveryModel {
    let event = RuntimeEvent::ProcessExited { attempt_id, retry: reconnect };
    settled(
        m,
        event,
        ended(
            m,
            target(m, event),
            failures_that_count(m, now),
            DiagnosticKind::Unknown,
            entropy,
            now,
        ),
    )
}

pub open spec fn after_stop(m: RecoveryModel) -> RecoveryModel {
    RecoveryModel {
        state: target(m, RuntimeEvent::StopRequested),
        active_since: None,
        retry_at: None,
        ..m
    }
}

pub open spec fn after_cleanup(m: RecoveryModel) -> RecoveryModel {
    let event = RuntimeEvent::CleanupComplete;
    settled(m, event, RecoveryModel { state: target(m, event), ..m })
}

/// A retry is pending and its time has come.
pub open spec fn due(m: RecoveryModel, now: u64) -> bool {
    m.state is Reconnecting && (m.retry_at matches Some(at) && at <= now)
}

pub open spec fn uptime(m: RecoveryModel, now: u64) -> u64 {
    match m.active_since {
        Some(since) => if now >= since {
            ((now - since) / 1000) as u64
        } else {
            0
        },
        None => 0,
    }
}

fn plus(a: u64, b: u64) -> (r: u64)
    ensures
        r == saturated(a as int, b as int),
{
    if a > u64::MAX - b {
        u64::MAX
    } else {
        a + b
    }
}

impl Recovery {
    pub fn new() -> (r: Self)
        ensures
            r@ == at_rest(),
    {
        Recovery {
            machine: RuntimeStateMachine::new(),
            failures: 0,
            reconnects: 0,
            active_since: None,
            retry_at: None,
            diagnostic: None,
        }
    }

    pub fn state(&self) -> (r: RuntimeState)
        ensures
            r == self@.state,
    {
        self.machine.state()
    }

    /// An attempt begins, by hand or because a retry is due.
    pub fn begin(&mut self, attempt_id: AttemptId) -> (r: Result<(), TransitionError>)
        ensures
            final(self)@ == after_begin(old(self)@, attempt_id),
            r == outcome(old(self)@, start_event(old(self)@.state, attempt_id)),
    {
        let (event, again) = match self.machine.state() {
            RuntimeState::Reconnecting { failed_attempt_id } => (
                RuntimeEvent::RetryDue { failed_attempt_id, next_attempt_id: attempt_id },
                true,
            ),
            _ => (RuntimeEvent::StartRequested { attempt_id }, false),
        };
        match self.machine.apply(event) {
            Ok(_) => {
                if again {
                    self.reconnects = plus(self.reconnects, 1);
                } else {
                    self.failures = 0;
                }
                self.active_since = None;
                self.retry_at = None;
                Ok(())
            },
            Err(error) => Err(error),
        }
    }

    /// The forwarding of an attempt was accepted.
    pub fn accepted(&mut self, attempt_id: AttemptId, now: u64) -> (r: Result<(), TransitionError>)
        ensures
            final(self)@ == after_acceptance(old(self)@, attempt_id, now),
            r == outcome(old(self)@, RuntimeEvent::ForwardingAccepted { attempt_id }),
    {
        match self.machine.apply(RuntimeEvent::ForwardingAccepted { attempt_id }) {
            Ok(_) => {
                self.active_since = Some(now);
                Ok(())
            },
            Err(error) => Err(error),
        }
    }

    fn end(&mut self, to: RuntimeState, failures: u32, kind: DiagnosticKind, entropy: u64, now: u64)
        requires
            old(self)@.state == to,
        ensures
            final(self)@ == ended(old(self)@, to, failures, kind, entropy, now),
    {
        self.active_since = None;
        self.diagnostic = Some(kind);
        match to {
            RuntimeState::Reconnecting { .. } => {
                self.retry_at = Some(plus(now, full_jitter(failures, entropy)));
                self.failures = if failures == u32::MAX {
                    failures
                } else {
                    failures + 1
                };
            },
            _ => {
                self.retry_at = None;
                self.failures = failures;
            },
        }
    }

    /// An attempt did not come up.
    pub fn startup_failed(
        &mut self,
        attempt_id: AttemptId,
        reconnect: bool,
        error: &ProcessError,
        entropy: u64,
        now: u64,
    ) -> (r: Result<(), TransitionError>)
        ensures
            final(self)@ == after_startup_failure(
                old(self)@,
                attempt_id,
                reconnect,
                error@,
                entropy,
                now,
            ),
            r == outcome(old(self)@, startup_event(attempt_id, reconnect, error@)),
    {
        let (kind, worth) = read_failure(error);
        let event = RuntimeEvent::AttemptFailed { attempt_id, retry: reconnect && worth };
        let failures: u32 = self.failures;
        match self.machine.apply(event) {
            Ok(transition) => {
                self.end(transition.to, failures, kind, entropy, now);
                Ok(())
            },
            Err(error) => Err(error),
        }
    }

    /// The process of an attempt that was up has ended on its own.
    pub fn exited(&mut self, attempt_id: AttemptId, reconnect: bool, entropy: u64, now: u64) -> (r:
        Result<(), TransitionError>)
        ensures
            final(self)@ == after_exit(old(self)@, attempt_id, reconnect, entropy, now),
            r == outcome(
                old(self)@,
                RuntimeEvent::ProcessExited { attempt_id, retry: reconnect },
            ),
    {
        let failures: u32 = match self.active_since {
            Some(since) => if now >= since && now - since >= RESET_AFTER {
                0
            } else {
                self.failures
            },
            None => self.failures,
        };
        match self.machine.apply(RuntimeEvent::ProcessExited { attempt_id, retry: reconnect }) {
            Ok(transition) => {
                self.end(transition.to, failures, DiagnosticKind::Unknown, entropy, now);
                Ok(())
            },
            Err(error) => Err(error),
        }
    }

    /// The rule is to stop, whatever it is doing. A retry that was pending is given up.
    pub fn stop(&mut self)
        ensures
            final(self)@ == after_stop(old(self)@),
    {
        let _ = self.machine.apply(RuntimeEvent::StopRequested);
        self.active_since = None;
        self.retry_at = None;
    }

    /// What the rule was doing when it was stopped has come to its end.
    pub fn cleaned_up(&mut self) -> (r: Result<(), TransitionError>)
        ensures
            final(self)@ == after_cleanup(old(self)@),
            r == outcome(old(self)@, RuntimeEvent::CleanupComplete),
    {
        match self.machine.apply(RuntimeEvent::CleanupComplete) {
            Ok(_) => Ok(()),
            Err(error) => Err(error),
        }
    }

    /// Whether a retry has to begin now.
    pub fn is_due(&self, now: u64) -> (r: bool)
        ensures
            r == due(self@, now),
    {
        match self.machine.state() {
            RuntimeState::Reconnecting { .. } => match self.retry_at {
                Some(at) => at <= now,
                None => false,
            },
            _ => false,
        }
    }

    /// What the status tells of the rule.
    pub fn info(&self, now: u64) -> (r: RuntimeInfo)
        ensures
            r.uptime_seconds == uptime(self@, now),
            r.reconnect_count == self@.reconnects,
            match self@.diagnostic {
                Some(kind) => r.last_error matches Some(name) && name@ == kind.shown(),
                None => r.last_error is None,
            },
    {
        let uptime_seconds: u64 = match self.active_since {
            Some(since) => if now >= since {
                (now - since) / 1000
            } else {
                0
            },
            None => 0,
        };
        let last_error = match self.diagnostic {
            Some(kind) => Some(kind.as_str()),
            None => None,
        };
        RuntimeInfo { uptime_seconds, reconnect_count: self.reconnects, last_error }
    }

    /// A rule without an attempt whose retry is pending is reconnecting.
    pub fn shown(&self, run: RunState) -> (r: RunState)
        ensures
            r == (if run == RunState::Stopped && self@.state is Reconnecting {
                RunState::Reconnecting
            } else {
                run
            }),
    {
        match self.machine.state() {
            RuntimeState::Reconnecting { .. } => if run == RunState::Stopped {
                RunState::Reconnecting
            } else {
                run
            },
            _ => run,
        }
    }
}

// ---------------------------------------------------------------------------
// Laws
// ---------------------------------------------------------------------------
/// Stopping a rule gives up a pending retry at once: none becomes due, and no event of a retry
/// or of an earlier attempt brings the rule up again.
pub proof fn stop_cancels_a_retry(
    m: RecoveryModel,
    now: u64,
    failed_attempt_id: AttemptId,
    next_attempt_id: AttemptId,
)
    ensures
        !due(after_stop(m), now),
        !due(after_cleanup(after_stop(m)), now),
        status::next(
            after_stop(m).state,
            RuntimeEvent::RetryDue { failed_attempt_id, next_attempt_id },
        ) is Err,
        after_acceptance(after_stop(m), failed_attempt_id, now) == after_stop(m),
        status::next(
            after_cleanup(after_stop(m)).state,
            RuntimeEvent::RetryDue { failed_attempt_id, next_attempt_id },
        ) is Err,
        after_cleanup(after_stop(m)).state == RuntimeState::Stopped,
{
}

/// Nothing is retried that the rule does not want retried, nor a startup failure that needs the
/// user.
pub proof fn retries_are_opted_in(
    m: RecoveryModel,
    attempt_id: AttemptId,
    reconnect: bool,
    failure: process::ProcessFailure,
    entropy: u64,
    now: u64,
    later: u64,
)
    requires
        !(m.state is Reconnecting),
    ensures
        !reconnect || !process::is_transient(failure) ==> !due(
            after_startup_failure(m, attempt_id, reconnect, failure, entropy, now),
            later,
        ),
        !reconnect ==> !due(after_exit(m, attempt_id, reconnect, entropy, now), later),
{
}

/// A retry waits for at most the cap of its number, and never more than a minute.
pub proof fn retries_come_in_time(
    m: RecoveryModel,
    attempt_id: AttemptId,
    failure: process::ProcessFailure,
    entropy: u64,
    now: u64,
)
    requires
        m.state == (RuntimeState::Starting { attempt_id }),
        process::is_transient(failure),
        now + MAX_DELAY <= u64::MAX,
    ensures
        ({
            let after = after_startup_failure(m, attempt_id, true, failure, entropy, now);
            &&& after.state is Reconnecting
            &&& after.retry_at matches Some(at) && now <= at <= now + reconnect::delay_cap(
                m.failures,
            ) && at <= now + MAX_DELAY
            &&& after.failures == one_more(m.failures)
        }),
{
    reconnect::cap_is_the_documented_one(m.failures);
    let n = (reconnect::delay_cap(m.failures) + 1) as int;
    vstd::arithmetic::div_mod::lemma_mod_bound(entropy as int, n);
}

/// A rule that was up for a minute and ends is retried as if it had never failed.
pub proof fn a_minute_up_resets_the_delay(
    m: RecoveryModel,
    attempt_id: AttemptId,
    entropy: u64,
    now: u64,
)
    requires
        m.state == (RuntimeState::Active { attempt_id }),
        m.active_since matches Some(since) && now - since >= RESET_AFTER,
        now + MAX_DELAY <= u64::MAX,
    ensures
        ({
            let after = after_exit(m, attempt_id, true, entropy, now);
            &&& after.failures == 1
            &&& after.retry_at matches Some(at) && now <= at <= now + reconnect::delay_cap(0)
        }),
{
    reconnect::cap_is_the_documented_one(0);
    let n = (reconnect::delay_cap(0) + 1) as int;
    vstd::arithmetic::div_mod::lemma_mod_bound(entropy as int, n);
}

/// A new rule is at rest: it never failed, never reconnected and has nothing pending.
pub proof fn rules_begin_at_rest()
    ensures
        at_rest().state == RuntimeState::Stopped,
        at_rest().failures == 0,
        at_rest().reconnects == 0,
        at_rest().active_since is None,
        at_rest().retry_at is None,
        at_rest().diagnostic is None,
{
}

/// A start by hand forgets the failures so far and counts no reconnection. A retry keeps the
/// failures and counts one. Either way the rule is on the new attempt with nothing pending.
pub proof fn only_retries_count_as_reconnections(m: RecoveryModel, attempt_id: AttemptId)
    requires
        m.state is Stopped || m.state is Failed || m.state is Reconnecting,
    ensures
        ({
            let after = after_begin(m, attempt_id);
            &&& after.state == (RuntimeState::Starting { attempt_id })
            &&& after.active_since is None
            &&& after.retry_at is None
            &&& after.diagnostic == m.diagnostic
            &&& m.state is Reconnecting ==> after.failures == m.failures && (m.reconnects
                < u64::MAX ==> after.reconnects == m.reconnects + 1)
            &&& !(m.state is Reconnecting) ==> after.failures == 0 && after.reconnects
                == m.reconnects
        }),
        outcome(m, start_event(m.state, attempt_id)) is Ok,
{
}

/// An attempt that is accepted is up from then on, and what failed before is remembered until it
/// was up long enough.
pub proof fn an_accepted_attempt_is_up(m: RecoveryModel, attempt_id: AttemptId, now: u64, later: u64)
    requires
        m.state == (RuntimeState::Starting { attempt_id }),
        now <= later,
    ensures
        ({
            let after = after_acceptance(m, attempt_id, now);
            &&& after.state == (RuntimeState::Active { attempt_id })
            &&& after.active_since == Some(now)
            &&& after.failures == m.failures
            &&& after.reconnects == m.reconnects
            &&& after.diagnostic == m.diagnostic
            &&& uptime(after, later) == (later - now) / 1000
            &&& uptime(after, now) == 0
        }),
{
}

/// A failed startup is remembered by its kind. It is pending again only if the rule asks for it and
/// the failure is one that passes; otherwise it has failed for good.
pub proof fn failed_startups_are_remembered(
    m: RecoveryModel,
    attempt_id: AttemptId,
    reconnect: bool,
    failure: process::ProcessFailure,
    entropy: u64,
    now: u64,
)
    requires
        m.state == (RuntimeState::Starting { attempt_id }),
    ensures
        ({
            let after = after_startup_failure(m, attempt_id, reconnect, failure, entropy, now);
            let again = reconnect && process::is_transient(failure);
            &&& after.diagnostic == Some(process::failure_kind(failure))
            &&& after.active_since is None
            &&& after.reconnects == m.reconnects
            &&& again ==> after.state == (RuntimeState::Reconnecting {
                failed_attempt_id: attempt_id,
            }) && after.retry_at is Some
            &&& !again ==> after.state == (RuntimeState::Failed { attempt_id })
                && after.retry_at is None && after.failures == m.failures
        }),
{
}

/// A rule whose process ends is pending again if it asks for it. Why the process ended is not
/// known. Before a minute is over the failures so far still count.
pub proof fn ended_processes_are_remembered(
    m: RecoveryModel,
    attempt_id: AttemptId,
    reconnect: bool,
    entropy: u64,
    now: u64,
)
    requires
        m.state == (RuntimeState::Active { attempt_id }),
        m.failures < u32::MAX,
    ensures
        ({
            let after = after_exit(m, attempt_id, reconnect, entropy, now);
            let short = m.active_since is None || now - m.active_since->0 < 60_000;
            &&& after.diagnostic == Some(DiagnosticKind::Unknown)
            &&& after.active_since is None
            &&& reconnect ==> after.state == (RuntimeState::Reconnecting {
                failed_attempt_id: attempt_id,
            }) && after.retry_at is Some && after.failures == (if short {
                m.failures + 1
            } else {
                1
            })
            &&& !reconnect ==> after.state == (RuntimeState::Failed { attempt_id })
                && after.retry_at is None
        }),
{
}

/// A retry is due from its time on, and not before. Nothing is due while no retry is pending.
pub proof fn retries_are_due_from_their_time_on(m: RecoveryModel, now: u64)
    ensures
        m.state is Reconnecting ==> (m.retry_at matches Some(at) ==> (due(m, now) <==> at <= now)),
        m.retry_at is None ==> !due(m, now),
        !(m.state is Reconnecting) ==> !due(m, now),
        m.active_since is None ==> uptime(m, now) == 0,
{
}

/// What a rule does not admit changes nothing of what is known of it.
pub proof fn refused_events_change_nothing(
    m: RecoveryModel,
    attempt_id: AttemptId,
    reconnect: bool,
    failure: process::ProcessFailure,
    entropy: u64,
    now: u64,
)
    ensures
        m.state is Starting || m.state is Active || m.state is Stopping ==> after_begin(
            m,
            attempt_id,
        ) == m,
        m.state != (RuntimeState::Starting { attempt_id }) ==> after_acceptance(m, attempt_id, now)
            == m && after_startup_failure(m, attempt_id, reconnect, failure, entropy, now) == m,
        m.state != (RuntimeState::Active { attempt_id }) ==> after_exit(
            m,
            attempt_id,
            reconnect,
            entropy,
            now,
        ) == m,
        !(m.state is Stopping) ==> after_cleanup(m) == m,
        after_stop(m).failures == m.failures,
        after_stop(m).reconnects == m.reconnects,
        after_stop(m).diagnostic == m.diagnostic,
        after_stop(m).active_since is None,
{
}

} // verus!
