//! Ownership of the daemon's socket and the serving of connections.
use crate::ipc;
use crate::ipc::{
    ErrorCode, Operation, ProtocolError, Request, Response, TransportError, PROTOCOL_VERSION,
};
use crate::platform::private_fs;
use crate::platform::private_fs::{FileFacts, FileKind, FileLookup};
use crate::text;
use vstd::prelude::*;
use vstd::string::*;

verus! {

#[derive(Debug)]
pub enum DaemonError {
    Io(String),
    AlreadyRunning,
    UnsafeSocket,
    Transport(TransportError),
}

impl DaemonError {
    pub open spec fn shown(self) -> Seq<char> {
        match self {
            DaemonError::Io(cause) => "daemon runtime I/O failed: "@ + cause@,
            DaemonError::AlreadyRunning =>
            "another daemon or its cleanup guardian owns the runtime lock"@,
            DaemonError::UnsafeSocket => "unsafe daemon socket ownership, type, or permissions"@,
            DaemonError::Transport(error) => "IPC transport failed: "@ + error.shown(),
        }
    }

    pub fn to_string(&self) -> (r: String)
        ensures
            r@ == self.shown(),
    {
        match self {
            DaemonError::Io(cause) => text::joined("daemon runtime I/O failed: ", cause.as_str()),
            DaemonError::AlreadyRunning => {
                "another daemon or its cleanup guardian owns the runtime lock".to_owned()
            },
            DaemonError::UnsafeSocket => {
                "unsafe daemon socket ownership, type, or permissions".to_owned()
            },
            DaemonError::Transport(error) => text::joined(
                "IPC transport failed: ",
                error.to_string().as_str(),
            ),
        }
    }
}

// ---------------------------------------------------------------------------
// Taking possession of the socket
// ---------------------------------------------------------------------------
/// The lock file must be a private file of the user.
pub fn check_lock_file(facts: &FileFacts, uid: u32) -> (r: Result<(), DaemonError>)
    ensures
        match r {
            Ok(_) => private_fs::private(*facts, uid, false),
            Err(error) => !private_fs::private(*facts, uid, false) && error is UnsafeSocket,
        },
{
    match private_fs::check(facts, uid, false) {
        Ok(_) => Ok(()),
        Err(_) => Err(DaemonError::UnsafeSocket),
    }
}

/// What locking the lock file gave.
#[derive(Debug)]
pub enum LockOutcome {
    Locked,
    /// Somebody else holds the lock.
    Held,
    Failed(String),
}

pub fn check_lock(outcome: LockOutcome) -> (r: Result<(), DaemonError>)
    ensures
        match outcome {
            LockOutcome::Locked => r is Ok,
            LockOutcome::Held => r matches Err(DaemonError::AlreadyRunning),
            LockOutcome::Failed(cause) => r matches Err(DaemonError::Io(message)) && message
                == cause,
        },
{
    match outcome {
        LockOutcome::Locked => Ok(()),
        LockOutcome::Held => Err(DaemonError::AlreadyRunning),
        LockOutcome::Failed(cause) => Err(DaemonError::Io(cause)),
    }
}

/// What to do about the path of the socket before it is bound.
#[derive(Clone, Copy, Debug, PartialEq, Eq, Structural)]
pub enum SocketPlan {
    Bind,
    /// A socket that an earlier daemon left behind has to go first.
    RemoveAndBind,
}

/// Only a socket of the user is ever removed.
pub fn socket_plan(lookup: FileLookup, uid: u32) -> (r: Result<SocketPlan, DaemonError>)
    ensures
        match lookup {
            FileLookup::Found(facts) => if facts.uid == uid && facts.kind == FileKind::Socket {
                r matches Ok(plan) && plan == SocketPlan::RemoveAndBind
            } else {
                r matches Err(DaemonError::UnsafeSocket)
            },
            FileLookup::NotFound => r matches Ok(plan) && plan == SocketPlan::Bind,
            FileLookup::Failed(cause) => r matches Err(DaemonError::Io(message)) && message
                == cause,
        },
{
    match lookup {
        FileLookup::Found(facts) => if facts.uid != uid || facts.kind != FileKind::Socket {
            Err(DaemonError::UnsafeSocket)
        } else {
            Ok(SocketPlan::RemoveAndBind)
        },
        FileLookup::NotFound => Ok(SocketPlan::Bind),
        FileLookup::Failed(cause) => Err(DaemonError::Io(cause)),
    }
}

/// How waiting for a daemon that was started goes on.
#[derive(Clone, Copy, Debug, PartialEq, Eq, Structural)]
pub enum Readiness {
    Ready,
    Wait,
}

pub fn readiness(connected: bool, late: bool) -> (r: Result<Readiness, DaemonError>)
    ensures
        if connected {
            r matches Ok(state) && state == Readiness::Ready
        } else if late {
            r matches Err(DaemonError::Io(message)) && message@ == "daemon did not become ready"@
        } else {
            r matches Ok(state) && state == Readiness::Wait
        },
{
    if connected {
        Ok(Readiness::Ready)
    } else if late {
        Err(DaemonError::Io("daemon did not become ready".to_owned()))
    } else {
        Ok(Readiness::Wait)
    }
}

// ---------------------------------------------------------------------------
// Serving a connection
// ---------------------------------------------------------------------------
/// What to do with what came in on a connection.
#[derive(Debug)]
pub enum ServeStep {
    /// The peer is gone.
    Close,
    /// Answer, whether or not that works, and close.
    AnswerAndClose(Response),
    /// Answer and go on.
    Answer(Response),
    /// Have the request handled, answer and go on.
    Handle(Request),
    Fail(DaemonError),
}

/// `r` refuses a request.
pub open spec fn refuses(r: Response, request_id: u128, code: ErrorCode, message: Seq<char>) -> bool {
    r matches Response::Failure(answer) && answer.protocol_version == PROTOCOL_VERSION
        && answer.request_id == request_id && answer.error@ == (ipc::Failure { code, message })
}

pub open spec fn version_complaint(version: u32) -> Seq<char> {
    "protocol version "@ + text::decimal(version as nat) + " is unsupported; expected "@
        + text::decimal(PROTOCOL_VERSION as nat)
}

fn refusal(request_id: u128, code: ErrorCode, message: String) -> (r: Response)
    ensures
        refuses(r, request_id, code, message@),
{
    ipc::response(request_id, Err(ProtocolError { code, message }))
}

/// `r` is what to do with what came in.
pub open spec fn served_by(frame: Result<Request, TransportError>, r: ServeStep) -> bool {
    match frame {
        Ok(request) => if request.protocol_version == PROTOCOL_VERSION {
            r == ServeStep::Handle(request)
        } else {
            r matches ServeStep::Answer(answer) && refuses(
                answer,
                request.request_id,
                ErrorCode::UnsupportedVersion,
                version_complaint(request.protocol_version),
            )
        },
        Err(TransportError::Disconnected) => r is Close,
        Err(TransportError::MessageTooLarge) => r matches ServeStep::AnswerAndClose(answer)
            && refuses(
            answer,
            0,
            ErrorCode::MessageTooLarge,
            "message exceeds 1 MiB or is not newline terminated"@,
        ),
        Err(TransportError::InvalidMessage(_)) => r matches ServeStep::AnswerAndClose(answer)
            && refuses(answer, 0, ErrorCode::InvalidRequest, "malformed request"@),
        Err(error) => r == ServeStep::Fail(DaemonError::Transport(error)),
    }
}

/// Every request that can be read is answered under its own ID. One in another protocol version
/// is refused without being handled; a message that cannot be read is refused under the ID 0,
/// and then nothing more is read.
pub fn serve_step(frame: Result<Request, TransportError>) -> (r: ServeStep)
    ensures
        served_by(frame, r),
{
    match frame {
        Ok(request) => if request.protocol_version != PROTOCOL_VERSION {
            let mut message = "protocol version ".to_owned();
            text::push_decimal(&mut message, request.protocol_version as u64);
            message.append(" is unsupported; expected ");
            text::push_decimal(&mut message, PROTOCOL_VERSION as u64);
            ServeStep::Answer(refusal(request.request_id, ErrorCode::UnsupportedVersion, message))
        } else {
            ServeStep::Handle(request)
        },
        Err(TransportError::Disconnected) => ServeStep::Close,
        Err(TransportError::MessageTooLarge) => ServeStep::AnswerAndClose(
            refusal(
                0,
                ErrorCode::MessageTooLarge,
                "message exceeds 1 MiB or is not newline terminated".to_owned(),
            ),
        ),
        Err(TransportError::InvalidMessage(_)) => ServeStep::AnswerAndClose(
            refusal(0, ErrorCode::InvalidRequest, "malformed request".to_owned()),
        ),
        Err(error) => ServeStep::Fail(DaemonError::Transport(error)),
    }
}

/// A connection whose subscription is handled carries events from then on, and no further
/// request.
pub open spec fn streams(step: ServeStep, operation: Operation) -> bool {
    step is Handle && operation == Operation::Subscribe
}

pub fn streams_events(step: &ServeStep, operation: Operation) -> (r: bool)
    ensures
        r == streams(*step, operation),
        r == (step is Handle && operation == Operation::Subscribe),
{
    match step {
        ServeStep::Handle(_) => operation == Operation::Subscribe,
        _ => false,
    }
}

/// Whatever is refused starts no stream of events, a subscription in another protocol version
/// among it.
pub proof fn what_is_refused_streams_nothing(
    frame: Result<Request, TransportError>,
    step: ServeStep,
    operation: Operation,
)
    requires
        served_by(frame, step),
        frame matches Ok(request) ==> request.protocol_version != PROTOCOL_VERSION,
    ensures
        !streams(step, operation),
{
}

/// A request in the current version is handled as it came. One in another version is refused under
/// its own ID, and the connection stays. What is too long or cannot be read is refused under the ID
/// zero, and the connection ends. A peer that is gone is answered nothing.
pub proof fn requests_are_served_or_refused(
    frame: Result<Request, TransportError>,
    step: ServeStep,
)
    requires
        served_by(frame, step),
    ensures
        frame matches Ok(request) ==> {
            &&& request.protocol_version == 1 <==> step is Handle
            &&& step matches ServeStep::Handle(handled) ==> handled == request
            &&& request.protocol_version != 1 ==> (step matches ServeStep::Answer(answer)
                && answer.answered() == request.request_id && (
            answer matches Response::Failure(failure) && failure.error@.code
                == ErrorCode::UnsupportedVersion && failure.error@.message == "protocol version "@
                + text::decimal(request.protocol_version as nat) + " is unsupported; expected "@
                + text::decimal(1)))
        },
        frame matches Err(TransportError::Disconnected) ==> step is Close,
        frame matches Err(TransportError::MessageTooLarge) ==> (
        step matches ServeStep::AnswerAndClose(answer) && answer.answered() == 0 && (
        answer matches Response::Failure(failure) && failure.error@.code
            == ErrorCode::MessageTooLarge)),
        frame matches Err(TransportError::InvalidMessage(_)) ==> (
        step matches ServeStep::AnswerAndClose(answer) && answer.answered() == 0 && (
        answer matches Response::Failure(failure) && failure.error@.code
            == ErrorCode::InvalidRequest && failure.error@.message == "malformed request"@)),
        frame matches Err(TransportError::Io(_)) ==> step is Fail,
{
}

/// A connection streams events exactly if a subscription is handled on it.
pub proof fn only_subscriptions_stream(request: Request, step: ServeStep, operation: Operation)
    requires
        served_by(Ok(request), step),
        request.protocol_version == 1,
    ensures
        streams(step, operation) <==> operation == Operation::Subscribe,
{
}

/// Errors of the daemon say what failed.
pub proof fn daemon_errors_say_what_failed(error: DaemonError)
    ensures
        match error {
            DaemonError::Io(cause) => error.shown() == "daemon runtime I/O failed: "@ + cause@,
            DaemonError::AlreadyRunning => error.shown()
                == "another daemon or its cleanup guardian owns the runtime lock"@,
            DaemonError::UnsafeSocket => error.shown()
                == "unsafe daemon socket ownership, type, or permissions"@,
            DaemonError::Transport(cause) => error.shown() == "IPC transport failed: "@
                + cause.shown(),
        },
{
}

} // verus!
