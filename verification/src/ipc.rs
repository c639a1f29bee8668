//! Version 1 of the messages between clients and the daemon: one JSON text per line.
use crate::config::{Rule as WireRule, Settings};
use crate::path;
use crate::text;
use vstd::prelude::*;
use vstd::string::*;

verus! {

pub const PROTOCOL_VERSION: u32 = 1;

pub const MAX_MESSAGE_BYTES: usize = 1048576;

#[derive(Clone, Copy, Debug, PartialEq, Eq, Structural)]
pub enum Operation {
    HostList,
    HostShow,
    HostTest,
    ForwardList,
    ForwardAdd,
    ForwardImport,
    ForwardRemove,
    ForwardStart,
    ForwardStop,
    SettingsGet,
    SettingsUpdate,
    Status,
    Subscribe,
}

/// How a request names a rule.
#[derive(Debug, PartialEq, Eq)]
pub enum Selector {
    Id(u128),
    Name(String),
}

/// What a request asks for. Where the payload could not be read, it says why.
#[derive(Debug)]
pub enum Command {
    ForwardList,
    ForwardAdd(Result<WireRule, String>),
    ForwardImport(Result<Vec<WireRule>, String>),
    ForwardRemove(Result<Selector, String>),
    ForwardStart(Result<Selector, String>),
    ForwardStop(Result<Selector, String>),
    SettingsGet,
    SettingsUpdate(Result<Settings, String>),
    Status,
    Subscribe,
    /// An operation that the daemon does not handle.
    Other(Operation),
}

impl Command {
    pub open spec fn operation_of(self) -> Operation {
        match self {
            Command::ForwardList => Operation::ForwardList,
            Command::ForwardAdd(_) => Operation::ForwardAdd,
            Command::ForwardImport(_) => Operation::ForwardImport,
            Command::ForwardRemove(_) => Operation::ForwardRemove,
            Command::ForwardStart(_) => Operation::ForwardStart,
            Command::ForwardStop(_) => Operation::ForwardStop,
            Command::SettingsGet => Operation::SettingsGet,
            Command::SettingsUpdate(_) => Operation::SettingsUpdate,
            Command::Status => Operation::Status,
            Command::Subscribe => Operation::Subscribe,
            Command::Other(operation) => operation,
        }
    }

    pub fn operation(&self) -> (r: Operation)
        ensures
            r == self.operation_of(),
    {
        match self {
            Command::ForwardList => Operation::ForwardList,
            Command::ForwardAdd(_) => Operation::ForwardAdd,
            Command::ForwardImport(_) => Operation::ForwardImport,
            Command::ForwardRemove(_) => Operation::ForwardRemove,
            Command::ForwardStart(_) => Operation::ForwardStart,
            Command::ForwardStop(_) => Operation::ForwardStop,
            Command::SettingsGet => Operation::SettingsGet,
            Command::SettingsUpdate(_) => Operation::SettingsUpdate,
            Command::Status => Operation::Status,
            Command::Subscribe => Operation::Subscribe,
            Command::Other(operation) => *operation,
        }
    }
}

#[derive(Debug)]
pub struct Request {
    pub protocol_version: u32,
    pub request_id: u128,
    pub command: Command,
}

#[derive(Clone, Copy, Debug, PartialEq, Eq, Structural)]
pub enum ErrorCode {
    InvalidRequest,
    MessageTooLarge,
    UnsupportedVersion,
    NotFound,
    Conflict,
    Unavailable,
    Internal,
}

#[derive(Debug, PartialEq, Eq)]
pub struct ProtocolError {
    pub code: ErrorCode,
    pub message: String,
}

/// What a protocol error says.
#[verifier::ext_equal]
pub struct Failure {
    pub code: ErrorCode,
    pub message: Seq<char>,
}

impl View for ProtocolError {
    type V = Failure;

    open spec fn view(&self) -> Failure {
        Failure { code: self.code, message: self.message@ }
    }
}

#[derive(Clone, Copy, Debug, PartialEq, Eq, Structural)]
pub enum RunState {
    Stopped,
    Starting,
    Active,
    /// Down, with a retry pending.
    Reconnecting,
}

impl RunState {
    pub open spec fn shown(self) -> Seq<char> {
        match self {
            RunState::Stopped => "stopped"@,
            RunState::Starting => "starting"@,
            RunState::Active => "active"@,
            RunState::Reconnecting => "reconnecting"@,
        }
    }

    pub fn as_str(self) -> (r: &'static str)
        ensures
            r@ == self.shown(),
    {
        match self {
            RunState::Stopped => "stopped",
            RunState::Starting => "starting",
            RunState::Active => "active",
            RunState::Reconnecting => "reconnecting",
        }
    }
}

#[derive(Debug, PartialEq, Eq)]
pub struct ForwardStatus {
    pub rule_id: u128,
    pub name: String,
    pub state: RunState,
}

/// What a request that worked is answered.
#[derive(Debug, PartialEq, Eq)]
pub enum Reply {
    Rules(Vec<WireRule>),
    RuleStored { rule_id: u128 },
    RuleRemoved { rule_id: u128 },
    Imported { rule_ids: Vec<u128> },
    Settings(Settings),
    Intent { rule_id: u128, start_requested: bool, changed: bool },
    Status { rules: usize, active: usize, starting: usize, forwards: Vec<ForwardStatus> },
    Subscribed,
}

#[derive(Debug, PartialEq, Eq)]
pub struct SuccessResponse {
    pub protocol_version: u32,
    pub request_id: u128,
    pub result: Reply,
}

#[derive(Debug, PartialEq, Eq)]
pub struct ErrorResponse {
    pub protocol_version: u32,
    pub request_id: u128,
    pub error: ProtocolError,
}

#[derive(Debug, PartialEq, Eq)]
pub enum Response {
    Success(SuccessResponse),
    Failure(ErrorResponse),
}

/// The answer to a request, under its ID.
pub open spec fn answer_to(request_id: u128, result: Result<Reply, ProtocolError>) -> Response {
    match result {
        Ok(reply) => Response::Success(
            SuccessResponse { protocol_version: PROTOCOL_VERSION, request_id, result: reply },
        ),
        Err(error) => Response::Failure(
            ErrorResponse { protocol_version: PROTOCOL_VERSION, request_id, error },
        ),
    }
}

pub fn response(request_id: u128, result: Result<Reply, ProtocolError>) -> (r: Response)
    ensures
        r == answer_to(request_id, result),
{
    match result {
        Ok(reply) => Response::Success(
            SuccessResponse { protocol_version: PROTOCOL_VERSION, request_id, result: reply },
        ),
        Err(error) => Response::Failure(
            ErrorResponse { protocol_version: PROTOCOL_VERSION, request_id, error },
        ),
    }
}

impl Response {
    /// The ID of the request that this answers.
    pub open spec fn answered(self) -> u128 {
        match self {
            Response::Success(answer) => answer.request_id,
            Response::Failure(answer) => answer.request_id,
        }
    }

    pub fn request_id(&self) -> (r: u128)
        ensures
            r == self.answered(),
    {
        match self {
            Response::Success(answer) => answer.request_id,
            Response::Failure(answer) => answer.request_id,
        }
    }
}

pub open spec fn correlation_complaint() -> Seq<char> {
    "response does not match the request"@
}

/// A client accepts the response to its own request, and no other.
pub fn accept_response(request_id: u128, answer: Response) -> (r: Result<Response, TransportError>)
    ensures
        match r {
            Ok(accepted) => answer.answered() == request_id && accepted == answer,
            Err(error) => answer.answered() != request_id && (
            error matches TransportError::InvalidMessage(message) && message@
                == correlation_complaint()),
        },
{
    if answer.request_id() == request_id {
        Ok(answer)
    } else {
        Err(TransportError::InvalidMessage("response does not match the request".to_owned()))
    }
}

/// What the daemon answers a request is accepted for that request and for no other.
pub proof fn answers_reach_their_request(
    request_id: u128,
    result: Result<Reply, ProtocolError>,
    other: u128,
)
    ensures
        answer_to(request_id, result).answered() == other <==> other == request_id,
{
}

// ---------------------------------------------------------------------------
// Events
// ---------------------------------------------------------------------------
/// How many events wait for a subscriber. One whose queue is full is disconnected.
pub const EVENT_QUEUE: usize = 64;

#[derive(Clone, Copy, Debug, PartialEq, Eq, Structural)]
pub enum EventKind {
    ConfigurationChanged,
    RuleStarted,
    RuleStopped,
    RuleFailed,
}

impl EventKind {
    pub open spec fn shown(self) -> Seq<char> {
        match self {
            EventKind::ConfigurationChanged => "configuration_changed"@,
            EventKind::RuleStarted => "rule_started"@,
            EventKind::RuleStopped => "rule_stopped"@,
            EventKind::RuleFailed => "rule_failed"@,
        }
    }

    pub fn as_str(self) -> (r: &'static str)
        ensures
            r@ == self.shown(),
    {
        match self {
            EventKind::ConfigurationChanged => "configuration_changed",
            EventKind::RuleStarted => "rule_started",
            EventKind::RuleStopped => "rule_stopped",
            EventKind::RuleFailed => "rule_failed",
        }
    }
}

/// Something that happened, to one rule or to the configuration as a whole.
#[derive(Clone, Copy, Debug, PartialEq, Eq, Structural)]
pub struct Announcement {
    pub event: EventKind,
    pub rule_id: Option<u128>,
}

#[derive(Clone, Copy, Debug, PartialEq, Eq, Structural)]
pub struct Event {
    pub protocol_version: u32,
    pub sequence: u64,
    pub event: EventKind,
    pub rule_id: Option<u128>,
}

/// Numbers events from 1 on.
#[derive(Debug)]
pub struct EventSequence {
    last: u64,
}

impl View for EventSequence {
    type V = u64;

    closed spec fn view(&self) -> u64 {
        self.last
    }
}

impl EventSequence {
    pub fn new() -> (r: Self)
        ensures
            r@ == 0,
    {
        EventSequence { last: 0 }
    }

    /// The next event. Its number is one more than that of the event before, and the last
    /// number there is stays in use.
    pub fn publish(&mut self, announcement: Announcement) -> (r: Event)
        ensures
            final(self)@ == (if old(self)@ == u64::MAX {
                u64::MAX as int
            } else {
                old(self)@ + 1
            }),
            r == (Event {
                protocol_version: PROTOCOL_VERSION,
                sequence: final(self)@,
                event: announcement.event,
                rule_id: announcement.rule_id,
            }),
    {
        if self.last < u64::MAX {
            self.last = self.last + 1;
        }
        Event {
            protocol_version: PROTOCOL_VERSION,
            sequence: self.last,
            event: announcement.event,
            rule_id: announcement.rule_id,
        }
    }
}

// ---------------------------------------------------------------------------
// Frames
// ---------------------------------------------------------------------------
#[derive(Debug)]
pub enum TransportError {
    Io(String),
    Disconnected,
    MessageTooLarge,
    InvalidMessage(String),
}

impl TransportError {
    pub open spec fn shown(self) -> Seq<char> {
        match self {
            TransportError::Io(cause) => "I/O failed: "@ + cause@,
            TransportError::Disconnected => "peer disconnected"@,
            TransportError::MessageTooLarge =>
            "message exceeds 1 MiB or is not newline terminated"@,
            TransportError::InvalidMessage(cause) => "invalid message: "@ + cause@,
        }
    }

    pub fn to_string(&self) -> (r: String)
        ensures
            r@ == self.shown(),
    {
        match self {
            TransportError::Io(cause) => text::joined("I/O failed: ", cause.as_str()),
            TransportError::Disconnected => "peer disconnected".to_owned(),
            TransportError::MessageTooLarge => {
                "message exceeds 1 MiB or is not newline terminated".to_owned()
            },
            TransportError::InvalidMessage(cause) => text::joined(
                "invalid message: ",
                cause.as_str(),
            ),
        }
    }
}

/// Where the first line feed stands, or the length.
pub open spec fn line_end(s: Seq<u8>) -> int
    decreases s.len(),
{
    if s.len() == 0 || s[0] == 10 {
        0
    } else {
        1 + line_end(s.drop_first())
    }
}

proof fn line_end_position(s: Seq<u8>)
    ensures
        0 <= line_end(s) <= s.len(),
        line_end(s) < s.len() ==> s[line_end(s)] == 10,
        forall|k: int| 0 <= k < line_end(s) ==> s[k] != 10,
    decreases s.len(),
{
    if s.len() > 0 && s[0] != 10 {
        line_end_position(s.drop_first());
        assert forall|k: int| 0 <= k < line_end(s) implies s[k] != 10 by {
            if k > 0 {
                assert(s.drop_first()[k - 1] == s[k]);
            }
        }
    }
}

/// The message as it goes over the socket, with a line feed at its end.
pub fn encode_frame(body: &[u8]) -> (r: Result<Vec<u8>, TransportError>)
    ensures
        match r {
            Ok(frame) => body@.len() <= MAX_MESSAGE_BYTES && frame@ == body@.push(10),
            Err(error) => body@.len() > MAX_MESSAGE_BYTES && error is MessageTooLarge,
        },
{
    if body.len() > MAX_MESSAGE_BYTES {
        return Err(TransportError::MessageTooLarge);
    }
    let mut out = path::copied(body);
    out.push(10);
    Ok(out)
}

/// What comes of the bytes that were received and not yet used: a message and the bytes behind
/// it, an error, or nothing yet.
pub open spec fn next_frame(received: Seq<u8>) -> Result<Option<(Seq<u8>, Seq<u8>)>, ()> {
    let end = line_end(received);
    if end > MAX_MESSAGE_BYTES {
        Err(())
    } else if end < received.len() {
        Ok(Some((received.take(end), received.skip(end + 1))))
    } else {
        Ok(None)
    }
}

/// Takes the first message out of the received bytes, if it is complete.
pub fn take_frame(received: &mut Vec<u8>) -> (r: Result<Option<Vec<u8>>, TransportError>)
    ensures
        match r {
            Ok(Some(body)) => next_frame(old(received)@) == Ok::<Option<(Seq<u8>, Seq<u8>)>, ()>(
                Some((body@, final(received)@)),
            ),
            Ok(None) => next_frame(old(received)@) == Ok::<Option<(Seq<u8>, Seq<u8>)>, ()>(None)
                && final(received)@ == old(received)@,
            Err(error) => next_frame(old(received)@) is Err && error is MessageTooLarge
                && final(received)@ == old(received)@,
        },
{
    let ghost all = received@;
    proof {
        line_end_position(all);
    }
    let mut end: usize = 0;
    while end < received.len() && received[end] != 10
        invariant
            end <= received@.len(),
            received@ == all,
            forall|k: int| 0 <= k < end ==> all[k] != 10,
        decreases received.len() - end,
    {
        end = end + 1;
    }
    if end > MAX_MESSAGE_BYTES {
        return Err(TransportError::MessageTooLarge);
    }
    if end == received.len() {
        return Ok(None);
    }
    let mut body: Vec<u8> = Vec::new();
    let mut rest: Vec<u8> = Vec::new();
    let mut i: usize = 0;
    while i < received.len()
        invariant
            i <= received@.len(),
            end < received@.len(),
            received@ == all,
            body@ =~= all.take(if i <= end {
                i as int
            } else {
                end as int
            }),
            rest@ =~= (if i <= end {
                Seq::<u8>::empty()
            } else {
                all.subrange(end as int + 1, i as int)
            }),
        decreases received.len() - i,
    {
        if i < end {
            body.push(received[i]);
        } else if i > end {
            rest.push(received[i]);
        }
        i = i + 1;
    }
    assert(rest@ =~= all.skip(end as int + 1));
    *received = rest;
    Ok(Some(body))
}

/// Why no further message comes once the peer has closed its side.
pub fn end_of_stream(received: &Vec<u8>) -> (r: TransportError)
    ensures
        if received@.len() == 0 {
            r is Disconnected
        } else {
            r is MessageTooLarge
        },
{
    if received.len() == 0 {
        TransportError::Disconnected
    } else {
        TransportError::MessageTooLarge
    }
}

/// What is sent is what is received: a message of an allowed size without line feeds, encoded
/// and followed by any other bytes, is taken out again unchanged.
pub proof fn frames_read_back(body: Seq<u8>, rest: Seq<u8>)
    requires
        body.len() <= MAX_MESSAGE_BYTES,
        !body.contains(10),
    ensures
        next_frame(body.push(10) + rest) == Ok::<Option<(Seq<u8>, Seq<u8>)>, ()>(
            Some((body, rest)),
        ),
{
    let all = body.push(10) + rest;
    line_end_position(all);
    let end = line_end(all);
    assert(all[body.len() as int] == 10);
    if end < body.len() {
        assert(body[end] == all[end]);
        assert(body.contains(10));
    }
    assert(all.take(end) =~= body);
    assert(all.skip(end + 1) =~= rest);
}

/// Every command is the operation of its name.
pub proof fn commands_are_their_operations(command: Command)
    ensures
        command is ForwardList ==> command.operation_of() == Operation::ForwardList,
        command is ForwardAdd ==> command.operation_of() == Operation::ForwardAdd,
        command is ForwardImport ==> command.operation_of() == Operation::ForwardImport,
        command is ForwardRemove ==> command.operation_of() == Operation::ForwardRemove,
        command is ForwardStart ==> command.operation_of() == Operation::ForwardStart,
        command is ForwardStop ==> command.operation_of() == Operation::ForwardStop,
        command is SettingsGet ==> command.operation_of() == Operation::SettingsGet,
        command is SettingsUpdate ==> command.operation_of() == Operation::SettingsUpdate,
        command is Status ==> command.operation_of() == Operation::Status,
        command is Subscribe ==> command.operation_of() == Operation::Subscribe,
        command matches Command::Other(operation) ==> command.operation_of() == operation,
{
}

/// States and events have fixed words.
pub proof fn states_and_events_have_fixed_words(state: RunState, event: EventKind)
    ensures
        state == RunState::Stopped ==> state.shown() == "stopped"@,
        state == RunState::Starting ==> state.shown() == "starting"@,
        state == RunState::Active ==> state.shown() == "active"@,
        state == RunState::Reconnecting ==> state.shown() == "reconnecting"@,
        event == EventKind::ConfigurationChanged ==> event.shown() == "configuration_changed"@,
        event == EventKind::RuleStarted ==> event.shown() == "rule_started"@,
        event == EventKind::RuleStopped ==> event.shown() == "rule_stopped"@,
        event == EventKind::RuleFailed ==> event.shown() == "rule_failed"@,
{
}

/// A request that worked is answered with its result and one that did not with its error, both in
/// the current version of the protocol.
pub proof fn answers_carry_the_outcome(request_id: u128, result: Result<Reply, ProtocolError>)
    ensures
        match result {
            Ok(reply) => answer_to(request_id, result) matches Response::Success(answer)
                && answer.result == reply && answer.protocol_version == 1,
            Err(error) => answer_to(request_id, result) matches Response::Failure(answer)
                && answer.error == error && answer.protocol_version == 1,
        },
{
}

/// Errors of the transport say what failed.
pub proof fn transport_errors_say_what_failed(error: TransportError)
    ensures
        match error {
            TransportError::Io(cause) => error.shown() == "I/O failed: "@ + cause@,
            TransportError::Disconnected => error.shown() == "peer disconnected"@,
            TransportError::MessageTooLarge => error.shown()
                == "message exceeds 1 MiB or is not newline terminated"@,
            TransportError::InvalidMessage(cause) => error.shown() == "invalid message: "@ + cause@,
        },
        correlation_complaint() == "response does not match the request"@,
{
}

/// Bytes without a line feed are no message yet, and none any more once they are too long for one.
/// A message is never longer than 1 MiB.
pub proof fn unfinished_frames_wait(received: Seq<u8>)
    ensures
        !received.contains(10) && received.len() <= 1024 * 1024 ==> next_frame(received) == Ok::<
            Option<(Seq<u8>, Seq<u8>)>,
            (),
        >(None),
        !received.contains(10) && received.len() > 1024 * 1024 ==> next_frame(received) is Err,
        next_frame(received) matches Ok(Some((body, rest))) ==> body.len() <= 1024 * 1024
            && !body.contains(10) && body.push(10) + rest == received,
{
    first_line_feed(received);
    let end = line_end(received);
    if !received.contains(10) && end < received.len() {
        assert(received[end] == 10);
    }
    if next_frame(received) is Ok && next_frame(received)->Ok_0 is Some {
        let body = received.take(end);
        if body.contains(10) {
            let k = choose|k: int| 0 <= k < body.len() && body[k] == 10;
            assert(received[k] == 10);
        }
        assert(body.push(10) + received.skip(end + 1) =~= received);
    }
}

proof fn first_line_feed(s: Seq<u8>)
    ensures
        0 <= line_end(s) <= s.len(),
        line_end(s) < s.len() ==> s[line_end(s)] == 10,
        forall|k: int| 0 <= k < line_end(s) ==> s[k] != 10,
    decreases s.len(),
{
    if s.len() > 0 && s[0] != 10 {
        first_line_feed(s.drop_first());
        assert forall|k: int| 0 <= k < line_end(s) implies s[k] != 10 by {
            if k > 0 {
                assert(s.drop_first()[k - 1] == s[k]);
            }
        }
    }
}

/// The protocol has version 1, messages of up to 1 MiB and room for 64 events per subscriber.
pub proof fn protocol_limits()
    ensures
        PROTOCOL_VERSION == 1,
        MAX_MESSAGE_BYTES == 1024 * 1024,
        EVENT_QUEUE == 64,
{
}

/// What a protocol error says is what it holds.
pub proof fn protocol_errors_say_what_they_hold(error: ProtocolError)
    ensures
        error@.code == error.code,
        error@.message == error.message@,
{
}

} // verus!
