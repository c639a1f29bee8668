//! OpenSSH arguments and the supervision of SSH processes.
use crate::application::hosts;
use crate::domain::rule;
use crate::domain::rule::{Forwarding, Rule};
use crate::identity;
use crate::path;
use crate::platform::paths;
use crate::platform::Platform;
use crate::text;
use vstd::prelude::*;
use vstd::slice::slice_subrange;
use vstd::string::*;

verus! {

/// Times in milliseconds.
pub const STARTUP_TIMEOUT: u64 = 30_000;

pub const CONTROL_TIMEOUT: u64 = 5_000;

pub const STOP_GRACE: u64 = 5_000;

pub const STOP_RESPONSE_TIMEOUT: u64 = 10_000;

pub const MAX_STDERR_BYTES: usize = 65536;

#[derive(Debug)]
pub enum ProcessError {
    Io(String),
    Protocol(String),
    Startup(String),
}

/// What a process error says.
pub enum ProcessFailure {
    Io(Seq<char>),
    Protocol(Seq<char>),
    Startup(Seq<char>),
}

impl View for ProcessError {
    type V = ProcessFailure;

    open spec fn view(&self) -> ProcessFailure {
        match self {
            ProcessError::Io(cause) => ProcessFailure::Io(cause@),
            ProcessError::Protocol(cause) => ProcessFailure::Protocol(cause@),
            ProcessError::Startup(cause) => ProcessFailure::Startup(cause@),
        }
    }
}

pub open spec fn failure_message(failure: ProcessFailure) -> Seq<char> {
    match failure {
        ProcessFailure::Io(cause) => "SSH process I/O failed: "@ + cause,
        ProcessFailure::Protocol(cause) => "guardian protocol failed: "@ + cause,
        ProcessFailure::Startup(cause) => "SSH startup failed: "@ + cause,
    }
}

impl ProcessError {
    pub fn to_string(&self) -> (r: String)
        ensures
            r@ == failure_message(self@),
    {
        match self {
            ProcessError::Io(cause) => text::joined("SSH process I/O failed: ", cause.as_str()),
            ProcessError::Protocol(cause) => text::joined(
                "guardian protocol failed: ",
                cause.as_str(),
            ),
            ProcessError::Startup(cause) => text::joined("SSH startup failed: ", cause.as_str()),
        }
    }
}

// ---------------------------------------------------------------------------
// Diagnostics
// ---------------------------------------------------------------------------
#[derive(Clone, Copy, Debug, PartialEq, Eq, Structural)]
pub enum DiagnosticKind {
    Authentication,
    HostKey,
    Listener,
    Network,
    RemoteRejected,
    Unknown,
}

impl DiagnosticKind {
    pub open spec fn shown(self) -> Seq<char> {
        match self {
            DiagnosticKind::Authentication => "authentication"@,
            DiagnosticKind::HostKey => "host_key"@,
            DiagnosticKind::Listener => "listener"@,
            DiagnosticKind::Network => "network"@,
            DiagnosticKind::RemoteRejected => "remote_rejected"@,
            DiagnosticKind::Unknown => "unknown"@,
        }
    }

    /// The fixed sentence for the kind.
    pub open spec fn sentence(self) -> Seq<char> {
        match self {
            DiagnosticKind::Authentication => "SSH authentication failed"@,
            DiagnosticKind::HostKey => "SSH host-key verification failed"@,
            DiagnosticKind::Listener => "the requested listener could not be created"@,
            DiagnosticKind::Network => "the SSH network connection failed"@,
            DiagnosticKind::RemoteRejected => "the SSH server rejected remote forwarding"@,
            DiagnosticKind::Unknown => "SSH startup failed for an unclassified reason"@,
        }
    }

    pub fn as_str(self) -> (r: &'static str)
        ensures
            r@ == self.shown(),
    {
        match self {
            DiagnosticKind::Authentication => "authentication",
            DiagnosticKind::HostKey => "host_key",
            DiagnosticKind::Listener => "listener",
            DiagnosticKind::Network => "network",
            DiagnosticKind::RemoteRejected => "remote_rejected",
            DiagnosticKind::Unknown => "unknown",
        }
    }
}

#[derive(Clone, Copy, Debug, PartialEq, Eq)]
pub struct Diagnostic {
    pub kind: DiagnosticKind,
    pub message: &'static str,
    pub retryable: bool,
}

/// The kind of failure that SSH's output speaks of. The first kind that fits counts.
pub open spec fn diagnosed(output: Seq<char>) -> DiagnosticKind {
    let s = text::lowered(output);
    if text::holds(s, "permission denied"@) || text::holds(s, "authentication failed"@) {
        DiagnosticKind::Authentication
    } else if text::holds(s, "host key verification failed"@) || text::holds(
        s,
        "remote host identification has changed"@,
    ) {
        DiagnosticKind::HostKey
    } else if text::holds(s, "remote port forwarding failed"@) || text::holds(
        s,
        "administratively prohibited"@,
    ) {
        DiagnosticKind::RemoteRejected
    } else if text::holds(s, "address already in use"@) || text::holds(
        s,
        "cannot listen to port"@,
    ) {
        DiagnosticKind::Listener
    } else if text::holds(s, "connection timed out"@) || text::holds(s, "connection refused"@)
        || text::holds(s, "no route to host"@) || text::holds(s, "connection reset"@)
        || text::holds(s, "network is unreachable"@) {
        DiagnosticKind::Network
    } else {
        DiagnosticKind::Unknown
    }
}

/// Classifies well-known OpenSSH text. The message is one of six fixed sentences: nothing of
/// `value` is ever in it. Only network failures are worth another attempt.
pub fn classify_diagnostic(value: &str) -> (r: Diagnostic)
    ensures
        r.kind == diagnosed(value@),
        r.message@ == r.kind.sentence(),
        r.retryable == (r.kind == DiagnosticKind::Network),
{
    let chars = text::chars_of(value);
    let s = text::lowered_chars(chars.as_slice());
    if hosts::has_phrase(&s, "permission denied") || hosts::has_phrase(
        &s,
        "authentication failed",
    ) {
        Diagnostic {
            kind: DiagnosticKind::Authentication,
            message: "SSH authentication failed",
            retryable: false,
        }
    } else if hosts::has_phrase(&s, "host key verification failed") || hosts::has_phrase(
        &s,
        "remote host identification has changed",
    ) {
        Diagnostic {
            kind: DiagnosticKind::HostKey,
            message: "SSH host-key verification failed",
            retryable: false,
        }
    } else if hosts::has_phrase(&s, "remote port forwarding failed") || hosts::has_phrase(
        &s,
        "administratively prohibited",
    ) {
        Diagnostic {
            kind: DiagnosticKind::RemoteRejected,
            message: "the SSH server rejected remote forwarding",
            retryable: false,
        }
    } else if hosts::has_phrase(&s, "address already in use") || hosts::has_phrase(
        &s,
        "cannot listen to port",
    ) {
        Diagnostic {
            kind: DiagnosticKind::Listener,
            message: "the requested listener could not be created",
            retryable: false,
        }
    } else if hosts::has_phrase(&s, "connection timed out") || hosts::has_phrase(
        &s,
        "connection refused",
    ) || hosts::has_phrase(&s, "no route to host") || hosts::has_phrase(&s, "connection reset")
        || hosts::has_phrase(&s, "network is unreachable") {
        Diagnostic {
            kind: DiagnosticKind::Network,
            message: "the SSH network connection failed",
            retryable: true,
        }
    } else {
        Diagnostic {
            kind: DiagnosticKind::Unknown,
            message: "SSH startup failed for an unclassified reason",
            retryable: false,
        }
    }
}

// ---------------------------------------------------------------------------
// Arguments
// ---------------------------------------------------------------------------
/// An address with a colon in it stands in brackets.
pub open spec fn bracketed(s: Seq<char>) -> Seq<char> {
    if s.contains(':') {
        "["@ + s + "]"@
    } else {
        s
    }
}

/// The flag and the specification that ask OpenSSH for a forwarding.
pub open spec fn forwarding_arguments(f: rule::ForwardingModel) -> (Seq<char>, Seq<char>) {
    match f {
        rule::ForwardingModel::Local {
            bind_address,
            bind_port,
            destination_host,
            destination_port,
        } => (
            "-L"@,
            bracketed(bind_address) + ":"@ + text::decimal(bind_port as nat) + ":"@ + bracketed(
                destination_host,
            ) + ":"@ + text::decimal(destination_port as nat),
        ),
        rule::ForwardingModel::Remote {
            bind_address,
            bind_port,
            destination_host,
            destination_port,
        } => (
            "-R"@,
            bracketed(bind_address) + ":"@ + text::decimal(bind_port as nat) + ":"@ + bracketed(
                destination_host,
            ) + ":"@ + text::decimal(destination_port as nat),
        ),
        rule::ForwardingModel::Dynamic { bind_address, bind_port } => (
            "-D"@,
            bracketed(bind_address) + ":"@ + text::decimal(bind_port as nat),
        ),
    }
}

pub fn bracket(value: &str) -> (r: String)
    ensures
        r@ == bracketed(value@),
{
    let chars = text::chars_of(value);
    if text::has_char(chars.as_slice(), ':') {
        text::joined3("[", value, "]")
    } else {
        value.to_owned()
    }
}

fn endpoints(bind: &str, bind_port: u16, host: &str, port: u16) -> (r: String)
    ensures
        r@ == bracketed(bind@) + ":"@ + text::decimal(bind_port as nat) + ":"@ + bracketed(host@)
            + ":"@ + text::decimal(port as nat),
{
    let mut out = bracket(bind);
    out.append(":");
    text::push_decimal(&mut out, bind_port as u64);
    out.append(":");
    out.append(bracket(host).as_str());
    out.append(":");
    text::push_decimal(&mut out, port as u64);
    out
}

pub fn forwarding(value: &Rule) -> (r: (&'static str, String))
    ensures
        (r.0@, r.1@) == forwarding_arguments(value@.forwarding),
{
    match value.forwarding() {
        Forwarding::Local(v) => (
            "-L",
            endpoints(
                v.bind_address().as_str(),
                v.bind_port().get(),
                v.destination_host().as_str(),
                v.destination_port().get(),
            ),
        ),
        Forwarding::Remote(v) => (
            "-R",
            endpoints(
                v.bind_address().as_str(),
                v.bind_port().get(),
                v.destination_host().as_str(),
                v.destination_port().get(),
            ),
        ),
        Forwarding::Dynamic(v) => {
            let mut out = bracket(v.bind_address().as_str());
            out.append(":");
            text::push_decimal(&mut out, v.bind_port().get() as u64);
            ("-D", out)
        },
    }
}

/// What the guardian of one attempt is told.
#[derive(Debug)]
pub struct GuardianSpec {
    pub ssh: Vec<u8>,
    pub alias: String,
    pub socket: Vec<u8>,
    pub attempt_dir: Vec<u8>,
    pub forward_flag: String,
    pub forward_spec: String,
}

/// The directory of an attempt.
pub open spec fn attempt_directory(runtime: Seq<u8>, attempt_id: u128) -> Seq<u8> {
    path::below(runtime, path::bytes("attempt-"@ + identity::hyphenated(attempt_id)))
}

/// What the guardian of an attempt at `value` is told, unless the path of the control socket
/// would be too long.
pub fn guardian_spec(
    platform: Platform,
    ssh: &[u8],
    runtime: &[u8],
    attempt_id: u128,
    value: &Rule,
) -> (r: Result<GuardianSpec, ProcessError>)
    ensures
        ({
            let directory = attempt_directory(runtime@, attempt_id);
            let socket = path::below(directory, path::bytes("control.sock"@));
            match r {
                Ok(spec) => {
                    &&& socket.len() < paths::socket_limit(platform)
                    &&& spec.ssh@ == ssh@
                    &&& spec.alias@ == value@.ssh_host_alias
                    &&& spec.socket@ == socket
                    &&& spec.attempt_dir@ == directory
                    &&& (spec.forward_flag@, spec.forward_spec@) == forwarding_arguments(
                        value@.forwarding,
                    )
                },
                Err(error) => socket.len() >= paths::socket_limit(platform) && error@
                    == ProcessFailure::Io("control socket path is too long"@),
            }
        }),
{
    let name = text::joined("attempt-", identity::uuid_text(attempt_id).as_str());
    let attempt_dir = path::join_text(runtime, name.as_str());
    let socket = path::join_text(attempt_dir.as_slice(), "control.sock");
    if !paths::fits_socket(platform, socket.len()) {
        return Err(ProcessError::Io("control socket path is too long".to_owned()));
    }
    let (flag, forward_spec) = forwarding(value);
    Ok(
        GuardianSpec {
            ssh: path::copied(ssh),
            alias: value.ssh_host_alias().as_str().to_owned(),
            socket,
            attempt_dir,
            forward_flag: flag.to_owned(),
            forward_spec,
        },
    )
}

/// What a list of byte strings holds.
pub open spec fn byte_texts(list: Seq<&str>) -> Seq<Seq<u8>> {
    list.map_values(|s: &str| path::bytes(s@))
}

fn push_texts(out: &mut Vec<Vec<u8>>, list: &[&str])
    ensures
        hosts::byte_lists(final(out)@) == hosts::byte_lists(old(out)@) + byte_texts(list@),
{
    let ghost start = hosts::byte_lists(out@);
    let ghost all = byte_texts(list@);
    let mut i: usize = 0;
    while i < list.len()
        invariant
            i <= list@.len(),
            all == byte_texts(list@),
            hosts::byte_lists(out@) =~= start + all.take(i as int),
        decreases list.len() - i,
    {
        let ghost before = out@;
        let next = path::copied(list[i].as_bytes());
        out.push(next);
        assert(hosts::byte_lists(out@) =~= hosts::byte_lists(before).push(next@));
        assert(all.take(i as int + 1) =~= all.take(i as int).push(all[i as int]));
        i = i + 1;
    }
    assert(all.take(all.len() as int) =~= all);
}

fn push_raw(out: &mut Vec<Vec<u8>>, value: &[u8])
    ensures
        hosts::byte_lists(final(out)@) == hosts::byte_lists(old(out)@).push(value@),
{
    let ghost before = out@;
    let next = path::copied(value);
    out.push(next);
    assert(hosts::byte_lists(out@) =~= hosts::byte_lists(before).push(value@));
}

/// The options of every SSH master: it asks for nothing, runs nothing, opens no forwarding of
/// its own and stays in the foreground under the guardian.
pub open spec fn master_options() -> Seq<Seq<u8>> {
    seq![
        path::bytes("-N"@),
        path::bytes("-T"@),
        path::bytes("-n"@),
        path::bytes("-o"@),
        path::bytes("BatchMode=yes"@),
        path::bytes("-o"@),
        path::bytes("ClearAllForwardings=yes"@),
        path::bytes("-o"@),
        path::bytes("ControlMaster=yes"@),
        path::bytes("-o"@),
        path::bytes("ControlPersist=no"@),
        path::bytes("-o"@),
        path::bytes("ForkAfterAuthentication=no"@),
        path::bytes("-o"@),
        path::bytes("ExitOnForwardFailure=yes"@),
        path::bytes("-o"@),
        path::bytes("ServerAliveInterval=15"@),
        path::bytes("-o"@),
        path::bytes("ServerAliveCountMax=3"@),
        path::bytes("-S"@),
    ]
}

/// The arguments of the SSH master of an attempt.
pub fn master_arguments(spec: &GuardianSpec) -> (r: Vec<Vec<u8>>)
    ensures
        hosts::byte_lists(r@) == master_options().push(spec.socket@).push(
            path::bytes(spec.alias@),
        ),
{
    let options = [
        "-N",
        "-T",
        "-n",
        "-o",
        "BatchMode=yes",
        "-o",
        "ClearAllForwardings=yes",
        "-o",
        "ControlMaster=yes",
        "-o",
        "ControlPersist=no",
        "-o",
        "ForkAfterAuthentication=no",
        "-o",
        "ExitOnForwardFailure=yes",
        "-o",
        "ServerAliveInterval=15",
        "-o",
        "ServerAliveCountMax=3",
        "-S",
    ];
    let mut out: Vec<Vec<u8>> = Vec::new();
    assert(hosts::byte_lists(out@) =~= Seq::<Seq<u8>>::empty());
    push_texts(&mut out, &options);
    assert(hosts::byte_lists(out@) =~= master_options());
    push_raw(&mut out, spec.socket.as_slice());
    push_raw(&mut out, spec.alias.as_str().as_bytes());
    out
}

/// A request to a running SSH master.
#[derive(Clone, Copy, Debug, PartialEq, Eq, Structural)]
pub enum ControlRequest {
    /// Is it there?
    Check,
    /// Open the forwarding of the attempt.
    Forward,
}

pub open spec fn control_parts(spec: GuardianSpec, request: ControlRequest) -> Seq<Seq<u8>> {
    match request {
        ControlRequest::Check => seq![path::bytes("-O"@), path::bytes("check"@)],
        ControlRequest::Forward => seq![
            path::bytes("-O"@),
            path::bytes("forward"@),
            path::bytes("-o"@),
            path::bytes("ClearAllForwardings=no"@),
            path::bytes("-o"@),
            path::bytes("ExitOnForwardFailure=yes"@),
            path::bytes(spec.forward_flag@),
            path::bytes(spec.forward_spec@),
        ],
    }
}

/// The arguments that bring a request to the SSH master of an attempt. No configuration file
/// takes part.
pub fn control_arguments(spec: &GuardianSpec, request: ControlRequest) -> (r: Vec<Vec<u8>>)
    ensures
        hosts::byte_lists(r@) == (seq![
            path::bytes("-F"@),
            path::bytes("/dev/null"@),
            path::bytes("-S"@),
            spec.socket@,
        ] + control_parts(*spec, request)).push(path::bytes(spec.alias@)),
        request is Check ==> hosts::byte_lists(r@) == seq![
            path::bytes("-F"@),
            path::bytes("/dev/null"@),
            path::bytes("-S"@),
            spec.socket@,
            path::bytes("-O"@),
            path::bytes("check"@),
            path::bytes(spec.alias@),
        ],
        request is Forward ==> hosts::byte_lists(r@) == seq![
            path::bytes("-F"@),
            path::bytes("/dev/null"@),
            path::bytes("-S"@),
            spec.socket@,
            path::bytes("-O"@),
            path::bytes("forward"@),
            path::bytes("-o"@),
            path::bytes("ClearAllForwardings=no"@),
            path::bytes("-o"@),
            path::bytes("ExitOnForwardFailure=yes"@),
            path::bytes(spec.forward_flag@),
            path::bytes(spec.forward_spec@),
            path::bytes(spec.alias@),
        ],
{
    let mut out: Vec<Vec<u8>> = Vec::new();
    assert(hosts::byte_lists(out@) =~= Seq::<Seq<u8>>::empty());
    let first = ["-F", "/dev/null", "-S"];
    push_texts(&mut out, &first);
    push_raw(&mut out, spec.socket.as_slice());
    assert(hosts::byte_lists(out@) =~= seq![
        path::bytes("-F"@),
        path::bytes("/dev/null"@),
        path::bytes("-S"@),
        spec.socket@,
    ]);
    match request {
        ControlRequest::Check => {
            let parts = ["-O", "check"];
            push_texts(&mut out, &parts);
            assert(byte_texts(parts@) =~= control_parts(*spec, request));
        },
        ControlRequest::Forward => {
            let parts = [
                "-O",
                "forward",
                "-o",
                "ClearAllForwardings=no",
                "-o",
                "ExitOnForwardFailure=yes",
                spec.forward_flag.as_str(),
                spec.forward_spec.as_str(),
            ];
            push_texts(&mut out, &parts);
            assert(byte_texts(parts@) =~= control_parts(*spec, request));
        },
    }
    push_raw(&mut out, spec.alias.as_str().as_bytes());
    out
}

/// The arguments with which the daemon starts a guardian that inherits two descriptors.
pub fn guardian_arguments(lease: u32, lock: u32) -> (r: Vec<String>)
    ensures
        text::texts(r@) == seq![
            "daemon"@,
            "guardian"@,
            "--lease-fd"@,
            text::decimal(lease as nat),
            "--lock-fd"@,
            text::decimal(lock as nat),
        ],
{
    let mut out: Vec<String> = Vec::new();
    out.push("daemon".to_owned());
    out.push("guardian".to_owned());
    out.push("--lease-fd".to_owned());
    out.push(text::decimal_text(lease as u64));
    out.push("--lock-fd".to_owned());
    out.push(text::decimal_text(lock as u64));
    assert(text::texts(out@) =~= seq![
        "daemon"@,
        "guardian"@,
        "--lease-fd"@,
        text::decimal(lease as nat),
        "--lock-fd"@,
        text::decimal(lock as nat),
    ]);
    out
}

// ---------------------------------------------------------------------------
// Startup under the guardian
// ---------------------------------------------------------------------------
/// Why a master has to be given up.
#[derive(Debug)]
pub enum StartupFailure {
    /// It ended, with this status.
    Exited(String),
    NotReady,
    ForwardRejected(String),
    ExitedAfterForward,
}

/// The next thing to do in order to bring up a forwarding.
#[derive(Debug)]
pub enum StartupStep {
    /// See whether the master has ended, answers, or has had its time.
    Poll,
    /// Wait a moment, then poll again.
    Pause,
    /// Ask the master for the forwarding.
    Forward,
    /// See whether the master is still there.
    Confirm,
    /// End the master's process group.
    Terminate(StartupFailure),
    /// Collect what the master printed.
    Collect(StartupFailure),
    /// The forwarding is up.
    Ready,
    Failed(ProcessError),
}

/// A status, readiness and the deadline are looked at in this order.
pub fn after_poll(exited: Option<String>, ready: bool, late: bool) -> (r: StartupStep)
    ensures
        match exited {
            Some(status) => r == StartupStep::Collect(StartupFailure::Exited(status)),
            None => if ready {
                r is Forward
            } else if late {
                r == StartupStep::Terminate(StartupFailure::NotReady)
            } else {
                r is Pause
            },
        },
{
    match exited {
        Some(status) => StartupStep::Collect(StartupFailure::Exited(status)),
        None => if ready {
            StartupStep::Forward
        } else if late {
            StartupStep::Terminate(StartupFailure::NotReady)
        } else {
            StartupStep::Pause
        },
    }
}

pub fn after_forward(outcome: Result<(), ProcessError>) -> (r: StartupStep)
    ensures
        match outcome {
            Ok(_) => r is Confirm,
            Err(error) => r matches StartupStep::Terminate(
                StartupFailure::ForwardRejected(message),
            ) && message@ == failure_message(error@),
        },
{
    match outcome {
        Ok(_) => StartupStep::Confirm,
        Err(error) => StartupStep::Terminate(StartupFailure::ForwardRejected(error.to_string())),
    }
}

pub fn after_confirm(exited: bool) -> (r: StartupStep)
    ensures
        if exited {
            r == StartupStep::Collect(StartupFailure::ExitedAfterForward)
        } else {
            r is Ready
        },
{
    if exited {
        StartupStep::Collect(StartupFailure::ExitedAfterForward)
    } else {
        StartupStep::Ready
    }
}

pub fn after_terminate(failure: StartupFailure, outcome: Result<(), ProcessError>) -> (r: StartupStep)
    ensures
        match outcome {
            Ok(_) => r == StartupStep::Collect(failure),
            Err(error) => r == StartupStep::Failed(error),
        },
{
    match outcome {
        Ok(_) => StartupStep::Collect(failure),
        Err(error) => StartupStep::Failed(error),
    }
}

/// What is reported of a failure. `printed` is what the master printed: it decides which of the
/// fixed sentences is said, and nothing of it is handed on. If it printed nothing, the reason for
/// which it was given up is said.
pub open spec fn startup_message(failure: StartupFailure, printed: Seq<char>) -> Seq<char> {
    if printed.len() > 0 {
        diagnosed(printed).sentence()
    } else {
        match failure {
            StartupFailure::Exited(status) => "SSH master exited with "@ + status@,
            StartupFailure::NotReady => "SSH master readiness timed out"@,
            StartupFailure::ForwardRejected(message) => message@,
            StartupFailure::ExitedAfterForward =>
            "SSH master exited after accepting the forwarding"@,
        }
    }
}

/// `output` is what the master printed; white space around it does not count. It is classified
/// and dropped.
pub fn after_collect(failure: StartupFailure, output: &str) -> (r: StartupStep)
    ensures
        r matches StartupStep::Failed(error) && error@ == ProcessFailure::Startup(
            startup_message(failure, text::trim(output@)),
        ),
        text::trim(output@).len() > 0 ==> (r matches StartupStep::Failed(error) && error@
            == ProcessFailure::Startup(diagnosed(text::trim(output@)).sentence())),
{
    let chars = text::chars_of(output);
    let trimmed = text::trimmed(chars.as_slice());
    if trimmed.len() > 0 {
        let diagnostic = classify_diagnostic(text::text_of(trimmed).as_str());
        return StartupStep::Failed(ProcessError::Startup(diagnostic.message.to_owned()));
    }
    let message = match failure {
        StartupFailure::Exited(status) => text::joined("SSH master exited with ", status.as_str()),
        StartupFailure::NotReady => "SSH master readiness timed out".to_owned(),
        StartupFailure::ForwardRejected(message) => message,
        StartupFailure::ExitedAfterForward => {
            "SSH master exited after accepting the forwarding".to_owned()
        },
    };
    StartupStep::Failed(ProcessError::Startup(message))
}

/// As `after_collect`, on the bytes that the master printed.
pub fn after_capture(failure: StartupFailure, output: &[u8]) -> (r: StartupStep)
    ensures
        r matches StartupStep::Failed(error) && error@ == ProcessFailure::Startup(
            startup_message(failure, text::trim(text::lossy(output@))),
        ),
{
    let printed = text::lossy_text(output);
    after_collect(failure, printed.as_str())
}

/// Captured output is never reported: outputs of one kind give one message, whatever else they
/// hold and for whatever reason the masters were given up.
pub proof fn output_is_never_reported(
    failure: StartupFailure,
    output: Seq<char>,
    other_failure: StartupFailure,
    other_output: Seq<char>,
)
    requires
        text::trim(output).len() > 0,
        text::trim(other_output).len() > 0,
        diagnosed(text::trim(output)) == diagnosed(text::trim(other_output)),
    ensures
        startup_message(failure, text::trim(output)) == startup_message(
            other_failure,
            text::trim(other_output),
        ),
{
}

/// What the daemon is told of a startup that failed with this message.
pub open spec fn told(message: Seq<char>) -> Seq<char> {
    failure_message(ProcessFailure::Startup(message))
}

/// The kind whose sentence a guardian reports; any other report is of an unknown kind.
pub open spec fn reported_kind(diagnostic: Seq<char>) -> DiagnosticKind {
    if diagnostic == told(DiagnosticKind::Authentication.sentence()) {
        DiagnosticKind::Authentication
    } else if diagnostic == told(DiagnosticKind::HostKey.sentence()) {
        DiagnosticKind::HostKey
    } else if diagnostic == told(DiagnosticKind::Listener.sentence()) {
        DiagnosticKind::Listener
    } else if diagnostic == told(DiagnosticKind::Network.sentence()) {
        DiagnosticKind::Network
    } else if diagnostic == told(DiagnosticKind::RemoteRejected.sentence()) {
        DiagnosticKind::RemoteRejected
    } else {
        DiagnosticKind::Unknown
    }
}

/// Failures of the network and a master that was not ready in time are worth another attempt.
/// Everything else needs the user.
pub open spec fn worth_retrying(diagnostic: Seq<char>) -> bool {
    reported_kind(diagnostic) == DiagnosticKind::Network || diagnostic == told(
        "SSH master readiness timed out"@,
    )
}

fn tells(diagnostic: &str, message: &str) -> (r: bool)
    ensures
        r == (diagnostic@ == told(message@)),
{
    let whole = text::joined("SSH startup failed: ", message);
    text::same(diagnostic, whole.as_str())
}

/// The kind of a failure to start. Only what a guardian reports can be of a known kind.
pub open spec fn failure_kind(failure: ProcessFailure) -> DiagnosticKind {
    match failure {
        ProcessFailure::Startup(diagnostic) => reported_kind(diagnostic),
        _ => DiagnosticKind::Unknown,
    }
}

/// A failure to start is worth another attempt.
pub open spec fn is_transient(failure: ProcessFailure) -> bool {
    match failure {
        ProcessFailure::Startup(diagnostic) => worth_retrying(diagnostic),
        _ => false,
    }
}

/// The kind of a failure to start, and whether it is worth another attempt.
pub fn read_failure(error: &ProcessError) -> (r: (DiagnosticKind, bool))
    ensures
        r.0 == failure_kind(error@),
        r.1 == is_transient(error@),
{
    let diagnostic = match error {
        ProcessError::Startup(diagnostic) => diagnostic.as_str(),
        _ => {
            return (DiagnosticKind::Unknown, false);
        },
    };
    let kind = if tells(diagnostic, "SSH authentication failed") {
        DiagnosticKind::Authentication
    } else if tells(diagnostic, "SSH host-key verification failed") {
        DiagnosticKind::HostKey
    } else if tells(diagnostic, "the requested listener could not be created") {
        DiagnosticKind::Listener
    } else if tells(diagnostic, "the SSH network connection failed") {
        DiagnosticKind::Network
    } else if tells(diagnostic, "the SSH server rejected remote forwarding") {
        DiagnosticKind::RemoteRejected
    } else {
        DiagnosticKind::Unknown
    };
    let retry = kind == DiagnosticKind::Network || tells(
        diagnostic,
        "SSH master readiness timed out",
    );
    (kind, retry)
}

/// The daemon reads back the kind that the guardian found.
pub proof fn kinds_read_back(kind: DiagnosticKind)
    ensures
        reported_kind(told(kind.sentence())) == kind,
        worth_retrying(told(kind.sentence())) == (kind == DiagnosticKind::Network),
{
    reveal_strlit("SSH authentication failed");
    reveal_strlit("SSH host-key verification failed");
    reveal_strlit("the requested listener could not be created");
    reveal_strlit("the SSH network connection failed");
    reveal_strlit("the SSH server rejected remote forwarding");
    reveal_strlit("SSH startup failed for an unclassified reason");
    reveal_strlit("SSH master readiness timed out");
    let prefix = "SSH startup failed: "@;
    assert(forall|s: Seq<char>| (#[trigger] told(s)) == prefix + s);
    assert forall|a: Seq<char>, b: Seq<char>| a.len() != b.len() implies (#[trigger] told(a)) != (
    #[trigger] told(b)) by {
        assert(told(a).len() == prefix.len() + a.len());
        assert(told(b).len() == prefix.len() + b.len());
    }
}

/// What to do about a control request that is under way.
#[derive(Debug)]
pub enum ControlStep {
    Wait,
    Finished(Result<(), ProcessError>),
    /// Kill the client, then end with the error.
    Kill(ProcessError),
}

/// `ended` is whether the client succeeded, once it has ended.
pub fn control_step(ended: Option<bool>, late: bool) -> (r: ControlStep)
    ensures
        match ended {
            Some(true) => r matches ControlStep::Finished(Ok(_)),
            Some(false) => r matches ControlStep::Finished(Err(error)) && error@
                == ProcessFailure::Startup("SSH control request was rejected"@),
            None => if late {
                r matches ControlStep::Kill(error) && error@ == ProcessFailure::Startup(
                    "SSH control request timed out"@,
                )
            } else {
                r is Wait
            },
        },
{
    match ended {
        Some(true) => ControlStep::Finished(Ok(())),
        Some(false) => ControlStep::Finished(
            Err(ProcessError::Startup("SSH control request was rejected".to_owned())),
        ),
        None => if late {
            ControlStep::Kill(ProcessError::Startup("SSH control request timed out".to_owned()))
        } else {
            ControlStep::Wait
        },
    }
}

/// What to do about a process group that was asked to end.
#[derive(Clone, Copy, Debug, PartialEq, Eq, Structural)]
pub enum TerminateStep {
    Wait,
    Ended,
    Kill,
}

pub fn terminate_step(exited: bool, late: bool) -> (r: TerminateStep)
    ensures
        r == (if exited {
            TerminateStep::Ended
        } else if late {
            TerminateStep::Kill
        } else {
            TerminateStep::Wait
        }),
{
    if exited {
        TerminateStep::Ended
    } else if late {
        TerminateStep::Kill
    } else {
        TerminateStep::Wait
    }
}

// ---------------------------------------------------------------------------
// Between the daemon and the guardian
// ---------------------------------------------------------------------------
/// What the guardian reports once the startup has come to its end.
#[derive(Debug)]
pub struct GuardianReport {
    pub accepted: bool,
    pub diagnostic: String,
    pub master_pid: u32,
}

pub fn guardian_report(outcome: &Result<u32, ProcessError>) -> (r: GuardianReport)
    ensures
        match outcome {
            Ok(pid) => r.accepted && r.diagnostic@.len() == 0 && r.master_pid == *pid,
            Err(error) => !r.accepted && r.diagnostic@ == failure_message(error@) && r.master_pid
                == 0,
        },
{
    match outcome {
        Ok(pid) => GuardianReport {
            accepted: true,
            diagnostic: String::new(),
            master_pid: *pid,
        },
        Err(error) => GuardianReport {
            accepted: false,
            diagnostic: error.to_string(),
            master_pid: 0,
        },
    }
}

/// The process ID of the master, if the guardian reports success and a usable one. Process IDs
/// are positive and fit in 31 bits.
pub fn accept_report(report: &GuardianReport) -> (r: Result<i32, ProcessError>)
    ensures
        match r {
            Ok(pid) => report.accepted && pid > 0 && pid == report.master_pid,
            Err(error) => if !report.accepted {
                error@ == ProcessFailure::Startup(report.diagnostic@)
            } else {
                (report.master_pid == 0 || report.master_pid > i32::MAX) && error@
                    == ProcessFailure::Protocol("guardian returned an invalid master PID"@)
            },
        },
{
    if !report.accepted {
        return Err(ProcessError::Startup(report.diagnostic.clone()));
    }
    if report.master_pid == 0 || report.master_pid > 0x7fff_ffff {
        return Err(ProcessError::Protocol("guardian returned an invalid master PID".to_owned()));
    }
    Ok(report.master_pid as i32)
}

/// What reading the lease gave.
#[derive(Clone, Copy, Debug, PartialEq, Eq, Structural)]
pub enum LeaseRead {
    /// Nothing has come and the daemon still holds its end.
    Pending,
    /// The daemon closed its end or sent something, or the lease is broken.
    Ended,
}

/// What the guardian does next while the forwarding is up.
#[derive(Clone, Copy, Debug, PartialEq, Eq, Structural)]
pub enum WatchStep {
    Wait,
    /// End the master and clean up.
    Terminate,
    /// The master has ended on its own: clean up.
    CleanUp,
}

/// The guardian ends the master as soon as the daemon lets go of the lease. The lease is looked
/// at before the master.
pub fn watch_step(lease: LeaseRead, exited: bool) -> (r: WatchStep)
    ensures
        r == (if lease == LeaseRead::Ended {
            WatchStep::Terminate
        } else if exited {
            WatchStep::CleanUp
        } else {
            WatchStep::Wait
        }),
{
    if lease == LeaseRead::Ended {
        WatchStep::Terminate
    } else if exited {
        WatchStep::CleanUp
    } else {
        WatchStep::Wait
    }
}

/// One thing that a guardian does at its end.
#[derive(Clone, Copy, Debug, PartialEq, Eq, Structural)]
pub enum EndAction {
    /// End the master's process group and reap the master.
    TerminateGroup,
    /// Wait until all that the master printed is read.
    CollectOutput,
    /// Remove the directory of the attempt.
    RemoveDirectory,
    /// Let go of the daemon's lock.
    ReleaseLock,
}

/// What a guardian does once it stops watching, in this order.
pub open spec fn ending(step: WatchStep) -> Seq<EndAction> {
    match step {
        WatchStep::Wait => Seq::empty(),
        WatchStep::Terminate => seq![
            EndAction::TerminateGroup,
            EndAction::CollectOutput,
            EndAction::RemoveDirectory,
            EndAction::ReleaseLock,
        ],
        WatchStep::CleanUp => seq![
            EndAction::CollectOutput,
            EndAction::RemoveDirectory,
            EndAction::ReleaseLock,
        ],
    }
}

pub fn end_actions(step: WatchStep) -> (r: Vec<EndAction>)
    ensures
        r@ == ending(step),
{
    let mut out: Vec<EndAction> = Vec::new();
    match step {
        WatchStep::Wait => {
            return out;
        },
        WatchStep::Terminate => {
            out.push(EndAction::TerminateGroup);
        },
        WatchStep::CleanUp => {},
    }
    out.push(EndAction::CollectOutput);
    out.push(EndAction::RemoveDirectory);
    out.push(EndAction::ReleaseLock);
    assert(out@ =~= ending(step));
    out
}

/// A guardian that ends removes the directory and lets go of the lock, the lock last: no new
/// daemon starts anything while an attempt is being cleaned up.
pub proof fn the_lock_is_released_last(step: WatchStep, i: int)
    requires
        step != WatchStep::Wait,
        0 <= i < ending(step).len(),
    ensures
        ending(step).contains(EndAction::RemoveDirectory),
        ending(step)[i] == EndAction::ReleaseLock <==> i == ending(step).len() - 1,
        step == WatchStep::Terminate ==> ending(step)[0] == EndAction::TerminateGroup,
{
    assert(ending(step)[ending(step).len() - 2] == EndAction::RemoveDirectory);
}

/// One thing that the daemon does to an attempt whose guardian failed.
#[derive(Clone, Copy, Debug, PartialEq, Eq, Structural)]
pub enum ForcedAction {
    KillMasterGroup,
    /// Kill the guardian and reap it.
    KillGuardian,
    RemoveDirectory,
}

/// What the daemon has to do itself because the guardian did not.
pub open spec fn forced(failed: bool) -> Seq<ForcedAction> {
    if failed {
        seq![
            ForcedAction::KillMasterGroup,
            ForcedAction::KillGuardian,
            ForcedAction::RemoveDirectory,
        ]
    } else {
        Seq::empty()
    }
}

pub fn forced_actions(cleaned: &Result<(), ProcessError>) -> (r: Vec<ForcedAction>)
    ensures
        r@ == forced(cleaned is Err),
{
    let mut out: Vec<ForcedAction> = Vec::new();
    if cleaned.is_err() {
        out.push(ForcedAction::KillMasterGroup);
        out.push(ForcedAction::KillGuardian);
        out.push(ForcedAction::RemoveDirectory);
    }
    assert(out@ =~= forced(cleaned is Err));
    out
}

/// How waiting for the guardian's end goes on.
#[derive(Debug)]
pub enum WaitStep {
    Wait,
    Ended,
    Failed(ProcessError),
}

pub fn wait_step(exited: bool, late: bool) -> (r: WaitStep)
    ensures
        if exited {
            r is Ended
        } else if late {
            r matches WaitStep::Failed(error) && error@ == ProcessFailure::Protocol(
                "guardian did not finish cleanup"@,
            )
        } else {
            r is Wait
        },
{
    if exited {
        WaitStep::Ended
    } else if late {
        WaitStep::Failed(ProcessError::Protocol("guardian did not finish cleanup".to_owned()))
    } else {
        WaitStep::Wait
    }
}

/// How a guardian ended: whether it succeeded, and its status as text.
#[derive(Debug)]
pub struct GuardianExit {
    pub success: bool,
    pub status: String,
}

/// What comes of stopping an attempt.
pub fn cleanup_result(waited: Result<GuardianExit, ProcessError>) -> (r: Result<(), ProcessError>)
    ensures
        match waited {
            Ok(exit) => if exit.success {
                r is Ok
            } else {
                r matches Err(error) && error@ == ProcessFailure::Protocol(
                    "guardian exited unsuccessfully: "@ + exit.status@,
                )
            },
            Err(error) => r == Err::<(), ProcessError>(error),
        },
{
    match waited {
        Ok(exit) => if exit.success {
            Ok(())
        } else {
            Err(
                ProcessError::Protocol(
                    text::joined("guardian exited unsuccessfully: ", exit.status.as_str()),
                ),
            )
        },
        Err(error) => Err(error),
    }
}

/// Accepts a line that the other side of the lease sent. An empty read means that it is gone.
pub fn check_message(read: usize) -> (r: Result<(), ProcessError>)
    ensures
        match r {
            Ok(_) => 0 < read <= MAX_STDERR_BYTES * 2,
            Err(error) => (read == 0 || read > MAX_STDERR_BYTES * 2) && error@
                == ProcessFailure::Protocol("guardian disconnected or sent an oversized message"@),
        },
{
    if read == 0 || read > MAX_STDERR_BYTES * 2 {
        Err(
            ProcessError::Protocol("guardian disconnected or sent an oversized message".to_owned()),
        )
    } else {
        Ok(())
    }
}

// ---------------------------------------------------------------------------
// Output of the master
// ---------------------------------------------------------------------------
/// Reads everything there is, in pieces, and keeps the start of it.
pub fn bounded_read(reader: &[u8]) -> (retained: Vec<u8>)
    ensures
        retained@ == hosts::bounded(reader@, MAX_STDERR_BYTES as int),
{
    let mut retained: Vec<u8> = Vec::new();
    let mut i: usize = 0;
    assert(hosts::bounded(reader@.take(0), MAX_STDERR_BYTES as int) =~= Seq::<u8>::empty());
    while i < reader.len()
        invariant
            i <= reader@.len(),
            retained@ == hosts::bounded(reader@.take(i as int), MAX_STDERR_BYTES as int),
        decreases reader.len() - i,
    {
        let left: usize = reader.len() - i;
        let count: usize = if left < 8192 {
            left
        } else {
            8192
        };
        let chunk = slice_subrange(reader, i, i + count);
        proof {
            let empty = Seq::<u8>::empty();
            let before = reader@.take(i as int);
            hosts::chunks_do_not_matter(empty, before, chunk@, MAX_STDERR_BYTES as int);
            assert(empty + before =~= before);
            assert(empty + (before + chunk@) =~= reader@.take(i + count));
        }
        hosts::keep_bounded(&mut retained, chunk);
        i = i + count;
    }
    assert(reader@.take(reader@.len() as int) =~= reader@);
    retained
}

// ---------------------------------------------------------------------------
// What the arguments and the diagnoses say
// ---------------------------------------------------------------------------
/// A control request names the thing that it asks for: whether the master is there, or that it
/// open the forwarding of the attempt. Only the second one carries the forwarding, and it neither
/// drops the forwarding nor goes on without it.
pub proof fn control_requests_say_what_they_ask(spec: GuardianSpec)
    ensures
        control_parts(spec, ControlRequest::Check) == seq![path::bytes("-O"@), path::bytes("check"@)],
        control_parts(spec, ControlRequest::Forward)[0] == path::bytes("-O"@),
        control_parts(spec, ControlRequest::Forward)[1] == path::bytes("forward"@),
        control_parts(spec, ControlRequest::Forward).subrange(2, 6) == seq![
            path::bytes("-o"@),
            path::bytes("ClearAllForwardings=no"@),
            path::bytes("-o"@),
            path::bytes("ExitOnForwardFailure=yes"@),
        ],
        control_parts(spec, ControlRequest::Forward).skip(6) == seq![
            path::bytes(spec.forward_flag@),
            path::bytes(spec.forward_spec@),
        ],
{
}

/// A master runs no command and has no terminal and no input, never asks, opens no forwarding by
/// itself, ends with the guardian that watches it, and notices a connection that died within three
/// intervals of fifteen seconds. The path of its control socket comes last.
pub proof fn masters_only_carry_the_attempt()
    ensures
        master_options().take(3) == seq![
            path::bytes("-N"@),
            path::bytes("-T"@),
            path::bytes("-n"@),
        ],
        master_options().last() == path::bytes("-S"@),
        master_options().len() == 20,
        forall|i: int| #![trigger master_options()[2 * i + 1]]
            1 <= i <= 8 ==> master_options()[2 * i + 1] == path::bytes("-o"@),
        master_options()[4] == path::bytes("BatchMode=yes"@),
        master_options()[6] == path::bytes("ClearAllForwardings=yes"@),
        master_options()[8] == path::bytes("ControlMaster=yes"@),
        master_options()[10] == path::bytes("ControlPersist=no"@),
        master_options()[12] == path::bytes("ForkAfterAuthentication=no"@),
        master_options()[14] == path::bytes("ExitOnForwardFailure=yes"@),
        master_options()[16] == path::bytes("ServerAliveInterval=15"@),
        master_options()[18] == path::bytes("ServerAliveCountMax=3"@),
{
    assert forall|i: int| #![trigger master_options()[2 * i + 1]] 1 <= i <= 8 implies master_options()[2
        * i + 1] == path::bytes("-o"@) by {
        assert(i == 1 || i == 2 || i == 3 || i == 4 || i == 5 || i == 6 || i == 7 || i == 8);
    }
}

/// An address with a colon stands between brackets and is otherwise unchanged, so that the colons
/// of the specification can be told from its own.
pub proof fn only_colons_ask_for_brackets(s: Seq<char>)
    ensures
        !s.contains(':') ==> bracketed(s) == s,
        s.contains(':') ==> bracketed(s).len() == s.len() + 2 && bracketed(s)[0] == '['
            && bracketed(s).last() == ']' && bracketed(s).subrange(1, (s.len() + 1) as int) == s,
{
    reveal_strlit("[");
    reveal_strlit("]");
    assert(("["@ + s + "]"@).subrange(1, (s.len() + 1) as int) =~= s);
}

/// The flag tells the type of the forwarding. Whatever the type, the specification starts with
/// the address and the port on which the forwarding listens; behind them come the host and the
/// port to which it leads, and a dynamic forwarding has none.
pub proof fn listeners_come_before_destinations(f: rule::ForwardingModel)
    ensures
        ({
            let (flag, spec) = forwarding_arguments(f);
            let listener = bracketed(f.bind_address()) + ":"@ + text::decimal(f.bind_port() as nat);
            &&& f is Local <==> flag == "-L"@
            &&& f is Remote <==> flag == "-R"@
            &&& f is Dynamic <==> flag == "-D"@
            &&& text::begins(spec, listener)
            &&& f is Dynamic ==> spec == listener
            &&& f matches rule::ForwardingModel::Local { destination_host, destination_port, .. }
                ==> spec.skip(listener.len() as int) == ":"@ + bracketed(destination_host) + ":"@
                + text::decimal(destination_port as nat)
            &&& f matches rule::ForwardingModel::Remote { destination_host, destination_port, .. }
                ==> spec.skip(listener.len() as int) == ":"@ + bracketed(destination_host) + ":"@
                + text::decimal(destination_port as nat)
        }),
{
    reveal_strlit("-L");
    reveal_strlit("-R");
    reveal_strlit("-D");
    assert("-L"@[1] == 'L' && "-R"@[1] == 'R' && "-D"@[1] == 'D');
    let (flag, spec) = forwarding_arguments(f);
    let listener = bracketed(f.bind_address()) + ":"@ + text::decimal(f.bind_port() as nat);
    assert(spec.take(listener.len() as int) =~= listener);
    match f {
        rule::ForwardingModel::Local { destination_host, destination_port, .. } => {
            assert(spec.skip(listener.len() as int) =~= ":"@ + bracketed(destination_host) + ":"@
                + text::decimal(destination_port as nat));
        },
        rule::ForwardingModel::Remote { destination_host, destination_port, .. } => {
            assert(spec.skip(listener.len() as int) =~= ":"@ + bracketed(destination_host) + ":"@
                + text::decimal(destination_port as nat));
        },
        rule::ForwardingModel::Dynamic { .. } => {
            assert(spec =~= listener);
        },
    }
}

/// The same two endpoints are written down in the same way, whichever of them is local.
pub proof fn both_directions_are_written_alike(
    bind_address: Seq<char>,
    bind_port: u16,
    destination_host: Seq<char>,
    destination_port: u16,
)
    ensures
        forwarding_arguments(
            rule::ForwardingModel::Local {
                bind_address,
                bind_port,
                destination_host,
                destination_port,
            },
        ).1 == forwarding_arguments(
            rule::ForwardingModel::Remote {
                bind_address,
                bind_port,
                destination_host,
                destination_port,
            },
        ).1,
{
}

/// Every attempt has a directory of its own right below the runtime directory.
pub proof fn attempts_are_kept_apart(runtime: Seq<u8>, attempt_id: u128)
    requires
        runtime.len() > 0,
        runtime.last() != 0x2f,
    ensures
        attempt_directory(runtime, attempt_id) == runtime.push(0x2f) + path::bytes(
            "attempt-"@ + identity::hyphenated(attempt_id),
        ),
{
    reveal_strlit("attempt-");
    path::letters_start_relative_paths("attempt-"@ + identity::hyphenated(attempt_id));
}

/// A kind is found only if one of its phrases is in the output, in whatever case. A phrase never
/// leads to a kind further down in the order of authentication, host key, remote refusal, listener
/// and network. Nothing but the lack of every phrase leaves a failure unclassified.
pub proof fn phrases_decide_the_kind(output: Seq<char>)
    ensures
        ({
            let kind = diagnosed(output);
            let says = |phrase: Seq<char>| text::holds(text::lowered(output), phrase);
            let credentials = says("permission denied"@) || says("authentication failed"@);
            let identity = says("host key verification failed"@) || says(
                "remote host identification has changed"@,
            );
            let refusal = says("remote port forwarding failed"@) || says(
                "administratively prohibited"@,
            );
            let listener = says("address already in use"@) || says("cannot listen to port"@);
            let network = says("connection timed out"@) || says("connection refused"@) || says(
                "no route to host"@,
            ) || says("connection reset"@) || says("network is unreachable"@);
            &&& credentials <==> kind == DiagnosticKind::Authentication
            &&& identity ==> kind == DiagnosticKind::Authentication || kind
                == DiagnosticKind::HostKey
            &&& kind == DiagnosticKind::HostKey ==> identity
            &&& refusal ==> kind != DiagnosticKind::Listener && kind != DiagnosticKind::Network
                && kind != DiagnosticKind::Unknown
            &&& kind == DiagnosticKind::RemoteRejected ==> refusal
            &&& listener ==> kind != DiagnosticKind::Network && kind != DiagnosticKind::Unknown
            &&& kind == DiagnosticKind::Listener ==> listener
            &&& kind == DiagnosticKind::Network ==> network
            &&& kind == DiagnosticKind::Unknown <==> !credentials && !identity && !refusal
                && !listener && !network
        }),
{
}

/// Each kind has its own word and its own sentence.
pub proof fn kinds_have_fixed_words(kind: DiagnosticKind)
    ensures
        kind == DiagnosticKind::Authentication ==> kind.shown() == "authentication"@
            && kind.sentence() == "SSH authentication failed"@,
        kind == DiagnosticKind::HostKey ==> kind.shown() == "host_key"@ && kind.sentence()
            == "SSH host-key verification failed"@,
        kind == DiagnosticKind::Listener ==> kind.shown() == "listener"@ && kind.sentence()
            == "the requested listener could not be created"@,
        kind == DiagnosticKind::Network ==> kind.shown() == "network"@ && kind.sentence()
            == "the SSH network connection failed"@,
        kind == DiagnosticKind::RemoteRejected ==> kind.shown() == "remote_rejected"@
            && kind.sentence() == "the SSH server rejected remote forwarding"@,
        kind == DiagnosticKind::Unknown ==> kind.shown() == "unknown"@ && kind.sentence()
            == "SSH startup failed for an unclassified reason"@,
{
}

/// A failure says where it came from, and then its cause.
pub proof fn failures_name_their_origin(cause: Seq<char>)
    ensures
        failure_message(ProcessFailure::Io(cause)) == "SSH process I/O failed: "@ + cause,
        failure_message(ProcessFailure::Protocol(cause)) == "guardian protocol failed: "@ + cause,
        failure_message(ProcessFailure::Startup(cause)) == "SSH startup failed: "@ + cause,
        told(cause) == "SSH startup failed: "@ + cause,
{
}

/// What a master printed decides the sentence, whatever else went wrong. Of a silent master the
/// reason is told for which it was given up.
pub proof fn output_comes_before_the_reason(failure: StartupFailure, printed: Seq<char>)
    ensures
        printed.len() > 0 ==> startup_message(failure, printed) == diagnosed(printed).sentence(),
        printed.len() == 0 ==> {
            &&& failure matches StartupFailure::Exited(status) ==> startup_message(failure, printed)
                == "SSH master exited with "@ + status@
            &&& failure is NotReady ==> startup_message(failure, printed)
                == "SSH master readiness timed out"@
            &&& failure matches StartupFailure::ForwardRejected(message) ==> startup_message(
                failure,
                printed,
            ) == message@
            &&& failure is ExitedAfterForward ==> startup_message(failure, printed)
                == "SSH master exited after accepting the forwarding"@
        },
{
}

/// A silent master that was not ready in time is tried again, and so is a failure of the network.
/// No other failure is, however it is reported.
pub proof fn only_passing_failures_are_retried(failure: ProcessFailure)
    ensures
        is_transient(failure) <==> failure == ProcessFailure::Startup(
            "SSH startup failed: "@ + "the SSH network connection failed"@,
        ) || failure == ProcessFailure::Startup(
            "SSH startup failed: "@ + "SSH master readiness timed out"@,
        ),
        failure is Io || failure is Protocol ==> failure_kind(failure) == DiagnosticKind::Unknown,
        failure_kind(failure) != DiagnosticKind::Unknown ==> failure == ProcessFailure::Startup(
            told(failure_kind(failure).sentence()),
        ),
{
    kinds_read_back(DiagnosticKind::Network);
    match failure {
        ProcessFailure::Startup(diagnostic) => {},
        _ => {},
    }
}

/// A group of processes is ended only if the lease is over. What was printed is collected before
/// the directory goes, and a guardian that waits on does none of this.
pub proof fn cleanup_is_in_order(step: WatchStep)
    ensures
        step is Wait <==> ending(step).len() == 0,
        ending(step).contains(EndAction::TerminateGroup) <==> step is Terminate,
        step is Terminate ==> ending(step) == seq![
            EndAction::TerminateGroup,
            EndAction::CollectOutput,
            EndAction::RemoveDirectory,
            EndAction::ReleaseLock,
        ],
        step is CleanUp ==> ending(step) == ending(WatchStep::Terminate).skip(1),
{
    if step is Terminate {
        assert(ending(step)[0] == EndAction::TerminateGroup);
    }
    assert(ending(WatchStep::CleanUp) =~= ending(WatchStep::Terminate).skip(1));
}

/// The daemon interferes only with a guardian that failed, and then the master goes before the
/// guardian and the directory last.
pub proof fn only_failed_guardians_are_forced(failed: bool)
    ensures
        !failed <==> forced(failed).len() == 0,
        failed ==> forced(failed) == seq![
            ForcedAction::KillMasterGroup,
            ForcedAction::KillGuardian,
            ForcedAction::RemoveDirectory,
        ],
{
}

/// A start may take thirty seconds, a control request and a stop five each, and the answer to a
/// stop ten. What SSH prints is kept up to 64 KiB.
pub proof fn process_limits()
    ensures
        STARTUP_TIMEOUT == 30_000,
        CONTROL_TIMEOUT == 5_000,
        STOP_GRACE == 5_000,
        STOP_RESPONSE_TIMEOUT == 10_000,
        MAX_STDERR_BYTES == 64 * 1024,
{
}

/// What an error says is what it holds.
pub proof fn process_errors_say_what_they_hold(error: ProcessError)
    ensures
        error matches ProcessError::Io(cause) ==> error@ == ProcessFailure::Io(cause@),
        error matches ProcessError::Protocol(cause) ==> error@ == ProcessFailure::Protocol(cause@),
        error matches ProcessError::Startup(cause) ==> error@ == ProcessFailure::Startup(cause@),
{
}

/// Texts become the bytes of each of them, in order.
pub proof fn texts_become_bytes(list: Seq<&str>, i: int)
    ensures
        byte_texts(list).len() == list.len(),
        0 <= i < list.len() ==> byte_texts(list)[i] == path::bytes(list[i]@),
{
}

} // verus!
