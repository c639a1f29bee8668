use tunnel_deck::config::{Rule as WireRule, Settings, Theme};
use tunnel_deck::daemon::lifecycle::{
    check_lock, check_lock_file, readiness, serve_step, socket_plan, streams_events, DaemonError,
    LockOutcome, Readiness, ServeStep, SocketPlan,
};
use tunnel_deck::daemon::manager::{
    discard_result, stop_result, DaemonManager, Dispatch, PortProbe, SaveOutcome, StartOutcome,
    StartPlan,
};
use tunnel_deck::daemon::process::{
    accept_report, after_capture, after_collect, guardian_report, read_failure, ProcessError,
    StartupFailure, StartupStep,
};
use tunnel_deck::daemon::reconnect::{full_jitter, MAX_DELAY};
use tunnel_deck::daemon::recovery::Recovery;
use tunnel_deck::domain::rule::{Rule, RuleId};
use tunnel_deck::domain::status::{AttemptId, RuntimeState};
use tunnel_deck::ipc::{
    accept_response, encode_frame, end_of_stream, response, take_frame, Command, ErrorCode, Event,
    EventSequence, Operation, ProtocolError, Reply, Request, Response, RunState, Selector,
    TransportError, MAX_MESSAGE_BYTES, PROTOCOL_VERSION,
};
use tunnel_deck::platform::private_fs::{FileFacts, FileKind, FileLookup};

/// A manager whose changes are saved at once and whose processes are not managed.
struct Daemon {
    manager: DaemonManager,
    sequence: EventSequence,
    events: Vec<Event>,
    stored: Vec<Rule>,
    next_attempt: u128,
    occupied: Option<u16>,
}

impl Daemon {
    fn open(stored: Vec<Rule>) -> Self {
        Daemon {
            manager: DaemonManager::open(Some(stored.clone()), Settings::default()).unwrap(),
            sequence: EventSequence::new(),
            events: Vec::new(),
            stored,
            next_attempt: 1,
            occupied: None,
        }
    }

    fn handle(&mut self, command: Command) -> Result<Reply, ProtocolError> {
        let (result, announcement) = match self.manager.dispatch(command) {
            Dispatch::Answer(result) => (result, None),
            Dispatch::Save(change) => {
                self.stored = change.rules().clone();
                self.manager.commit(change, SaveOutcome::Saved)
            }
            Dispatch::Start(StartPlan::Requested(reply)) => (Ok(reply), None),
            Dispatch::Start(StartPlan::Begin { value, probe }) => {
                let attempt = self.next_attempt;
                self.next_attempt += 1;
                let port = match probe {
                    Some((_, port)) if Some(port) == self.occupied => PortProbe::InUse,
                    _ => PortProbe::Free,
                };
                self.manager.begin_start(&value, attempt, port)?;
                let ended = self.manager.finish_start(
                    value.id().as_uuid(),
                    attempt,
                    StartOutcome::Unmanaged,
                );
                (ended.result, ended.announcement)
            }
            Dispatch::Stop(plan) => stop_result(plan, Ok(())),
            Dispatch::Poll => {
                let (reply, _) = self.manager.status(&vec![]);
                (Ok(reply), None)
            }
        };
        if let Some(announcement) = announcement {
            self.events.push(self.sequence.publish(announcement));
        }
        result
    }

    fn start(&mut self, id: u128) -> Result<Reply, ProtocolError> {
        self.handle(Command::ForwardStart(Ok(Selector::Id(id))))
    }

    fn stop(&mut self, id: u128) -> Result<Reply, ProtocolError> {
        self.handle(Command::ForwardStop(Ok(Selector::Id(id))))
    }

    fn listed(&mut self) -> Vec<WireRule> {
        match self.handle(Command::ForwardList) {
            Ok(Reply::Rules(rules)) => rules,
            other => panic!("{other:?}"),
        }
    }
}

fn dynamic(id: u128, name: &str, port: u16) -> WireRule {
    WireRule::Dynamic {
        id,
        name: name.to_owned(),
        ssh_host_alias: "host".to_owned(),
        bind_address: "127.0.0.1".to_owned(),
        bind_port: port,
        auto_start: false,
        reconnect: false,
    }
}

fn local(id: u128, name: &str, port: u16) -> WireRule {
    WireRule::Local {
        id,
        name: name.to_owned(),
        ssh_host_alias: "host".to_owned(),
        bind_address: "127.0.0.1".to_owned(),
        bind_port: port,
        destination_host: "127.0.0.1".to_owned(),
        destination_port: 3000,
        auto_start: false,
        reconnect: false,
    }
}

fn add(rule: WireRule) -> Command {
    Command::ForwardAdd(Ok(rule))
}

fn changed(result: Result<Reply, ProtocolError>) -> (u128, bool) {
    match result {
        Ok(Reply::Intent { rule_id, changed, .. }) => (rule_id, changed),
        other => panic!("{other:?}"),
    }
}

#[test]
fn mutations_are_persisted_and_start_stop_are_idempotent() {
    let mut daemon = Daemon::open(vec![]);
    let id = 0x1234;
    daemon.handle(add(dynamic(id, "proxy", 1080))).unwrap();
    assert_eq!(changed(daemon.start(id)), (id, true));
    assert_eq!(changed(daemon.start(id)), (id, false));
    assert_eq!(changed(daemon.stop(id)), (id, true));
    assert_eq!(changed(daemon.stop(id)), (id, false));
    assert_eq!(
        daemon.events.iter().map(|event| event.event.as_str()).collect::<Vec<_>>(),
        ["configuration_changed", "rule_started", "rule_stopped"]
    );
    assert_eq!(
        daemon.events.iter().map(|event| event.sequence).collect::<Vec<_>>(),
        [1, 2, 3]
    );
    assert_eq!(Daemon::open(daemon.stored).listed().len(), 1);
}

#[test]
fn conflicting_rule_set_is_reported_without_persistence() {
    let mut daemon = Daemon::open(vec![]);
    daemon.handle(add(dynamic(1, "proxy", 1080))).unwrap();
    let error = daemon.handle(add(dynamic(2, "proxy", 1080))).unwrap_err();
    assert_eq!(error.code, ErrorCode::Conflict);
    assert!(error.message.contains("DuplicateName"));
    assert_eq!(Daemon::open(daemon.stored).listed().len(), 1);
}

#[test]
fn stopped_rule_can_be_edited_by_stable_id_but_active_rule_cannot() {
    let mut daemon = Daemon::open(vec![]);
    let id = 7;
    daemon.handle(add(dynamic(id, "proxy", 1080))).unwrap();
    daemon.handle(add(dynamic(id, "renamed", 1080))).unwrap();
    let listed = daemon.listed();
    assert_eq!(listed.len(), 1);
    assert!(matches!(&listed[0], WireRule::Dynamic { name, .. } if name == "renamed"));

    daemon.start(id).unwrap();
    let error = daemon.handle(add(dynamic(id, "not-saved", 1080))).unwrap_err();
    assert_eq!(error.code, ErrorCode::Conflict);
    assert!(error.message.contains("cannot be edited"));
}

#[test]
fn exact_name_controls_a_rule_and_every_result_contains_its_uuid() {
    let mut daemon = Daemon::open(vec![]);
    let id = 99;
    let by_name = || Ok(Selector::Name("web app".to_owned()));
    assert_eq!(
        daemon.handle(add(local(id, "web app", 3100))),
        Ok(Reply::RuleStored { rule_id: id })
    );
    assert_eq!(changed(daemon.handle(Command::ForwardStart(by_name()))), (id, true));
    assert_eq!(changed(daemon.handle(Command::ForwardStart(by_name()))), (id, false));
    let removal = daemon.handle(Command::ForwardRemove(by_name())).unwrap_err();
    assert_eq!(removal.code, ErrorCode::Conflict);
    assert_eq!(changed(daemon.handle(Command::ForwardStop(by_name()))), (id, true));
    assert_eq!(changed(daemon.handle(Command::ForwardStop(by_name()))), (id, false));
    assert_eq!(
        daemon.handle(Command::ForwardRemove(by_name())),
        Ok(Reply::RuleRemoved { rule_id: id })
    );
    let missing = daemon.handle(Command::ForwardRemove(by_name())).unwrap_err();
    assert_eq!(missing.code, ErrorCode::NotFound);
}

#[test]
fn occupied_explicit_local_port_is_a_structured_conflict() {
    let mut daemon = Daemon::open(vec![]);
    daemon.occupied = Some(3200);
    daemon.handle(add(local(5, "web", 3200))).unwrap();
    let error = daemon.start(5).unwrap_err();
    assert_eq!(error.code, ErrorCode::Conflict);
    assert!(error.message.contains("already in use"));
    assert!(matches!(
        daemon.handle(Command::Status),
        Ok(Reply::Status { active: 0, starting: 0, .. })
    ));
}

#[test]
fn stop_during_start_discards_the_late_forwarding_success() {
    let mut manager = DaemonManager::open(None, Settings::default()).unwrap();
    let change = manager.plan_add(Ok(dynamic(1, "proxy", 1080))).unwrap();
    manager.commit(change, SaveOutcome::Saved).0.unwrap();
    let rule = match manager.plan_start(Ok(Selector::Id(1))).unwrap() {
        StartPlan::Begin { value, .. } => value,
        other => panic!("{other:?}"),
    };
    manager.begin_start(&rule, 10, PortProbe::Free).unwrap();
    let plan = manager.begin_stop(Ok(Selector::Id(1))).unwrap();
    assert_eq!(changed(stop_result(plan, Ok(())).0), (1, true));
    let late = manager.finish_start(1, 10, StartOutcome::Started);
    assert!(late.discard);
    assert!(late.announcement.is_none());
    let answer = discard_result(late.result, Ok(()));
    assert_eq!(
        answer,
        Ok(Reply::Intent { rule_id: 1, start_requested: false, changed: true })
    );
    assert!(manager.active().is_empty());
}

#[test]
fn a_process_that_ended_is_reported_once() {
    let mut manager = DaemonManager::open(None, Settings::default()).unwrap();
    let change = manager.plan_add(Ok(dynamic(1, "proxy", 1080))).unwrap();
    manager.commit(change, SaveOutcome::Saved).0.unwrap();
    let rule = match manager.plan_start(Ok(Selector::Id(1))).unwrap() {
        StartPlan::Begin { value, .. } => value,
        other => panic!("{other:?}"),
    };
    manager.begin_start(&rule, 10, PortProbe::Free).unwrap();
    assert!(!manager.finish_start(1, 10, StartOutcome::Started).discard);
    assert_eq!(manager.active(), [(1, 10)]);
    let (reply, events) = manager.status(&vec![1]);
    assert_eq!(events.len(), 1);
    match reply {
        Reply::Status { active: 0, forwards, .. } => {
            assert_eq!(forwards[0].state, RunState::Stopped)
        }
        other => panic!("{other:?}"),
    }
    assert!(manager.status(&vec![1]).1.is_empty());
}

#[test]
fn a_stored_rule_is_found_and_a_removed_one_is_gone() {
    let mut daemon = Daemon::open(vec![]);
    daemon.handle(add(dynamic(1, "one", 1080))).unwrap();
    daemon.handle(add(local(2, "two", 1081))).unwrap();
    daemon.handle(add(dynamic(3, "three", 1082))).unwrap();
    daemon.handle(add(local(1, "first", 1083))).unwrap();
    assert_eq!(
        daemon.listed(),
        vec![local(1, "first", 1083), local(2, "two", 1081), dynamic(3, "three", 1082)]
    );
    daemon.handle(Command::ForwardRemove(Ok(Selector::Id(2)))).unwrap();
    assert_eq!(daemon.listed(), vec![local(1, "first", 1083), dynamic(3, "three", 1082)]);
    let again = daemon.handle(Command::ForwardRemove(Ok(Selector::Id(2))));
    assert_eq!(again.unwrap_err().code, ErrorCode::NotFound);
}

#[test]
fn a_change_that_is_not_saved_has_no_effect() {
    let mut manager = DaemonManager::open(None, Settings::default()).unwrap();
    let change = manager.plan_add(Ok(dynamic(1, "proxy", 1080))).unwrap();
    let (result, event) = manager.commit(change, SaveOutcome::Failed("disk full".to_owned()));
    let error = result.unwrap_err();
    assert_eq!(error.code, ErrorCode::Internal);
    assert!(error.message.contains("disk full"));
    assert!(event.is_none());
    assert_eq!(manager.list(), Ok(Reply::Rules(vec![])));
}

#[test]
fn rules_are_imported_together_or_not_at_all() {
    let mut daemon = Daemon::open(vec![]);
    daemon.handle(add(dynamic(1, "proxy", 1080))).unwrap();
    let error = daemon
        .handle(Command::ForwardImport(Ok(vec![dynamic(2, "a", 1081), dynamic(3, "b", 1080)])))
        .unwrap_err();
    assert_eq!(error.code, ErrorCode::Conflict);
    assert_eq!(daemon.listed().len(), 1);
    assert_eq!(
        daemon.handle(Command::ForwardImport(Ok(vec![dynamic(2, "a", 1081), dynamic(3, "b", 1082)]))),
        Ok(Reply::Imported { rule_ids: vec![2, 3] })
    );
    assert_eq!(daemon.listed().len(), 3);
}

#[test]
fn settings_are_read_back_as_they_were_written() {
    let mut daemon = Daemon::open(vec![]);
    let wanted = Settings { theme: Theme::Dark, default_reconnect: true, ..Settings::default() };
    assert_eq!(
        daemon.handle(Command::SettingsUpdate(Ok(wanted))),
        Ok(Reply::Settings(wanted))
    );
    assert_eq!(daemon.handle(Command::SettingsGet), Ok(Reply::Settings(wanted)));
}

#[test]
fn unreadable_payloads_and_unhandled_operations_are_refused() {
    let mut daemon = Daemon::open(vec![]);
    let error = daemon
        .handle(Command::ForwardAdd(Err("missing field".to_owned())))
        .unwrap_err();
    assert_eq!(error.code, ErrorCode::InvalidRequest);
    let error = daemon.handle(Command::Other(Operation::HostList)).unwrap_err();
    assert_eq!(error.code, ErrorCode::Unavailable);
}

fn request(version: u32) -> Request {
    Request { protocol_version: version, request_id: 42, command: Command::Status }
}

fn code(response: Response) -> (u128, ErrorCode) {
    match response {
        Response::Failure(answer) => (answer.request_id, answer.error.code),
        other => panic!("{other:?}"),
    }
}

#[test]
fn malformed_and_oversized_frames_receive_structured_errors() {
    let mut oversized = vec![b'x'; MAX_MESSAGE_BYTES + 2];
    let too_large = take_frame(&mut oversized).unwrap_err();
    for (error, expected) in [
        (
            TransportError::InvalidMessage("not-json".to_owned()),
            ErrorCode::InvalidRequest,
        ),
        (too_large, ErrorCode::MessageTooLarge),
    ] {
        match serve_step(Err(error)) {
            ServeStep::AnswerAndClose(answer) => assert_eq!(code(answer), (0, expected)),
            other => panic!("{other:?}"),
        }
    }
}

#[test]
fn mismatch_is_structured_and_disconnect_is_clean() {
    match serve_step(Ok(request(2))) {
        ServeStep::Answer(answer) => {
            assert_eq!(code(answer), (42, ErrorCode::UnsupportedVersion))
        }
        other => panic!("{other:?}"),
    }
    assert!(matches!(
        serve_step(Err(TransportError::Disconnected)),
        ServeStep::Close
    ));
    assert!(matches!(serve_step(Ok(request(PROTOCOL_VERSION))), ServeStep::Handle(_)));
    assert!(matches!(
        serve_step(Err(TransportError::Io("broken".to_owned()))),
        ServeStep::Fail(DaemonError::Transport(_))
    ));
}

#[test]
fn frames_are_taken_out_as_they_were_put_in() {
    let mut received = encode_frame(b"{\"a\":1}").unwrap();
    received.extend_from_slice(&encode_frame(b"{}").unwrap());
    received.extend_from_slice(b"{\"half");
    assert_eq!(take_frame(&mut received).unwrap().unwrap(), b"{\"a\":1}");
    assert_eq!(take_frame(&mut received).unwrap().unwrap(), b"{}");
    assert!(take_frame(&mut received).unwrap().is_none());
    assert_eq!(received, b"{\"half");
    assert!(matches!(end_of_stream(&received), TransportError::MessageTooLarge));
    assert!(matches!(end_of_stream(&vec![]), TransportError::Disconnected));
    assert!(matches!(
        encode_frame(&vec![b'x'; MAX_MESSAGE_BYTES + 1]),
        Err(TransportError::MessageTooLarge)
    ));
    assert!(encode_frame(&vec![b'x'; MAX_MESSAGE_BYTES]).is_ok());
}

#[test]
fn only_a_subscription_streams_events() {
    let subscription = |version| Request {
        protocol_version: version,
        request_id: 7,
        command: Command::Subscribe,
    };
    let step = serve_step(Ok(subscription(PROTOCOL_VERSION)));
    assert!(streams_events(&step, Operation::Subscribe));
    assert!(!streams_events(&step, Operation::Status));
}

#[test]
fn a_refused_subscription_streams_nothing() {
    let refused = serve_step(Ok(Request {
        protocol_version: PROTOCOL_VERSION + 1,
        request_id: 7,
        command: Command::Subscribe,
    }));
    assert!(!streams_events(&refused, Operation::Subscribe));
    match refused {
        ServeStep::Answer(answer) => assert_eq!(code(answer), (7, ErrorCode::UnsupportedVersion)),
        other => panic!("{other:?}"),
    }
    let malformed = serve_step(Err(TransportError::InvalidMessage("x".to_owned())));
    assert!(!streams_events(&malformed, Operation::Subscribe));
}

#[test]
fn a_client_accepts_only_the_answer_to_its_request() {
    let answer = || response(5, Ok(Reply::Subscribed));
    assert_eq!(answer().request_id(), 5);
    assert_eq!(accept_response(5, answer()).unwrap(), answer());
    assert!(matches!(
        accept_response(6, answer()),
        Err(TransportError::InvalidMessage(message))
            if message == "response does not match the request"
    ));
    let error = ProtocolError { code: ErrorCode::Internal, message: "no".to_owned() };
    assert!(accept_response(0, response(5, Err(error))).is_err());
}

#[test]
fn a_failed_start_is_answered_without_what_ssh_printed() {
    let secret = "unexpected detail private-token-value";
    let mut daemon = Daemon::open(vec![]);
    daemon.handle(add(dynamic(1, "proxy", 1080))).unwrap();
    let plan = daemon.manager.dispatch(Command::ForwardStart(Ok(Selector::Id(1))));
    let value = match plan {
        Dispatch::Start(StartPlan::Begin { value, .. }) => value,
        other => panic!("{other:?}"),
    };
    daemon.manager.begin_start(&value, 9, PortProbe::Free).unwrap();
    let failure = StartupFailure::Exited("exit status: 255".to_owned());
    let error = match after_capture(failure, secret.as_bytes()) {
        StartupStep::Failed(error) => error,
        other => panic!("{other:?}"),
    };
    let error = accept_report(&guardian_report(&Err(error))).unwrap_err();
    let ended = daemon.manager.finish_start(1, 9, StartOutcome::Failed(error.to_string()));
    let answer = ended.result.unwrap_err();
    assert_eq!(answer.code, ErrorCode::Unavailable);
    assert_eq!(
        answer.message,
        "SSH startup failed: SSH startup failed: SSH startup failed for an unclassified reason"
    );
    assert!(!answer.message.contains(secret));
    match daemon.handle(Command::Status) {
        Ok(Reply::Status { forwards, .. }) => assert_eq!(forwards[0].state, RunState::Stopped),
        other => panic!("{other:?}"),
    }
}

#[test]
fn only_rules_with_the_policy_are_restored_or_brought_up_again() {
    let rule = |id, name: &str, port, auto_start, reconnect| {
        Rule::dynamic(RuleId::from_uuid(id), name, "host", port)
            .unwrap()
            .with_policy(auto_start, reconnect)
    };
    let daemon = Daemon::open(vec![
        rule(1, "a", 1080, true, false),
        rule(2, "b", 1081, false, true),
        rule(3, "c", 1082, true, true),
    ]);
    assert_eq!(daemon.manager.restored(), vec![1, 3]);
    assert!(!daemon.manager.reconnects(1));
    assert!(daemon.manager.reconnects(2));
    assert!(!daemon.manager.reconnects(4));
    assert_eq!(daemon.manager.settings(), Settings::default());
}

fn attempt(number: u128) -> AttemptId {
    AttemptId::from_uuid(number)
}

/// As a guardian reports it.
fn startup_error(printed: &str) -> ProcessError {
    match after_collect(StartupFailure::NotReady, printed) {
        StartupStep::Failed(error) => accept_report(&guardian_report(&Err(error))).unwrap_err(),
        other => panic!("{other:?}"),
    }
}

#[test]
fn network_failures_and_timeouts_are_retried_and_others_are_not() {
    for (printed, kind, retried) in [
        ("Connection refused", "network", true),
        ("", "unknown", true),
        ("Permission denied", "authentication", false),
        ("Host key verification failed", "host_key", false),
        ("cannot listen to port", "listener", false),
        ("remote port forwarding failed", "remote_rejected", false),
        ("something else", "unknown", false),
    ] {
        let error = startup_error(printed);
        assert_eq!(read_failure(&error).0.as_str(), kind);
        let mut recovery = Recovery::new();
        recovery.begin(attempt(1)).unwrap();
        recovery.startup_failed(attempt(1), true, &error, 500, 1_000).unwrap();
        assert_eq!(recovery.is_due(1_500), retried);
        assert!(!recovery.is_due(1_499));
        assert_eq!(recovery.info(2_000).last_error, Some(kind));
        let mut recovery = Recovery::new();
        recovery.begin(attempt(1)).unwrap();
        recovery.startup_failed(attempt(1), false, &error, 500, 1_000).unwrap();
        assert!(!recovery.is_due(u64::MAX));
        assert!(matches!(recovery.state(), RuntimeState::Failed { .. }));
    }
    assert!(!read_failure(&ProcessError::Io("gone".to_owned())).1);
}

#[test]
fn a_stop_cancels_a_pending_retry() {
    let mut recovery = Recovery::new();
    recovery.begin(attempt(1)).unwrap();
    recovery.accepted(attempt(1), 0).unwrap();
    recovery.exited(attempt(1), true, 0, 100).unwrap();
    assert!(recovery.is_due(100));
    assert_eq!(recovery.shown(RunState::Stopped), RunState::Reconnecting);
    assert_eq!(recovery.shown(RunState::Active), RunState::Active);
    assert_eq!(RunState::Reconnecting.as_str(), "reconnecting");
    recovery.stop();
    assert!(!recovery.is_due(u64::MAX));
    assert!(recovery.accepted(attempt(1), 200).is_err());
    recovery.cleaned_up().unwrap();
    assert_eq!(recovery.state(), RuntimeState::Stopped);
    assert_eq!(recovery.shown(RunState::Stopped), RunState::Stopped);
    assert!(recovery.cleaned_up().is_err());
}

#[test]
fn delays_grow_with_every_failure_and_start_over_after_a_minute_up() {
    let refused = startup_error("Connection refused");
    let mut recovery = Recovery::new();
    recovery.begin(attempt(1)).unwrap();
    recovery.startup_failed(attempt(1), true, &refused, 1_000, 0).unwrap();
    assert!(recovery.is_due(1_000) && !recovery.is_due(999));
    recovery.begin(attempt(2)).unwrap();
    assert_eq!(recovery.info(0).reconnect_count, 1);
    recovery.startup_failed(attempt(2), true, &refused, 2_000, 0).unwrap();
    assert!(recovery.is_due(2_000) && !recovery.is_due(1_999));
    recovery.begin(attempt(3)).unwrap();
    recovery.accepted(attempt(3), 10_000).unwrap();
    assert_eq!(recovery.info(12_500).uptime_seconds, 2);
    recovery.exited(attempt(3), true, 4_000, 11_000).unwrap();
    assert!(recovery.is_due(15_000) && !recovery.is_due(14_999));
    recovery.begin(attempt(4)).unwrap();
    recovery.accepted(attempt(4), 20_000).unwrap();
    recovery.exited(attempt(4), true, 1_000, 80_000).unwrap();
    assert!(recovery.is_due(81_000) && !recovery.is_due(80_999));
    assert_eq!(recovery.info(81_000).reconnect_count, 3);
    assert_eq!(recovery.info(81_000).last_error, Some("unknown"));
    assert!(recovery.exited(attempt(4), true, 0, 0).is_err());
}

fn facts(uid: u32, mode: u32, kind: FileKind) -> FileFacts {
    FileFacts { uid, mode, kind, links: 1 }
}

#[test]
fn unsafe_socket_is_not_removed() {
    assert!(matches!(
        socket_plan(FileLookup::Found(facts(1, 0o600, FileKind::File)), 1),
        Err(DaemonError::UnsafeSocket)
    ));
    assert!(matches!(
        socket_plan(FileLookup::Found(facts(2, 0o600, FileKind::Socket)), 1),
        Err(DaemonError::UnsafeSocket)
    ));
    assert!(matches!(
        socket_plan(FileLookup::Found(facts(1, 0o600, FileKind::Socket)), 1),
        Ok(SocketPlan::RemoveAndBind)
    ));
    assert!(matches!(socket_plan(FileLookup::NotFound, 1), Ok(SocketPlan::Bind)));
    assert!(matches!(
        socket_plan(FileLookup::Failed("no".to_owned()), 1),
        Err(DaemonError::Io(_))
    ));
}

#[test]
fn a_held_lock_means_that_a_daemon_runs() {
    assert!(check_lock(LockOutcome::Locked).is_ok());
    assert!(matches!(check_lock(LockOutcome::Held), Err(DaemonError::AlreadyRunning)));
    assert!(matches!(
        check_lock(LockOutcome::Failed("no".to_owned())),
        Err(DaemonError::Io(_))
    ));
    assert!(check_lock_file(&facts(1, 0o600, FileKind::File), 1).is_ok());
    assert!(matches!(
        check_lock_file(&facts(1, 0o644, FileKind::File), 1),
        Err(DaemonError::UnsafeSocket)
    ));
}

#[test]
fn a_daemon_that_does_not_answer_in_time_is_given_up() {
    assert!(matches!(readiness(true, true), Ok(Readiness::Ready)));
    assert!(matches!(readiness(false, false), Ok(Readiness::Wait)));
    assert_eq!(
        readiness(false, true).unwrap_err().to_string(),
        DaemonError::Io("daemon did not become ready".to_owned()).to_string()
    );
}

#[test]
fn exponential_cap_and_full_jitter_bounds_are_stable() {
    assert_eq!(full_jitter(0, 0), 0);
    assert_eq!(full_jitter(0, 1_000), 1_000);
    assert_eq!(full_jitter(3, 8_001), 0);
    assert_eq!(full_jitter(30, 60_000), MAX_DELAY);
    assert!(full_jitter(30, u64::MAX) <= MAX_DELAY);
}
