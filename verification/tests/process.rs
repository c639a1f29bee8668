use tunnel_deck::daemon::process::{
    accept_report, after_capture, after_collect, after_confirm, after_forward, after_poll,
    after_terminate,    bounded_read, check_message, classify_diagnostic, cleanup_result, control_arguments,
    control_step, end_actions, forced_actions, forwarding, guardian_arguments, guardian_report, guardian_spec,
    master_arguments, terminate_step, wait_step, watch_step, ControlRequest, ControlStep,
    DiagnosticKind, EndAction, ForcedAction, GuardianExit, GuardianReport, LeaseRead, ProcessError, StartupFailure,
    StartupStep, TerminateStep, WaitStep, WatchStep, MAX_STDERR_BYTES,
};
use tunnel_deck::domain::rule::{Rule, RuleId};
use tunnel_deck::platform::Platform;

#[test]
fn diagnostics_are_classified_without_echoing_captured_secrets() {
    let secret = "private-token-value";
    let auth = classify_diagnostic(&format!("Permission denied {secret}"));
    assert_eq!(auth.kind, DiagnosticKind::Authentication);
    assert!(!auth.message.contains(secret));
    assert!(!auth.retryable);
    let unknown = classify_diagnostic(&format!("unexpected detail {secret}"));
    assert_eq!(unknown.kind, DiagnosticKind::Unknown);
    assert!(!unknown.message.contains(secret));
}

#[test]
fn local_forward_spec_brackets_ipv6() {
    let rule = Rule::local(RuleId::new(), "web", "work", 3000, "::1", 80)
        .unwrap()
        .with_bind_address("::1")
        .unwrap();
    assert_eq!(forwarding(&rule), ("-L", "[::1]:3000:[::1]:80".to_owned()));
}

#[test]
fn remote_and_dynamic_forward_specs_use_their_own_flags() {
    let remote = Rule::remote(RuleId::new(), "remote", "work", 8080, "::1", 80)
        .unwrap()
        .with_bind_address("0.0.0.0")
        .unwrap();
    assert_eq!(forwarding(&remote), ("-R", "0.0.0.0:8080:[::1]:80".to_owned()));
    let dynamic = Rule::dynamic(RuleId::new(), "socks", "work", 1080)
        .unwrap()
        .with_bind_address("::1")
        .unwrap();
    assert_eq!(forwarding(&dynamic), ("-D", "[::1]:1080".to_owned()));
}

#[test]
fn stderr_is_bounded_while_fully_drained() {
    assert_eq!(
        bounded_read(vec![b'x'; MAX_STDERR_BYTES * 3].as_slice()).len(),
        MAX_STDERR_BYTES
    );
    assert_eq!(bounded_read(b"short"), b"short");
}

fn rule() -> Rule {
    Rule::local(RuleId::from_uuid(1), "web", "work", 3000, "localhost", 80).unwrap()
}

#[test]
fn an_attempt_has_a_directory_and_a_control_socket_of_its_own() {
    let spec = guardian_spec(Platform::Linux, b"ssh", b"/run/user/1", 0xabc, &rule()).unwrap();
    let directory = "/run/user/1/attempt-00000000-0000-0000-0000-000000000abc";
    assert_eq!(spec.attempt_dir, directory.as_bytes());
    assert_eq!(spec.socket, format!("{directory}/control.sock").as_bytes());
    assert_eq!(spec.alias, "work");
    assert_eq!(spec.forward_flag, "-L");
    assert_eq!(spec.forward_spec, "127.0.0.1:3000:localhost:80");

    let master = master_arguments(&spec);
    assert_eq!(master[0], b"-N");
    assert_eq!(master[master.len() - 1], b"work");
    assert_eq!(master[master.len() - 2], spec.socket);
    let forward = control_arguments(&spec, ControlRequest::Forward);
    assert!(forward.contains(&b"127.0.0.1:3000:localhost:80".to_vec()));
    let check = control_arguments(&spec, ControlRequest::Check);
    assert!(check.contains(&b"check".to_vec()));
    assert!(!check.contains(&b"-L".to_vec()));
    let arguments = guardian_arguments(3, 4);
    assert!(arguments.contains(&"guardian".to_owned()));
    assert!(arguments.contains(&"3".to_owned()) && arguments.contains(&"4".to_owned()));
}

#[test]
fn a_control_socket_path_that_is_too_long_is_refused() {
    let runtime = vec![b'/'; 60];
    assert!(guardian_spec(Platform::Linux, b"ssh", &runtime[..50], 1, &rule()).is_ok());
    assert!(matches!(
        guardian_spec(Platform::Linux, b"ssh", &[&b"/"[..], &[b'a'; 60]].concat(), 1, &rule()),
        Err(ProcessError::Io(message)) if message == "control socket path is too long"
    ));
}

fn failed(step: StartupStep) -> String {
    match step {
        StartupStep::Failed(ProcessError::Startup(message)) => message,
        other => panic!("{other:?}"),
    }
}

#[test]
fn startup_goes_from_readiness_over_the_forwarding_to_confirmation() {
    assert!(matches!(after_poll(None, false, false), StartupStep::Pause));
    assert!(matches!(after_poll(None, true, true), StartupStep::Forward));
    assert!(matches!(after_forward(Ok(())), StartupStep::Confirm));
    assert!(matches!(after_confirm(false), StartupStep::Ready));
    assert!(matches!(
        after_poll(None, false, true),
        StartupStep::Terminate(StartupFailure::NotReady)
    ));
    assert!(matches!(
        after_poll(Some("exit status: 1".to_owned()), true, false),
        StartupStep::Collect(StartupFailure::Exited(_))
    ));
    assert!(matches!(
        after_confirm(true),
        StartupStep::Collect(StartupFailure::ExitedAfterForward)
    ));
}

#[test]
fn early_master_failure_is_reported_and_attempt_directory_is_removed() {
    let step = after_poll(Some("exit status: 23".to_owned()), false, false);
    let failure = match step {
        StartupStep::Collect(failure) => failure,
        other => panic!("{other:?}"),
    };
    let error = match after_capture(failure, b"authentication failed") {
        StartupStep::Failed(error) => error,
        other => panic!("{other:?}"),
    };
    let error = accept_report(&guardian_report(&Err(error))).unwrap_err();
    assert!(error.to_string().contains("authentication failed"));
    assert!(end_actions(WatchStep::CleanUp).contains(&EndAction::RemoveDirectory));
    assert!(forced_actions(&Err(error)).contains(&ForcedAction::RemoveDirectory));
}

#[test]
fn what_the_master_printed_is_classified_and_never_reported() {
    let exited = || StartupFailure::Exited("exit status: 255".to_owned());
    let secret = "private-token-value";
    assert_eq!(
        failed(after_collect(exited(), &format!(" Permission denied {secret} \n"))),
        "SSH authentication failed"
    );
    assert_eq!(
        failed(after_capture(StartupFailure::NotReady, b" caf\xc3\xa9 \xff\n")),
        "SSH startup failed for an unclassified reason"
    );
    assert_eq!(
        failed(after_collect(StartupFailure::NotReady, &format!("{secret} connection RESET"))),
        failed(after_collect(exited(), "no route to host"))
    );
}

#[test]
fn a_silent_master_is_reported_with_the_reason_for_which_it_was_given_up() {
    assert_eq!(
        failed(after_collect(StartupFailure::Exited("exit status: 255".to_owned()), "  ")),
        "SSH master exited with exit status: 255"
    );
    assert_eq!(
        failed(after_collect(StartupFailure::NotReady, "")),
        "SSH master readiness timed out"
    );
    assert_eq!(
        failed(after_collect(StartupFailure::ExitedAfterForward, "\n")),
        "SSH master exited after accepting the forwarding"
    );
}

#[test]
fn a_rejected_forwarding_ends_the_master() {
    let rejected = match control_step(Some(false), false) {
        ControlStep::Finished(Err(error)) => error,
        other => panic!("{other:?}"),
    };
    let failure = match after_forward(Err(rejected)) {
        StartupStep::Terminate(failure) => failure,
        other => panic!("{other:?}"),
    };
    let step = after_terminate(failure, Ok(()));
    assert!(matches!(step, StartupStep::Collect(StartupFailure::ForwardRejected(_))));
    assert!(matches!(
        after_terminate(StartupFailure::NotReady, Err(ProcessError::Io("gone".to_owned()))),
        StartupStep::Failed(ProcessError::Io(_))
    ));
    assert!(matches!(control_step(Some(true), true), ControlStep::Finished(Ok(()))));
    assert!(matches!(control_step(None, false), ControlStep::Wait));
    assert!(matches!(control_step(None, true), ControlStep::Kill(_)));
}

#[test]
fn abnormal_guardian_exit_forces_master_group_cleanup() {
    let exit = GuardianExit { success: false, status: "exit status: 7".to_owned() };
    let result = cleanup_result(Ok(exit));
    assert_eq!(
        forced_actions(&result),
        [ForcedAction::KillMasterGroup, ForcedAction::KillGuardian, ForcedAction::RemoveDirectory]
    );
    assert!(
        matches!(result, Err(ProcessError::Protocol(message)) if message.contains("guardian exited unsuccessfully"))
    );
    let result = cleanup_result(Ok(GuardianExit { success: true, status: String::new() }));
    assert!(result.is_ok());
    assert!(forced_actions(&result).is_empty());
    assert!(matches!(wait_step(false, true), WaitStep::Failed(ProcessError::Protocol(_))));
    assert!(matches!(wait_step(true, true), WaitStep::Ended));
    assert!(matches!(wait_step(false, false), WaitStep::Wait));
}

#[test]
fn lease_eof_after_daemon_crash_cleans_attempt_before_releasing_lock() {
    assert_eq!(watch_step(LeaseRead::Ended, false), WatchStep::Terminate);
    assert_eq!(watch_step(LeaseRead::Ended, true), WatchStep::Terminate);
    assert_eq!(watch_step(LeaseRead::Pending, true), WatchStep::CleanUp);
    assert_eq!(watch_step(LeaseRead::Pending, false), WatchStep::Wait);
    assert_eq!(
        end_actions(watch_step(LeaseRead::Ended, false)),
        [
            EndAction::TerminateGroup,
            EndAction::CollectOutput,
            EndAction::RemoveDirectory,
            EndAction::ReleaseLock
        ]
    );
    assert_eq!(
        end_actions(WatchStep::CleanUp),
        [EndAction::CollectOutput, EndAction::RemoveDirectory, EndAction::ReleaseLock]
    );
    assert!(end_actions(WatchStep::Wait).is_empty());
}

#[test]
fn a_group_that_does_not_end_in_time_is_killed() {
    assert_eq!(terminate_step(true, true), TerminateStep::Ended);
    assert_eq!(terminate_step(false, true), TerminateStep::Kill);
    assert_eq!(terminate_step(false, false), TerminateStep::Wait);
}

#[test]
fn reports_of_the_guardian_are_checked() {
    let report = guardian_report(&Ok(77));
    assert!(matches!(accept_report(&report), Ok(77)));
    let report = guardian_report(&Err(ProcessError::Startup("no".to_owned())));
    assert!(matches!(accept_report(&report), Err(ProcessError::Startup(message)) if message == report.diagnostic));
    for pid in [0, u32::MAX] {
        let report =
            GuardianReport { accepted: true, diagnostic: String::new(), master_pid: pid };
        assert!(matches!(accept_report(&report), Err(ProcessError::Protocol(_))));
    }
    assert!(check_message(1).is_ok());
    assert!(check_message(MAX_STDERR_BYTES * 2).is_ok());
    assert!(check_message(0).is_err());
    assert!(check_message(MAX_STDERR_BYTES * 2 + 1).is_err());
}
