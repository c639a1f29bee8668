use tunnel_deck::application::hosts::{ConnectionOutcome, EffectiveHost, HostError};
use tunnel_deck::application::import::{preview_effective_forwards, ImportPreview};
use tunnel_deck::cli::{
    added_rule, check_selection, daemon_result, forward_add, host_lines, import_request,
    listed_rules, preview_lines, reason_text, response_timeout, rule_lines, running_ids, selector,
    selector_for, selector_of_id, settings_lines, status_name, subcommand_section, test_result,
    update_settings, wants_saving, AddArgs, CommandDoc, ForwardKind, SettingsArgs,
};
use tunnel_deck::config::{LogLevel, Rule as WireRule, Settings, Theme};
use tunnel_deck::domain::host::HostAlias;
use tunnel_deck::domain::rule::{Rule, RuleId};
use tunnel_deck::error::{AppError, ExitStatus};
use tunnel_deck::ipc::{
    response, ErrorCode, ForwardStatus, Operation, ProtocolError, Reply, RunState, Selector,
};

#[test]
fn unavailable_has_stable_exit_status() {
    let error = AppError::Unavailable { feature: "TUI" };
    assert_eq!(ExitStatus::from(&error), ExitStatus::Unavailable);
    assert_eq!(ExitStatus::Unavailable.code(), 3);
}

#[test]
fn invalid_host_alias_has_usage_exit_status() {
    let validation = HostAlias::new("not an alias").unwrap_err();
    let error = AppError::Host(HostError::InvalidAlias(validation));
    assert_eq!(ExitStatus::from(&error), ExitStatus::Usage);
    assert_eq!(ExitStatus::Usage.code(), 2);
}

#[test]
fn daemon_errors_have_stable_exit_statuses() {
    for (code, status) in [
        (ErrorCode::InvalidRequest, 2),
        (ErrorCode::MessageTooLarge, 2),
        (ErrorCode::UnsupportedVersion, 2),
        (ErrorCode::NotFound, 4),
        (ErrorCode::Conflict, 5),
        (ErrorCode::Unavailable, 6),
        (ErrorCode::Internal, 70),
    ] {
        let plain = AppError::Daemon { code, message: "m".to_owned() };
        let json = AppError::JsonDaemon { code, message: "m".to_owned() };
        assert_eq!(ExitStatus::from(&plain).code(), status);
        assert_eq!(ExitStatus::from(&json).code(), status);
        assert_eq!(plain.to_string(), "m");
    }
    assert_eq!(ExitStatus::from(&AppError::Ipc("x".to_owned())).code(), 70);
    assert_eq!(ExitStatus::from(&AppError::Host(HostError::QueryFailed)).code(), 70);
    assert_eq!(ExitStatus::Success.code(), 0);
    assert_eq!(
        AppError::Unavailable { feature: "TUI" }.to_string(),
        "TUI is not implemented yet"
    );
    assert_eq!(
        AppError::Configuration("bad".to_owned()).to_string(),
        "configuration error: bad"
    );
    assert_eq!(AppError::Ipc("bad".to_owned()).to_string(), "IPC error: bad");
    assert_eq!(
        AppError::Host(HostError::QueryTimedOut).to_string(),
        "SSH host operation failed: OpenSSH effective-configuration query timed out"
    );
    assert_eq!(
        AppError::Connection("bad".to_owned()).to_string(),
        "SSH connection test failed: bad"
    );
}

fn args(kind: ForwardKind, destination_port: Option<u16>) -> AddArgs {
    AddArgs {
        kind,
        name: "web".to_owned(),
        ssh_host_alias: "server".to_owned(),
        bind_address: "127.0.0.1".to_owned(),
        bind_port: 3000,
        destination_host: "localhost".to_owned(),
        destination_port,
        auto_start: None,
        reconnect: Some(false),
    }
}

#[test]
fn a_rule_is_made_of_the_arguments_and_the_settings() {
    let settings = Settings {
        default_auto_start: true,
        default_reconnect: true,
        ..Settings::default()
    };
    assert_eq!(
        added_rule(args(ForwardKind::Local, Some(80)), &settings, 7).unwrap(),
        WireRule::Local {
            id: 7,
            name: "web".to_owned(),
            ssh_host_alias: "server".to_owned(),
            bind_address: "127.0.0.1".to_owned(),
            bind_port: 3000,
            destination_host: "localhost".to_owned(),
            destination_port: 80,
            auto_start: true,
            reconnect: false,
        }
    );
    assert!(matches!(
        added_rule(args(ForwardKind::Remote, Some(80)), &settings, 7),
        Ok(WireRule::Remote { .. })
    ));
    assert!(matches!(
        added_rule(args(ForwardKind::Dynamic, None), &settings, 7),
        Ok(WireRule::Dynamic { .. })
    ));
    for kind in [ForwardKind::Local, ForwardKind::Remote] {
        let error = added_rule(args(kind, None), &settings, 7).unwrap_err();
        assert_eq!(
            error.to_string(),
            "configuration error: --destination-port is required for local and remote forwarding"
        );
    }
    let id = |rule: WireRule| match rule {
        WireRule::Dynamic { id, .. } => id,
        other => panic!("{other:?}"),
    };
    let first = id(forward_add(args(ForwardKind::Dynamic, None), &settings).unwrap());
    let second = id(forward_add(args(ForwardKind::Dynamic, None), &settings).unwrap());
    assert_ne!(first, second);
    assert_eq!(uuid::Uuid::from_u128(first).get_version_num(), 4);
}

#[test]
fn settings_that_are_not_named_stay_as_they_are() {
    let settings = Settings { log_level: LogLevel::Warn, ..Settings::default() };
    let changed = update_settings(
        settings,
        SettingsArgs {
            theme: Some(Theme::Dark),
            log_level: None,
            default_reconnect: Some(true),
            default_auto_start: None,
        },
    );
    assert_eq!(
        changed,
        Settings {
            theme: Theme::Dark,
            log_level: LogLevel::Warn,
            default_reconnect: true,
            default_auto_start: false,
        }
    );
    assert_eq!(
        settings_lines(&changed),
        ["theme: dark", "log-level: warn", "default-reconnect: true", "default-auto-start: false"]
    );
}

#[test]
fn rules_are_selected_by_uuid_or_by_exact_name() {
    let id = 0x2469_9e94_5c3f_4d69_a400_d3f0_8102_787c;
    for written in [
        "24699e94-5c3f-4d69-a400-d3f08102787c",
        "24699E94-5C3F-4D69-A400-D3F08102787C",
        "24699e945c3f4d69a400d3f08102787c",
    ] {
        assert_eq!(selector(written.to_owned()), Selector::Id(id), "{written}");
    }
    assert_eq!(selector("web app".to_owned()), Selector::Name("web app".to_owned()));
    assert_eq!(selector_for("x".to_owned(), Some(5)), Selector::Id(5));
    for id in [0, 1, id, u128::MAX] {
        assert_eq!(selector_of_id(id), Selector::Id(id));
    }
}

#[test]
fn stopping_may_take_longer_than_other_requests() {
    assert_eq!(response_timeout(Operation::ForwardStop), 10_000);
    assert_eq!(response_timeout(Operation::ForwardStart), 5_000);
}

#[test]
fn answers_become_results_and_errors() {
    assert!(matches!(
        daemon_result(response(1, Ok(Reply::Subscribed)), true),
        Ok(Reply::Subscribed)
    ));
    let refused = || {
        response(
            1,
            Err(ProtocolError { code: ErrorCode::Conflict, message: "no".to_owned() }),
        )
    };
    assert!(matches!(daemon_result(refused(), true), Err(AppError::JsonDaemon { .. })));
    assert!(matches!(daemon_result(refused(), false), Err(AppError::Daemon { .. })));
}

#[test]
fn rules_and_hosts_are_listed_line_by_line() {
    let rule = WireRule::Dynamic {
        id: 0xff,
        name: "proxy".to_owned(),
        ssh_host_alias: "server".to_owned(),
        bind_address: "127.0.0.1".to_owned(),
        bind_port: 1080,
        auto_start: false,
        reconnect: false,
    };
    assert_eq!(
        rule_lines(&vec![rule]),
        ["00000000-0000-0000-0000-0000000000ff\tproxy"]
    );
    let host = EffectiveHost {
        alias: "a".to_owned(),
        hostname: "h".to_owned(),
        user: "u".to_owned(),
        port: 22,
        identity_files: vec!["one".to_owned(), "two".to_owned()],
        proxy_jump: Some("bastion".to_owned()),
        proxy_command: None,
    };
    assert_eq!(
        host_lines(&host),
        [
            "alias: a",
            "hostname: h",
            "user: u",
            "port: 22",
            "identity-file: one",
            "identity-file: two",
            "proxy-jump: bastion",
        ]
    );
}

#[test]
fn only_rules_that_are_not_stopped_count_as_running() {
    let status = |rule_id, state| ForwardStatus { rule_id, name: "n".to_owned(), state };
    let running = running_ids(&vec![
        status(1, RunState::Stopped),
        status(2, RunState::Starting),
        status(3, RunState::Active),
    ]);
    assert_eq!(running.iter().map(|id| id.as_uuid()).collect::<Vec<_>>(), [2, 3]);
}

#[test]
fn a_failed_connection_test_is_an_error() {
    assert!(test_result(ConnectionOutcome::Success).is_ok());
    assert!(matches!(
        test_result(ConnectionOutcome::AuthenticationFailed),
        Err(AppError::Connection(_))
    ));
}

fn preview() -> ImportPreview {
    let existing = vec![Rule::dynamic(RuleId::from_uuid(1), "socks", "dev", 1080).unwrap()];
    preview_effective_forwards(
        "dev",
        b"localforward 127.0.0.1:3000 localhost:30\nlocalforward 127.0.0.1:3000 localhost:30\ndynamicforward 127.0.0.1:1080\nlocalforward 127.0.0.1:3000 localhost:31\nremoteforward 9000\nlocalforward x\n",
        &existing,
        &[RuleId::from_uuid(1)],
    )
    .unwrap()
}

#[test]
fn a_preview_is_printed_with_status_and_reason() {
    let preview = preview();
    assert_eq!(
        preview_lines(&preview, 0),
        [
            "host: dev",
            "1\tlocal\tsupported\t127.0.0.1:3000 -> localhost:30",
            "2\tlocal\tduplicate\t127.0.0.1:3000 -> localhost:30 {\"candidate_id\":1,\"kind\":\"directive\"}",
            "3\tdynamic\tduplicate\t127.0.0.1:1080 {\"kind\":\"rule\",\"rule_id\":\"00000000-0000-0000-0000-000000000001\",\"running\":true}",
            "4\tlocal\tconflict\t127.0.0.1:3000 -> localhost:31 {\"rule_id\":null,\"running\":false}",
            "5\tremote\tunsupported\t- {\"kind\":\"remote_dynamic\"}",
            "6\tlocal\tinvalid\t- {\"kind\":\"syntax\"}",
        ]
    );
    assert_eq!(preview_lines(&preview, 2).last().unwrap(), "saved: 2");
    assert_eq!(status_name(&preview.candidates[0].classification), "supported");
    for candidate in &preview.candidates {
        if let Some(reason) = reason_text(&candidate.classification) {
            let value: serde_json::Value = serde_json::from_str(&reason).unwrap();
            assert_eq!(value.to_string(), reason);
        }
    }
}

#[test]
fn selections_are_checked_before_anything_is_saved() {
    let preview = preview();
    assert_eq!(wants_saving(&preview, &vec![]).unwrap(), false);
    assert_eq!(wants_saving(&preview, &vec![6, 1]).unwrap(), true);
    for bad in [vec![0], vec![1, 1], vec![7, 7]] {
        assert_eq!(
            wants_saving(&preview, &bad).unwrap_err().to_string(),
            "configuration error: candidate IDs must be unique positive integers"
        );
    }
    assert_eq!(
        wants_saving(&preview, &vec![7]).unwrap_err().to_string(),
        "configuration error: selected candidate ID does not exist"
    );
    assert!(check_selection(&vec![1, 2], 2).is_ok());
}

#[test]
fn the_request_holds_the_selected_candidates_and_nothing_else() {
    let preview = preview();
    let settings = Settings { default_reconnect: true, ..Settings::default() };
    let rules = import_request(&preview, &vec![1], &[], &settings).unwrap();
    assert_eq!(rules.len(), 1);
    assert!(matches!(
        &rules[0],
        WireRule::Local { name, bind_port: 3000, auto_start: false, reconnect: true, .. }
            if name == "local-3000"
    ));
    assert_eq!(
        import_request(&preview, &vec![2], &[], &settings).unwrap_err().to_string(),
        "configuration error: candidate 2 cannot be imported"
    );
    assert_eq!(listed_rules(&rules).unwrap().len(), 1);
    let bad = WireRule::Dynamic {
        id: 1,
        name: String::new(),
        ssh_host_alias: "dev".to_owned(),
        bind_address: "127.0.0.1".to_owned(),
        bind_port: 1080,
        auto_start: false,
        reconnect: false,
    };
    assert_eq!(
        listed_rules(&vec![bad]).unwrap_err().to_string(),
        "configuration error: RuleName must not be empty"
    );
}

#[test]
fn the_manual_lists_visible_subcommands_under_their_full_names() {
    let leaf = |name: &str, about: Option<&str>, hidden| CommandDoc {
        name: name.to_owned(),
        about: about.map(str::to_owned),
        hidden,
        children: vec![],
    };
    let mut host = leaf("host", Some("Inspect SSH hosts"), false);
    host.children = vec![leaf("list", None, false)];
    let mut root = leaf("tdeck", None, false);
    root.children = vec![host, leaf("daemon", Some("Internal"), true)];
    assert_eq!(
        subcommand_section(&root, "tdeck"),
        "\n.SH SUBCOMMANDS\n.TP\n\\fBtdeck host\\fR\nInspect SSH hosts\n.TP\n\\fBtdeck host list\\fR\n"
    );
    assert_eq!(subcommand_section(&leaf("tdeck", None, false), "tdeck"), "");
}
