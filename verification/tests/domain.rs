use tunnel_deck::domain::host::HostAlias;
use tunnel_deck::domain::rule::{BindAddress, Forwarding, Rule, RuleId};
use tunnel_deck::domain::status::{
    AttemptId, RuntimeEvent, RuntimeState, RuntimeStateMachine, TransitionError,
};
use tunnel_deck::domain::validation::{
    addresses_overlap, validate_rule_set, Field, ValidationError,
};

fn id() -> RuleId {
    numbered(1)
}

fn numbered(number: u128) -> RuleId {
    RuleId::from_uuid(number)
}

fn attempt(number: u128) -> AttemptId {
    AttemptId::from_uuid(number)
}

fn active_machine() -> RuntimeStateMachine {
    let mut machine = RuntimeStateMachine::new();
    machine
        .apply(RuntimeEvent::StartRequested { attempt_id: attempt(1) })
        .unwrap();
    machine
        .apply(RuntimeEvent::ForwardingAccepted { attempt_id: attempt(1) })
        .unwrap();
    machine
}

#[test]
fn accepts_an_exact_openssh_alias() {
    let alias = HostAlias::new("production-web_01").unwrap();
    assert_eq!(alias.as_str(), "production-web_01");
    assert_eq!(alias.to_string(), "production-web_01");
}

#[test]
fn rejects_empty_surrounding_whitespace_control_whitespace_and_options() {
    let cases = [
        ("", ValidationError::Empty { field: Field::SshHostAlias }),
        (
            " server",
            ValidationError::SurroundingWhitespace { field: Field::SshHostAlias },
        ),
        (
            "serv\0er",
            ValidationError::ControlCharacter { field: Field::SshHostAlias },
        ),
        (
            "web server",
            ValidationError::Whitespace { field: Field::SshHostAlias },
        ),
        (
            "-oProxyCommand=bad",
            ValidationError::LooksLikeOption { field: Field::SshHostAlias },
        ),
    ];
    for (value, expected) in cases {
        assert_eq!(HostAlias::new(value).unwrap_err(), expected);
    }
}

#[test]
fn rejects_aliases_over_255_characters() {
    assert_eq!(
        HostAlias::new(&"a".repeat(256)).unwrap_err(),
        ValidationError::TooLong { field: Field::SshHostAlias, max_characters: 255 }
    );
    assert!(HostAlias::new(&"a".repeat(255)).is_ok());
}

#[test]
fn new_ids_use_uuid_v4() {
    let value = uuid::Uuid::from_u128(RuleId::new().as_uuid());
    assert_eq!(value.get_version_num(), 4);
    assert_ne!(RuleId::new().as_uuid(), RuleId::new().as_uuid());
}

#[test]
fn all_variants_are_typed_and_default_to_safe_policy() {
    let local = Rule::local(id(), "web", "server", 3000, "localhost", 3000).unwrap();
    let remote = Rule::remote(id(), "callback", "server", 8080, "127.0.0.1", 8080).unwrap();
    let dynamic = Rule::dynamic(id(), "proxy", "server", 1080).unwrap();

    for rule in [&local, &remote, &dynamic] {
        assert!(!rule.auto_start());
        assert!(!rule.reconnect());
        assert_eq!(rule.ssh_host_alias().as_str(), "server");
    }
    assert!(matches!(local.forwarding(), Forwarding::Local(_)));
    assert!(matches!(remote.forwarding(), Forwarding::Remote(_)));
    assert!(matches!(dynamic.forwarding(), Forwarding::Dynamic(_)));
    assert_eq!(local.local_listener().unwrap().0.as_str(), "127.0.0.1");
}

#[test]
fn policy_and_explicit_non_loopback_bind_require_opt_in() {
    let rule = Rule::dynamic(id(), "proxy", "server", 1080)
        .unwrap()
        .with_bind_address("0.0.0.0")
        .unwrap()
        .with_policy(true, true);
    assert_eq!(rule.local_listener().unwrap().0.as_str(), "0.0.0.0");
    assert!(rule.auto_start());
    assert!(rule.reconnect());
}

#[test]
fn invalid_names_aliases_addresses_hosts_and_ports_are_rejected() {
    assert!(matches!(
        Rule::dynamic(id(), "", "server", 1080),
        Err(ValidationError::Empty { field: Field::RuleName })
    ));
    assert!(matches!(
        Rule::dynamic(id(), "proxy", "-oProxyCommand=bad", 1080),
        Err(ValidationError::LooksLikeOption { field: Field::SshHostAlias })
    ));
    assert!(matches!(
        Rule::dynamic(id(), "proxy", "bad alias", 1080),
        Err(ValidationError::Whitespace { field: Field::SshHostAlias })
    ));
    assert!(matches!(
        Rule::dynamic(id(), "proxy", "server", 0),
        Err(ValidationError::PortZero { field: Field::BindPort })
    ));
    assert!(matches!(
        Rule::local(id(), "web", "server", 3000, "bad:host", 3000),
        Err(ValidationError::InvalidDestinationHost { .. })
    ));
    assert!(matches!(
        BindAddress::new("not an address"),
        Err(ValidationError::InvalidBindAddress { .. })
    ));
}

#[test]
fn text_validation_rejects_whitespace_control_characters_and_length() {
    assert_eq!(
        Rule::dynamic(id(), " proxy", "server", 1080).unwrap_err(),
        ValidationError::SurroundingWhitespace { field: Field::RuleName }
    );
    assert_eq!(
        Rule::dynamic(id(), "pro\nxy", "server", 1080).unwrap_err(),
        ValidationError::ControlCharacter { field: Field::RuleName }
    );
    assert_eq!(
        Rule::dynamic(id(), &"x".repeat(129), "server", 1080).unwrap_err(),
        ValidationError::TooLong { field: Field::RuleName, max_characters: 128 }
    );
    assert_eq!(
        Rule::local(id(), "web", "server", 3000, "web server", 80).unwrap_err(),
        ValidationError::Whitespace { field: Field::DestinationHost }
    );
    assert_eq!(
        Rule::local(id(), "web", "server", 3000, &"x".repeat(254), 80).unwrap_err(),
        ValidationError::TooLong { field: Field::DestinationHost, max_characters: 253 }
    );
    assert_eq!(
        Rule::local(id(), "web", "server", 3000, "host", 0).unwrap_err(),
        ValidationError::PortZero { field: Field::DestinationPort }
    );
}

#[test]
fn ipv6_addresses_are_accepted_without_brackets() {
    let rule = Rule::local(id(), "web", "server", 3000, "::1", 3000)
        .unwrap()
        .with_bind_address("::1")
        .unwrap();
    assert_eq!(rule.local_listener().unwrap().0.as_str(), "::1");
}

#[test]
fn rule_name_can_be_changed_only_to_another_valid_name() {
    let mut rule = Rule::dynamic(id(), "proxy", "server", 1080).unwrap();
    rule.rename("browser proxy").unwrap();
    assert_eq!(rule.name().as_str(), "browser proxy");
    assert!(rule.rename(" ").is_err());
    assert_eq!(rule.name().as_str(), "browser proxy");
}

#[test]
fn errors_say_what_is_wrong_with_which_field() {
    let message = |error: ValidationError| error.to_string();
    assert_eq!(
        message(HostAlias::new("").unwrap_err()),
        "SshHostAlias must not be empty"
    );
    assert_eq!(
        message(Rule::dynamic(id(), "proxy", "server", 0).unwrap_err()),
        "port for BindPort must be in the range 1..=65535"
    );
}

#[test]
fn successful_attempt_reaches_active_then_stops() {
    let mut machine = RuntimeStateMachine::new();
    machine
        .apply(RuntimeEvent::StartRequested { attempt_id: attempt(1) })
        .unwrap();
    machine
        .apply(RuntimeEvent::ForwardingAccepted { attempt_id: attempt(1) })
        .unwrap();
    assert_eq!(machine.state(), RuntimeState::Active { attempt_id: attempt(1) });
    machine.apply(RuntimeEvent::StopRequested).unwrap();
    machine.apply(RuntimeEvent::CleanupComplete).unwrap();
    assert_eq!(machine.state(), RuntimeState::Stopped);
}

#[test]
fn failed_attempt_retries_with_a_new_attempt() {
    let mut machine = RuntimeStateMachine::new();
    machine
        .apply(RuntimeEvent::StartRequested { attempt_id: attempt(1) })
        .unwrap();
    machine
        .apply(RuntimeEvent::AttemptFailed { attempt_id: attempt(1), retry: true })
        .unwrap();
    machine
        .apply(RuntimeEvent::RetryDue {
            failed_attempt_id: attempt(1),
            next_attempt_id: attempt(2),
        })
        .unwrap();
    assert_eq!(machine.state(), RuntimeState::Starting { attempt_id: attempt(2) });
}

#[test]
fn process_exit_without_retry_enters_failed() {
    let mut machine = active_machine();
    machine
        .apply(RuntimeEvent::ProcessExited { attempt_id: attempt(1), retry: false })
        .unwrap();
    assert_eq!(machine.state(), RuntimeState::Failed { attempt_id: attempt(1) });
}

#[test]
fn stale_attempt_event_is_rejected_without_mutation() {
    let mut machine = RuntimeStateMachine::new();
    machine
        .apply(RuntimeEvent::StartRequested { attempt_id: attempt(2) })
        .unwrap();
    let before = machine.state();
    let error = machine
        .apply(RuntimeEvent::ForwardingAccepted { attempt_id: attempt(1) })
        .unwrap_err();
    assert!(matches!(error, TransitionError::StaleAttempt { .. }));
    assert_eq!(machine.state(), before);
}

#[test]
fn stop_is_idempotent_while_stopped_or_stopping() {
    let mut machine = RuntimeStateMachine::new();
    let transition = machine.apply(RuntimeEvent::StopRequested).unwrap();
    assert!(!transition.changed);

    machine
        .apply(RuntimeEvent::StartRequested { attempt_id: attempt(1) })
        .unwrap();
    machine.apply(RuntimeEvent::StopRequested).unwrap();
    let transition = machine.apply(RuntimeEvent::StopRequested).unwrap();
    assert!(!transition.changed);
}

#[test]
fn invalid_event_is_rejected_without_mutation() {
    let mut machine = RuntimeStateMachine::new();
    let error = machine.apply(RuntimeEvent::CleanupComplete).unwrap_err();
    assert!(matches!(error, TransitionError::Invalid { .. }));
    assert_eq!(machine.state(), RuntimeState::Stopped);
}

#[test]
fn stop_is_available_while_reconnecting_or_failed() {
    for retry in [true, false] {
        let mut machine = RuntimeStateMachine::new();
        machine
            .apply(RuntimeEvent::StartRequested { attempt_id: attempt(1) })
            .unwrap();
        machine
            .apply(RuntimeEvent::AttemptFailed { attempt_id: attempt(1), retry })
            .unwrap();
        machine.apply(RuntimeEvent::StopRequested).unwrap();
        assert_eq!(
            machine.state(),
            RuntimeState::Stopping { attempt_id: Some(attempt(1)) }
        );
    }
}

#[test]
fn late_success_after_a_stop_is_refused() {
    let mut machine = RuntimeStateMachine::new();
    machine
        .apply(RuntimeEvent::StartRequested { attempt_id: attempt(1) })
        .unwrap();
    machine.apply(RuntimeEvent::StopRequested).unwrap();
    assert!(machine
        .apply(RuntimeEvent::ForwardingAccepted { attempt_id: attempt(1) })
        .is_err());
    assert_eq!(
        machine.state(),
        RuntimeState::Stopping { attempt_id: Some(attempt(1)) }
    );
}

#[test]
fn duplicate_names_are_rejected() {
    let rules = [
        Rule::dynamic(numbered(1), "proxy", "host", 1080).unwrap(),
        Rule::local(numbered(2), "proxy", "host", 3000, "localhost", 3000).unwrap(),
    ];
    let errors = validate_rule_set(&rules).unwrap_err();
    assert!(matches!(errors[0], ValidationError::DuplicateName { .. }));
}

#[test]
fn overlapping_local_listeners_are_rejected() {
    let rules = [
        Rule::dynamic(numbered(1), "proxy", "host", 3000)
            .unwrap()
            .with_bind_address("0.0.0.0")
            .unwrap(),
        Rule::local(numbered(2), "web", "host", 3000, "localhost", 3000).unwrap(),
    ];
    let errors = validate_rule_set(&rules).unwrap_err();
    assert!(matches!(errors[0], ValidationError::DuplicateLocalListener { .. }));
}

#[test]
fn remote_listener_does_not_conflict_locally() {
    let rules = [
        Rule::dynamic(numbered(1), "proxy", "host", 3000).unwrap(),
        Rule::remote(numbered(2), "remote", "host", 3000, "localhost", 3000).unwrap(),
    ];
    assert_eq!(validate_rule_set(&rules), Ok(()));
}

#[test]
fn distinct_addresses_and_ports_do_not_conflict() {
    let rules = [
        Rule::dynamic(numbered(1), "proxy", "host", 3000).unwrap(),
        Rule::local(numbered(2), "web", "host", 3001, "localhost", 3000).unwrap(),
        Rule::local(numbered(3), "other", "host", 3000, "localhost", 3000)
            .unwrap()
            .with_bind_address("192.0.2.1")
            .unwrap(),
    ];
    assert_eq!(validate_rule_set(&rules), Ok(()));
}

#[test]
fn wildcard_and_ipv6_unspecified_bindings_overlap_their_address_families() {
    let wildcard_rules = [
        Rule::dynamic(numbered(1), "proxy", "host", 3000)
            .unwrap()
            .with_bind_address("*")
            .unwrap(),
        Rule::dynamic(numbered(2), "proxy-v6", "host", 3000)
            .unwrap()
            .with_bind_address("2001:db8::1")
            .unwrap(),
    ];
    assert!(matches!(
        validate_rule_set(&wildcard_rules).unwrap_err()[0],
        ValidationError::DuplicateLocalListener { .. }
    ));

    let ipv6_rules = [
        Rule::dynamic(numbered(3), "any-v6", "host", 3001)
            .unwrap()
            .with_bind_address("::")
            .unwrap(),
        Rule::dynamic(numbered(4), "loopback-v6", "host", 3001)
            .unwrap()
            .with_bind_address("::1")
            .unwrap(),
    ];
    assert!(matches!(
        validate_rule_set(&ipv6_rules).unwrap_err()[0],
        ValidationError::DuplicateLocalListener { .. }
    ));
}

#[test]
fn overlap_does_not_depend_on_the_order_and_every_listener_overlaps_itself() {
    let addresses = [
        "*", "0.0.0.0", "::", "localhost", "127.0.0.1", "::1", "192.0.2.1", "2001:db8::1",
    ];
    for left in addresses {
        assert!(addresses_overlap(left, left), "{left}");
        for right in addresses {
            assert_eq!(
                addresses_overlap(left, right),
                addresses_overlap(right, left),
                "{left} {right}"
            );
        }
    }
    assert!(addresses_overlap("localhost", "127.0.0.1"));
    assert!(addresses_overlap("localhost", "::1"));
    assert!(!addresses_overlap("192.0.2.1", "2001:db8::1"));
    assert!(!addresses_overlap("0.0.0.0", "::1"));
}
