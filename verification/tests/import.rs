use tunnel_deck::application::import::{
    preview_effective_forwards, selected_rules, ImportClassification, ImportForwarding,
    InvalidReason, UnsupportedReason,
};
use tunnel_deck::domain::rule::{Rule, RuleId};
use tunnel_deck::domain::validation::validate_rule_set;

fn id(value: u128) -> RuleId {
    RuleId::from_uuid(value)
}

const FORWARDS: &str = "hostname sample.example
localforward [127.0.0.1]:3000 [localhost]:80
remoteforward [localhost]:9000 [127.0.0.1]:90
dynamicforward [::1]:1080
localforward [127.0.0.1]:3000 [localhost]:80
localforward [127.0.0.1]:3000 [localhost]:81
localforward [::1]:3001 [localhost]:82
localforward /tmp/service.sock [localhost]:83
remoteforward 9001
localforward [127.0.0.1]:0 [localhost]:84
localforward [bad.example]:3002 [localhost]:85
localforward [127.0.0.1]:3003 [bad:host]:86
localforward 3004
";

#[test]
fn fixture_classifies_all_forms_without_mutating_snapshots() {
    let existing = vec![
        Rule::dynamic(id(1), "existing", "sample", 1080)
            .unwrap()
            .with_bind_address("::1")
            .unwrap(),
        Rule::local(id(2), "occupied", "other-host", 3001, "localhost", 9)
            .unwrap()
            .with_bind_address("::")
            .unwrap(),
    ];
    let before = existing.clone();
    let preview =
        preview_effective_forwards("sample", FORWARDS.as_bytes(), &existing, &[id(1)]).unwrap();

    assert_eq!(existing, before);
    assert_eq!(preview.candidates.len(), 12);
    assert!(matches!(
        preview.candidates[0].classification,
        ImportClassification::Supported
    ));
    assert!(matches!(
        preview.candidates[1].classification,
        ImportClassification::Supported
    ));
    assert!(matches!(
        preview.candidates[2].classification,
        ImportClassification::DuplicateRule { running: true, .. }
    ));
    assert_eq!(
        preview.candidates[3].classification,
        ImportClassification::DuplicateDirective { first_index: 0 }
    );
    assert!(matches!(
        preview.candidates[4].classification,
        ImportClassification::Conflict { rule_id: None, .. }
    ));
    assert!(matches!(
        preview.candidates[5].classification,
        ImportClassification::Conflict { rule_id: Some(_), .. }
    ));
    assert!(matches!(
        preview.candidates[6].classification,
        ImportClassification::Unsupported { reason: UnsupportedReason::UnixSocket }
    ));
    assert!(matches!(
        preview.candidates[7].classification,
        ImportClassification::Unsupported { reason: UnsupportedReason::RemoteDynamic }
    ));
    assert!(matches!(
        preview.candidates[8].classification,
        ImportClassification::Invalid { reason: InvalidReason::Port }
    ));
    assert!(matches!(
        preview.candidates[9].classification,
        ImportClassification::Invalid { reason: InvalidReason::BindAddress }
    ));
    assert!(matches!(
        preview.candidates[10].classification,
        ImportClassification::Invalid { reason: InvalidReason::DestinationHost }
    ));
    assert!(matches!(
        preview.candidates[11].classification,
        ImportClassification::Invalid { reason: InvalidReason::Syntax }
    ));
}

#[test]
fn omitted_bind_and_ipv4_ipv6_are_normalized_as_typed_candidates() {
    let preview = preview_effective_forwards(
        "sample",
        b"localforward 3000 [::1]:80\nremoteforward [0.0.0.0]:9000 [example.com]:90\n",
        &[],
        &[],
    )
    .unwrap();
    assert_eq!(
        preview.candidates[0].forwarding,
        Some(ImportForwarding::Local {
            bind_address: "localhost".to_owned(),
            bind_port: 3000,
            destination_host: "::1".to_owned(),
            destination_port: 80,
        })
    );
    assert!(matches!(
        preview.candidates[1].forwarding,
        Some(ImportForwarding::Remote { ref bind_address, .. }) if bind_address == "0.0.0.0"
    ));
}

#[test]
fn non_utf8_effective_output_is_a_typed_error() {
    assert_eq!(
        preview_effective_forwards("sample", &[0xff], &[], &[]),
        Err(InvalidReason::NonUtf8Output)
    );
}

#[test]
fn an_invalid_alias_is_a_typed_error() {
    assert_eq!(
        preview_effective_forwards("bad alias", b"", &[], &[]),
        Err(InvalidReason::Syntax)
    );
}

#[test]
fn gateway_ports_changes_only_omitted_local_listener_defaults() {
    let preview = preview_effective_forwards(
        "sample",
        b"gatewayports yes\nlocalforward 3000 [::1]:80\ndynamicforward 1080\nremoteforward 9000 [::1]:90\n",
        &[],
        &[],
    )
    .unwrap();
    assert!(matches!(
        preview.candidates[0].forwarding,
        Some(ImportForwarding::Local { ref bind_address, .. }) if bind_address == "*"
    ));
    assert!(matches!(
        preview.candidates[1].forwarding,
        Some(ImportForwarding::Dynamic { ref bind_address, .. }) if bind_address == "*"
    ));
    assert!(matches!(
        preview.candidates[2].forwarding,
        Some(ImportForwarding::Remote { ref bind_address, .. }) if bind_address == "localhost"
    ));
}

#[test]
fn relative_unix_socket_paths_are_unsupported() {
    let preview =
        preview_effective_forwards("sample", b"localforward 3000 ./service.sock\n", &[], &[])
            .unwrap();
    assert!(matches!(
        preview.candidates[0].classification,
        ImportClassification::Unsupported { reason: UnsupportedReason::UnixSocket }
    ));
}

#[test]
fn selected_candidates_get_unused_names_and_make_a_valid_rule_set() {
    let existing =
        vec![Rule::remote(id(1), "local-3000", "sample", 7000, "localhost", 80).unwrap()];
    let preview = preview_effective_forwards(
        "sample",
        b"localforward 3000 [::1]:80\nlocalforward 3000 [::1]:81\nlocalforward [192.0.2.1]:3000 [::1]:82\ndynamicforward 1080\n",
        &existing,
        &[],
    )
    .unwrap();
    let rules = selected_rules(&preview, &vec![4, 1, 3], &existing, true, false).unwrap();
    let names: Vec<&str> = rules.iter().map(|rule| rule.name().as_str()).collect();
    assert_eq!(names, ["local-3000-2", "local-3000-3", "dynamic-1080"]);
    assert!(rules.iter().all(|rule| rule.auto_start() && !rule.reconnect()));
    assert!(rules.iter().all(|rule| rule.ssh_host_alias().as_str() == "sample"));
    let mut all = existing.clone();
    all.extend(rules);
    assert_eq!(validate_rule_set(&all), Ok(()));
}

#[test]
fn only_candidates_that_can_be_saved_are_selected() {
    let preview = preview_effective_forwards(
        "sample",
        b"localforward 3000 [::1]:80\nremoteforward 9000\n",
        &[],
        &[],
    )
    .unwrap();
    assert_eq!(
        selected_rules(&preview, &vec![2], &[], false, false),
        Err("candidate 2 cannot be imported".to_owned())
    );
    assert_eq!(
        selected_rules(&preview, &vec![3], &[], false, false),
        Err("candidate 3 cannot be imported".to_owned())
    );
    assert_eq!(selected_rules(&preview, &vec![], &[], false, false), Ok(vec![]));
}
