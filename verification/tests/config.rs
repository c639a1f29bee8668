use tunnel_deck::config::store::{
    backup_name, check_schema_version, load_plan, migrate_next, new_backup_name,
    new_temporary_name, replace_next, rule_set_text, temporary_name, LoadPlan, MigrationStep, ReplaceStep, StepOutcome, StoreError,
};
use tunnel_deck::config::{
    ConfigV1, ConfigV2, Rule as WireRule, Settings, Theme, SCHEMA_VERSION,
    SETTINGS_SCHEMA_VERSION,
};
use tunnel_deck::domain::rule::{Rule, RuleId};
use tunnel_deck::domain::validation::ValidationError;

fn rules() -> Vec<Rule> {
    vec![
        Rule::local(RuleId::from_uuid(1), "web", "server", 3000, "localhost", 80).unwrap(),
        Rule::remote(RuleId::from_uuid(2), "callback", "server", 9000, "127.0.0.1", 90)
            .unwrap()
            .with_policy(true, true),
        Rule::dynamic(RuleId::from_uuid(3), "proxy", "server", 1080)
            .unwrap()
            .with_bind_address("::1")
            .unwrap(),
    ]
}

#[test]
fn unknown_schema_version_is_rejected() {
    let error = check_schema_version(2).unwrap_err();
    assert!(error.contains("unsupported schema version 2"));
    assert_eq!(check_schema_version(SCHEMA_VERSION), Ok(SCHEMA_VERSION));
}

#[test]
fn stored_rules_are_read_back_as_they_were() {
    let config = ConfigV1::from_domain(&rules()).unwrap();
    assert_eq!(config.schema_version, SCHEMA_VERSION);
    assert!(matches!(config.rules[2], WireRule::Dynamic { .. }));
    assert_eq!(config.into_domain().unwrap(), rules());

    let settings = Settings { theme: Theme::Light, ..Settings::default() };
    let config = ConfigV2::from_domain(&rules(), settings).unwrap();
    assert_eq!(config.schema_version, SETTINGS_SCHEMA_VERSION);
    assert_eq!(config.into_domain().unwrap(), (rules(), settings));
}

#[test]
fn unknown_schema_and_invalid_domain_never_overwrite_original() {
    let config = ConfigV1 { schema_version: 99, rules: vec![] };
    assert!(matches!(config.into_domain(), Err(StoreError::UnsupportedSchema(99))));
    assert!(matches!(
        load_plan(99, SETTINGS_SCHEMA_VERSION, SCHEMA_VERSION),
        Err(StoreError::UnsupportedSchema(99))
    ));
    let mut config = ConfigV1::from_domain(&rules()).unwrap();
    match &mut config.rules[2] {
        WireRule::Dynamic { bind_port, .. } => {
            assert_eq!(*bind_port, 1080);
            *bind_port = 0;
        }
        other => panic!("{other:?}"),
    }
    assert!(matches!(
        config.into_domain(),
        Err(StoreError::InvalidRule(ValidationError::PortZero { .. }))
    ));
}

#[test]
fn invalid_rule_set_does_not_replace_valid_configuration() {
    let mut twice = rules();
    twice.push(Rule::dynamic(RuleId::from_uuid(4), "web", "server", 1081).unwrap());
    match ConfigV1::from_domain(&twice) {
        Err(StoreError::InvalidRules(errors)) => {
            assert_eq!(errors.len(), 1);
            assert_eq!(rule_set_text(&errors), format!("{errors:?}"));
            assert_eq!(
                rule_set_text(&vec![ValidationError::DuplicateName { name: "a\"b\n".to_owned() }]),
                "[DuplicateName { name: \"a\\\"b\\n\" }]"
            );
        }
        other => panic!("{other:?}"),
    }
}

#[test]
fn future_schema_is_not_migrated_or_backed_up() {
    assert!(matches!(load_plan(1, 1, 0), Ok(LoadPlan::Decode)));
    assert!(matches!(load_plan(0, 1, 0), Ok(LoadPlan::Migrate)));
    assert!(matches!(load_plan(2, 1, 0), Err(StoreError::UnsupportedSchema(2))));
    assert!(matches!(load_plan(2, 1, 2), Err(StoreError::UnsupportedSchema(2))));
    assert!(matches!(load_plan(0, 2, 1), Err(StoreError::UnsupportedSchema(0))));
}

/// Runs a replacement in which one step fails, and lists what was done.
fn replacement(failing: usize) -> (Vec<String>, Result<(), StoreError>) {
    let mut step = ReplaceStep::Create;
    let mut done = Vec::new();
    loop {
        if let ReplaceStep::Finished(result) = step {
            return (done, result);
        }
        let name = format!("{step:?}");
        let outcome = if done.len() == failing {
            StepOutcome::Failed("broken".to_owned())
        } else {
            StepOutcome::Done
        };
        done.push(name.split('(').next().unwrap().to_owned());
        step = replace_next(step, outcome);
    }
}

#[test]
fn failure_before_rename_preserves_original_and_removes_temporary() {
    for failing in 1..=3 {
        let (done, result) = replacement(failing);
        assert!(!done.contains(&"Rename".to_owned()));
        assert_eq!(done.last().unwrap(), "Discard");
        assert!(matches!(result, Err(StoreError::Io(message)) if message == "broken"));
    }
    let (done, result) = replacement(0);
    assert_eq!(done, ["Create"]);
    assert!(matches!(result, Err(StoreError::Io(_))));
}

#[test]
fn rename_failure_preserves_original_and_cleans_up() {
    let (done, result) = replacement(4);
    assert_eq!(done[4..], ["Rename", "Discard"]);
    assert!(matches!(result, Err(StoreError::Io(_))));
}

#[test]
fn sync_failure_after_rename_reports_committed_but_uncertain() {
    let (done, result) = replacement(5);
    assert_eq!(done.last().unwrap(), "SynchronizeDirectory");
    assert!(matches!(result, Err(StoreError::DurabilityUncertain(_))));
    let (done, result) = replacement(usize::MAX);
    assert_eq!(
        done,
        ["Create", "Write", "Synchronize", "Inspect", "Rename", "SynchronizeDirectory"]
    );
    assert!(result.is_ok());
}

/// A configuration and its backup, while the configuration is migrated.
struct Migrating {
    config: String,
    backup: Option<String>,
}

/// Migrates a configuration. A step may fail; so may the conversion.
fn migrate(
    original: &str,
    failing: Option<&str>,
    conversion: Result<Vec<Rule>, StoreError>,
) -> (Migrating, Result<(), StoreError>) {
    let mut now = Migrating { config: original.to_owned(), backup: None };
    let mut conversion = Some(conversion);
    let mut step = MigrationStep::CreateBackup;
    loop {
        if let MigrationStep::Finished(result) = step {
            return (now, result);
        }
        let name = format!("{step:?}");
        let outcome = if failing == Some(name.as_str()) {
            Err(StoreError::Io("broken".to_owned()))
        } else {
            match &step {
                MigrationStep::CreateBackup => {
                    now.backup = Some(String::new());
                    Ok(())
                }
                MigrationStep::WriteBackup => {
                    now.backup = Some(original.to_owned());
                    Ok(())
                }
                MigrationStep::DiscardBackup(_) => {
                    now.backup = None;
                    Ok(())
                }
                MigrationStep::Convert => {
                    assert_eq!(now.backup.as_deref(), Some(original));
                    assert_eq!(now.config, original);
                    conversion.take().unwrap().map(|_| ())
                }
                MigrationStep::Replace => {
                    now.config = "converted".to_owned();
                    Ok(())
                }
                _ => Ok(()),
            }
        };
        step = migrate_next(step, outcome);
    }
}

#[test]
fn migration_keeps_exact_private_backup_on_success_and_failure() {
    let original = "schema_version = 0\n# test-only migration input\n";
    for fail in [false, true] {
        let conversion = if fail {
            Err(StoreError::Io("migration failed".to_owned()))
        } else {
            Ok(rules())
        };
        let (now, result) = migrate(original, None, conversion);
        assert_eq!(result.is_err(), fail);
        assert_eq!(now.backup.as_deref(), Some(original));
        assert_eq!(now.config, if fail { original } else { "converted" });
    }
}

#[test]
fn invalid_migration_output_preserves_original_and_backup_exists_before_conversion() {
    let original = "schema_version = 0\n# keep this exact source\n";
    let mut config = ConfigV1::from_domain(&rules()).unwrap();
    match &mut config.rules[2] {
        WireRule::Dynamic { bind_port, .. } => {
            assert_eq!(*bind_port, 1080);
            *bind_port = 0;
        }
        other => panic!("{other:?}"),
    }
    let (now, result) = migrate(original, None, config.into_domain());
    assert!(matches!(result, Err(StoreError::InvalidRule(ValidationError::PortZero { .. }))));
    assert_eq!(now.config, original);
    assert_eq!(now.backup.as_deref(), Some(original));
}

#[test]
fn a_backup_that_cannot_be_made_safe_is_discarded_and_nothing_is_converted() {
    for failing in ["CreateBackup", "WriteBackup", "SynchronizeBackup", "SynchronizeDirectory"] {
        let (now, result) = migrate("original", Some(failing), Ok(rules()));
        assert!(matches!(result, Err(StoreError::Io(message)) if message == "broken"));
        assert_eq!(now.config, "original");
        assert_eq!(now.backup, None);
    }
    let (now, result) = migrate("original", Some("Replace"), Ok(rules()));
    assert!(result.is_err());
    assert_eq!(now.config, "original");
    assert_eq!(now.backup.as_deref(), Some("original"));
}

#[test]
fn a_configuration_that_does_not_exist_yet_is_safe_to_replace() {
    assert!(matches!(
        replace_next(ReplaceStep::Inspect, StepOutcome::Missing("none".to_owned())),
        ReplaceStep::Rename
    ));
}

#[test]
fn every_file_that_is_written_gets_a_name_of_its_own() {
    let name = new_temporary_name();
    assert!(name.starts_with(".config.") && name.ends_with(".tmp"));
    assert_eq!(name.len(), temporary_name(1).len());
    assert_ne!(name, new_temporary_name());
    let name = new_backup_name(1);
    assert!(name.starts_with("config.toml.v1.") && name.ends_with(".bak"));
    assert_ne!(name, new_backup_name(1));
}

#[test]
fn names_of_temporary_files_and_backups_hold_the_identifier() {
    assert_eq!(temporary_name(1), ".config.00000000-0000-0000-0000-000000000001.tmp");
    assert_eq!(
        backup_name(1, 0x1234_5678_9abc_def0_1122_3344_5566_7788),
        "config.toml.v1.12345678-9abc-def0-1122-334455667788.bak"
    );
}

#[test]
fn store_errors_say_what_happened() {
    assert!(StoreError::UnsupportedSchema(7).to_string().contains('7'));
    assert!(StoreError::Io("denied".to_owned()).to_string().contains("denied"));
    assert!(StoreError::DurabilityUncertain("sync".to_owned()).to_string().contains("sync"));
}
