//! What the command line does between its arguments and the daemon.
use crate::application::hosts;
use crate::application::hosts::{ConnectionOutcome, EffectiveHost};
use crate::application::import;
use crate::application::import::{
    DirectiveKind, ImportCandidate, ImportClassification, ImportForwarding, ImportPreview,
    InvalidReason, UnsupportedReason,
};
use crate::config;
use crate::config::conversion;
use crate::config::{LogLevel, Rule as WireRule, Settings, Theme};
use crate::daemon::process;
use crate::domain::rule;
use crate::domain::rule::{Rule, RuleId};
use crate::domain::validation;
use crate::error::AppError;
use crate::identity;
use crate::ipc::{ForwardStatus, Operation, Reply, Response, RunState, Selector};
use crate::text;
use vstd::prelude::*;
use vstd::string::*;

verus! {

/// Milliseconds until a request is given up.
pub const DEFAULT_TIMEOUT: u64 = 5_000;

#[derive(Clone, Copy, Debug, PartialEq, Eq, Structural)]
pub enum ForwardKind {
    Local,
    Remote,
    Dynamic,
}

impl ForwardKind {
    pub open spec fn shown(self) -> Seq<char> {
        match self {
            ForwardKind::Local => "local"@,
            ForwardKind::Remote => "remote"@,
            ForwardKind::Dynamic => "dynamic"@,
        }
    }

    pub fn as_str(self) -> (r: &'static str)
        ensures
            r@ == self.shown(),
    {
        match self {
            ForwardKind::Local => "local",
            ForwardKind::Remote => "remote",
            ForwardKind::Dynamic => "dynamic",
        }
    }
}

// ---------------------------------------------------------------------------
// Adding a rule
// ---------------------------------------------------------------------------
/// The arguments of `forward add`.
#[derive(Debug)]
pub struct AddArgs {
    pub kind: ForwardKind,
    pub name: String,
    pub ssh_host_alias: String,
    pub bind_address: String,
    pub bind_port: u16,
    pub destination_host: String,
    pub destination_port: Option<u16>,
    pub auto_start: Option<bool>,
    pub reconnect: Option<bool>,
}

pub open spec fn or_default(value: Option<bool>, default: bool) -> bool {
    match value {
        Some(chosen) => chosen,
        None => default,
    }
}

/// The rule that the arguments describe. A dynamic forwarding has no destination; the others
/// need a destination port. What is left open about the policy comes from the settings.
pub open spec fn added(args: AddArgs, settings: Settings, id: u128) -> Option<rule::RuleModel> {
    let forwarding = match (args.kind, args.destination_port) {
        (ForwardKind::Dynamic, _) => Some(
            rule::ForwardingModel::Dynamic {
                bind_address: args.bind_address@,
                bind_port: args.bind_port,
            },
        ),
        (ForwardKind::Local, Some(destination_port)) => Some(
            rule::ForwardingModel::Local {
                bind_address: args.bind_address@,
                bind_port: args.bind_port,
                destination_host: args.destination_host@,
                destination_port,
            },
        ),
        (ForwardKind::Remote, Some(destination_port)) => Some(
            rule::ForwardingModel::Remote {
                bind_address: args.bind_address@,
                bind_port: args.bind_port,
                destination_host: args.destination_host@,
                destination_port,
            },
        ),
        _ => None,
    };
    match forwarding {
        Some(forwarding) => Some(
            rule::RuleModel {
                id,
                name: args.name@,
                ssh_host_alias: args.ssh_host_alias@,
                forwarding,
                auto_start: or_default(args.auto_start, settings.default_auto_start),
                reconnect: or_default(args.reconnect, settings.default_reconnect),
            },
        ),
        None => None,
    }
}

fn chosen(value: Option<bool>, default: bool) -> (r: bool)
    ensures
        r == or_default(value, default),
{
    match value {
        Some(value) => value,
        None => default,
    }
}

/// As `forward_add`, under a given ID.
pub fn added_rule(args: AddArgs, settings: &Settings, id: u128) -> (r: Result<WireRule, AppError>)
    ensures
        match r {
            Ok(wire) => added(args, *settings, id) == Some(wire@),
            Err(AppError::Configuration(message)) => added(args, *settings, id) is None && message@
                == "--destination-port is required for local and remote forwarding"@,
            Err(_) => false,
        },
{
    let auto_start = chosen(args.auto_start, settings.default_auto_start);
    let reconnect = chosen(args.reconnect, settings.default_reconnect);
    match (args.kind, args.destination_port) {
        (ForwardKind::Dynamic, _) => Ok(
            WireRule::Dynamic {
                id,
                name: args.name,
                ssh_host_alias: args.ssh_host_alias,
                bind_address: args.bind_address,
                bind_port: args.bind_port,
                auto_start,
                reconnect,
            },
        ),
        (ForwardKind::Local, Some(destination_port)) => Ok(
            WireRule::Local {
                id,
                name: args.name,
                ssh_host_alias: args.ssh_host_alias,
                bind_address: args.bind_address,
                bind_port: args.bind_port,
                destination_host: args.destination_host,
                destination_port,
                auto_start,
                reconnect,
            },
        ),
        (ForwardKind::Remote, Some(destination_port)) => Ok(
            WireRule::Remote {
                id,
                name: args.name,
                ssh_host_alias: args.ssh_host_alias,
                bind_address: args.bind_address,
                bind_port: args.bind_port,
                destination_host: args.destination_host,
                destination_port,
                auto_start,
                reconnect,
            },
        ),
        _ => Err(
            AppError::Configuration(
                "--destination-port is required for local and remote forwarding".to_owned(),
            ),
        ),
    }
}

/// The rule that the arguments describe, under a new ID.
pub fn forward_add(args: AddArgs, settings: &Settings) -> (r: Result<WireRule, AppError>)
    ensures
        match r {
            Ok(wire) => added(args, *settings, wire@.id) == Some(wire@) && identity::version_four(
                wire@.id,
            ),
            Err(AppError::Configuration(message)) => added(args, *settings, 0) is None && message@
                == "--destination-port is required for local and remote forwarding"@,
            Err(_) => false,
        },
{
    added_rule(args, settings, identity::random_uuid())
}

// ---------------------------------------------------------------------------
// Settings
// ---------------------------------------------------------------------------
/// The arguments of `settings set`.
#[derive(Clone, Copy, Debug, PartialEq, Eq, Structural)]
pub struct SettingsArgs {
    pub theme: Option<Theme>,
    pub log_level: Option<LogLevel>,
    pub default_reconnect: Option<bool>,
    pub default_auto_start: Option<bool>,
}

/// Replaces the values that are given and keeps the others.
pub fn update_settings(settings: Settings, args: SettingsArgs) -> (r: Settings)
    ensures
        r == (Settings {
            theme: match args.theme {
                Some(value) => value,
                None => settings.theme,
            },
            log_level: match args.log_level {
                Some(value) => value,
                None => settings.log_level,
            },
            default_reconnect: or_default(args.default_reconnect, settings.default_reconnect),
            default_auto_start: or_default(args.default_auto_start, settings.default_auto_start),
        }),
{
    let theme = match args.theme {
        Some(value) => value,
        None => settings.theme,
    };
    let log_level = match args.log_level {
        Some(value) => value,
        None => settings.log_level,
    };
    Settings {
        theme,
        log_level,
        default_reconnect: chosen(args.default_reconnect, settings.default_reconnect),
        default_auto_start: chosen(args.default_auto_start, settings.default_auto_start),
    }
}

pub open spec fn theme_word(theme: Theme) -> Seq<char> {
    match theme {
        Theme::System => "system"@,
        Theme::Dark => "dark"@,
        Theme::Light => "light"@,
    }
}

pub open spec fn level_word(level: LogLevel) -> Seq<char> {
    match level {
        LogLevel::Error => "error"@,
        LogLevel::Warn => "warn"@,
        LogLevel::Info => "info"@,
        LogLevel::Debug => "debug"@,
        LogLevel::Trace => "trace"@,
    }
}

pub fn theme_name(theme: Theme) -> (r: &'static str)
    ensures
        r@ == theme_word(theme),
{
    match theme {
        Theme::System => "system",
        Theme::Dark => "dark",
        Theme::Light => "light",
    }
}

pub fn level_name(level: LogLevel) -> (r: &'static str)
    ensures
        r@ == level_word(level),
{
    match level {
        LogLevel::Error => "error",
        LogLevel::Warn => "warn",
        LogLevel::Info => "info",
        LogLevel::Debug => "debug",
        LogLevel::Trace => "trace",
    }
}

pub open spec fn truth(value: bool) -> Seq<char> {
    if value {
        "true"@
    } else {
        "false"@
    }
}

pub fn truth_word(value: bool) -> (r: &'static str)
    ensures
        r@ == truth(value),
{
    if value {
        "true"
    } else {
        "false"
    }
}

/// What `settings show` prints.
pub fn settings_lines(settings: &Settings) -> (r: Vec<String>)
    ensures
        text::texts(r@) == seq![
            "theme: "@ + theme_word(settings.theme),
            "log-level: "@ + level_word(settings.log_level),
            "default-reconnect: "@ + truth(settings.default_reconnect),
            "default-auto-start: "@ + truth(settings.default_auto_start),
        ],
{
    let mut out: Vec<String> = Vec::new();
    out.push(text::joined("theme: ", theme_name(settings.theme)));
    out.push(text::joined("log-level: ", level_name(settings.log_level)));
    out.push(text::joined("default-reconnect: ", truth_word(settings.default_reconnect)));
    out.push(text::joined("default-auto-start: ", truth_word(settings.default_auto_start)));
    assert(text::texts(out@) =~= seq![
        "theme: "@ + theme_word(settings.theme),
        "log-level: "@ + level_word(settings.log_level),
        "default-reconnect: "@ + truth(settings.default_reconnect),
        "default-auto-start: "@ + truth(settings.default_auto_start),
    ]);
    out
}

// ---------------------------------------------------------------------------
// Requests and answers
// ---------------------------------------------------------------------------
/// A word that reads as a UUID names a rule by its ID, any other word by its name.
pub fn selector(word: String) -> (r: Selector)
    ensures
        r == (match identity::parsed_uuid(word@) {
            Some(id) => Selector::Id(id),
            None => Selector::Name(word),
        }),
{
    let parsed = identity::parse_uuid(word.as_str());
    selector_for(word, parsed)
}

/// As `selector`, given what the word reads as.
pub fn selector_for(word: String, parsed: Option<u128>) -> (r: Selector)
    ensures
        r == (match parsed {
            Some(id) => Selector::Id(id),
            None => Selector::Name(word),
        }),
{
    match parsed {
        Some(id) => Selector::Id(id),
        None => Selector::Name(word),
    }
}

/// The written form of a rule's ID always selects that rule.
pub fn selector_of_id(id: u128) -> (r: Selector)
    ensures
        r == Selector::Id(id),
{
    selector(identity::uuid_text(id))
}

/// Milliseconds to wait for an answer. Stopping takes the process its time.
pub fn response_timeout(operation: Operation) -> (r: u64)
    ensures
        r == (if operation == Operation::ForwardStop {
            process::STOP_RESPONSE_TIMEOUT
        } else {
            DEFAULT_TIMEOUT
        }),
{
    if operation == Operation::ForwardStop {
        process::STOP_RESPONSE_TIMEOUT
    } else {
        DEFAULT_TIMEOUT
    }
}

/// What an answer means to the command line.
pub fn daemon_result(response: Response, json: bool) -> (r: Result<Reply, AppError>)
    ensures
        match response {
            Response::Success(answer) => r == Ok::<Reply, AppError>(answer.result),
            Response::Failure(answer) => if json {
                r == Err::<Reply, AppError>(
                    AppError::JsonDaemon {
                        code: answer.error.code,
                        message: answer.error.message,
                    },
                )
            } else {
                r == Err::<Reply, AppError>(
                    AppError::Daemon { code: answer.error.code, message: answer.error.message },
                )
            },
        },
{
    match response {
        Response::Success(answer) => Ok(answer.result),
        Response::Failure(answer) => {
            let error = answer.error;
            if json {
                Err(AppError::JsonDaemon { code: error.code, message: error.message })
            } else {
                Err(AppError::Daemon { code: error.code, message: error.message })
            }
        },
    }
}

/// What `forward list` prints of a rule.
pub open spec fn rule_line(m: rule::RuleModel) -> Seq<char> {
    identity::hyphenated(m.id) + "\t"@ + m.name
}

pub fn rule_lines(rules: &Vec<WireRule>) -> (r: Vec<String>)
    ensures
        text::texts(r@) == config::wires(rules@).map_values(|m: rule::RuleModel| rule_line(m)),
{
    let ghost all = config::wires(rules@).map_values(|m: rule::RuleModel| rule_line(m));
    let mut out: Vec<String> = Vec::new();
    let mut i: usize = 0;
    while i < rules.len()
        invariant
            i <= rules@.len(),
            all == config::wires(rules@).map_values(|m: rule::RuleModel| rule_line(m)),
            text::texts(out@) =~= all.take(i as int),
        decreases rules.len() - i,
    {
        let (id, name) = match &rules[i] {
            WireRule::Local { id, name, .. } => (*id, name),
            WireRule::Remote { id, name, .. } => (*id, name),
            WireRule::Dynamic { id, name, .. } => (*id, name),
        };
        let line = text::joined3(identity::uuid_text(id).as_str(), "\t", name.as_str());
        proof {
            text::texts_push(out@, line);
            assert(all[i as int] == rule_line(rules@[i as int]@));
            assert(all.take(i as int + 1) =~= all.take(i as int).push(all[i as int]));
        }
        out.push(line);
        i = i + 1;
    }
    assert(all.take(all.len() as int) =~= all);
    out
}

/// The rules that are not stopped.
pub open spec fn not_stopped(forwards: Seq<ForwardStatus>) -> Seq<u128>
    decreases forwards.len(),
{
    if forwards.len() == 0 {
        Seq::empty()
    } else {
        let earlier = not_stopped(forwards.drop_last());
        if forwards.last().state == RunState::Stopped {
            earlier
        } else {
            earlier.push(forwards.last().rule_id)
        }
    }
}

pub fn running_ids(forwards: &Vec<ForwardStatus>) -> (r: Vec<RuleId>)
    ensures
        r@.map_values(|id: RuleId| id@) == not_stopped(forwards@),
{
    let mut out: Vec<RuleId> = Vec::new();
    let mut i: usize = 0;
    assert(forwards@.take(0) =~= Seq::<ForwardStatus>::empty());
    assert(out@.map_values(|id: RuleId| id@) =~= Seq::<u128>::empty());
    while i < forwards.len()
        invariant
            i <= forwards@.len(),
            out@.map_values(|id: RuleId| id@) == not_stopped(forwards@.take(i as int)),
        decreases forwards.len() - i,
    {
        assert(forwards@.take(i as int + 1).drop_last() =~= forwards@.take(i as int));
        assert(forwards@.take(i as int + 1).last() == forwards@[i as int]);
        if forwards[i].state != RunState::Stopped {
            let ghost before = out@;
            let id = RuleId::from_uuid(forwards[i].rule_id);
            out.push(id);
            assert(out@.map_values(|id: RuleId| id@) =~= before.map_values(|id: RuleId| id@).push(
                id@,
            ));
        }
        i = i + 1;
    }
    assert(forwards@.take(forwards@.len() as int) =~= forwards@);
    out
}

// ---------------------------------------------------------------------------
// Hosts
// ---------------------------------------------------------------------------
/// What `host show` prints.
pub open spec fn host_text(host: EffectiveHost) -> Seq<Seq<char>> {
    let start = seq![
        "alias: "@ + host.alias@,
        "hostname: "@ + host.hostname@,
        "user: "@ + host.user@,
        "port: "@ + text::decimal(host.port as nat),
    ];
    let identities = text::texts(host.identity_files@).map_values(
        |name: Seq<char>| "identity-file: "@ + name,
    );
    let jump = match host.proxy_jump {
        Some(value) => seq!["proxy-jump: "@ + value@],
        None => Seq::empty(),
    };
    let command = match host.proxy_command {
        Some(value) => seq!["proxy-command: "@ + value@],
        None => Seq::empty(),
    };
    start + identities + jump + command
}

pub fn host_lines(host: &EffectiveHost) -> (r: Vec<String>)
    ensures
        text::texts(r@) == host_text(*host),
{
    let mut out: Vec<String> = Vec::new();
    out.push(text::joined("alias: ", host.alias.as_str()));
    out.push(text::joined("hostname: ", host.hostname.as_str()));
    out.push(text::joined("user: ", host.user.as_str()));
    out.push(text::joined("port: ", text::decimal_text(host.port as u64).as_str()));
    let ghost start = seq![
        "alias: "@ + host.alias@,
        "hostname: "@ + host.hostname@,
        "user: "@ + host.user@,
        "port: "@ + text::decimal(host.port as nat),
    ];
    assert(text::texts(out@) =~= start);
    let ghost identities = text::texts(host.identity_files@).map_values(
        |name: Seq<char>| "identity-file: "@ + name,
    );
    let mut i: usize = 0;
    while i < host.identity_files.len()
        invariant
            i <= host.identity_files@.len(),
            identities == text::texts(host.identity_files@).map_values(
                |name: Seq<char>| "identity-file: "@ + name,
            ),
            text::texts(out@) =~= start + identities.take(i as int),
        decreases host.identity_files.len() - i,
    {
        let line = text::joined("identity-file: ", host.identity_files[i].as_str());
        proof {
            text::texts_push(out@, line);
            assert(identities[i as int] == line@);
            assert(identities.take(i as int + 1) =~= identities.take(i as int).push(line@));
        }
        out.push(line);
        i = i + 1;
    }
    assert(identities.take(identities.len() as int) =~= identities);
    match &host.proxy_jump {
        Some(value) => {
            let line = text::joined("proxy-jump: ", value.as_str());
            proof {
                text::texts_push(out@, line);
            }
            out.push(line);
        },
        None => {},
    }
    match &host.proxy_command {
        Some(value) => {
            let line = text::joined("proxy-command: ", value.as_str());
            proof {
                text::texts_push(out@, line);
            }
            out.push(line);
        },
        None => {},
    }
    assert(text::texts(out@) =~= host_text(*host));
    out
}

/// A connection test that did not succeed is an error.
pub fn test_result(outcome: ConnectionOutcome) -> (r: Result<&'static str, AppError>)
    ensures
        if outcome == ConnectionOutcome::Success {
            r matches Ok(diagnostic) && diagnostic@ == outcome.shown()
        } else {
            r matches Err(AppError::Connection(diagnostic)) && diagnostic@ == outcome.shown()
        },
{
    if outcome == ConnectionOutcome::Success {
        Ok(outcome.diagnostic())
    } else {
        Err(AppError::Connection(outcome.diagnostic().to_owned()))
    }
}

// ---------------------------------------------------------------------------
// Import
// ---------------------------------------------------------------------------
/// All numbers are different and positive.
pub open spec fn proper_numbers(select: Seq<usize>) -> bool {
    &&& forall|i: int| 0 <= i < select.len() ==> #[trigger] select[i] != 0
    &&& forall|i: int, j: int| 0 <= i < j < select.len() ==> select[i] != select[j]
}

pub open spec fn existing_numbers(select: Seq<usize>, count: nat) -> bool {
    forall|i: int| 0 <= i < select.len() ==> #[trigger] select[i] <= count
}

/// Accepts the candidate numbers of `--select`.
pub fn check_selection(select: &Vec<usize>, count: usize) -> (r: Result<(), AppError>)
    ensures
        match r {
            Ok(_) => proper_numbers(select@) && existing_numbers(select@, count as nat),
            Err(AppError::Configuration(message)) => if proper_numbers(select@) {
                !existing_numbers(select@, count as nat) && message@
                    == "selected candidate ID does not exist"@
            } else {
                message@ == "candidate IDs must be unique positive integers"@
            },
            Err(_) => false,
        },
{
    let mut exist = true;
    let mut i: usize = 0;
    while i < select.len()
        invariant
            i <= select@.len(),
            forall|k: int| 0 <= k < i ==> #[trigger] select@[k] != 0,
            forall|k: int, l: int| 0 <= k < l < i ==> select@[k] != select@[l],
            exist == existing_numbers(select@.take(i as int), count as nat),
        decreases select.len() - i,
    {
        let number: usize = select[i];
        let mut repeated = false;
        let mut j: usize = 0;
        while j < i
            invariant
                j <= i < select@.len(),
                number == select@[i as int],
                repeated == exists|k: int| 0 <= k < j && #[trigger] select@[k] == number,
            decreases i - j,
        {
            if select[j] == number {
                repeated = true;
            }
            j = j + 1;
        }
        if number == 0 || repeated {
            assert(!proper_numbers(select@));
            return Err(
                AppError::Configuration(
                    "candidate IDs must be unique positive integers".to_owned(),
                ),
            );
        }
        proof {
            let before = select@.take(i as int);
            let after = select@.take(i as int + 1);
            assert forall|k: int| 0 <= k < before.len() implies #[trigger] before[k] == after[k] by {}
            assert(after[i as int] == number);
            assert(existing_numbers(after, count as nat) == (existing_numbers(before, count as nat)
                && number <= count)) by {
                if existing_numbers(after, count as nat) {
                    assert forall|k: int| 0 <= k < before.len() implies #[trigger] before[k]
                        <= count by {
                        assert(after[k] <= count);
                    }
                }
            }
        }
        if number > count {
            exist = false;
        }
        i = i + 1;
    }
    assert(select@.take(select@.len() as int) =~= select@);
    if exist {
        Ok(())
    } else {
        Err(AppError::Configuration("selected candidate ID does not exist".to_owned()))
    }
}

/// Whether anything is to be saved: nothing unless candidates are named, and those must exist.
pub fn wants_saving(preview: &ImportPreview, select: &Vec<usize>) -> (r: Result<bool, AppError>)
    ensures
        match r {
            Ok(save) => save == (select@.len() > 0) && proper_numbers(select@) && existing_numbers(
                select@,
                preview.candidates@.len(),
            ),
            Err(AppError::Configuration(message)) => if proper_numbers(select@) {
                !existing_numbers(select@, preview.candidates@.len()) && message@
                    == "selected candidate ID does not exist"@
            } else {
                message@ == "candidate IDs must be unique positive integers"@
            },
            Err(_) => false,
        },
{
    if select.len() == 0 {
        return Ok(false);
    }
    match check_selection(select, preview.candidates.len()) {
        Ok(_) => Ok(true),
        Err(error) => Err(error),
    }
}

/// The rules that the daemon listed, for a comparison with candidates.
pub fn listed_rules(listed: &Vec<WireRule>) -> (r: Result<Vec<Rule>, AppError>)
    ensures
        match r {
            Ok(rules) => conversion::first_refusal(config::wires(listed@)) is None && rule::models(
                rules@,
            ) == config::wires(listed@),
            Err(AppError::Configuration(message)) => conversion::first_refusal(
                config::wires(listed@),
            ) matches Some(refusal) && message@ == validation::refusal_message(refusal),
            Err(_) => false,
        },
{
    match conversion::checked_each(listed) {
        Ok(rules) => Ok(rules),
        Err(error) => Err(AppError::Configuration(error.to_string())),
    }
}

/// The rules to save for the candidates that are named.
pub fn import_request(
    preview: &ImportPreview,
    select: &Vec<usize>,
    existing: &[Rule],
    settings: &Settings,
) -> (r: Result<Vec<WireRule>, AppError>)
    requires
        existing@.len() + preview.candidates@.len() < usize::MAX,
    ensures
        ({
            let candidates = import::candidate_models(preview.candidates@);
            let alias = preview.ssh_host_alias@;
            let drafts = import::drafts_of(
                candidates,
                select@,
                import::rule_names(rule::models(existing@)),
            );
            match r {
                Ok(rules) => import::all_importable(candidates, select@) && import::drafted_rules(
                    config::wires(rules@),
                    drafts,
                    alias,
                    settings.default_auto_start,
                    settings.default_reconnect,
                ),
                Err(AppError::Configuration(message)) => if import::all_importable(
                    candidates,
                    select@,
                ) {
                    import::complains(message@, drafts, alias)
                } else {
                    exists|number: usize|
                        select@.contains(number) && !import::importable(candidates, number)
                            && message@ == #[trigger] import::refused_candidate(number)
                },
                Err(_) => false,
            }
        }),
{
    match import::selected_rules(
        preview,
        select,
        existing,
        settings.default_auto_start,
        settings.default_reconnect,
    ) {
        Ok(rules) => Ok(conversion::stored_rules(rules.as_slice())),
        Err(message) => Err(AppError::Configuration(message)),
    }
}

pub open spec fn unsupported_word(reason: UnsupportedReason) -> Seq<char> {
    match reason {
        UnsupportedReason::UnixSocket => "unix_socket"@,
        UnsupportedReason::RemoteDynamic => "remote_dynamic"@,
    }
}

pub open spec fn invalid_word(reason: InvalidReason) -> Seq<char> {
    match reason {
        InvalidReason::Syntax => "syntax"@,
        InvalidReason::BindAddress => "bind_address"@,
        InvalidReason::DestinationHost => "destination_host"@,
        InvalidReason::Port => "port"@,
        InvalidReason::NonUtf8Output => "non_utf8_output"@,
    }
}

pub fn unsupported_reason_name(reason: UnsupportedReason) -> (r: &'static str)
    ensures
        r@ == unsupported_word(reason),
{
    match reason {
        UnsupportedReason::UnixSocket => "unix_socket",
        UnsupportedReason::RemoteDynamic => "remote_dynamic",
    }
}

pub fn invalid_reason_name(reason: InvalidReason) -> (r: &'static str)
    ensures
        r@ == invalid_word(reason),
{
    match reason {
        InvalidReason::Syntax => "syntax",
        InvalidReason::BindAddress => "bind_address",
        InvalidReason::DestinationHost => "destination_host",
        InvalidReason::Port => "port",
        InvalidReason::NonUtf8Output => "non_utf8_output",
    }
}

pub open spec fn status_word(classification: ImportClassification) -> Seq<char> {
    match classification {
        ImportClassification::Supported => "supported"@,
        ImportClassification::DuplicateDirective { .. } => "duplicate"@,
        ImportClassification::DuplicateRule { .. } => "duplicate"@,
        ImportClassification::Conflict { .. } => "conflict"@,
        ImportClassification::Unsupported { .. } => "unsupported"@,
        ImportClassification::Invalid { .. } => "invalid"@,
    }
}

/// The status of a candidate in one word.
pub fn status_name(classification: &ImportClassification) -> (r: &'static str)
    ensures
        r@ == status_word(*classification),
{
    match classification {
        ImportClassification::Supported => "supported",
        ImportClassification::DuplicateDirective { .. } => "duplicate",
        ImportClassification::DuplicateRule { .. } => "duplicate",
        ImportClassification::Conflict { .. } => "conflict",
        ImportClassification::Unsupported { .. } => "unsupported",
        ImportClassification::Invalid { .. } => "invalid",
    }
}

/// Why a candidate cannot be saved, as a JSON object with its keys in order.
pub open spec fn reason_json(classification: ImportClassification) -> Option<Seq<char>> {
    match classification {
        ImportClassification::Supported => None,
        ImportClassification::DuplicateDirective { first_index } => Some(
            "{\"candidate_id\":"@ + text::decimal((first_index + 1) as nat)
                + ",\"kind\":\"directive\"}"@,
        ),
        ImportClassification::DuplicateRule { rule_id, running } => Some(
            "{\"kind\":\"rule\",\"rule_id\":\""@ + identity::hyphenated(rule_id@)
                + "\",\"running\":"@ + truth(running) + "}"@,
        ),
        ImportClassification::Conflict { rule_id, running } => Some(
            match rule_id {
                Some(id) => "{\"rule_id\":\""@ + identity::hyphenated(id@) + "\",\"running\":"@
                    + truth(running) + "}"@,
                None => "{\"rule_id\":null,\"running\":"@ + truth(running) + "}"@,
            },
        ),
        ImportClassification::Unsupported { reason } => Some(
            "{\"kind\":\""@ + unsupported_word(reason) + "\"}"@,
        ),
        ImportClassification::Invalid { reason } => Some(
            "{\"kind\":\""@ + invalid_word(reason) + "\"}"@,
        ),
    }
}

pub fn reason_text(classification: &ImportClassification) -> (r: Option<String>)
    requires
        classification matches ImportClassification::DuplicateDirective { first_index }
            ==> first_index < usize::MAX,
    ensures
        hosts::optional_text(r) == reason_json(*classification),
{
    match classification {
        ImportClassification::Supported => None,
        ImportClassification::DuplicateDirective { first_index } => {
            let mut out = "{\"candidate_id\":".to_owned();
            text::push_decimal(&mut out, (*first_index + 1) as u64);
            out.append(",\"kind\":\"directive\"}");
            Some(out)
        },
        ImportClassification::DuplicateRule { rule_id, running } => {
            let mut out = "{\"kind\":\"rule\",\"rule_id\":\"".to_owned();
            out.append(rule_id.to_string().as_str());
            out.append("\",\"running\":");
            out.append(truth_word(*running));
            out.append("}");
            Some(out)
        },
        ImportClassification::Conflict { rule_id, running } => {
            let mut out = match rule_id {
                Some(id) => {
                    let mut start = "{\"rule_id\":\"".to_owned();
                    start.append(id.to_string().as_str());
                    start.append("\",\"running\":");
                    start
                },
                None => "{\"rule_id\":null,\"running\":".to_owned(),
            };
            out.append(truth_word(*running));
            out.append("}");
            Some(out)
        },
        ImportClassification::Unsupported { reason } => Some(
            text::joined3("{\"kind\":\"", unsupported_reason_name(*reason), "\"}"),
        ),
        ImportClassification::Invalid { reason } => Some(
            text::joined3("{\"kind\":\"", invalid_reason_name(*reason), "\"}"),
        ),
    }
}

pub open spec fn kind_word(kind: DirectiveKind) -> Seq<char> {
    match kind {
        DirectiveKind::Local => "local"@,
        DirectiveKind::Remote => "remote"@,
        DirectiveKind::Dynamic => "dynamic"@,
    }
}

/// The type that is shown: that of the forwarding, or else that of the directive.
pub open spec fn shown_kind(candidate: ImportCandidate) -> Seq<char> {
    match candidate.forwarding {
        Some(ImportForwarding::Local { .. }) => "local"@,
        Some(ImportForwarding::Remote { .. }) => "remote"@,
        Some(ImportForwarding::Dynamic { .. }) => "dynamic"@,
        None => kind_word(candidate.kind),
    }
}

pub fn kind_name(candidate: &ImportCandidate) -> (r: &'static str)
    ensures
        r@ == shown_kind(*candidate),
{
    match &candidate.forwarding {
        Some(ImportForwarding::Local { .. }) => "local",
        Some(ImportForwarding::Remote { .. }) => "remote",
        Some(ImportForwarding::Dynamic { .. }) => "dynamic",
        None => match candidate.kind {
            DirectiveKind::Local => "local",
            DirectiveKind::Remote => "remote",
            DirectiveKind::Dynamic => "dynamic",
        },
    }
}

/// Where a forwarding listens and where it leads.
pub open spec fn endpoints_text(forwarding: Option<ImportForwarding>) -> Seq<char> {
    match forwarding {
        Some(
            ImportForwarding::Local { bind_address, bind_port, destination_host, destination_port },
        ) => bind_address@ + ":"@ + text::decimal(bind_port as nat) + " -> "@ + destination_host@
            + ":"@ + text::decimal(destination_port as nat),
        Some(
            ImportForwarding::Remote {
                bind_address,
                bind_port,
                destination_host,
                destination_port,
            },
        ) => bind_address@ + ":"@ + text::decimal(bind_port as nat) + " -> "@ + destination_host@
            + ":"@ + text::decimal(destination_port as nat),
        Some(ImportForwarding::Dynamic { bind_address, bind_port }) => bind_address@ + ":"@
            + text::decimal(bind_port as nat),
        None => "-"@,
    }
}

fn route(bind: &str, bind_port: u16, host: &str, port: u16) -> (r: String)
    ensures
        r@ == bind@ + ":"@ + text::decimal(bind_port as nat) + " -> "@ + host@ + ":"@
            + text::decimal(port as nat),
{
    let mut out = text::joined(bind, ":");
    text::push_decimal(&mut out, bind_port as u64);
    out.append(" -> ");
    out.append(host);
    out.append(":");
    text::push_decimal(&mut out, port as u64);
    out
}

pub fn endpoints(forwarding: &Option<ImportForwarding>) -> (r: String)
    ensures
        r@ == endpoints_text(*forwarding),
{
    match forwarding {
        Some(
            ImportForwarding::Local { bind_address, bind_port, destination_host, destination_port },
        ) => route(bind_address.as_str(), *bind_port, destination_host.as_str(), *destination_port),
        Some(
            ImportForwarding::Remote {
                bind_address,
                bind_port,
                destination_host,
                destination_port,
            },
        ) => route(bind_address.as_str(), *bind_port, destination_host.as_str(), *destination_port),
        Some(ImportForwarding::Dynamic { bind_address, bind_port }) => {
            let mut out = text::joined(bind_address.as_str(), ":");
            text::push_decimal(&mut out, *bind_port as u64);
            out
        },
        None => "-".to_owned(),
    }
}

/// A candidate on a line: number, type, status, route and reason.
pub open spec fn candidate_line(number: nat, candidate: ImportCandidate) -> Seq<char> {
    text::decimal(number) + "\t"@ + shown_kind(candidate) + "\t"@ + status_word(
        candidate.classification,
    ) + "\t"@ + endpoints_text(candidate.forwarding) + (match reason_json(
        candidate.classification,
    ) {
        Some(reason) => " "@ + reason,
        None => Seq::empty(),
    })
}

/// What `forward import` prints.
pub open spec fn preview_text(preview: ImportPreview, saved: nat) -> Seq<Seq<char>> {
    seq!["host: "@ + preview.ssh_host_alias@] + Seq::new(
        preview.candidates@.len(),
        |i: int| candidate_line((i + 1) as nat, preview.candidates@[i]),
    ) + (if saved > 0 {
        seq!["saved: "@ + text::decimal(saved)]
    } else {
        Seq::empty()
    })
}

pub fn preview_lines(preview: &ImportPreview, saved: usize) -> (r: Vec<String>)
    requires
        import::coherent(import::candidate_models(preview.candidates@)),
    ensures
        text::texts(r@) == preview_text(*preview, saved as nat),
{
    let ghost first = "host: "@ + preview.ssh_host_alias@;
    let ghost lines = Seq::new(
        preview.candidates@.len(),
        |i: int| candidate_line((i + 1) as nat, preview.candidates@[i]),
    );
    let mut out: Vec<String> = Vec::new();
    out.push(text::joined("host: ", preview.ssh_host_alias.as_str()));
    assert(text::texts(out@) =~= seq![first] + lines.take(0));
    let mut i: usize = 0;
    while i < preview.candidates.len()
        invariant
            i <= preview.candidates@.len(),
            import::coherent(import::candidate_models(preview.candidates@)),
            lines == Seq::new(
                preview.candidates@.len(),
                |i: int| candidate_line((i + 1) as nat, preview.candidates@[i]),
            ),
            text::texts(out@) =~= seq![first] + lines.take(i as int),
        decreases preview.candidates.len() - i,
    {
        let candidate = &preview.candidates[i];
        assert(*candidate == preview.candidates@[i as int]);
        assert(import::candidate_models(preview.candidates@)[i as int] == candidate@);
        let mut line = text::decimal_text((i + 1) as u64);
        line.append("\t");
        line.append(kind_name(candidate));
        line.append("\t");
        line.append(status_name(&candidate.classification));
        line.append("\t");
        line.append(endpoints(&candidate.forwarding).as_str());
        match reason_text(&candidate.classification) {
            Some(reason) => {
                line.append(" ");
                line.append(reason.as_str());
            },
            None => {},
        }
        proof {
            assert(line@ =~= candidate_line((i + 1) as nat, preview.candidates@[i as int]));
            text::texts_push(out@, line);
            assert(lines.take(i as int + 1) =~= lines.take(i as int).push(line@));
        }
        out.push(line);
        i = i + 1;
    }
    assert(lines.take(lines.len() as int) =~= lines);
    if saved > 0 {
        let line = text::joined("saved: ", text::decimal_text(saved as u64).as_str());
        proof {
            text::texts_push(out@, line);
        }
        out.push(line);
    }
    assert(text::texts(out@) =~= preview_text(*preview, saved as nat));
    out
}

// ---------------------------------------------------------------------------
// Manual page
// ---------------------------------------------------------------------------
/// A command as the manual describes it.
#[derive(Debug)]
pub struct CommandDoc {
    pub name: String,
    pub about: Option<String>,
    pub hidden: bool,
    pub children: Vec<CommandDoc>,
}

/// The entry of a command, and behind it those of its own subcommands.
pub open spec fn entry_text(doc: CommandDoc, prefix: Seq<char>) -> Seq<char>
    decreases doc,
{
    if doc.hidden {
        Seq::empty()
    } else {
        let name = prefix + " "@ + doc.name@;
        ".TP\n\\fB"@ + name + "\\fR\n"@ + (match doc.about {
            Some(about) => about@ + "\n"@,
            None => Seq::empty(),
        }) + entries_text(doc.children@, name)
    }
}

pub open spec fn entries_text(docs: Seq<CommandDoc>, prefix: Seq<char>) -> Seq<char>
    decreases docs,
{
    if docs.len() == 0 {
        Seq::empty()
    } else {
        entries_text(docs.drop_last(), prefix) + entry_text(docs.last(), prefix)
    }
}

fn push_entries(out: &mut String, docs: &Vec<CommandDoc>, prefix: &str)
    ensures
        final(out)@ == old(out)@ + entries_text(docs@, prefix@),
    decreases docs@,
{
    let ghost start = out@;
    let mut i: usize = 0;
    assert(docs@.take(0) =~= Seq::<CommandDoc>::empty());
    while i < docs.len()
        invariant
            i <= docs@.len(),
            out@ =~= start + entries_text(docs@.take(i as int), prefix@),
        decreases docs.len() - i,
    {
        assert(docs@.take(i as int + 1).drop_last() =~= docs@.take(i as int));
        assert(docs@.take(i as int + 1).last() == docs@[i as int]);
        let doc = &docs[i];
        let ghost before = out@;
        if !doc.hidden {
            let name = text::joined3(prefix, " ", doc.name.as_str());
            out.append(".TP\n\\fB");
            out.append(name.as_str());
            out.append("\\fR\n");
            match &doc.about {
                Some(about) => {
                    out.append(about.as_str());
                    out.append("\n");
                },
                None => {},
            }
            push_entries(out, &doc.children, name.as_str());
        }
        assert(out@ =~= before + entry_text(docs@[i as int], prefix@));
        i = i + 1;
    }
    assert(docs@.take(docs@.len() as int) =~= docs@);
}

/// The section of the manual on the subcommands of `command`.
pub fn subcommand_section(command: &CommandDoc, prefix: &str) -> (r: String)
    ensures
        r@ == (if command.children@.len() == 0 {
            Seq::empty()
        } else {
            "\n.SH SUBCOMMANDS\n"@ + entries_text(command.children@, prefix@)
        }),
{
    let mut out = String::new();
    if command.children.len() > 0 {
        out.append("\n.SH SUBCOMMANDS\n");
        push_entries(&mut out, &command.children, prefix);
        assert(out@ =~= "\n.SH SUBCOMMANDS\n"@ + entries_text(command.children@, prefix@));
    }
    out
}

// ---------------------------------------------------------------------------
// What the arguments mean and what is printed
// ---------------------------------------------------------------------------
/// Whatever its type, the rule that is added listens where the arguments say, and a local or a
/// remote one leads to the destination that they name. Name, host and type are those that were
/// given.
pub proof fn added_rules_are_those_asked_for(args: AddArgs, settings: Settings, id: u128)
    ensures
        added(args, settings, id) is None <==> args.kind != ForwardKind::Dynamic
            && args.destination_port is None,
        added(args, settings, id) matches Some(m) ==> {
            &&& m.id == id
            &&& m.name == args.name@
            &&& m.ssh_host_alias == args.ssh_host_alias@
            &&& m.forwarding.bind_address() == args.bind_address@
            &&& m.forwarding.bind_port() == args.bind_port
            &&& m.forwarding is Local <==> args.kind == ForwardKind::Local
            &&& m.forwarding is Remote <==> args.kind == ForwardKind::Remote
            &&& m.forwarding is Dynamic <==> args.kind == ForwardKind::Dynamic
            &&& m.forwarding matches rule::ForwardingModel::Local {
                destination_host,
                destination_port,
                ..
            } ==> destination_host == args.destination_host@ && args.destination_port == Some(
                destination_port,
            )
            &&& m.forwarding matches rule::ForwardingModel::Remote {
                destination_host,
                destination_port,
                ..
            } ==> destination_host == args.destination_host@ && args.destination_port == Some(
                destination_port,
            )
        },
{
}

/// A policy that is given counts. One that is left open comes from the settings, each from its own.
pub proof fn open_policies_come_from_the_settings(args: AddArgs, settings: Settings, id: u128)
    requires
        added(args, settings, id) is Some,
    ensures
        ({
            let m = added(args, settings, id)->0;
            &&& args.auto_start matches Some(chosen) ==> m.auto_start == chosen
            &&& args.auto_start is None ==> m.auto_start == settings.default_auto_start
            &&& args.reconnect matches Some(chosen) ==> m.reconnect == chosen
            &&& args.reconnect is None ==> m.reconnect == settings.default_reconnect
        }),
{
}

/// What is given counts, and what is not stays.
pub proof fn given_values_count(value: Option<bool>, default: bool)
    ensures
        value matches Some(chosen) ==> or_default(value, default) == chosen,
        value is None ==> or_default(value, default) == default,
{
}

/// The words that are printed and read.
pub proof fn printed_words(theme: Theme, level: LogLevel, kind: ForwardKind, value: bool)
    ensures
        theme == Theme::System ==> theme_word(theme) == "system"@,
        theme == Theme::Dark ==> theme_word(theme) == "dark"@,
        theme == Theme::Light ==> theme_word(theme) == "light"@,
        level == LogLevel::Error ==> level_word(level) == "error"@,
        level == LogLevel::Warn ==> level_word(level) == "warn"@,
        level == LogLevel::Info ==> level_word(level) == "info"@,
        level == LogLevel::Debug ==> level_word(level) == "debug"@,
        level == LogLevel::Trace ==> level_word(level) == "trace"@,
        kind == ForwardKind::Local ==> kind.shown() == "local"@,
        kind == ForwardKind::Remote ==> kind.shown() == "remote"@,
        kind == ForwardKind::Dynamic ==> kind.shown() == "dynamic"@,
        value ==> truth(value) == "true"@,
        !value ==> truth(value) == "false"@,
{
}

/// A rule is listed with its ID and its name, and a tab between them.
pub proof fn rules_are_listed_with_id_and_name(m: rule::RuleModel)
    ensures
        rule_line(m).len() == identity::hyphenated(m.id).len() + 1 + m.name.len(),
        text::begins(rule_line(m), identity::hyphenated(m.id)),
        rule_line(m)[identity::hyphenated(m.id).len() as int] == '\t',
        rule_line(m).skip(identity::hyphenated(m.id).len() as int + 1) == m.name,
{
    reveal_strlit("\t");
    let id = identity::hyphenated(m.id);
    assert(rule_line(m).take(id.len() as int) =~= id);
    assert(rule_line(m).skip(id.len() as int + 1) =~= m.name);
}

/// The rules that run are all those that are reported in any other state than stopped, in order.
pub proof fn whatever_is_not_stopped_runs(forwards: Seq<ForwardStatus>)
    ensures
        not_stopped(forwards) == forwards.filter_map(
            |f: ForwardStatus|
                if f.state == RunState::Stopped {
                    None
                } else {
                    Some(f.rule_id)
                },
        ),
    decreases forwards.len(),
{
    if forwards.len() > 0 {
        whatever_is_not_stopped_runs(forwards.drop_last());
        let f = |f: ForwardStatus|
            if f.state == RunState::Stopped {
                None
            } else {
                Some(f.rule_id)
            };
        assert(not_stopped(forwards) =~= forwards.filter_map(f));
    }
}

/// A host is shown with its alias, its name, its user and its port, then with each of its identity
/// files, and then with what leads to it.
pub proof fn hosts_are_shown_line_by_line(host: EffectiveHost, i: int)
    ensures
        ({
            let lines = host_text(host);
            let files = host.identity_files@.len() as int;
            let jump = if host.proxy_jump is Some {
                1int
            } else {
                0int
            };
            &&& lines.len() == 4 + files + jump + (if host.proxy_command is Some {
                1int
            } else {
                0int
            })
            &&& lines[0] == "alias: "@ + host.alias@
            &&& lines[1] == "hostname: "@ + host.hostname@
            &&& lines[2] == "user: "@ + host.user@
            &&& lines[3] == "port: "@ + text::decimal(host.port as nat)
            &&& 0 <= i < files ==> lines[4 + i] == "identity-file: "@ + host.identity_files@[i]@
            &&& host.proxy_jump matches Some(value) ==> lines[4 + files] == "proxy-jump: "@ + value@
            &&& host.proxy_command matches Some(value) ==> lines[4 + files + jump]
                == "proxy-command: "@ + value@
        }),
{
    let files = text::texts(host.identity_files@);
    let shown = files.map_values(|name: Seq<char>| "identity-file: "@ + name);
    assert(shown.len() == host.identity_files@.len());
    if 0 <= i < files.len() {
        assert(shown[i] == "identity-file: "@ + files[i]);
        assert(host_text(host)[4 + i] == shown[i]);
    }
}

/// Numbers of candidates are positive, different and not beyond the last candidate.
pub proof fn selections_are_checked(select: Seq<usize>, count: nat, i: int, j: int)
    requires
        0 <= i < j < select.len(),
    ensures
        proper_numbers(select) ==> select[i] > 0 && select[j] > 0 && select[i] != select[j],
        existing_numbers(select, count) ==> select[i] <= count && select[j] <= count,
        select[i] == select[j] || select[i] == 0 || select[j] == 0 ==> !proper_numbers(select),
        select[i] > count || select[j] > count ==> !existing_numbers(select, count),
{
}

/// One number is proper if it is positive.
pub proof fn a_single_number_is_checked(number: usize, count: nat)
    ensures
        proper_numbers(seq![number]) <==> number > 0,
        existing_numbers(seq![number], count) <==> number <= count,
        proper_numbers(Seq::<usize>::empty()),
        existing_numbers(Seq::<usize>::empty(), count),
{
    let s = seq![number];
    assert(s[0] == number);
}

/// Reasons and verdicts have fixed words.
pub proof fn verdicts_have_fixed_words(
    classification: ImportClassification,
    unsupported: UnsupportedReason,
    invalid: InvalidReason,
    kind: DirectiveKind,
)
    ensures
        unsupported == UnsupportedReason::UnixSocket ==> unsupported_word(unsupported)
            == "unix_socket"@,
        unsupported == UnsupportedReason::RemoteDynamic ==> unsupported_word(unsupported)
            == "remote_dynamic"@,
        invalid == InvalidReason::Syntax ==> invalid_word(invalid) == "syntax"@,
        invalid == InvalidReason::BindAddress ==> invalid_word(invalid) == "bind_address"@,
        invalid == InvalidReason::DestinationHost ==> invalid_word(invalid) == "destination_host"@,
        invalid == InvalidReason::Port ==> invalid_word(invalid) == "port"@,
        invalid == InvalidReason::NonUtf8Output ==> invalid_word(invalid) == "non_utf8_output"@,
        kind == DirectiveKind::Local ==> kind_word(kind) == "local"@,
        kind == DirectiveKind::Remote ==> kind_word(kind) == "remote"@,
        kind == DirectiveKind::Dynamic ==> kind_word(kind) == "dynamic"@,
        classification is Supported ==> status_word(classification) == "supported"@,
        classification is DuplicateDirective || classification is DuplicateRule ==> status_word(
            classification,
        ) == "duplicate"@,
        classification is Conflict ==> status_word(classification) == "conflict"@,
        classification is Unsupported ==> status_word(classification) == "unsupported"@,
        classification is Invalid ==> status_word(classification) == "invalid"@,
{
}

/// A reason is given exactly where a candidate cannot be saved. It names the candidate, counted
/// from 1, or the rule that is in the way, or what is not supported or not valid.
pub proof fn reasons_name_what_is_in_the_way(classification: ImportClassification)
    ensures
        classification is Supported <==> reason_json(classification) is None,
        classification matches ImportClassification::DuplicateDirective { first_index }
            ==> reason_json(classification) == Some(
            "{\"candidate_id\":"@ + text::decimal((first_index + 1) as nat)
                + ",\"kind\":\"directive\"}"@,
        ),
        classification matches ImportClassification::DuplicateRule { rule_id, running }
            ==> reason_json(classification) == Some(
            "{\"kind\":\"rule\",\"rule_id\":\""@ + identity::hyphenated(rule_id@)
                + "\",\"running\":"@ + truth(running) + "}"@,
        ),
        classification matches ImportClassification::Conflict { rule_id: Some(id), running }
            ==> reason_json(classification) == Some(
            "{\"rule_id\":\""@ + identity::hyphenated(id@) + "\",\"running\":"@ + truth(running)
                + "}"@,
        ),
        classification matches ImportClassification::Conflict { rule_id: None, running }
            ==> reason_json(classification) == Some(
            "{\"rule_id\":null,\"running\":"@ + truth(running) + "}"@,
        ),
        classification matches ImportClassification::Unsupported { reason } ==> reason_json(
            classification,
        ) == Some("{\"kind\":\""@ + unsupported_word(reason) + "\"}"@),
        classification matches ImportClassification::Invalid { reason } ==> reason_json(
            classification,
        ) == Some("{\"kind\":\""@ + invalid_word(reason) + "\"}"@),
{
}

/// The listener comes before the arrow and the destination behind it, in both directions.
pub proof fn routes_lead_from_listener_to_destination(f: ImportForwarding)
    ensures
        ({
            let route = endpoints_text(Some(f));
            let listener = f@.bind_address() + ":"@ + text::decimal(f@.bind_port() as nat);
            &&& text::begins(route, listener)
            &&& import::destination(f@) is None ==> route == listener
            &&& import::destination(f@) matches Some((host, port)) ==> route.skip(
                listener.len() as int,
            ) == " -> "@ + host + ":"@ + text::decimal(port as nat)
        }),
        endpoints_text(None) == "-"@,
{
    let route = endpoints_text(Some(f));
    let listener = f@.bind_address() + ":"@ + text::decimal(f@.bind_port() as nat);
    assert(route.take(listener.len() as int) =~= listener);
    match import::destination(f@) {
        Some((host, port)) => {
            assert(route.skip(listener.len() as int) =~= " -> "@ + host + ":"@ + text::decimal(
                port as nat,
            ));
        },
        None => {
            assert(route =~= listener);
        },
    }
}

/// A candidate is shown with the type of its forwarding; without one, with that of the directive.
pub proof fn candidates_are_shown_by_type(candidate: ImportCandidate)
    ensures
        candidate.forwarding matches Some(f) ==> {
            &&& f is Local ==> shown_kind(candidate) == "local"@
            &&& f is Remote ==> shown_kind(candidate) == "remote"@
            &&& f is Dynamic ==> shown_kind(candidate) == "dynamic"@
        },
        candidate.forwarding is None ==> shown_kind(candidate) == kind_word(candidate.kind),
{
}

/// A preview starts with the host, lists every candidate on a line with its number from 1 on, and
/// ends with how many were saved, if any were.
pub proof fn previews_list_every_candidate(preview: ImportPreview, saved: nat, i: int)
    ensures
        ({
            let lines = preview_text(preview, saved);
            let count = preview.candidates@.len() as int;
            &&& lines.len() == 1 + count + (if saved > 0 {
                1int
            } else {
                0int
            })
            &&& lines[0] == "host: "@ + preview.ssh_host_alias@
            &&& 0 <= i < count ==> lines[i + 1] == candidate_line(
                (i + 1) as nat,
                preview.candidates@[i],
            )
            &&& saved > 0 ==> lines.last() == "saved: "@ + text::decimal(saved)
        }),
{
}

/// A candidate's line gives its number, its type, its status and its route, with tabs between them,
/// and then the reason if there is one.
pub proof fn candidate_lines_have_four_columns(number: nat, candidate: ImportCandidate)
    ensures
        ({
            let columns = text::decimal(number) + "\t"@ + shown_kind(candidate) + "\t"@
                + status_word(candidate.classification) + "\t"@ + endpoints_text(
                candidate.forwarding,
            );
            &&& candidate.classification is Supported ==> candidate_line(number, candidate)
                == columns
            &&& reason_json(candidate.classification) matches Some(reason) ==> candidate_line(
                number,
                candidate,
            ) == columns + (" "@ + reason)
        }),
{
    let columns = text::decimal(number) + "\t"@ + shown_kind(candidate) + "\t"@ + status_word(
        candidate.classification,
    ) + "\t"@ + endpoints_text(candidate.forwarding);
    assert(columns + Seq::<char>::empty() =~= columns);
}

/// A hidden command is not documented, and neither is anything below it. Every other command is,
/// under its full name.
pub proof fn hidden_commands_are_not_documented(doc: CommandDoc, prefix: Seq<char>)
    ensures
        doc.hidden ==> entry_text(doc, prefix) == Seq::<char>::empty(),
        !doc.hidden ==> text::begins(
            entry_text(doc, prefix),
            ".TP\n\\fB"@ + prefix + " "@ + doc.name@ + "\\fR\n"@,
        ),
        !doc.hidden && doc.children@.len() == 0 ==> entry_text(doc, prefix) == ".TP\n\\fB"@ + (prefix
            + " "@ + doc.name@) + "\\fR\n"@ + (match doc.about {
            Some(about) => about@ + "\n"@,
            None => Seq::empty(),
        }),
{
    if !doc.hidden {
        let start = ".TP\n\\fB"@ + prefix + " "@ + doc.name@ + "\\fR\n"@;
        let name = prefix + " "@ + doc.name@;
        assert(start =~= ".TP\n\\fB"@ + name + "\\fR\n"@);
        assert(entry_text(doc, prefix).take(start.len() as int) =~= start);
        if doc.children@.len() == 0 {
            assert(entries_text(doc.children@, name) =~= Seq::<char>::empty());
            assert(entry_text(doc, prefix) =~= ".TP\n\\fB"@ + name + "\\fR\n"@ + (match doc.about {
                Some(about) => about@ + "\n"@,
                None => Seq::empty(),
            }));
        }
    }
}

/// Commands are documented in their order.
pub proof fn commands_are_documented_in_order(
    docs: Seq<CommandDoc>,
    doc: CommandDoc,
    prefix: Seq<char>,
)
    ensures
        entries_text(docs.push(doc), prefix) == entries_text(docs, prefix) + entry_text(doc, prefix),
        entries_text(Seq::empty(), prefix) == Seq::<char>::empty(),
{
    assert(docs.push(doc).drop_last() =~= docs);
}

/// A request is given up after five seconds, except for a stop, which may take ten.
pub proof fn request_limits()
    ensures
        DEFAULT_TIMEOUT == 5_000,
        process::STOP_RESPONSE_TIMEOUT == 10_000,
{
}

} // verus!
