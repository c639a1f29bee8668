//! Versioned desired configuration.
pub mod conversion;
pub mod store;

use crate::domain::rule::{ForwardingModel, RuleModel};
use vstd::prelude::*;

verus! {

/// The schema that holds rules alone.
pub const SCHEMA_VERSION: u32 = 1;

/// The schema that holds rules and settings.
pub const SETTINGS_SCHEMA_VERSION: u32 = 2;

#[derive(Debug, PartialEq, Eq)]
pub struct ConfigV1 {
    pub schema_version: u32,
    pub rules: Vec<Rule>,
}

#[derive(Debug, PartialEq, Eq)]
pub struct ConfigV2 {
    pub schema_version: u32,
    pub rules: Vec<Rule>,
    pub settings: Settings,
}

#[derive(Clone, Copy, Debug, PartialEq, Eq, Structural)]
pub enum Theme {
    System,
    Dark,
    Light,
}

#[derive(Clone, Copy, Debug, PartialEq, Eq, Structural)]
pub enum LogLevel {
    Error,
    Warn,
    Info,
    Debug,
    Trace,
}

#[derive(Clone, Copy, Debug, PartialEq, Eq, Structural)]
pub struct Settings {
    pub theme: Theme,
    pub log_level: LogLevel,
    pub default_reconnect: bool,
    pub default_auto_start: bool,
}

impl Default for Settings {
    fn default() -> (r: Self)
        ensures
            r == (Settings {
                theme: Theme::System,
                log_level: LogLevel::Info,
                default_reconnect: false,
                default_auto_start: false,
            }),
    {
        Settings {
            theme: Theme::System,
            log_level: LogLevel::Info,
            default_reconnect: false,
            default_auto_start: false,
        }
    }
}

/// A rule as it is stored and sent. Nothing in it has been checked.
#[derive(Debug, PartialEq, Eq)]
pub enum Rule {
    Local {
        id: u128,
        name: String,
        ssh_host_alias: String,
        bind_address: String,
        bind_port: u16,
        destination_host: String,
        destination_port: u16,
        auto_start: bool,
        reconnect: bool,
    },
    Remote {
        id: u128,
        name: String,
        ssh_host_alias: String,
        bind_address: String,
        bind_port: u16,
        destination_host: String,
        destination_port: u16,
        auto_start: bool,
        reconnect: bool,
    },
    Dynamic {
        id: u128,
        name: String,
        ssh_host_alias: String,
        bind_address: String,
        bind_port: u16,
        auto_start: bool,
        reconnect: bool,
    },
}

impl View for Rule {
    type V = RuleModel;

    open spec fn view(&self) -> RuleModel {
        match self {
            Rule::Local {
                id,
                name,
                ssh_host_alias,
                bind_address,
                bind_port,
                destination_host,
                destination_port,
                auto_start,
                reconnect,
            } => RuleModel {
                id: *id,
                name: name@,
                ssh_host_alias: ssh_host_alias@,
                forwarding: ForwardingModel::Local {
                    bind_address: bind_address@,
                    bind_port: *bind_port,
                    destination_host: destination_host@,
                    destination_port: *destination_port,
                },
                auto_start: *auto_start,
                reconnect: *reconnect,
            },
            Rule::Remote {
                id,
                name,
                ssh_host_alias,
                bind_address,
                bind_port,
                destination_host,
                destination_port,
                auto_start,
                reconnect,
            } => RuleModel {
                id: *id,
                name: name@,
                ssh_host_alias: ssh_host_alias@,
                forwarding: ForwardingModel::Remote {
                    bind_address: bind_address@,
                    bind_port: *bind_port,
                    destination_host: destination_host@,
                    destination_port: *destination_port,
                },
                auto_start: *auto_start,
                reconnect: *reconnect,
            },
            Rule::Dynamic {
                id,
                name,
                ssh_host_alias,
                bind_address,
                bind_port,
                auto_start,
                reconnect,
            } => RuleModel {
                id: *id,
                name: name@,
                ssh_host_alias: ssh_host_alias@,
                forwarding: ForwardingModel::Dynamic {
                    bind_address: bind_address@,
                    bind_port: *bind_port,
                },
                auto_start: *auto_start,
                reconnect: *reconnect,
            },
        }
    }
}

impl Clone for Rule {
    fn clone(&self) -> (r: Self)
        ensures
            r == *self,
    {
        match self {
            Rule::Local {
                id,
                name,
                ssh_host_alias,
                bind_address,
                bind_port,
                destination_host,
                destination_port,
                auto_start,
                reconnect,
            } => Rule::Local {
                id: *id,
                name: name.clone(),
                ssh_host_alias: ssh_host_alias.clone(),
                bind_address: bind_address.clone(),
                bind_port: *bind_port,
                destination_host: destination_host.clone(),
                destination_port: *destination_port,
                auto_start: *auto_start,
                reconnect: *reconnect,
            },
            Rule::Remote {
                id,
                name,
                ssh_host_alias,
                bind_address,
                bind_port,
                destination_host,
                destination_port,
                auto_start,
                reconnect,
            } => Rule::Remote {
                id: *id,
                name: name.clone(),
                ssh_host_alias: ssh_host_alias.clone(),
                bind_address: bind_address.clone(),
                bind_port: *bind_port,
                destination_host: destination_host.clone(),
                destination_port: *destination_port,
                auto_start: *auto_start,
                reconnect: *reconnect,
            },
            Rule::Dynamic {
                id,
                name,
                ssh_host_alias,
                bind_address,
                bind_port,
                auto_start,
                reconnect,
            } => Rule::Dynamic {
                id: *id,
                name: name.clone(),
                ssh_host_alias: ssh_host_alias.clone(),
                bind_address: bind_address.clone(),
                bind_port: *bind_port,
                auto_start: *auto_start,
                reconnect: *reconnect,
            },
        }
    }
}

/// What a list of stored rules says.
pub open spec fn wires(rules: Seq<Rule>) -> Seq<RuleModel> {
    rules.map_values(|r: Rule| r@)
}

/// A stored rule says what it holds, whatever its type.
pub proof fn stored_rules_say_what_they_hold(value: Rule)
    ensures
        match value {
            Rule::Local {
                id,
                name,
                ssh_host_alias,
                bind_address,
                bind_port,
                destination_host,
                destination_port,
                auto_start,
                reconnect,
            } => {
                &&& value@.id == id && value@.name == name@ && value@.ssh_host_alias
                    == ssh_host_alias@ && value@.auto_start == auto_start && value@.reconnect
                    == reconnect
                &&& value@.forwarding.bind_address() == bind_address@
                    && value@.forwarding.bind_port() == bind_port
                &&& value@.forwarding matches ForwardingModel::Local {
                    destination_host: host,
                    destination_port: port,
                    ..
                } && host == destination_host@ && port == destination_port
            },
            Rule::Remote {
                id,
                name,
                ssh_host_alias,
                bind_address,
                bind_port,
                destination_host,
                destination_port,
                auto_start,
                reconnect,
            } => {
                &&& value@.id == id && value@.name == name@ && value@.ssh_host_alias
                    == ssh_host_alias@ && value@.auto_start == auto_start && value@.reconnect
                    == reconnect
                &&& value@.forwarding.bind_address() == bind_address@
                    && value@.forwarding.bind_port() == bind_port
                &&& value@.forwarding matches ForwardingModel::Remote {
                    destination_host: host,
                    destination_port: port,
                    ..
                } && host == destination_host@ && port == destination_port
            },
            Rule::Dynamic {
                id,
                name,
                ssh_host_alias,
                bind_address,
                bind_port,
                auto_start,
                reconnect,
            } => {
                &&& value@.id == id && value@.name == name@ && value@.ssh_host_alias
                    == ssh_host_alias@ && value@.auto_start == auto_start && value@.reconnect
                    == reconnect
                &&& value@.forwarding is Dynamic && value@.forwarding.bind_address()
                    == bind_address@ && value@.forwarding.bind_port() == bind_port
            },
        },
{
}

/// Rules alone have the first schema, and rules with settings the second.
pub proof fn schema_versions()
    ensures
        SCHEMA_VERSION == 1,
        SETTINGS_SCHEMA_VERSION == 2,
{
}

} // verus!
