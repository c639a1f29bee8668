//! Terminal client: its state, what keys and the mouse do to it, and what it shows.
pub mod answers;
pub mod form;
pub mod keys;
pub mod mouse;
pub mod state;
pub mod view;

use crate::application::hosts;
use crate::cli::ForwardKind;
use crate::config::Rule as WireRule;
use crate::domain::rule;
use crate::text;
use vstd::prelude::*;
use vstd::string::*;

verus! {

/// A rule as the client shows it.
#[derive(Debug)]
pub struct RuleView {
    pub id: u128,
    pub name: String,
    pub host: String,
    pub bind_address: String,
    pub bind_port: u16,
    pub destination_port: Option<u16>,
    pub destination_host: Option<String>,
    pub state: String,
    pub kind: ForwardKind,
    pub auto_start: bool,
    pub reconnect: bool,
    pub uptime_seconds: u64,
    pub reconnect_count: u64,
    pub last_error: Option<String>,
}

/// What a `RuleView` says.
#[verifier::ext_equal]
pub struct ShownRule {
    pub id: u128,
    pub name: Seq<char>,
    pub host: Seq<char>,
    pub bind_address: Seq<char>,
    pub bind_port: u16,
    pub destination_port: Option<u16>,
    pub destination_host: Option<Seq<char>>,
    pub state: Seq<char>,
    pub kind: ForwardKind,
    pub auto_start: bool,
    pub reconnect: bool,
    pub uptime_seconds: u64,
    pub reconnect_count: u64,
    pub last_error: Option<Seq<char>>,
}

impl View for RuleView {
    type V = ShownRule;

    open spec fn view(&self) -> ShownRule {
        ShownRule {
            id: self.id,
            name: self.name@,
            host: self.host@,
            bind_address: self.bind_address@,
            bind_port: self.bind_port,
            destination_port: self.destination_port,
            destination_host: hosts::optional_text(self.destination_host),
            state: self.state@,
            kind: self.kind,
            auto_start: self.auto_start,
            reconnect: self.reconnect,
            uptime_seconds: self.uptime_seconds,
            reconnect_count: self.reconnect_count,
            last_error: hosts::optional_text(self.last_error),
        }
    }
}

/// How a rule of which nothing is known but what is stored is shown.
pub open spec fn shown(m: rule::RuleModel) -> ShownRule {
    let (kind, destination_host, destination_port) = match m.forwarding {
        rule::ForwardingModel::Local { destination_host, destination_port, .. } => (
            ForwardKind::Local,
            Some(destination_host),
            Some(destination_port),
        ),
        rule::ForwardingModel::Remote { destination_host, destination_port, .. } => (
            ForwardKind::Remote,
            Some(destination_host),
            Some(destination_port),
        ),
        rule::ForwardingModel::Dynamic { .. } => (ForwardKind::Dynamic, None, None),
    };
    ShownRule {
        id: m.id,
        name: m.name,
        host: m.ssh_host_alias,
        bind_address: m.forwarding.bind_address(),
        bind_port: m.forwarding.bind_port(),
        destination_port,
        destination_host,
        state: "stopped"@,
        kind,
        auto_start: m.auto_start,
        reconnect: m.reconnect,
        uptime_seconds: 0,
        reconnect_count: 0,
        last_error: None,
    }
}

/// The rule that is shown. A destination that is not there counts as empty.
pub open spec fn stored(v: ShownRule) -> rule::RuleModel {
    let destination_host = match v.destination_host {
        Some(name) => name,
        None => Seq::empty(),
    };
    let destination_port = match v.destination_port {
        Some(port) => port,
        None => 0,
    };
    rule::RuleModel {
        id: v.id,
        name: v.name,
        ssh_host_alias: v.host,
        forwarding: match v.kind {
            ForwardKind::Local => rule::ForwardingModel::Local {
                bind_address: v.bind_address,
                bind_port: v.bind_port,
                destination_host,
                destination_port,
            },
            ForwardKind::Remote => rule::ForwardingModel::Remote {
                bind_address: v.bind_address,
                bind_port: v.bind_port,
                destination_host,
                destination_port,
            },
            ForwardKind::Dynamic => rule::ForwardingModel::Dynamic {
                bind_address: v.bind_address,
                bind_port: v.bind_port,
            },
        },
        auto_start: v.auto_start,
        reconnect: v.reconnect,
    }
}

/// Showing a rule loses nothing of it.
pub proof fn shown_rules_read_back(m: rule::RuleModel)
    ensures
        stored(shown(m)) == m,
{
}

/// Where a browser reaches the listener. An IPv6 address stands in brackets.
pub open spec fn url_of(v: ShownRule, scheme: Seq<char>) -> Seq<char> {
    let address = if v.bind_address.contains(':') {
        "["@ + v.bind_address + "]"@
    } else {
        v.bind_address
    };
    scheme + "://"@ + address + ":"@ + text::decimal(v.bind_port as nat)
}

pub(crate) fn optional_copy(value: &Option<String>) -> (r: Option<String>)
    ensures
        hosts::optional_text(r) == hosts::optional_text(*value),
{
    match value {
        Some(value) => Some(value.clone()),
        None => None,
    }
}

impl RuleView {
    pub fn from_wire(rule: WireRule) -> (r: Self)
        ensures
            r@ == shown(rule@),
    {
        match rule {
            WireRule::Local {
                id,
                name,
                ssh_host_alias,
                bind_address,
                bind_port,
                destination_host,
                destination_port,
                auto_start,
                reconnect,
            } => RuleView {
                id,
                name,
                host: ssh_host_alias,
                bind_address,
                bind_port,
                destination_port: Some(destination_port),
                destination_host: Some(destination_host),
                state: "stopped".to_owned(),
                kind: ForwardKind::Local,
                auto_start,
                reconnect,
                uptime_seconds: 0,
                reconnect_count: 0,
                last_error: None,
            },
            WireRule::Remote {
                id,
                name,
                ssh_host_alias,
                bind_address,
                bind_port,
                destination_host,
                destination_port,
                auto_start,
                reconnect,
            } => RuleView {
                id,
                name,
                host: ssh_host_alias,
                bind_address,
                bind_port,
                destination_port: Some(destination_port),
                destination_host: Some(destination_host),
                state: "stopped".to_owned(),
                kind: ForwardKind::Remote,
                auto_start,
                reconnect,
                uptime_seconds: 0,
                reconnect_count: 0,
                last_error: None,
            },
            WireRule::Dynamic {
                id,
                name,
                ssh_host_alias,
                bind_address,
                bind_port,
                auto_start,
                reconnect,
            } => RuleView {
                id,
                name,
                host: ssh_host_alias,
                bind_address,
                bind_port,
                destination_port: None,
                destination_host: None,
                state: "stopped".to_owned(),
                kind: ForwardKind::Dynamic,
                auto_start,
                reconnect,
                uptime_seconds: 0,
                reconnect_count: 0,
                last_error: None,
            },
        }
    }

    pub fn url(&self, scheme: &str) -> (r: String)
        ensures
            r@ == url_of(self@, scheme@),
    {
        let chars = text::chars_of(self.bind_address.as_str());
        let mut out = text::joined(scheme, "://");
        if text::has_char(chars.as_slice(), ':') {
            out.append("[");
            out.append(self.bind_address.as_str());
            out.append("]");
        } else {
            out.append(self.bind_address.as_str());
        }
        out.append(":");
        text::push_decimal(&mut out, self.bind_port as u64);
        assert(out@ =~= url_of(self@, scheme@));
        out
    }

    pub fn to_wire(&self) -> (r: WireRule)
        ensures
            r@ == stored(self@),
    {
        let destination_host = match &self.destination_host {
            Some(name) => name.clone(),
            None => String::new(),
        };
        let destination_port: u16 = match self.destination_port {
            Some(port) => port,
            None => 0,
        };
        match self.kind {
            ForwardKind::Remote => WireRule::Remote {
                id: self.id,
                name: self.name.clone(),
                ssh_host_alias: self.host.clone(),
                bind_address: self.bind_address.clone(),
                bind_port: self.bind_port,
                destination_host,
                destination_port,
                auto_start: self.auto_start,
                reconnect: self.reconnect,
            },
            ForwardKind::Dynamic => WireRule::Dynamic {
                id: self.id,
                name: self.name.clone(),
                ssh_host_alias: self.host.clone(),
                bind_address: self.bind_address.clone(),
                bind_port: self.bind_port,
                auto_start: self.auto_start,
                reconnect: self.reconnect,
            },
            ForwardKind::Local => WireRule::Local {
                id: self.id,
                name: self.name.clone(),
                ssh_host_alias: self.host.clone(),
                bind_address: self.bind_address.clone(),
                bind_port: self.bind_port,
                destination_host,
                destination_port,
                auto_start: self.auto_start,
                reconnect: self.reconnect,
            },
        }
    }
}

impl Clone for RuleView {
    fn clone(&self) -> (r: Self)
        ensures
            r@ == self@,
    {
        RuleView {
            id: self.id,
            name: self.name.clone(),
            host: self.host.clone(),
            bind_address: self.bind_address.clone(),
            bind_port: self.bind_port,
            destination_port: self.destination_port,
            destination_host: optional_copy(&self.destination_host),
            state: self.state.clone(),
            kind: self.kind,
            auto_start: self.auto_start,
            reconnect: self.reconnect,
            uptime_seconds: self.uptime_seconds,
            reconnect_count: self.reconnect_count,
            last_error: optional_copy(&self.last_error),
        }
    }
}

/// A stored rule is shown with its own name, host, listener, destination and policy, as stopped and
/// without a history.
pub proof fn rules_are_shown_as_stored(m: rule::RuleModel)
    ensures
        ({
            let v = shown(m);
            &&& v.id == m.id && v.name == m.name && v.host == m.ssh_host_alias
            &&& v.bind_address == m.forwarding.bind_address()
            &&& v.bind_port == m.forwarding.bind_port()
            &&& v.auto_start == m.auto_start && v.reconnect == m.reconnect
            &&& v.state == "stopped"@
            &&& v.uptime_seconds == 0 && v.reconnect_count == 0 && v.last_error is None
            &&& v.kind == ForwardKind::Local <==> m.forwarding is Local
            &&& v.kind == ForwardKind::Remote <==> m.forwarding is Remote
            &&& v.kind == ForwardKind::Dynamic <==> m.forwarding is Dynamic
            &&& m.forwarding matches rule::ForwardingModel::Local {
                destination_host,
                destination_port,
                ..
            } ==> v.destination_host == Some(destination_host) && v.destination_port == Some(
                destination_port,
            )
            &&& m.forwarding matches rule::ForwardingModel::Remote {
                destination_host,
                destination_port,
                ..
            } ==> v.destination_host == Some(destination_host) && v.destination_port == Some(
                destination_port,
            )
            &&& m.forwarding is Dynamic ==> v.destination_host is None && v.destination_port is None
        }),
{
}

/// What is shown is stored again with the same listener and the same policy, and with the
/// destination that is shown.
pub proof fn shown_rules_are_stored_as_shown(v: ShownRule)
    ensures
        ({
            let m = stored(v);
            &&& m.id == v.id && m.name == v.name && m.ssh_host_alias == v.host
            &&& m.forwarding.bind_address() == v.bind_address
            &&& m.forwarding.bind_port() == v.bind_port
            &&& m.auto_start == v.auto_start && m.reconnect == v.reconnect
            &&& v.kind == ForwardKind::Local <==> m.forwarding is Local
            &&& v.kind == ForwardKind::Remote <==> m.forwarding is Remote
            &&& m.forwarding matches rule::ForwardingModel::Local {
                destination_host,
                destination_port,
                ..
            } ==> (v.destination_host matches Some(host) ==> destination_host == host) && (
            v.destination_port matches Some(port) ==> destination_port == port)
            &&& m.forwarding matches rule::ForwardingModel::Remote {
                destination_host,
                destination_port,
                ..
            } ==> (v.destination_host matches Some(host) ==> destination_host == host) && (
            v.destination_port matches Some(port) ==> destination_port == port)
        }),
{
}

/// A browser is sent to the listener of a rule: first the scheme, then the address, in brackets if
/// it holds a colon, then the port.
pub proof fn urls_lead_to_the_listener(v: ShownRule, scheme: Seq<char>)
    ensures
        !v.bind_address.contains(':') ==> url_of(v, scheme) == scheme + "://"@ + v.bind_address
            + ":"@ + text::decimal(v.bind_port as nat),
        v.bind_address.contains(':') ==> url_of(v, scheme) == scheme + "://"@ + ("["@
            + v.bind_address + "]"@) + ":"@ + text::decimal(v.bind_port as nat),
        text::begins(url_of(v, scheme), scheme),
{
    assert(url_of(v, scheme).take(scheme.len() as int) =~= scheme);
}

/// What a row of the client says is what it holds.
pub proof fn views_say_what_they_hold(v: RuleView)
    ensures
        v@.id == v.id,
        v@.name == v.name@,
        v@.host == v.host@,
        v@.bind_address == v.bind_address@,
        v@.bind_port == v.bind_port,
        v@.destination_port == v.destination_port,
        v.destination_host matches Some(host) ==> v@.destination_host == Some(host@),
        v.destination_host is None ==> v@.destination_host is None,
        v@.state == v.state@,
        v@.kind == v.kind,
        v@.auto_start == v.auto_start,
        v@.reconnect == v.reconnect,
        v@.uptime_seconds == v.uptime_seconds,
        v@.reconnect_count == v.reconnect_count,
        v.last_error matches Some(error) ==> v@.last_error == Some(error@),
        v.last_error is None ==> v@.last_error is None,
{
}

} // verus!
