//! Forwarding rules. Every value of these types is valid.
use super::host::HostAlias;
use super::validation::{Field, ValidationError};
use crate::address;
use crate::domain::host;
use crate::domain::validation;
use crate::identity;
use crate::text;
use vstd::prelude::*;
use vstd::string::*;

verus! {

#[derive(Clone, Copy, Debug, PartialEq, Eq, Structural, Hash)]
pub struct RuleId(u128);

impl View for RuleId {
    type V = u128;

    closed spec fn view(&self) -> u128 {
        self.0
    }
}

impl RuleId {
    /// A random identifier.
    pub fn new() -> (r: Self)
        ensures
            identity::version_four(r@),
    {
        RuleId(identity::random_uuid())
    }

    pub fn from_uuid(value: u128) -> (r: Self)
        ensures
            r@ == value,
    {
        RuleId(value)
    }

    pub fn as_uuid(self) -> (r: u128)
        ensures
            r == self@,
    {
        self.0
    }

    pub fn to_string(&self) -> (r: String)
        ensures
            r@ == identity::hyphenated(self@),
            identity::parsed_uuid(r@) == Some(self@),
    {
        identity::uuid_text(self.0)
    }
}

impl Default for RuleId {
    fn default() -> (r: Self)
        ensures
            identity::version_four(r@),
    {
        RuleId::new()
    }
}

#[derive(Debug, PartialEq, Eq, Hash)]
pub struct RuleName(String);

pub open spec fn name_refusal(s: Seq<char>) -> Option<validation::Refusal> {
    validation::text_refusal(s, Field::RuleName, 128, true)
}

impl View for RuleName {
    type V = Seq<char>;

    closed spec fn view(&self) -> Seq<char> {
        self.0@
    }
}

impl Clone for RuleName {
    fn clone(&self) -> (r: Self)
        ensures
            r == *self,
    {
        proof {
            use_type_invariant(self);
        }
        RuleName(self.0.clone())
    }
}

impl RuleName {
    #[verifier::type_invariant]
    spec fn well_formed(self) -> bool {
        name_refusal(self.0@) is None
    }

    pub fn new(value: &str) -> (r: Result<Self, ValidationError>)
        ensures
            match r {
                Ok(name) => name_refusal(value@) is None && name@ == value@,
                Err(error) => name_refusal(value@) == Some(error@),
            },
    {
        let chars = text::chars_of(value);
        validation::validate_text(&chars, Field::RuleName, 128, true)?;
        Ok(RuleName(value.to_owned()))
    }

    pub fn as_str(&self) -> (r: &str)
        ensures
            r@ == self@,
            name_refusal(self@) is None,
    {
        proof {
            use_type_invariant(self);
        }
        self.0.as_str()
    }

    pub fn to_string(&self) -> (r: String)
        ensures
            r@ == self@,
    {
        self.0.clone()
    }
}

#[derive(Clone, Copy, Debug, PartialEq, Eq, Structural, Hash)]
pub struct Port(u16);

pub open spec fn port_refusal(value: u16, field: Field) -> Option<validation::Refusal> {
    if value == 0 {
        Some(validation::Refusal::PortZero { field })
    } else {
        None
    }
}

impl View for Port {
    type V = u16;

    closed spec fn view(&self) -> u16 {
        self.0
    }
}

impl Port {
    #[verifier::type_invariant]
    spec fn well_formed(self) -> bool {
        self.0 != 0
    }

    pub fn new(value: u16, field: Field) -> (r: Result<Self, ValidationError>)
        ensures
            match r {
                Ok(port) => value != 0 && port@ == value,
                Err(error) => port_refusal(value, field) == Some(error@),
            },
    {
        if value == 0 {
            Err(ValidationError::PortZero { field })
        } else {
            Ok(Port(value))
        }
    }

    pub fn get(self) -> (r: u16)
        ensures
            r == self@,
            r != 0,
    {
        proof {
            use_type_invariant(&self);
        }
        self.0
    }

    pub fn to_string(&self) -> (r: String)
        ensures
            r@ == text::decimal(self@ as nat),
    {
        text::decimal_text(self.0 as u64)
    }
}

#[derive(Debug, PartialEq, Eq, Hash)]
pub struct BindAddress(String);

/// `localhost`, `*` and every IP address can be bound to.
pub open spec fn bindable(s: Seq<char>) -> bool {
    s == "localhost"@ || s == "*"@ || address::address(s) is Some
}

pub open spec fn bind_refusal(s: Seq<char>) -> Option<validation::Refusal> {
    if bindable(s) {
        None
    } else {
        Some(validation::Refusal::InvalidBindAddress { value: s })
    }
}

impl View for BindAddress {
    type V = Seq<char>;

    closed spec fn view(&self) -> Seq<char> {
        self.0@
    }
}

impl Clone for BindAddress {
    fn clone(&self) -> (r: Self)
        ensures
            r == *self,
    {
        proof {
            use_type_invariant(self);
        }
        BindAddress(self.0.clone())
    }
}




proof fn split_grows(s: Seq<char>, c: char, separator: char)
    ensures
        text::split_pieces(s.push(c), separator) == text::split_step(
            text::split_pieces(s, separator),
            c,
            separator,
        ),
{
    assert(s.push(c).drop_last() =~= s);
}

pub proof fn default_address_is_bindable()
    ensures
        bindable("127.0.0.1"@),
{
    reveal_strlit("127.0.0.1");
    let dot = '.';
    let nothing = Seq::<char>::empty();
    let first = nothing.push('1').push('2').push('7');
    let second = first.push('.').push('0');
    let third = second.push('.').push('0');
    let fourth = third.push('.').push('1');
    assert("127.0.0.1"@ =~= fourth);
    split_grows(nothing, '1', dot);
    split_grows(nothing.push('1'), '2', dot);
    split_grows(nothing.push('1').push('2'), '7', dot);
    split_grows(first, '.', dot);
    split_grows(first.push('.'), '0', dot);
    split_grows(second, '.', dot);
    split_grows(second.push('.'), '0', dot);
    split_grows(third, '.', dot);
    split_grows(third.push('.'), '1', dot);
    let zero = nothing.push('0');
    let one = nothing.push('1');
    let parts = text::split(fourth, dot);
    assert(parts =~= seq![first, zero, zero, one]);
    assert(first.drop_last() =~= nothing.push('1').push('2'));
    assert(first.drop_last().drop_last() =~= one);
    assert(one.drop_last() =~= nothing);
    assert(zero.drop_last() =~= nothing);
    reveal_with_fuel(text::number, 4);
    assert(text::number(first) == 127);
    assert(text::number(zero) == 0);
    assert(text::number(one) == 1);
    assert(address::v4(fourth) is Some);
}

impl BindAddress {
    #[verifier::type_invariant]
    spec fn well_formed(self) -> bool {
        bindable(self.0@)
    }

    pub fn new(value: &str) -> (r: Result<Self, ValidationError>)
        ensures
            match r {
                Ok(found) => bind_refusal(value@) is None && found@ == value@,
                Err(error) => bind_refusal(value@) == Some(error@),
            },
    {
        let chars = text::chars_of(value);
        if text::same(value, "localhost") || text::same(value, "*") || address::parse_address(
            chars.as_slice(),
        ).is_some() {
            return Ok(BindAddress(value.to_owned()));
        }
        Err(ValidationError::InvalidBindAddress { value: value.to_owned() })
    }

    pub fn loopback() -> (r: Self)
        ensures
            r@ == "127.0.0.1"@,
    {
        proof {
            default_address_is_bindable();
        }
        BindAddress("127.0.0.1".to_owned())
    }

    pub fn as_str(&self) -> (r: &str)
        ensures
            r@ == self@,
            bindable(self@),
    {
        proof {
            use_type_invariant(self);
        }
        self.0.as_str()
    }

    pub fn to_string(&self) -> (r: String)
        ensures
            r@ == self@,
    {
        self.0.clone()
    }
}

#[derive(Debug, PartialEq, Eq, Hash)]
pub struct DestinationHost(String);

/// A host name or an IP address. A colon is accepted in an IPv6 address only.
pub open spec fn destination_refusal(s: Seq<char>) -> Option<validation::Refusal> {
    match validation::text_refusal(s, Field::DestinationHost, 253, false) {
        Some(refusal) => Some(refusal),
        None => if s.contains(':') && address::address(s) is None {
            Some(validation::Refusal::InvalidDestinationHost { value: s })
        } else {
            None
        },
    }
}

impl View for DestinationHost {
    type V = Seq<char>;

    closed spec fn view(&self) -> Seq<char> {
        self.0@
    }
}

impl Clone for DestinationHost {
    fn clone(&self) -> (r: Self)
        ensures
            r == *self,
    {
        proof {
            use_type_invariant(self);
        }
        DestinationHost(self.0.clone())
    }
}

impl DestinationHost {
    #[verifier::type_invariant]
    spec fn well_formed(self) -> bool {
        destination_refusal(self.0@) is None
    }

    pub fn new(value: &str) -> (r: Result<Self, ValidationError>)
        ensures
            match r {
                Ok(host) => destination_refusal(value@) is None && host@ == value@,
                Err(error) => destination_refusal(value@) == Some(error@),
            },
    {
        let chars = text::chars_of(value);
        validation::validate_text(&chars, Field::DestinationHost, 253, false)?;
        if text::has_char(chars.as_slice(), ':') && address::parse_address(
            chars.as_slice(),
        ).is_none() {
            return Err(ValidationError::InvalidDestinationHost { value: value.to_owned() });
        }
        Ok(DestinationHost(value.to_owned()))
    }

    pub fn as_str(&self) -> (r: &str)
        ensures
            r@ == self@,
            destination_refusal(self@) is None,
    {
        proof {
            use_type_invariant(self);
        }
        self.0.as_str()
    }

    pub fn to_string(&self) -> (r: String)
        ensures
            r@ == self@,
    {
        self.0.clone()
    }
}

// ---------------------------------------------------------------------------
// Rules
// ---------------------------------------------------------------------------
#[derive(Debug, PartialEq, Eq)]
pub struct Rule {
    id: RuleId,
    name: RuleName,
    ssh_host_alias: HostAlias,
    forwarding: Forwarding,
    auto_start: bool,
    reconnect: bool,
}

#[derive(Debug, PartialEq, Eq)]
pub enum Forwarding {
    Local(LocalForwarding),
    Remote(RemoteForwarding),
    Dynamic(DynamicForwarding),
}

#[derive(Debug, PartialEq, Eq)]
pub struct LocalForwarding {
    bind_address: BindAddress,
    bind_port: Port,
    destination_host: DestinationHost,
    destination_port: Port,
}

#[derive(Debug, PartialEq, Eq)]
pub struct RemoteForwarding {
    bind_address: BindAddress,
    bind_port: Port,
    destination_host: DestinationHost,
    destination_port: Port,
}

#[derive(Debug, PartialEq, Eq)]
pub struct DynamicForwarding {
    bind_address: BindAddress,
    bind_port: Port,
}

/// What a forwarding connects.
#[verifier::ext_equal]
pub enum ForwardingModel {
    Local {
        bind_address: Seq<char>,
        bind_port: u16,
        destination_host: Seq<char>,
        destination_port: u16,
    },
    Remote {
        bind_address: Seq<char>,
        bind_port: u16,
        destination_host: Seq<char>,
        destination_port: u16,
    },
    Dynamic { bind_address: Seq<char>, bind_port: u16 },
}

/// What a rule says.
#[verifier::ext_equal]
pub struct RuleModel {
    pub id: u128,
    pub name: Seq<char>,
    pub ssh_host_alias: Seq<char>,
    pub forwarding: ForwardingModel,
    pub auto_start: bool,
    pub reconnect: bool,
}

impl ForwardingModel {
    pub open spec fn bind_address(self) -> Seq<char> {
        match self {
            ForwardingModel::Local { bind_address, .. } => bind_address,
            ForwardingModel::Remote { bind_address, .. } => bind_address,
            ForwardingModel::Dynamic { bind_address, .. } => bind_address,
        }
    }

    pub open spec fn bind_port(self) -> u16 {
        match self {
            ForwardingModel::Local { bind_port, .. } => bind_port,
            ForwardingModel::Remote { bind_port, .. } => bind_port,
            ForwardingModel::Dynamic { bind_port, .. } => bind_port,
        }
    }

    pub open spec fn bound_to(self, address: Seq<char>) -> Self {
        match self {
            ForwardingModel::Local {
                bind_port,
                destination_host,
                destination_port,
                ..
            } => ForwardingModel::Local {
                bind_address: address,
                bind_port,
                destination_host,
                destination_port,
            },
            ForwardingModel::Remote {
                bind_port,
                destination_host,
                destination_port,
                ..
            } => ForwardingModel::Remote {
                bind_address: address,
                bind_port,
                destination_host,
                destination_port,
            },
            ForwardingModel::Dynamic { bind_port, .. } => ForwardingModel::Dynamic {
                bind_address: address,
                bind_port,
            },
        }
    }
}

impl RuleModel {
    /// The local socket that the rule listens on. A remote forwarding has none.
    pub open spec fn listener(self) -> Option<(Seq<char>, u16)> {
        match self.forwarding {
            ForwardingModel::Remote { .. } => None,
            _ => Some((self.forwarding.bind_address(), self.forwarding.bind_port())),
        }
    }
}

/// The first refusal, if there is any.
pub open spec fn first(
    a: Option<validation::Refusal>,
    b: Option<validation::Refusal>,
) -> Option<validation::Refusal> {
    match a {
        Some(_) => a,
        None => b,
    }
}

/// Why no rule can have this name, host and forwarding; the bind address is not looked at.
pub open spec fn parts_refusal(
    name: Seq<char>,
    alias: Seq<char>,
    forwarding: ForwardingModel,
) -> Option<validation::Refusal> {
    let named = first(name_refusal(name), host::alias_refusal(alias));
    let bound = first(named, port_refusal(forwarding.bind_port(), Field::BindPort));
    match forwarding {
        ForwardingModel::Local { destination_host, destination_port, .. } => first(
            first(bound, destination_refusal(destination_host)),
            port_refusal(destination_port, Field::DestinationPort),
        ),
        ForwardingModel::Remote { destination_host, destination_port, .. } => first(
            first(bound, destination_refusal(destination_host)),
            port_refusal(destination_port, Field::DestinationPort),
        ),
        ForwardingModel::Dynamic { .. } => bound,
    }
}

/// Why `m` is no valid rule.
pub open spec fn rule_refusal(m: RuleModel) -> Option<validation::Refusal> {
    first(
        parts_refusal(m.name, m.ssh_host_alias, m.forwarding),
        bind_refusal(m.forwarding.bind_address()),
    )
}

pub open spec fn valid_rule(m: RuleModel) -> bool {
    rule_refusal(m) is None
}

/// What a list of rules says.
pub open spec fn models(rules: Seq<Rule>) -> Seq<RuleModel> {
    rules.map_values(|r: Rule| r@)
}

impl View for Forwarding {
    type V = ForwardingModel;

    closed spec fn view(&self) -> ForwardingModel {
        match self {
            Forwarding::Local(v) => v@,
            Forwarding::Remote(v) => v@,
            Forwarding::Dynamic(v) => v@,
        }
    }
}

impl View for LocalForwarding {
    type V = ForwardingModel;

    closed spec fn view(&self) -> ForwardingModel {
        ForwardingModel::Local {
            bind_address: self.bind_address@,
            bind_port: self.bind_port@,
            destination_host: self.destination_host@,
            destination_port: self.destination_port@,
        }
    }
}

impl View for RemoteForwarding {
    type V = ForwardingModel;

    closed spec fn view(&self) -> ForwardingModel {
        ForwardingModel::Remote {
            bind_address: self.bind_address@,
            bind_port: self.bind_port@,
            destination_host: self.destination_host@,
            destination_port: self.destination_port@,
        }
    }
}

impl View for DynamicForwarding {
    type V = ForwardingModel;

    closed spec fn view(&self) -> ForwardingModel {
        ForwardingModel::Dynamic { bind_address: self.bind_address@, bind_port: self.bind_port@ }
    }
}

impl View for Rule {
    type V = RuleModel;

    closed spec fn view(&self) -> RuleModel {
        RuleModel {
            id: self.id@,
            name: self.name@,
            ssh_host_alias: self.ssh_host_alias@,
            forwarding: self.forwarding@,
            auto_start: self.auto_start,
            reconnect: self.reconnect,
        }
    }
}

impl Clone for LocalForwarding {
    fn clone(&self) -> (r: Self)
        ensures
            r == *self,
    {
        LocalForwarding {
            bind_address: self.bind_address.clone(),
            bind_port: self.bind_port,
            destination_host: self.destination_host.clone(),
            destination_port: self.destination_port,
        }
    }
}

impl Clone for RemoteForwarding {
    fn clone(&self) -> (r: Self)
        ensures
            r == *self,
    {
        RemoteForwarding {
            bind_address: self.bind_address.clone(),
            bind_port: self.bind_port,
            destination_host: self.destination_host.clone(),
            destination_port: self.destination_port,
        }
    }
}

impl Clone for DynamicForwarding {
    fn clone(&self) -> (r: Self)
        ensures
            r == *self,
    {
        DynamicForwarding { bind_address: self.bind_address.clone(), bind_port: self.bind_port }
    }
}

impl Clone for Forwarding {
    fn clone(&self) -> (r: Self)
        ensures
            r == *self,
    {
        match self {
            Forwarding::Local(v) => Forwarding::Local(v.clone()),
            Forwarding::Remote(v) => Forwarding::Remote(v.clone()),
            Forwarding::Dynamic(v) => Forwarding::Dynamic(v.clone()),
        }
    }
}

impl Clone for Rule {
    fn clone(&self) -> (r: Self)
        ensures
            r == *self,
    {
        Rule {
            id: self.id,
            name: self.name.clone(),
            ssh_host_alias: self.ssh_host_alias.clone(),
            forwarding: self.forwarding.clone(),
            auto_start: self.auto_start,
            reconnect: self.reconnect,
        }
    }
}

impl Rule {
    /// A local forwarding on the loopback address that is neither started on its own nor
    /// reconnected.
    pub fn local(
        id: RuleId,
        name: &str,
        ssh_host_alias: &str,
        bind_port: u16,
        destination_host: &str,
        destination_port: u16,
    ) -> (r: Result<Self, ValidationError>)
        ensures
            ({
                let forwarding = ForwardingModel::Local {
                    bind_address: "127.0.0.1"@,
                    bind_port,
                    destination_host: destination_host@,
                    destination_port,
                };
                let refusal = parts_refusal(name@, ssh_host_alias@, forwarding);
                match r {
                    Ok(rule) => refusal is None && rule@ == (RuleModel {
                        id: id@,
                        name: name@,
                        ssh_host_alias: ssh_host_alias@,
                        forwarding,
                        auto_start: false,
                        reconnect: false,
                    }),
                    Err(error) => refusal == Some(error@),
                }
            }),
    {
        let name = RuleName::new(name)?;
        let ssh_host_alias = HostAlias::new(ssh_host_alias)?;
        let bind_port = Port::new(bind_port, Field::BindPort)?;
        let destination_host = DestinationHost::new(destination_host)?;
        let destination_port = Port::new(destination_port, Field::DestinationPort)?;
        Ok(
            Rule {
                id,
                name,
                ssh_host_alias,
                forwarding: Forwarding::Local(
                    LocalForwarding {
                        bind_address: BindAddress::loopback(),
                        bind_port,
                        destination_host,
                        destination_port,
                    },
                ),
                auto_start: false,
                reconnect: false,
            },
        )
    }

    /// As `local`, with the listener on the remote host.
    pub fn remote(
        id: RuleId,
        name: &str,
        ssh_host_alias: &str,
        bind_port: u16,
        destination_host: &str,
        destination_port: u16,
    ) -> (r: Result<Self, ValidationError>)
        ensures
            ({
                let forwarding = ForwardingModel::Remote {
                    bind_address: "127.0.0.1"@,
                    bind_port,
                    destination_host: destination_host@,
                    destination_port,
                };
                let refusal = parts_refusal(name@, ssh_host_alias@, forwarding);
                match r {
                    Ok(rule) => refusal is None && rule@ == (RuleModel {
                        id: id@,
                        name: name@,
                        ssh_host_alias: ssh_host_alias@,
                        forwarding,
                        auto_start: false,
                        reconnect: false,
                    }),
                    Err(error) => refusal == Some(error@),
                }
            }),
    {
        let name = RuleName::new(name)?;
        let ssh_host_alias = HostAlias::new(ssh_host_alias)?;
        let bind_port = Port::new(bind_port, Field::BindPort)?;
        let destination_host = DestinationHost::new(destination_host)?;
        let destination_port = Port::new(destination_port, Field::DestinationPort)?;
        Ok(
            Rule {
                id,
                name,
                ssh_host_alias,
                forwarding: Forwarding::Remote(
                    RemoteForwarding {
                        bind_address: BindAddress::loopback(),
                        bind_port,
                        destination_host,
                        destination_port,
                    },
                ),
                auto_start: false,
                reconnect: false,
            },
        )
    }

    /// A SOCKS forwarding, which has no fixed destination.
    pub fn dynamic(id: RuleId, name: &str, ssh_host_alias: &str, bind_port: u16) -> (r: Result<
        Self,
        ValidationError,
    >)
        ensures
            ({
                let forwarding = ForwardingModel::Dynamic {
                    bind_address: "127.0.0.1"@,
                    bind_port,
                };
                let refusal = parts_refusal(name@, ssh_host_alias@, forwarding);
                match r {
                    Ok(rule) => refusal is None && rule@ == (RuleModel {
                        id: id@,
                        name: name@,
                        ssh_host_alias: ssh_host_alias@,
                        forwarding,
                        auto_start: false,
                        reconnect: false,
                    }),
                    Err(error) => refusal == Some(error@),
                }
            }),
    {
        let name = RuleName::new(name)?;
        let ssh_host_alias = HostAlias::new(ssh_host_alias)?;
        let bind_port = Port::new(bind_port, Field::BindPort)?;
        Ok(
            Rule {
                id,
                name,
                ssh_host_alias,
                forwarding: Forwarding::Dynamic(
                    DynamicForwarding { bind_address: BindAddress::loopback(), bind_port },
                ),
                auto_start: false,
                reconnect: false,
            },
        )
    }

    pub fn with_bind_address(self, bind_address: &str) -> (r: Result<Self, ValidationError>)
        ensures
            match r {
                Ok(rule) => bind_refusal(bind_address@) is None && rule@ == (RuleModel {
                    forwarding: self@.forwarding.bound_to(bind_address@),
                    ..self@
                }),
                Err(error) => bind_refusal(bind_address@) == Some(error@),
            },
    {
        let bind_address = BindAddress::new(bind_address)?;
        let forwarding = match self.forwarding {
            Forwarding::Local(v) => Forwarding::Local(
                LocalForwarding {
                    bind_address,
                    bind_port: v.bind_port,
                    destination_host: v.destination_host,
                    destination_port: v.destination_port,
                },
            ),
            Forwarding::Remote(v) => Forwarding::Remote(
                RemoteForwarding {
                    bind_address,
                    bind_port: v.bind_port,
                    destination_host: v.destination_host,
                    destination_port: v.destination_port,
                },
            ),
            Forwarding::Dynamic(v) => Forwarding::Dynamic(
                DynamicForwarding { bind_address, bind_port: v.bind_port },
            ),
        };
        Ok(
            Rule {
                id: self.id,
                name: self.name,
                ssh_host_alias: self.ssh_host_alias,
                forwarding,
                auto_start: self.auto_start,
                reconnect: self.reconnect,
            },
        )
    }

    pub fn with_policy(self, auto_start: bool, reconnect: bool) -> (r: Self)
        ensures
            r@ == (RuleModel { auto_start, reconnect, ..self@ }),
    {
        Rule {
            id: self.id,
            name: self.name,
            ssh_host_alias: self.ssh_host_alias,
            forwarding: self.forwarding,
            auto_start,
            reconnect,
        }
    }

    /// Gives the rule another valid name. With an invalid one the rule stays as it is.
    pub fn rename(&mut self, name: &str) -> (r: Result<(), ValidationError>)
        ensures
            match r {
                Ok(_) => name_refusal(name@) is None && final(self)@ == (RuleModel {
                    name: name@,
                    ..old(self)@
                }),
                Err(error) => name_refusal(name@) == Some(error@) && *final(self) == *old(self),
            },
    {
        let name = RuleName::new(name)?;
        self.name = name;
        Ok(())
    }

    pub fn id(&self) -> (r: RuleId)
        ensures
            r@ == self@.id,
    {
        self.id
    }

    pub fn name(&self) -> (r: &RuleName)
        ensures
            r@ == self@.name,
    {
        &self.name
    }

    pub fn ssh_host_alias(&self) -> (r: &HostAlias)
        ensures
            r@ == self@.ssh_host_alias,
    {
        &self.ssh_host_alias
    }

    pub fn forwarding(&self) -> (r: &Forwarding)
        ensures
            r@ == self@.forwarding,
            r is Local <==> self@.forwarding is Local,
            r is Remote <==> self@.forwarding is Remote,
            r is Local ==> r->Local_0@ == self@.forwarding,
            r is Remote ==> r->Remote_0@ == self@.forwarding,
            r is Dynamic ==> r->Dynamic_0@ == self@.forwarding,
    {
        &self.forwarding
    }

    pub fn auto_start(&self) -> (r: bool)
        ensures
            r == self@.auto_start,
    {
        self.auto_start
    }

    pub fn reconnect(&self) -> (r: bool)
        ensures
            r == self@.reconnect,
    {
        self.reconnect
    }

    pub fn local_listener(&self) -> (r: Option<(&BindAddress, Port)>)
        ensures
            match r {
                Some((found, port)) => self@.listener() == Some((found@, port@)),
                None => self@.listener() is None,
            },
    {
        match &self.forwarding {
            Forwarding::Local(v) => Some((&v.bind_address, v.bind_port)),
            Forwarding::Dynamic(v) => Some((&v.bind_address, v.bind_port)),
            Forwarding::Remote(_) => None,
        }
    }
}

impl LocalForwarding {
    pub fn bind_address(&self) -> (r: &BindAddress)
        ensures
            r@ == self@->Local_bind_address,
    {
        &self.bind_address
    }

    pub fn bind_port(&self) -> (r: Port)
        ensures
            r@ == self@->Local_bind_port,
    {
        self.bind_port
    }

    pub fn destination_host(&self) -> (r: &DestinationHost)
        ensures
            r@ == self@->Local_destination_host,
    {
        &self.destination_host
    }

    pub fn destination_port(&self) -> (r: Port)
        ensures
            r@ == self@->Local_destination_port,
    {
        self.destination_port
    }
}

impl RemoteForwarding {
    pub fn bind_address(&self) -> (r: &BindAddress)
        ensures
            r@ == self@->Remote_bind_address,
    {
        &self.bind_address
    }

    pub fn bind_port(&self) -> (r: Port)
        ensures
            r@ == self@->Remote_bind_port,
    {
        self.bind_port
    }

    pub fn destination_host(&self) -> (r: &DestinationHost)
        ensures
            r@ == self@->Remote_destination_host,
    {
        &self.destination_host
    }

    pub fn destination_port(&self) -> (r: Port)
        ensures
            r@ == self@->Remote_destination_port,
    {
        self.destination_port
    }
}

impl DynamicForwarding {
    pub fn bind_address(&self) -> (r: &BindAddress)
        ensures
            r@ == self@->Dynamic_bind_address,
    {
        &self.bind_address
    }

    pub fn bind_port(&self) -> (r: Port)
        ensures
            r@ == self@->Dynamic_bind_port,
    {
        self.bind_port
    }
}

// ---------------------------------------------------------------------------
// What makes a rule
// ---------------------------------------------------------------------------
/// Whatever its type, a forwarding listens where it was told to, and binding it elsewhere changes
/// nothing but the address.
pub proof fn forwardings_listen_where_told(
    bind_address: Seq<char>,
    bind_port: u16,
    destination_host: Seq<char>,
    destination_port: u16,
    other: Seq<char>,
)
    ensures
        ({
            let local = ForwardingModel::Local {
                bind_address,
                bind_port,
                destination_host,
                destination_port,
            };
            let remote = ForwardingModel::Remote {
                bind_address,
                bind_port,
                destination_host,
                destination_port,
            };
            let dynamic = ForwardingModel::Dynamic { bind_address, bind_port };
            &&& local.bind_address() == bind_address && local.bind_port() == bind_port
            &&& remote.bind_address() == bind_address && remote.bind_port() == bind_port
            &&& dynamic.bind_address() == bind_address && dynamic.bind_port() == bind_port
            &&& local.bound_to(other).bound_to(bind_address) == local
            &&& remote.bound_to(other).bound_to(bind_address) == remote
            &&& dynamic.bound_to(other).bound_to(bind_address) == dynamic
            &&& local.bound_to(other).bind_address() == other
            &&& remote.bound_to(other).bind_address() == other
            &&& dynamic.bound_to(other).bind_address() == other
            &&& local.bound_to(bind_address) == local
            &&& remote.bound_to(bind_address) == remote
            &&& dynamic.bound_to(bind_address) == dynamic
        }),
{
}

/// Local and dynamic rules listen on this machine, at their own address and port. Remote rules do
/// not.
pub proof fn only_remote_rules_listen_elsewhere(m: RuleModel)
    ensures
        m.forwarding is Remote <==> m.listener() is None,
        !(m.forwarding is Remote) ==> m.listener() == Some(
            (m.forwarding.bind_address(), m.forwarding.bind_port()),
        ),
{
}

/// A name may hold spaces and up to 128 characters, an alias of a host up to 255 and a destination
/// up to 253, both without spaces. An alias never starts with a hyphen.
pub proof fn texts_of_a_rule(s: Seq<char>)
    ensures
        name_refusal(s) == validation::text_refusal(s, Field::RuleName, 128, true),
        host::alias_refusal(s) is None ==> s[0] != '-' && validation::text_refusal(
            s,
            Field::SshHostAlias,
            255,
            false,
        ) is None,
        validation::text_refusal(s, Field::SshHostAlias, 255, false) is Some
            ==> host::alias_refusal(s) == validation::text_refusal(
            s,
            Field::SshHostAlias,
            255,
            false,
        ),
        s.len() > 0 && s[0] == '-' && validation::text_refusal(s, Field::SshHostAlias, 255, false)
            is None ==> host::alias_refusal(s) == Some(
            validation::Refusal::LooksLikeOption { field: Field::SshHostAlias },
        ),
        s.len() > 0 && s[0] != '-' && validation::text_refusal(s, Field::SshHostAlias, 255, false)
            is None ==> host::alias_refusal(s) is None,
        destination_refusal(s) is None <==> validation::text_refusal(
            s,
            Field::DestinationHost,
            253,
            false,
        ) is None && (s.contains(':') ==> address::address(s) is Some),
        destination_refusal(s) is Some ==> destination_refusal(s) == validation::text_refusal(
            s,
            Field::DestinationHost,
            253,
            false,
        ) || destination_refusal(s) == Some(
            validation::Refusal::InvalidDestinationHost { value: s },
        ),
{
}

/// `localhost`, `*` and every address can be bound to, and what cannot is named.
pub proof fn bind_addresses(s: Seq<char>)
    ensures
        bindable("localhost"@),
        bindable("*"@),
        address::address(s) is Some ==> bindable(s),
        bindable(s) ==> s == "localhost"@ || s == "*"@ || address::address(s) is Some,
        bind_refusal(s) is None <==> bindable(s),
        bind_refusal(s) is Some ==> bind_refusal(s) == Some(
            validation::Refusal::InvalidBindAddress { value: s },
        ),
{
}

/// Zero is no port, and the field is told.
pub proof fn zero_is_no_port(value: u16, field: Field)
    ensures
        value == 0 ==> port_refusal(value, field) == Some(validation::Refusal::PortZero { field }),
        value != 0 ==> port_refusal(value, field) is None,
{
}

/// A rule is valid exactly if all its parts are. What is told is what is wrong with the name, or
/// else with the host, the port to listen on, the destination, its port or the address to listen at.
pub proof fn rules_are_refused_part_by_part(m: RuleModel)
    ensures
        ({
            let name = name_refusal(m.name);
            let alias = host::alias_refusal(m.ssh_host_alias);
            let port = port_refusal(m.forwarding.bind_port(), Field::BindPort);
            let address = bind_refusal(m.forwarding.bind_address());
            let (host, host_port) = match m.forwarding {
                ForwardingModel::Local { destination_host, destination_port, .. } => (
                    destination_refusal(destination_host),
                    port_refusal(destination_port, Field::DestinationPort),
                ),
                ForwardingModel::Remote { destination_host, destination_port, .. } => (
                    destination_refusal(destination_host),
                    port_refusal(destination_port, Field::DestinationPort),
                ),
                ForwardingModel::Dynamic { .. } => (None, None),
            };
            &&& valid_rule(m) <==> name is None && alias is None && port is None && host is None
                && host_port is None && address is None
            &&& name is Some ==> rule_refusal(m) == name
            &&& name is None && alias is Some ==> rule_refusal(m) == alias
            &&& name is None && alias is None && port is Some ==> rule_refusal(m) == port
            &&& name is None && alias is None && port is None && host is Some ==> rule_refusal(m)
                == host
            &&& name is None && alias is None && port is None && host is None && host_port is Some
                ==> rule_refusal(m) == host_port
            &&& parts_refusal(m.name, m.ssh_host_alias, m.forwarding) is None ==> rule_refusal(m)
                == address
        }),
{
}

} // verus!
