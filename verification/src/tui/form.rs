//! The form in which a rule is entered.
use super::RuleView;
use crate::application::hosts;
use crate::cli::ForwardKind;
use crate::config::Rule as WireRule;
use crate::domain::rule;
use crate::domain::rule::{Rule, RuleId};
use crate::domain::validation;
use crate::identity;
use crate::text;
use crate::tui;
use vstd::prelude::*;
use vstd::string::*;

verus! {

/// The address on which new rules listen.
pub open spec fn loopback() -> Seq<char> {
    "127.0.0.1"@
}

/// How many ports are tried in place of one that is in use.
pub const SUGGESTIONS: u32 = 100;

#[derive(Debug)]
pub struct Form {
    pub id: u128,
    pub editing: bool,
    pub host: String,
    pub name: String,
    pub remote_port: String,
    pub local_port: String,
    pub field: usize,
    pub suggestion: Option<u16>,
    pub error: Option<String>,
    pub kind: ForwardKind,
    pub auto_start: bool,
    pub reconnect: bool,
}

/// What a form holds.
#[verifier::ext_equal]
pub struct FormModel {
    pub id: u128,
    pub editing: bool,
    pub host: Seq<char>,
    pub name: Seq<char>,
    pub remote_port: Seq<char>,
    pub local_port: Seq<char>,
    pub field: int,
    pub suggestion: Option<u16>,
    pub error: Option<Seq<char>>,
    pub kind: ForwardKind,
    pub auto_start: bool,
    pub reconnect: bool,
}

impl View for Form {
    type V = FormModel;

    open spec fn view(&self) -> FormModel {
        FormModel {
            id: self.id,
            editing: self.editing,
            host: self.host@,
            name: self.name@,
            remote_port: self.remote_port@,
            local_port: self.local_port@,
            field: self.field as int,
            suggestion: self.suggestion,
            error: hosts::optional_text(self.error),
            kind: self.kind,
            auto_start: self.auto_start,
            reconnect: self.reconnect,
        }
    }
}

/// Whether a local port can be listened on, and if not, which one after it can.
#[derive(Clone, Copy, Debug, PartialEq, Eq, Structural)]
pub enum Probe {
    Free,
    Busy { next: Option<u16> },
}

// ---------------------------------------------------------------------------
// Opening a form
// ---------------------------------------------------------------------------
pub open spec fn empty_form(id: u128, host: Seq<char>) -> FormModel {
    FormModel {
        id,
        editing: false,
        host,
        name: Seq::empty(),
        remote_port: Seq::empty(),
        local_port: Seq::empty(),
        field: 0,
        suggestion: None,
        error: None,
        kind: ForwardKind::Local,
        auto_start: false,
        reconnect: false,
    }
}

pub open spec fn edit_form(v: tui::ShownRule) -> FormModel {
    FormModel {
        id: v.id,
        editing: true,
        host: v.host,
        name: v.name,
        remote_port: match v.destination_port {
            Some(port) => text::decimal(port as nat),
            None => Seq::empty(),
        },
        local_port: text::decimal(v.bind_port as nat),
        field: 0,
        suggestion: None,
        error: None,
        kind: v.kind,
        auto_start: v.auto_start,
        reconnect: v.reconnect,
    }
}

pub open spec fn copy_form(id: u128, v: tui::ShownRule) -> FormModel {
    FormModel { id, editing: false, name: v.name + " copy"@, ..edit_form(v) }
}

// ---------------------------------------------------------------------------
// Editing
// ---------------------------------------------------------------------------
/// The field that has the focus: the name, the remote port or the local port.
pub open spec fn value_of(f: FormModel) -> Seq<char> {
    if f.field == 0 {
        f.name
    } else if f.field == 1 {
        f.remote_port
    } else {
        f.local_port
    }
}

/// The form with another value in the field that has the focus. The local port follows the
/// remote one; what was said of the values before is withdrawn.
pub open spec fn with_value(f: FormModel, value: Seq<char>) -> FormModel {
    let g = FormModel { suggestion: None, error: None, ..f };
    if f.field == 0 {
        FormModel { name: value, ..g }
    } else if f.field == 1 {
        FormModel { remote_port: value, local_port: value, ..g }
    } else {
        FormModel { local_port: value, ..g }
    }
}

/// A port field takes digits only.
pub open spec fn typed(f: FormModel, c: char) -> FormModel {
    with_value(
        f,
        if f.field == 0 || text::digit(c) {
            value_of(f).push(c)
        } else {
            value_of(f)
        },
    )
}

pub open spec fn erased(f: FormModel) -> FormModel {
    with_value(
        f,
        if value_of(f).len() == 0 {
            value_of(f)
        } else {
            value_of(f).drop_last()
        },
    )
}

/// The local port, if it is one that can be tried.
pub open spec fn local_port_of(f: FormModel) -> Option<u16> {
    match text::parsed_u16(f.local_port) {
        Some(port) => if port != 0 {
            Some(port)
        } else {
            None
        },
        None => None,
    }
}

pub open spec fn probed(f: FormModel, probe: Probe) -> FormModel {
    FormModel {
        suggestion: match probe {
            Probe::Free => None,
            Probe::Busy { next } => next,
        },
        ..f
    }
}

pub open spec fn accepted(f: FormModel) -> FormModel {
    match f.suggestion {
        Some(port) => FormModel {
            suggestion: None,
            local_port: text::decimal(port as nat),
            ..f
        },
        None => f,
    }
}

pub open spec fn next_kind(kind: ForwardKind) -> ForwardKind {
    match kind {
        ForwardKind::Local => ForwardKind::Remote,
        ForwardKind::Remote => ForwardKind::Dynamic,
        ForwardKind::Dynamic => ForwardKind::Local,
    }
}

// ---------------------------------------------------------------------------
// Submitting
// ---------------------------------------------------------------------------
pub open spec fn port_or_zero(s: Seq<char>) -> u16 {
    match text::parsed_u16(s) {
        Some(port) => port,
        None => 0,
    }
}

/// The rule that the form describes. A remote forwarding listens on the remote port and leads
/// to the local one.
pub open spec fn described(f: FormModel) -> rule::RuleModel {
    let remote = port_or_zero(f.remote_port);
    let local = port_or_zero(f.local_port);
    rule::RuleModel {
        id: f.id,
        name: f.name,
        ssh_host_alias: f.host,
        forwarding: match f.kind {
            ForwardKind::Local => rule::ForwardingModel::Local {
                bind_address: loopback(),
                bind_port: local,
                destination_host: loopback(),
                destination_port: remote,
            },
            ForwardKind::Remote => rule::ForwardingModel::Remote {
                bind_address: loopback(),
                bind_port: remote,
                destination_host: loopback(),
                destination_port: local,
            },
            ForwardKind::Dynamic => rule::ForwardingModel::Dynamic {
                bind_address: loopback(),
                bind_port: local,
            },
        },
        auto_start: f.auto_start,
        reconnect: f.reconnect,
    }
}

/// Why the form describes no rule.
pub open spec fn form_refusal(f: FormModel) -> Option<validation::Refusal> {
    let m = described(f);
    rule::parts_refusal(m.name, m.ssh_host_alias, m.forwarding)
}

pub open spec fn busy_text(port: u16) -> Seq<char> {
    "ローカルポート "@ + text::decimal(port as nat)
        + " は使用中です。候補を選択してください"@
}

/// The form after an attempt to submit it, and the rule to save if it succeeds.
pub open spec fn submitted(f: FormModel, probe: Probe) -> (FormModel, Option<rule::RuleModel>) {
    match form_refusal(f) {
        Some(refusal) => (
            FormModel { error: Some(validation::refusal_message(refusal)), ..f },
            None,
        ),
        None => match probe {
            Probe::Busy { next } => if f.kind != ForwardKind::Remote {
                (
                    FormModel {
                        suggestion: next,
                        error: Some(busy_text(port_or_zero(f.local_port))),
                        ..f
                    },
                    None,
                )
            } else {
                (f, Some(described(f)))
            },
            Probe::Free => (f, Some(described(f))),
        },
    }
}

/// The port that has to be tried before the form is submitted.
pub open spec fn submit_port(f: FormModel) -> Option<u16> {
    if form_refusal(f) is None && f.kind != ForwardKind::Remote {
        Some(port_or_zero(f.local_port))
    } else {
        None
    }
}

/// A rule that a form gives is valid.
pub proof fn submitted_rules_are_valid(f: FormModel, probe: Probe)
    ensures
        submitted(f, probe).1 matches Some(m) ==> rule::valid_rule(m),
{
    rule::default_address_is_bindable();
}

fn port_of_text(value: &String) -> (r: Option<u16>)
    ensures
        r == text::parsed_u16(value@),
{
    let chars = text::chars_of(value.as_str());
    text::parse_u16(chars.as_slice())
}

fn port_or_none(value: &String) -> (r: u16)
    ensures
        r == port_or_zero(value@),
{
    match port_of_text(value) {
        Some(port) => port,
        None => 0,
    }
}

/// The first candidate that is free, if one is. `free` says of each candidate whether it is.
pub fn first_free(candidates: &Vec<u16>, free: &Vec<bool>) -> (r: Option<u16>)
    requires
        candidates@.len() == free@.len(),
    ensures
        match r {
            Some(port) => exists|i: int|
                0 <= i < candidates@.len() && #[trigger] free@[i] && candidates@[i] == port && (
                forall|j: int| 0 <= j < i ==> !#[trigger] free@[j]),
            None => forall|j: int| 0 <= j < free@.len() ==> !#[trigger] free@[j],
        },
{
    let mut i: usize = 0;
    while i < candidates.len()
        invariant
            i <= candidates@.len(),
            candidates@.len() == free@.len(),
            forall|j: int| 0 <= j < i ==> !#[trigger] free@[j],
        decreases candidates.len() - i,
    {
        if free[i] {
            assert(free@[i as int] && candidates@[i as int] == candidates@[i as int]);
            return Some(candidates[i]);
        }
        i = i + 1;
    }
    None
}

/// The ports to try in place of `port`, in order.
pub fn port_candidates(port: u16) -> (r: Vec<u16>)
    ensures
        ({
            let first = if port == u16::MAX {
                u16::MAX as int
            } else {
                port + 1
            };
            &&& r@.len() == if 0x1_0000 - first < SUGGESTIONS {
                0x1_0000 - first
            } else {
                SUGGESTIONS as int
            }
            &&& forall|i: int| 0 <= i < r@.len() ==> #[trigger] r@[i] == first + i
        }),
{
    let first: u32 = if port == u16::MAX {
        port as u32
    } else {
        port as u32 + 1
    };
    let mut out: Vec<u16> = Vec::new();
    let mut i: u32 = 0;
    while i < SUGGESTIONS && first + i <= 0xffff
        invariant
            1 <= first <= 0xffff,
            i <= SUGGESTIONS,
            first + i <= 0x1_0000,
            out@.len() == i,
            forall|k: int| 0 <= k < out@.len() ==> #[trigger] out@[k] == first + k,
        decreases SUGGESTIONS - i,
    {
        out.push((first + i) as u16);
        i = i + 1;
    }
    out
}

impl Form {
    /// The focus is on one of the three fields.
    pub open spec fn well_formed(&self) -> bool {
        self.field < 3
    }

    pub fn new(host: String) -> (r: Self)
        ensures
            r@ == empty_form(r@.id, host@),
            identity::version_four(r@.id),
            r.well_formed(),
    {
        Form::with_id(identity::random_uuid(), host)
    }

    pub fn with_id(id: u128, host: String) -> (r: Self)
        ensures
            r@ == empty_form(id, host@),
            r.well_formed(),
    {
        Form {
            id,
            editing: false,
            host,
            name: String::new(),
            remote_port: String::new(),
            local_port: String::new(),
            field: 0,
            suggestion: None,
            error: None,
            kind: ForwardKind::Local,
            auto_start: false,
            reconnect: false,
        }
    }

    /// A form that replaces a rule.
    pub fn edit(rule: &RuleView) -> (r: Self)
        ensures
            r@ == edit_form(rule@),
            r.well_formed(),
    {
        let remote_port = match rule.destination_port {
            Some(port) => text::decimal_text(port as u64),
            None => String::new(),
        };
        Form {
            id: rule.id,
            editing: true,
            host: rule.host.clone(),
            name: rule.name.clone(),
            remote_port,
            local_port: text::decimal_text(rule.bind_port as u64),
            field: 0,
            suggestion: None,
            error: None,
            kind: rule.kind,
            auto_start: rule.auto_start,
            reconnect: rule.reconnect,
        }
    }

    /// A form for a new rule like `rule`.
    pub fn duplicate(rule: &RuleView) -> (r: Self)
        ensures
            r@ == copy_form(r@.id, rule@),
            identity::version_four(r@.id),
            r.well_formed(),
    {
        Form::duplicate_as(identity::random_uuid(), rule)
    }

    pub fn duplicate_as(id: u128, rule: &RuleView) -> (r: Self)
        ensures
            r@ == copy_form(id, rule@),
            r.well_formed(),
    {
        let mut form = Form::edit(rule);
        form.id = id;
        form.editing = false;
        form.name.append(" copy");
        form
    }

    /// Puts `value` into the field that has the focus.
    fn set_value(&mut self, value: String) -> (port: Option<u16>)
        requires
            old(self).well_formed(),
        ensures
            final(self)@ == with_value(old(self)@, value@),
            final(self).well_formed(),
            port == local_port_of(final(self)@),
    {
        self.error = None;
        self.suggestion = None;
        if self.field == 0 {
            self.name = value;
        } else if self.field == 1 {
            self.local_port = value.clone();
            self.remote_port = value;
        } else {
            self.local_port = value;
        }
        match port_of_text(&self.local_port) {
            Some(port) => if port != 0 {
                Some(port)
            } else {
                None
            },
            None => None,
        }
    }

    fn value(&self) -> (r: &String)
        ensures
            r@ == value_of(self@),
    {
        if self.field == 0 {
            &self.name
        } else if self.field == 1 {
            &self.remote_port
        } else {
            &self.local_port
        }
    }

    /// Takes a character. The local port is to be tried if the result names one.
    pub fn input(&mut self, ch: char) -> (port: Option<u16>)
        requires
            old(self).well_formed(),
        ensures
            final(self)@ == typed(old(self)@, ch),
            final(self).well_formed(),
            port == local_port_of(final(self)@),
    {
        let mut value = self.value().clone();
        if self.field == 0 || text::is_digit(ch) {
            value.push(ch);
        }
        self.set_value(value)
    }

    /// Takes back a character. The local port is to be tried if the result names one.
    pub fn backspace(&mut self) -> (port: Option<u16>)
        requires
            old(self).well_formed(),
        ensures
            final(self)@ == erased(old(self)@),
            final(self).well_formed(),
            port == local_port_of(final(self)@),
    {
        let mut chars = text::chars_of(self.value().as_str());
        let ghost before = chars@;
        chars.pop();
        assert(before.len() > 0 ==> chars@ =~= before.drop_last());
        let value = text::text_of(chars.as_slice());
        self.set_value(value)
    }

    /// Notes what trying the local port has shown.
    pub fn apply_probe(&mut self, probe: Probe)
        requires
            old(self).well_formed(),
        ensures
            final(self)@ == probed(old(self)@, probe),
            final(self).well_formed(),
    {
        self.suggestion = match probe {
            Probe::Free => None,
            Probe::Busy { next } => next,
        };
    }

    pub fn accept_suggestion(&mut self)
        requires
            old(self).well_formed(),
        ensures
            final(self)@ == accepted(old(self)@),
            final(self).well_formed(),
    {
        match self.suggestion {
            Some(port) => {
                self.suggestion = None;
                self.local_port = text::decimal_text(port as u64);
            },
            None => {},
        }
    }

    /// The refusal of what the form describes, in words.
    fn refusal(&self) -> (r: Option<String>)
        ensures
            match r {
                Some(message) => form_refusal(self@) matches Some(refusal) && message@
                    == validation::refusal_message(refusal),
                None => form_refusal(self@) is None,
            },
    {
        let remote: u16 = port_or_none(&self.remote_port);
        let local: u16 = port_or_none(&self.local_port);
        let id = RuleId::from_uuid(self.id);
        let checked = match self.kind {
            ForwardKind::Remote => Rule::remote(
                id,
                self.name.as_str(),
                self.host.as_str(),
                remote,
                "127.0.0.1",
                local,
            ),
            ForwardKind::Dynamic => Rule::dynamic(
                id,
                self.name.as_str(),
                self.host.as_str(),
                local,
            ),
            ForwardKind::Local => Rule::local(
                id,
                self.name.as_str(),
                self.host.as_str(),
                local,
                "127.0.0.1",
                remote,
            ),
        };
        match checked {
            Ok(_) => None,
            Err(error) => Some(error.to_string()),
        }
    }

    /// The port to try before `payload` is called.
    pub fn port_to_probe(&self) -> (r: Option<u16>)
        ensures
            r == submit_port(self@),
    {
        if self.refusal().is_none() && self.kind != ForwardKind::Remote {
            Some(port_or_none(&self.local_port))
        } else {
            None
        }
    }

    fn described_rule(&self) -> (r: WireRule)
        ensures
            r@ == described(self@),
    {
        let remote: u16 = port_or_none(&self.remote_port);
        let local: u16 = port_or_none(&self.local_port);
        let name = self.name.clone();
        let ssh_host_alias = self.host.clone();
        match self.kind {
            ForwardKind::Local => WireRule::Local {
                id: self.id,
                name,
                ssh_host_alias,
                bind_address: "127.0.0.1".to_owned(),
                bind_port: local,
                destination_host: "127.0.0.1".to_owned(),
                destination_port: remote,
                auto_start: self.auto_start,
                reconnect: self.reconnect,
            },
            ForwardKind::Remote => WireRule::Remote {
                id: self.id,
                name,
                ssh_host_alias,
                bind_address: "127.0.0.1".to_owned(),
                bind_port: remote,
                destination_host: "127.0.0.1".to_owned(),
                destination_port: local,
                auto_start: self.auto_start,
                reconnect: self.reconnect,
            },
            ForwardKind::Dynamic => WireRule::Dynamic {
                id: self.id,
                name,
                ssh_host_alias,
                bind_address: "127.0.0.1".to_owned(),
                bind_port: local,
                auto_start: self.auto_start,
                reconnect: self.reconnect,
            },
        }
    }

    /// The rule to save, given what trying the port of `port_to_probe` has shown. If there is
    /// none, the form says why.
    pub fn payload(&mut self, probe: Probe) -> (r: Option<WireRule>)
        requires
            old(self).well_formed(),
        ensures
            ({
                let (after, rule) = submitted(old(self)@, probe);
                &&& final(self)@ == after
                &&& match r {
                    Some(wire) => rule == Some(wire@),
                    None => rule is None,
                }
            }),
            final(self).well_formed(),
    {
        match self.refusal() {
            Some(message) => {
                self.error = Some(message);
                return None;
            },
            None => {},
        }
        match probe {
            Probe::Busy { next } => {
                if self.kind != ForwardKind::Remote {
                    let local: u16 = port_or_none(&self.local_port);
                    let mut message = "ローカルポート ".to_owned();
                    text::push_decimal(&mut message, local as u64);
                    message.append(" は使用中です。候補を選択してください");
                    self.suggestion = next;
                    self.error = Some(message);
                    return None;
                }
            },
            Probe::Free => {},
        }
        Some(self.described_rule())
    }
}

// ---------------------------------------------------------------------------
// What is entered is what is meant
// ---------------------------------------------------------------------------
/// A local forwarding listens on the local port and leads to the remote one. A remote forwarding
/// listens on the remote port and leads to the local one. A dynamic one listens on the local port.
/// Everything happens on the loopback address, and the rest is what was entered.
pub proof fn forms_describe_what_was_entered(f: FormModel, remote: u16, local: u16)
    requires
        f.remote_port == text::decimal(remote as nat),
        f.local_port == text::decimal(local as nat),
    ensures
        ({
            let m = described(f);
            &&& m.id == f.id && m.name == f.name && m.ssh_host_alias == f.host
            &&& m.auto_start == f.auto_start && m.reconnect == f.reconnect
            &&& m.forwarding.bind_address() == "127.0.0.1"@
            &&& f.kind == ForwardKind::Local ==> (m.forwarding matches rule::ForwardingModel::Local {
                bind_port,
                destination_host,
                destination_port,
                ..
            } && bind_port == local && destination_port == remote && destination_host
                == "127.0.0.1"@)
            &&& f.kind == ForwardKind::Remote ==> (
            m.forwarding matches rule::ForwardingModel::Remote {
                bind_port,
                destination_host,
                destination_port,
                ..
            } && bind_port == remote && destination_port == local && destination_host
                == "127.0.0.1"@)
            &&& f.kind == ForwardKind::Dynamic ==> (
            m.forwarding matches rule::ForwardingModel::Dynamic { bind_port, .. } && bind_port
                == local)
        }),
{
    text::u16_reads_back(remote);
    text::u16_reads_back(local);
}

/// A rule that is opened for editing keeps its ID and shows what it holds: its listener as the local
/// port and its destination as the remote one. A copy has an ID of its own and says so in its name.
pub proof fn forms_show_the_rule(v: tui::ShownRule, id: u128)
    ensures
        ({
            let f = edit_form(v);
            let c = copy_form(id, v);
            &&& f.id == v.id && f.editing && f.host == v.host && f.name == v.name
            &&& f.local_port == text::decimal(v.bind_port as nat)
            &&& v.destination_port matches Some(port) ==> f.remote_port == text::decimal(port as nat)
            &&& v.destination_port is None ==> f.remote_port == Seq::<char>::empty()
            &&& f.kind == v.kind && f.auto_start == v.auto_start && f.reconnect == v.reconnect
            &&& f.field == 0 && f.suggestion is None && f.error is None
            &&& c.id == id && !c.editing && c.name == v.name + " copy"@
            &&& c.host == f.host && c.local_port == f.local_port && c.remote_port == f.remote_port
            &&& c.kind == f.kind && c.auto_start == f.auto_start && c.reconnect == f.reconnect
        }),
{
}

/// An empty form is about its host and nothing else.
pub proof fn empty_forms_are_empty(id: u128, host: Seq<char>)
    ensures
        ({
            let f = empty_form(id, host);
            &&& f.id == id && f.host == host && !f.editing
            &&& f.name.len() == 0 && f.remote_port.len() == 0 && f.local_port.len() == 0
            &&& f.kind == ForwardKind::Local && !f.auto_start && !f.reconnect
            &&& f.field == 0 && f.suggestion is None && f.error is None
        }),
{
}

/// What is typed goes to the field with the focus: the first is the name, the second the remote
/// port and the third the local one. The local port follows the remote one until it is changed.
/// A port takes digits only. Whatever was complained of before is withdrawn.
pub proof fn typing_goes_to_the_focus(f: FormModel, c: char)
    requires
        0 <= f.field < 3,
    ensures
        ({
            let g = typed(f, c);
            &&& g.suggestion is None && g.error is None && g.field == f.field && g.kind == f.kind
                && g.host == f.host && g.id == f.id
            &&& f.field == 0 ==> g.name == f.name.push(c) && g.remote_port == f.remote_port
                && g.local_port == f.local_port
            &&& f.field == 1 && '0' <= c <= '9' ==> g.remote_port == f.remote_port.push(c)
                && g.local_port == g.remote_port && g.name == f.name
            &&& f.field == 2 && '0' <= c <= '9' ==> g.local_port == f.local_port.push(c)
                && g.remote_port == f.remote_port && g.name == f.name
            &&& f.field == 1 && !('0' <= c <= '9') ==> g.remote_port == f.remote_port
            &&& f.field == 2 && !('0' <= c <= '9') ==> g.local_port == f.local_port
        }),
{
}

/// Erasing takes back what was typed last.
pub proof fn erasing_takes_back_typing(f: FormModel, c: char)
    requires
        0 <= f.field < 3,
    ensures
        f.field == 0 ==> erased(typed(f, c)).name == f.name,
        f.field == 1 && '0' <= c <= '9' ==> erased(typed(f, c)).remote_port == f.remote_port,
        f.field == 2 && '0' <= c <= '9' ==> erased(typed(f, c)).local_port == f.local_port,
        value_of(f).len() == 0 ==> value_of(erased(f)).len() == 0,
{
    assert(f.name.push(c).drop_last() =~= f.name);
    assert(f.remote_port.push(c).drop_last() =~= f.remote_port);
    assert(f.local_port.push(c).drop_last() =~= f.local_port);
}

/// A suggestion becomes the local port when it is accepted, and is then gone. A busy port brings its
/// suggestion, and a free one withdraws it.
pub proof fn suggestions_become_the_local_port(f: FormModel, port: u16, next: Option<u16>)
    ensures
        probed(f, Probe::Free) == (FormModel { suggestion: None, ..f }),
        probed(f, Probe::Busy { next }) == (FormModel { suggestion: next, ..f }),
        f.suggestion == Some(port) ==> local_port_of(accepted(f)) == (if port != 0 {
            Some(port)
        } else {
            None
        }) && accepted(f).suggestion is None && accepted(f).remote_port == f.remote_port,
        f.suggestion is None ==> accepted(f) == f,
        SUGGESTIONS == 100,
{
    text::u16_reads_back(port);
}

/// The types follow one another in a circle: local, remote, dynamic.
pub proof fn types_go_round(kind: ForwardKind)
    ensures
        next_kind(ForwardKind::Local) == ForwardKind::Remote,
        next_kind(ForwardKind::Remote) == ForwardKind::Dynamic,
        next_kind(next_kind(next_kind(kind))) == kind,
{
}

/// A form that describes no valid rule is not saved but shows why. Neither is a form whose local
/// port is in use, unless the forwarding listens at the other end. Any other is saved as it is.
pub proof fn forms_are_saved_when_possible(f: FormModel, probe: Probe)
    ensures
        ({
            let (after, saved) = submitted(f, probe);
            match form_refusal(f) {
                Some(refusal) => saved is None && after == (FormModel {
                    error: Some(validation::refusal_message(refusal)),
                    ..f
                }),
                None => {
                    &&& probe is Free || f.kind == ForwardKind::Remote ==> after == f && saved
                        == Some(described(f))
                    &&& f.kind != ForwardKind::Remote ==> (probe matches Probe::Busy { next } ==> saved
                        is None && after.suggestion == next && after.error == Some(
                        busy_text(port_or_zero(f.local_port)),
                    ))
                },
            }
        }),
        submit_port(f) is Some <==> form_refusal(f) is None && f.kind != ForwardKind::Remote,
        submit_port(f) is Some ==> submit_port(f) == text::parsed_u16(f.local_port),
{
    if submit_port(f) is Some {
        assert(port_or_zero(f.local_port) != 0);
    }
}

/// What is no number counts as port zero, which no rule can have.
pub proof fn unreadable_ports_are_zero(s: Seq<char>, n: u16)
    ensures
        text::parsed_u16(s) is None ==> port_or_zero(s) == 0,
        port_or_zero(text::decimal(n as nat)) == n,
        busy_text(n) == "ローカルポート "@ + text::decimal(n as nat)
            + " は使用中です。候補を選択してください"@,
{
    text::u16_reads_back(n);
}

/// What a form says is what it holds.
pub proof fn forms_say_what_they_hold(f: Form)
    ensures
        f@.id == f.id,
        f@.editing == f.editing,
        f@.host == f.host@,
        f@.name == f.name@,
        f@.remote_port == f.remote_port@,
        f@.local_port == f.local_port@,
        f@.field == f.field,
        f@.suggestion == f.suggestion,
        f.error matches Some(error) ==> f@.error == Some(error@),
        f.error is None ==> f@.error is None,
        f@.kind == f.kind,
        f@.auto_start == f.auto_start,
        f@.reconnect == f.reconnect,
{
}

} // verus!
