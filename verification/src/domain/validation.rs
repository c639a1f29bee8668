//! What makes values and sets of rules valid.
use super::rule::{BindAddress, Rule};
use crate::address;
use crate::address::IpAddress;
use crate::domain::rule;
use crate::text;
use vstd::prelude::*;
use vstd::string::*;

verus! {

#[derive(Clone, Copy, Debug, PartialEq, Eq, Structural)]
pub enum Field {
    RuleName,
    SshHostAlias,
    BindPort,
    DestinationHost,
    DestinationPort,
}

#[derive(Clone, Debug, PartialEq, Eq)]
pub enum ValidationError {
    Empty { field: Field },
    SurroundingWhitespace { field: Field },
    Whitespace { field: Field },
    ControlCharacter { field: Field },
    TooLong { field: Field, max_characters: usize },
    LooksLikeOption { field: Field },
    PortZero { field: Field },
    InvalidBindAddress { value: String },
    InvalidDestinationHost { value: String },
    DuplicateName { name: String },
    DuplicateLocalListener { address: String, port: u16 },
}

/// What a `ValidationError` says.
pub enum Refusal {
    Empty { field: Field },
    SurroundingWhitespace { field: Field },
    Whitespace { field: Field },
    ControlCharacter { field: Field },
    TooLong { field: Field, max_characters: nat },
    LooksLikeOption { field: Field },
    PortZero { field: Field },
    InvalidBindAddress { value: Seq<char> },
    InvalidDestinationHost { value: Seq<char> },
    DuplicateName { name: Seq<char> },
    DuplicateLocalListener { address: Seq<char>, port: u16 },
}

impl View for ValidationError {
    type V = Refusal;

    open spec fn view(&self) -> Refusal {
        match self {
            ValidationError::Empty { field } => Refusal::Empty { field: *field },
            ValidationError::SurroundingWhitespace { field } => Refusal::SurroundingWhitespace {
                field: *field,
            },
            ValidationError::Whitespace { field } => Refusal::Whitespace { field: *field },
            ValidationError::ControlCharacter { field } => Refusal::ControlCharacter {
                field: *field,
            },
            ValidationError::TooLong { field, max_characters } => Refusal::TooLong {
                field: *field,
                max_characters: *max_characters as nat,
            },
            ValidationError::LooksLikeOption { field } => Refusal::LooksLikeOption {
                field: *field,
            },
            ValidationError::PortZero { field } => Refusal::PortZero { field: *field },
            ValidationError::InvalidBindAddress { value } => Refusal::InvalidBindAddress {
                value: value@,
            },
            ValidationError::InvalidDestinationHost { value } => Refusal::InvalidDestinationHost {
                value: value@,
            },
            ValidationError::DuplicateName { name } => Refusal::DuplicateName { name: name@ },
            ValidationError::DuplicateLocalListener {
                address,
                port,
            } => Refusal::DuplicateLocalListener { address: address@, port: *port },
        }
    }
}

/// What a list of errors says.
pub open spec fn refusals(errors: Seq<ValidationError>) -> Seq<Refusal> {
    errors.map_values(|e: ValidationError| e@)
}

// ---------------------------------------------------------------------------
// Texts
// ---------------------------------------------------------------------------
pub open spec fn some_control(s: Seq<char>) -> bool {
    exists|i: int| 0 <= i < s.len() && text::control(#[trigger] s[i])
}

pub open spec fn some_space(s: Seq<char>) -> bool {
    exists|i: int| 0 <= i < s.len() && text::white_space(#[trigger] s[i])
}

/// Why `s` cannot stand in a field: the first of these that holds.
pub open spec fn text_refusal(
    s: Seq<char>,
    field: Field,
    max_characters: nat,
    allow_spaces: bool,
) -> Option<Refusal> {
    if s.len() == 0 {
        Some(Refusal::Empty { field })
    } else if text::trim(s) != s {
        Some(Refusal::SurroundingWhitespace { field })
    } else if s.len() > max_characters {
        Some(Refusal::TooLong { field, max_characters })
    } else if some_control(s) {
        Some(Refusal::ControlCharacter { field })
    } else if !allow_spaces && some_space(s) {
        Some(Refusal::Whitespace { field })
    } else {
        None
    }
}

fn any_control(s: &Vec<char>) -> (r: bool)
    ensures
        r == some_control(s@),
{
    let mut i: usize = 0;
    while i < s.len()
        invariant
            i <= s.len(),
            forall|k: int| 0 <= k < i ==> !text::control(#[trigger] s@[k]),
        decreases s.len() - i,
    {
        if text::is_control(s[i]) {
            return true;
        }
        i = i + 1;
    }
    false
}

fn any_space(s: &Vec<char>) -> (r: bool)
    ensures
        r == some_space(s@),
{
    let mut i: usize = 0;
    while i < s.len()
        invariant
            i <= s.len(),
            forall|k: int| 0 <= k < i ==> !text::white_space(#[trigger] s@[k]),
        decreases s.len() - i,
    {
        if text::is_white_space(s[i]) {
            return true;
        }
        i = i + 1;
    }
    false
}

pub fn validate_text(
    value: &Vec<char>,
    field: Field,
    max_characters: usize,
    allow_spaces: bool,
) -> (r: Result<(), ValidationError>)
    ensures
        match r {
            Ok(_) => text_refusal(value@, field, max_characters as nat, allow_spaces) is None,
            Err(error) => text_refusal(value@, field, max_characters as nat, allow_spaces) == Some(
                error@,
            ),
        },
{
    if value.len() == 0 {
        return Err(ValidationError::Empty { field });
    }
    let trimmed = text::trimmed(value.as_slice());
    if !text::same_chars(trimmed, value.as_slice()) {
        return Err(ValidationError::SurroundingWhitespace { field });
    }
    if value.len() > max_characters {
        return Err(ValidationError::TooLong { field, max_characters });
    }
    if any_control(value) {
        return Err(ValidationError::ControlCharacter { field });
    }
    if !allow_spaces && any_space(value) {
        return Err(ValidationError::Whitespace { field });
    }
    Ok(())
}

impl Field {
    pub open spec fn shown(self) -> Seq<char> {
        match self {
            Field::RuleName => "RuleName"@,
            Field::SshHostAlias => "SshHostAlias"@,
            Field::BindPort => "BindPort"@,
            Field::DestinationHost => "DestinationHost"@,
            Field::DestinationPort => "DestinationPort"@,
        }
    }

    pub fn name(self) -> (r: &'static str)
        ensures
            r@ == self.shown(),
    {
        match self {
            Field::RuleName => "RuleName",
            Field::SshHostAlias => "SshHostAlias",
            Field::BindPort => "BindPort",
            Field::DestinationHost => "DestinationHost",
            Field::DestinationPort => "DestinationPort",
        }
    }
}

/// The sentence for a refusal.
pub open spec fn refusal_message(refusal: Refusal) -> Seq<char> {
    match refusal {
        Refusal::Empty { field } => field.shown() + " must not be empty"@,
        Refusal::SurroundingWhitespace { field } => field.shown()
            + " must not have leading or trailing whitespace"@,
        Refusal::Whitespace { field } => field.shown() + " must not contain whitespace"@,
        Refusal::ControlCharacter { field } => field.shown()
            + " must not contain control characters"@,
        Refusal::TooLong { field, max_characters } => field.shown() + " must be at most "@
            + text::decimal(max_characters) + " characters"@,
        Refusal::LooksLikeOption { field } => field.shown()
            + " must not look like a command-line option"@,
        Refusal::PortZero { field } => "port for "@ + field.shown()
            + " must be in the range 1..=65535"@,
        Refusal::InvalidBindAddress { value } => "invalid bind address: "@ + value,
        Refusal::InvalidDestinationHost { value } => "invalid forwarding destination host: "@
            + value,
        Refusal::DuplicateName { name } => "duplicate rule name: "@ + name,
        Refusal::DuplicateLocalListener { address, port } => "duplicate local listener: "@ + address
            + ":"@ + text::decimal(port as nat),
    }
}

impl ValidationError {
    pub fn to_string(&self) -> (r: String)
        ensures
            r@ == refusal_message(self@),
    {
        match self {
            ValidationError::Empty { field } => text::joined(field.name(), " must not be empty"),
            ValidationError::SurroundingWhitespace { field } => text::joined(
                field.name(),
                " must not have leading or trailing whitespace",
            ),
            ValidationError::Whitespace { field } => text::joined(
                field.name(),
                " must not contain whitespace",
            ),
            ValidationError::ControlCharacter { field } => text::joined(
                field.name(),
                " must not contain control characters",
            ),
            ValidationError::TooLong { field, max_characters } => {
                let mut out = text::joined(field.name(), " must be at most ");
                text::push_decimal(&mut out, *max_characters as u64);
                out.append(" characters");
                out
            },
            ValidationError::LooksLikeOption { field } => text::joined(
                field.name(),
                " must not look like a command-line option",
            ),
            ValidationError::PortZero { field } => text::joined3(
                "port for ",
                field.name(),
                " must be in the range 1..=65535",
            ),
            ValidationError::InvalidBindAddress { value } => text::joined(
                "invalid bind address: ",
                value.as_str(),
            ),
            ValidationError::InvalidDestinationHost { value } => text::joined(
                "invalid forwarding destination host: ",
                value.as_str(),
            ),
            ValidationError::DuplicateName { name } => text::joined(
                "duplicate rule name: ",
                name.as_str(),
            ),
            ValidationError::DuplicateLocalListener { address, port } => {
                let mut out = text::joined3("duplicate local listener: ", address.as_str(), ":");
                text::push_decimal(&mut out, *port as u64);
                out
            },
        }
    }
}

// ---------------------------------------------------------------------------
// Listeners
// ---------------------------------------------------------------------------
/// The interfaces that a bind address stands for.
pub enum Binding {
    Any,
    Localhost,
    At(address::Address),
}

/// `*` is every interface. So is a text that is no address: such a listener counts as
/// overlapping all others.
pub open spec fn binding(s: Seq<char>) -> Binding {
    if s == "*"@ {
        Binding::Any
    } else if s == "localhost"@ {
        Binding::Localhost
    } else {
        match address::address(s) {
            Some(a) => Binding::At(a),
            None => Binding::Any,
        }
    }
}

/// Two addresses of one family meet if they are equal or one is the unspecified address.
pub open spec fn addresses_meet(a: address::Address, b: address::Address) -> bool {
    &&& (a is V4 <==> b is V4)
    &&& (a == b || address::unspecified(a) || address::unspecified(b))
}

/// Some interface belongs to both bindings.
pub open spec fn overlap(a: Binding, b: Binding) -> bool {
    match (a, b) {
        (Binding::Localhost, Binding::Localhost) => true,
        (Binding::Localhost, Binding::At(x)) => address::loopback(x) || address::unspecified(x),
        (Binding::At(x), Binding::Localhost) => address::loopback(x) || address::unspecified(x),
        (Binding::At(x), Binding::At(y)) => addresses_meet(x, y),
        _ => true,
    }
}

/// Overlapping does not depend on the order of the two addresses.
pub proof fn overlap_is_symmetric(a: Binding, b: Binding)
    ensures
        overlap(a, b) == overlap(b, a),
{
}

/// Every bind address overlaps itself.
pub proof fn overlap_is_reflexive(a: Binding)
    ensures
        overlap(a, a),
{
}

#[derive(Clone, Debug)]
enum BindingClass {
    Any,
    Localhost,
    At(IpAddress),
}

impl BindingClass {
    spec fn shown(self) -> Binding {
        match self {
            BindingClass::Any => Binding::Any,
            BindingClass::Localhost => Binding::Localhost,
            BindingClass::At(a) => Binding::At(a@),
        }
    }

    fn of(value: &str) -> (r: Self)
        ensures
            r.shown() == binding(value@),
    {
        if text::same(value, "*") {
            BindingClass::Any
        } else if text::same(value, "localhost") {
            BindingClass::Localhost
        } else {
            let chars = text::chars_of(value);
            match address::parse_address(chars.as_slice()) {
                Some(found) => BindingClass::At(found),
                None => BindingClass::Any,
            }
        }
    }
}

fn same_address(a: &IpAddress, b: &IpAddress) -> (r: bool)
    ensures
        r == (a@ == b@),
{
    match (a, b) {
        (IpAddress::V4(x), IpAddress::V4(y)) => *x == *y,
        (IpAddress::V6(x), IpAddress::V6(y)) => address::same_groups(x, y),
        _ => false,
    }
}

fn is_v4(a: &IpAddress) -> (r: bool)
    ensures
        r == (a@ is V4),
{
    match a {
        IpAddress::V4(_) => true,
        IpAddress::V6(_) => false,
    }
}

/// Whether the two texts, as bind addresses, overlap.
pub fn addresses_overlap(left: &str, right: &str) -> (r: bool)
    ensures
        r == overlap(binding(left@), binding(right@)),
{
    match (BindingClass::of(left), BindingClass::of(right)) {
        (BindingClass::Localhost, BindingClass::Localhost) => true,
        (BindingClass::Localhost, BindingClass::At(x)) => x.is_loopback() || x.is_unspecified(),
        (BindingClass::At(x), BindingClass::Localhost) => x.is_loopback() || x.is_unspecified(),
        (BindingClass::At(x), BindingClass::At(y)) => is_v4(&x) == is_v4(&y) && (same_address(
            &x,
            &y,
        ) || x.is_unspecified() || y.is_unspecified()),
        _ => true,
    }
}

pub fn bind_addresses_overlap(left: &BindAddress, right: &BindAddress) -> (r: bool)
    ensures
        r == overlap(binding(left@), binding(right@)),
{
    addresses_overlap(left.as_str(), right.as_str())
}

// ---------------------------------------------------------------------------
// Sets of rules
// ---------------------------------------------------------------------------
/// Both rules listen locally, on one port and on overlapping addresses.
pub open spec fn clash(a: rule::RuleModel, b: rule::RuleModel) -> bool {
    match (a.listener(), b.listener()) {
        (Some(x), Some(y)) => x.1 == y.1 && overlap(binding(x.0), binding(y.0)),
        _ => false,
    }
}

pub open spec fn name_taken(earlier: Seq<rule::RuleModel>, m: rule::RuleModel) -> bool {
    exists|i: int| 0 <= i < earlier.len() && (#[trigger] earlier[i]).name == m.name
}

pub open spec fn listener_taken(earlier: Seq<rule::RuleModel>, m: rule::RuleModel) -> bool {
    exists|i: int| 0 <= i < earlier.len() && clash(m, #[trigger] earlier[i])
}

/// What is wrong with `m` behind the rules `earlier`.
pub open spec fn errors_of(earlier: Seq<rule::RuleModel>, m: rule::RuleModel) -> Seq<Refusal> {
    let names = if name_taken(earlier, m) {
        seq![Refusal::DuplicateName { name: m.name }]
    } else {
        Seq::empty()
    };
    let listeners = if listener_taken(earlier, m) {
        seq![Refusal::DuplicateLocalListener { address: (m.listener()->0).0, port: (m.listener()->0).1 }]
    } else {
        Seq::empty()
    };
    names + listeners
}

/// What is wrong with each rule, in order, seen from the rules before it.
pub open spec fn rule_set_errors(rules: Seq<rule::RuleModel>) -> Seq<Refusal>
    decreases rules.len(),
{
    if rules.len() == 0 {
        Seq::empty()
    } else {
        rule_set_errors(rules.drop_last()) + errors_of(rules.drop_last(), rules.last())
    }
}

/// No two rules share a name or a local listener.
pub open spec fn rule_set_valid(rules: Seq<rule::RuleModel>) -> bool {
    forall|i: int, j: int|
        0 <= i < j < rules.len() ==> (#[trigger] rules[i]).name != (#[trigger] rules[j]).name
            && !clash(rules[j], rules[i])
}

/// A set of rules is free of errors exactly if no two rules share a name or a local listener.
pub proof fn errors_mean_invalid(rules: Seq<rule::RuleModel>)
    ensures
        rule_set_errors(rules).len() == 0 <==> rule_set_valid(rules),
    decreases rules.len(),
{
    if rules.len() > 0 {
        let earlier = rules.drop_last();
        let m = rules.last();
        errors_mean_invalid(earlier);
        assert forall|i: int| 0 <= i < earlier.len() implies #[trigger] earlier[i] == rules[i] by {}
        if rule_set_valid(rules) {
            assert(rule_set_valid(earlier));
            assert(!name_taken(earlier, m));
            assert(!listener_taken(earlier, m));
        }
        if rule_set_errors(rules).len() == 0 {
            assert(rule_set_errors(earlier).len() == 0);
            assert(errors_of(earlier, m).len() == 0);
            assert(!name_taken(earlier, m) && !listener_taken(earlier, m));
            assert forall|i: int, j: int| 0 <= i < j < rules.len() implies (#[trigger] rules[i]).name
                != (#[trigger] rules[j]).name && !clash(rules[j], rules[i]) by {
                assert(earlier[i] == rules[i]);
                if j < earlier.len() {
                    assert(earlier[j] == rules[j]);
                }
            }
        }
    }
}

/// Taking a rule out of a valid set leaves a valid set.
pub proof fn removal_keeps_validity(rules: Seq<rule::RuleModel>, k: int)
    requires
        rule_set_valid(rules),
        0 <= k < rules.len(),
    ensures
        rule_set_valid(rules.remove(k)),
{
    let left = rules.remove(k);
    assert forall|i: int, j: int| 0 <= i < j < left.len() implies (#[trigger] left[i]).name != (
    #[trigger] left[j]).name && !clash(left[j], left[i]) by {
        let a = if i < k {
            i
        } else {
            i + 1
        };
        let b = if j < k {
            j
        } else {
            j + 1
        };
        assert(left[i] == rules[a] && left[j] == rules[b]);
    }
}

/// A rule with a new name and a free listener can be added to a valid set.
pub proof fn addition_keeps_validity(rules: Seq<rule::RuleModel>, m: rule::RuleModel)
    requires
        rule_set_valid(rules),
        !name_taken(rules, m),
        !listener_taken(rules, m),
    ensures
        rule_set_valid(rules.push(m)),
{
    let all = rules.push(m);
    assert forall|i: int, j: int| 0 <= i < j < all.len() implies (#[trigger] all[i]).name != (
    #[trigger] all[j]).name && !clash(all[j], all[i]) by {
        assert(all[i] == rules[i]);
        if j < rules.len() {
            assert(all[j] == rules[j]);
        }
    }
}

fn earlier_name(rules: &[Rule], index: usize) -> (r: bool)
    requires
        index < rules@.len(),
    ensures
        r == name_taken(rule::models(rules@).take(index as int), rules@[index as int]@),
{
    let ghost earlier = rule::models(rules@).take(index as int);
    let mut i: usize = 0;
    while i < index
        invariant
            i <= index < rules@.len(),
            earlier == rule::models(rules@).take(index as int),
            forall|k: int| 0 <= k < i ==> (#[trigger] earlier[k]).name != rules@[index as int]@.name,
        decreases index - i,
    {
        assert(earlier[i as int] == rules@[i as int]@);
        if text::same(rules[i].name().as_str(), rules[index].name().as_str()) {
            return true;
        }
        i = i + 1;
    }
    false
}

fn earlier_listener(rules: &[Rule], index: usize) -> (r: bool)
    requires
        index < rules@.len(),
    ensures
        r == listener_taken(rule::models(rules@).take(index as int), rules@[index as int]@),
{
    let ghost earlier = rule::models(rules@).take(index as int);
    let mut i: usize = 0;
    while i < index
        invariant
            i <= index < rules@.len(),
            earlier == rule::models(rules@).take(index as int),
            forall|k: int| 0 <= k < i ==> !clash(rules@[index as int]@, #[trigger] earlier[k]),
        decreases index - i,
    {
        assert(earlier[i as int] == rules@[i as int]@);
        if rules_clash(&rules[index], &rules[i]) {
            return true;
        }
        i = i + 1;
    }
    false
}

/// Whether the two rules would listen on the same local socket.
pub fn rules_clash(a: &Rule, b: &Rule) -> (r: bool)
    ensures
        r == clash(a@, b@),
{
    match (a.local_listener(), b.local_listener()) {
        (Some((x, p)), Some((y, q))) => p.get() == q.get() && bind_addresses_overlap(x, y),
        _ => false,
    }
}

/// Reports every name and every local listener that an earlier rule already has.
pub fn validate_rule_set(rules: &[Rule]) -> (r: Result<(), Vec<ValidationError>>)
    ensures
        match r {
            Ok(_) => rule_set_errors(rule::models(rules@)).len() == 0 && rule_set_valid(
                rule::models(rules@),
            ),
            Err(errors) => errors@.len() > 0 && refusals(errors@) == rule_set_errors(
                rule::models(rules@),
            ) && !rule_set_valid(rule::models(rules@)),
        },
{
    let ghost all = rule::models(rules@);
    let mut errors: Vec<ValidationError> = Vec::new();
    let mut index: usize = 0;
    assert(all.take(0) =~= Seq::<rule::RuleModel>::empty());
    assert(refusals(errors@) =~= Seq::<Refusal>::empty());
    while index < rules.len()
        invariant
            index <= rules@.len(),
            all == rule::models(rules@),
            refusals(errors@) == rule_set_errors(all.take(index as int)),
        decreases rules.len() - index,
    {
        let ghost earlier = all.take(index as int);
        let ghost m = all[index as int];
        let ghost start = refusals(errors@);
        assert(all.take(index as int + 1).drop_last() =~= earlier);
        assert(all.take(index as int + 1).last() == m);
        assert(m == rules@[index as int]@);
        if earlier_name(rules, index) {
            let error = ValidationError::DuplicateName {
                name: rules[index].name().as_str().to_owned(),
            };
            assert(refusals(errors@.push(error)) =~= start.push(error@));
            errors.push(error);
        }
        let ghost middle = refusals(errors@);
        if earlier_listener(rules, index) {
            match rules[index].local_listener() {
                Some((address, port)) => {
                    let error = ValidationError::DuplicateLocalListener {
                        address: address.as_str().to_owned(),
                        port: port.get(),
                    };
                    assert(refusals(errors@.push(error)) =~= middle.push(error@));
                    errors.push(error);
                },
                None => {},
            }
        }
        assert(refusals(errors@) =~= start + errors_of(earlier, m));
        index = index + 1;
    }
    assert(all.take(all.len() as int) =~= all);
    proof {
        errors_mean_invalid(all);
    }
    if errors.len() == 0 {
        Ok(())
    } else {
        Err(errors)
    }
}

// ---------------------------------------------------------------------------
// What is refused, and why
// ---------------------------------------------------------------------------
/// Two rules with a local listener, be it of a local or of a dynamic forwarding, on one port and
/// on overlapping addresses never stand together in a valid set. In particular no listener can be
/// used twice.
pub proof fn listeners_are_used_once(rules: Seq<rule::RuleModel>, i: int, j: int)
    requires
        0 <= i < j < rules.len(),
    ensures
        ({
            let a = rules[i];
            let b = rules[j];
            let listens = |m: rule::RuleModel| !(m.forwarding is Remote);
            let meet = a.forwarding.bind_port() == b.forwarding.bind_port() && overlap(
                binding(a.forwarding.bind_address()),
                binding(b.forwarding.bind_address()),
            );
            &&& listens(a) && listens(b) && meet ==> !rule_set_valid(rules)
            &&& listens(a) && listens(b) && meet ==> rule_set_errors(rules).len() > 0
            &&& listens(a) && b.forwarding == a.forwarding ==> !rule_set_valid(rules)
            &&& listens(a) <==> clash(a, a)
            &&& clash(a, b) == clash(b, a)
            &&& clash(a, b) ==> listens(a) && listens(b) && meet
        }),
{
    let a = rules[i];
    let b = rules[j];
    overlap_is_reflexive(binding(a.forwarding.bind_address()));
    overlap_is_symmetric(
        binding(a.forwarding.bind_address()),
        binding(b.forwarding.bind_address()),
    );
    errors_mean_invalid(rules);
    if clash(b, a) {
        assert(!rule_set_valid(rules));
    }
}

/// No name is used twice.
pub proof fn names_are_used_once(rules: Seq<rule::RuleModel>, i: int, j: int)
    requires
        0 <= i < j < rules.len(),
        rules[i].name == rules[j].name,
    ensures
        !rule_set_valid(rules),
        rule_set_errors(rules).len() > 0,
{
    errors_mean_invalid(rules);
}

/// Rules with different names whose listeners do not meet are valid together. Remote forwardings
/// have no listener on this side, so only their names count.
pub proof fn nothing_else_is_refused(rules: Seq<rule::RuleModel>)
    requires
        forall|i: int, j: int|
            0 <= i < j < rules.len() ==> {
                let a = #[trigger] rules[i];
                let b = #[trigger] rules[j];
                &&& a.name != b.name
                &&& a.forwarding is Remote || b.forwarding is Remote || a.forwarding.bind_port()
                    != b.forwarding.bind_port() || !overlap(
                    binding(a.forwarding.bind_address()),
                    binding(b.forwarding.bind_address()),
                )
            },
    ensures
        rule_set_valid(rules),
        rule_set_errors(rules).len() == 0,
{
    assert forall|i: int, j: int| 0 <= i < j < rules.len() implies (#[trigger] rules[i]).name != (
    #[trigger] rules[j]).name && !clash(rules[j], rules[i]) by {
        overlap_is_symmetric(
            binding(rules[i].forwarding.bind_address()),
            binding(rules[j].forwarding.bind_address()),
        );
    }
    errors_mean_invalid(rules);
}

/// A rule behind others adds an error for its name if one of them has it, and then an error for
/// its own listener if one of theirs is in its way. What was wrong with the others stays.
pub proof fn each_repetition_is_reported(earlier: Seq<rule::RuleModel>, m: rule::RuleModel)
    ensures
        ({
            let known = rule_set_errors(earlier);
            let all = rule_set_errors(earlier.push(m));
            let named = exists|i: int|
                0 <= i < earlier.len() && (#[trigger] earlier[i]).name == m.name;
            let heard = exists|i: int|
                0 <= i < earlier.len() && !((#[trigger] earlier[i]).forwarding is Remote)
                    && earlier[i].forwarding.bind_port() == m.forwarding.bind_port() && overlap(
                    binding(earlier[i].forwarding.bind_address()),
                    binding(m.forwarding.bind_address()),
                );
            let name_error = Refusal::DuplicateName { name: m.name };
            let listener_error = Refusal::DuplicateLocalListener {
                address: m.forwarding.bind_address(),
                port: m.forwarding.bind_port(),
            };
            let listening = heard && !(m.forwarding is Remote);
            &&& named && listening ==> all == known.push(name_error).push(listener_error)
            &&& named && !listening ==> all == known.push(name_error)
            &&& !named && listening ==> all == known.push(listener_error)
            &&& !named && !listening ==> all == known
        }),
{
    assert(earlier.push(m).drop_last() =~= earlier);
    assert(name_taken(earlier, m) <==> exists|i: int|
        0 <= i < earlier.len() && (#[trigger] earlier[i]).name == m.name);
    let heard = exists|i: int|
        0 <= i < earlier.len() && !((#[trigger] earlier[i]).forwarding is Remote)
            && earlier[i].forwarding.bind_port() == m.forwarding.bind_port() && overlap(
            binding(earlier[i].forwarding.bind_address()),
            binding(m.forwarding.bind_address()),
        );
    if heard && !(m.forwarding is Remote) {
        let i = choose|i: int|
            0 <= i < earlier.len() && !((#[trigger] earlier[i]).forwarding is Remote)
                && earlier[i].forwarding.bind_port() == m.forwarding.bind_port() && overlap(
                binding(earlier[i].forwarding.bind_address()),
                binding(m.forwarding.bind_address()),
            );
        overlap_is_symmetric(
            binding(earlier[i].forwarding.bind_address()),
            binding(m.forwarding.bind_address()),
        );
        assert(clash(m, earlier[i]));
        assert(listener_taken(earlier, m));
    }
    if listener_taken(earlier, m) {
        let i = choose|i: int| 0 <= i < earlier.len() && clash(m, #[trigger] earlier[i]);
        overlap_is_symmetric(
            binding(earlier[i].forwarding.bind_address()),
            binding(m.forwarding.bind_address()),
        );
        assert(heard);
    }
    let known = rule_set_errors(earlier);
    assert(known + Seq::<Refusal>::empty() =~= known);
    assert(rule_set_errors(earlier.push(m)) =~= known + errors_of(earlier, m));
}

/// `*` meets every address, and so does what is no address at all. `localhost` meets itself, the
/// loopback addresses and the addresses that stand for every interface. Of two addresses one must
/// be the other or stand for every interface of the same family.
pub proof fn overlapping_addresses(a: Seq<char>, b: Seq<char>)
    ensures
        overlap(binding("*"@), binding(a)),
        overlap(binding("localhost"@), binding("localhost"@)),
        a != "*"@ && a != "localhost"@ && address::address(a) is None ==> overlap(
            binding(a),
            binding(b),
        ),
        a != "*"@ && a != "localhost"@ ==> (address::address(a) matches Some(x) ==> {
            &&& overlap(binding("localhost"@), binding(a)) <==> address::loopback(x)
                || address::unspecified(x)
            &&& b != "*"@ && b != "localhost"@ ==> (address::address(b) matches Some(y) ==> (overlap(
                binding(a),
                binding(b),
            ) <==> x == y || (x is V4 && y is V4 || x is V6 && y is V6) && (address::unspecified(x)
                || address::unspecified(y))))
        }),
{
    reveal_strlit("*");
    reveal_strlit("localhost");
    assert("*"@.len() == 1 && "localhost"@.len() == 9);
}

/// A text is accepted if it is not empty, has no white space at its ends, is not too long, holds no
/// control character and, where spaces are not allowed, no white space. What is reported is the
/// first of these that fails.
pub proof fn texts_are_refused_in_order(
    s: Seq<char>,
    field: Field,
    max_characters: nat,
    allow_spaces: bool,
)
    ensures
        ({
            let r = text_refusal(s, field, max_characters, allow_spaces);
            let surrounded = s.len() > 0 && (text::white_space(s[0]) || text::white_space(
                s.last(),
            ));
            let controlled = exists|i: int| 0 <= i < s.len() && text::control(#[trigger] s[i]);
            let spaced = exists|i: int| 0 <= i < s.len() && text::white_space(#[trigger] s[i]);
            &&& r is None <==> s.len() > 0 && !surrounded && s.len() <= max_characters
                && !controlled && (allow_spaces || !spaced)
            &&& s.len() == 0 ==> r == Some(Refusal::Empty { field })
            &&& surrounded ==> r == Some(Refusal::SurroundingWhitespace { field })
            &&& s.len() > 0 && !surrounded ==> {
                &&& s.len() > max_characters ==> r == Some(
                    Refusal::TooLong { field, max_characters },
                )
                &&& s.len() <= max_characters && controlled ==> r == Some(
                    Refusal::ControlCharacter { field },
                )
                &&& s.len() <= max_characters && !controlled && !allow_spaces && spaced ==> r
                    == Some(Refusal::Whitespace { field })
            }
        }),
{
    if s.len() > 0 {
        assert(text::trim(s) == s <==> !text::white_space(s[0]) && !text::white_space(s.last())) by {
            text::trimmed_texts_stay(s);
        }
    }
    assert(some_control(s) == exists|i: int| 0 <= i < s.len() && text::control(#[trigger] s[i]));
    assert(some_space(s) == exists|i: int|
        0 <= i < s.len() && text::white_space(#[trigger] s[i]));
}

/// The sentence for a refusal names the field, or the value that was refused.
pub proof fn refusals_are_explained(field: Field, value: Seq<char>, number: nat, port: u16)
    ensures
        refusal_message(Refusal::Empty { field }) == field.shown() + " must not be empty"@,
        refusal_message(Refusal::SurroundingWhitespace { field }) == field.shown()
            + " must not have leading or trailing whitespace"@,
        refusal_message(Refusal::Whitespace { field }) == field.shown()
            + " must not contain whitespace"@,
        refusal_message(Refusal::ControlCharacter { field }) == field.shown()
            + " must not contain control characters"@,
        refusal_message(Refusal::TooLong { field, max_characters: number }) == field.shown()
            + " must be at most "@ + text::decimal(number) + " characters"@,
        refusal_message(Refusal::LooksLikeOption { field }) == field.shown()
            + " must not look like a command-line option"@,
        refusal_message(Refusal::PortZero { field }) == "port for "@ + field.shown()
            + " must be in the range 1..=65535"@,
        refusal_message(Refusal::InvalidBindAddress { value }) == "invalid bind address: "@ + value,
        refusal_message(Refusal::InvalidDestinationHost { value })
            == "invalid forwarding destination host: "@ + value,
        refusal_message(Refusal::DuplicateName { name: value }) == "duplicate rule name: "@ + value,
        refusal_message(Refusal::DuplicateLocalListener { address: value, port })
            == "duplicate local listener: "@ + value + ":"@ + text::decimal(port as nat),
        Field::RuleName.shown() == "RuleName"@,
        Field::SshHostAlias.shown() == "SshHostAlias"@,
        Field::BindPort.shown() == "BindPort"@,
        Field::DestinationHost.shown() == "DestinationHost"@,
        Field::DestinationPort.shown() == "DestinationPort"@,
{
}

/// What an error says is what it holds.
pub proof fn errors_say_what_they_hold(error: ValidationError)
    ensures
        match error {
            ValidationError::Empty { field } => error@ == (Refusal::Empty { field }),
            ValidationError::SurroundingWhitespace { field } => error@
                == (Refusal::SurroundingWhitespace { field }),
            ValidationError::Whitespace { field } => error@ == (Refusal::Whitespace { field }),
            ValidationError::ControlCharacter { field } => error@ == (Refusal::ControlCharacter {
                field,
            }),
            ValidationError::TooLong { field, max_characters } => error@ == (Refusal::TooLong {
                field,
                max_characters: max_characters as nat,
            }),
            ValidationError::LooksLikeOption { field } => error@ == (Refusal::LooksLikeOption {
                field,
            }),
            ValidationError::PortZero { field } => error@ == (Refusal::PortZero { field }),
            ValidationError::InvalidBindAddress { value } => error@
                == (Refusal::InvalidBindAddress { value: value@ }),
            ValidationError::InvalidDestinationHost { value } => error@
                == (Refusal::InvalidDestinationHost { value: value@ }),
            ValidationError::DuplicateName { name } => error@ == (Refusal::DuplicateName {
                name: name@,
            }),
            ValidationError::DuplicateLocalListener { address, port } => error@
                == (Refusal::DuplicateLocalListener { address: address@, port }),
        },
{
}

} // verus!
