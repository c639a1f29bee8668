//! Between stored rules and valid rules.
use super::store::StoreError;
use super::{ConfigV1, ConfigV2, Rule, Settings, SCHEMA_VERSION, SETTINGS_SCHEMA_VERSION};
use crate::config;
use crate::domain::rule;
use crate::domain::rule::{Forwarding, Rule as DomainRule, RuleId};
use crate::domain::validation;
use crate::domain::validation::{validate_rule_set, ValidationError};
use vstd::prelude::*;
use vstd::string::*;

verus! {

impl DomainRule {
    /// A stored rule that is valid becomes a rule that says the same.
    pub fn try_from(value: Rule) -> (r: Result<Self, ValidationError>)
        ensures
            match r {
                Ok(checked) => rule::rule_refusal(value@) is None && checked@ == value@,
                Err(error) => rule::rule_refusal(value@) == Some(error@),
            },
    {
        DomainRule::checked(&value)
    }

    /// As `try_from`, on a rule that stays with its owner.
    pub fn checked(value: &Rule) -> (r: Result<Self, ValidationError>)
        ensures
            match r {
                Ok(checked) => rule::rule_refusal(value@) is None && checked@ == value@,
                Err(error) => rule::rule_refusal(value@) == Some(error@),
            },
    {
        let (rule, bind, auto_start, reconnect) = match value {
            Rule::Local {
                id,
                name,
                ssh_host_alias,
                bind_address,
                bind_port,
                destination_host,
                destination_port,
                auto_start,
                reconnect,
            } => (
                DomainRule::local(
                    RuleId::from_uuid(*id),
                    name.as_str(),
                    ssh_host_alias.as_str(),
                    *bind_port,
                    destination_host.as_str(),
                    *destination_port,
                )?,
                bind_address,
                *auto_start,
                *reconnect,
            ),
            Rule::Remote {
                id,
                name,
                ssh_host_alias,
                bind_address,
                bind_port,
                destination_host,
                destination_port,
                auto_start,
                reconnect,
            } => (
                DomainRule::remote(
                    RuleId::from_uuid(*id),
                    name.as_str(),
                    ssh_host_alias.as_str(),
                    *bind_port,
                    destination_host.as_str(),
                    *destination_port,
                )?,
                bind_address,
                *auto_start,
                *reconnect,
            ),
            Rule::Dynamic {
                id,
                name,
                ssh_host_alias,
                bind_address,
                bind_port,
                auto_start,
                reconnect,
            } => (
                DomainRule::dynamic(
                    RuleId::from_uuid(*id),
                    name.as_str(),
                    ssh_host_alias.as_str(),
                    *bind_port,
                )?,
                bind_address,
                *auto_start,
                *reconnect,
            ),
        };
        let rule = rule.with_bind_address(bind.as_str())?;
        Ok(rule.with_policy(auto_start, reconnect))
    }
}

impl Rule {
    /// The stored form of a rule.
    pub fn from(value: &DomainRule) -> (r: Self)
        ensures
            r@ == value@,
    {
        let id: u128 = value.id().as_uuid();
        let name = value.name().as_str().to_owned();
        let ssh_host_alias = value.ssh_host_alias().as_str().to_owned();
        let auto_start = value.auto_start();
        let reconnect = value.reconnect();
        match value.forwarding() {
            Forwarding::Local(v) => Rule::Local {
                id,
                name,
                ssh_host_alias,
                bind_address: v.bind_address().to_string(),
                bind_port: v.bind_port().get(),
                destination_host: v.destination_host().to_string(),
                destination_port: v.destination_port().get(),
                auto_start,
                reconnect,
            },
            Forwarding::Remote(v) => Rule::Remote {
                id,
                name,
                ssh_host_alias,
                bind_address: v.bind_address().to_string(),
                bind_port: v.bind_port().get(),
                destination_host: v.destination_host().to_string(),
                destination_port: v.destination_port().get(),
                auto_start,
                reconnect,
            },
            Forwarding::Dynamic(v) => Rule::Dynamic {
                id,
                name,
                ssh_host_alias,
                bind_address: v.bind_address().to_string(),
                bind_port: v.bind_port().get(),
                auto_start,
                reconnect,
            },
        }
    }
}

/// The refusal of the first stored rule that is not valid.
pub open spec fn first_refusal(rules: Seq<rule::RuleModel>) -> Option<validation::Refusal>
    decreases rules.len(),
{
    if rules.len() == 0 {
        None
    } else {
        rule::first(first_refusal(rules.drop_last()), rule::rule_refusal(rules.last()))
    }
}

/// What comes of stored rules: each must be valid, and then all of them together.
pub open spec fn read_rules(
    rules: Seq<rule::RuleModel>,
    r: Result<Seq<rule::RuleModel>, StoreError>,
) -> bool {
    match r {
        Ok(read) => first_refusal(rules) is None && validation::rule_set_valid(rules) && read
            == rules,
        Err(StoreError::InvalidRule(error)) => first_refusal(rules) == Some(error@),
        Err(StoreError::InvalidRules(errors)) => {
            &&& first_refusal(rules) is None
            &&& !validation::rule_set_valid(rules)
            &&& validation::refusals(errors@) == validation::rule_set_errors(rules)
        },
        Err(_) => false,
    }
}

/// No rule is refused exactly if every rule is valid.
pub proof fn no_refusal_means_all_valid(rules: Seq<rule::RuleModel>)
    ensures
        first_refusal(rules) is None <==> forall|i: int|
            0 <= i < rules.len() ==> rule::valid_rule(#[trigger] rules[i]),
    decreases rules.len(),
{
    if rules.len() > 0 {
        let earlier = rules.drop_last();
        no_refusal_means_all_valid(earlier);
        assert forall|i: int| 0 <= i < earlier.len() implies #[trigger] earlier[i] == rules[i] by {}
        if first_refusal(rules) is None {
            assert forall|i: int| 0 <= i < rules.len() implies rule::valid_rule(
                #[trigger] rules[i],
            ) by {
                if i < earlier.len() {
                    assert(rule::valid_rule(earlier[i]));
                }
            }
        }
    }
}

/// A refused rule decides for all rules, whatever follows it.
pub proof fn refusal_of_prefix(rules: Seq<rule::RuleModel>, n: int)
    requires
        0 <= n <= rules.len(),
        first_refusal(rules.take(n)) is Some,
    ensures
        first_refusal(rules) == first_refusal(rules.take(n)),
    decreases rules.len() - n,
{
    if n < rules.len() {
        assert(rules.take(n + 1).drop_last() =~= rules.take(n));
        refusal_of_prefix(rules, n + 1);
    } else {
        assert(rules.take(n) =~= rules);
    }
}

/// Checks each rule by itself.
pub fn checked_each(rules: &Vec<Rule>) -> (r: Result<Vec<DomainRule>, ValidationError>)
    ensures
        match r {
            Ok(read) => first_refusal(config::wires(rules@)) is None && rule::models(read@)
                == config::wires(rules@),
            Err(error) => first_refusal(config::wires(rules@)) == Some(error@),
        },
{
    let ghost all = config::wires(rules@);
    let mut read: Vec<DomainRule> = Vec::new();
    let mut i: usize = 0;
    assert(all.take(0) =~= Seq::<rule::RuleModel>::empty());
    while i < rules.len()
        invariant
            i <= rules@.len(),
            all == config::wires(rules@),
            rule::models(read@) =~= all.take(i as int),
            first_refusal(all.take(i as int)) is None,
        decreases rules.len() - i,
    {
        assert(all.take(i as int + 1).drop_last() =~= all.take(i as int));
        assert(all.take(i as int + 1).last() == rules@[i as int]@);
        match DomainRule::checked(&rules[i]) {
            Ok(rule) => {
                read.push(rule);
            },
            Err(error) => {
                proof {
                    refusal_of_prefix(all, i as int + 1);
                }
                return Err(error);
            },
        }
        i = i + 1;
    }
    assert(all.take(all.len() as int) =~= all);
    Ok(read)
}

fn checked_rules(rules: &Vec<Rule>) -> (r: Result<Vec<DomainRule>, StoreError>)
    ensures
        read_rules(
            config::wires(rules@),
            match r {
                Ok(read) => Ok(rule::models(read@)),
                Err(error) => Err(error),
            },
        ),
{
    let read = match checked_each(rules) {
        Ok(read) => read,
        Err(error) => {
            return Err(StoreError::InvalidRule(error));
        },
    };
    match validate_rule_set(read.as_slice()) {
        Ok(_) => Ok(read),
        Err(errors) => Err(StoreError::InvalidRules(errors)),
    }
}

/// The stored forms of rules.
pub fn stored_rules(rules: &[DomainRule]) -> (r: Vec<Rule>)
    ensures
        config::wires(r@) == rule::models(rules@),
{
    let mut stored: Vec<Rule> = Vec::new();
    let mut i: usize = 0;
    while i < rules.len()
        invariant
            i <= rules@.len(),
            config::wires(stored@) =~= rule::models(rules@).take(i as int),
        decreases rules.len() - i,
    {
        let ghost before = config::wires(stored@);
        let wire = Rule::from(&rules[i]);
        stored.push(wire);
        assert(config::wires(stored@) =~= before.push(wire@));
        assert(rule::models(rules@).take(i as int + 1) =~= rule::models(rules@).take(i as int).push(
            rules@[i as int]@,
        ));
        i = i + 1;
    }
    assert(rule::models(rules@).take(rules@.len() as int) =~= rule::models(rules@));
    stored
}

impl ConfigV1 {
    /// The rules of a configuration in schema 1.
    pub fn into_domain(self) -> (r: Result<Vec<DomainRule>, StoreError>)
        ensures
            if self.schema_version != 1 {
                r == Err::<Vec<DomainRule>, StoreError>(
                    StoreError::UnsupportedSchema(self.schema_version),
                )
            } else {
                read_rules(
                    config::wires(self.rules@),
                    match r {
                        Ok(read) => Ok(rule::models(read@)),
                        Err(error) => Err(error),
                    },
                )
            },
    {
        if self.schema_version != 1 {
            return Err(StoreError::UnsupportedSchema(self.schema_version));
        }
        checked_rules(&self.rules)
    }

    /// The configuration in schema 1 that holds `rules`.
    pub fn from_domain(rules: &[DomainRule]) -> (r: Result<Self, StoreError>)
        ensures
            match r {
                Ok(stored) => {
                    &&& validation::rule_set_valid(rule::models(rules@))
                    &&& stored.schema_version == SCHEMA_VERSION
                    &&& config::wires(stored.rules@) == rule::models(rules@)
                },
                Err(StoreError::InvalidRules(errors)) => {
                    &&& !validation::rule_set_valid(rule::models(rules@))
                    &&& validation::refusals(errors@) == validation::rule_set_errors(
                        rule::models(rules@),
                    )
                },
                Err(_) => false,
            },
    {
        match validate_rule_set(rules) {
            Ok(_) => Ok(ConfigV1 { schema_version: SCHEMA_VERSION, rules: stored_rules(rules) }),
            Err(errors) => Err(StoreError::InvalidRules(errors)),
        }
    }
}

impl ConfigV2 {
    /// The rules and settings of a configuration in schema 2.
    pub fn into_domain(self) -> (r: Result<(Vec<DomainRule>, Settings), StoreError>)
        ensures
            if self.schema_version != SETTINGS_SCHEMA_VERSION {
                r == Err::<(Vec<DomainRule>, Settings), StoreError>(
                    StoreError::UnsupportedSchema(self.schema_version),
                )
            } else {
                &&& r is Ok ==> (r->Ok_0).1 == self.settings
                &&& read_rules(
                    config::wires(self.rules@),
                    match r {
                        Ok(read) => Ok(rule::models(read.0@)),
                        Err(error) => Err(error),
                    },
                )
            },
    {
        if self.schema_version != SETTINGS_SCHEMA_VERSION {
            return Err(StoreError::UnsupportedSchema(self.schema_version));
        }
        match checked_rules(&self.rules) {
            Ok(rules) => Ok((rules, self.settings)),
            Err(error) => Err(error),
        }
    }

    /// The configuration in schema 2 that holds `rules` and `settings`.
    pub fn from_domain(rules: &[DomainRule], settings: Settings) -> (r: Result<Self, StoreError>)
        ensures
            match r {
                Ok(stored) => {
                    &&& validation::rule_set_valid(rule::models(rules@))
                    &&& stored.schema_version == SETTINGS_SCHEMA_VERSION
                    &&& config::wires(stored.rules@) == rule::models(rules@)
                    &&& stored.settings == settings
                },
                Err(StoreError::InvalidRules(errors)) => {
                    &&& !validation::rule_set_valid(rule::models(rules@))
                    &&& validation::refusals(errors@) == validation::rule_set_errors(
                        rule::models(rules@),
                    )
                },
                Err(_) => false,
            },
    {
        match validate_rule_set(rules) {
            Ok(_) => Ok(
                ConfigV2 {
                    schema_version: SETTINGS_SCHEMA_VERSION,
                    rules: stored_rules(rules),
                    settings,
                },
            ),
            Err(errors) => Err(StoreError::InvalidRules(errors)),
        }
    }
}

/// Storing valid rules and reading them back gives the same rules: a configuration that holds
/// what a valid set of rules says is read without an error, and nothing else can come of it.
pub proof fn stored_rules_read_back(
    rules: Seq<rule::RuleModel>,
    r: Result<Seq<rule::RuleModel>, StoreError>,
)
    requires
        forall|i: int| 0 <= i < rules.len() ==> rule::valid_rule(#[trigger] rules[i]),
        validation::rule_set_valid(rules),
        read_rules(rules, r),
    ensures
        r == Ok::<Seq<rule::RuleModel>, StoreError>(rules),
{
    no_refusal_means_all_valid(rules);
}

/// Stored rules are refused for the first one that is invalid by itself; only if all are valid by
/// themselves does it count what they are together. What can be read is read unchanged.
pub proof fn stored_rules_are_refused_for_a_reason(
    rules: Seq<rule::RuleModel>,
    r: Result<Seq<rule::RuleModel>, StoreError>,
    i: int,
)
    requires
        read_rules(rules, r),
    ensures
        r is Ok <==> (forall|k: int| 0 <= k < rules.len() ==> rule::valid_rule(#[trigger] rules[k]))
            && validation::rule_set_valid(rules),
        r is Ok ==> r->Ok_0 == rules,
        0 <= i < rules.len() && !rule::valid_rule(rules[i]) && (forall|k: int|
            0 <= k < i ==> rule::valid_rule(#[trigger] rules[k])) ==> r is Err && (
        r->Err_0 matches StoreError::InvalidRule(error) && Some(error@) == rule::rule_refusal(
            rules[i],
        )),
        r matches Err(StoreError::InvalidRules(errors)) ==> validation::refusals(errors@)
            == validation::rule_set_errors(rules) && errors@.len() > 0,
{
    no_refusal_means_all_valid(rules);
    validation::errors_mean_invalid(rules);
    if 0 <= i < rules.len() && !rule::valid_rule(rules[i]) && (forall|k: int|
        0 <= k < i ==> rule::valid_rule(#[trigger] rules[k])) {
        let before = rules.take(i);
        assert forall|k: int| 0 <= k < before.len() implies rule::valid_rule(#[trigger] before[k]) by {
            assert(before[k] == rules[k]);
        }
        no_refusal_means_all_valid(before);
        assert(rules.take(i + 1).drop_last() =~= before);
        assert(rules.take(i + 1).last() == rules[i]);
        refusal_of_prefix(rules, i + 1);
    }
}

} // verus!
