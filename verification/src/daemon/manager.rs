//! Daemon-owned desired configuration and idempotent runtime intent.
use crate::config;
use crate::config::store;
use crate::config::store::StoreError;
use crate::config::conversion;
use crate::config::{ConfigV2, Rule as WireRule, Settings};
use crate::daemon::process;
use crate::domain::rule;
use crate::domain::rule::Rule;
use crate::domain::validation;
use crate::domain::validation::validate_rule_set;
use crate::ipc;
use crate::ipc::{
    Announcement, Command, ErrorCode, EventKind, ForwardStatus, ProtocolError, Reply, RunState,
    Selector,
};
use crate::text;
use vstd::prelude::*;
use vstd::string::*;

verus! {

/// An attempt at a rule: under way, or up. The number is that of the attempt.
#[derive(Clone, Copy, Debug, PartialEq, Eq, Structural)]
pub enum Attempt {
    Starting(u128),
    Active(u128),
}

/// The rules that are wanted and the attempts at those that run.
#[derive(Debug)]
pub struct DaemonManager {
    rules: Vec<Rule>,
    settings: Settings,
    running: Vec<(u128, Attempt)>,
}

/// What a manager knows.
#[verifier::ext_equal]
pub struct ManagerModel {
    pub rules: Seq<rule::RuleModel>,
    pub settings: Settings,
    pub running: Seq<(u128, Attempt)>,
}

impl View for DaemonManager {
    type V = ManagerModel;

    closed spec fn view(&self) -> ManagerModel {
        ManagerModel {
            rules: rule::models(self.rules@),
            settings: self.settings,
            running: self.running@,
        }
    }
}

// ---------------------------------------------------------------------------
// Attempts by rule
// ---------------------------------------------------------------------------
/// The attempt at a rule, if there is one.
pub open spec fn attempt_at(running: Seq<(u128, Attempt)>, id: u128) -> Option<Attempt>
    decreases running.len(),
{
    if running.len() == 0 {
        None
    } else if running.last().0 == id {
        Some(running.last().1)
    } else {
        attempt_at(running.drop_last(), id)
    }
}

/// The attempts at all other rules.
pub open spec fn without_attempt(running: Seq<(u128, Attempt)>, id: u128) -> Seq<(u128, Attempt)>
    decreases running.len(),
{
    if running.len() == 0 {
        Seq::empty()
    } else {
        let earlier = without_attempt(running.drop_last(), id);
        if running.last().0 == id {
            earlier
        } else {
            earlier.push(running.last())
        }
    }
}

pub open spec fn with_attempt(
    running: Seq<(u128, Attempt)>,
    id: u128,
    attempt: Attempt,
) -> Seq<(u128, Attempt)> {
    without_attempt(running, id).push((id, attempt))
}

/// No rule has two attempts.
pub open spec fn one_attempt_each(running: Seq<(u128, Attempt)>) -> bool {
    forall|i: int, j: int|
        0 <= i < j < running.len() ==> (#[trigger] running[i]).0 != (#[trigger] running[j]).0
}

pub open spec fn active_count(running: Seq<(u128, Attempt)>) -> nat
    decreases running.len(),
{
    if running.len() == 0 {
        0
    } else {
        active_count(running.drop_last()) + (if running.last().1 is Active {
            1nat
        } else {
            0nat
        })
    }
}

proof fn without_has(running: Seq<(u128, Attempt)>, id: u128)
    ensures
        without_attempt(running, id).len() <= running.len(),
        forall|i: int|
            0 <= i < without_attempt(running, id).len() ==> (#[trigger] without_attempt(
                running,
                id,
            )[i]).0 != id && running.contains(without_attempt(running, id)[i]),
    decreases running.len(),
{
    if running.len() > 0 {
        let earlier = running.drop_last();
        without_has(earlier, id);
        let all = without_attempt(running, id);
        assert forall|i: int| 0 <= i < all.len() implies (#[trigger] all[i]).0 != id
            && running.contains(all[i]) by {
            if i < without_attempt(earlier, id).len() {
                assert(all[i] == without_attempt(earlier, id)[i]);
                let k = choose|k: int| 0 <= k < earlier.len() && earlier[k] == all[i];
                assert(running[k] == all[i]);
            } else {
                assert(running[running.len() - 1] == all[i]);
            }
        }
    }
}

proof fn without_keeps_one_each(running: Seq<(u128, Attempt)>, id: u128)
    requires
        one_attempt_each(running),
    ensures
        one_attempt_each(without_attempt(running, id)),
    decreases running.len(),
{
    if running.len() > 0 {
        let earlier = running.drop_last();
        without_keeps_one_each(earlier, id);
        without_has(earlier, id);
        let all = without_attempt(running, id);
        assert forall|i: int, j: int| 0 <= i < j < all.len() implies (#[trigger] all[i]).0 != (
        #[trigger] all[j]).0 by {
            let kept = without_attempt(earlier, id);
            assert(all[i] == kept[i]);
            if j < kept.len() {
                assert(all[j] == kept[j]);
            } else {
                assert(all[j] == running.last());
                let k = choose|k: int| 0 <= k < earlier.len() && earlier[k] == kept[i];
                assert(running[k].0 != running[running.len() - 1].0);
            }
        }
    }
}

proof fn with_keeps_one_each(running: Seq<(u128, Attempt)>, id: u128, attempt: Attempt)
    requires
        one_attempt_each(running),
    ensures
        one_attempt_each(with_attempt(running, id, attempt)),
{
    without_keeps_one_each(running, id);
    without_has(running, id);
    let kept = without_attempt(running, id);
    let all = with_attempt(running, id, attempt);
    assert forall|i: int, j: int| 0 <= i < j < all.len() implies (#[trigger] all[i]).0 != (
    #[trigger] all[j]).0 by {
        assert(all[i] == kept[i]);
        if j < kept.len() {
            assert(all[j] == kept[j]);
        }
    }
}

/// Looking up attempts after one was taken out or put in.
pub proof fn attempts_after_change(
    running: Seq<(u128, Attempt)>,
    id: u128,
    attempt: Attempt,
    other: u128,
)
    ensures
        attempt_at(without_attempt(running, id), other) == (if other == id {
            None
        } else {
            attempt_at(running, other)
        }),
        attempt_at(with_attempt(running, id, attempt), other) == (if other == id {
            Some(attempt)
        } else {
            attempt_at(running, other)
        }),
    decreases running.len(),
{
    let kept = without_attempt(running, id);
    if running.len() > 0 {
        attempts_after_change(running.drop_last(), id, attempt, other);
        if running.last().0 != id {
            assert(kept.drop_last() =~= without_attempt(running.drop_last(), id));
        }
    }
    assert(with_attempt(running, id, attempt).drop_last() =~= kept);
}

proof fn without_twice(running: Seq<(u128, Attempt)>, id: u128)
    ensures
        attempt_at(running, id) is None ==> without_attempt(running, id) == running,
    decreases running.len(),
{
    if running.len() > 0 && attempt_at(running, id) is None {
        without_twice(running.drop_last(), id);
        assert(without_attempt(running, id) =~= running);
    }
}

fn find_attempt(running: &Vec<(u128, Attempt)>, id: u128) -> (r: Option<Attempt>)
    ensures
        r == attempt_at(running@, id),
{
    let mut n: usize = running.len();
    assert(running@.take(n as int) =~= running@);
    while n > 0
        invariant
            n <= running@.len(),
            attempt_at(running@, id) == attempt_at(running@.take(n as int), id),
        decreases n,
    {
        n = n - 1;
        assert(running@.take(n as int + 1).drop_last() =~= running@.take(n as int));
        assert(running@.take(n as int + 1).last() == running@[n as int]);
        if running[n].0 == id {
            return Some(running[n].1);
        }
    }
    None
}

fn other_attempts(running: &Vec<(u128, Attempt)>, id: u128) -> (r: Vec<(u128, Attempt)>)
    ensures
        r@ == without_attempt(running@, id),
{
    let mut out: Vec<(u128, Attempt)> = Vec::new();
    let mut i: usize = 0;
    assert(running@.take(0) =~= Seq::<(u128, Attempt)>::empty());
    while i < running.len()
        invariant
            i <= running@.len(),
            out@ == without_attempt(running@.take(i as int), id),
        decreases running.len() - i,
    {
        assert(running@.take(i as int + 1).drop_last() =~= running@.take(i as int));
        assert(running@.take(i as int + 1).last() == running@[i as int]);
        if running[i].0 != id {
            out.push(running[i]);
        }
        i = i + 1;
    }
    assert(running@.take(running@.len() as int) =~= running@);
    out
}

fn count_active(running: &Vec<(u128, Attempt)>) -> (r: usize)
    ensures
        r == active_count(running@),
        r <= running@.len(),
{
    let mut count: usize = 0;
    let mut i: usize = 0;
    assert(running@.take(0) =~= Seq::<(u128, Attempt)>::empty());
    while i < running.len()
        invariant
            i <= running@.len(),
            count <= i,
            count == active_count(running@.take(i as int)),
        decreases running.len() - i,
    {
        assert(running@.take(i as int + 1).drop_last() =~= running@.take(i as int));
        assert(running@.take(i as int + 1).last() == running@[i as int]);
        match running[i].1 {
            Attempt::Active(_) => {
                count = count + 1;
            },
            Attempt::Starting(_) => {},
        }
        i = i + 1;
    }
    assert(running@.take(running@.len() as int) =~= running@);
    count
}

// ---------------------------------------------------------------------------
// Rules by ID and by name
// ---------------------------------------------------------------------------
/// The first rule with this ID, or the number of rules.
pub open spec fn index_of_id(rules: Seq<rule::RuleModel>, id: u128) -> int
    decreases rules.len(),
{
    if rules.len() == 0 || rules[0].id == id {
        0
    } else {
        1 + index_of_id(rules.drop_first(), id)
    }
}

/// The first rule with this name, or the number of rules.
pub open spec fn index_of_name(rules: Seq<rule::RuleModel>, name: Seq<char>) -> int
    decreases rules.len(),
{
    if rules.len() == 0 || rules[0].name == name {
        0
    } else {
        1 + index_of_name(rules.drop_first(), name)
    }
}

proof fn id_position(rules: Seq<rule::RuleModel>, id: u128)
    ensures
        0 <= index_of_id(rules, id) <= rules.len(),
        index_of_id(rules, id) < rules.len() ==> rules[index_of_id(rules, id)].id == id,
        forall|k: int| 0 <= k < index_of_id(rules, id) ==> (#[trigger] rules[k]).id != id,
    decreases rules.len(),
{
    if rules.len() > 0 && rules[0].id != id {
        id_position(rules.drop_first(), id);
        assert forall|k: int| 0 <= k < index_of_id(rules, id) implies (#[trigger] rules[k]).id
            != id by {
            if k > 0 {
                assert(rules.drop_first()[k - 1] == rules[k]);
            }
        }
    }
}

proof fn name_position(rules: Seq<rule::RuleModel>, name: Seq<char>)
    ensures
        0 <= index_of_name(rules, name) <= rules.len(),
        index_of_name(rules, name) < rules.len() ==> rules[index_of_name(rules, name)].name == name,
        forall|k: int| 0 <= k < index_of_name(rules, name) ==> (#[trigger] rules[k]).name != name,
    decreases rules.len(),
{
    if rules.len() > 0 && rules[0].name != name {
        name_position(rules.drop_first(), name);
        assert forall|k: int| 0 <= k < index_of_name(rules, name) implies (#[trigger] rules[k]).name
            != name by {
            if k > 0 {
                assert(rules.drop_first()[k - 1] == rules[k]);
            }
        }
    }
}

fn find_id(rules: &Vec<Rule>, id: u128) -> (r: usize)
    ensures
        r == index_of_id(rule::models(rules@), id),
        r <= rules@.len(),
        r < rules@.len() ==> rules@[r as int]@.id == id,
{
    let ghost all = rule::models(rules@);
    proof {
        id_position(all, id);
    }
    let mut i: usize = 0;
    while i < rules.len() && rules[i].id().as_uuid() != id
        invariant
            i <= rules@.len(),
            all == rule::models(rules@),
            forall|k: int| 0 <= k < i ==> (#[trigger] all[k]).id != id,
        decreases rules.len() - i,
    {
        assert(all[i as int] == rules@[i as int]@);
        i = i + 1;
    }
    proof {
        if i < rules@.len() {
            assert(all[i as int] == rules@[i as int]@);
        }
        let k = index_of_id(all, id);
        if k < i {
            assert(all[k].id != id);
        }
        if i < k {
            assert(all[i as int].id != id);
        }
    }
    i
}

fn find_name(rules: &Vec<Rule>, name: &str) -> (r: usize)
    ensures
        r == index_of_name(rule::models(rules@), name@),
        r <= rules@.len(),
        r < rules@.len() ==> rules@[r as int]@.name == name@,
{
    let ghost all = rule::models(rules@);
    proof {
        name_position(all, name@);
    }
    let mut i: usize = 0;
    while i < rules.len() && !text::same(rules[i].name().as_str(), name)
        invariant
            i <= rules@.len(),
            all == rule::models(rules@),
            forall|k: int| 0 <= k < i ==> (#[trigger] all[k]).name != name@,
        decreases rules.len() - i,
    {
        assert(all[i as int] == rules@[i as int]@);
        i = i + 1;
    }
    proof {
        if i < rules@.len() {
            assert(all[i as int] == rules@[i as int]@);
        }
        let k = index_of_name(all, name@);
        if k < i {
            assert(all[k].name != name@);
        }
        if i < k {
            assert(all[i as int].name != name@);
        }
    }
    i
}

/// The rules with other IDs.
pub open spec fn without_rule(rules: Seq<rule::RuleModel>, id: u128) -> Seq<rule::RuleModel>
    decreases rules.len(),
{
    if rules.len() == 0 {
        Seq::empty()
    } else {
        let earlier = without_rule(rules.drop_last(), id);
        if rules.last().id == id {
            earlier
        } else {
            earlier.push(rules.last())
        }
    }
}

/// The rules with `m` in the place of the rule with its ID, or behind them.
pub open spec fn with_rule(rules: Seq<rule::RuleModel>, m: rule::RuleModel) -> Seq<rule::RuleModel> {
    let k = index_of_id(rules, m.id);
    if k < rules.len() {
        rules.update(k, m)
    } else {
        rules.push(m)
    }
}

proof fn without_rule_has(rules: Seq<rule::RuleModel>, id: u128)
    ensures
        without_rule(rules, id).len() <= rules.len(),
        forall|i: int|
            0 <= i < without_rule(rules, id).len() ==> rules.contains(
                #[trigger] without_rule(rules, id)[i],
            ),
        forall|i: int|
            0 <= i < rules.len() && (#[trigger] rules[i]).id != id ==> without_rule(
                rules,
                id,
            ).contains(rules[i]),
    decreases rules.len(),
{
    if rules.len() > 0 {
        let earlier = rules.drop_last();
        without_rule_has(earlier, id);
        let kept = without_rule(earlier, id);
        let all = without_rule(rules, id);
        assert forall|i: int| 0 <= i < all.len() implies rules.contains(#[trigger] all[i]) by {
            if i < kept.len() {
                assert(all[i] == kept[i]);
                let k = choose|k: int| 0 <= k < earlier.len() && earlier[k] == kept[i];
                assert(rules[k] == all[i]);
            } else {
                assert(rules[rules.len() - 1] == all[i]);
            }
        }
        assert forall|i: int| 0 <= i < rules.len() && (#[trigger] rules[i]).id
            != id implies all.contains(rules[i]) by {
            if i < earlier.len() {
                assert(earlier[i] == rules[i]);
                let k = choose|k: int| 0 <= k < kept.len() && kept[k] == rules[i];
                assert(all[k] == rules[i]);
            } else {
                assert(all[all.len() - 1] == rules[i]);
            }
        }
    }
}

proof fn without_rule_is_valid(rules: Seq<rule::RuleModel>, id: u128)
    requires
        validation::rule_set_valid(rules),
    ensures
        validation::rule_set_valid(without_rule(rules, id)),
    decreases rules.len(),
{
    if rules.len() > 0 {
        let earlier = rules.drop_last();
        assert forall|i: int| 0 <= i < earlier.len() implies #[trigger] earlier[i] == rules[i] by {}
        without_rule_is_valid(earlier, id);
        let kept = without_rule(earlier, id);
        let m = rules.last();
        if m.id != id {
            without_rule_has(earlier, id);
            assert forall|i: int| 0 <= i < kept.len() implies (#[trigger] kept[i]).name != m.name
                && !validation::clash(m, kept[i]) by {
                let k = choose|k: int| 0 <= k < earlier.len() && earlier[k] == kept[i];
                assert(rules[k] == kept[i]);
                assert(rules[rules.len() - 1] == m);
            }
            validation::addition_keeps_validity(kept, m);
        }
    }
}

fn other_rules(rules: &Vec<Rule>, id: u128) -> (r: Vec<Rule>)
    ensures
        rule::models(r@) == without_rule(rule::models(rules@), id),
{
    let ghost all = rule::models(rules@);
    let mut out: Vec<Rule> = Vec::new();
    let mut i: usize = 0;
    assert(all.take(0) =~= Seq::<rule::RuleModel>::empty());
    assert(rule::models(out@) =~= Seq::<rule::RuleModel>::empty());
    while i < rules.len()
        invariant
            i <= rules@.len(),
            all == rule::models(rules@),
            rule::models(out@) == without_rule(all.take(i as int), id),
        decreases rules.len() - i,
    {
        assert(all.take(i as int + 1).drop_last() =~= all.take(i as int));
        assert(all.take(i as int + 1).last() == rules@[i as int]@);
        if rules[i].id().as_uuid() != id {
            let copy = rules[i].clone();
            assert(rule::models(out@.push(copy)) =~= rule::models(out@).push(copy@));
            out.push(copy);
        }
        i = i + 1;
    }
    assert(all.take(all.len() as int) =~= all);
    out
}

fn placed_rule(rules: &Vec<Rule>, value: Rule) -> (r: Vec<Rule>)
    ensures
        rule::models(r@) == with_rule(rule::models(rules@), value@),
{
    let ghost all = rule::models(rules@);
    let at: usize = find_id(rules, value.id().as_uuid());
    let mut out: Vec<Rule> = Vec::new();
    let mut i: usize = 0;
    while i < rules.len()
        invariant
            i <= rules@.len(),
            all == rule::models(rules@),
            at <= rules@.len(),
            out@.len() == i,
            forall|k: int|
                0 <= k < i ==> (#[trigger] out@[k])@ == (if k == at {
                    value@
                } else {
                    all[k]
                }),
        decreases rules.len() - i,
    {
        assert(all[i as int] == rules@[i as int]@);
        if i == at {
            out.push(value.clone());
        } else {
            out.push(rules[i].clone());
        }
        i = i + 1;
    }
    if at == rules.len() {
        out.push(value);
    }
    assert(rule::models(out@) =~= with_rule(all, value@));
    out
}

// ---------------------------------------------------------------------------
// Requests
// ---------------------------------------------------------------------------
pub open spec fn not_found() -> ipc::Failure {
    ipc::Failure { code: ErrorCode::NotFound, message: "rule was not found"@ }
}

fn failure(code: ErrorCode, message: String) -> (r: ProtocolError)
    ensures
        r@ == (ipc::Failure { code, message: message@ }),
{
    ProtocolError { code, message }
}

fn no_such_rule() -> (r: ProtocolError)
    ensures
        r@ == not_found(),
{
    failure(ErrorCode::NotFound, "rule was not found".to_owned())
}

/// The ID that a selector stands for. An ID need not belong to a rule.
pub open spec fn selected(
    rules: Seq<rule::RuleModel>,
    selector: Result<Selector, String>,
) -> Result<u128, ipc::Failure> {
    match selector {
        Ok(Selector::Id(id)) => Ok(id),
        Ok(Selector::Name(name)) => {
            let k = index_of_name(rules, name@);
            if k < rules.len() {
                Ok(rules[k].id)
            } else {
                Err(not_found())
            }
        },
        Err(message) => Err(
            ipc::Failure { code: ErrorCode::InvalidRequest, message: message@ },
        ),
    }
}

/// The rules after a rule is stored, if it can be.
pub open spec fn rules_after_add(m: ManagerModel, payload: Result<WireRule, String>) -> Result<
    Seq<rule::RuleModel>,
    ipc::Failure,
> {
    match payload {
        Err(message) => Err(ipc::Failure { code: ErrorCode::InvalidRequest, message: message@ }),
        Ok(wire) => match rule::rule_refusal(wire@) {
            Some(refusal) => Err(
                ipc::Failure {
                    code: ErrorCode::InvalidRequest,
                    message: validation::refusal_message(refusal),
                },
            ),
            None => {
                let next = with_rule(m.rules, wire@);
                if index_of_id(m.rules, wire@.id) < m.rules.len() && attempt_at(
                    m.running,
                    wire@.id,
                ) is Some {
                    Err(
                        ipc::Failure {
                            code: ErrorCode::Conflict,
                            message: "an active rule cannot be edited"@,
                        },
                    )
                } else if validation::rule_set_valid(next) {
                    Ok(next)
                } else {
                    Err(
                        ipc::Failure {
                            code: ErrorCode::Conflict,
                            message: "invalid rule set: "@ + store::rule_set_debug(
                                validation::rule_set_errors(next),
                            ),
                        },
                    )
                }
            },
        },
    }
}

/// The rules after a rule is removed, if it can be.
pub open spec fn rules_after_remove(m: ManagerModel, selector: Result<Selector, String>) -> Result<
    Seq<rule::RuleModel>,
    ipc::Failure,
> {
    match selected(m.rules, selector) {
        Err(failure) => Err(failure),
        Ok(id) => {
            let next = without_rule(m.rules, id);
            if attempt_at(m.running, id) is Some {
                Err(
                    ipc::Failure {
                        code: ErrorCode::Conflict,
                        message: "an active rule cannot be removed"@,
                    },
                )
            } else if next.len() == m.rules.len() {
                Err(not_found())
            } else {
                Ok(next)
            }
        },
    }
}

/// The rules after others are imported, if they can be. All of them are added, or none.
pub open spec fn rules_after_import(m: ManagerModel, payload: Result<Vec<WireRule>, String>) -> Result<
    Seq<rule::RuleModel>,
    ipc::Failure,
> {
    match payload {
        Err(message) => Err(ipc::Failure { code: ErrorCode::InvalidRequest, message: message@ }),
        Ok(wires) => match conversion::first_refusal(config::wires(wires@)) {
            Some(refusal) => Err(
                ipc::Failure {
                    code: ErrorCode::InvalidRequest,
                    message: validation::refusal_message(refusal),
                },
            ),
            None => {
                let next = m.rules + config::wires(wires@);
                if validation::rule_set_valid(next) {
                    Ok(next)
                } else {
                    Err(
                        ipc::Failure {
                            code: ErrorCode::Conflict,
                            message: "invalid rule set: "@ + store::rule_set_debug(
                                validation::rule_set_errors(next),
                            ),
                        },
                    )
                }
            },
        },
    }
}

/// What a change is for.
#[derive(Debug)]
pub enum Effect {
    Stored(u128),
    Removed(u128),
    Imported(Vec<u128>),
    Configured,
}

pub enum EffectModel {
    Stored(u128),
    Removed(u128),
    Imported(Seq<u128>),
    Configured,
}

impl View for Effect {
    type V = EffectModel;

    open spec fn view(&self) -> EffectModel {
        match self {
            Effect::Stored(id) => EffectModel::Stored(*id),
            Effect::Removed(id) => EffectModel::Removed(*id),
            Effect::Imported(ids) => EffectModel::Imported(ids@),
            Effect::Configured => EffectModel::Configured,
        }
    }
}

/// A change of rules or settings that has to be saved before it takes effect.
#[derive(Debug)]
pub struct Change {
    rules: Vec<Rule>,
    settings: Settings,
    effect: Effect,
}

/// What a change is about.
#[verifier::ext_equal]
pub struct ChangeModel {
    pub rules: Seq<rule::RuleModel>,
    pub settings: Settings,
    pub effect: EffectModel,
}

/// How saving a change went.
#[derive(Debug)]
pub enum SaveOutcome {
    Saved,
    /// The configuration was replaced, but it may not survive a crash.
    Uncertain(String),
    Failed(String),
}

/// Whether a change takes effect. An import does as soon as the stored configuration has it.
pub open spec fn takes_effect(effect: EffectModel, saved: SaveOutcome) -> bool {
    saved is Saved || (saved is Uncertain && effect is Imported)
}

/// The rule that a change is about, if it is about one.
pub open spec fn subject(effect: EffectModel) -> Option<u128> {
    match effect {
        EffectModel::Stored(id) => Some(id),
        EffectModel::Removed(id) => Some(id),
        _ => None,
    }
}

/// `r` confirms a change.
pub open spec fn confirms(change: ChangeModel, r: Reply) -> bool {
    match change.effect {
        EffectModel::Stored(id) => r == (Reply::RuleStored { rule_id: id }),
        EffectModel::Removed(id) => r == (Reply::RuleRemoved { rule_id: id }),
        EffectModel::Imported(ids) => r matches Reply::Imported { rule_ids } && rule_ids@ == ids,
        EffectModel::Configured => r == Reply::Settings(change.settings),
    }
}

pub open spec fn save_complaint(saved: SaveOutcome) -> Seq<char> {
    match saved {
        SaveOutcome::Saved => Seq::empty(),
        SaveOutcome::Uncertain(message) => message@,
        SaveOutcome::Failed(message) => message@,
    }
}

pub open spec fn wire_ids(rules: Seq<rule::RuleModel>) -> Seq<u128> {
    rules.map_values(|m: rule::RuleModel| m.id)
}

impl View for Change {
    type V = ChangeModel;

    closed spec fn view(&self) -> ChangeModel {
        ChangeModel {
            rules: rule::models(self.rules@),
            settings: self.settings,
            effect: self.effect@,
        }
    }
}

impl Change {
    #[verifier::type_invariant]
    spec fn well_formed(self) -> bool {
        validation::rule_set_valid(rule::models(self.rules@))
    }

    /// The rules to save.
    pub fn rules(&self) -> (r: &Vec<Rule>)
        ensures
            rule::models(r@) == self@.rules,
            validation::rule_set_valid(self@.rules),
    {
        proof {
            use_type_invariant(self);
        }
        &self.rules
    }

    /// The settings to save.
    pub fn settings(&self) -> (r: Settings)
        ensures
            r == self@.settings,
    {
        self.settings
    }
}

/// What a local port is like.
#[derive(Debug)]
pub enum PortProbe {
    Free,
    InUse,
    Failed(String),
}

/// The socket to try before a rule is started. `*` is tried as the unspecified IPv4 address.
pub open spec fn probe_of(m: rule::RuleModel) -> Option<(Seq<char>, u16)> {
    match m.listener() {
        Some((address, port)) => Some(
            (
                if address == "*"@ {
                    "0.0.0.0"@
                } else {
                    address
                },
                port,
            ),
        ),
        None => None,
    }
}

/// Why a rule cannot be started on such a port.
pub open spec fn probe_failure(m: rule::RuleModel, probe: PortProbe) -> Option<ipc::Failure> {
    match probe_of(m) {
        None => None,
        Some((address, port)) => match probe {
            PortProbe::Free => None,
            PortProbe::InUse => Some(
                ipc::Failure {
                    code: ErrorCode::Conflict,
                    message: "local listener "@ + address + ":"@ + text::decimal(port as nat)
                        + " is already in use"@,
                },
            ),
            PortProbe::Failed(cause) => Some(
                ipc::Failure {
                    code: ErrorCode::Unavailable,
                    message: "local listener cannot be checked: "@ + cause@,
                },
            ),
        },
    }
}

/// What a request to start a rule leads to.
#[derive(Debug)]
pub enum StartPlan {
    /// The rule is already starting or up.
    Requested(Reply),
    /// Try the socket, if there is one, and begin.
    Begin { value: Rule, probe: Option<(String, u16)> },
}

pub open spec fn plans_start(
    m: ManagerModel,
    selector: Result<Selector, String>,
    r: Result<StartPlan, ProtocolError>,
) -> bool {
    match selected(m.rules, selector) {
        Err(failure) => r matches Err(error) && error@ == failure,
        Ok(id) => {
            let k = index_of_id(m.rules, id);
            if k >= m.rules.len() {
                r matches Err(error) && error@ == not_found()
            } else if attempt_at(m.running, id) is Some {
                r matches Ok(StartPlan::Requested(reply)) && reply == (Reply::Intent {
                    rule_id: id,
                    start_requested: true,
                    changed: false,
                })
            } else {
                r matches Ok(StartPlan::Begin { value, probe }) && value@ == m.rules[k] && (
                match probe {
                    Some((address, port)) => probe_of(value@) == Some((address@, port)),
                    None => probe_of(value@) is None,
                })
            }
        },
    }
}

/// How the start of a process ended.
#[derive(Debug)]
pub enum StartOutcome {
    /// The process is up.
    Started,
    /// No processes are managed here; the attempt stays a wish.
    Unmanaged,
    Failed(String),
}

/// What comes of an attempt to start a rule.
#[derive(Debug)]
pub struct StartResult {
    pub result: Result<Reply, ProtocolError>,
    /// The process that was started is no longer wanted and has to be stopped.
    pub discard: bool,
    pub announcement: Option<Announcement>,
}

/// The attempts after one of them came to its end.
pub open spec fn running_after_start(
    running: Seq<(u128, Attempt)>,
    id: u128,
    attempt_id: u128,
    outcome: StartOutcome,
) -> Seq<(u128, Attempt)> {
    if attempt_at(running, id) != Some(Attempt::Starting(attempt_id)) {
        running
    } else {
        match outcome {
            StartOutcome::Started => with_attempt(running, id, Attempt::Active(attempt_id)),
            StartOutcome::Unmanaged => with_attempt(running, id, Attempt::Starting(attempt_id)),
            StartOutcome::Failed(_) => without_attempt(running, id),
        }
    }
}

pub open spec fn reports_start(
    running: Seq<(u128, Attempt)>,
    id: u128,
    attempt_id: u128,
    outcome: StartOutcome,
    r: StartResult,
) -> bool {
    match outcome {
        StartOutcome::Failed(message) => {
            &&& r.result matches Err(error) && error@ == (ipc::Failure {
                code: ErrorCode::Unavailable,
                message: message@,
            })
            &&& !r.discard
            &&& r.announcement is None
        },
        _ => if attempt_at(running, id) == Some(Attempt::Starting(attempt_id)) {
            &&& r.result == Ok::<Reply, ProtocolError>(
                Reply::Intent { rule_id: id, start_requested: true, changed: true },
            )
            &&& !r.discard
            &&& r.announcement == Some(
                Announcement { event: EventKind::RuleStarted, rule_id: Some(id) },
            )
        } else {
            &&& r.result == Ok::<Reply, ProtocolError>(
                Reply::Intent { rule_id: id, start_requested: false, changed: true },
            )
            &&& r.discard == (outcome is Started)
            &&& r.announcement is None
        },
    }
}

/// A rule that was stopped, and the attempt that was taken away from it.
#[derive(Debug)]
pub struct StopPlan {
    pub rule_id: u128,
    pub attempt: Option<Attempt>,
}

/// The rule to stop.
pub open spec fn stop_target(m: ManagerModel, selector: Result<Selector, String>) -> Result<
    u128,
    ipc::Failure,
> {
    match selected(m.rules, selector) {
        Err(failure) => Err(failure),
        Ok(id) => if index_of_id(m.rules, id) < m.rules.len() {
            Ok(id)
        } else {
            Err(not_found())
        },
    }
}

/// The attempts that are left once those whose process ended are gone.
pub open spec fn still_running(running: Seq<(u128, Attempt)>, exited: Seq<u128>) -> Seq<
    (u128, Attempt),
>
    decreases running.len(),
{
    if running.len() == 0 {
        Seq::empty()
    } else {
        let earlier = still_running(running.drop_last(), exited);
        if running.last().1 is Active && exited.contains(running.last().0) {
            earlier
        } else {
            earlier.push(running.last())
        }
    }
}

/// The rules whose process ended.
pub open spec fn ended(running: Seq<(u128, Attempt)>, exited: Seq<u128>) -> Seq<Announcement>
    decreases running.len(),
{
    if running.len() == 0 {
        Seq::empty()
    } else {
        let earlier = ended(running.drop_last(), exited);
        if running.last().1 is Active && exited.contains(running.last().0) {
            earlier.push(
                Announcement { event: EventKind::RuleFailed, rule_id: Some(running.last().0) },
            )
        } else {
            earlier
        }
    }
}

pub open spec fn run_state(attempt: Option<Attempt>) -> RunState {
    match attempt {
        Some(Attempt::Starting(_)) => RunState::Starting,
        Some(Attempt::Active(_)) => RunState::Active,
        None => RunState::Stopped,
    }
}

/// `r` is the status of the rules with these attempts.
pub open spec fn is_status(m: ManagerModel, r: Reply) -> bool {
    r matches Reply::Status { rules, active, starting, forwards } && rules == m.rules.len()
        && active == active_count(m.running) && starting == m.running.len() - active_count(
        m.running,
    ) && forwards@.len() == m.rules.len() && forall|i: int|
        0 <= i < m.rules.len() ==> {
            &&& (#[trigger] forwards@[i]).rule_id == m.rules[i].id
            &&& forwards@[i].name@ == m.rules[i].name
            &&& forwards@[i].state == run_state(attempt_at(m.running, m.rules[i].id))
        }
}

proof fn left_over_is_part(running: Seq<(u128, Attempt)>, exited: Seq<u128>)
    ensures
        forall|i: int|
            0 <= i < still_running(running, exited).len() ==> running.contains(
                #[trigger] still_running(running, exited)[i],
            ),
        one_attempt_each(running) ==> one_attempt_each(still_running(running, exited)),
    decreases running.len(),
{
    if running.len() > 0 {
        let earlier = running.drop_last();
        left_over_is_part(earlier, exited);
        let kept = still_running(earlier, exited);
        let all = still_running(running, exited);
        assert forall|i: int| 0 <= i < all.len() implies running.contains(#[trigger] all[i]) by {
            if i < kept.len() {
                assert(all[i] == kept[i]);
                let k = choose|k: int| 0 <= k < earlier.len() && earlier[k] == kept[i];
                assert(running[k] == all[i]);
            } else {
                assert(running[running.len() - 1] == all[i]);
            }
        }
        if one_attempt_each(running) {
            assert forall|i: int, j: int| 0 <= i < j < earlier.len() implies (
            #[trigger] earlier[i]).0 != (#[trigger] earlier[j]).0 by {
                assert(earlier[i] == running[i] && earlier[j] == running[j]);
            }
            assert forall|i: int, j: int| 0 <= i < j < all.len() implies (#[trigger] all[i]).0 != (
            #[trigger] all[j]).0 by {
                assert(all[i] == kept[i]);
                if j < kept.len() {
                    assert(all[j] == kept[j]);
                } else {
                    let k = choose|k: int| 0 <= k < earlier.len() && earlier[k] == kept[i];
                    assert(running[k].0 != running[running.len() - 1].0);
                }
            }
        }
    }
}

fn has_id(list: &Vec<u128>, id: u128) -> (r: bool)
    ensures
        r == list@.contains(id),
{
    let mut i: usize = 0;
    while i < list.len()
        invariant
            i <= list@.len(),
            forall|k: int| 0 <= k < i ==> list@[k] != id,
        decreases list.len() - i,
    {
        if list[i] == id {
            return true;
        }
        i = i + 1;
    }
    false
}

/// What has to be done about a request.
#[derive(Debug)]
pub enum Dispatch {
    Answer(Result<Reply, ProtocolError>),
    /// Save the rules of the change, then commit it.
    Save(Change),
    /// Begin to start a rule.
    Start(StartPlan),
    /// Stop what is left of the attempt, then answer.
    Stop(StopPlan),
    /// Find out which processes have ended, then report the status.
    Poll,
}

impl DaemonManager {
    #[verifier::type_invariant]
    spec fn well_formed(self) -> bool {
        &&& validation::rule_set_valid(rule::models(self.rules@))
        &&& one_attempt_each(self.running@)
    }

    /// A manager of the stored rules, none of which runs.
    pub fn open(stored: Option<Vec<Rule>>, settings: Settings) -> (r: Result<Self, StoreError>)
        ensures
            ({
                let rules = match stored {
                    Some(rules) => rule::models(rules@),
                    None => Seq::empty(),
                };
                match r {
                    Ok(manager) => validation::rule_set_valid(rules) && manager@ == (ManagerModel {
                        rules,
                        settings,
                        running: Seq::empty(),
                    }),
                    Err(StoreError::InvalidRules(errors)) => !validation::rule_set_valid(rules)
                        && validation::refusals(errors@) == validation::rule_set_errors(rules),
                    Err(_) => false,
                }
            }),
    {
        let rules: Vec<Rule> = match stored {
            Some(rules) => rules,
            None => {
                let none: Vec<Rule> = Vec::new();
                assert(rule::models(none@) =~= Seq::<rule::RuleModel>::empty());
                none
            },
        };
        match validate_rule_set(rules.as_slice()) {
            Ok(_) => Ok(DaemonManager { rules, settings, running: Vec::new() }),
            Err(errors) => Err(StoreError::InvalidRules(errors)),
        }
    }

    fn resolve(&self, selector: &Result<Selector, String>) -> (r: Result<u128, ProtocolError>)
        ensures
            match r {
                Ok(id) => selected(self@.rules, *selector) == Ok::<u128, ipc::Failure>(id),
                Err(error) => selected(self@.rules, *selector) == Err::<u128, ipc::Failure>(error@),
            },
    {
        match selector {
            Ok(Selector::Id(id)) => Ok(*id),
            Ok(Selector::Name(name)) => {
                let k: usize = find_name(&self.rules, name.as_str());
                if k < self.rules.len() {
                    Ok(self.rules[k].id().as_uuid())
                } else {
                    Err(no_such_rule())
                }
            },
            Err(message) => Err(failure(ErrorCode::InvalidRequest, message.clone())),
        }
    }

    /// All rules, as they are sent.
    pub fn list(&self) -> (r: Result<Reply, ProtocolError>)
        ensures
            r matches Ok(Reply::Rules(rules)) && config::wires(rules@) == self@.rules,
    {
        proof {
            use_type_invariant(self);
        }
        match ConfigV2::from_domain(self.rules.as_slice(), self.settings) {
            Ok(stored) => Ok(Reply::Rules(stored.rules)),
            Err(error) => Err(failure(ErrorCode::Internal, error.to_string())),
        }
    }

    /// Stores a new rule, or a new version of a rule that is not running.
    pub fn plan_add(&self, payload: Result<WireRule, String>) -> (r: Result<Change, ProtocolError>)
        ensures
            match r {
                Ok(change) => rules_after_add(self@, payload) == Ok::<
                    Seq<rule::RuleModel>,
                    ipc::Failure,
                >(change@.rules) && change@.settings == self@.settings && change@.effect
                    == EffectModel::Stored(payload->Ok_0@.id),
                Err(error) => rules_after_add(self@, payload) == Err::<
                    Seq<rule::RuleModel>,
                    ipc::Failure,
                >(error@),
            },
    {
        let wire = match payload {
            Ok(wire) => wire,
            Err(message) => {
                return Err(failure(ErrorCode::InvalidRequest, message));
            },
        };
        let value = match Rule::try_from(wire) {
            Ok(value) => value,
            Err(error) => {
                return Err(failure(ErrorCode::InvalidRequest, error.to_string()));
            },
        };
        let id: u128 = value.id().as_uuid();
        if find_id(&self.rules, id) < self.rules.len() && find_attempt(
            &self.running,
            id,
        ).is_some() {
            return Err(
                failure(ErrorCode::Conflict, "an active rule cannot be edited".to_owned()),
            );
        }
        let next = placed_rule(&self.rules, value);
        match validate_rule_set(next.as_slice()) {
            Ok(_) => Ok(
                Change { rules: next, settings: self.settings, effect: Effect::Stored(id) },
            ),
            Err(errors) => {
                let error = StoreError::InvalidRules(errors);
                Err(failure(ErrorCode::Conflict, error.to_string()))
            },
        }
    }

    /// Removes a rule that is not running.
    pub fn plan_remove(&self, selector: Result<Selector, String>) -> (r: Result<
        Change,
        ProtocolError,
    >)
        ensures
            match r {
                Ok(change) => rules_after_remove(self@, selector) == Ok::<
                    Seq<rule::RuleModel>,
                    ipc::Failure,
                >(change@.rules) && change@.settings == self@.settings && change@.effect
                    == EffectModel::Removed(selected(self@.rules, selector)->Ok_0),
                Err(error) => rules_after_remove(self@, selector) == Err::<
                    Seq<rule::RuleModel>,
                    ipc::Failure,
                >(error@),
            },
    {
        let id: u128 = match self.resolve(&selector) {
            Ok(id) => id,
            Err(error) => {
                return Err(error);
            },
        };
        if find_attempt(&self.running, id).is_some() {
            return Err(
                failure(ErrorCode::Conflict, "an active rule cannot be removed".to_owned()),
            );
        }
        let next = other_rules(&self.rules, id);
        assert(rule::models(next@).len() == next@.len());
        assert(rule::models(self.rules@).len() == self.rules@.len());
        if next.len() == self.rules.len() {
            return Err(no_such_rule());
        }
        proof {
            use_type_invariant(self);
            without_rule_is_valid(rule::models(self.rules@), id);
        }
        Ok(Change { rules: next, settings: self.settings, effect: Effect::Removed(id) })
    }

    /// Adds rules that none of the present ones stands in the way of.
    pub fn plan_import(&self, payload: Result<Vec<WireRule>, String>) -> (r: Result<
        Change,
        ProtocolError,
    >)
        ensures
            match r {
                Ok(change) => rules_after_import(self@, payload) == Ok::<
                    Seq<rule::RuleModel>,
                    ipc::Failure,
                >(change@.rules) && change@.settings == self@.settings && change@.effect
                    == EffectModel::Imported(wire_ids(config::wires(payload->Ok_0@))),
                Err(error) => rules_after_import(self@, payload) == Err::<
                    Seq<rule::RuleModel>,
                    ipc::Failure,
                >(error@),
            },
    {
        let wires = match payload {
            Ok(wires) => wires,
            Err(message) => {
                return Err(failure(ErrorCode::InvalidRequest, message));
            },
        };
        let ghost all = config::wires(wires@);
        let ghost ids_all = wire_ids(all);
        let ghost before = rule::models(self.rules@);
        let mut next: Vec<Rule> = Vec::new();
        let mut i: usize = 0;
        while i < self.rules.len()
            invariant
                i <= self.rules@.len(),
                before == rule::models(self.rules@),
                rule::models(next@) =~= before.take(i as int),
            decreases self.rules.len() - i,
        {
            let copy = self.rules[i].clone();
            assert(rule::models(next@.push(copy)) =~= rule::models(next@).push(copy@));
            next.push(copy);
            assert(before.take(i as int + 1) =~= before.take(i as int).push(before[i as int]));
            i = i + 1;
        }
        assert(before.take(before.len() as int) =~= before);
        let mut ids: Vec<u128> = Vec::new();
        let mut k: usize = 0;
        assert(all.take(0) =~= Seq::<rule::RuleModel>::empty());
        assert(before + all.take(0) =~= before);
        while k < wires.len()
            invariant
                k <= wires@.len(),
                payload == Ok::<Vec<WireRule>, String>(wires),
                all == config::wires(wires@),
                ids_all == wire_ids(all),
                conversion::first_refusal(all.take(k as int)) is None,
                rule::models(next@) == before + all.take(k as int),
                ids@ =~= ids_all.take(k as int),
            decreases wires.len() - k,
        {
            assert(all.take(k as int + 1).drop_last() =~= all.take(k as int));
            assert(all.take(k as int + 1).last() == wires@[k as int]@);
            match Rule::checked(&wires[k]) {
                Ok(value) => {
                    proof {
                        assert(rule::models(next@.push(value)) =~= rule::models(next@).push(
                            value@,
                        ));
                        assert(before + all.take(k as int + 1) =~= (before + all.take(
                            k as int,
                        )).push(value@));
                        assert(ids_all.take(k as int + 1) =~= ids_all.take(k as int).push(
                            value@.id,
                        ));
                    }
                    ids.push(value.id().as_uuid());
                    next.push(value);
                },
                Err(error) => {
                    proof {
                        conversion::refusal_of_prefix(all, k as int + 1);
                    }
                    return Err(failure(ErrorCode::InvalidRequest, error.to_string()));
                },
            }
            k = k + 1;
        }
        assert(all.take(all.len() as int) =~= all);
        assert(ids_all.take(ids_all.len() as int) =~= ids_all);
        match validate_rule_set(next.as_slice()) {
            Ok(_) => Ok(
                Change { rules: next, settings: self.settings, effect: Effect::Imported(ids) },
            ),
            Err(errors) => {
                let error = StoreError::InvalidRules(errors);
                Err(failure(ErrorCode::Conflict, error.to_string()))
            },
        }
    }

    /// Replaces the settings.
    pub fn plan_settings(&self, payload: Result<Settings, String>) -> (r: Result<
        Change,
        ProtocolError,
    >)
        ensures
            match payload {
                Ok(settings) => r matches Ok(change) && change@ == (ChangeModel {
                    rules: self@.rules,
                    settings,
                    effect: EffectModel::Configured,
                }),
                Err(message) => r matches Err(error) && error@ == (ipc::Failure {
                    code: ErrorCode::InvalidRequest,
                    message: message@,
                }),
            },
    {
        match payload {
            Ok(settings) => {
                let ghost before = rule::models(self.rules@);
                let mut rules: Vec<Rule> = Vec::new();
                let mut i: usize = 0;
                while i < self.rules.len()
                    invariant
                        i <= self.rules@.len(),
                        before == rule::models(self.rules@),
                        rule::models(rules@) =~= before.take(i as int),
                    decreases self.rules.len() - i,
                {
                    let copy = self.rules[i].clone();
                    assert(rule::models(rules@.push(copy)) =~= rule::models(rules@).push(copy@));
                    rules.push(copy);
                    assert(before.take(i as int + 1) =~= before.take(i as int).push(
                        before[i as int],
                    ));
                    i = i + 1;
                }
                assert(before.take(before.len() as int) =~= before);
                proof {
                    use_type_invariant(self);
                }
                Ok(Change { rules, settings, effect: Effect::Configured })
            },
            Err(message) => Err(failure(ErrorCode::InvalidRequest, message)),
        }
    }

    /// Puts a change into effect once it is saved. If saving failed, nothing changes.
    pub fn commit(&mut self, change: Change, saved: SaveOutcome) -> (r: (
        Result<Reply, ProtocolError>,
        Option<Announcement>,
    ))
        ensures
            final(self)@ == (if takes_effect(change@.effect, saved) {
                ManagerModel {
                    rules: change@.rules,
                    settings: change@.settings,
                    ..old(self)@
                }
            } else {
                old(self)@
            }),
            if saved is Saved {
                r.0 matches Ok(reply) && confirms(change@, reply)
            } else {
                r.0 matches Err(error) && error@ == (ipc::Failure {
                    code: ErrorCode::Internal,
                    message: save_complaint(saved),
                })
            },
            r.1 == (if takes_effect(change@.effect, saved) {
                Some(
                    Announcement {
                        event: EventKind::ConfigurationChanged,
                        rule_id: subject(change@.effect),
                    },
                )
            } else {
                None
            }),
    {
        proof {
            use_type_invariant(&*self);
            use_type_invariant(&change);
        }
        let rule_id = match &change.effect {
            Effect::Stored(id) => Some(*id),
            Effect::Removed(id) => Some(*id),
            _ => None,
        };
        let announcement = Announcement { event: EventKind::ConfigurationChanged, rule_id };
        let imports = match &change.effect {
            Effect::Imported(_) => true,
            _ => false,
        };
        match saved {
            SaveOutcome::Saved => {
                let settings = change.settings;
                self.rules = change.rules;
                self.settings = settings;
                let reply = match change.effect {
                    Effect::Stored(id) => Reply::RuleStored { rule_id: id },
                    Effect::Removed(id) => Reply::RuleRemoved { rule_id: id },
                    Effect::Imported(ids) => Reply::Imported { rule_ids: ids },
                    Effect::Configured => Reply::Settings(settings),
                };
                (Ok(reply), Some(announcement))
            },
            SaveOutcome::Uncertain(message) => {
                let result = Err(failure(ErrorCode::Internal, message));
                if imports {
                    self.rules = change.rules;
                    self.settings = change.settings;
                    (result, Some(announcement))
                } else {
                    (result, None)
                }
            },
            SaveOutcome::Failed(message) => (Err(failure(ErrorCode::Internal, message)), None),
        }
    }

    /// What a request to start a rule leads to.
    pub fn plan_start(&self, selector: Result<Selector, String>) -> (r: Result<
        StartPlan,
        ProtocolError,
    >)
        ensures
            plans_start(self@, selector, r),
    {
        let id: u128 = match self.resolve(&selector) {
            Ok(id) => id,
            Err(error) => {
                return Err(error);
            },
        };
        let k: usize = find_id(&self.rules, id);
        if k >= self.rules.len() {
            return Err(no_such_rule());
        }
        if find_attempt(&self.running, id).is_some() {
            return Ok(
                StartPlan::Requested(
                    Reply::Intent { rule_id: id, start_requested: true, changed: false },
                ),
            );
        }
        let value = self.rules[k].clone();
        let probe = match value.local_listener() {
            Some((found, port)) => {
                let target = if text::same(found.as_str(), "*") {
                    "0.0.0.0".to_owned()
                } else {
                    found.to_string()
                };
                Some((target, port.get()))
            },
            None => None,
        };
        Ok(StartPlan::Begin { value, probe })
    }

    /// Marks a rule as starting, if its port is free.
    pub fn begin_start(&mut self, value: &Rule, attempt_id: u128, probe: PortProbe) -> (r: Result<
        (),
        ProtocolError,
    >)
        ensures
            final(self)@.rules == old(self)@.rules,
            final(self)@.settings == old(self)@.settings,
            match probe_failure(value@, probe) {
                Some(failure) => {
                    &&& final(self)@.running == old(self)@.running
                    &&& r matches Err(error) && error@ == failure
                },
                None => {
                    &&& final(self)@.running == with_attempt(
                        old(self)@.running,
                        value@.id,
                        Attempt::Starting(attempt_id),
                    )
                    &&& r is Ok
                },
            },
    {
        match value.local_listener() {
            Some((found, port)) => match probe {
                PortProbe::Free => {},
                PortProbe::InUse => {
                    let mut message = "local listener ".to_owned();
                    if text::same(found.as_str(), "*") {
                        message.append("0.0.0.0");
                    } else {
                        message.append(found.as_str());
                    }
                    message.append(":");
                    text::push_decimal(&mut message, port.get() as u64);
                    message.append(" is already in use");
                    return Err(failure(ErrorCode::Conflict, message));
                },
                PortProbe::Failed(cause) => {
                    let message = text::joined(
                        "local listener cannot be checked: ",
                        cause.as_str(),
                    );
                    return Err(failure(ErrorCode::Unavailable, message));
                },
            },
            None => {},
        }
        let id: u128 = value.id().as_uuid();
        let mut running = other_attempts(&self.running, id);
        running.push((id, Attempt::Starting(attempt_id)));
        proof {
            use_type_invariant(&*self);
            with_keeps_one_each(self.running@, id, Attempt::Starting(attempt_id));
        }
        self.running = running;
        Ok(())
    }

    /// Takes note of how an attempt ended. If the rule was stopped meanwhile, or is on another
    /// attempt, a process that came up is to be discarded.
    pub fn finish_start(&mut self, rule_id: u128, attempt_id: u128, outcome: StartOutcome) -> (r:
        StartResult)
        ensures
            final(self)@.rules == old(self)@.rules,
            final(self)@.settings == old(self)@.settings,
            final(self)@.running == running_after_start(
                old(self)@.running,
                rule_id,
                attempt_id,
                outcome,
            ),
            reports_start(old(self)@.running, rule_id, attempt_id, outcome, r),
    {
        let ghost before = self.running@;
        proof {
            use_type_invariant(&*self);
            without_keeps_one_each(before, rule_id);
            with_keeps_one_each(before, rule_id, Attempt::Starting(attempt_id));
            with_keeps_one_each(before, rule_id, Attempt::Active(attempt_id));
        }
        let current = match find_attempt(&self.running, rule_id) {
            Some(Attempt::Starting(number)) => number == attempt_id,
            _ => false,
        };
        match outcome {
            StartOutcome::Failed(message) => {
                if current {
                    let running = other_attempts(&self.running, rule_id);
                    self.running = running;
                }
                StartResult {
                    result: Err(failure(ErrorCode::Unavailable, message)),
                    discard: false,
                    announcement: None,
                }
            },
            StartOutcome::Started => {
                if !current {
                    return StartResult {
                        result: Ok(
                            Reply::Intent { rule_id, start_requested: false, changed: true },
                        ),
                        discard: true,
                        announcement: None,
                    };
                }
                let mut running = other_attempts(&self.running, rule_id);
                running.push((rule_id, Attempt::Active(attempt_id)));
                self.running = running;
                StartResult {
                    result: Ok(Reply::Intent { rule_id, start_requested: true, changed: true }),
                    discard: false,
                    announcement: Some(Announcement { event: EventKind::RuleStarted, rule_id: Some(rule_id) }),
                }
            },
            StartOutcome::Unmanaged => {
                if !current {
                    return StartResult {
                        result: Ok(
                            Reply::Intent { rule_id, start_requested: false, changed: true },
                        ),
                        discard: false,
                        announcement: None,
                    };
                }
                let mut running = other_attempts(&self.running, rule_id);
                running.push((rule_id, Attempt::Starting(attempt_id)));
                self.running = running;
                StartResult {
                    result: Ok(Reply::Intent { rule_id, start_requested: true, changed: true }),
                    discard: false,
                    announcement: Some(Announcement { event: EventKind::RuleStarted, rule_id: Some(rule_id) }),
                }
            },
        }
    }

    /// Takes the attempt away from a rule. A rule that does not run stays as it is.
    pub fn begin_stop(&mut self, selector: Result<Selector, String>) -> (r: Result<
        StopPlan,
        ProtocolError,
    >)
        ensures
            final(self)@.rules == old(self)@.rules,
            final(self)@.settings == old(self)@.settings,
            match r {
                Ok(plan) => {
                    &&& stop_target(old(self)@, selector) == Ok::<u128, ipc::Failure>(plan.rule_id)
                    &&& plan.attempt == attempt_at(old(self)@.running, plan.rule_id)
                    &&& final(self)@.running == without_attempt(old(self)@.running, plan.rule_id)
                },
                Err(error) => {
                    &&& stop_target(old(self)@, selector) == Err::<u128, ipc::Failure>(error@)
                    &&& final(self)@.running == old(self)@.running
                },
            },
    {
        let id: u128 = match self.resolve(&selector) {
            Ok(id) => id,
            Err(error) => {
                return Err(error);
            },
        };
        if find_id(&self.rules, id) >= self.rules.len() {
            return Err(no_such_rule());
        }
        let attempt = find_attempt(&self.running, id);
        let running = other_attempts(&self.running, id);
        proof {
            use_type_invariant(&*self);
            without_keeps_one_each(self.running@, id);
        }
        self.running = running;
        Ok(StopPlan { rule_id: id, attempt })
    }

    /// The status of all rules, once those are set aside whose process was found to have ended.
    pub fn status(&mut self, exited: &Vec<u128>) -> (r: (Reply, Vec<Announcement>))
        ensures
            final(self)@.rules == old(self)@.rules,
            final(self)@.settings == old(self)@.settings,
            final(self)@.running == still_running(old(self)@.running, exited@),
            is_status(final(self)@, r.0),
            r.1@ == ended(old(self)@.running, exited@),
    {
        let ghost all = self.running@;
        proof {
            use_type_invariant(&*self);
            left_over_is_part(all, exited@);
        }
        let mut running: Vec<(u128, Attempt)> = Vec::new();
        let mut announcements: Vec<Announcement> = Vec::new();
        let mut i: usize = 0;
        assert(all.take(0) =~= Seq::<(u128, Attempt)>::empty());
        while i < self.running.len()
            invariant
                i <= self.running@.len(),
                all == self.running@,
                running@ == still_running(all.take(i as int), exited@),
                announcements@ == ended(all.take(i as int), exited@),
            decreases self.running.len() - i,
        {
            assert(all.take(i as int + 1).drop_last() =~= all.take(i as int));
            assert(all.take(i as int + 1).last() == all[i as int]);
            let (id, attempt) = self.running[i];
            let up = match attempt {
                Attempt::Active(_) => true,
                Attempt::Starting(_) => false,
            };
            if up && has_id(exited, id) {
                announcements.push(Announcement { event: EventKind::RuleFailed, rule_id: Some(id) });
            } else {
                running.push((id, attempt));
            }
            i = i + 1;
        }
        assert(all.take(all.len() as int) =~= all);
        self.running = running;
        let active: usize = count_active(&self.running);
        let starting: usize = self.running.len() - active;
        let mut forwards: Vec<ForwardStatus> = Vec::new();
        let mut k: usize = 0;
        let ghost rules = rule::models(self.rules@);
        while k < self.rules.len()
            invariant
                k <= self.rules@.len(),
                rules == rule::models(self.rules@),
                forwards@.len() == k,
                forall|j: int|
                    0 <= j < k ==> {
                        &&& (#[trigger] forwards@[j]).rule_id == rules[j].id
                        &&& forwards@[j].name@ == rules[j].name
                        &&& forwards@[j].state == run_state(
                            attempt_at(self.running@, rules[j].id),
                        )
                    },
            decreases self.rules.len() - k,
        {
            assert(rules[k as int] == self.rules@[k as int]@);
            let id: u128 = self.rules[k].id().as_uuid();
            let state = match find_attempt(&self.running, id) {
                Some(Attempt::Starting(_)) => RunState::Starting,
                Some(Attempt::Active(_)) => RunState::Active,
                None => RunState::Stopped,
            };
            forwards.push(
                ForwardStatus { rule_id: id, name: self.rules[k].name().to_string(), state },
            );
            k = k + 1;
        }
        (Reply::Status { rules: self.rules.len(), active, starting, forwards }, announcements)
    }

    /// Decides what has to be done about a request. Only a stop takes effect at once.
    pub fn dispatch(&mut self, command: Command) -> (r: Dispatch)
        ensures
            final(self)@.rules == old(self)@.rules,
            final(self)@.settings == old(self)@.settings,
            !(command is ForwardStop) ==> final(self)@.running == old(self)@.running,
            match command {
                Command::ForwardList => r matches Dispatch::Answer(Ok(Reply::Rules(rules)))
                    && config::wires(rules@) == old(self)@.rules,
                Command::ForwardAdd(payload) => match rules_after_add(old(self)@, payload) {
                    Ok(rules) => r matches Dispatch::Save(change) && change@ == (ChangeModel {
                        rules,
                        settings: old(self)@.settings,
                        effect: EffectModel::Stored(payload->Ok_0@.id),
                    }),
                    Err(failure) => r matches Dispatch::Answer(Err(error)) && error@ == failure,
                },
                Command::ForwardImport(payload) => match rules_after_import(old(self)@, payload) {
                    Ok(rules) => r matches Dispatch::Save(change) && change@ == (ChangeModel {
                        rules,
                        settings: old(self)@.settings,
                        effect: EffectModel::Imported(wire_ids(config::wires(payload->Ok_0@))),
                    }),
                    Err(failure) => r matches Dispatch::Answer(Err(error)) && error@ == failure,
                },
                Command::ForwardRemove(selector) => match rules_after_remove(
                    old(self)@,
                    selector,
                ) {
                    Ok(rules) => r matches Dispatch::Save(change) && change@ == (ChangeModel {
                        rules,
                        settings: old(self)@.settings,
                        effect: EffectModel::Removed(selected(old(self)@.rules, selector)->Ok_0),
                    }),
                    Err(failure) => r matches Dispatch::Answer(Err(error)) && error@ == failure,
                },
                Command::ForwardStart(selector) => match r {
                    Dispatch::Start(plan) => plans_start(old(self)@, selector, Ok(plan)),
                    Dispatch::Answer(Err(error)) => plans_start(
                        old(self)@,
                        selector,
                        Err(error),
                    ),
                    _ => false,
                },
                Command::ForwardStop(selector) => match stop_target(old(self)@, selector) {
                    Ok(id) => {
                        &&& r matches Dispatch::Stop(plan) && plan.rule_id == id && plan.attempt
                            == attempt_at(old(self)@.running, id)
                        &&& final(self)@.running == without_attempt(old(self)@.running, id)
                    },
                    Err(failure) => {
                        &&& r matches Dispatch::Answer(Err(error)) && error@ == failure
                        &&& final(self)@.running == old(self)@.running
                    },
                },
                Command::SettingsGet => r == Dispatch::Answer(
                    Ok(Reply::Settings(old(self)@.settings)),
                ),
                Command::SettingsUpdate(payload) => match payload {
                    Ok(settings) => r matches Dispatch::Save(change) && change@ == (ChangeModel {
                        rules: old(self)@.rules,
                        settings,
                        effect: EffectModel::Configured,
                    }),
                    Err(message) => r matches Dispatch::Answer(Err(error)) && error@
                        == (ipc::Failure {
                        code: ErrorCode::InvalidRequest,
                        message: message@,
                    }),
                },
                Command::Status => r is Poll,
                Command::Subscribe => r matches Dispatch::Answer(Ok(Reply::Subscribed)),
                Command::Other(_) => r matches Dispatch::Answer(Err(error)) && error@
                    == (ipc::Failure {
                    code: ErrorCode::Unavailable,
                    message: "operation is not handled by the daemon yet"@,
                }),
            },
    {
        match command {
            Command::ForwardList => Dispatch::Answer(self.list()),
            Command::ForwardAdd(payload) => match self.plan_add(payload) {
                Ok(change) => Dispatch::Save(change),
                Err(error) => Dispatch::Answer(Err(error)),
            },
            Command::ForwardRemove(selector) => match self.plan_remove(selector) {
                Ok(change) => Dispatch::Save(change),
                Err(error) => Dispatch::Answer(Err(error)),
            },
            Command::ForwardStart(selector) => match self.plan_start(selector) {
                Ok(plan) => Dispatch::Start(plan),
                Err(error) => Dispatch::Answer(Err(error)),
            },
            Command::ForwardStop(selector) => match self.begin_stop(selector) {
                Ok(plan) => Dispatch::Stop(plan),
                Err(error) => Dispatch::Answer(Err(error)),
            },
            Command::ForwardImport(payload) => match self.plan_import(payload) {
                Ok(change) => Dispatch::Save(change),
                Err(error) => Dispatch::Answer(Err(error)),
            },
            Command::SettingsGet => Dispatch::Answer(Ok(Reply::Settings(self.settings))),
            Command::SettingsUpdate(payload) => match self.plan_settings(payload) {
                Ok(change) => Dispatch::Save(change),
                Err(error) => Dispatch::Answer(Err(error)),
            },
            Command::Status => Dispatch::Poll,
            Command::Subscribe => Dispatch::Answer(Ok(Reply::Subscribed)),
            Command::Other(_) => Dispatch::Answer(
                Err(
                    failure(
                        ErrorCode::Unavailable,
                        "operation is not handled by the daemon yet".to_owned(),
                    ),
                ),
            ),
        }
    }

    /// The settings in effect.
    pub fn settings(&self) -> (r: Settings)
        ensures
            r == self@.settings,
    {
        self.settings
    }

    /// The rules to start when the daemon starts.
    pub fn restored(&self) -> (r: Vec<u128>)
        ensures
            r@ == auto_started(self@.rules),
    {
        let ghost all = rule::models(self.rules@);
        let mut out: Vec<u128> = Vec::new();
        let mut i: usize = 0;
        assert(all.take(0) =~= Seq::<rule::RuleModel>::empty());
        while i < self.rules.len()
            invariant
                i <= self.rules@.len(),
                all == rule::models(self.rules@),
                out@ == auto_started(all.take(i as int)),
            decreases self.rules.len() - i,
        {
            assert(all.take(i as int + 1).drop_last() =~= all.take(i as int));
            assert(all.take(i as int + 1).last() == self.rules@[i as int]@);
            if self.rules[i].auto_start() {
                out.push(self.rules[i].id().as_uuid());
            }
            i = i + 1;
        }
        assert(all.take(all.len() as int) =~= all);
        out
    }

    /// Whether a rule is to be brought up again when it ends.
    pub fn reconnects(&self, rule_id: u128) -> (r: bool)
        ensures
            r == (index_of_id(self@.rules, rule_id) < self@.rules.len() && self@.rules[index_of_id(
                self@.rules,
                rule_id,
            )].reconnect),
    {
        let k: usize = find_id(&self.rules, rule_id);
        k < self.rules.len() && self.rules[k].reconnect()
    }

    /// The attempts whose process is up, by rule.
    pub fn active(&self) -> (r: Vec<(u128, u128)>)
        ensures
            r@ == active_of(self@.running),
    {
        let ghost all = self.running@;
        let mut out: Vec<(u128, u128)> = Vec::new();
        let mut i: usize = 0;
        assert(all.take(0) =~= Seq::<(u128, Attempt)>::empty());
        while i < self.running.len()
            invariant
                i <= self.running@.len(),
                all == self.running@,
                out@ == active_of(all.take(i as int)),
            decreases self.running.len() - i,
        {
            assert(all.take(i as int + 1).drop_last() =~= all.take(i as int));
            assert(all.take(i as int + 1).last() == all[i as int]);
            match self.running[i].1 {
                Attempt::Active(number) => {
                    out.push((self.running[i].0, number));
                },
                Attempt::Starting(_) => {},
            }
            i = i + 1;
        }
        assert(all.take(all.len() as int) =~= all);
        out
    }
}

/// The IDs of the rules with the auto-start policy, in their order.
pub open spec fn auto_started(rules: Seq<rule::RuleModel>) -> Seq<u128>
    decreases rules.len(),
{
    if rules.len() == 0 {
        Seq::empty()
    } else {
        let earlier = auto_started(rules.drop_last());
        if rules.last().auto_start {
            earlier.push(rules.last().id)
        } else {
            earlier
        }
    }
}

pub open spec fn active_of(running: Seq<(u128, Attempt)>) -> Seq<(u128, u128)>
    decreases running.len(),
{
    if running.len() == 0 {
        Seq::empty()
    } else {
        let earlier = active_of(running.drop_last());
        match running.last().1 {
            Attempt::Active(number) => earlier.push((running.last().0, number)),
            Attempt::Starting(_) => earlier,
        }
    }
}

/// `r` is what a stop is answered and announced.
pub open spec fn reports_stop(
    plan: StopPlan,
    stopped: Result<(), String>,
    r: (Result<Reply, ProtocolError>, Option<Announcement>),
) -> bool {
    match (plan.attempt, stopped) {
        (Some(Attempt::Active(_)), Err(message)) => {
            &&& r.0 matches Err(error) && error@ == (ipc::Failure {
                code: ErrorCode::Internal,
                message: message@,
            })
            &&& r.1 is None
        },
        _ => {
            &&& r.0 == Ok::<Reply, ProtocolError>(
                Reply::Intent {
                    rule_id: plan.rule_id,
                    start_requested: false,
                    changed: plan.attempt is Some,
                },
            )
            &&& r.1 == (if plan.attempt is Some {
                Some(Announcement { event: EventKind::RuleStopped, rule_id: Some(plan.rule_id) })
            } else {
                None
            })
        },
    }
}

/// What a stop is answered, once the process of an attempt that was up is stopped.
pub fn stop_result(plan: StopPlan, stopped: Result<(), String>) -> (r: (
    Result<Reply, ProtocolError>,
    Option<Announcement>,
))
    ensures
        reports_stop(plan, stopped, r),
{
    let rule_id: u128 = plan.rule_id;
    let changed = plan.attempt.is_some();
    match plan.attempt {
        Some(Attempt::Active(_)) => match stopped {
            Ok(_) => {},
            Err(message) => {
                return (Err(failure(ErrorCode::Internal, message)), None);
            },
        },
        _ => {},
    }
    let announcement = if changed {
        Some(Announcement { event: EventKind::RuleStopped, rule_id: Some(rule_id) })
    } else {
        None
    };
    (Ok(Reply::Intent { rule_id, start_requested: false, changed }), announcement)
}

/// What a start is answered whose process had to be discarded.
pub fn discard_result(
    result: Result<Reply, ProtocolError>,
    stopped: Result<(), String>,
) -> (r: Result<Reply, ProtocolError>)
    ensures
        match stopped {
            Ok(_) => r == result,
            Err(message) => r matches Err(error) && error@ == (ipc::Failure {
                code: ErrorCode::Internal,
                message: message@,
            }),
        },
{
    match stopped {
        Ok(_) => result,
        Err(message) => Err(failure(ErrorCode::Internal, message)),
    }
}

// ---------------------------------------------------------------------------
// Laws
// ---------------------------------------------------------------------------
/// Starting a rule that is starting or up changes nothing and says so.
pub proof fn start_is_idempotent(
    m: ManagerModel,
    id: u128,
    attempt: Attempt,
    r: Result<StartPlan, ProtocolError>,
)
    requires
        index_of_id(m.rules, id) < m.rules.len(),
        plans_start(
            ManagerModel { running: with_attempt(m.running, id, attempt), ..m },
            Ok(Selector::Id(id)),
            r,
        ),
    ensures
        r == Ok::<StartPlan, ProtocolError>(
            StartPlan::Requested(
                Reply::Intent { rule_id: id, start_requested: true, changed: false },
            ),
        ),
{
    attempts_after_change(m.running, id, attempt, id);
}

/// A second stop finds no attempt and changes nothing.
pub proof fn stop_is_idempotent(running: Seq<(u128, Attempt)>, id: u128)
    ensures
        attempt_at(without_attempt(running, id), id) is None,
        without_attempt(without_attempt(running, id), id) == without_attempt(running, id),
{
    attempts_after_change(running, id, Attempt::Starting(0), id);
    without_twice(without_attempt(running, id), id);
}

/// A process that comes up after its rule was stopped is discarded and leaves no trace.
pub proof fn late_start_is_discarded(
    running: Seq<(u128, Attempt)>,
    id: u128,
    attempt_id: u128,
    r: StartResult,
)
    requires
        reports_start(
            without_attempt(running, id),
            id,
            attempt_id,
            StartOutcome::Started,
            r,
        ),
    ensures
        r.discard,
        r.announcement is None,
        r.result == Ok::<Reply, ProtocolError>(
            Reply::Intent { rule_id: id, start_requested: false, changed: true },
        ),
        running_after_start(
            without_attempt(running, id),
            id,
            attempt_id,
            StartOutcome::Started,
        ) == without_attempt(running, id),
{
    attempts_after_change(running, id, Attempt::Starting(0), id);
}

/// A start that succeeds without being stopped makes the rule active; other rules keep their
/// attempts.
pub proof fn start_makes_active(
    running: Seq<(u128, Attempt)>,
    id: u128,
    attempt_id: u128,
    other: u128,
)
    ensures
        attempt_at(
            running_after_start(
                with_attempt(running, id, Attempt::Starting(attempt_id)),
                id,
                attempt_id,
                StartOutcome::Started,
            ),
            other,
        ) == (if other == id {
            Some(Attempt::Active(attempt_id))
        } else {
            attempt_at(running, other)
        }),
{
    let starting = Attempt::Starting(attempt_id);
    let marked = with_attempt(running, id, starting);
    attempts_after_change(running, id, starting, id);
    attempts_after_change(running, id, starting, other);
    attempts_after_change(marked, id, Attempt::Active(attempt_id), other);
}

/// Storing a rule never touches a rule that runs.
pub proof fn adding_spares_running_rules(
    m: ManagerModel,
    payload: Result<WireRule, String>,
    i: int,
)
    requires
        rules_after_add(m, payload) is Ok,
        0 <= i < m.rules.len(),
        attempt_at(m.running, m.rules[i].id) is Some,
    ensures
        i < rules_after_add(m, payload)->Ok_0.len(),
        rules_after_add(m, payload)->Ok_0[i] == m.rules[i],
{
    id_position(m.rules, payload->Ok_0@.id);
}

/// Removing a rule never touches a rule that runs.
pub proof fn removing_spares_running_rules(
    m: ManagerModel,
    selector: Result<Selector, String>,
    i: int,
)
    requires
        rules_after_remove(m, selector) is Ok,
        0 <= i < m.rules.len(),
        attempt_at(m.running, m.rules[i].id) is Some,
    ensures
        rules_after_remove(m, selector)->Ok_0.contains(m.rules[i]),
{
    without_rule_has(m.rules, selected(m.rules, selector)->Ok_0);
}

/// No two rules have one ID.
pub open spec fn ids_are_unique(rules: Seq<rule::RuleModel>) -> bool {
    forall|i: int, j: int|
        0 <= i < j < rules.len() ==> (#[trigger] rules[i]).id != (#[trigger] rules[j]).id
}

/// Storing a rule keeps IDs unique.
pub proof fn adding_keeps_ids_unique(rules: Seq<rule::RuleModel>, m: rule::RuleModel)
    requires
        ids_are_unique(rules),
    ensures
        ids_are_unique(with_rule(rules, m)),
{
    id_position(rules, m.id);
    let all = with_rule(rules, m);
    let k = index_of_id(rules, m.id);
    assert forall|i: int, j: int| 0 <= i < j < all.len() implies (#[trigger] all[i]).id != (
    #[trigger] all[j]).id by {
        if k < rules.len() {
            assert(all[i].id == rules[i].id);
            assert(all[j].id == rules[j].id);
        } else {
            assert(all[i] == rules[i]);
            if j < rules.len() {
                assert(all[j] == rules[j]);
            }
        }
    }
}

/// A rule that was stored is found again under its ID as it was sent, and every rule with
/// another ID is as before.
pub proof fn stored_rule_is_found(m: ManagerModel, payload: Result<WireRule, String>, i: int)
    requires
        rules_after_add(m, payload) is Ok,
        0 <= i < m.rules.len(),
    ensures
        ({
            let next = rules_after_add(m, payload)->Ok_0;
            let sent = payload->Ok_0@;
            let k = index_of_id(next, sent.id);
            &&& k < next.len()
            &&& next[k] == sent
            &&& m.rules[i].id != sent.id ==> next[i] == m.rules[i]
        }),
{
    placed_rule_is_found(m.rules, payload->Ok_0@);
    id_position(m.rules, payload->Ok_0@.id);
}

proof fn placed_rule_is_found(rules: Seq<rule::RuleModel>, m: rule::RuleModel)
    ensures
        index_of_id(with_rule(rules, m), m.id) < with_rule(rules, m).len(),
        with_rule(rules, m)[index_of_id(with_rule(rules, m), m.id)] == m,
{
    let next = with_rule(rules, m);
    let k = index_of_id(rules, m.id);
    id_position(rules, m.id);
    id_position(next, m.id);
    let found = index_of_id(next, m.id);
    assert(next[k] == m);
    if found < k {
        assert(next[found] == rules[found]);
    }
}

/// A rule that was removed is not found any more, and every other rule still is.
pub proof fn removed_rule_is_gone(m: ManagerModel, selector: Result<Selector, String>, i: int)
    requires
        rules_after_remove(m, selector) is Ok,
        0 <= i < m.rules.len(),
    ensures
        ({
            let next = rules_after_remove(m, selector)->Ok_0;
            let id = selected(m.rules, selector)->Ok_0;
            &&& index_of_id(next, id) == next.len()
            &&& m.rules[i].id != id ==> next.contains(m.rules[i])
        }),
{
    let id = selected(m.rules, selector)->Ok_0;
    without_rule_has(m.rules, id);
    others_differ(m.rules, id);
    id_position(without_rule(m.rules, id), id);
}

proof fn others_differ(rules: Seq<rule::RuleModel>, id: u128)
    ensures
        forall|i: int|
            0 <= i < without_rule(rules, id).len() ==> (#[trigger] without_rule(rules, id)[i]).id
                != id,
    decreases rules.len(),
{
    if rules.len() > 0 {
        others_differ(rules.drop_last(), id);
    }
}

/// Removing a rule keeps IDs unique.
pub proof fn removing_keeps_ids_unique(rules: Seq<rule::RuleModel>, id: u128)
    requires
        ids_are_unique(rules),
    ensures
        ids_are_unique(without_rule(rules, id)),
    decreases rules.len(),
{
    if rules.len() > 0 {
        let earlier = rules.drop_last();
        removing_keeps_ids_unique(earlier, id);
        without_rule_has(earlier, id);
        let kept = without_rule(earlier, id);
        let all = without_rule(rules, id);
        assert forall|i: int, j: int| 0 <= i < j < all.len() implies (#[trigger] all[i]).id != (
        #[trigger] all[j]).id by {
            assert(all[i] == kept[i]);
            if j < kept.len() {
                assert(all[j] == kept[j]);
            } else {
                let k = choose|k: int| 0 <= k < earlier.len() && earlier[k] == kept[i];
                assert(rules[k] == kept[i]);
                assert(rules[rules.len() - 1] == all[j]);
            }
        }
    }
}

/// A start whose process printed something and failed is answered with a fixed sentence for the
/// kind of failure, and leaves the rule without an attempt. What was printed stands nowhere in the
/// answer, unless it happens to be part of that sentence.
pub proof fn failed_start_is_redacted(
    running: Seq<(u128, Attempt)>,
    id: u128,
    attempt_id: u128,
    failure: process::StartupFailure,
    output: Seq<char>,
    message: String,
    r: StartResult,
)
    requires
        text::trim(output).len() > 0,
        message@ == process::told(
            process::told(process::startup_message(failure, text::trim(output))),
        ),
        attempt_at(running, id) == Some(Attempt::Starting(attempt_id)),
        reports_start(running, id, attempt_id, StartOutcome::Failed(message), r),
    ensures
        r.result matches Err(error) && error@ == (ipc::Failure {
            code: ErrorCode::Unavailable,
            message: process::told(
                process::told(process::diagnosed(text::trim(output)).sentence()),
            ),
        }),
        !text::holds(
            process::told(process::told(process::diagnosed(text::trim(output)).sentence())),
            text::trim(output),
        ) ==> !text::holds(r.result->Err_0@.message, text::trim(output)),
        attempt_at(
            running_after_start(running, id, attempt_id, StartOutcome::Failed(message)),
            id,
        ) is None,
{
    attempts_after_change(running, id, Attempt::Starting(0), id);
}

/// Taking an attempt from a rule, as `begin_stop` does it.
pub open spec fn takes_attempt(
    running: Seq<(u128, Attempt)>,
    id: u128,
    plan: StopPlan,
    after: Seq<(u128, Attempt)>,
) -> bool {
    &&& plan.rule_id == id
    &&& plan.attempt == attempt_at(running, id)
    &&& after == without_attempt(running, id)
}

/// A rule that does not run and whose port is free is started, started, stopped and stopped. The
/// answers are that something changed, that nothing did, that something changed, that nothing
/// did. One start and one stop are announced, in this order, and in the end every rule has the
/// attempt that it had at first.
pub proof fn starting_and_stopping_twice(
    m: ManagerModel,
    id: u128,
    probe: PortProbe,
    attempt_id: u128,
    outcome: StartOutcome,
    first: Result<StartPlan, ProtocolError>,
    started: StartResult,
    second: Result<StartPlan, ProtocolError>,
    stop: StopPlan,
    stopped: (Result<Reply, ProtocolError>, Option<Announcement>),
    stop_again: StopPlan,
    stopped_again: (Result<Reply, ProtocolError>, Option<Announcement>),
    marked: Seq<(u128, Attempt)>,
    up: Seq<(u128, Attempt)>,
    down: Seq<(u128, Attempt)>,
    still_down: Seq<(u128, Attempt)>,
    other: u128,
)
    requires
        index_of_id(m.rules, id) < m.rules.len(),
        attempt_at(m.running, id) is None,
        probe_failure(m.rules[index_of_id(m.rules, id)], probe) is None,
        !(outcome is Failed),
        // The first start: planned, begun and finished.
        plans_start(m, Ok(Selector::Id(id)), first),
        marked == with_attempt(m.running, id, Attempt::Starting(attempt_id)),
        reports_start(marked, id, attempt_id, outcome, started),
        up == running_after_start(marked, id, attempt_id, outcome),
        // The second start.
        plans_start(ManagerModel { running: up, ..m }, Ok(Selector::Id(id)), second),
        // The two stops.
        stop_target(ManagerModel { running: up, ..m }, Ok(Selector::Id(id))) == Ok::<
            u128,
            ipc::Failure,
        >(stop.rule_id),
        takes_attempt(up, stop.rule_id, stop, down),
        reports_stop(stop, Ok(()), stopped),
        stop_target(ManagerModel { running: down, ..m }, Ok(Selector::Id(id))) == Ok::<
            u128,
            ipc::Failure,
        >(stop_again.rule_id),
        takes_attempt(down, stop_again.rule_id, stop_again, still_down),
        reports_stop(stop_again, Ok(()), stopped_again),
    ensures
        first matches Ok(StartPlan::Begin { value, .. }) && value@ == m.rules[index_of_id(
            m.rules,
            id,
        )],
        started.result == Ok::<Reply, ProtocolError>(
            Reply::Intent { rule_id: id, start_requested: true, changed: true },
        ),
        !started.discard,
        started.announcement == Some(
            Announcement { event: EventKind::RuleStarted, rule_id: Some(id) },
        ),
        second == Ok::<StartPlan, ProtocolError>(
            StartPlan::Requested(
                Reply::Intent { rule_id: id, start_requested: true, changed: false },
            ),
        ),
        stopped.0 == Ok::<Reply, ProtocolError>(
            Reply::Intent { rule_id: id, start_requested: false, changed: true },
        ),
        stopped.1 == Some(Announcement { event: EventKind::RuleStopped, rule_id: Some(id) }),
        stopped_again.0 == Ok::<Reply, ProtocolError>(
            Reply::Intent { rule_id: id, start_requested: false, changed: false },
        ),
        stopped_again.1 is None,
        attempt_at(still_down, other) == attempt_at(m.running, other),
{
    let begun = Attempt::Starting(attempt_id);
    attempts_after_change(m.running, id, begun, id);
    attempts_after_change(m.running, id, begun, other);
    let reached = match outcome {
        StartOutcome::Started => Attempt::Active(attempt_id),
        _ => begun,
    };
    attempts_after_change(marked, id, reached, id);
    attempts_after_change(marked, id, reached, other);
    attempts_after_change(up, id, begun, id);
    attempts_after_change(up, id, begun, other);
    attempts_after_change(down, id, begun, other);
}

// ---------------------------------------------------------------------------
// What the lists of rules and attempts hold
// ---------------------------------------------------------------------------
/// An attempt is found at its rule, and none is found where there is none.
pub proof fn attempts_are_looked_up(running: Seq<(u128, Attempt)>, id: u128, i: int)
    requires
        one_attempt_each(running),
    ensures
        0 <= i < running.len() && running[i].0 == id ==> attempt_at(running, id) == Some(
            running[i].1,
        ),
        attempt_at(running, id) matches Some(attempt) ==> running.contains((id, attempt)),
        attempt_at(running, id) is None <==> forall|k: int|
            0 <= k < running.len() ==> (#[trigger] running[k]).0 != id,
    decreases running.len(),
{
    if running.len() > 0 {
        let earlier = running.drop_last();
        assert forall|a: int, b: int| 0 <= a < b < earlier.len() implies (#[trigger] earlier[a]).0
            != (#[trigger] earlier[b]).0 by {
            assert(earlier[a] == running[a] && earlier[b] == running[b]);
        }
        attempts_are_looked_up(earlier, id, i);
        if running.last().0 == id {
            assert(running[running.len() - 1] == (id, running.last().1));
        } else {
            if attempt_at(earlier, id) is Some {
                let attempt = attempt_at(earlier, id)->0;
                let k = choose|k: int| 0 <= k < earlier.len() && earlier[k] == (id, attempt);
                assert(running[k] == (id, attempt));
            } else {
                assert forall|k: int| 0 <= k < running.len() implies (#[trigger] running[k]).0
                    != id by {
                    if k < earlier.len() {
                        assert(earlier[k] == running[k]);
                    }
                }
            }
        }
    }
}

/// Taking an attempt away or putting one in place leaves the attempts at all other rules, in their
/// order.
pub proof fn other_attempts_stay(running: Seq<(u128, Attempt)>, id: u128, attempt: Attempt)
    ensures
        without_attempt(running, id) == running.filter(|e: (u128, Attempt)| e.0 != id),
        with_attempt(running, id, attempt) == running.filter(|e: (u128, Attempt)| e.0 != id).push(
            (id, attempt),
        ),
    decreases running.len(),
{
    reveal(Seq::filter);
    if running.len() > 0 {
        other_attempts_stay(running.drop_last(), id, attempt);
    } else {
        assert(without_attempt(running, id) =~= running);
    }
}

/// Removing a rule leaves all others, in their order.
pub proof fn other_rules_stay(rules: Seq<rule::RuleModel>, id: u128)
    ensures
        without_rule(rules, id) == rules.filter(|m: rule::RuleModel| m.id != id),
    decreases rules.len(),
{
    reveal(Seq::filter);
    if rules.len() > 0 {
        other_rules_stay(rules.drop_last(), id);
    } else {
        assert(without_rule(rules, id) =~= rules);
    }
}

/// Attempts that are up end with their process. Attempts that are under way, and processes that
/// still run, stay.
pub proof fn only_ended_processes_leave(running: Seq<(u128, Attempt)>, exited: Seq<u128>)
    ensures
        still_running(running, exited) == running.filter(
            |e: (u128, Attempt)| e.1 is Starting || !exited.contains(e.0),
        ),
        ended(running, exited) == running.filter_map(
            |e: (u128, Attempt)|
                if e.1 is Active && exited.contains(e.0) {
                    Some(Announcement { event: EventKind::RuleFailed, rule_id: Some(e.0) })
                } else {
                    None
                },
        ),
        still_running(running, exited).len() + ended(running, exited).len() == running.len(),
    decreases running.len(),
{
    reveal(Seq::filter);
    if running.len() > 0 {
        only_ended_processes_leave(running.drop_last(), exited);
        let f = |e: (u128, Attempt)|
            if e.1 is Active && exited.contains(e.0) {
                Some(Announcement { event: EventKind::RuleFailed, rule_id: Some(e.0) })
            } else {
                None
            };
        assert(ended(running, exited) =~= running.filter_map(f));
    } else {
        assert(still_running(running, exited) =~= running);
    }
}

proof fn left_attempts(running: Seq<(u128, Attempt)>, exited: Seq<u128>, id: u128)
    requires
        one_attempt_each(running),
    ensures
        attempt_at(still_running(running, exited), id) == (match attempt_at(running, id) {
            Some(Attempt::Active(n)) => if exited.contains(id) {
                None
            } else {
                Some(Attempt::Active(n))
            },
            other => other,
        }),
    decreases running.len(),
{
    if running.len() > 0 {
        let earlier = running.drop_last();
        assert forall|a: int, b: int| 0 <= a < b < earlier.len() implies (#[trigger] earlier[a]).0
            != (#[trigger] earlier[b]).0 by {
            assert(earlier[a] == running[a] && earlier[b] == running[b]);
        }
        left_attempts(earlier, exited, id);
        attempts_are_looked_up(earlier, running.last().0, 0);
        assert forall|k: int| 0 <= k < earlier.len() implies (#[trigger] earlier[k]).0
            != running.last().0 by {
            assert(earlier[k] == running[k]);
            assert(running[k].0 != running[running.len() - 1].0);
        }
        let rest = still_running(earlier, exited);
        assert(rest.push(running.last()).drop_last() =~= rest);
    }
}

/// The state of a rule is reported as it is: up exactly if an attempt at it is up, starting exactly
/// if one is under way, and stopped exactly if there is none.
pub proof fn reported_states_are_the_attempts(m: ManagerModel, r: Reply, i: int)
    requires
        one_attempt_each(m.running),
        is_status(m, r),
        0 <= i < m.rules.len(),
    ensures
        r matches Reply::Status { forwards, .. } && {
            let id = m.rules[i].id;
            &&& forwards@[i].rule_id == id
            &&& forwards@[i].name@ == m.rules[i].name
            &&& forwards@[i].state == RunState::Active <==> exists|k: int|
                0 <= k < m.running.len() && (#[trigger] m.running[k]).0 == id
                    && m.running[k].1 is Active
            &&& forwards@[i].state == RunState::Starting <==> exists|k: int|
                0 <= k < m.running.len() && (#[trigger] m.running[k]).0 == id
                    && m.running[k].1 is Starting
            &&& forwards@[i].state == RunState::Stopped <==> forall|k: int|
                0 <= k < m.running.len() ==> (#[trigger] m.running[k]).0 != id
        },
{
    let id = m.rules[i].id;
    attempts_are_looked_up(m.running, id, 0);
    assert forall|k: int| 0 <= k < m.running.len() && (#[trigger] m.running[k]).0 == id implies
        attempt_at(m.running, id) == Some(m.running[k].1) by {
        attempts_are_looked_up(m.running, id, k);
    }
    if attempt_at(m.running, id) is Some {
        let attempt = attempt_at(m.running, id)->0;
        let k = choose|k: int| 0 <= k < m.running.len() && m.running[k] == (id, attempt);
        assert(m.running[k].0 == id && m.running[k].1 == attempt);
    }
    assert(r->forwards@[i].state == run_state(attempt_at(m.running, id)));
}

/// After a start that succeeds, the next status reports the rule as up, unless its process ended
/// meanwhile. In that case the rule is reported as stopped.
pub proof fn a_started_rule_is_reported_active(
    m: ManagerModel,
    i: int,
    attempt_id: u128,
    exited: Seq<u128>,
    r: Reply,
)
    requires
        one_attempt_each(m.running),
        0 <= i < m.rules.len(),
        is_status(
            ManagerModel {
                running: still_running(
                    running_after_start(
                        with_attempt(m.running, m.rules[i].id, Attempt::Starting(attempt_id)),
                        m.rules[i].id,
                        attempt_id,
                        StartOutcome::Started,
                    ),
                    exited,
                ),
                ..m
            },
            r,
        ),
    ensures
        r matches Reply::Status { forwards, .. } && forwards@[i].rule_id == m.rules[i].id
            && forwards@[i].state == (if exited.contains(m.rules[i].id) {
            RunState::Stopped
        } else {
            RunState::Active
        }),
{
    let id = m.rules[i].id;
    let marked = with_attempt(m.running, id, Attempt::Starting(attempt_id));
    let up = running_after_start(marked, id, attempt_id, StartOutcome::Started);
    attempts_after_change(m.running, id, Attempt::Starting(attempt_id), id);
    attempts_after_change(marked, id, Attempt::Active(attempt_id), id);
    with_keeps_one_each(m.running, id, Attempt::Starting(attempt_id));
    with_keeps_one_each(marked, id, Attempt::Active(attempt_id));
    left_attempts(up, exited, id);
    assert(r->forwards@[i].state == run_state(attempt_at(still_running(up, exited), id)));
}

/// How many of the rules are reported in a state.
pub open spec fn reported(forwards: Seq<ForwardStatus>, state: RunState) -> nat
    decreases forwards.len(),
{
    if forwards.len() == 0 {
        0
    } else {
        reported(forwards.drop_last(), state) + (if forwards.last().state == state {
            1nat
        } else {
            0nat
        })
    }
}

/// How many of the rules have an attempt that is up, or one that is under way.
spec fn rules_with(rules: Seq<rule::RuleModel>, running: Seq<(u128, Attempt)>, up: bool) -> nat
    decreases rules.len(),
{
    if rules.len() == 0 {
        0
    } else {
        rules_with(rules.drop_last(), running, up) + (match attempt_at(running, rules.last().id) {
            Some(attempt) => if attempt is Active == up {
                1nat
            } else {
                0nat
            },
            None => 0nat,
        })
    }
}

proof fn nobody_has_no_attempt(rules: Seq<rule::RuleModel>, up: bool)
    ensures
        rules_with(rules, Seq::empty(), up) == 0,
    decreases rules.len(),
{
    if rules.len() > 0 {
        nobody_has_no_attempt(rules.drop_last(), up);
    }
}

proof fn strangers_do_not_count(
    rules: Seq<rule::RuleModel>,
    running: Seq<(u128, Attempt)>,
    entry: (u128, Attempt),
    up: bool,
)
    requires
        forall|k: int| 0 <= k < rules.len() ==> (#[trigger] rules[k]).id != entry.0,
    ensures
        rules_with(rules, running.push(entry), up) == rules_with(rules, running, up),
    decreases rules.len(),
{
    if rules.len() > 0 {
        let fewer = rules.drop_last();
        assert forall|k: int| 0 <= k < fewer.len() implies (#[trigger] fewer[k]).id != entry.0 by {
            assert(fewer[k] == rules[k]);
        }
        strangers_do_not_count(fewer, running, entry, up);
        assert(rules[rules.len() - 1].id != entry.0);
        assert(running.push(entry).drop_last() =~= running);
    }
}

proof fn one_more_attempt(
    rules: Seq<rule::RuleModel>,
    running: Seq<(u128, Attempt)>,
    entry: (u128, Attempt),
    k: int,
    up: bool,
)
    requires
        ids_are_unique(rules),
        attempt_at(running, entry.0) is None,
        0 <= k < rules.len(),
        rules[k].id == entry.0,
    ensures
        rules_with(rules, running.push(entry), up) == rules_with(rules, running, up) + (if entry.1
            is Active == up {
            1nat
        } else {
            0nat
        }),
    decreases rules.len(),
{
    let fewer = rules.drop_last();
    assert(running.push(entry).drop_last() =~= running);
    assert forall|i: int, j: int| 0 <= i < j < fewer.len() implies (#[trigger] fewer[i]).id != (
    #[trigger] fewer[j]).id by {
        assert(fewer[i] == rules[i] && fewer[j] == rules[j]);
    }
    if k == rules.len() - 1 {
        assert forall|i: int| 0 <= i < fewer.len() implies (#[trigger] fewer[i]).id != entry.0 by {
            assert(fewer[i] == rules[i]);
            assert(rules[i].id != rules[k].id);
        }
        strangers_do_not_count(fewer, running, entry, up);
    } else {
        assert(fewer[k] == rules[k]);
        one_more_attempt(fewer, running, entry, k, up);
        assert(rules[rules.len() - 1].id != rules[k].id);
    }
}

proof fn attempts_are_counted(rules: Seq<rule::RuleModel>, running: Seq<(u128, Attempt)>)
    requires
        ids_are_unique(rules),
        one_attempt_each(running),
        forall|k: int|
            0 <= k < running.len() ==> exists|i: int|
                0 <= i < rules.len() && (#[trigger] rules[i]).id == (#[trigger] running[k]).0,
    ensures
        rules_with(rules, running, true) == active_count(running),
        rules_with(rules, running, false) == running.len() - active_count(running),
    decreases running.len(),
{
    if running.len() == 0 {
        assert(running =~= Seq::empty());
        nobody_has_no_attempt(rules, true);
        nobody_has_no_attempt(rules, false);
    } else {
        let earlier = running.drop_last();
        let entry = running.last();
        assert forall|a: int, b: int| 0 <= a < b < earlier.len() implies (#[trigger] earlier[a]).0
            != (#[trigger] earlier[b]).0 by {
            assert(earlier[a] == running[a] && earlier[b] == running[b]);
        }
        assert forall|k: int| 0 <= k < earlier.len() implies exists|i: int|
            0 <= i < rules.len() && (#[trigger] rules[i]).id == (#[trigger] earlier[k]).0 by {
            assert(earlier[k] == running[k]);
        }
        attempts_are_counted(rules, earlier);
        attempts_are_looked_up(earlier, entry.0, 0);
        assert forall|k: int| 0 <= k < earlier.len() implies (#[trigger] earlier[k]).0 != entry.0 by {
            assert(earlier[k] == running[k]);
            assert(running[k].0 != running[running.len() - 1].0);
        }
        assert(running[running.len() - 1] == entry);
        let i = choose|i: int| 0 <= i < rules.len() && (#[trigger] rules[i]).id == entry.0;
        assert(earlier.push(entry) =~= running);
        one_more_attempt(rules, earlier, entry, i, true);
        one_more_attempt(rules, earlier, entry, i, false);
    }
}

proof fn reports_are_counted(
    rules: Seq<rule::RuleModel>,
    running: Seq<(u128, Attempt)>,
    forwards: Seq<ForwardStatus>,
)
    requires
        forwards.len() == rules.len(),
        forall|i: int|
            0 <= i < rules.len() ==> (#[trigger] forwards[i]).state == run_state(
                attempt_at(running, rules[i].id),
            ),
    ensures
        reported(forwards, RunState::Active) == rules_with(rules, running, true),
        reported(forwards, RunState::Starting) == rules_with(rules, running, false),
    decreases rules.len(),
{
    if rules.len() > 0 {
        let fewer = rules.drop_last();
        let shorter = forwards.drop_last();
        assert forall|i: int| 0 <= i < fewer.len() implies (#[trigger] shorter[i]).state
            == run_state(attempt_at(running, fewer[i].id)) by {
            assert(shorter[i] == forwards[i] && fewer[i] == rules[i]);
        }
        reports_are_counted(fewer, running, shorter);
        assert(forwards[rules.len() - 1].state == run_state(
            attempt_at(running, rules[rules.len() - 1].id),
        ));
    }
}

/// As many rules are reported as up as the count of active rules says, and as many as starting as
/// the count of starting ones says, as long as every attempt is at a rule of its own.
pub proof fn counts_agree_with_the_states(m: ManagerModel, r: Reply)
    requires
        ids_are_unique(m.rules),
        one_attempt_each(m.running),
        forall|k: int|
            0 <= k < m.running.len() ==> exists|i: int|
                0 <= i < m.rules.len() && (#[trigger] m.rules[i]).id == (#[trigger] m.running[k]).0,
        is_status(m, r),
    ensures
        r matches Reply::Status { rules, active, starting, forwards } && rules == m.rules.len()
            && reported(forwards@, RunState::Active) == active && reported(
            forwards@,
            RunState::Starting,
        ) == starting && active + starting == m.running.len(),
{
    attempts_are_counted(m.rules, m.running);
    reports_are_counted(m.rules, m.running, r->forwards@);
}

/// A name selects the rule that has it, and an ID selects itself. A name that no rule has is not
/// found, and a selector that cannot be read is an invalid request.
pub proof fn selectors_find_their_rule(rules: Seq<rule::RuleModel>, i: int, word: String, id: u128)
    requires
        validation::rule_set_valid(rules),
    ensures
        selected(rules, Ok(Selector::Id(id))) == Ok::<u128, ipc::Failure>(id),
        0 <= i < rules.len() && rules[i].name == word@ ==> selected(rules, Ok(Selector::Name(word)))
            == Ok::<u128, ipc::Failure>(rules[i].id),
        (forall|k: int| 0 <= k < rules.len() ==> (#[trigger] rules[k]).name != word@) ==> selected(
            rules,
            Ok(Selector::Name(word)),
        ) == Err::<u128, ipc::Failure>(
            ipc::Failure { code: ErrorCode::NotFound, message: "rule was not found"@ },
        ),
        selected(rules, Err(word)) == Err::<u128, ipc::Failure>(
            ipc::Failure { code: ErrorCode::InvalidRequest, message: word@ },
        ),
{
    name_position(rules, word@);
    let k = index_of_name(rules, word@);
    if 0 <= i < rules.len() && rules[i].name == word@ {
        if k < i {
            assert(rules[k].name != rules[i].name);
        }
    }
}

/// A rule that is sent is stored unless it is invalid, unless it would replace one that runs, and
/// unless the rules would then share a name or a listener. Each of these is told.
pub proof fn adding_is_refused_for_a_reason(m: ManagerModel, wire: WireRule)
    ensures
        ({
            let r = rules_after_add(m, Ok(wire));
            let known = exists|i: int| 0 <= i < m.rules.len() && (#[trigger] m.rules[i]).id == wire@.id;
            let next = if known {
                m.rules.update(index_of_id(m.rules, wire@.id), wire@)
            } else {
                m.rules.push(wire@)
            };
            match rule::rule_refusal(wire@) {
                Some(refusal) => r == Err::<Seq<rule::RuleModel>, ipc::Failure>(
                    ipc::Failure {
                        code: ErrorCode::InvalidRequest,
                        message: validation::refusal_message(refusal),
                    },
                ),
                None => {
                    &&& known && attempt_at(m.running, wire@.id) is Some ==> r == Err::<
                        Seq<rule::RuleModel>,
                        ipc::Failure,
                    >(
                        ipc::Failure {
                            code: ErrorCode::Conflict,
                            message: "an active rule cannot be edited"@,
                        },
                    )
                    &&& !(known && attempt_at(m.running, wire@.id) is Some) ==> {
                        &&& r is Ok <==> validation::rule_set_valid(next)
                        &&& r is Ok ==> r->Ok_0 == next
                        &&& r is Err ==> r->Err_0.code == ErrorCode::Conflict
                            && r->Err_0.message == "invalid rule set: "@ + store::rule_set_debug(
                            validation::rule_set_errors(next),
                        )
                    }
                },
            }
        }),
{
    id_position(m.rules, wire@.id);
    let k = index_of_id(m.rules, wire@.id);
    if exists|i: int| 0 <= i < m.rules.len() && (#[trigger] m.rules[i]).id == wire@.id {
        let i = choose|i: int| 0 <= i < m.rules.len() && (#[trigger] m.rules[i]).id == wire@.id;
        assert(k <= i);
    }
}

/// A rule is removed unless it runs or does not exist.
pub proof fn removing_is_refused_for_a_reason(m: ManagerModel, id: u128)
    ensures
        ({
            let r = rules_after_remove(m, Ok(Selector::Id(id)));
            let known = exists|i: int| 0 <= i < m.rules.len() && (#[trigger] m.rules[i]).id == id;
            &&& attempt_at(m.running, id) is Some ==> r == Err::<Seq<rule::RuleModel>, ipc::Failure>(
                ipc::Failure {
                    code: ErrorCode::Conflict,
                    message: "an active rule cannot be removed"@,
                },
            )
            &&& attempt_at(m.running, id) is None && known ==> r == Ok::<
                Seq<rule::RuleModel>,
                ipc::Failure,
            >(m.rules.filter(|m: rule::RuleModel| m.id != id))
            &&& attempt_at(m.running, id) is None && !known ==> r == Err::<
                Seq<rule::RuleModel>,
                ipc::Failure,
            >(ipc::Failure { code: ErrorCode::NotFound, message: "rule was not found"@ })
        }),
{
    other_rules_stay(m.rules, id);
    removal_shortens(m.rules, id);
}

proof fn removal_shortens(rules: Seq<rule::RuleModel>, id: u128)
    ensures
        without_rule(rules, id).len() <= rules.len(),
        without_rule(rules, id).len() == rules.len() <==> forall|i: int|
            0 <= i < rules.len() ==> (#[trigger] rules[i]).id != id,
    decreases rules.len(),
{
    if rules.len() > 0 {
        let fewer = rules.drop_last();
        removal_shortens(fewer, id);
        if without_rule(rules, id).len() == rules.len() {
            assert forall|i: int| 0 <= i < rules.len() implies (#[trigger] rules[i]).id != id by {
                if i < fewer.len() {
                    assert(fewer[i] == rules[i]);
                }
            }
        }
        if forall|i: int| 0 <= i < rules.len() ==> (#[trigger] rules[i]).id != id {
            assert forall|i: int| 0 <= i < fewer.len() implies (#[trigger] fewer[i]).id != id by {
                assert(fewer[i] == rules[i]);
            }
            assert(rules[rules.len() - 1].id != id);
        }
    }
}

/// Rules are imported all together, behind those that are there, or not at all.
pub proof fn imports_are_all_or_nothing(m: ManagerModel, payload: Result<Vec<WireRule>, String>)
    ensures
        ({
            let r = rules_after_import(m, payload);
            &&& payload matches Err(message) ==> r == Err::<Seq<rule::RuleModel>, ipc::Failure>(
                ipc::Failure { code: ErrorCode::InvalidRequest, message: message@ },
            )
            &&& payload matches Ok(wires) ==> {
                let next = m.rules + config::wires(wires@);
                match conversion::first_refusal(config::wires(wires@)) {
                    Some(refusal) => r == Err::<Seq<rule::RuleModel>, ipc::Failure>(
                        ipc::Failure {
                            code: ErrorCode::InvalidRequest,
                            message: validation::refusal_message(refusal),
                        },
                    ),
                    None => {
                        &&& r is Ok <==> validation::rule_set_valid(next)
                        &&& r is Ok ==> r->Ok_0 == next
                        &&& r is Err ==> r->Err_0.code == ErrorCode::Conflict
                    },
                }
            }
        }),
{
}

/// A change that was saved takes effect and one that failed does not. Where it is uncertain whether
/// the configuration will last, only an import takes effect. A change is confirmed under the IDs
/// that it is about.
pub proof fn saved_changes_take_effect(change: ChangeModel, saved: SaveOutcome, r: Reply, id: u128)
    ensures
        saved is Saved ==> takes_effect(change.effect, saved),
        saved is Failed ==> !takes_effect(change.effect, saved),
        saved is Uncertain ==> (takes_effect(change.effect, saved) <==> change.effect is Imported),
        change.effect == EffectModel::Stored(id) ==> subject(change.effect) == Some(id) && (confirms(
            change,
            r,
        ) <==> r == (Reply::RuleStored { rule_id: id })),
        change.effect == EffectModel::Removed(id) ==> subject(change.effect) == Some(id) && (
        confirms(change, r) <==> r == (Reply::RuleRemoved { rule_id: id })),
        change.effect matches EffectModel::Imported(ids) ==> subject(change.effect) is None && (
        confirms(change, r) ==> r is Imported && r->Imported_rule_ids@ == ids),
        change.effect is Configured ==> subject(change.effect) is None && (confirms(change, r)
            <==> r == Reply::Settings(change.settings)),
        saved matches SaveOutcome::Uncertain(message) ==> save_complaint(saved) == message@,
        saved matches SaveOutcome::Failed(message) ==> save_complaint(saved) == message@,
{
}

/// The IDs of rules are listed in their order.
pub proof fn ids_are_listed_in_order(rules: Seq<rule::RuleModel>, i: int)
    requires
        0 <= i < rules.len(),
    ensures
        wire_ids(rules).len() == rules.len(),
        wire_ids(rules)[i] == rules[i].id,
{
}

/// The port of a local or dynamic rule is tried where the rule will listen; a rule for every
/// interface is tried at the unspecified address. A remote rule has nothing to try and is never
/// refused for its port.
pub proof fn ports_are_tried_where_rules_listen(m: rule::RuleModel, probe: PortProbe)
    ensures
        m.forwarding is Remote ==> probe_of(m) is None && probe_failure(m, probe) is None,
        !(m.forwarding is Remote) ==> {
            let port = m.forwarding.bind_port();
            let address = if m.forwarding.bind_address() == "*"@ {
                "0.0.0.0"@
            } else {
                m.forwarding.bind_address()
            };
            &&& probe_of(m) == Some((address, port))
            &&& probe is Free ==> probe_failure(m, probe) is None
            &&& probe is InUse ==> probe_failure(m, probe) == Some(
                ipc::Failure {
                    code: ErrorCode::Conflict,
                    message: "local listener "@ + address + ":"@ + text::decimal(port as nat)
                        + " is already in use"@,
                },
            )
            &&& probe matches PortProbe::Failed(cause) ==> probe_failure(m, probe) == Some(
                ipc::Failure {
                    code: ErrorCode::Unavailable,
                    message: "local listener cannot be checked: "@ + cause@,
                },
            )
        },
{
}

/// A rule that does not exist is not started. One that has an attempt is left alone. Any other is
/// started as it is stored.
pub proof fn starts_are_planned_once(m: ManagerModel, id: u128, r: Result<StartPlan, ProtocolError>)
    requires
        plans_start(m, Ok(Selector::Id(id)), r),
    ensures
        (forall|i: int| 0 <= i < m.rules.len() ==> (#[trigger] m.rules[i]).id != id) ==> r is Err
            && r->Err_0@ == (ipc::Failure {
            code: ErrorCode::NotFound,
            message: "rule was not found"@,
        }),
        r matches Ok(StartPlan::Begin { value, probe }) ==> value@.id == id && m.rules.contains(
            value@,
        ) && attempt_at(m.running, id) is None && (probe is None <==> value@.forwarding is Remote),
        (exists|i: int| 0 <= i < m.rules.len() && (#[trigger] m.rules[i]).id == id) ==> r is Ok && (
        r->Ok_0 is Begin <==> attempt_at(m.running, id) is None),
{
    id_position(m.rules, id);
    let k = index_of_id(m.rules, id);
    if exists|i: int| 0 <= i < m.rules.len() && (#[trigger] m.rules[i]).id == id {
        let i = choose|i: int| 0 <= i < m.rules.len() && (#[trigger] m.rules[i]).id == id;
        assert(k <= i);
    }
}

/// An attempt that succeeds is up, one that fails is gone, and one without a process stays under
/// way. The attempts at other rules are not touched, and neither is a newer attempt at the rule.
pub proof fn attempts_end_as_they_turn_out(
    running: Seq<(u128, Attempt)>,
    id: u128,
    attempt_id: u128,
    outcome: StartOutcome,
    other: u128,
)
    ensures
        ({
            let after = running_after_start(running, id, attempt_id, outcome);
            &&& other != id ==> attempt_at(after, other) == attempt_at(running, other)
            &&& attempt_at(running, id) != Some(Attempt::Starting(attempt_id)) ==> after == running
            &&& attempt_at(running, id) == Some(Attempt::Starting(attempt_id)) ==> {
                &&& outcome is Started ==> attempt_at(after, id) == Some(
                    Attempt::Active(attempt_id),
                )
                &&& outcome is Unmanaged ==> attempt_at(after, id) == Some(
                    Attempt::Starting(attempt_id),
                )
                &&& outcome is Failed ==> attempt_at(after, id) is None
            }
        }),
{
    attempts_after_change(running, id, Attempt::Active(attempt_id), id);
    attempts_after_change(running, id, Attempt::Active(attempt_id), other);
    attempts_after_change(running, id, Attempt::Starting(attempt_id), id);
    attempts_after_change(running, id, Attempt::Starting(attempt_id), other);
}

/// A start is announced exactly if it worked and was not overtaken by a stop. A process that is up
/// although its rule was stopped meanwhile is discarded, and no other is.
pub proof fn starts_are_answered_as_they_turn_out(
    running: Seq<(u128, Attempt)>,
    id: u128,
    attempt_id: u128,
    outcome: StartOutcome,
    r: StartResult,
)
    requires
        reports_start(running, id, attempt_id, outcome, r),
    ensures
        ({
            let wanted = attempt_at(running, id) == Some(Attempt::Starting(attempt_id));
            &&& r.announcement is Some <==> wanted && !(outcome is Failed)
            &&& r.announcement is Some ==> r.announcement == Some(
                Announcement { event: EventKind::RuleStarted, rule_id: Some(id) },
            )
            &&& r.discard <==> outcome is Started && !wanted
            &&& outcome is Failed <==> r.result is Err
            &&& outcome matches StartOutcome::Failed(message) ==> r.result->Err_0@ == (ipc::Failure {
                code: ErrorCode::Unavailable,
                message: message@,
            })
            &&& !(outcome is Failed) ==> r.result == Ok::<Reply, ProtocolError>(
                Reply::Intent { rule_id: id, start_requested: wanted, changed: true },
            )
        }),
{
}

/// A stop is announced exactly if there was an attempt and its process could be ended. A process
/// that could not be ended is an internal failure.
pub proof fn stops_are_answered_as_they_turn_out(
    plan: StopPlan,
    stopped: Result<(), String>,
    r: (Result<Reply, ProtocolError>, Option<Announcement>),
)
    requires
        reports_stop(plan, stopped, r),
    ensures
        ({
            let stuck = stopped is Err && plan.attempt is Some && plan.attempt->0 is Active;
            &&& stuck <==> r.0 is Err
            &&& stuck ==> r.0->Err_0@ == (ipc::Failure {
                code: ErrorCode::Internal,
                message: stopped->Err_0@,
            })
            &&& !stuck ==> r.0 == Ok::<Reply, ProtocolError>(
                Reply::Intent {
                    rule_id: plan.rule_id,
                    start_requested: false,
                    changed: plan.attempt is Some,
                },
            )
            &&& r.1 is Some <==> plan.attempt is Some && !stuck
            &&& r.1 is Some ==> r.1 == Some(
                Announcement { event: EventKind::RuleStopped, rule_id: Some(plan.rule_id) },
            )
        }),
{
}

/// A rule that exists can be stopped, and one that does not is not found.
pub proof fn existing_rules_can_be_stopped(m: ManagerModel, id: u128)
    ensures
        (exists|i: int| 0 <= i < m.rules.len() && (#[trigger] m.rules[i]).id == id) ==> stop_target(
            m,
            Ok(Selector::Id(id)),
        ) == Ok::<u128, ipc::Failure>(id),
        (forall|i: int| 0 <= i < m.rules.len() ==> (#[trigger] m.rules[i]).id != id) ==> stop_target(
            m,
            Ok(Selector::Id(id)),
        ) == Err::<u128, ipc::Failure>(
            ipc::Failure { code: ErrorCode::NotFound, message: "rule was not found"@ },
        ),
{
    id_position(m.rules, id);
    let k = index_of_id(m.rules, id);
    if exists|i: int| 0 <= i < m.rules.len() && (#[trigger] m.rules[i]).id == id {
        let i = choose|i: int| 0 <= i < m.rules.len() && (#[trigger] m.rules[i]).id == id;
        assert(k <= i);
    }
}

/// The rules that are started by themselves are those with that policy, in their order.
pub proof fn only_auto_started_rules_are_restored(rules: Seq<rule::RuleModel>)
    ensures
        auto_started(rules) == rules.filter_map(
            |m: rule::RuleModel|
                if m.auto_start {
                    Some(m.id)
                } else {
                    None
                },
        ),
    decreases rules.len(),
{
    if rules.len() > 0 {
        only_auto_started_rules_are_restored(rules.drop_last());
        let f = |m: rule::RuleModel|
            if m.auto_start {
                Some(m.id)
            } else {
                None
            };
        assert(auto_started(rules) =~= rules.filter_map(f));
    }
}

/// The attempts that are up are listed with their rule and their number, and no others.
pub proof fn active_attempts_are_listed(running: Seq<(u128, Attempt)>)
    ensures
        active_of(running) == running.filter_map(
            |e: (u128, Attempt)|
                match e.1 {
                    Attempt::Active(number) => Some((e.0, number)),
                    Attempt::Starting(_) => None,
                },
        ),
        active_of(running).len() == active_count(running),
    decreases running.len(),
{
    if running.len() > 0 {
        active_attempts_are_listed(running.drop_last());
        let f = |e: (u128, Attempt)|
            match e.1 {
                Attempt::Active(number) => Some((e.0, number)),
                Attempt::Starting(_) => None,
            };
        assert(active_of(running) =~= running.filter_map(f));
    }
}

/// What values say is what they hold.
pub proof fn effects_say_what_they_hold(effect: Effect)
    ensures
        effect matches Effect::Stored(id) ==> effect@ == EffectModel::Stored(id),
        effect matches Effect::Removed(id) ==> effect@ == EffectModel::Removed(id),
        effect matches Effect::Imported(ids) ==> effect@ == EffectModel::Imported(ids@),
        effect is Configured ==> effect@ is Configured,
{
}

} // verus!
