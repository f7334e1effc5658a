//! Editing operations on the routing table, as the rules page performs them.
//! Each returns whether the edit is to be saved.

use vstd::prelude::*;
use crate::model::strings_view;
use crate::tracker::IpAddress;
use crate::routing::{Action, ActionModel, Condition, ConditionModel, GroupStrategy, RoutingGroup, RoutingGroupModel, Rule, RuleModel, RuleSetSource, RuleSetSourceModel, opt_view, strategy_at};
use crate::table::{decimal, find_group, find_rule, find_rule_set, first_group, first_rule, first_rule_set, groups_view, numbered, rule_sets_view, rules_view, sort_by_priority, sort_rules_by_priority};
use crate::text::{chars_of, find_char, index_of, lemma_index_of_bounds, lemma_map_push, parse_u64, parse_u64_chars, starts_with_chars, starts_with_seq, string_from_chars, sub_chars, trim, trim_range};

verus! {

/// The rules, groups and rule sets the client routes by, with the error
/// message each editor shows.
pub struct RoutingTable {
    pub rules: Vec<Rule>,
    pub groups: Vec<RoutingGroup>,
    pub rule_sets: Vec<RuleSetSource>,
    pub rule_editor_error: Option<String>,
    pub group_error: Option<String>,
    pub rule_set_error: Option<String>,
}

/// The prefix of DNS action targets.
pub open spec fn dns_prefix() -> Seq<char> {
    seq!['d', 'n', 's', ':']
}

/// `s` with every leading `dns:` removed.
pub open spec fn strip_dns(s: Seq<char>) -> Seq<char>
    decreases s.len(),
{
    if s.len() >= 4 && starts_with_seq(s, dns_prefix()) {
        strip_dns(s.skip(4))
    } else {
        s
    }
}

/// The action an action-selector value sets: `direct`, `block`, a `dns:`
/// server, or any other non-blank value as a group id; a blank value keeps
/// the current action.
pub open spec fn target_action(t: Seq<char>, current: ActionModel) -> ActionModel {
    if t == "direct"@ {
        ActionModel::Direct
    } else if t == "block"@ {
        ActionModel::Block
    } else if starts_with_seq(t, dns_prefix()) {
        ActionModel::Dns(strip_dns(t))
    } else if trim(t).len() > 0 {
        ActionModel::Proxy(t)
    } else {
        current
    }
}

/// Some rule has a `RuleSet(id)` condition.
pub open spec fn rule_set_referenced(rules: Seq<RuleModel>, id: Seq<char>) -> bool {
    exists|i: int, j: int|
        0 <= i < rules.len() && 0 <= j < rules[i].conditions.len() && (#[trigger] rules[i].conditions[j])
            == ConditionModel::RuleSet(id)
}

/// Some rule sends traffic to the group `id`.
pub open spec fn group_referenced(rules: Seq<RuleModel>, id: Seq<char>) -> bool {
    exists|i: int| 0 <= i < rules.len() && (#[trigger] rules[i]).action == ActionModel::Proxy(id)
}

/// The rules without those whose id is `id`.
pub open spec fn rules_without(s: Seq<RuleModel>, id: Seq<char>) -> Seq<RuleModel>
    decreases s.len(),
{
    if s.len() == 0 {
        Seq::empty()
    } else if s.last().id == id {
        rules_without(s.drop_last(), id)
    } else {
        rules_without(s.drop_last(), id).push(s.last())
    }
}

pub open spec fn groups_without(s: Seq<RoutingGroupModel>, id: Seq<char>) -> Seq<RoutingGroupModel>
    decreases s.len(),
{
    if s.len() == 0 {
        Seq::empty()
    } else if s.last().id == id {
        groups_without(s.drop_last(), id)
    } else {
        groups_without(s.drop_last(), id).push(s.last())
    }
}

pub open spec fn rule_sets_without(s: Seq<RuleSetSourceModel>, id: Seq<char>) -> Seq<RuleSetSourceModel>
    decreases s.len(),
{
    if s.len() == 0 {
        Seq::empty()
    } else if s.last().id == id {
        rule_sets_without(s.drop_last(), id)
    } else {
        rule_sets_without(s.drop_last(), id).push(s.last())
    }
}

/// The highest priority among the rules, or 0 when there are none.
pub open spec fn max_priority(s: Seq<RuleModel>) -> int
    decreases s.len(),
{
    if s.len() == 0 {
        0
    } else if s.len() == 1 {
        s[0].priority as int
    } else {
        let m = max_priority(s.drop_last());
        if s.last().priority > m { s.last().priority as int } else { m }
    }
}

/// The rule a new custom rule starts as.
pub open spec fn new_custom_rule(rules: Seq<RuleModel>) -> RuleModel {
    RuleModel {
        id: "custom-"@ + decimal((rules.len() + 1) as nat),
        priority: (max_priority(rules) + 10) as i32,
        conditions: seq![ConditionModel::DomainSuffix("example.com"@)],
        action: ActionModel::Proxy("proxy"@),
    }
}

/// The group a new routing group starts as.
pub open spec fn new_group(groups: Seq<RoutingGroupModel>) -> RoutingGroupModel {
    RoutingGroupModel {
        id: "proxy-"@ + decimal((groups.len() + 1) as nat),
        strategy: GroupStrategy::Select,
        members: seq!["proxy-node"@],
        url: None,
        interval_secs: None,
    }
}

/// The URL that URL-test and fallback groups probe when none is set.
pub open spec fn default_probe_url() -> Seq<char> {
    "https://www.gstatic.com/generate_204"@
}

/// A group after its strategy is set: URL-test and fallback groups without
/// a URL get the default probe URL.
pub open spec fn with_strategy(g: RoutingGroupModel, s: GroupStrategy) -> RoutingGroupModel {
    RoutingGroupModel {
        strategy: s,
        url: if (s == GroupStrategy::UrlTest || s == GroupStrategy::Fallback) && g.url is None {
            Some(default_probe_url())
        } else {
            g.url
        },
        ..g
    }
}

/// The members listed in a comma-separated text: each field trimmed, blank
/// fields dropped.
pub open spec fn member_list(s: Seq<char>) -> Seq<Seq<char>>
    decreases s.len(),
{
    let i = index_of(s, ',');
    proof {
        lemma_index_of_bounds(s, ',');
    }
    let head = if trim(s.take(i)).len() > 0 { seq![trim(s.take(i))] } else { Seq::empty() };
    if i < s.len() {
        head + member_list(s.skip(i + 1))
    } else {
        head
    }
}

/// What removing a rule condition did.
#[derive(Debug, Clone, Copy, PartialEq, Eq, Structural)]
pub enum ConditionRemoval {
    NoSuchRule,
    /// The rule has a single condition, which stays.
    LastCondition,
    NoSuchCondition,
    Removed,
}

/// What removing a routing group did.
#[derive(Debug, Clone, Copy, PartialEq, Eq, Structural)]
pub enum GroupRemoval {
    /// The built-in `proxy` group is never removed.
    Protected,
    /// A rule still sends traffic to the group.
    Referenced,
    Removed,
}

/// What setting a group's probe interval did.
#[derive(Debug, Clone, Copy, PartialEq, Eq, Structural)]
pub enum IntervalUpdate {
    NoSuchGroup,
    /// The text is not a positive whole number of seconds.
    Invalid,
    Updated,
}

fn copy_action(a: &Action) -> (r: Action)
    ensures
        r@ == a@,
{
    match a {
        Action::Proxy(s) => Action::Proxy(s.clone()),
        Action::Direct => Action::Direct,
        Action::Block => Action::Block,
        Action::Dns(s) => Action::Dns(s.clone()),
    }
}

fn strip_dns_chars(v: &Vec<char>) -> (r: Vec<char>)
    ensures
        r@ == strip_dns(v@),
{
    let p: Vec<char> = vec!['d', 'n', 's', ':'];
    let mut start: usize = 0;
    assert(v@.skip(0) =~= v@);
    loop
        invariant
            start <= v.len(),
            p@ == dns_prefix(),
            strip_dns(v@) == strip_dns(v@.skip(start as int)),
        decreases v.len() - start,
    {
        let rest = sub_chars(v, start, v.len());
        assert(rest@ =~= v@.skip(start as int));
        if rest.len() >= 4 && starts_with_chars(&rest, &p) {
            assert(rest@.skip(4) =~= v@.skip(start + 4));
            start = start + 4;
        } else {
            return rest;
        }
    }
}

/// The action an action-selector value sets.
pub fn action_for_target(target: &str, current: &Action) -> (a: Action)
    ensures
        a@ == target_action(target@, current@),
{
    let t = String::from_str(target);
    if t == String::from_str("direct") {
        return Action::Direct;
    }
    if t == String::from_str("block") {
        return Action::Block;
    }
    let v = chars_of(target);
    let p: Vec<char> = vec!['d', 'n', 's', ':'];
    if starts_with_chars(&v, &p) {
        return Action::Dns(string_from_chars(strip_dns_chars(&v).as_slice()));
    }
    let (a, b) = trim_range(&v, 0, v.len());
    assert(v@.subrange(0, v.len() as int) =~= v@);
    if a < b {
        Action::Proxy(t)
    } else {
        copy_action(current)
    }
}

/// Whether some rule has a `RuleSet(id)` condition.
pub fn references_rule_set(rules: &Vec<Rule>, id: &str) -> (r: bool)
    ensures
        r == rule_set_referenced(rules_view(rules@), id@),
{
    let ghost rv = rules_view(rules@);
    let mut i: usize = 0;
    while i < rules.len()
        invariant
            i <= rules.len(),
            rv == rules_view(rules@),
            forall|a: int, b: int|
                0 <= a < i && 0 <= b < rv[a].conditions.len() ==> (#[trigger] rv[a].conditions[b]) != ConditionModel::RuleSet(id@),
        decreases rules.len() - i,
    {
        let conds = &rules[i].conditions;
        let mut j: usize = 0;
        while j < conds.len()
            invariant
                i < rules.len(),
                j <= conds.len(),
                rv == rules_view(rules@),
                *conds == rules@[i as int].conditions,
                forall|a: int, b: int|
                    0 <= a < i && 0 <= b < rv[a].conditions.len() ==> (#[trigger] rv[a].conditions[b]) != ConditionModel::RuleSet(id@),
                forall|b: int| 0 <= b < j ==> (#[trigger] rv[i as int].conditions[b]) != ConditionModel::RuleSet(id@),
            decreases conds.len() - j,
        {
            assert(rv[i as int].conditions[j as int] == conds@[j as int]@);
            match &conds[j] {
                Condition::RuleSet(s) => {
                    if crate::text::str_eq(s.as_str(), id) {
                        return true;
                    }
                },
                _ => {},
            }
            j += 1;
        }
        i += 1;
    }
    false
}

/// Whether some rule sends traffic to the group `id`.
pub fn references_group(rules: &Vec<Rule>, id: &str) -> (r: bool)
    ensures
        r == group_referenced(rules_view(rules@), id@),
{
    let ghost rv = rules_view(rules@);
    let mut i: usize = 0;
    while i < rules.len()
        invariant
            i <= rules.len(),
            rv == rules_view(rules@),
            forall|a: int| 0 <= a < i ==> (#[trigger] rv[a]).action != ActionModel::Proxy(id@),
        decreases rules.len() - i,
    {
        assert(rv[i as int] == rules@[i as int]@);
        match &rules[i].action {
            Action::Proxy(s) => {
                if crate::text::str_eq(s.as_str(), id) {
                    return true;
                }
            },
            _ => {},
        }
        i += 1;
    }
    false
}

/// The members of a comma-separated text.
pub fn parse_members(value: &str) -> (r: Vec<String>)
    ensures
        strings_view(r@) == member_list(value@),
{
    let v = chars_of(value);
    let ghost s = v@;
    let mut out: Vec<String> = Vec::new();
    let mut p: usize = 0;
    let mut done = false;
    assert(s.skip(0) =~= s);
    while !done
        invariant
            s == v@,
            p <= v.len(),
            done ==> strings_view(out@) == member_list(s),
            !done ==> strings_view(out@) + member_list(s.skip(p as int)) == member_list(s),
        decreases v.len() - p + if done { 0int } else { 1int },
    {
        let c = find_char(&v, ',', p, v.len());
        let ghost rest = s.skip(p as int);
        assert(s.subrange(p as int, v.len() as int) =~= rest);
        assert(rest.take(c - p) =~= s.subrange(p as int, c as int));
        let (a, b) = trim_range(&v, p, c);
        let ghost prev = out@;
        let ghost head = if trim(rest.take(c - p)).len() > 0 { seq![trim(rest.take(c - p))] } else { Seq::<Seq<char>>::empty() };
        if a < b {
            let m = string_from_chars(sub_chars(&v, a, b).as_slice());
            out.push(m);
            proof {
                lemma_map_push(prev, m, |x: String| x@);
            }
        }
        assert(strings_view(out@) =~= strings_view(prev) + head);
        if c == v.len() {
            assert(rest.take(c - p) =~= rest);
            assert(member_list(rest) == head);
            done = true;
        } else {
            assert(rest.skip(c - p + 1) =~= s.skip(c + 1));
            assert(member_list(rest) == head + member_list(s.skip(c + 1)));
            p = c + 1;
        }
    }
    out
}

} // verus!

verus! {

/// The error shown when a rule would lose its last condition.
pub open spec fn last_condition_message() -> Seq<char> {
    "规则至少需要一个条件"@
}

/// The error shown when a probe interval is not a positive whole number.
pub open spec fn interval_message() -> Seq<char> {
    "URL 测试间隔必须是正整数秒"@
}

/// A parsed number that is present and positive.
pub open spec fn positive(n: Option<u64>) -> bool {
    match n {
        Some(x) => x > 0,
        None => false,
    }
}

/// A rule with a new action.
pub open spec fn rule_with_action(r: RuleModel, a: ActionModel) -> RuleModel {
    RuleModel { action: a, ..r }
}

impl RoutingTable {
    /// Sets the action of the first rule with id `rule_id` from an
    /// action-selector value; saved when the rule exists.
    pub fn set_rule_action(&mut self, rule_id: &str, target: &str) -> (saved: bool)
        ensures
            ({
                let i = first_rule(rules_view(old(self).rules@), rule_id@);
                &&& saved == (i < old(self).rules@.len())
                &&& saved ==> rules_view(final(self).rules@) == rules_view(old(self).rules@).update(
                    i,
                    rule_with_action(rules_view(old(self).rules@)[i], target_action(target@, rules_view(old(self).rules@)[i].action)),
                )
                &&& !saved ==> rules_view(final(self).rules@) == rules_view(old(self).rules@)
            }),
            final(self).groups@ == old(self).groups@,
            final(self).rule_sets@ == old(self).rule_sets@,
            final(self).rule_editor_error == old(self).rule_editor_error,
            final(self).group_error == old(self).group_error,
            final(self).rule_set_error == old(self).rule_set_error,
    {
        let i = find_rule(&self.rules, rule_id);
        if i == self.rules.len() {
            return false;
        }
        let a = action_for_target(target, &self.rules[i].action);
        let ghost before = self.rules@;
        self.rules[i].action = a;
        assert(rules_view(self.rules@) =~= rules_view(before).update(
            i as int,
            rule_with_action(rules_view(before)[i as int], a@),
        ));
        true
    }

    /// Appends the condition `DomainSuffix("example.com")` to the first rule
    /// with id `rule_id` and clears the rule editor's error; saved when the
    /// rule exists.
    pub fn add_rule_condition(&mut self, rule_id: &str) -> (saved: bool)
        ensures
            ({
                let old_rules = rules_view(old(self).rules@);
                let i = first_rule(old_rules, rule_id@);
                &&& saved == (i < old_rules.len())
                &&& saved ==> rules_view(final(self).rules@) == old_rules.update(
                    i,
                    RuleModel {
                        conditions: old_rules[i].conditions.push(ConditionModel::DomainSuffix("example.com"@)),
                        ..old_rules[i]
                    },
                ) && final(self).rule_editor_error is None
                &&& !saved ==> rules_view(final(self).rules@) == old_rules && final(self).rule_editor_error
                    == old(self).rule_editor_error
            }),
            final(self).groups@ == old(self).groups@,
            final(self).rule_sets@ == old(self).rule_sets@,
            final(self).group_error == old(self).group_error,
            final(self).rule_set_error == old(self).rule_set_error,
    {
        let i = find_rule(&self.rules, rule_id);
        if i == self.rules.len() {
            return false;
        }
        let ghost before = self.rules@;
        let c = Condition::DomainSuffix(String::from_str("example.com"));
        let ghost old_conds = self.rules@[i as int].conditions@;
        self.rules[i].conditions.push(c);
        proof {
            lemma_map_push(old_conds, c, |c: Condition| c@);
        }
        self.rule_editor_error = None;
        assert(rules_view(self.rules@) =~= rules_view(before).update(
            i as int,
            RuleModel {
                conditions: rules_view(before)[i as int].conditions.push(ConditionModel::DomainSuffix("example.com"@)),
                ..rules_view(before)[i as int]
            },
        ));
        true
    }

    /// Removes the condition at `index` of the first rule with id `rule_id`,
    /// unless it is the rule's only condition.
    pub fn remove_rule_condition(&mut self, rule_id: &str, index: usize) -> (r: ConditionRemoval)
        ensures
            ({
                let old_rules = rules_view(old(self).rules@);
                let i = first_rule(old_rules, rule_id@);
                &&& (i == old_rules.len()) ==> r == ConditionRemoval::NoSuchRule
                &&& (i < old_rules.len() && old_rules[i].conditions.len() <= 1) ==> r == ConditionRemoval::LastCondition
                &&& (i < old_rules.len() && old_rules[i].conditions.len() > 1 && index >= old_rules[i].conditions.len())
                    ==> r == ConditionRemoval::NoSuchCondition
                &&& (i < old_rules.len() && old_rules[i].conditions.len() > 1 && index < old_rules[i].conditions.len())
                    ==> r == ConditionRemoval::Removed
                &&& r == ConditionRemoval::Removed ==> rules_view(final(self).rules@) == old_rules.update(
                    i,
                    RuleModel { conditions: old_rules[i].conditions.remove(index as int), ..old_rules[i] },
                ) && final(self).rule_editor_error is None
                &&& r == ConditionRemoval::LastCondition ==> rules_view(final(self).rules@) == old_rules
                    && opt_view(final(self).rule_editor_error) == Some(last_condition_message())
                &&& (r == ConditionRemoval::NoSuchRule || r == ConditionRemoval::NoSuchCondition) ==> rules_view(
                    final(self).rules@,
                ) == old_rules && final(self).rule_editor_error == old(self).rule_editor_error
            }),
            final(self).groups@ == old(self).groups@,
            final(self).rule_sets@ == old(self).rule_sets@,
            final(self).group_error == old(self).group_error,
            final(self).rule_set_error == old(self).rule_set_error,
    {
        let i = find_rule(&self.rules, rule_id);
        if i == self.rules.len() {
            return ConditionRemoval::NoSuchRule;
        }
        if self.rules[i].conditions.len() <= 1 {
            self.rule_editor_error = Some(String::from_str("规则至少需要一个条件"));
            return ConditionRemoval::LastCondition;
        }
        if index < self.rules[i].conditions.len() {
            let ghost before = self.rules@;
            let ghost old_conds = self.rules@[i as int].conditions@;
            self.rules[i].conditions.remove(index);
            assert(self.rules@[i as int].conditions@.map_values(|c: Condition| c@) =~= old_conds.map_values(
                |c: Condition| c@,
            ).remove(index as int));
            self.rule_editor_error = None;
            assert(rules_view(self.rules@) =~= rules_view(before).update(
                i as int,
                RuleModel {
                    conditions: rules_view(before)[i as int].conditions.remove(index as int),
                    ..rules_view(before)[i as int]
                },
            ));
            return ConditionRemoval::Removed;
        }
        ConditionRemoval::NoSuchCondition
    }

    /// Sets the priority of the first rule with id `rule_id` and re-sorts the
    /// rules by priority; saved when the rule exists.
    pub fn set_rule_priority(&mut self, rule_id: &str, priority: i32) -> (saved: bool)
        ensures
            ({
                let old_rules = rules_view(old(self).rules@);
                let i = first_rule(old_rules, rule_id@);
                &&& saved == (i < old_rules.len())
                &&& saved ==> rules_view(final(self).rules@) == sort_by_priority(
                    old_rules.update(i, RuleModel { priority: priority, ..old_rules[i] }),
                )
                &&& !saved ==> rules_view(final(self).rules@) == old_rules
            }),
            final(self).groups@ == old(self).groups@,
            final(self).rule_sets@ == old(self).rule_sets@,
            final(self).rule_editor_error == old(self).rule_editor_error,
            final(self).group_error == old(self).group_error,
            final(self).rule_set_error == old(self).rule_set_error,
    {
        let i = find_rule(&self.rules, rule_id);
        if i == self.rules.len() {
            return false;
        }
        let ghost before = self.rules@;
        self.rules[i].priority = priority;
        assert(rules_view(self.rules@) =~= rules_view(before).update(
            i as int,
            RuleModel { priority: priority, ..rules_view(before)[i as int] },
        ));
        let mut rules: Vec<Rule> = Vec::new();
        std::mem::swap(&mut rules, &mut self.rules);
        self.rules = sort_rules_by_priority(rules);
        true
    }

    /// Removes every rule with id `rule_id`.
    pub fn remove_rule(&mut self, rule_id: &str)
        ensures
            rules_view(final(self).rules@) == rules_without(rules_view(old(self).rules@), rule_id@),
            final(self).groups@ == old(self).groups@,
            final(self).rule_sets@ == old(self).rule_sets@,
            final(self).rule_editor_error == old(self).rule_editor_error,
            final(self).group_error == old(self).group_error,
            final(self).rule_set_error == old(self).rule_set_error,
    {
        let ghost orig = rules_view(self.rules@);
        let mut src: Vec<Rule> = Vec::new();
        std::mem::swap(&mut src, &mut self.rules);
        let mut out: Vec<Rule> = Vec::new();
        let n = src.len();
        let mut k: usize = 0;
        while src.len() > 0
            invariant
                k <= n,
                orig.len() == n,
                src.len() == n - k,
                rules_view(src@) == orig.skip(k as int),
                rules_view(out@) == rules_without(orig.take(k as int), rule_id@),
            decreases src.len(),
        {
            let ghost old_src = src@;
            let x = src.remove(0);
            assert(x@ == orig[k as int]) by {
                assert(orig.skip(k as int)[0] == orig[k as int]);
            }
            assert forall|j: int| 0 <= j < src@.len() implies #[trigger] rules_view(src@)[j] == orig.skip(k + 1)[j] by {
                assert(src@[j] == old_src[j + 1]);
                assert(rules_view(old_src)[j + 1] == orig.skip(k as int)[j + 1]);
            }
            assert(rules_view(src@) =~= orig.skip(k + 1));
            assert(orig.take(k + 1).drop_last() =~= orig.take(k as int));
            assert(orig.take(k + 1).last() == orig[k as int]);
            if !crate::text::str_eq(x.id.as_str(), rule_id) {
                let ghost prev = out@;
                out.push(x);
                proof {
                    lemma_map_push(prev, x, |r: Rule| r@);
                }
            }
            k += 1;
        }
        assert(orig.take(n as int) =~= orig);
        self.rules = out;
    }

    /// Appends a custom rule (priority ten above the highest, matching the
    /// suffix `example.com`, sent to `proxy`) and re-sorts by priority.
    pub fn add_rule(&mut self)
        requires
            max_priority(rules_view(old(self).rules@)) + 10 <= i32::MAX,
            old(self).rules@.len() < usize::MAX,
        ensures
            rules_view(final(self).rules@) == sort_by_priority(
                rules_view(old(self).rules@).push(new_custom_rule(rules_view(old(self).rules@))),
            ),
            final(self).groups@ == old(self).groups@,
            final(self).rule_sets@ == old(self).rule_sets@,
            final(self).rule_editor_error == old(self).rule_editor_error,
            final(self).group_error == old(self).group_error,
            final(self).rule_set_error == old(self).rule_set_error,
    {
        let ghost rv = rules_view(self.rules@);
        let mut m: i32 = 0;
        let mut i: usize = 0;
        while i < self.rules.len()
            invariant
                i <= self.rules.len(),
                rv == rules_view(self.rules@),
                m as int == max_priority(rv.take(i as int)),
            decreases self.rules.len() - i,
        {
            assert(rv.take(i + 1).drop_last() =~= rv.take(i as int));
            assert(rv.take(i + 1).last() == self.rules@[i as int]@);
            let p = self.rules[i].priority;
            if i == 0 {
                assert(rv.take(1)[0] == self.rules@[0]@);
                m = p;
            } else if p > m {
                m = p;
            }
            i += 1;
        }
        assert(rv.take(self.rules.len() as int) =~= rv);
        let id = numbered("custom-", (self.rules.len() + 1) as u64);
        let mut conditions: Vec<Condition> = Vec::new();
        conditions.push(Condition::DomainSuffix(String::from_str("example.com")));
        let rule = Rule { id, priority: m + 10, conditions, action: Action::Proxy(String::from_str("proxy")) };
        assert(rule@.conditions =~= seq![ConditionModel::DomainSuffix("example.com"@)]);
        assert(rule@ == new_custom_rule(rv));
        let ghost before = self.rules@;
        self.rules.push(rule);
        proof {
            lemma_map_push(before, rule, |r: Rule| r@);
        }
        let mut rules: Vec<Rule> = Vec::new();
        std::mem::swap(&mut rules, &mut self.rules);
        self.rules = sort_rules_by_priority(rules);
    }

    /// Appends a new selection group (`proxy-<n>` with the member
    /// `proxy-node`) and clears the group editor's error.
    pub fn add_group(&mut self)
        requires
            old(self).groups@.len() < usize::MAX,
        ensures
            groups_view(final(self).groups@) == groups_view(old(self).groups@).push(new_group(groups_view(old(self).groups@))),
            final(self).group_error is None,
            final(self).rules@ == old(self).rules@,
            final(self).rule_sets@ == old(self).rule_sets@,
            final(self).rule_editor_error == old(self).rule_editor_error,
            final(self).rule_set_error == old(self).rule_set_error,
    {
        let id = numbered("proxy-", (self.groups.len() + 1) as u64);
        let mut members: Vec<String> = Vec::new();
        members.push(String::from_str("proxy-node"));
        let g = RoutingGroup { id, strategy: GroupStrategy::Select, members, url: None, interval_secs: None };
        assert(g@.members =~= seq!["proxy-node"@]);
        let ghost before = self.groups@;
        self.groups.push(g);
        proof {
            lemma_map_push(before, g, |g: RoutingGroup| g@);
        }
        self.group_error = None;
    }

    /// Removes every group with id `group_id`, unless it is the built-in
    /// `proxy` group or a rule still sends traffic to it.
    pub fn remove_group(&mut self, group_id: &str) -> (r: GroupRemoval)
        ensures
            group_id@ == "proxy"@ ==> r == GroupRemoval::Protected && final(self).groups@ == old(self).groups@
                && final(self).group_error == old(self).group_error,
            group_id@ != "proxy"@ && group_referenced(rules_view(old(self).rules@), group_id@) ==> r
                == GroupRemoval::Referenced && final(self).groups@ == old(self).groups@ && opt_view(final(self).group_error)
                == Some("分流组 "@ + group_id@ + " 仍被规则引用，请先修改这些规则的动作"@),
            group_id@ != "proxy"@ && !group_referenced(rules_view(old(self).rules@), group_id@) ==> r == GroupRemoval::Removed
                && groups_view(final(self).groups@) == groups_without(groups_view(old(self).groups@), group_id@)
                && final(self).group_error is None,
            final(self).rules@ == old(self).rules@,
            final(self).rule_sets@ == old(self).rule_sets@,
            final(self).rule_editor_error == old(self).rule_editor_error,
            final(self).rule_set_error == old(self).rule_set_error,
    {
        if crate::text::str_eq(group_id, "proxy") {
            return GroupRemoval::Protected;
        }
        if references_group(&self.rules, group_id) {
            self.group_error = Some(
                String::from_str("分流组 ").concat(group_id).concat(" 仍被规则引用，请先修改这些规则的动作"),
            );
            return GroupRemoval::Referenced;
        }
        let ghost orig = groups_view(self.groups@);
        let mut src: Vec<RoutingGroup> = Vec::new();
        std::mem::swap(&mut src, &mut self.groups);
        let mut out: Vec<RoutingGroup> = Vec::new();
        let n = src.len();
        let mut k: usize = 0;
        while src.len() > 0
            invariant
                k <= n,
                orig.len() == n,
                src.len() == n - k,
                groups_view(src@) == orig.skip(k as int),
                groups_view(out@) == groups_without(orig.take(k as int), group_id@),
            decreases src.len(),
        {
            let ghost old_src = src@;
            let x = src.remove(0);
            assert(x@ == orig[k as int]) by {
                assert(orig.skip(k as int)[0] == orig[k as int]);
            }
            assert forall|j: int| 0 <= j < src@.len() implies #[trigger] groups_view(src@)[j] == orig.skip(k + 1)[j] by {
                assert(src@[j] == old_src[j + 1]);
                assert(groups_view(old_src)[j + 1] == orig.skip(k as int)[j + 1]);
            }
            assert(groups_view(src@) =~= orig.skip(k + 1));
            assert(orig.take(k + 1).drop_last() =~= orig.take(k as int));
            assert(orig.take(k + 1).last() == orig[k as int]);
            if !crate::text::str_eq(x.id.as_str(), group_id) {
                let ghost prev = out@;
                out.push(x);
                proof {
                    lemma_map_push(prev, x, |g: RoutingGroup| g@);
                }
            }
            k += 1;
        }
        assert(orig.take(n as int) =~= orig);
        self.groups = out;
        self.group_error = None;
        GroupRemoval::Removed
    }

    /// Records the verdict of validating an edited group: its error, or no
    /// error and a save.
    pub fn finish_group_edit(&mut self, verdict: Option<String>) -> (saved: bool)
        ensures
            saved == (verdict is None),
            match verdict {
                Some(e) => opt_view(final(self).group_error) == Some("分流组校验失败："@ + e@),
                None => final(self).group_error is None,
            },
            final(self).rules@ == old(self).rules@,
            final(self).groups@ == old(self).groups@,
            final(self).rule_sets@ == old(self).rule_sets@,
            final(self).rule_editor_error == old(self).rule_editor_error,
            final(self).rule_set_error == old(self).rule_set_error,
    {
        match verdict {
            Some(e) => {
                self.group_error = Some(String::from_str("分流组校验失败：").concat(e.as_str()));
                false
            },
            None => {
                self.group_error = None;
                true
            },
        }
    }

    /// Sets the strategy of the first group with id `group_id` by its index
    /// in the strategy selector; URL-test and fallback groups without a URL
    /// get the default probe URL. Returns the group's index, to validate.
    pub fn set_group_strategy(&mut self, group_id: &str, index: usize) -> (r: Option<usize>)
        ensures
            ({
                let old_groups = groups_view(old(self).groups@);
                let i = first_group(old_groups, group_id@);
                &&& (i < old_groups.len()) ==> r == Some(i as usize) && groups_view(final(self).groups@)
                    == old_groups.update(i, with_strategy(old_groups[i], strategy_at(index)))
                &&& (i == old_groups.len()) ==> r is None && final(self).groups@ == old(self).groups@
            }),
            final(self).rules@ == old(self).rules@,
            final(self).rule_sets@ == old(self).rule_sets@,
            final(self).rule_editor_error == old(self).rule_editor_error,
            final(self).group_error == old(self).group_error,
            final(self).rule_set_error == old(self).rule_set_error,
    {
        let i = find_group(&self.groups, group_id);
        if i == self.groups.len() {
            return None;
        }
        let strategy = if index == 1 {
            GroupStrategy::UrlTest
        } else if index == 2 {
            GroupStrategy::Fallback
        } else if index == 3 {
            GroupStrategy::LoadBalance
        } else {
            GroupStrategy::Select
        };
        let ghost before = self.groups@;
        self.groups[i].strategy = strategy;
        if (strategy == GroupStrategy::UrlTest || strategy == GroupStrategy::Fallback) && self.groups[i].url.is_none() {
            self.groups[i].url = Some(String::from_str("https://www.gstatic.com/generate_204"));
        }
        assert(groups_view(self.groups@) =~= groups_view(before).update(
            i as int,
            with_strategy(groups_view(before)[i as int], strategy_at(index)),
        ));
        Some(i)
    }

    /// Sets the members of the first group with id `group_id` from a
    /// comma-separated text. Returns the group's index, to validate.
    pub fn set_group_members(&mut self, group_id: &str, value: &str) -> (r: Option<usize>)
        ensures
            ({
                let old_groups = groups_view(old(self).groups@);
                let i = first_group(old_groups, group_id@);
                &&& (i < old_groups.len()) ==> r == Some(i as usize) && groups_view(final(self).groups@)
                    == old_groups.update(i, RoutingGroupModel { members: member_list(value@), ..old_groups[i] })
                &&& (i == old_groups.len()) ==> r is None && final(self).groups@ == old(self).groups@
            }),
            final(self).rules@ == old(self).rules@,
            final(self).rule_sets@ == old(self).rule_sets@,
            final(self).rule_editor_error == old(self).rule_editor_error,
            final(self).group_error == old(self).group_error,
            final(self).rule_set_error == old(self).rule_set_error,
    {
        let i = find_group(&self.groups, group_id);
        if i == self.groups.len() {
            return None;
        }
        let ghost before = self.groups@;
        self.groups[i].members = parse_members(value);
        assert(groups_view(self.groups@) =~= groups_view(before).update(
            i as int,
            RoutingGroupModel { members: member_list(value@), ..groups_view(before)[i as int] },
        ));
        Some(i)
    }

    /// Sets the probe URL of the first group with id `group_id` to the
    /// trimmed text, or clears it when the text is blank. Returns the
    /// group's index, to validate.
    pub fn set_group_url(&mut self, group_id: &str, value: &str) -> (r: Option<usize>)
        ensures
            ({
                let old_groups = groups_view(old(self).groups@);
                let i = first_group(old_groups, group_id@);
                &&& (i < old_groups.len()) ==> r == Some(i as usize) && groups_view(final(self).groups@)
                    == old_groups.update(
                    i,
                    RoutingGroupModel {
                        url: if trim(value@).len() > 0 { Some(trim(value@)) } else { None },
                        ..old_groups[i]
                    },
                )
                &&& (i == old_groups.len()) ==> r is None && final(self).groups@ == old(self).groups@
            }),
            final(self).rules@ == old(self).rules@,
            final(self).rule_sets@ == old(self).rule_sets@,
            final(self).rule_editor_error == old(self).rule_editor_error,
            final(self).group_error == old(self).group_error,
            final(self).rule_set_error == old(self).rule_set_error,
    {
        let i = find_group(&self.groups, group_id);
        if i == self.groups.len() {
            return None;
        }
        let v = chars_of(value);
        let (a, b) = trim_range(&v, 0, v.len());
        assert(v@.subrange(0, v.len() as int) =~= v@);
        let url = if a < b { Some(string_from_chars(sub_chars(&v, a, b).as_slice())) } else { None };
        let ghost before = self.groups@;
        self.groups[i].url = url;
        assert(groups_view(self.groups@) =~= groups_view(before).update(
            i as int,
            RoutingGroupModel {
                url: if trim(value@).len() > 0 { Some(trim(value@)) } else { None },
                ..groups_view(before)[i as int]
            },
        ));
        Some(i)
    }

    /// Sets the probe interval of the first group with id `group_id`: blank
    /// text clears it, a positive whole number of seconds sets it, anything
    /// else is refused with an error and changes nothing.
    pub fn set_group_interval(&mut self, group_id: &str, value: &str) -> (r: IntervalUpdate)
        ensures
            ({
                let old_groups = groups_view(old(self).groups@);
                let i = first_group(old_groups, group_id@);
                let t = trim(value@);
                &&& (i == old_groups.len()) ==> r == IntervalUpdate::NoSuchGroup && final(self).groups@ == old(self).groups@
                    && final(self).group_error == old(self).group_error
                &&& (i < old_groups.len() && t.len() == 0) ==> r == IntervalUpdate::Updated && groups_view(
                    final(self).groups@,
                ) == old_groups.update(i, RoutingGroupModel { interval_secs: None, ..old_groups[i] })
                    && final(self).group_error is None
                &&& (i < old_groups.len() && t.len() > 0 && positive(parse_u64(t))) ==> r
                    == IntervalUpdate::Updated && groups_view(final(self).groups@) == old_groups.update(
                    i,
                    RoutingGroupModel { interval_secs: parse_u64(t), ..old_groups[i] },
                ) && final(self).group_error is None
                &&& (i < old_groups.len() && t.len() > 0 && !positive(parse_u64(t))) ==> r
                    == IntervalUpdate::Invalid && final(self).groups@ == old(self).groups@ && opt_view(
                    final(self).group_error,
                ) == Some(interval_message())
            }),
            final(self).rules@ == old(self).rules@,
            final(self).rule_sets@ == old(self).rule_sets@,
            final(self).rule_editor_error == old(self).rule_editor_error,
            final(self).rule_set_error == old(self).rule_set_error,
    {
        let i = find_group(&self.groups, group_id);
        if i == self.groups.len() {
            return IntervalUpdate::NoSuchGroup;
        }
        let v = chars_of(value);
        let (a, b) = trim_range(&v, 0, v.len());
        assert(v@.subrange(0, v.len() as int) =~= v@);
        let interval = if a == b {
            None
        } else {
            match parse_u64_chars(&v, a, b) {
                Some(n) => {
                    if n > 0 {
                        Some(n)
                    } else {
                        self.group_error = Some(String::from_str("URL 测试间隔必须是正整数秒"));
                        return IntervalUpdate::Invalid;
                    }
                },
                None => {
                    self.group_error = Some(String::from_str("URL 测试间隔必须是正整数秒"));
                    return IntervalUpdate::Invalid;
                },
            }
        };
        let ghost before = self.groups@;
        self.groups[i].interval_secs = interval;
        self.group_error = None;
        assert(groups_view(self.groups@) =~= groups_view(before).update(
            i as int,
            RoutingGroupModel { interval_secs: interval, ..groups_view(before)[i as int] },
        ));
        IntervalUpdate::Updated
    }

    /// Removes every rule set with id `id`, unless a rule still uses it.
    pub fn remove_rule_set(&mut self, id: &str) -> (saved: bool)
        ensures
            saved == !rule_set_referenced(rules_view(old(self).rules@), id@),
            !saved ==> final(self).rule_sets@ == old(self).rule_sets@ && opt_view(final(self).rule_set_error) == Some(
                "规则集 "@ + id@ + " 仍被规则引用，请先移除规则条件"@,
            ),
            saved ==> rule_sets_view(final(self).rule_sets@) == rule_sets_without(rule_sets_view(old(self).rule_sets@), id@)
                && final(self).rule_set_error is None,
            final(self).rules@ == old(self).rules@,
            final(self).groups@ == old(self).groups@,
            final(self).rule_editor_error == old(self).rule_editor_error,
            final(self).group_error == old(self).group_error,
    {
        if references_rule_set(&self.rules, id) {
            self.rule_set_error = Some(String::from_str("规则集 ").concat(id).concat(" 仍被规则引用，请先移除规则条件"));
            return false;
        }
        let ghost orig = rule_sets_view(self.rule_sets@);
        let mut src: Vec<RuleSetSource> = Vec::new();
        std::mem::swap(&mut src, &mut self.rule_sets);
        let mut out: Vec<RuleSetSource> = Vec::new();
        let n = src.len();
        let mut k: usize = 0;
        while src.len() > 0
            invariant
                k <= n,
                orig.len() == n,
                src.len() == n - k,
                rule_sets_view(src@) == orig.skip(k as int),
                rule_sets_view(out@) == rule_sets_without(orig.take(k as int), id@),
            decreases src.len(),
        {
            let ghost old_src = src@;
            let x = src.remove(0);
            assert(x@ == orig[k as int]) by {
                assert(orig.skip(k as int)[0] == orig[k as int]);
            }
            assert forall|j: int| 0 <= j < src@.len() implies #[trigger] rule_sets_view(src@)[j] == orig.skip(k + 1)[j] by {
                assert(src@[j] == old_src[j + 1]);
                assert(rule_sets_view(old_src)[j + 1] == orig.skip(k as int)[j + 1]);
            }
            assert(rule_sets_view(src@) =~= orig.skip(k + 1));
            assert(orig.take(k + 1).drop_last() =~= orig.take(k as int));
            assert(orig.take(k + 1).last() == orig[k as int]);
            if !crate::text::str_eq(x.id.as_str(), id) {
                let ghost prev = out@;
                out.push(x);
                proof {
                    lemma_map_push(prev, x, |s: RuleSetSource| s@);
                }
            }
            k += 1;
        }
        assert(orig.take(n as int) =~= orig);
        self.rule_sets = out;
        self.rule_set_error = None;
        true
    }

    /// Enables or disables the first rule set with id `id`; a rule set that
    /// a rule uses cannot be disabled.
    pub fn set_rule_set_enabled(&mut self, id: &str, enabled: bool) -> (saved: bool)
        ensures
            ({
                let old_sets = rule_sets_view(old(self).rule_sets@);
                let i = first_rule_set(old_sets, id@);
                let blocked = !enabled && rule_set_referenced(rules_view(old(self).rules@), id@);
                &&& blocked ==> !saved && final(self).rule_sets@ == old(self).rule_sets@ && opt_view(
                    final(self).rule_set_error,
                ) == Some("规则集 "@ + id@ + " 仍被规则引用，不能禁用；请先修改这些规则"@)
                &&& (!blocked && i < old_sets.len()) ==> saved && rule_sets_view(final(self).rule_sets@) == old_sets.update(
                    i,
                    RuleSetSourceModel { enabled: enabled, ..old_sets[i] },
                ) && final(self).rule_set_error is None
                &&& (!blocked && i == old_sets.len()) ==> !saved && final(self).rule_sets@ == old(self).rule_sets@
                    && final(self).rule_set_error == old(self).rule_set_error
            }),
            final(self).rules@ == old(self).rules@,
            final(self).groups@ == old(self).groups@,
            final(self).rule_editor_error == old(self).rule_editor_error,
            final(self).group_error == old(self).group_error,
    {
        if !enabled && references_rule_set(&self.rules, id) {
            self.rule_set_error = Some(
                String::from_str("规则集 ").concat(id).concat(" 仍被规则引用，不能禁用；请先修改这些规则"),
            );
            return false;
        }
        let i = find_rule_set(&self.rule_sets, id);
        if i == self.rule_sets.len() {
            return false;
        }
        let ghost before = self.rule_sets@;
        self.rule_sets[i].enabled = enabled;
        self.rule_set_error = None;
        assert(rule_sets_view(self.rule_sets@) =~= rule_sets_view(before).update(
            i as int,
            RuleSetSourceModel { enabled: enabled, ..rule_sets_view(before)[i as int] },
        ));
        true
    }
}

/// `c` is the private network 192.168.0.0/16.
pub open spec fn is_private_network(c: ConditionModel) -> bool {
    c matches ConditionModel::IpCidr { network: IpAddress::V4(octets), prefix } && octets@ == seq![192u8, 168, 0, 0]
        && prefix == 16
}

/// The rules a new profile starts with: the private network and `lan`
/// domains go direct, OpenAI's domains through the group `proxy`, and all
/// else is blocked.
pub open spec fn default_rules_hold(rs: Seq<RuleModel>) -> bool {
    &&& rs.len() == 4
    &&& rs[0].id == "private-network"@ && rs[0].priority == 10 && rs[0].conditions.len() == 1
        && is_private_network(rs[0].conditions[0]) && rs[0].action == ActionModel::Direct
    &&& rs[1].id == "local-domains"@ && rs[1].priority == 20
        && rs[1].conditions == seq![ConditionModel::DomainSuffix("lan"@)] && rs[1].action == ActionModel::Direct
    &&& rs[2].id == "ai-services"@ && rs[2].priority == 100
        && rs[2].conditions == seq![ConditionModel::DomainSuffix("openai.com"@)]
        && rs[2].action == ActionModel::Proxy("proxy"@)
    &&& rs[3].id == "default-block"@ && rs[3].priority == 1000 && rs[3].conditions == seq![ConditionModel::Any]
        && rs[3].action == ActionModel::Block
}

fn single_rule(id: &str, priority: i32, condition: Condition, action: Action) -> (r: Rule)
    ensures
        r@ == (RuleModel { id: id@, priority: priority, conditions: seq![condition@], action: action@ }),
{
    let mut conditions: Vec<Condition> = Vec::new();
    conditions.push(condition);
    let r = Rule { id: String::from_str(id), priority, conditions, action };
    assert(r@.conditions =~= seq![condition@]);
    r
}

/// The rules a new profile starts with.
pub fn default_rules() -> (rs: Vec<Rule>)
    ensures
        default_rules_hold(rules_view(rs@)),
{
    let mut rs: Vec<Rule> = Vec::new();
    rs.push(single_rule(
        "private-network",
        10,
        Condition::IpCidr { network: IpAddress::V4([192, 168, 0, 0]), prefix: 16 },
        Action::Direct,
    ));
    rs.push(single_rule("local-domains", 20, Condition::DomainSuffix(String::from_str("lan")), Action::Direct));
    rs.push(single_rule(
        "ai-services",
        100,
        Condition::DomainSuffix(String::from_str("openai.com")),
        Action::Proxy(String::from_str("proxy")),
    ));
    rs.push(single_rule("default-block", 1000, Condition::Any, Action::Block));
    assert(rules_view(rs@)[0] == rs@[0]@);
    assert(rules_view(rs@)[1] == rs@[1]@);
    assert(rules_view(rs@)[2] == rs@[2]@);
    assert(rules_view(rs@)[3] == rs@[3]@);
    rs
}

/// Whether a rule's id differs from `id`.
pub open spec fn other_id(id: Seq<char>) -> spec_fn(RuleModel) -> bool {
    |r: RuleModel| r.id != id
}

/// Removing the rule `id` leaves exactly the other rules, in their order:
/// no rule with that id remains, and every rule with another id does.
pub proof fn law_rule_removal_keeps_exactly_the_others(s: Seq<RuleModel>, id: Seq<char>)
    ensures
        rules_without(s, id) == s.filter(other_id(id)),
        forall|k: int| 0 <= k < rules_without(s, id).len() ==> (#[trigger] rules_without(s, id)[k]).id != id,
        forall|j: int| 0 <= j < s.len() && (#[trigger] s[j]).id != id ==> rules_without(s, id).contains(s[j]),
    decreases s.len(),
{
    reveal(Seq::filter);
    if s.len() > 0 {
        law_rule_removal_keeps_exactly_the_others(s.drop_last(), id);
    }
    assert(rules_without(s, id) == s.filter(other_id(id)));
    s.filter_lemma(other_id(id));
}

} // verus!
