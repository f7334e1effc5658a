//! The routing table's references: every rule-set condition names an
//! enabled rule set and every proxy action names a group. An imported
//! bundle that passes its check has them, and removing or disabling what a
//! rule still uses is refused, so the table keeps them.

use vstd::prelude::*;
use crate::bundle::{bundle_verdict, condition_fault_from, group_fault_from, has_group, lemma_first_rule_set_found, reference_fault_from, rule_fault, rule_set_fault_from};
use crate::editor::{group_referenced, groups_without, rule_set_referenced, rule_sets_without};
use crate::routing::{ActionModel, ConditionModel, RoutingGroupModel, RuleModel, RuleSetSourceModel};
use crate::table::first_rule_set;

verus! {

/// Some enabled rule set is called `id`.
pub open spec fn rule_set_usable(ss: Seq<RuleSetSourceModel>, id: Seq<char>) -> bool {
    exists|j: int| 0 <= j < ss.len() && (#[trigger] ss[j]).id == id && ss[j].enabled
}

/// A condition that names a rule set names an enabled one.
pub open spec fn condition_resolves(c: ConditionModel, ss: Seq<RuleSetSourceModel>) -> bool {
    match c {
        ConditionModel::RuleSet(id) => rule_set_usable(ss, id),
        _ => true,
    }
}

/// An action that names a group names an existing one.
pub open spec fn action_resolves(a: ActionModel, gs: Seq<RoutingGroupModel>) -> bool {
    match a {
        ActionModel::Proxy(id) => has_group(gs, id),
        _ => true,
    }
}

/// Every rule-set condition of every rule names an enabled rule set.
pub open spec fn rule_set_references_resolve(rs: Seq<RuleModel>, ss: Seq<RuleSetSourceModel>) -> bool {
    forall|i: int, j: int|
        0 <= i < rs.len() && 0 <= j < rs[i].conditions.len() ==> condition_resolves(#[trigger] rs[i].conditions[j], ss)
}

/// Every proxy action of every rule names an existing group.
pub open spec fn group_references_resolve(rs: Seq<RuleModel>, gs: Seq<RoutingGroupModel>) -> bool {
    forall|i: int| 0 <= i < rs.len() ==> action_resolves(#[trigger] rs[i].action, gs)
}

/// Every reference of every rule resolves.
pub open spec fn references_resolve(rs: Seq<RuleModel>, ss: Seq<RuleSetSourceModel>, gs: Seq<RoutingGroupModel>) -> bool {
    &&& rule_set_references_resolve(rs, ss)
    &&& group_references_resolve(rs, gs)
}

/// No two groups share an id.
pub open spec fn distinct_group_ids(gs: Seq<RoutingGroupModel>) -> bool {
    forall|i: int, j: int| 0 <= j < i < gs.len() ==> (#[trigger] gs[j]).id != (#[trigger] gs[i]).id
}

/// No two rule sets share an id.
pub open spec fn distinct_rule_set_ids(ss: Seq<RuleSetSourceModel>) -> bool {
    forall|i: int, j: int| 0 <= j < i < ss.len() ==> (#[trigger] ss[j]).id != (#[trigger] ss[i]).id
}

proof fn lemma_group_fault_none(gs: Seq<RoutingGroupModel>, vs: Seq<Option<String>>, k: int)
    requires
        0 <= k,
        group_fault_from(gs, vs, k) is None,
    ensures
        forall|i: int, j: int| k <= i < gs.len() && 0 <= j < i ==> (#[trigger] gs[j]).id != (#[trigger] gs[i]).id,
    decreases gs.len() - k,
{
    if k < gs.len() {
        lemma_group_fault_none(gs, vs, k + 1);
        assert forall|i: int, j: int| k <= i < gs.len() && 0 <= j < i implies (#[trigger] gs[j]).id != (#[trigger] gs[i]).id by {
            if i == k && gs[j].id == gs[i].id {
                assert(exists|j2: int| 0 <= j2 < k && (#[trigger] gs[j2]).id == gs[k].id);
            }
        }
    }
}

proof fn lemma_rule_set_fault_none(ss: Seq<RuleSetSourceModel>, vs: Seq<Option<String>>, k: int)
    requires
        0 <= k,
        rule_set_fault_from(ss, vs, k) is None,
    ensures
        forall|i: int, j: int| k <= i < ss.len() && 0 <= j < i ==> (#[trigger] ss[j]).id != (#[trigger] ss[i]).id,
    decreases ss.len() - k,
{
    if k < ss.len() {
        lemma_rule_set_fault_none(ss, vs, k + 1);
        assert forall|i: int, j: int| k <= i < ss.len() && 0 <= j < i implies (#[trigger] ss[j]).id != (#[trigger] ss[i]).id by {
            if i == k && ss[j].id == ss[i].id {
                assert(exists|j2: int| 0 <= j2 < k && (#[trigger] ss[j2]).id == ss[k].id);
            }
        }
    }
}

proof fn lemma_condition_fault_none(rule: RuleModel, ss: Seq<RuleSetSourceModel>, k: int)
    requires
        0 <= k,
        condition_fault_from(rule, ss, k) is None,
    ensures
        forall|j: int| k <= j < rule.conditions.len() ==> condition_resolves(#[trigger] rule.conditions[j], ss),
    decreases rule.conditions.len() - k,
{
    if k < rule.conditions.len() {
        match rule.conditions[k] {
            ConditionModel::RuleSet(id) => {
                lemma_first_rule_set_found(ss, id);
                assert(ss[first_rule_set(ss, id)].id == id);
            },
            _ => {},
        }
        lemma_condition_fault_none(rule, ss, k + 1);
    }
}

proof fn lemma_reference_fault_none(rs: Seq<RuleModel>, ss: Seq<RuleSetSourceModel>, gs: Seq<RoutingGroupModel>, k: int)
    requires
        0 <= k,
        reference_fault_from(rs, ss, gs, k) is None,
    ensures
        forall|i: int| k <= i < rs.len() ==> (#[trigger] rule_fault(rs[i], ss, gs)) is None,
    decreases rs.len() - k,
{
    if k < rs.len() {
        lemma_reference_fault_none(rs, ss, gs, k + 1);
    }
}

/// A bundle that passes the import check has distinct group ids, distinct
/// rule-set ids, and rules whose references all resolve.
pub proof fn law_accepted_bundle_is_consistent(
    version: u32,
    rs: Seq<RuleModel>,
    gs: Seq<RoutingGroupModel>,
    ss: Seq<RuleSetSourceModel>,
    rules_verdict: Option<Seq<char>>,
    group_verdicts: Seq<Option<String>>,
    rule_set_verdicts: Seq<Option<String>>,
)
    requires
        bundle_verdict(version, rs, gs, ss, rules_verdict, group_verdicts, rule_set_verdicts) is None,
    ensures
        version == 1,
        distinct_group_ids(gs),
        distinct_rule_set_ids(ss),
        references_resolve(rs, ss, gs),
{
    lemma_group_fault_none(gs, group_verdicts, 0);
    lemma_rule_set_fault_none(ss, rule_set_verdicts, 0);
    lemma_reference_fault_none(rs, ss, gs, 0);
    assert forall|i: int, j: int| 0 <= i < rs.len() && 0 <= j < rs[i].conditions.len() implies condition_resolves(
        #[trigger] rs[i].conditions[j],
        ss,
    ) by {
        assert(rule_fault(rs[i], ss, gs) is None);
        lemma_condition_fault_none(rs[i], ss, 0);
    }
    assert forall|i: int| 0 <= i < rs.len() implies action_resolves(#[trigger] rs[i].action, gs) by {
        assert(rule_fault(rs[i], ss, gs) is None);
    }
}

proof fn lemma_groups_without_keeps(gs: Seq<RoutingGroupModel>, id: Seq<char>, t: Seq<char>)
    requires
        has_group(gs, t),
        t != id,
    ensures
        has_group(groups_without(gs, id), t),
    decreases gs.len(),
{
    let w = groups_without(gs, id);
    if gs.last().id == t {
        assert(w == groups_without(gs.drop_last(), id).push(gs.last()));
        assert(w[w.len() - 1].id == t);
    } else {
        let j = choose|j: int| 0 <= j < gs.len() && (#[trigger] gs[j]).id == t;
        assert(gs.drop_last()[j] == gs[j]);
        lemma_groups_without_keeps(gs.drop_last(), id, t);
        let w0 = groups_without(gs.drop_last(), id);
        let k = choose|k: int| 0 <= k < w0.len() && (#[trigger] w0[k]).id == t;
        if gs.last().id != id {
            assert(w == w0.push(gs.last()));
            assert(w[k] == w0[k]);
        }
    }
}

proof fn lemma_rule_sets_without_keeps(ss: Seq<RuleSetSourceModel>, id: Seq<char>, x: Seq<char>)
    requires
        rule_set_usable(ss, x),
        x != id,
    ensures
        rule_set_usable(rule_sets_without(ss, id), x),
    decreases ss.len(),
{
    let w = rule_sets_without(ss, id);
    if ss.last().id == x && ss.last().enabled {
        assert(w == rule_sets_without(ss.drop_last(), id).push(ss.last()));
        assert(w[w.len() - 1].id == x && w[w.len() - 1].enabled);
    } else {
        let j = choose|j: int| 0 <= j < ss.len() && (#[trigger] ss[j]).id == x && ss[j].enabled;
        assert(j < ss.len() - 1);
        assert(ss.drop_last()[j] == ss[j]);
        lemma_rule_sets_without_keeps(ss.drop_last(), id, x);
        let w0 = rule_sets_without(ss.drop_last(), id);
        let k = choose|k: int| 0 <= k < w0.len() && (#[trigger] w0[k]).id == x && w0[k].enabled;
        if ss.last().id != id {
            assert(w == w0.push(ss.last()));
            assert(w[k] == w0[k]);
        }
    }
}

/// Removing a group that no rule sends traffic to keeps every group
/// reference resolving.
pub proof fn law_group_removal_keeps_references(rs: Seq<RuleModel>, gs: Seq<RoutingGroupModel>, id: Seq<char>)
    requires
        group_references_resolve(rs, gs),
        !group_referenced(rs, id),
    ensures
        group_references_resolve(rs, groups_without(gs, id)),
{
    assert forall|i: int| 0 <= i < rs.len() implies action_resolves(#[trigger] rs[i].action, groups_without(gs, id)) by {
        match rs[i].action {
            ActionModel::Proxy(t) => {
                assert(action_resolves(rs[i].action, gs));
                if t == id {
                    assert(group_referenced(rs, id));
                }
                lemma_groups_without_keeps(gs, id, t);
            },
            _ => {},
        }
    }
}

/// Removing a rule set that no rule uses keeps every rule-set reference
/// resolving.
pub proof fn law_rule_set_removal_keeps_references(rs: Seq<RuleModel>, ss: Seq<RuleSetSourceModel>, id: Seq<char>)
    requires
        rule_set_references_resolve(rs, ss),
        !rule_set_referenced(rs, id),
    ensures
        rule_set_references_resolve(rs, rule_sets_without(ss, id)),
{
    assert forall|i: int, j: int| 0 <= i < rs.len() && 0 <= j < rs[i].conditions.len() implies condition_resolves(
        #[trigger] rs[i].conditions[j],
        rule_sets_without(ss, id),
    ) by {
        match rs[i].conditions[j] {
            ConditionModel::RuleSet(x) => {
                assert(condition_resolves(rs[i].conditions[j], ss));
                if x == id {
                    assert(rule_set_referenced(rs, id));
                }
                lemma_rule_sets_without_keeps(ss, id, x);
            },
            _ => {},
        }
    }
}

/// Enabling a rule set, or disabling one that no rule uses, keeps every
/// rule-set reference resolving.
pub proof fn law_rule_set_toggle_keeps_references(
    rs: Seq<RuleModel>,
    ss: Seq<RuleSetSourceModel>,
    id: Seq<char>,
    enabled: bool,
)
    requires
        rule_set_references_resolve(rs, ss),
        first_rule_set(ss, id) < ss.len(),
        enabled || !rule_set_referenced(rs, id),
    ensures
        rule_set_references_resolve(
            rs,
            ss.update(first_rule_set(ss, id), RuleSetSourceModel { enabled: enabled, ..ss[first_rule_set(ss, id)] }),
        ),
{
    lemma_first_rule_set_found(ss, id);
    let k = first_rule_set(ss, id);
    let u = ss.update(k, RuleSetSourceModel { enabled: enabled, ..ss[k] });
    assert forall|i: int, j: int| 0 <= i < rs.len() && 0 <= j < rs[i].conditions.len() implies condition_resolves(
        #[trigger] rs[i].conditions[j],
        u,
    ) by {
        match rs[i].conditions[j] {
            ConditionModel::RuleSet(x) => {
                assert(condition_resolves(rs[i].conditions[j], ss));
                let w = choose|w: int| 0 <= w < ss.len() && (#[trigger] ss[w]).id == x && ss[w].enabled;
                if w == k {
                    if enabled {
                        assert(u[k].id == x && u[k].enabled);
                    } else {
                        assert(rule_set_referenced(rs, id));
                    }
                } else {
                    assert(u[w] == ss[w]);
                }
            },
            _ => {},
        }
    }
}

} // verus!
