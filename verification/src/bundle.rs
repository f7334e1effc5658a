//! Checking an imported routing bundle before it replaces the routing table.

use vstd::prelude::*;
use crate::text::{is_absolute_path, looks_rooted};
use crate::routing::{ActionModel, ConditionModel, Condition, Action, RoutingGroup, RoutingGroupModel, Rule, RuleModel, RuleSetSource, RuleSetSourceModel, opt_view};
use crate::editor::RoutingTable;
use crate::table::{copy_groups, copy_rule_sets, copy_rules, first_rule_set, find_rule_set, groups_view, rule_sets_view, rules_view, decimal, numbered};
use crate::text::str_eq;

verus! {

/// Rules, groups and rule sets as exported and imported together.
pub struct RoutingBundle {
    pub version: u32,
    pub rules: Vec<Rule>,
    pub groups: Vec<RoutingGroup>,
    pub rule_sets: Vec<RuleSetSource>,
}

/// Why a bundle is refused.
#[derive(Debug, Clone)]
pub enum BundleError {
    UnsupportedVersion(u32),
    /// The rules do not compile; the compiler's message.
    InvalidRules(String),
    /// A group is invalid; the validator's message.
    InvalidGroup(String),
    DuplicateGroup(String),
    /// A rule set is invalid; the validator's message.
    InvalidRuleSet(String),
    DuplicateRuleSet(String),
    UnknownRuleSet { rule: String, rule_set: String },
    DisabledRuleSet { rule: String, rule_set: String },
    UnknownGroup { rule: String, group: String },
}

pub enum BundleErrorModel {
    UnsupportedVersion(u32),
    InvalidRules(Seq<char>),
    InvalidGroup(Seq<char>),
    DuplicateGroup(Seq<char>),
    InvalidRuleSet(Seq<char>),
    DuplicateRuleSet(Seq<char>),
    UnknownRuleSet { rule: Seq<char>, rule_set: Seq<char> },
    DisabledRuleSet { rule: Seq<char>, rule_set: Seq<char> },
    UnknownGroup { rule: Seq<char>, group: Seq<char> },
}

impl View for BundleError {
    type V = BundleErrorModel;

    open spec fn view(&self) -> BundleErrorModel {
        match self {
            BundleError::UnsupportedVersion(v) => BundleErrorModel::UnsupportedVersion(*v),
            BundleError::InvalidRules(e) => BundleErrorModel::InvalidRules(e@),
            BundleError::InvalidGroup(e) => BundleErrorModel::InvalidGroup(e@),
            BundleError::DuplicateGroup(id) => BundleErrorModel::DuplicateGroup(id@),
            BundleError::InvalidRuleSet(e) => BundleErrorModel::InvalidRuleSet(e@),
            BundleError::DuplicateRuleSet(id) => BundleErrorModel::DuplicateRuleSet(id@),
            BundleError::UnknownRuleSet { rule, rule_set } => BundleErrorModel::UnknownRuleSet { rule: rule@, rule_set: rule_set@ },
            BundleError::DisabledRuleSet { rule, rule_set } => BundleErrorModel::DisabledRuleSet { rule: rule@, rule_set: rule_set@ },
            BundleError::UnknownGroup { rule, group } => BundleErrorModel::UnknownGroup { rule: rule@, group: group@ },
        }
    }
}

/// The message shown for a refused bundle.
pub open spec fn bundle_error_text(e: BundleErrorModel) -> Seq<char> {
    match e {
        BundleErrorModel::UnsupportedVersion(v) => "不支持的规则配置版本 "@ + decimal(v as nat),
        BundleErrorModel::InvalidRules(m) => "规则校验失败："@ + m,
        BundleErrorModel::InvalidGroup(m) => "分流组校验失败："@ + m,
        BundleErrorModel::DuplicateGroup(id) => "重复的分流组 ID："@ + id,
        BundleErrorModel::InvalidRuleSet(m) => "规则集校验失败："@ + m,
        BundleErrorModel::DuplicateRuleSet(id) => "重复的规则集 ID："@ + id,
        BundleErrorModel::UnknownRuleSet { rule, rule_set } => "规则 "@ + rule + " 引用了未知规则集 "@ + rule_set,
        BundleErrorModel::DisabledRuleSet { rule, rule_set } => "规则 "@ + rule + " 引用了已禁用规则集 "@ + rule_set,
        BundleErrorModel::UnknownGroup { rule, group } => "规则 "@ + rule + " 引用了未知分流组 "@ + group,
    }
}

impl BundleError {
    /// The message shown for this error.
    pub fn message(&self) -> (s: String)
        ensures
            s@ == bundle_error_text(self@),
    {
        match self {
            BundleError::UnsupportedVersion(v) => numbered("不支持的规则配置版本 ", *v as u64),
            BundleError::InvalidRules(m) => String::from_str("规则校验失败：").concat(m.as_str()),
            BundleError::InvalidGroup(m) => String::from_str("分流组校验失败：").concat(m.as_str()),
            BundleError::DuplicateGroup(id) => String::from_str("重复的分流组 ID：").concat(id.as_str()),
            BundleError::InvalidRuleSet(m) => String::from_str("规则集校验失败：").concat(m.as_str()),
            BundleError::DuplicateRuleSet(id) => String::from_str("重复的规则集 ID：").concat(id.as_str()),
            BundleError::UnknownRuleSet { rule, rule_set } => String::from_str("规则 ").concat(rule.as_str()).concat(
                " 引用了未知规则集 ",
            ).concat(rule_set.as_str()),
            BundleError::DisabledRuleSet { rule, rule_set } => String::from_str("规则 ").concat(rule.as_str()).concat(
                " 引用了已禁用规则集 ",
            ).concat(rule_set.as_str()),
            BundleError::UnknownGroup { rule, group } => String::from_str("规则 ").concat(rule.as_str()).concat(
                " 引用了未知分流组 ",
            ).concat(group.as_str()),
        }
    }
}

/// The verdict for item `i`, or none when no verdict was given for it.
pub open spec fn verdict_at(vs: Seq<Option<String>>, i: int) -> Option<Seq<char>> {
    if 0 <= i < vs.len() {
        opt_view(vs[i])
    } else {
        None
    }
}

/// The first group, from `k` on, that is invalid or repeats an earlier id.
pub open spec fn group_fault_from(gs: Seq<RoutingGroupModel>, vs: Seq<Option<String>>, k: int) -> Option<BundleErrorModel>
    decreases gs.len() - k,
{
    if k < 0 || k >= gs.len() {
        None
    } else if verdict_at(vs, k) is Some {
        Some(BundleErrorModel::InvalidGroup(verdict_at(vs, k)->Some_0))
    } else if exists|j: int| 0 <= j < k && (#[trigger] gs[j]).id == gs[k].id {
        Some(BundleErrorModel::DuplicateGroup(gs[k].id))
    } else {
        group_fault_from(gs, vs, k + 1)
    }
}

/// The first rule set, from `k` on, that is invalid or repeats an earlier id.
pub open spec fn rule_set_fault_from(ss: Seq<RuleSetSourceModel>, vs: Seq<Option<String>>, k: int) -> Option<BundleErrorModel>
    decreases ss.len() - k,
{
    if k < 0 || k >= ss.len() {
        None
    } else if verdict_at(vs, k) is Some {
        Some(BundleErrorModel::InvalidRuleSet(verdict_at(vs, k)->Some_0))
    } else if exists|j: int| 0 <= j < k && (#[trigger] ss[j]).id == ss[k].id {
        Some(BundleErrorModel::DuplicateRuleSet(ss[k].id))
    } else {
        rule_set_fault_from(ss, vs, k + 1)
    }
}

/// Some rule set is called `id`.
pub open spec fn has_rule_set(ss: Seq<RuleSetSourceModel>, id: Seq<char>) -> bool {
    exists|j: int| 0 <= j < ss.len() && (#[trigger] ss[j]).id == id
}

/// Some group is called `id`.
pub open spec fn has_group(gs: Seq<RoutingGroupModel>, id: Seq<char>) -> bool {
    exists|j: int| 0 <= j < gs.len() && (#[trigger] gs[j]).id == id
}

/// The first of a rule's conditions, from `k` on, that uses a missing or
/// disabled rule set.
pub open spec fn condition_fault_from(rule: RuleModel, ss: Seq<RuleSetSourceModel>, k: int) -> Option<BundleErrorModel>
    decreases rule.conditions.len() - k,
{
    if k < 0 || k >= rule.conditions.len() {
        None
    } else {
        match rule.conditions[k] {
            ConditionModel::RuleSet(id) => if !has_rule_set(ss, id) {
                Some(BundleErrorModel::UnknownRuleSet { rule: rule.id, rule_set: id })
            } else if !ss[first_rule_set(ss, id)].enabled {
                Some(BundleErrorModel::DisabledRuleSet { rule: rule.id, rule_set: id })
            } else {
                condition_fault_from(rule, ss, k + 1)
            },
            _ => condition_fault_from(rule, ss, k + 1),
        }
    }
}

/// What is wrong with a rule's references: a condition first, then a proxy
/// action naming no group.
pub open spec fn rule_fault(rule: RuleModel, ss: Seq<RuleSetSourceModel>, gs: Seq<RoutingGroupModel>) -> Option<BundleErrorModel> {
    match condition_fault_from(rule, ss, 0) {
        Some(e) => Some(e),
        None => match rule.action {
            ActionModel::Proxy(t) => if !has_group(gs, t) {
                Some(BundleErrorModel::UnknownGroup { rule: rule.id, group: t })
            } else {
                None
            },
            _ => None,
        },
    }
}

/// The first rule, from `k` on, with a broken reference.
pub open spec fn reference_fault_from(rs: Seq<RuleModel>, ss: Seq<RuleSetSourceModel>, gs: Seq<RoutingGroupModel>, k: int) -> Option<BundleErrorModel>
    decreases rs.len() - k,
{
    if k < 0 || k >= rs.len() {
        None
    } else {
        match rule_fault(rs[k], ss, gs) {
            Some(e) => Some(e),
            None => reference_fault_from(rs, ss, gs, k + 1),
        }
    }
}

/// The verdict on a bundle: its version, then the rule compiler's verdict,
/// then each group, then each rule set, then the references of each rule.
pub open spec fn bundle_verdict(
    version: u32,
    rs: Seq<RuleModel>,
    gs: Seq<RoutingGroupModel>,
    ss: Seq<RuleSetSourceModel>,
    rules_verdict: Option<Seq<char>>,
    group_verdicts: Seq<Option<String>>,
    rule_set_verdicts: Seq<Option<String>>,
) -> Option<BundleErrorModel> {
    if version != 1 {
        Some(BundleErrorModel::UnsupportedVersion(version))
    } else if rules_verdict is Some {
        Some(BundleErrorModel::InvalidRules(rules_verdict->Some_0))
    } else if group_fault_from(gs, group_verdicts, 0) is Some {
        group_fault_from(gs, group_verdicts, 0)
    } else if rule_set_fault_from(ss, rule_set_verdicts, 0) is Some {
        rule_set_fault_from(ss, rule_set_verdicts, 0)
    } else {
        reference_fault_from(rs, ss, gs, 0)
    }
}

fn group_id_seen(gs: &Vec<RoutingGroup>, k: usize) -> (r: bool)
    requires
        k < gs.len(),
    ensures
        r == exists|j: int| 0 <= j < k && (#[trigger] groups_view(gs@)[j]).id == groups_view(gs@)[k as int].id,
{
    let ghost gv = groups_view(gs@);
    let mut j: usize = 0;
    while j < k
        invariant
            j <= k < gs.len(),
            gv == groups_view(gs@),
            forall|m: int| 0 <= m < j ==> (#[trigger] gv[m]).id != gv[k as int].id,
        decreases k - j,
    {
        assert(gv[j as int] == gs@[j as int]@ && gv[k as int] == gs@[k as int]@);
        if str_eq(gs[j].id.as_str(), gs[k].id.as_str()) {
            return true;
        }
        j += 1;
    }
    false
}

fn rule_set_id_seen(ss: &Vec<RuleSetSource>, k: usize) -> (r: bool)
    requires
        k < ss.len(),
    ensures
        r == exists|j: int| 0 <= j < k && (#[trigger] rule_sets_view(ss@)[j]).id == rule_sets_view(ss@)[k as int].id,
{
    let ghost sv = rule_sets_view(ss@);
    let mut j: usize = 0;
    while j < k
        invariant
            j <= k < ss.len(),
            sv == rule_sets_view(ss@),
            forall|m: int| 0 <= m < j ==> (#[trigger] sv[m]).id != sv[k as int].id,
        decreases k - j,
    {
        assert(sv[j as int] == ss@[j as int]@ && sv[k as int] == ss@[k as int]@);
        if str_eq(ss[j].id.as_str(), ss[k].id.as_str()) {
            return true;
        }
        j += 1;
    }
    false
}

fn verdict_of(vs: &Vec<Option<String>>, i: usize) -> (r: Option<String>)
    ensures
        opt_view(r) == verdict_at(vs@, i as int),
{
    if i < vs.len() {
        match &vs[i] {
            Some(e) => Some(e.clone()),
            None => None,
        }
    } else {
        None
    }
}

fn contains_group(gs: &Vec<RoutingGroup>, id: &str) -> (r: bool)
    ensures
        r == has_group(groups_view(gs@), id@),
{
    let i = crate::table::find_group(gs, id);
    proof {
        lemma_first_group_found(groups_view(gs@), id@);
    }
    i < gs.len()
}

proof fn lemma_first_group_found(gs: Seq<RoutingGroupModel>, id: Seq<char>)
    ensures
        (crate::table::first_group(gs, id) < gs.len()) == has_group(gs, id),
        0 <= crate::table::first_group(gs, id) <= gs.len(),
    decreases gs.len(),
{
    if gs.len() > 0 && gs[0].id != id {
        lemma_first_group_found(gs.drop_first(), id);
        if has_group(gs, id) {
            let j = choose|j: int| 0 <= j < gs.len() && (#[trigger] gs[j]).id == id;
            assert(gs.drop_first()[j - 1] == gs[j]);
        }
        if has_group(gs.drop_first(), id) {
            let j = choose|j: int| 0 <= j < gs.len() - 1 && (#[trigger] gs.drop_first()[j]).id == id;
            assert(gs.drop_first()[j] == gs[j + 1]);
        }
    } else if gs.len() > 0 {
        assert(gs[0].id == id);
    }
}

pub proof fn lemma_first_rule_set_found(ss: Seq<RuleSetSourceModel>, id: Seq<char>)
    ensures
        (first_rule_set(ss, id) < ss.len()) == has_rule_set(ss, id),
        0 <= first_rule_set(ss, id) <= ss.len(),
        first_rule_set(ss, id) < ss.len() ==> ss[first_rule_set(ss, id)].id == id,
    decreases ss.len(),
{
    if ss.len() > 0 && ss[0].id != id {
        lemma_first_rule_set_found(ss.drop_first(), id);
        if has_rule_set(ss, id) {
            let j = choose|j: int| 0 <= j < ss.len() && (#[trigger] ss[j]).id == id;
            assert(ss.drop_first()[j - 1] == ss[j]);
        }
        if has_rule_set(ss.drop_first(), id) {
            let j = choose|j: int| 0 <= j < ss.len() - 1 && (#[trigger] ss.drop_first()[j]).id == id;
            assert(ss.drop_first()[j] == ss[j + 1]);
        }
    } else if ss.len() > 0 {
        assert(ss[0].id == id);
    }
}

fn check_rule(rule: &Rule, ss: &Vec<RuleSetSource>, gs: &Vec<RoutingGroup>) -> (r: Option<BundleError>)
    ensures
        match r {
            Some(e) => rule_fault(rule@, rule_sets_view(ss@), groups_view(gs@)) == Some(e@),
            None => rule_fault(rule@, rule_sets_view(ss@), groups_view(gs@)) is None,
        },
{
    let ghost rm = rule@;
    let ghost sv = rule_sets_view(ss@);
    let mut k: usize = 0;
    while k < rule.conditions.len()
        invariant
            k <= rule.conditions.len(),
            rm == rule@,
            sv == rule_sets_view(ss@),
            condition_fault_from(rm, sv, 0) == condition_fault_from(rm, sv, k as int),
        decreases rule.conditions.len() - k,
    {
        assert(rm.conditions[k as int] == rule.conditions@[k as int]@);
        match &rule.conditions[k] {
            Condition::RuleSet(id) => {
                let i = find_rule_set(ss, id.as_str());
                proof {
                    lemma_first_rule_set_found(sv, id@);
                }
                if i == ss.len() {
                    return Some(BundleError::UnknownRuleSet { rule: rule.id.clone(), rule_set: id.clone() });
                }
                assert(sv[i as int] == ss@[i as int]@);
                if !ss[i].enabled {
                    return Some(BundleError::DisabledRuleSet { rule: rule.id.clone(), rule_set: id.clone() });
                }
            },
            _ => {},
        }
        k += 1;
    }
    match &rule.action {
        Action::Proxy(t) => {
            if !contains_group(gs, t.as_str()) {
                return Some(BundleError::UnknownGroup { rule: rule.id.clone(), group: t.clone() });
            }
            None
        },
        _ => None,
    }
}

/// Checks an imported bundle. `rules_verdict` is the rule compiler's
/// message, if it refused the rules; `group_verdicts[i]` and
/// `rule_set_verdicts[i]` are the validators' messages for each group and
/// rule set (missing entries count as valid).
pub fn check_bundle(
    bundle: &RoutingBundle,
    rules_verdict: Option<String>,
    group_verdicts: &Vec<Option<String>>,
    rule_set_verdicts: &Vec<Option<String>>,
) -> (r: Result<(), BundleError>)
    ensures
        match r {
            Ok(()) => bundle_verdict(
                bundle.version,
                rules_view(bundle.rules@),
                groups_view(bundle.groups@),
                rule_sets_view(bundle.rule_sets@),
                opt_view(rules_verdict),
                group_verdicts@,
                rule_set_verdicts@,
            ) is None,
            Err(e) => bundle_verdict(
                bundle.version,
                rules_view(bundle.rules@),
                groups_view(bundle.groups@),
                rule_sets_view(bundle.rule_sets@),
                opt_view(rules_verdict),
                group_verdicts@,
                rule_set_verdicts@,
            ) == Some(e@),
        },
{
    if bundle.version != 1 {
        return Err(BundleError::UnsupportedVersion(bundle.version));
    }
    match &rules_verdict {
        Some(e) => {
            return Err(BundleError::InvalidRules(e.clone()));
        },
        None => {},
    }
    let ghost gv = groups_view(bundle.groups@);
    let mut i: usize = 0;
    while i < bundle.groups.len()
        invariant
            i <= bundle.groups.len(),
            gv == groups_view(bundle.groups@),
            bundle.version == 1,
            rules_verdict is None,
            group_fault_from(gv, group_verdicts@, 0) == group_fault_from(gv, group_verdicts@, i as int),
        decreases bundle.groups.len() - i,
    {
        match verdict_of(group_verdicts, i) {
            Some(e) => {
                return Err(BundleError::InvalidGroup(e));
            },
            None => {},
        }
        if group_id_seen(&bundle.groups, i) {
            assert(gv[i as int] == bundle.groups@[i as int]@);
            return Err(BundleError::DuplicateGroup(bundle.groups[i].id.clone()));
        }
        i += 1;
    }
    let ghost sv = rule_sets_view(bundle.rule_sets@);
    let mut k: usize = 0;
    while k < bundle.rule_sets.len()
        invariant
            k <= bundle.rule_sets.len(),
            sv == rule_sets_view(bundle.rule_sets@),
            group_fault_from(gv, group_verdicts@, 0) is None,
            gv == groups_view(bundle.groups@),
            bundle.version == 1,
            rules_verdict is None,
            rule_set_fault_from(sv, rule_set_verdicts@, 0) == rule_set_fault_from(sv, rule_set_verdicts@, k as int),
        decreases bundle.rule_sets.len() - k,
    {
        match verdict_of(rule_set_verdicts, k) {
            Some(e) => {
                return Err(BundleError::InvalidRuleSet(e));
            },
            None => {},
        }
        if rule_set_id_seen(&bundle.rule_sets, k) {
            assert(sv[k as int] == bundle.rule_sets@[k as int]@);
            return Err(BundleError::DuplicateRuleSet(bundle.rule_sets[k].id.clone()));
        }
        k += 1;
    }
    let ghost rv = rules_view(bundle.rules@);
    let mut m: usize = 0;
    while m < bundle.rules.len()
        invariant
            m <= bundle.rules.len(),
            rv == rules_view(bundle.rules@),
            sv == rule_sets_view(bundle.rule_sets@),
            gv == groups_view(bundle.groups@),
            group_fault_from(gv, group_verdicts@, 0) is None,
            rule_set_fault_from(sv, rule_set_verdicts@, 0) is None,
            bundle.version == 1,
            rules_verdict is None,
            reference_fault_from(rv, sv, gv, 0) == reference_fault_from(rv, sv, gv, m as int),
        decreases bundle.rules.len() - m,
    {
        assert(rv[m as int] == bundle.rules@[m as int]@);
        match check_rule(&bundle.rules[m], &bundle.rule_sets, &bundle.groups) {
            Some(e) => {
                return Err(e);
            },
            None => {},
        }
        m += 1;
    }
    Ok(())
}

impl RoutingTable {
    /// Replaces the routing table by an accepted bundle and clears the rule
    /// and group editors' errors.
    pub fn apply_bundle(&mut self, bundle: RoutingBundle)
        ensures
            final(self).rules@ == bundle.rules@,
            final(self).groups@ == bundle.groups@,
            final(self).rule_sets@ == bundle.rule_sets@,
            final(self).rule_editor_error is None,
            final(self).group_error is None,
            final(self).rule_set_error == old(self).rule_set_error,
    {
        self.rules = bundle.rules;
        self.groups = bundle.groups;
        self.rule_sets = bundle.rule_sets;
        self.rule_editor_error = None;
        self.group_error = None;
    }
}

/// The message for an import or export path that is not absolute.
pub open spec fn relative_path_message() -> Seq<char> {
    "导入导出路径必须是绝对路径"@
}

/// What an import or export path check gives: nothing for an absolute
/// path, the refusal otherwise.
pub open spec fn path_verdict(absolute: bool) -> Result<(), Seq<char>> {
    if absolute { Ok(()) } else { Err(relative_path_message()) }
}

/// The result of checking a path, given whether it is absolute.
pub fn bundle_path_verdict(absolute: bool) -> (r: Result<(), String>)
    ensures
        match r {
            Ok(()) => path_verdict(absolute) == Ok::<(), Seq<char>>(()),
            Err(e) => path_verdict(absolute) == Err::<(), Seq<char>>(e@),
        },
{
    if absolute {
        Ok(())
    } else {
        Err(String::from_str("导入导出路径必须是绝对路径"))
    }
}

/// Refuses an import or export path that is not absolute on this platform.
/// Whether a path is absolute is asked of the platform, which calls no path
/// absolute that lacks a leading separator or drive.
pub fn check_bundle_path(path: &str) -> (r: Result<(), String>)
    ensures
        exists|absolute: bool|
            (absolute ==> looks_rooted(path@)) && match r {
                Ok(()) => path_verdict(absolute) == Ok::<(), Seq<char>>(()),
                Err(e) => path_verdict(absolute) == Err::<(), Seq<char>>(e@),
            },
{
    bundle_path_verdict(is_absolute_path(path))
}

/// The status line after exporting the table to `path`.
pub fn export_status(path: &str, written: Result<(), String>) -> (s: String)
    ensures
        s@ == match written {
            Ok(()) => "已导出到 "@ + path@,
            Err(e) => "导出失败："@ + e@,
        },
{
    match written {
        Ok(()) => String::from_str("已导出到 ").concat(path),
        Err(e) => String::from_str("导出失败：").concat(e.as_str()),
    }
}

/// What importing from `path` does to a table, as `import_rules` does it:
/// the bundle read replaces the rules, groups and rule sets and clears the
/// rule and group editors' errors, with the status "已导入 <path>"; a failed
/// read changes nothing and gives the status "导入失败：<error>".
pub open spec fn import_effect(
    before: RoutingTable,
    after: RoutingTable,
    path: Seq<char>,
    read: Result<RoutingBundle, String>,
    status: Seq<char>,
) -> bool {
    &&& after.rule_set_error == before.rule_set_error
    &&& match read {
        Ok(b) => {
            &&& status == "已导入 "@ + path
            &&& after.rules@ == b.rules@
            &&& after.groups@ == b.groups@
            &&& after.rule_sets@ == b.rule_sets@
            &&& after.rule_editor_error is None
            &&& after.group_error is None
        },
        Err(e) => {
            &&& status == "导入失败："@ + e@
            &&& after.rules@ == before.rules@
            &&& after.groups@ == before.groups@
            &&& after.rule_sets@ == before.rule_sets@
            &&& after.rule_editor_error == before.rule_editor_error
            &&& after.group_error == before.group_error
        },
    }
}

/// `b` is what exporting `t` writes: version 1 and copies of its rules,
/// groups and rule sets.
pub open spec fn exports(t: RoutingTable, b: RoutingBundle) -> bool {
    &&& b.version == 1
    &&& rules_view(b.rules@) == rules_view(t.rules@)
    &&& groups_view(b.groups@) == groups_view(t.groups@)
    &&& rule_sets_view(b.rule_sets@) == rule_sets_view(t.rule_sets@)
}

/// Importing what an export of `t` wrote, read back intact, restores `t`'s
/// rules, groups and rule sets whatever the table held meanwhile, and
/// reports the path; a failed read leaves the table as it is.
pub proof fn law_import_restores_export(
    t: RoutingTable,
    b: RoutingBundle,
    before: RoutingTable,
    after: RoutingTable,
    path: Seq<char>,
    read: Result<RoutingBundle, String>,
    status: Seq<char>,
)
    requires
        exports(t, b),
        import_effect(before, after, path, read, status),
    ensures
        read == Ok::<RoutingBundle, String>(b) ==> {
            &&& rules_view(after.rules@) == rules_view(t.rules@)
            &&& groups_view(after.groups@) == groups_view(t.groups@)
            &&& rule_sets_view(after.rule_sets@) == rule_sets_view(t.rule_sets@)
            &&& status == "已导入 "@ + path
        },
        read is Err ==> {
            &&& after.rules@ == before.rules@
            &&& after.groups@ == before.groups@
            &&& after.rule_sets@ == before.rule_sets@
            &&& status.take(5) == "导入失败："@
        },
{
    if read is Err {
        reveal_strlit("导入失败：");
        assert(("导入失败："@ + read->Err_0@).take(5) =~= "导入失败："@);
    }
}

impl RoutingTable {
    /// The bundle an export writes: version 1 and copies of the rules,
    /// groups and rule sets.
    pub fn export_bundle(&self) -> (b: RoutingBundle)
        ensures
            exports(*self, b),
    {
        RoutingBundle {
            version: 1,
            rules: copy_rules(&self.rules),
            groups: copy_groups(&self.groups),
            rule_sets: copy_rule_sets(&self.rule_sets),
        }
    }
}

impl RoutingTable {
    /// Takes the result of importing a checked bundle from `path`: on
    /// success it replaces the table. Returns the status line.
    pub fn import_rules(&mut self, path: &str, read: Result<RoutingBundle, String>) -> (status: String)
        ensures
            import_effect(*old(self), *final(self), path@, read, status@),
    {
        match read {
            Ok(b) => {
                self.apply_bundle(b);
                String::from_str("已导入 ").concat(path)
            },
            Err(e) => String::from_str("导入失败：").concat(e.as_str()),
        }
    }
}

} // verus!
