//! The rule engine: picks the action of the first rule that matches a
//! connection.

use vstd::prelude::*;
use crate::model::{Action, ActionModel, Rule, RuleModel, RuleType, clone_strings, strings_view};
use crate::text::{contains_seq, lemma_map_push, str_contains};
use crate::tracker::ConnectionMeta;

verus! {

/// The process name of a connection, if known.
pub open spec fn process_name_of(meta: &ConnectionMeta) -> Option<Seq<char>> {
    match meta.process_name {
        Some(n) => Some(n@),
        None => None,
    }
}

/// A connection's process name contains one of `names`.
pub open spec fn process_matches(names: Seq<Seq<char>>, meta: &ConnectionMeta) -> bool {
    match process_name_of(meta) {
        Some(n) => exists|k: int| 0 <= k < names.len() && contains_seq(n, #[trigger] names[k]),
        None => false,
    }
}

/// Something that decides whether a connection matches.
pub trait Matcher {
    spec fn spec_matches(&self, meta: &ConnectionMeta) -> bool;

    fn matches(&self, meta: &ConnectionMeta) -> (r: bool)
        ensures
            r == self.spec_matches(meta),
    ;
}

/// Matches connections by the suffix of their domain.
///
/// A connection record carries no domain yet, so this matcher never matches.
pub struct DomainSuffixMatcher {
    suffixes: Vec<String>,
}

impl DomainSuffixMatcher {
    pub fn new(suffixes: Vec<String>) -> (m: DomainSuffixMatcher)
        ensures
            m.suffixes_view() == strings_view(suffixes@),
    {
        DomainSuffixMatcher { suffixes }
    }

    pub closed spec fn suffixes_view(&self) -> Seq<Seq<char>> {
        strings_view(self.suffixes@)
    }
}

impl Matcher for DomainSuffixMatcher {
    open spec fn spec_matches(&self, meta: &ConnectionMeta) -> bool {
        false
    }

    fn matches(&self, _meta: &ConnectionMeta) -> (r: bool) {
        false
    }
}

/// Matches connections whose process name contains one of the given names.
pub struct ProcessNameMatcher {
    names: Vec<String>,
}

impl ProcessNameMatcher {
    pub fn new(names: Vec<String>) -> (m: ProcessNameMatcher)
        ensures
            m.names_view() == strings_view(names@),
    {
        ProcessNameMatcher { names }
    }

    pub closed spec fn names_view(&self) -> Seq<Seq<char>> {
        strings_view(self.names@)
    }
}

impl Matcher for ProcessNameMatcher {
    open spec fn spec_matches(&self, meta: &ConnectionMeta) -> bool {
        process_matches(self.names_view(), meta)
    }

    fn matches(&self, meta: &ConnectionMeta) -> (r: bool) {
        match &meta.process_name {
            Some(name) => {
                let mut k: usize = 0;
                while k < self.names.len()
                    invariant
                        k <= self.names.len(),
                        meta.process_name == Some(*name),
                        forall|j: int| 0 <= j < k ==> !contains_seq(name@, #[trigger] self.names_view()[j]),
                    decreases self.names.len() - k,
                {
                    if str_contains(name.as_str(), self.names[k].as_str()) {
                        assert(contains_seq(name@, self.names_view()[k as int]));
                        return true;
                    }
                    k += 1;
                }
                false
            },
            None => false,
        }
    }
}

/// A matcher compiled from a rule.
pub enum CompiledMatcher {
    DomainSuffix(DomainSuffixMatcher),
    ProcessName(ProcessNameMatcher),
}

impl Matcher for CompiledMatcher {
    open spec fn spec_matches(&self, meta: &ConnectionMeta) -> bool {
        match self {
            CompiledMatcher::DomainSuffix(m) => m.spec_matches(meta),
            CompiledMatcher::ProcessName(m) => m.spec_matches(meta),
        }
    }

    fn matches(&self, meta: &ConnectionMeta) -> (r: bool) {
        match self {
            CompiledMatcher::DomainSuffix(m) => m.matches(meta),
            CompiledMatcher::ProcessName(m) => m.matches(meta),
        }
    }
}

/// The rule types the engine can compile.
pub open spec fn supported(t: RuleType) -> bool {
    t == RuleType::DomainSuffix || t == RuleType::ProcessName
}

/// Whether a rule matches a connection: process-name rules match by
/// substring, every other rule type never matches.
pub open spec fn rule_matches(r: RuleModel, meta: &ConnectionMeta) -> bool {
    r.rule_type == RuleType::ProcessName && process_matches(r.payload, meta)
}

/// The models of a list of rules, in order.
pub open spec fn rule_models(rules: Seq<Rule>) -> Seq<RuleModel> {
    rules.map_values(|r: Rule| r@)
}

/// Every rule has a type the engine can compile.
pub open spec fn all_supported(rules: Seq<RuleModel>) -> bool {
    forall|i: int| 0 <= i < rules.len() ==> supported(#[trigger] rules[i].rule_type)
}

/// Rule `i` is the first whose type the engine cannot compile.
pub open spec fn first_unsupported_rule(rules: Seq<RuleModel>, i: int) -> bool {
    &&& 0 <= i < rules.len()
    &&& !supported(rules[i].rule_type)
    &&& forall|j: int| 0 <= j < i ==> supported(#[trigger] rules[j].rule_type)
}

/// The action of the first matching rule, or `default` when none matches.
pub open spec fn first_match(rules: Seq<RuleModel>, default: ActionModel, meta: &ConnectionMeta) -> ActionModel
    decreases rules.len(),
{
    if rules.len() == 0 {
        default
    } else if rule_matches(rules[0], meta) {
        rules[0].action
    } else {
        first_match(rules.drop_first(), default, meta)
    }
}

/// The matcher a rule compiles to, if its type is supported.
pub fn create_matcher(rule: &Rule) -> (m: Option<CompiledMatcher>)
    ensures
        m is Some <==> supported(rule.rule_type),
        m matches Some(cm) ==> forall|meta: &ConnectionMeta| #[trigger] cm.spec_matches(meta) == rule_matches(rule@, meta),
{
    match rule.rule_type {
        RuleType::DomainSuffix => Some(CompiledMatcher::DomainSuffix(DomainSuffixMatcher::new(clone_strings(&rule.payload)))),
        RuleType::ProcessName => Some(CompiledMatcher::ProcessName(ProcessNameMatcher::new(clone_strings(&rule.payload)))),
        _ => None,
    }
}

/// A rule the engine refused: its type has no matcher.
#[derive(Debug, Clone, PartialEq, Eq)]
pub struct UnsupportedRule {
    /// The refused rule's name.
    pub name: String,
    /// Its type.
    pub rule_type: RuleType,
}

impl UnsupportedRule {
    /// The message shown for this error.
    pub fn message(&self) -> (s: String)
        ensures
            s@ == "不支持的规则条件："@ + self.name@,
    {
        String::from_str("不支持的规则条件：").concat(self.name.as_str())
    }
}

/// An ordered list of compiled rules and the action used when none matches.
pub struct RuleEngine {
    rules: Vec<(Rule, CompiledMatcher)>,
    default_action: Action,
}

impl RuleEngine {
    #[verifier::type_invariant]
    spec fn wf(self) -> bool {
        forall|i: int| 0 <= i < self.rules@.len() ==> forall|meta: &ConnectionMeta|
            #[trigger] (#[trigger] self.rules@[i]).1.spec_matches(meta) == rule_matches(self.rules@[i].0@, meta)
    }

    /// The rules the engine holds, in order.
    pub closed spec fn rules_view(&self) -> Seq<RuleModel> {
        self.rules@.map_values(|e: (Rule, CompiledMatcher)| e.0@)
    }

    /// The action taken when no rule matches.
    pub closed spec fn default_view(&self) -> ActionModel {
        self.default_action@
    }

    /// Compiles the rules in order. A rule whose type has no matcher is
    /// refused: the engine is built only when every rule can be compiled.
    pub fn new(config_rules: Vec<Rule>, default_action: Action) -> (r: Result<RuleEngine, UnsupportedRule>)
        ensures
            r is Ok <==> all_supported(rule_models(config_rules@)),
            r matches Ok(e) ==> e.rules_view() == rule_models(config_rules@) && e.default_view() == default_action@,
            r matches Err(u) ==> exists|i: int| #[trigger] first_unsupported_rule(rule_models(config_rules@), i)
                && u.name@ == config_rules@[i].name@ && u.rule_type == config_rules@[i].rule_type,
    {
        let ghost all = rule_models(config_rules@);
        let mut rules: Vec<(Rule, CompiledMatcher)> = Vec::new();
        let mut i: usize = 0;
        while i < config_rules.len()
            invariant
                i <= config_rules.len(),
                all == rule_models(config_rules@),
                rules@.map_values(|e: (Rule, CompiledMatcher)| e.0@) == all.take(i as int),
                forall|j: int| 0 <= j < i ==> supported(#[trigger] all[j].rule_type),
                forall|j: int| 0 <= j < rules@.len() ==> forall|meta: &ConnectionMeta|
                    #[trigger] (#[trigger] rules@[j]).1.spec_matches(meta) == rule_matches(rules@[j].0@, meta),
            decreases config_rules.len() - i,
        {
            assert(all[i as int] == config_rules@[i as int]@);
            match create_matcher(&config_rules[i]) {
                Some(m) => {
                    let ghost prev = rules@;
                    let r = config_rules[i].copy();
                    rules.push((r, m));
                    proof {
                        lemma_map_push(prev, (r, m), |e: (Rule, CompiledMatcher)| e.0@);
                    }
                    assert(all.take(i + 1) =~= all.take(i as int).push(all[i as int]));
                },
                None => {
                    assert(first_unsupported_rule(all, i as int));
                    return Err(UnsupportedRule { name: config_rules[i].name.clone(), rule_type: config_rules[i].rule_type });
                },
            }
            i += 1;
        }
        assert(all.take(config_rules.len() as int) =~= all);
        Ok(RuleEngine { rules, default_action })
    }

    /// The action of the first rule that matches the connection, or the
    /// default action.
    pub fn match_rule(&self, meta: &ConnectionMeta) -> (a: &Action)
        ensures
            a@ == first_match(self.rules_view(), self.default_view(), meta),
    {
        proof {
            use_type_invariant(self);
        }
        let ghost rv = self.rules_view();
        assert(rv.skip(0) =~= rv);
        let mut i: usize = 0;
        while i < self.rules.len()
            invariant
                i <= self.rules.len(),
                rv == self.rules_view(),
                rv.len() == self.rules@.len(),
                first_match(rv.skip(i as int), self.default_view(), meta) == first_match(rv, self.default_view(), meta),
                forall|j: int| 0 <= j < self.rules@.len() ==> forall|meta: &ConnectionMeta|
                    #[trigger] (#[trigger] self.rules@[j]).1.spec_matches(meta) == rule_matches(self.rules@[j].0@, meta),
            decreases self.rules.len() - i,
        {
            assert(rv.skip(i as int)[0] == rv[i as int]);
            assert(rv[i as int] == self.rules@[i as int].0@);
            if self.rules[i].1.matches(meta) {
                return &self.rules[i].0.action;
            }
            assert(rv.skip(i as int).drop_first() =~= rv.skip(i + 1));
            i += 1;
        }
        assert(rv.skip(i as int) =~= Seq::<RuleModel>::empty());
        &self.default_action
    }
}

} // verus!
