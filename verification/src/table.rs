//! The routing table the client edits: rules ordered by priority, routing
//! groups and rule sets, with the error each editor shows.

use vstd::prelude::*;
use crate::model::clone_strings;
use crate::routing::{Action, Condition, RoutingGroup, RoutingGroupModel, Rule, RuleModel, RuleSetSource, RuleSetSourceModel};
use crate::text::{all_digits, chars_of, digits_value, string_from_chars};

verus! {

pub open spec fn rules_view(v: Seq<Rule>) -> Seq<RuleModel> {
    v.map_values(|r: Rule| r@)
}

pub open spec fn groups_view(v: Seq<RoutingGroup>) -> Seq<RoutingGroupModel> {
    v.map_values(|g: RoutingGroup| g@)
}

pub open spec fn rule_sets_view(v: Seq<RuleSetSource>) -> Seq<RuleSetSourceModel> {
    v.map_values(|s: RuleSetSource| s@)
}

/// A copy of a condition.
pub fn copy_condition(c: &Condition) -> (r: Condition)
    ensures
        r@ == c@,
{
    match c {
        Condition::Domain(s) => Condition::Domain(s.clone()),
        Condition::DomainSuffix(s) => Condition::DomainSuffix(s.clone()),
        Condition::IpCidr { network, prefix } => Condition::IpCidr { network: *network, prefix: *prefix },
        Condition::Port(p) => Condition::Port(*p),
        Condition::Process(s) => Condition::Process(s.clone()),
        Condition::RuleSet(s) => Condition::RuleSet(s.clone()),
        Condition::Any => Condition::Any,
    }
}

/// A copy of a rule.
pub fn copy_rule(rule: &Rule) -> (r: Rule)
    ensures
        r@ == rule@,
{
    let mut conditions: Vec<Condition> = Vec::new();
    let mut i: usize = 0;
    while i < rule.conditions.len()
        invariant
            i <= rule.conditions.len(),
            conditions@.map_values(|c: Condition| c@) == rule.conditions@.take(i as int).map_values(|c: Condition| c@),
        decreases rule.conditions.len() - i,
    {
        let c = copy_condition(&rule.conditions[i]);
        proof {
            crate::text::lemma_map_push(conditions@, c, |c: Condition| c@);
            crate::text::lemma_map_take_push(rule.conditions@, i as int, |c: Condition| c@);
        }
        conditions.push(c);
        i += 1;
    }
    assert(rule.conditions@.take(rule.conditions.len() as int) =~= rule.conditions@);
    let action = match &rule.action {
        Action::Proxy(s) => Action::Proxy(s.clone()),
        Action::Direct => Action::Direct,
        Action::Block => Action::Block,
        Action::Dns(s) => Action::Dns(s.clone()),
    };
    Rule { id: rule.id.clone(), priority: rule.priority, conditions, action }
}

/// A copy of a list of rules.
pub fn copy_rules(rules: &Vec<Rule>) -> (r: Vec<Rule>)
    ensures
        rules_view(r@) == rules_view(rules@),
{
    let mut out: Vec<Rule> = Vec::new();
    let mut i: usize = 0;
    while i < rules.len()
        invariant
            i <= rules.len(),
            rules_view(out@) == rules_view(rules@.take(i as int)),
        decreases rules.len() - i,
    {
        let r = copy_rule(&rules[i]);
        proof {
            crate::text::lemma_map_push(out@, r, |r: Rule| r@);
            crate::text::lemma_map_take_push(rules@, i as int, |r: Rule| r@);
        }
        out.push(r);
        i += 1;
    }
    assert(rules@.take(rules.len() as int) =~= rules@);
    out
}

/// A copy of a list of routing groups.
pub fn copy_groups(groups: &Vec<RoutingGroup>) -> (r: Vec<RoutingGroup>)
    ensures
        groups_view(r@) == groups_view(groups@),
{
    let mut out: Vec<RoutingGroup> = Vec::new();
    let mut i: usize = 0;
    while i < groups.len()
        invariant
            i <= groups.len(),
            groups_view(out@) == groups_view(groups@.take(i as int)),
        decreases groups.len() - i,
    {
        let g = &groups[i];
        let url = match &g.url {
            Some(u) => Some(u.clone()),
            None => None,
        };
        let c = RoutingGroup {
            id: g.id.clone(),
            strategy: g.strategy,
            members: clone_strings(&g.members),
            url,
            interval_secs: g.interval_secs,
        };
        assert(c@ == groups@[i as int]@);
        proof {
            crate::text::lemma_map_push(out@, c, |g: RoutingGroup| g@);
            crate::text::lemma_map_take_push(groups@, i as int, |g: RoutingGroup| g@);
        }
        out.push(c);
        i += 1;
    }
    assert(groups@.take(groups.len() as int) =~= groups@);
    out
}

/// A copy of a list of rule sets.
pub fn copy_rule_sets(sets: &Vec<RuleSetSource>) -> (r: Vec<RuleSetSource>)
    ensures
        rule_sets_view(r@) == rule_sets_view(sets@),
{
    let mut out: Vec<RuleSetSource> = Vec::new();
    let mut i: usize = 0;
    while i < sets.len()
        invariant
            i <= sets.len(),
            rule_sets_view(out@) == rule_sets_view(sets@.take(i as int)),
        decreases sets.len() - i,
    {
        let s = &sets[i];
        let c = RuleSetSource {
            id: s.id.clone(),
            source: s.source.clone(),
            version: s.version.clone(),
            sha256: s.sha256.clone(),
            format: s.format,
            enabled: s.enabled,
            signature: s.signature.clone(),
            public_key: s.public_key.clone(),
        };
        proof {
            crate::text::lemma_map_push(out@, c, |s: RuleSetSource| s@);
            crate::text::lemma_map_take_push(sets@, i as int, |s: RuleSetSource| s@);
        }
        out.push(c);
        i += 1;
    }
    assert(sets@.take(sets.len() as int) =~= sets@);
    out
}

/// The decimal digits of `n`.
pub open spec fn decimal(n: nat) -> Seq<char>
    decreases n,
{
    if n < 10 {
        seq![(('0' as u8) + (n as u8)) as char]
    } else {
        decimal(n / 10).push((('0' as u8) + ((n % 10) as u8)) as char)
    }
}

/// The decimal digits of `n` are digits, at least one, and read back as `n`.
pub proof fn lemma_decimal_reads_back(n: nat)
    ensures
        decimal(n).len() > 0,
        all_digits(decimal(n)),
        digits_value(decimal(n)) == n,
    decreases n,
{
    if n < 10 {
        let c = (('0' as u8) + (n as u8)) as char;
        assert(c as int == 48 + n);
        assert('0' as int == 48);
        assert(decimal(n) =~= seq![c]);
        assert(seq![c].drop_last() =~= Seq::<char>::empty());
        assert(digits_value(seq![c]) == digits_value(Seq::<char>::empty()) * 10 + (c as int - '0' as int));
    } else {
        lemma_decimal_reads_back(n / 10);
        let c = (('0' as u8) + ((n % 10) as u8)) as char;
        assert(c as int == 48 + n % 10);
        let d = decimal(n);
        assert(d.drop_last() =~= decimal(n / 10));
        assert(d.last() == c);
        assert((n / 10) * 10 + n % 10 == n) by (nonlinear_arith);
        assert('0' as int == 48);
        assert(digits_value(d) == digits_value(d.drop_last()) * 10 + (d.last() as int - '0' as int));
        assert(digits_value(d) == (n / 10) * 10 + n % 10);
        assert forall|i: int| 0 <= i < d.len() implies '0' <= #[trigger] d[i] <= '9' by {
            if i < d.len() - 1 {
                assert(d[i] == decimal(n / 10)[i]);
            }
        }
    }
}

/// The decimal digits of `n`.
pub fn decimal_chars(n: u64) -> (r: Vec<char>)
    ensures
        r@ == decimal(n as nat),
    decreases n,
{
    if n < 10 {
        let c = (('0' as u8) + (n as u8)) as char;
        let mut r: Vec<char> = Vec::new();
        r.push(c);
        assert(r@ =~= decimal(n as nat));
        r
    } else {
        let mut r = decimal_chars(n / 10);
        let c = (('0' as u8) + ((n % 10) as u8)) as char;
        r.push(c);
        r
    }
}

/// `prefix` followed by the decimal digits of `n`.
pub fn numbered(prefix: &str, n: u64) -> (s: String)
    ensures
        s@ == prefix@ + decimal(n as nat),
{
    let mut v = chars_of(prefix);
    let d = decimal_chars(n);
    let mut i: usize = 0;
    let ghost start = v@;
    while i < d.len()
        invariant
            i <= d.len(),
            v@ == start + d@.take(i as int),
        decreases d.len() - i,
    {
        v.push(d[i]);
        assert(v@ =~= start + d@.take(i + 1));
        i += 1;
    }
    assert(d@.take(d.len() as int) =~= d@);
    string_from_chars(v.as_slice())
}

/// The index of the first entry satisfying `id_of(e) == id`, or `s.len()`.
pub open spec fn first_rule(s: Seq<RuleModel>, id: Seq<char>) -> int
    decreases s.len(),
{
    if s.len() == 0 {
        0
    } else if s[0].id == id {
        0
    } else {
        1 + first_rule(s.drop_first(), id)
    }
}

pub open spec fn first_group(s: Seq<RoutingGroupModel>, id: Seq<char>) -> int
    decreases s.len(),
{
    if s.len() == 0 {
        0
    } else if s[0].id == id {
        0
    } else {
        1 + first_group(s.drop_first(), id)
    }
}

pub open spec fn first_rule_set(s: Seq<RuleSetSourceModel>, id: Seq<char>) -> int
    decreases s.len(),
{
    if s.len() == 0 {
        0
    } else if s[0].id == id {
        0
    } else {
        1 + first_rule_set(s.drop_first(), id)
    }
}

/// The first rule with an id lies within the list, or just past it; when
/// within, it has that id and no earlier rule does.
pub proof fn lemma_first_rule_bounds(s: Seq<RuleModel>, id: Seq<char>)
    ensures
        0 <= first_rule(s, id) <= s.len(),
        first_rule(s, id) < s.len() ==> s[first_rule(s, id)].id == id,
        forall|j: int| 0 <= j < first_rule(s, id) ==> (#[trigger] s[j]).id != id,
    decreases s.len(),
{
    if s.len() > 0 && s[0].id != id {
        lemma_first_rule_bounds(s.drop_first(), id);
        assert forall|j: int| 0 <= j < first_rule(s, id) implies (#[trigger] s[j]).id != id by {
            if j > 0 {
                assert(s[j] == s.drop_first()[j - 1]);
            }
        }
    }
}

/// The first group with an id lies within the list, or just past it; when
/// within, it has that id and no earlier group does.
pub proof fn lemma_first_group_bounds(s: Seq<RoutingGroupModel>, id: Seq<char>)
    ensures
        0 <= first_group(s, id) <= s.len(),
        first_group(s, id) < s.len() ==> s[first_group(s, id)].id == id,
        forall|j: int| 0 <= j < first_group(s, id) ==> (#[trigger] s[j]).id != id,
    decreases s.len(),
{
    if s.len() > 0 && s[0].id != id {
        lemma_first_group_bounds(s.drop_first(), id);
        assert forall|j: int| 0 <= j < first_group(s, id) implies (#[trigger] s[j]).id != id by {
            if j > 0 {
                assert(s[j] == s.drop_first()[j - 1]);
            }
        }
    }
}

/// The first rule set with an id lies within the list, or just past it;
/// when within, it has that id and no earlier rule set does.
pub proof fn lemma_first_rule_set_bounds(s: Seq<RuleSetSourceModel>, id: Seq<char>)
    ensures
        0 <= first_rule_set(s, id) <= s.len(),
        first_rule_set(s, id) < s.len() ==> s[first_rule_set(s, id)].id == id,
        forall|j: int| 0 <= j < first_rule_set(s, id) ==> (#[trigger] s[j]).id != id,
    decreases s.len(),
{
    if s.len() > 0 && s[0].id != id {
        lemma_first_rule_set_bounds(s.drop_first(), id);
        assert forall|j: int| 0 <= j < first_rule_set(s, id) implies (#[trigger] s[j]).id != id by {
            if j > 0 {
                assert(s[j] == s.drop_first()[j - 1]);
            }
        }
    }
}

proof fn lemma_first_rule_at(s: Seq<RuleModel>, id: Seq<char>, i: int)
    requires
        0 <= i <= s.len(),
        forall|j: int| 0 <= j < i ==> (#[trigger] s[j]).id != id,
        i == s.len() || s[i].id == id,
    ensures
        first_rule(s, id) == i,
    decreases i,
{
    if i > 0 {
        assert forall|j: int| 0 <= j < i - 1 implies (#[trigger] s.drop_first()[j]).id != id by {
            assert(s.drop_first()[j] == s[j + 1]);
        }
        lemma_first_rule_at(s.drop_first(), id, i - 1);
    }
}

proof fn lemma_first_group_at(s: Seq<RoutingGroupModel>, id: Seq<char>, i: int)
    requires
        0 <= i <= s.len(),
        forall|j: int| 0 <= j < i ==> (#[trigger] s[j]).id != id,
        i == s.len() || s[i].id == id,
    ensures
        first_group(s, id) == i,
    decreases i,
{
    if i > 0 {
        assert forall|j: int| 0 <= j < i - 1 implies (#[trigger] s.drop_first()[j]).id != id by {
            assert(s.drop_first()[j] == s[j + 1]);
        }
        lemma_first_group_at(s.drop_first(), id, i - 1);
    }
}

proof fn lemma_first_rule_set_at(s: Seq<RuleSetSourceModel>, id: Seq<char>, i: int)
    requires
        0 <= i <= s.len(),
        forall|j: int| 0 <= j < i ==> (#[trigger] s[j]).id != id,
        i == s.len() || s[i].id == id,
    ensures
        first_rule_set(s, id) == i,
    decreases i,
{
    if i > 0 {
        assert forall|j: int| 0 <= j < i - 1 implies (#[trigger] s.drop_first()[j]).id != id by {
            assert(s.drop_first()[j] == s[j + 1]);
        }
        lemma_first_rule_set_at(s.drop_first(), id, i - 1);
    }
}

/// The index of the first rule with the given id, or the number of rules.
pub fn find_rule(rules: &Vec<Rule>, id: &str) -> (r: usize)
    ensures
        r == first_rule(rules_view(rules@), id@),
        r <= rules.len(),
{
    let ghost s = rules_view(rules@);
    let mut i: usize = 0;
    while i < rules.len()
        invariant
            i <= rules.len(),
            s == rules_view(rules@),
            forall|j: int| 0 <= j < i ==> (#[trigger] s[j]).id != id@,
        decreases rules.len() - i,
    {
        if crate::text::str_eq(rules[i].id.as_str(), id) {
            proof {
                lemma_first_rule_at(s, id@, i as int);
            }
            return i;
        }
        i += 1;
    }
    proof {
        lemma_first_rule_at(s, id@, i as int);
    }
    i
}

/// The index of the first group with the given id, or the number of groups.
pub fn find_group(groups: &Vec<RoutingGroup>, id: &str) -> (r: usize)
    ensures
        r == first_group(groups_view(groups@), id@),
        r <= groups.len(),
{
    let ghost s = groups_view(groups@);
    let mut i: usize = 0;
    while i < groups.len()
        invariant
            i <= groups.len(),
            s == groups_view(groups@),
            forall|j: int| 0 <= j < i ==> (#[trigger] s[j]).id != id@,
        decreases groups.len() - i,
    {
        if crate::text::str_eq(groups[i].id.as_str(), id) {
            proof {
                lemma_first_group_at(s, id@, i as int);
            }
            return i;
        }
        i += 1;
    }
    proof {
        lemma_first_group_at(s, id@, i as int);
    }
    i
}

/// The index of the first rule set with the given id, or their number.
pub fn find_rule_set(sets: &Vec<RuleSetSource>, id: &str) -> (r: usize)
    ensures
        r == first_rule_set(rule_sets_view(sets@), id@),
        r <= sets.len(),
{
    let ghost s = rule_sets_view(sets@);
    let mut i: usize = 0;
    while i < sets.len()
        invariant
            i <= sets.len(),
            s == rule_sets_view(sets@),
            forall|j: int| 0 <= j < i ==> (#[trigger] s[j]).id != id@,
        decreases sets.len() - i,
    {
        if crate::text::str_eq(sets[i].id.as_str(), id) {
            proof {
                lemma_first_rule_set_at(s, id@, i as int);
            }
            return i;
        }
        i += 1;
    }
    proof {
        lemma_first_rule_set_at(s, id@, i as int);
    }
    i
}

/// The index of the first rule whose priority exceeds `p`, or their number.
pub open spec fn upper_bound(s: Seq<RuleModel>, p: i32) -> int
    decreases s.len(),
{
    if s.len() == 0 {
        0
    } else if s[0].priority > p {
        0
    } else {
        1 + upper_bound(s.drop_first(), p)
    }
}

/// `x` placed after every rule whose priority does not exceed its own.
pub open spec fn insert_by_priority(sorted: Seq<RuleModel>, x: RuleModel) -> Seq<RuleModel> {
    sorted.insert(upper_bound(sorted, x.priority), x)
}

/// The rules stably sorted by priority: rules of equal priority keep their
/// order.
pub open spec fn sort_by_priority(s: Seq<RuleModel>) -> Seq<RuleModel>
    decreases s.len(),
{
    if s.len() == 0 {
        Seq::empty()
    } else {
        insert_by_priority(sort_by_priority(s.drop_last()), s.last())
    }
}

/// Priorities never decrease along the sequence.
pub open spec fn sorted_by_priority(s: Seq<RuleModel>) -> bool {
    forall|i: int, j: int| 0 <= i <= j < s.len() ==> (#[trigger] s[i]).priority <= (#[trigger] s[j]).priority
}

proof fn lemma_upper_bound(s: Seq<RuleModel>, p: i32)
    requires
        sorted_by_priority(s),
    ensures
        0 <= upper_bound(s, p) <= s.len(),
        forall|j: int| 0 <= j < upper_bound(s, p) ==> (#[trigger] s[j]).priority <= p,
        forall|j: int| upper_bound(s, p) <= j < s.len() ==> (#[trigger] s[j]).priority > p,
    decreases s.len(),
{
    if s.len() > 0 && s[0].priority <= p {
        let t = s.drop_first();
        assert forall|i: int, j: int| 0 <= i <= j < t.len() implies (#[trigger] t[i]).priority <= (#[trigger] t[j]).priority by {
            assert(t[i] == s[i + 1] && t[j] == s[j + 1]);
        }
        lemma_upper_bound(t, p);
        assert forall|j: int| 0 <= j < upper_bound(s, p) implies (#[trigger] s[j]).priority <= p by {
            if j > 0 {
                assert(s[j] == t[j - 1]);
            }
        }
        assert forall|j: int| upper_bound(s, p) <= j < s.len() implies (#[trigger] s[j]).priority > p by {
            assert(s[j] == t[j - 1]);
        }
    } else if s.len() > 0 {
        assert forall|j: int| 0 <= j < s.len() implies (#[trigger] s[j]).priority > p by {
            assert(s[0].priority <= s[j].priority);
        }
    }
}

/// Stable insertion keeps a sorted sequence sorted.
pub proof fn lemma_insert_sorted(sorted: Seq<RuleModel>, x: RuleModel)
    requires
        sorted_by_priority(sorted),
    ensures
        sorted_by_priority(insert_by_priority(sorted, x)),
        insert_by_priority(sorted, x).to_multiset() == sorted.to_multiset().insert(x),
        insert_by_priority(sorted, x).len() == sorted.len() + 1,
{
    lemma_upper_bound(sorted, x.priority);
    let k = upper_bound(sorted, x.priority);
    let r = sorted.insert(k, x);
    assert forall|i: int, j: int| 0 <= i <= j < r.len() implies (#[trigger] r[i]).priority <= (#[trigger] r[j]).priority by {
        if i < k && j < k {
        } else if i < k && j == k {
        } else if i < k {
            assert(r[j] == sorted[j - 1]);
        } else if i == k && j == k {
        } else if i == k {
            assert(r[j] == sorted[j - 1]);
        } else {
            assert(r[i] == sorted[i - 1] && r[j] == sorted[j - 1]);
        }
    }
    sorted.to_multiset_ensures();
    vstd::seq_lib::lemma_seq_union_to_multiset_commutative(sorted.take(k), sorted.skip(k));
    assert(r =~= sorted.take(k) + seq![x] + sorted.skip(k));
    assert(sorted =~= sorted.take(k) + sorted.skip(k));
    vstd::seq_lib::lemma_multiset_commutative(sorted.take(k) + seq![x], sorted.skip(k));
    vstd::seq_lib::lemma_multiset_commutative(sorted.take(k), seq![x]);
    vstd::seq_lib::lemma_multiset_commutative(sorted.take(k), sorted.skip(k));
    assert(seq![x].to_multiset() =~= vstd::multiset::Multiset::empty().insert(x)) by {
        seq![x].to_multiset_ensures();
        assert(seq![x] =~= Seq::<RuleModel>::empty().push(x));
        Seq::<RuleModel>::empty().to_multiset_ensures();
    }
}

/// Sorting by priority yields a sorted permutation.
pub proof fn law_priority_sort_sorted_permutation(s: Seq<RuleModel>)
    ensures
        sorted_by_priority(sort_by_priority(s)),
        sort_by_priority(s).to_multiset() == s.to_multiset(),
        sort_by_priority(s).len() == s.len(),
    decreases s.len(),
{
    if s.len() > 0 {
        law_priority_sort_sorted_permutation(s.drop_last());
        lemma_insert_sorted(sort_by_priority(s.drop_last()), s.last());
        s.drop_last().to_multiset_ensures();
        assert(s =~= s.drop_last().push(s.last()));
        s.to_multiset_ensures();
    } else {
        assert(s =~= Seq::<RuleModel>::empty());
        s.to_multiset_ensures();
        Seq::<RuleModel>::empty().to_multiset_ensures();
    }
}

/// A sequence already sorted by priority is left as it is.
pub proof fn law_priority_sort_keeps_sorted(s: Seq<RuleModel>)
    requires
        sorted_by_priority(s),
    ensures
        sort_by_priority(s) == s,
    decreases s.len(),
{
    if s.len() > 0 {
        let d = s.drop_last();
        assert(sorted_by_priority(d)) by {
            assert forall|i: int, j: int| 0 <= i <= j < d.len() implies (#[trigger] d[i]).priority <= (#[trigger] d[j]).priority by {
                assert(d[i] == s[i] && d[j] == s[j]);
            }
        }
        law_priority_sort_keeps_sorted(d);
        lemma_upper_bound(d, s.last().priority);
        let k = upper_bound(d, s.last().priority);
        if k < d.len() {
            assert(d[k].priority > s.last().priority);
            assert(s[k].priority <= s[s.len() - 1].priority);
            assert(false);
        }
        assert(d.insert(d.len() as int, s.last()) =~= s);
    }
}

/// Stably sorts rules by priority.
pub fn sort_rules_by_priority(rules: Vec<Rule>) -> (out: Vec<Rule>)
    ensures
        rules_view(out@) == sort_by_priority(rules_view(rules@)),
{
    let ghost orig = rules_view(rules@);
    let mut src = rules;
    let mut out: Vec<Rule> = Vec::new();
    let mut k: usize = 0;
    let n = src.len();
    while src.len() > 0
        invariant
            k <= n,
            orig.len() == n,
            src.len() == n - k,
            rules_view(src@) == orig.skip(k as int),
            rules_view(out@) == sort_by_priority(orig.take(k as int)),
        decreases src.len(),
    {
        proof {
            law_priority_sort_sorted_permutation(orig.take(k as int));
        }
        let ghost sorted = rules_view(out@);
        let ghost old_src = src@;
        let x = src.remove(0);
        assert forall|j: int| 0 <= j < src@.len() implies #[trigger] rules_view(src@)[j] == orig.skip(k + 1)[j] by {
            assert(src@[j] == old_src[j + 1]);
            assert(rules_view(old_src)[j + 1] == orig.skip(k as int)[j + 1]);
        }
        assert(x@ == orig[k as int]) by {
            assert(orig.skip(k as int)[0] == orig[k as int]);
        }
        assert(rules_view(src@) =~= orig.skip(k + 1));
        let mut pos: usize = 0;
        assert(sorted.skip(0) =~= sorted);
        while pos < out.len() && out[pos].priority <= x.priority
            invariant
                pos <= out.len(),
                sorted == rules_view(out@),
                upper_bound(sorted, x.priority) == pos + upper_bound(sorted.skip(pos as int), x.priority),
            decreases out.len() - pos,
        {
            assert(sorted.skip(pos as int)[0] == sorted[pos as int]);
            assert(sorted.skip(pos as int).drop_first() =~= sorted.skip(pos + 1));
            pos += 1;
        }
        assert(upper_bound(sorted, x.priority) == pos) by {
            if pos < out.len() {
                assert(sorted.skip(pos as int)[0] == sorted[pos as int]);
            }
        }
        let ghost before = out@;
        out.insert(pos, x);
        assert(rules_view(out@) =~= sorted.insert(pos as int, x@));
        assert(orig.take(k + 1).drop_last() =~= orig.take(k as int));
        assert(orig.take(k + 1).last() == orig[k as int]);
        k += 1;
    }
    assert(orig.take(n as int) =~= orig);
    out
}

} // verus!
