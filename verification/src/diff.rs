//! What changed between two configurations.

use vstd::prelude::*;
use crate::model::{NaryaConfig, NaryaConfigModel, ProxyGroup, ProxyGroupModel, strings_view, subscriptions_eq, rules_eq};

verus! {

/// Which parts of a configuration differ from an earlier one.
#[derive(Debug, Clone)]
pub struct ConfigDiff {
    pub subscriptions_changed: bool,
    /// Names of the groups that were added, changed or removed.
    pub groups_changed: Vec<String>,
    pub rules_changed: bool,
    pub settings_changed: bool,
}

/// The first group in `gs` called `name`, if any.
pub open spec fn first_named(gs: Seq<ProxyGroupModel>, name: Seq<char>) -> Option<ProxyGroupModel>
    decreases gs.len(),
{
    if gs.len() == 0 {
        None
    } else if gs[0].name == name {
        Some(gs[0])
    } else {
        first_named(gs.drop_first(), name)
    }
}

/// Some group in `gs` is called `name`.
pub open spec fn has_named(gs: Seq<ProxyGroupModel>, name: Seq<char>) -> bool {
    exists|j: int| 0 <= j < gs.len() && (#[trigger] gs[j]).name == name
}

/// Names of the groups of `new`, in order, that `old` lacks or whose first
/// namesake in `old` differs from them.
pub open spec fn added_or_changed(old: Seq<ProxyGroupModel>, new: Seq<ProxyGroupModel>) -> Seq<Seq<char>>
    decreases new.len(),
{
    if new.len() == 0 {
        Seq::empty()
    } else {
        let prev = added_or_changed(old, new.drop_last());
        let g = new.last();
        match first_named(old, g.name) {
            Some(o) => if o != g { prev.push(g.name) } else { prev },
            None => prev.push(g.name),
        }
    }
}

/// Names of the groups of `old`, in order, that no group of `new` is called.
pub open spec fn removed(old: Seq<ProxyGroupModel>, new: Seq<ProxyGroupModel>) -> Seq<Seq<char>>
    decreases old.len(),
{
    if old.len() == 0 {
        Seq::empty()
    } else {
        let prev = removed(old.drop_last(), new);
        let g = old.last();
        if has_named(new, g.name) { prev } else { prev.push(g.name) }
    }
}

/// The groups reported as changed between `old` and `new`.
pub open spec fn groups_diff(old: Seq<ProxyGroupModel>, new: Seq<ProxyGroupModel>) -> Seq<Seq<char>> {
    added_or_changed(old, new) + removed(old, new)
}

/// No two groups share a name.
pub open spec fn unique_group_names(gs: Seq<ProxyGroupModel>) -> bool {
    forall|i: int, j: int|
        0 <= i < gs.len() && 0 <= j < gs.len() && i != j ==> (#[trigger] gs[i]).name != (#[trigger] gs[j]).name
}

/// The first group called `name` is the one at `i` when none before it is.
pub proof fn lemma_first_named_at(gs: Seq<ProxyGroupModel>, name: Seq<char>, i: int)
    requires
        0 <= i < gs.len(),
        gs[i].name == name,
        forall|j: int| 0 <= j < i ==> (#[trigger] gs[j]).name != name,
    ensures
        first_named(gs, name) == Some(gs[i]),
    decreases i,
{
    if i > 0 {
        assert forall|j: int| 0 <= j < i - 1 implies (#[trigger] gs.drop_first()[j]).name != name by {
            assert(gs.drop_first()[j] == gs[j + 1]);
        }
        lemma_first_named_at(gs.drop_first(), name, i - 1);
    }
}

/// No group is called `name` when none of them is.
pub proof fn lemma_first_named_none(gs: Seq<ProxyGroupModel>, name: Seq<char>)
    requires
        forall|j: int| 0 <= j < gs.len() ==> (#[trigger] gs[j]).name != name,
    ensures
        first_named(gs, name) is None,
    decreases gs.len(),
{
    if gs.len() > 0 {
        assert forall|j: int| 0 <= j < gs.len() - 1 implies (#[trigger] gs.drop_first()[j]).name != name by {
            assert(gs.drop_first()[j] == gs[j + 1]);
        }
        lemma_first_named_none(gs.drop_first(), name);
    }
}

/// The index of the first group of `gs` called `name`, if any.
fn find_group(gs: &Vec<ProxyGroup>, name: &String) -> (r: Option<usize>)
    ensures
        match r {
            Some(i) => i < gs.len() && first_named(gs@.map_values(|g: ProxyGroup| g@), name@) == Some(gs@[i as int]@),
            None => first_named(gs@.map_values(|g: ProxyGroup| g@), name@) is None,
        },
        r is None <==> !has_named(gs@.map_values(|g: ProxyGroup| g@), name@),
{
    let ghost m = gs@.map_values(|g: ProxyGroup| g@);
    let mut i: usize = 0;
    while i < gs.len()
        invariant
            i <= gs.len(),
            m == gs@.map_values(|g: ProxyGroup| g@),
            forall|j: int| 0 <= j < i ==> (#[trigger] m[j]).name != name@,
        decreases gs.len() - i,
    {
        if gs[i].name == *name {
            proof {
                lemma_first_named_at(m, name@, i as int);
            }
            return Some(i);
        }
        i += 1;
    }
    proof {
        lemma_first_named_none(m, name@);
    }
    None
}

impl ConfigDiff {
    /// Compares two configurations: subscriptions, rules and settings as
    /// wholes, and groups by name (added, changed, then removed ones).
    pub fn calculate(old: &NaryaConfig, new: &NaryaConfig) -> (diff: ConfigDiff)
        ensures
            diff.subscriptions_changed == (old@.subscriptions != new@.subscriptions),
            strings_view(diff.groups_changed@) == groups_diff(old@.groups, new@.groups),
            diff.rules_changed == (old@.rules != new@.rules),
            diff.settings_changed == (old@.settings != new@.settings),
    {
        let ghost og = old@.groups;
        let ghost ng = new@.groups;
        let mut changed: Vec<String> = Vec::new();
        let mut i: usize = 0;
        while i < new.groups.len()
            invariant
                i <= new.groups.len(),
                og == old@.groups,
                ng == new@.groups,
                strings_view(changed@) == added_or_changed(og, ng.take(i as int)),
            decreases new.groups.len() - i,
        {
            let g = &new.groups[i];
            assert(ng.take(i + 1).drop_last() =~= ng.take(i as int));
            assert(ng.take(i + 1).last() == g@);
            match find_group(&old.groups, &g.name) {
                Some(j) => {
                    if !old.groups[j].same_as(g) {
                        changed.push(g.name.clone());
                    }
                },
                None => {
                    changed.push(g.name.clone());
                },
            }
            assert(strings_view(changed@) =~= added_or_changed(og, ng.take(i + 1)));
            i += 1;
        }
        assert(ng.take(new.groups.len() as int) =~= ng);
        let ghost first_part = strings_view(changed@);
        let ghost start = changed@.len();
        let mut k: usize = 0;
        while k < old.groups.len()
            invariant
                k <= old.groups.len(),
                og == old@.groups,
                ng == new@.groups,
                start <= changed@.len(),
                strings_view(changed@) == first_part + removed(og.take(k as int), ng),
            decreases old.groups.len() - k,
        {
            let g = &old.groups[k];
            assert(og.take(k + 1).drop_last() =~= og.take(k as int));
            assert(og.take(k + 1).last() == g@);
            let ghost before = changed@;
            if find_group(&new.groups, &g.name).is_none() {
                changed.push(g.name.clone());
                assert(strings_view(changed@) =~= strings_view(before).push(g.name@));
            } else {
                assert(has_named(ng, g.name@));
            }
            assert(strings_view(changed@) =~= first_part + removed(og.take(k + 1), ng));
            k += 1;
        }
        assert(og.take(old.groups.len() as int) =~= og);
        ConfigDiff {
            subscriptions_changed: !subscriptions_eq(&old.subscriptions, &new.subscriptions),
            groups_changed: changed,
            rules_changed: !rules_eq(&old.rules, &new.rules),
            settings_changed: !old.settings.same_as(&new.settings),
        }
    }

    /// Whether anything differs at all.
    pub fn has_changes(&self) -> (r: bool)
        ensures
            r == (self.subscriptions_changed || self.groups_changed@.len() > 0 || self.rules_changed
                || self.settings_changed),
    {
        self.subscriptions_changed || !self.groups_changed.is_empty() || self.rules_changed
            || self.settings_changed
    }
}

/// Comparing a configuration with itself reports no change, provided no two
/// of its groups share a name.
pub proof fn law_diff_identity(c: NaryaConfigModel)
    requires
        unique_group_names(c.groups),
    ensures
        groups_diff(c.groups, c.groups).len() == 0,
{
    lemma_added_or_changed_self(c.groups, c.groups.len() as int);
    lemma_removed_self(c.groups, c.groups.len() as int);
    assert(c.groups.take(c.groups.len() as int) =~= c.groups);
}

proof fn lemma_added_or_changed_self(gs: Seq<ProxyGroupModel>, n: int)
    requires
        unique_group_names(gs),
        0 <= n <= gs.len(),
    ensures
        added_or_changed(gs, gs.take(n)).len() == 0,
    decreases n,
{
    if n > 0 {
        assert(gs.take(n).drop_last() =~= gs.take(n - 1));
        lemma_added_or_changed_self(gs, n - 1);
        lemma_first_named_at(gs, gs[n - 1].name, n - 1);
    }
}

proof fn lemma_removed_self(gs: Seq<ProxyGroupModel>, n: int)
    requires
        0 <= n <= gs.len(),
    ensures
        removed(gs.take(n), gs).len() == 0,
    decreases n,
{
    if n > 0 {
        assert(gs.take(n).drop_last() =~= gs.take(n - 1));
        lemma_removed_self(gs, n - 1);
        assert(gs[n - 1] == gs.take(n).last());
        assert(has_named(gs, gs[n - 1].name));
    }
}

/// Whether comparing `old` with `new` reports any change, as
/// `has_changes` answers for the result of `calculate`.
pub open spec fn reports_change(old: NaryaConfigModel, new: NaryaConfigModel) -> bool {
    old.subscriptions != new.subscriptions || groups_diff(old.groups, new.groups).len() > 0 || old.rules != new.rules
        || old.settings != new.settings
}

/// The first group called `name`, if any, is one of the groups.
proof fn lemma_first_named_member(gs: Seq<ProxyGroupModel>, name: Seq<char>)
    ensures
        first_named(gs, name) matches Some(g) ==> gs.contains(g) && g.name == name,
    decreases gs.len(),
{
    if gs.len() > 0 && gs[0].name != name {
        lemma_first_named_member(gs.drop_first(), name);
        match first_named(gs.drop_first(), name) {
            Some(g) => {
                let k = choose|k: int| 0 <= k < gs.drop_first().len() && gs.drop_first()[k] == g;
                assert(gs[k + 1] == g);
            },
            None => {},
        }
    } else if gs.len() > 0 {
        assert(gs[0] == gs[0]);
    }
}

/// No group is reported as added or changed exactly when every group of
/// `new` is the first of its name in `old`.
proof fn lemma_added_or_changed_empty(old: Seq<ProxyGroupModel>, new: Seq<ProxyGroupModel>)
    ensures
        (added_or_changed(old, new).len() == 0) == (forall|k: int|
            0 <= k < new.len() ==> first_named(old, (#[trigger] new[k]).name) == Some(new[k])),
    decreases new.len(),
{
    if new.len() > 0 {
        let d = new.drop_last();
        lemma_added_or_changed_empty(old, d);
        if added_or_changed(old, new).len() == 0 {
            assert forall|k: int| 0 <= k < new.len() implies first_named(old, (#[trigger] new[k]).name) == Some(new[k]) by {
                if k < new.len() - 1 {
                    assert(d[k] == new[k]);
                }
            }
        } else {
            if forall|k: int| 0 <= k < new.len() ==> first_named(old, (#[trigger] new[k]).name) == Some(new[k]) {
                assert forall|k: int| 0 <= k < d.len() implies first_named(old, (#[trigger] d[k]).name) == Some(d[k]) by {
                    assert(d[k] == new[k]);
                }
                assert(first_named(old, new[new.len() - 1].name) == Some(new[new.len() - 1]));
            }
        }
    }
}

/// No group is reported as removed exactly when every group of `old` has a
/// namesake in `new`.
proof fn lemma_removed_empty(old: Seq<ProxyGroupModel>, new: Seq<ProxyGroupModel>)
    ensures
        (removed(old, new).len() == 0) == (forall|i: int| 0 <= i < old.len() ==> has_named(new, (#[trigger] old[i]).name)),
    decreases old.len(),
{
    if old.len() > 0 {
        let d = old.drop_last();
        lemma_removed_empty(d, new);
        if removed(old, new).len() == 0 {
            assert forall|i: int| 0 <= i < old.len() implies has_named(new, (#[trigger] old[i]).name) by {
                if i < old.len() - 1 {
                    assert(d[i] == old[i]);
                }
            }
        } else {
            if forall|i: int| 0 <= i < old.len() ==> has_named(new, (#[trigger] old[i]).name) {
                assert forall|i: int| 0 <= i < d.len() implies has_named(new, (#[trigger] d[i]).name) by {
                    assert(d[i] == old[i]);
                }
                assert(has_named(new, old[old.len() - 1].name));
            }
        }
    }
}

/// In a list of uniquely named groups, each group is the first of its name.
proof fn lemma_unique_first_named(gs: Seq<ProxyGroupModel>, i: int)
    requires
        unique_group_names(gs),
        0 <= i < gs.len(),
    ensures
        first_named(gs, gs[i].name) == Some(gs[i]),
{
    assert forall|j: int| 0 <= j < i implies (#[trigger] gs[j]).name != gs[i].name by {
        assert(gs[j].name != gs[i].name);
    }
    lemma_first_named_at(gs, gs[i].name, i);
}

/// With uniquely named groups in `old`, the groups are reported unchanged
/// exactly when both configurations hold the same set of groups: reordering
/// them is no change.
pub proof fn law_group_diff_is_set_comparison(old: Seq<ProxyGroupModel>, new: Seq<ProxyGroupModel>)
    requires
        unique_group_names(old),
    ensures
        (groups_diff(old, new).len() == 0) == (old.to_set() == new.to_set()),
{
    lemma_added_or_changed_empty(old, new);
    lemma_removed_empty(old, new);
    let a = added_or_changed(old, new);
    let r = removed(old, new);
    assert(groups_diff(old, new).len() == a.len() + r.len());
    if groups_diff(old, new).len() == 0 {
        assert forall|g: ProxyGroupModel| old.to_set().contains(g) == new.to_set().contains(g) by {
            if new.contains(g) {
                let k = choose|k: int| 0 <= k < new.len() && new[k] == g;
                assert(first_named(old, new[k].name) == Some(new[k]));
                lemma_first_named_member(old, g.name);
            }
            if old.contains(g) {
                let i = choose|i: int| 0 <= i < old.len() && old[i] == g;
                assert(has_named(new, old[i].name));
                let k = choose|k: int| 0 <= k < new.len() && (#[trigger] new[k]).name == old[i].name;
                assert(first_named(old, new[k].name) == Some(new[k]));
                lemma_unique_first_named(old, i);
                assert(new[k] == g);
            }
        }
        assert(old.to_set() =~= new.to_set());
    } else if old.to_set() == new.to_set() {
        assert forall|k: int| 0 <= k < new.len() implies first_named(old, (#[trigger] new[k]).name) == Some(new[k]) by {
            assert(new.to_set().contains(new[k]));
            assert(old.contains(new[k]));
            let i = choose|i: int| 0 <= i < old.len() && old[i] == new[k];
            lemma_unique_first_named(old, i);
        }
        assert forall|i: int| 0 <= i < old.len() implies has_named(new, (#[trigger] old[i]).name) by {
            assert(old.to_set().contains(old[i]));
            assert(new.contains(old[i]));
            let k = choose|k: int| 0 <= k < new.len() && new[k] == old[i];
            assert(new[k].name == old[i].name);
        }
    }
}

/// Reordering the groups of a configuration whose group names are unique
/// is no change: comparing it with any permutation of its groups, the rest
/// unchanged, reports nothing.
pub proof fn law_reordered_groups_are_no_change(old: NaryaConfigModel, groups: Seq<ProxyGroupModel>)
    requires
        unique_group_names(old.groups),
        groups.to_multiset() == old.groups.to_multiset(),
    ensures
        groups_diff(old.groups, groups).len() == 0,
        !reports_change(old, NaryaConfigModel { groups: groups, ..old }),
{
    law_group_diff_is_set_comparison(old.groups, groups);
    groups.to_multiset_ensures();
    old.groups.to_multiset_ensures();
    assert forall|g: ProxyGroupModel| old.groups.to_set().contains(g) == groups.to_set().contains(g) by {
        assert(old.groups.contains(g) == (old.groups.to_multiset().count(g) > 0));
        assert(groups.contains(g) == (groups.to_multiset().count(g) > 0));
    }
    assert(old.groups.to_set() =~= groups.to_set());
}

/// What `has_changes` reports of `calculate(old, new)`, with uniquely named
/// groups in `old`: nothing for equal configurations (so a change means the
/// configurations differ), and a change whenever the subscriptions, rules
/// or settings differ or the two hold different sets of groups.
pub proof fn law_changes_are_reported(old: NaryaConfigModel, new: NaryaConfigModel)
    requires
        unique_group_names(old.groups),
    ensures
        old == new ==> !reports_change(old, new),
        reports_change(old, new) ==> old != new,
        (old.subscriptions != new.subscriptions || old.rules != new.rules || old.settings != new.settings
            || old.groups.to_set() != new.groups.to_set()) ==> reports_change(old, new),
{
    law_group_diff_is_set_comparison(old.groups, new.groups);
}

} // verus!
