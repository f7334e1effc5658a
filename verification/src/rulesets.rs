//! Adding rule sets to the routing table. The table keeps its rule sets
//! ordered by id, compared character by character; a remote rule set is
//! only added once the daemon has fetched and verified it.

use vstd::prelude::*;
use crate::bundle::{has_rule_set, lemma_first_rule_set_found};
use crate::integrity::distinct_rule_set_ids;
use crate::editor::RoutingTable;
use crate::routing::{RuleSetSource, RuleSetSourceModel, opt_view, parse_rule_set_format, rule_set_format_named};
use crate::table::{find_rule_set, rule_sets_view};
use crate::text::{chars_of, is_absolute_path, looks_rooted, starts_with_seq, str_starts_with, trim, trimmed};

verus! {

/// `a` sorts strictly before `b`: at the first position where they differ
/// `a` has the smaller character, or `a` is a proper prefix of `b`.
pub open spec fn id_less(a: Seq<char>, b: Seq<char>) -> bool
    decreases a.len(),
{
    if b.len() == 0 {
        false
    } else if a.len() == 0 {
        true
    } else if a[0] != b[0] {
        a[0] < b[0]
    } else {
        id_less(a.drop_first(), b.drop_first())
    }
}

/// No id sorts before itself.
pub proof fn lemma_id_less_irreflexive(a: Seq<char>)
    ensures
        !id_less(a, a),
    decreases a.len(),
{
    if a.len() > 0 {
        lemma_id_less_irreflexive(a.drop_first());
    }
}

/// The order on ids is transitive.
pub proof fn lemma_id_less_transitive(a: Seq<char>, b: Seq<char>, c: Seq<char>)
    requires
        id_less(a, b),
        id_less(b, c),
    ensures
        id_less(a, c),
    decreases a.len(),
{
    if a.len() > 0 && b.len() > 0 && c.len() > 0 && a[0] == b[0] && b[0] == c[0] {
        lemma_id_less_transitive(a.drop_first(), b.drop_first(), c.drop_first());
    }
}

/// Of two different ids, one sorts before the other.
pub proof fn lemma_id_less_total(a: Seq<char>, b: Seq<char>)
    ensures
        a == b || id_less(a, b) || id_less(b, a),
    decreases a.len(),
{
    if a.len() > 0 && b.len() > 0 && a[0] == b[0] {
        lemma_id_less_total(a.drop_first(), b.drop_first());
        if a.drop_first() == b.drop_first() {
            assert(a =~= seq![a[0]] + a.drop_first());
            assert(b =~= seq![b[0]] + b.drop_first());
        }
    } else if a.len() == 0 && b.len() == 0 {
        assert(a =~= b);
    }
}

/// Ids never decrease along the sequence.
pub open spec fn sorted_by_id(s: Seq<RuleSetSourceModel>) -> bool {
    forall|i: int, j: int| 0 <= i <= j < s.len() ==> !id_less((#[trigger] s[j]).id, (#[trigger] s[i]).id)
}

/// The index of the first rule set whose id sorts after `key`, or their
/// number.
pub open spec fn id_upper_bound(s: Seq<RuleSetSourceModel>, key: Seq<char>) -> int
    decreases s.len(),
{
    if s.len() == 0 {
        0
    } else if id_less(key, s[0].id) {
        0
    } else {
        1 + id_upper_bound(s.drop_first(), key)
    }
}

/// `x` placed after every rule set whose id does not sort after its own.
pub open spec fn insert_by_id(sorted: Seq<RuleSetSourceModel>, x: RuleSetSourceModel) -> Seq<RuleSetSourceModel> {
    sorted.insert(id_upper_bound(sorted, x.id), x)
}

/// The rule sets stably sorted by id: rule sets with equal ids keep their
/// order.
pub open spec fn sort_by_id(s: Seq<RuleSetSourceModel>) -> Seq<RuleSetSourceModel>
    decreases s.len(),
{
    if s.len() == 0 {
        Seq::empty()
    } else {
        insert_by_id(sort_by_id(s.drop_last()), s.last())
    }
}

proof fn lemma_id_upper_bound(s: Seq<RuleSetSourceModel>, key: Seq<char>)
    requires
        sorted_by_id(s),
    ensures
        0 <= id_upper_bound(s, key) <= s.len(),
        forall|j: int| 0 <= j < id_upper_bound(s, key) ==> !id_less(key, (#[trigger] s[j]).id),
        forall|j: int| id_upper_bound(s, key) <= j < s.len() ==> id_less(key, (#[trigger] s[j]).id),
    decreases s.len(),
{
    if s.len() > 0 && !id_less(key, s[0].id) {
        let t = s.drop_first();
        assert forall|i: int, j: int| 0 <= i <= j < t.len() implies !id_less((#[trigger] t[j]).id, (#[trigger] t[i]).id) by {
            assert(t[i] == s[i + 1] && t[j] == s[j + 1]);
        }
        lemma_id_upper_bound(t, key);
        assert forall|j: int| 0 <= j < id_upper_bound(s, key) implies !id_less(key, (#[trigger] s[j]).id) by {
            if j > 0 {
                assert(s[j] == t[j - 1]);
            }
        }
        assert forall|j: int| id_upper_bound(s, key) <= j < s.len() implies id_less(key, (#[trigger] s[j]).id) by {
            assert(s[j] == t[j - 1]);
        }
    } else if s.len() > 0 {
        assert forall|j: int| 0 <= j < s.len() implies id_less(key, (#[trigger] s[j]).id) by {
            assert(!id_less(s[j].id, s[0].id));
            lemma_id_less_total(s[0].id, s[j].id);
            if s[0].id != s[j].id {
                lemma_id_less_transitive(key, s[0].id, s[j].id);
            }
        }
    }
}

proof fn lemma_singleton_multiset(x: RuleSetSourceModel)
    ensures
        seq![x].to_multiset() =~= vstd::multiset::Multiset::empty().insert(x),
{
    seq![x].to_multiset_ensures();
    assert(seq![x] =~= Seq::<RuleSetSourceModel>::empty().push(x));
    Seq::<RuleSetSourceModel>::empty().to_multiset_ensures();
}

/// Stable insertion keeps a sequence sorted by id.
pub proof fn lemma_insert_by_id_sorted(sorted: Seq<RuleSetSourceModel>, x: RuleSetSourceModel)
    requires
        sorted_by_id(sorted),
    ensures
        sorted_by_id(insert_by_id(sorted, x)),
        insert_by_id(sorted, x).to_multiset() == sorted.to_multiset().insert(x),
        insert_by_id(sorted, x).len() == sorted.len() + 1,
{
    lemma_id_upper_bound(sorted, x.id);
    let k = id_upper_bound(sorted, x.id);
    let r = sorted.insert(k, x);
    assert forall|i: int, j: int| 0 <= i <= j < r.len() implies !id_less((#[trigger] r[j]).id, (#[trigger] r[i]).id) by {
        if i == j {
            lemma_id_less_irreflexive(r[i].id);
        } else if i < k && j < k {
        } else if i < k && j == k {
        } else if i < k {
            assert(r[j] == sorted[j - 1]);
        } else if i == k {
            assert(r[j] == sorted[j - 1]);
            assert(id_less(x.id, sorted[j - 1].id));
            if id_less(sorted[j - 1].id, x.id) {
                lemma_id_less_transitive(x.id, sorted[j - 1].id, x.id);
                lemma_id_less_irreflexive(x.id);
            }
        } else {
            assert(r[i] == sorted[i - 1] && r[j] == sorted[j - 1]);
        }
    }
    sorted.to_multiset_ensures();
    assert(r =~= sorted.take(k) + seq![x] + sorted.skip(k));
    assert(sorted =~= sorted.take(k) + sorted.skip(k));
    vstd::seq_lib::lemma_multiset_commutative(sorted.take(k) + seq![x], sorted.skip(k));
    vstd::seq_lib::lemma_multiset_commutative(sorted.take(k), seq![x]);
    vstd::seq_lib::lemma_multiset_commutative(sorted.take(k), sorted.skip(k));
    lemma_singleton_multiset(x);
}

/// Sorting by id yields a permutation of the rule sets, sorted by id.
pub proof fn law_id_sort_sorted_permutation(s: Seq<RuleSetSourceModel>)
    ensures
        sorted_by_id(sort_by_id(s)),
        sort_by_id(s).to_multiset() == s.to_multiset(),
        sort_by_id(s).len() == s.len(),
    decreases s.len(),
{
    if s.len() > 0 {
        law_id_sort_sorted_permutation(s.drop_last());
        lemma_insert_by_id_sorted(sort_by_id(s.drop_last()), s.last());
        s.drop_last().to_multiset_ensures();
        assert(s =~= s.drop_last().push(s.last()));
        s.to_multiset_ensures();
    } else {
        assert(s =~= Seq::<RuleSetSourceModel>::empty());
        s.to_multiset_ensures();
        Seq::<RuleSetSourceModel>::empty().to_multiset_ensures();
    }
}

/// Rule sets already sorted by id are left as they are.
pub proof fn law_id_sort_keeps_sorted(s: Seq<RuleSetSourceModel>)
    requires
        sorted_by_id(s),
    ensures
        sort_by_id(s) == s,
    decreases s.len(),
{
    if s.len() > 0 {
        let d = s.drop_last();
        assert(sorted_by_id(d)) by {
            assert forall|i: int, j: int| 0 <= i <= j < d.len() implies !id_less((#[trigger] d[j]).id, (#[trigger] d[i]).id) by {
                assert(d[i] == s[i] && d[j] == s[j]);
            }
        }
        law_id_sort_keeps_sorted(d);
        lemma_id_upper_bound(d, s.last().id);
        let k = id_upper_bound(d, s.last().id);
        if k < d.len() {
            assert(id_less(s.last().id, d[k].id));
            assert(!id_less(s[s.len() - 1].id, s[k].id));
            assert(false);
        }
        assert(d.insert(d.len() as int, s.last()) =~= s);
    }
}

proof fn lemma_insert_ids(sorted: Seq<RuleSetSourceModel>, x: RuleSetSourceModel, k: int)
    requires
        0 <= k <= sorted.len(),
    ensures
        forall|id: Seq<char>| #[trigger] has_rule_set(sorted.insert(k, x), id) == (has_rule_set(sorted, id) || x.id == id),
        distinct_rule_set_ids(sorted) && !has_rule_set(sorted, x.id) ==> distinct_rule_set_ids(sorted.insert(k, x)),
{
    let r = sorted.insert(k, x);
    assert forall|id: Seq<char>| #[trigger] has_rule_set(r, id) == (has_rule_set(sorted, id) || x.id == id) by {
        if has_rule_set(r, id) {
            let j = choose|j: int| 0 <= j < r.len() && (#[trigger] r[j]).id == id;
            if j < k {
                assert(sorted[j] == r[j]);
            } else if j > k {
                assert(sorted[j - 1] == r[j]);
            }
        }
        if has_rule_set(sorted, id) {
            let j = choose|j: int| 0 <= j < sorted.len() && (#[trigger] sorted[j]).id == id;
            if j < k {
                assert(r[j] == sorted[j]);
            } else {
                assert(r[j + 1] == sorted[j]);
            }
        }
        if x.id == id {
            assert(r[k] == x);
        }
    }
    if distinct_rule_set_ids(sorted) && !has_rule_set(sorted, x.id) {
        assert forall|i: int, j: int| 0 <= j < i < r.len() implies (#[trigger] r[j]).id != (#[trigger] r[i]).id by {
            if i == k {
                if j < k {
                    assert(r[j] == sorted[j]);
                }
            } else if j == k {
                assert(r[i] == sorted[i - 1]);
            } else {
                let a = if j < k { j } else { j - 1 };
                let b = if i < k { i } else { i - 1 };
                assert(r[j] == sorted[a]);
                assert(r[i] == sorted[b]);
            }
        }
    }
}

/// Sorting by id keeps the ids present, and distinct ids stay distinct.
pub proof fn lemma_sort_by_id_ids(s: Seq<RuleSetSourceModel>)
    ensures
        forall|id: Seq<char>| #[trigger] has_rule_set(sort_by_id(s), id) == has_rule_set(s, id),
        distinct_rule_set_ids(s) ==> distinct_rule_set_ids(sort_by_id(s)),
    decreases s.len(),
{
    if s.len() > 0 {
        let d = s.drop_last();
        let x = s.last();
        lemma_sort_by_id_ids(d);
        law_id_sort_sorted_permutation(d);
        let sd = sort_by_id(d);
        let k = id_upper_bound(sd, x.id);
        lemma_id_upper_bound(sd, x.id);
        lemma_insert_ids(sd, x, k);
        assert forall|id: Seq<char>| #[trigger] has_rule_set(s, id) == (has_rule_set(d, id) || x.id == id) by {
            if has_rule_set(s, id) {
                let j = choose|j: int| 0 <= j < s.len() && (#[trigger] s[j]).id == id;
                if j < s.len() - 1 {
                    assert(d[j] == s[j]);
                }
            }
            if has_rule_set(d, id) {
                let j = choose|j: int| 0 <= j < d.len() && (#[trigger] d[j]).id == id;
                assert(s[j] == d[j]);
            }
            if x.id == id {
                assert(s[s.len() - 1] == x);
            }
        }
        if distinct_rule_set_ids(s) {
            assert(distinct_rule_set_ids(d)) by {
                assert forall|i: int, j: int| 0 <= j < i < d.len() implies (#[trigger] d[j]).id != (#[trigger] d[i]).id by {
                    assert(d[j] == s[j] && d[i] == s[i]);
                }
            }
            if has_rule_set(d, x.id) {
                let j = choose|j: int| 0 <= j < d.len() && (#[trigger] d[j]).id == x.id;
                assert(s[j] == d[j]);
                assert(s[s.len() - 1] == x);
            }
        }
    } else {
        assert(sort_by_id(s) =~= s);
    }
}

/// Adding a rule set from the form keeps rule-set ids distinct: a draft
/// whose id is taken is refused, and the sort keeps ids distinct.
pub proof fn law_rule_set_addition_keeps_ids_distinct(
    sets: Seq<RuleSetSourceModel>,
    d: RuleSetDraft,
    verdict: Option<Seq<char>>,
    absolute: bool,
)
    requires
        distinct_rule_set_ids(sets),
        addition_of(sets, d, verdict, absolute) is Added,
    ensures
        distinct_rule_set_ids(sort_by_id(sets.push(drafted(d)))),
        sorted_by_id(sort_by_id(sets.push(drafted(d)))),
        has_rule_set(sort_by_id(sets.push(drafted(d))), drafted(d).id),
{
    let x = drafted(d);
    lemma_insert_ids(sets, x, sets.len() as int);
    assert(sets.insert(sets.len() as int, x) =~= sets.push(x));
    lemma_sort_by_id_ids(sets.push(x));
    law_id_sort_sorted_permutation(sets.push(x));
}

/// Whether `a` sorts strictly before `b`.
pub fn chars_less(a: &Vec<char>, b: &Vec<char>) -> (r: bool)
    ensures
        r == id_less(a@, b@),
{
    let mut i: usize = 0;
    assert(a@.skip(0) =~= a@ && b@.skip(0) =~= b@);
    while i < a.len() && i < b.len() && a[i] == b[i]
        invariant
            i <= a.len(),
            i <= b.len(),
            id_less(a@, b@) == id_less(a@.skip(i as int), b@.skip(i as int)),
        decreases a.len() - i,
    {
        assert(a@.skip(i as int).drop_first() =~= a@.skip(i + 1));
        assert(b@.skip(i as int).drop_first() =~= b@.skip(i + 1));
        assert(a@.skip(i as int)[0] == a@[i as int]);
        assert(b@.skip(i as int)[0] == b@[i as int]);
        i += 1;
    }
    if i == b.len() {
        false
    } else if i == a.len() {
        true
    } else {
        assert(a@.skip(i as int)[0] == a@[i as int]);
        assert(b@.skip(i as int)[0] == b@[i as int]);
        a[i] < b[i]
    }
}

/// Stably sorts rule sets by id.
pub fn sort_rule_sets_by_id(sets: Vec<RuleSetSource>) -> (out: Vec<RuleSetSource>)
    ensures
        rule_sets_view(out@) == sort_by_id(rule_sets_view(sets@)),
{
    let ghost orig = rule_sets_view(sets@);
    let mut src = sets;
    let mut out: Vec<RuleSetSource> = Vec::new();
    let mut k: usize = 0;
    let n = src.len();
    while src.len() > 0
        invariant
            k <= n,
            orig.len() == n,
            src.len() == n - k,
            rule_sets_view(src@) == orig.skip(k as int),
            rule_sets_view(out@) == sort_by_id(orig.take(k as int)),
        decreases src.len(),
    {
        proof {
            law_id_sort_sorted_permutation(orig.take(k as int));
        }
        let ghost sorted = rule_sets_view(out@);
        let ghost old_src = src@;
        let x = src.remove(0);
        assert forall|j: int| 0 <= j < src@.len() implies #[trigger] rule_sets_view(src@)[j] == orig.skip(k + 1)[j] by {
            assert(src@[j] == old_src[j + 1]);
            assert(rule_sets_view(old_src)[j + 1] == orig.skip(k as int)[j + 1]);
        }
        assert(x@ == orig[k as int]) by {
            assert(orig.skip(k as int)[0] == orig[k as int]);
        }
        assert(rule_sets_view(src@) =~= orig.skip(k + 1));
        let key = chars_of(x.id.as_str());
        let mut pos: usize = 0;
        assert(sorted.skip(0) =~= sorted);
        while pos < out.len() && !chars_less(&key, &chars_of(out[pos].id.as_str()))
            invariant
                pos <= out.len(),
                sorted == rule_sets_view(out@),
                key@ == x@.id,
                id_upper_bound(sorted, x@.id) == pos + id_upper_bound(sorted.skip(pos as int), x@.id),
            decreases out.len() - pos,
        {
            assert(sorted.skip(pos as int)[0] == sorted[pos as int]);
            assert(sorted.skip(pos as int).drop_first() =~= sorted.skip(pos + 1));
            pos += 1;
        }
        assert(id_upper_bound(sorted, x@.id) == pos) by {
            if pos < out.len() {
                assert(sorted.skip(pos as int)[0] == sorted[pos as int]);
            }
        }
        out.insert(pos, x);
        assert(rule_sets_view(out@) =~= sorted.insert(pos as int, x@));
        assert(orig.take(k + 1).drop_last() =~= orig.take(k as int));
        assert(orig.take(k + 1).last() == orig[k as int]);
        k += 1;
    }
    assert(orig.take(n as int) =~= orig);
    out
}

/// What the rule-set form holds, as typed.
#[derive(Clone, Debug)]
pub struct RuleSetDraft {
    pub id: String,
    pub source: String,
    pub version: String,
    pub sha256: String,
    pub format: String,
    pub signature: String,
    pub public_key: String,
}

/// The rule set a draft describes: every field trimmed but the format,
/// which is read as typed, and enabled.
pub open spec fn drafted(d: RuleSetDraft) -> RuleSetSourceModel {
    RuleSetSourceModel {
        id: trim(d.id@),
        source: trim(d.source@),
        version: trim(d.version@),
        sha256: trim(d.sha256@),
        format: rule_set_format_named(d.format@),
        enabled: true,
        signature: trim(d.signature@),
        public_key: trim(d.public_key@),
    }
}

/// Every field of the draft is empty.
pub open spec fn draft_blank(d: RuleSetDraft) -> bool {
    &&& d.id@ == Seq::<char>::empty()
    &&& d.source@ == Seq::<char>::empty()
    &&& d.version@ == Seq::<char>::empty()
    &&& d.sha256@ == Seq::<char>::empty()
    &&& d.format@ == Seq::<char>::empty()
    &&& d.signature@ == Seq::<char>::empty()
    &&& d.public_key@ == Seq::<char>::empty()
}

/// A rule set fetched over HTTPS, which the daemon verifies and caches.
pub open spec fn is_remote(source: Seq<char>) -> bool {
    starts_with_seq(source, "https://"@)
}

/// What adding a rule set from the form did.
#[derive(Clone, Debug)]
pub enum RuleSetAddition {
    /// The rule set failed validation.
    Invalid,
    /// A local rule set's path is neither absolute nor a `file://` URL.
    NotAbsolute,
    /// A rule set with this id exists.
    Duplicate,
    /// A new remote rule set: it is added once the daemon has fetched and
    /// verified it.
    Fetching,
    /// The rule set was added.
    Added,
}

pub enum RuleSetAdditionModel {
    Invalid,
    NotAbsolute,
    Duplicate,
    Fetching,
    Added,
}

impl View for RuleSetAddition {
    type V = RuleSetAdditionModel;

    open spec fn view(&self) -> RuleSetAdditionModel {
        match self {
            RuleSetAddition::Invalid => RuleSetAdditionModel::Invalid,
            RuleSetAddition::NotAbsolute => RuleSetAdditionModel::NotAbsolute,
            RuleSetAddition::Duplicate => RuleSetAdditionModel::Duplicate,
            RuleSetAddition::Fetching => RuleSetAdditionModel::Fetching,
            RuleSetAddition::Added => RuleSetAdditionModel::Added,
        }
    }
}

/// What adding the draft `d` to `sets` does, given the validation verdict
/// (an error, if any) and whether its path is absolute.
pub open spec fn addition_of(sets: Seq<RuleSetSourceModel>, d: RuleSetDraft, verdict: Option<Seq<char>>, absolute: bool) -> RuleSetAdditionModel {
    let s = drafted(d);
    if verdict is Some {
        RuleSetAdditionModel::Invalid
    } else if !is_remote(s.source) && !starts_with_seq(s.source, "file://"@) && !absolute {
        RuleSetAdditionModel::NotAbsolute
    } else if has_rule_set(sets, s.id) {
        RuleSetAdditionModel::Duplicate
    } else if is_remote(s.source) {
        RuleSetAdditionModel::Fetching
    } else {
        RuleSetAdditionModel::Added
    }
}

/// The message the rule-set form shows after an addition.
pub open spec fn addition_message(a: RuleSetAdditionModel, s: RuleSetSourceModel, verdict: Option<Seq<char>>) -> Option<Seq<char>> {
    match a {
        RuleSetAdditionModel::Invalid => Some("规则集校验失败："@ + verdict->0),
        RuleSetAdditionModel::NotAbsolute => Some("规则集必须使用绝对本地路径或 file:// 路径"@),
        RuleSetAdditionModel::Duplicate => Some("规则集 ID 已存在："@ + s.id),
        RuleSetAdditionModel::Fetching => Some("正在验证并缓存 "@ + s.id + "…"@),
        RuleSetAdditionModel::Added => None,
    }
}

/// The effect of adding the draft: the outcome `r`, the message shown, and
/// the rule sets and draft afterwards. Only an added rule set changes the
/// table, which stays sorted by id, and clears the form.
pub open spec fn addition_done(
    old_sets: Seq<RuleSetSourceModel>,
    new_sets: Seq<RuleSetSourceModel>,
    old_draft: RuleSetDraft,
    new_draft: RuleSetDraft,
    verdict: Option<Seq<char>>,
    absolute: bool,
    r: RuleSetAdditionModel,
    message: Option<Seq<char>>,
) -> bool {
    let a = addition_of(old_sets, old_draft, verdict, absolute);
    &&& r == a
    &&& message == addition_message(a, drafted(old_draft), verdict)
    &&& a is Added ==> new_sets == sort_by_id(old_sets.push(drafted(old_draft))) && draft_blank(new_draft)
    &&& !(a is Added) ==> new_sets == old_sets && new_draft == old_draft
}

/// The rule set a draft describes.
fn drafted_source(draft: &RuleSetDraft) -> (s: RuleSetSource)
    ensures
        s@ == drafted(*draft),
{
    RuleSetSource {
        id: trimmed(draft.id.as_str()),
        source: trimmed(draft.source.as_str()),
        version: trimmed(draft.version.as_str()),
        sha256: trimmed(draft.sha256.as_str()),
        format: parse_rule_set_format(draft.format.as_str()),
        enabled: true,
        signature: trimmed(draft.signature.as_str()),
        public_key: trimmed(draft.public_key.as_str()),
    }
}

/// A draft with every field empty.
pub fn blank_rule_set_draft() -> (d: RuleSetDraft)
    ensures
        draft_blank(d),
{
    RuleSetDraft {
        id: String::new(),
        source: String::new(),
        version: String::new(),
        sha256: String::new(),
        format: String::new(),
        signature: String::new(),
        public_key: String::new(),
    }
}

impl RoutingTable {
    /// Adds `source` and sorts the rule sets by id.
    fn insert_rule_set(&mut self, source: RuleSetSource)
        ensures
            rule_sets_view(final(self).rule_sets@) == sort_by_id(rule_sets_view(old(self).rule_sets@).push(source@)),
            final(self).rules@ == old(self).rules@,
            final(self).groups@ == old(self).groups@,
            final(self).rule_set_error == old(self).rule_set_error,
            final(self).rule_editor_error == old(self).rule_editor_error,
            final(self).group_error == old(self).group_error,
    {
        let mut sets: Vec<RuleSetSource> = Vec::new();
        std::mem::swap(&mut sets, &mut self.rule_sets);
        let ghost before = sets@;
        sets.push(source);
        proof {
            crate::text::lemma_map_push(before, source, |s: RuleSetSource| s@);
        }
        self.rule_sets = sort_rule_sets_by_id(sets);
    }

    /// Adds the rule set the form describes, given the validation verdict
    /// (an error, if any) and whether its path is absolute. Returns what
    /// happened and, for every `https://` source, the rule set the daemon is
    /// asked to fetch and verify: that request goes out whatever the form's
    /// own checks said.
    pub fn add_rule_set_with(&mut self, draft: &mut RuleSetDraft, verdict: Option<String>, absolute: bool) -> (r: (
        RuleSetAddition,
        Option<RuleSetSource>,
    ))
        ensures
            addition_done(
                rule_sets_view(old(self).rule_sets@),
                rule_sets_view(final(self).rule_sets@),
                *old(draft),
                *final(draft),
                opt_view(verdict),
                absolute,
                r.0@,
                opt_view(final(self).rule_set_error),
            ),
            r.1 is Some <==> is_remote(drafted(*old(draft)).source),
            r.1 matches Some(s) ==> s@ == drafted(*old(draft)),
            final(self).rules@ == old(self).rules@,
            final(self).groups@ == old(self).groups@,
            final(self).rule_editor_error == old(self).rule_editor_error,
            final(self).group_error == old(self).group_error,
    {
        let source = drafted_source(draft);
        let remote = str_starts_with(source.source.as_str(), "https://");
        let fetch = if remote { Some(drafted_source(draft)) } else { None };
        match verdict {
            Some(e) => {
                self.rule_set_error = Some(String::from_str("规则集校验失败：").concat(e.as_str()));
                return (RuleSetAddition::Invalid, fetch);
            },
            None => {},
        }
        if !remote && !str_starts_with(source.source.as_str(), "file://") && !absolute {
            self.rule_set_error = Some(String::from_str("规则集必须使用绝对本地路径或 file:// 路径"));
            return (RuleSetAddition::NotAbsolute, fetch);
        }
        let i = find_rule_set(&self.rule_sets, source.id.as_str());
        proof {
            lemma_first_rule_set_found(rule_sets_view(self.rule_sets@), source.id@);
        }
        if i < self.rule_sets.len() {
            self.rule_set_error = Some(String::from_str("规则集 ID 已存在：").concat(source.id.as_str()));
            return (RuleSetAddition::Duplicate, fetch);
        }
        if remote {
            self.rule_set_error = Some(String::from_str("正在验证并缓存 ").concat(source.id.as_str()).concat("…"));
            return (RuleSetAddition::Fetching, fetch);
        }
        self.insert_rule_set(source);
        *draft = blank_rule_set_draft();
        self.rule_set_error = None;
        (RuleSetAddition::Added, fetch)
    }

    /// Adds the rule set the form describes, given the validation verdict;
    /// whether a local path is absolute is asked of the platform, which
    /// calls no path absolute that lacks a leading separator or drive.
    pub fn add_rule_set(&mut self, draft: &mut RuleSetDraft, verdict: Option<String>) -> (r: (
        RuleSetAddition,
        Option<RuleSetSource>,
    ))
        ensures
            exists|absolute: bool|
                (absolute ==> looks_rooted(trim(old(draft).source@))) && addition_done(
                    rule_sets_view(old(self).rule_sets@),
                    rule_sets_view(final(self).rule_sets@),
                    *old(draft),
                    *final(draft),
                    opt_view(verdict),
                    absolute,
                    r.0@,
                    opt_view(final(self).rule_set_error),
                ),
            r.1 is Some <==> is_remote(drafted(*old(draft)).source),
            r.1 matches Some(s) ==> s@ == drafted(*old(draft)),
            final(self).rules@ == old(self).rules@,
            final(self).groups@ == old(self).groups@,
            final(self).rule_editor_error == old(self).rule_editor_error,
            final(self).group_error == old(self).group_error,
    {
        let path = trimmed(draft.source.as_str());
        let absolute = is_absolute_path(path.as_str());
        self.add_rule_set_with(draft, verdict, absolute)
    }

    /// Takes the daemon's answer about a remote rule set that it was asked
    /// to fetch and verify. On success the rule set is added, unless one
    /// with its id appeared meanwhile, and the form is cleared. Returns
    /// whether the table changed.
    pub fn finish_rule_set_fetch(&mut self, draft: &mut RuleSetDraft, source: RuleSetSource, outcome: Result<(), String>) -> (added: bool)
        ensures
            match outcome {
                Ok(()) => {
                    &&& added == !has_rule_set(rule_sets_view(old(self).rule_sets@), source@.id)
                    &&& added ==> rule_sets_view(final(self).rule_sets@) == sort_by_id(
                        rule_sets_view(old(self).rule_sets@).push(source@),
                    ) && draft_blank(*final(draft))
                    &&& !added ==> final(self).rule_sets@ == old(self).rule_sets@ && *final(draft) == *old(draft)
                    &&& opt_view(final(self).rule_set_error) == Some("已验证并缓存 "@ + source@.id)
                },
                Err(e) => {
                    &&& !added
                    &&& final(self).rule_sets@ == old(self).rule_sets@
                    &&& *final(draft) == *old(draft)
                    &&& opt_view(final(self).rule_set_error) == Some("规则集更新失败："@ + e@)
                },
            },
            final(self).rules@ == old(self).rules@,
            final(self).groups@ == old(self).groups@,
            final(self).rule_editor_error == old(self).rule_editor_error,
            final(self).group_error == old(self).group_error,
    {
        match outcome {
            Ok(()) => {
                let message = String::from_str("已验证并缓存 ").concat(source.id.as_str());
                let i = find_rule_set(&self.rule_sets, source.id.as_str());
                proof {
                    lemma_first_rule_set_found(rule_sets_view(self.rule_sets@), source.id@);
                }
                let added = i == self.rule_sets.len();
                if added {
                    self.insert_rule_set(source);
                    *draft = blank_rule_set_draft();
                }
                self.rule_set_error = Some(message);
                added
            },
            Err(e) => {
                self.rule_set_error = Some(String::from_str("规则集更新失败：").concat(e.as_str()));
                false
            },
        }
    }
}

/// A rule set fetched over HTTPS never enters the table straight from the
/// form: the daemon verifies and caches it first.
pub proof fn law_remote_rule_sets_wait_for_verification(
    sets: Seq<RuleSetSourceModel>,
    d: RuleSetDraft,
    verdict: Option<Seq<char>>,
    absolute: bool,
)
    requires
        is_remote(drafted(d).source),
    ensures
        !(addition_of(sets, d, verdict, absolute) is Added),
{
}

} // verus!
