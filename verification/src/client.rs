//! The client's bookkeeping around subscriptions: checking a new
//! subscription before it is added, naming it, and summarising why a
//! refresh failed.

use vstd::prelude::*;
use crate::table::{decimal, decimal_chars};
use crate::routing::opt_view;
use crate::text::{chars_of, lemma_map_push, lemma_map_take_push, str_eq, starts_with_seq, str_starts_with, string_from_chars, trim, trim_range, trimmed};

verus! {

/// The longest error text a refresh summary quotes, in characters.
pub const MAX_ERROR_LEN: usize = 180;

/// Line breaks become spaces so that a summary stays on one line.
pub open spec fn newline_to_space(c: char) -> char {
    if c == '\n' { ' ' } else { c }
}

/// The error text a refresh summary quotes: trimmed, on one line, and cut to
/// `MAX_ERROR_LEN` characters followed by an ellipsis when longer.
pub open spec fn failure_detail(error: Seq<char>) -> Seq<char> {
    let m = trim(error).map_values(|c: char| newline_to_space(c));
    if m.len() > MAX_ERROR_LEN { m.take(MAX_ERROR_LEN as int) + "..."@ } else { m }
}

/// The summary of a failed refresh: the stage, a full-width colon, and the
/// error, or "未知错误" when the error is blank.
pub open spec fn failure_summary(stage: Seq<char>, error: Seq<char>) -> Seq<char> {
    let d = failure_detail(error);
    if d.len() == 0 { stage + "：未知错误"@ } else { stage + "："@ + d }
}

/// A refresh summary quotes at most `MAX_ERROR_LEN` characters of the
/// error, followed by an ellipsis when cut, and stays on one line.
pub proof fn law_failure_detail_bounded(error: Seq<char>)
    ensures
        failure_detail(error).len() <= MAX_ERROR_LEN + 3,
        !failure_detail(error).contains('\n'),
{
    let m = trim(error).map_values(|c: char| newline_to_space(c));
    assert(!m.contains('\n'));
    if m.len() > MAX_ERROR_LEN {
        let d = m.take(MAX_ERROR_LEN as int) + "..."@;
        reveal_strlit("...");
        if d.contains('\n') {
            let i = choose|i: int| 0 <= i < d.len() && d[i] == '\n';
            if i < MAX_ERROR_LEN {
                assert(d[i] == m[i]);
            }
        }
    }
}

/// Summarises why refreshing a subscription failed at `stage`.
pub fn subscription_refresh_failure_summary(stage: &str, error: &str) -> (s: String)
    ensures
        s@ == failure_summary(stage@, error@),
{
    let v = chars_of(error);
    let (a, b) = trim_range(&v, 0, v.len());
    assert(v@.subrange(0, v.len() as int) =~= v@);
    let ghost t = v@.subrange(a as int, b as int);
    let ghost m = t.map_values(|c: char| newline_to_space(c));
    let n = b - a;
    let keep = if n > MAX_ERROR_LEN { MAX_ERROR_LEN } else { n };
    let mut out: Vec<char> = Vec::new();
    let mut i: usize = 0;
    while i < keep
        invariant
            i <= keep <= n,
            a + n == b,
            b <= v.len(),
            t == v@.subrange(a as int, b as int),
            out@ == t.take(i as int).map_values(|c: char| newline_to_space(c)),
        decreases keep - i,
    {
        let c = v[a + i];
        assert(t[i as int] == c);
        let d = if c == '\n' { ' ' } else { c };
        proof {
            lemma_map_take_push(t, i as int, |c: char| newline_to_space(c));
        }
        out.push(d);
        i += 1;
    }
    assert(out@ == m.take(keep as int)) by {
        assert(out@ =~= m.take(keep as int));
    }
    if n > MAX_ERROR_LEN {
        out.push('.');
        out.push('.');
        out.push('.');
        assert(out@ =~= m.take(MAX_ERROR_LEN as int) + "..."@) by {
            reveal_strlit("...");
        }
    } else {
        assert(m.take(keep as int) =~= m);
    }
    let detail = string_from_chars(out.as_slice());
    if out.len() == 0 {
        String::from_str(stage).concat("：未知错误")
    } else {
        String::from_str(stage).concat("：").concat(detail.as_str())
    }
}

/// Why a new subscription was refused.
#[derive(Clone, Copy, PartialEq, Debug, Eq, Structural)]
pub enum SubscriptionDraftError {
    /// The name is blank or the address does not use HTTPS.
    Incomplete,
    /// A subscription with this address exists.
    Duplicate,
}

impl SubscriptionDraftError {
    /// The message the subscription form shows.
    pub fn message(&self) -> (s: &'static str)
        ensures
            s@ == match self {
                SubscriptionDraftError::Incomplete => "订阅名称必填，地址必须使用 HTTPS"@,
                SubscriptionDraftError::Duplicate => "该订阅地址已存在"@,
            },
    {
        match self {
            SubscriptionDraftError::Incomplete => "订阅名称必填，地址必须使用 HTTPS",
            SubscriptionDraftError::Duplicate => "该订阅地址已存在",
        }
    }
}

/// Some subscription in `urls` has address `url`.
pub open spec fn url_taken(urls: Seq<String>, url: Seq<char>) -> bool {
    exists|i: int| 0 <= i < urls.len() && (#[trigger] urls[i])@ == url
}

/// What checking a subscription draft gives: the trimmed name and address,
/// or why the draft is refused.
pub open spec fn draft_verdict(name: Seq<char>, url: Seq<char>, urls: Seq<String>) -> Result<(Seq<char>, Seq<char>), SubscriptionDraftError> {
    let n = trim(name);
    let u = trim(url);
    if n.len() == 0 || !starts_with_seq(u, "https://"@) {
        Err(SubscriptionDraftError::Incomplete)
    } else if url_taken(urls, u) {
        Err(SubscriptionDraftError::Duplicate)
    } else {
        Ok((n, u))
    }
}

/// Checks a new subscription's name and address against the addresses of
/// the existing subscriptions.
pub fn check_subscription_draft(name: &str, url: &str, existing_urls: &Vec<String>) -> (r: Result<(String, String), SubscriptionDraftError>)
    ensures
        match r {
            Ok((n, u)) => draft_verdict(name@, url@, existing_urls@) == Ok::<(Seq<char>, Seq<char>), SubscriptionDraftError>((n@, u@)),
            Err(e) => draft_verdict(name@, url@, existing_urls@) == Err::<(Seq<char>, Seq<char>), SubscriptionDraftError>(e),
        },
{
    let n = trimmed(name);
    let u = trimmed(url);
    if n.as_str().is_empty() || !str_starts_with(u.as_str(), "https://") {
        return Err(SubscriptionDraftError::Incomplete);
    }
    let mut i: usize = 0;
    while i < existing_urls.len()
        invariant
            i <= existing_urls.len(),
            n@ == trim(name@),
            u@ == trim(url@),
            n@.len() != 0,
            starts_with_seq(u@, "https://"@),
            forall|j: int| 0 <= j < i ==> (#[trigger] existing_urls@[j])@ != u@,
        decreases existing_urls.len() - i,
    {
        if existing_urls[i] == u {
            assert(url_taken(existing_urls@, u@)) by {
                assert((existing_urls@[i as int])@ == u@);
            }
            return Err(SubscriptionDraftError::Duplicate);
        }
        i += 1;
    }
    Ok((n, u))
}

/// `n` in decimal, with a minus sign when negative.
pub open spec fn signed_decimal(n: int) -> Seq<char> {
    if n < 0 { seq!['-'] + decimal((-n) as nat) } else { decimal(n as nat) }
}

/// The id of a subscription created at `micros` microseconds since the
/// Unix epoch.
pub fn subscription_id(micros: i64) -> (s: String)
    ensures
        s@ == "sub-"@ + signed_decimal(micros as int),
{
    let mut v: Vec<char> = Vec::new();
    v.push('s');
    v.push('u');
    v.push('b');
    v.push('-');
    let magnitude: u64 = if micros < 0 { (-(micros as i128)) as u64 } else { micros as u64 };
    if micros < 0 {
        v.push('-');
    }
    let d = decimal_chars(magnitude);
    let ghost start = v@;
    let mut i: usize = 0;
    while i < d.len()
        invariant
            i <= d.len(),
            v@ == start + d@.take(i as int),
        decreases d.len() - i,
    {
        v.push(d[i]);
        assert(v@ =~= start + d@.take(i + 1));
        i += 1;
    }
    assert(d@.take(d.len() as int) =~= d@);
    proof {
        reveal_strlit("sub-");
        if micros < 0 {
            assert(v@ =~= "sub-"@ + (seq!['-'] + decimal((-micros) as nat)));
        } else {
            assert(v@ =~= "sub-"@ + decimal(micros as nat));
        }
    }
    string_from_chars(v.as_slice())
}

/// The current time in microseconds since the Unix epoch.
///
/// Trusted: `chrono::Utc::now().timestamp_micros()`. Nothing is stated of
/// the value, which is the clock's.
#[verifier::external_body]
fn clock_micros() -> (t: i64) {
    chrono::Utc::now().timestamp_micros()
}

/// A fresh subscription id, from the current time.
pub fn new_subscription_id() -> (s: String)
    ensures
        exists|t: i64| s@ == "sub-"@ + signed_decimal(t as int),
{
    let t = clock_micros();
    subscription_id(t)
}

/// The position of the first of `ids` equal to `id`, if any.
pub fn find_id(ids: &Vec<String>, id: &str) -> (r: Option<usize>)
    ensures
        r is None ==> forall|j: int| 0 <= j < ids@.len() ==> (#[trigger] ids@[j])@ != id@,
        r matches Some(i) ==> i < ids@.len() && ids@[i as int]@ == id@ && forall|j: int|
            0 <= j < i ==> (#[trigger] ids@[j])@ != id@,
{
    let mut i: usize = 0;
    while i < ids.len()
        invariant
            i <= ids.len(),
            forall|j: int| 0 <= j < i ==> (#[trigger] ids@[j])@ != id@,
        decreases ids.len() - i,
    {
        if str_eq(ids[i].as_str(), id) {
            return Some(i);
        }
        i += 1;
    }
    None
}

/// The tags of a list of nodes, as text.
pub open spec fn tags_view(tags: Seq<Option<String>>) -> Seq<Option<Seq<char>>> {
    tags.map_values(|t: Option<String>| opt_view(t))
}

/// The positions, in order, of the nodes that do not belong to the
/// subscription `id`: those a refresh of `id` keeps.
pub open spec fn kept_positions(tags: Seq<Option<Seq<char>>>, id: Seq<char>) -> Seq<int>
    decreases tags.len(),
{
    if tags.len() == 0 {
        Seq::empty()
    } else if tags.last() == Some(id) {
        kept_positions(tags.drop_last(), id)
    } else {
        kept_positions(tags.drop_last(), id).push(tags.len() - 1)
    }
}

/// The positions of the nodes a refresh of subscription `sub_id` keeps:
/// every node not tagged with it, in order. The refreshed subscription's
/// fresh nodes follow them.
pub fn kept_after_refresh(tags: &Vec<Option<String>>, sub_id: &str) -> (kept: Vec<usize>)
    ensures
        kept@.map_values(|i: usize| i as int) == kept_positions(tags_view(tags@), sub_id@),
{
    let ghost tv = tags_view(tags@);
    let mut kept: Vec<usize> = Vec::new();
    let mut i: usize = 0;
    while i < tags.len()
        invariant
            i <= tags.len(),
            tv == tags_view(tags@),
            kept@.map_values(|k: usize| k as int) == kept_positions(tv.take(i as int), sub_id@),
        decreases tags.len() - i,
    {
        assert(tv.take(i + 1).drop_last() =~= tv.take(i as int));
        assert(tv.take(i + 1).last() == opt_view(tags@[i as int]));
        let own = match &tags[i] {
            Some(t) => str_eq(t.as_str(), sub_id),
            None => false,
        };
        if !own {
            let ghost prev = kept@;
            kept.push(i);
            proof {
                lemma_map_push(prev, i, |k: usize| k as int);
            }
        }
        i += 1;
    }
    assert(tv.take(tags.len() as int) =~= tv);
    kept
}

} // verus!
