//! Character-level helpers shared by the parsers and matchers.

use vstd::prelude::*;
use vstd::std_specs::iter::IteratorSpec;

verus! {

/// The characters of a string slice, in order.
pub fn chars_of(s: &str) -> (v: Vec<char>)
    ensures
        v@ == s@,
{
    broadcast use vstd::string::axiom_spec_iter, vstd::string::next_postcondition;
    let mut chars = s.chars();
    let mut v: Vec<char> = Vec::new();
    loop
        invariant_except_break
            v@ + chars.remaining() == s@,
            chars.decrease() is Some,
        ensures
            v@ == s@,
        decreases chars.decrease()->0,
    {
        match chars.next() {
            Some(c) => {
                v.push(c);
            },
            None => {
                break;
            },
        }
    }
    v
}

/// Trusted: `String::push` appends the character to the string.
pub assume_specification[ std::string::String::push ](s: &mut std::string::String, ch: char)
    ensures
        final(s)@ == old(s)@.push(ch),
;

/// A `String` holding exactly the given characters.
pub fn string_from_chars(v: &[char]) -> (s: String)
    ensures
        s@ == v@,
{
    let mut s = String::new();
    let mut i: usize = 0;
    while i < v.len()
        invariant
            i <= v@.len(),
            s@ == v@.take(i as int),
        decreases v@.len() - i,
    {
        s.push(v[i]);
        assert(s@ =~= v@.take(i + 1));
        i += 1;
    }
    assert(v@.take(v@.len() as int) =~= v@);
    s
}

/// `path` begins with a separator (`/` or `\`) or with a drive (`X:`).
pub open spec fn looks_rooted(path: Seq<char>) -> bool {
    path.len() > 0 && (path[0] == '/' || path[0] == '\\' || (path.len() >= 2 && path[1] == ':'))
}

/// Whether `path` is an absolute path on this platform.
///
/// Trusted: `std::path::Path::is_absolute`. Which paths are absolute
/// differs between platforms (on Unix those that start with `/`; on
/// Windows those with a drive or `\\` prefix and a root), so only what
/// holds on all of them is stated: an absolute path begins with a
/// separator or a drive. Which such paths are absolute is left unsaid.
#[verifier::external_body]
pub(crate) fn is_absolute_path(path: &str) -> (r: bool)
    ensures
        r ==> looks_rooted(path@),
{
    std::path::Path::new(path).is_absolute()
}

/// `needle` occurs as a contiguous run inside `hay`.
pub open spec fn contains_seq(hay: Seq<char>, needle: Seq<char>) -> bool {
    exists|i: int|
        0 <= i && i + needle.len() <= hay.len() && #[trigger] hay.subrange(i, i + needle.len())
            == needle
}

/// `hay` begins with `prefix`.
pub open spec fn starts_with_seq(hay: Seq<char>, prefix: Seq<char>) -> bool {
    prefix.len() <= hay.len() && hay.subrange(0, prefix.len() as int) == prefix
}

/// Whether `needle` occurs in `hay` at position `i`.
fn matches_at(hay: &Vec<char>, needle: &Vec<char>, i: usize) -> (r: bool)
    requires
        i + needle.len() <= hay.len(),
    ensures
        r == (hay@.subrange(i as int, i + needle.len()) == needle@),
{
    let mut j: usize = 0;
    while j < needle.len()
        invariant
            i + needle.len() <= hay.len(),
            j <= needle.len(),
            forall|k: int| 0 <= k < j ==> hay@[i + k] == needle@[k],
        decreases needle.len() - j,
    {
        if hay[i + j] != needle[j] {
            assert(hay@.subrange(i as int, i + needle.len())[j as int] != needle@[j as int]);
            return false;
        }
        j += 1;
    }
    assert(hay@.subrange(i as int, i + needle.len()) =~= needle@);
    true
}

/// Whether `needle` occurs anywhere in `hay` (an empty needle always does).
pub fn contains_chars(hay: &Vec<char>, needle: &Vec<char>) -> (r: bool)
    ensures
        r == contains_seq(hay@, needle@),
{
    if needle.len() > hay.len() {
        return false;
    }
    let last = hay.len() - needle.len();
    let mut i: usize = 0;
    while i <= last
        invariant
            last + needle.len() == hay.len(),
            forall|k: int|
                0 <= k < i ==> #[trigger] hay@.subrange(k, k + needle.len()) != needle@,
        decreases last + 1 - i,
    {
        if matches_at(hay, needle, i) {
            return true;
        }
        if i == last {
            return false;
        }
        i += 1;
    }
    false
}

/// Whether the string `hay` contains the string `needle`.
pub fn str_contains(hay: &str, needle: &str) -> (r: bool)
    ensures
        r == contains_seq(hay@, needle@),
{
    let h = chars_of(hay);
    let n = chars_of(needle);
    contains_chars(&h, &n)
}

} // verus!

verus! {

/// The lowercase form of a string, as `str::to_lowercase` computes it
/// (full Unicode lowercase mapping, character by character).
pub uninterp spec fn lowercase(s: Seq<char>) -> Seq<char>;

/// Trusted: `str::to_lowercase`. Its result depends on the string alone.
#[verifier::external_body]
pub(crate) fn to_lowercase(s: &str) -> (r: String)
    ensures
        r@ == lowercase(s@),
{
    s.to_lowercase()
}

} // verus!

verus! {

/// Whether two string slices hold the same characters.
pub fn str_eq(a: &str, b: &str) -> (r: bool)
    ensures
        r == (a@ == b@),
{
    String::from_str(a) == String::from_str(b)
}

/// Mapping commutes with appending.
pub proof fn lemma_map_push<A, B>(s: Seq<A>, x: A, f: spec_fn(A) -> B)
    ensures
        s.push(x).map_values(f) == s.map_values(f).push(f(x)),
{
    assert(s.push(x).map_values(f) =~= s.map_values(f).push(f(x)));
}

/// Mapping a prefix one longer appends the mapped next element.
pub proof fn lemma_map_take_push<A, B>(s: Seq<A>, i: int, f: spec_fn(A) -> B)
    requires
        0 <= i < s.len(),
    ensures
        s.take(i + 1).map_values(f) == s.take(i).map_values(f).push(f(s[i])),
{
    assert(s.take(i + 1) =~= s.take(i).push(s[i]));
    lemma_map_push(s.take(i), s[i], f);
}

} // verus!

verus! {

/// Unicode `White_Space`, the set that `char::is_whitespace` and
/// `str::trim` use.
pub open spec fn is_space(c: char) -> bool {
    ('\u{9}' <= c && c <= '\u{d}') || c == ' ' || c == '\u{85}' || c == '\u{a0}' || c == '\u{1680}'
        || ('\u{2000}' <= c && c <= '\u{200a}') || c == '\u{2028}' || c == '\u{2029}' || c == '\u{202f}'
        || c == '\u{205f}' || c == '\u{3000}'
}

/// Whether `c` is Unicode white space.
pub fn char_is_space(c: char) -> (r: bool)
    ensures
        r == is_space(c),
{
    ('\u{9}' <= c && c <= '\u{d}') || c == ' ' || c == '\u{85}' || c == '\u{a0}' || c == '\u{1680}'
        || ('\u{2000}' <= c && c <= '\u{200a}') || c == '\u{2028}' || c == '\u{2029}' || c == '\u{202f}'
        || c == '\u{205f}' || c == '\u{3000}'
}

/// `s` without its leading white space.
pub open spec fn trim_start(s: Seq<char>) -> Seq<char>
    decreases s.len(),
{
    if s.len() > 0 && is_space(s[0]) {
        trim_start(s.drop_first())
    } else {
        s
    }
}

/// `s` without its trailing white space.
pub open spec fn trim_end(s: Seq<char>) -> Seq<char>
    decreases s.len(),
{
    if s.len() > 0 && is_space(s.last()) {
        trim_end(s.drop_last())
    } else {
        s
    }
}

/// `s` without leading and trailing white space, as `str::trim` gives it.
pub open spec fn trim(s: Seq<char>) -> Seq<char> {
    trim_end(trim_start(s))
}

/// The bounds of `v[a..b]` once trimmed.
pub fn trim_range(v: &Vec<char>, a: usize, b: usize) -> (r: (usize, usize))
    requires
        a <= b <= v.len(),
    ensures
        a <= r.0 <= r.1 <= b,
        v@.subrange(r.0 as int, r.1 as int) == trim(v@.subrange(a as int, b as int)),
{
    let mut lo = a;
    while lo < b && char_is_space(v[lo])
        invariant
            a <= lo <= b <= v.len(),
            trim_start(v@.subrange(a as int, b as int)) == trim_start(v@.subrange(lo as int, b as int)),
        decreases b - lo,
    {
        assert(v@.subrange(lo as int, b as int).drop_first() =~= v@.subrange(lo + 1, b as int));
        lo += 1;
    }
    let mut hi = b;
    while hi > lo && char_is_space(v[hi - 1])
        invariant
            a <= lo <= hi <= b <= v.len(),
            trim_start(v@.subrange(a as int, b as int)) == v@.subrange(lo as int, b as int),
            trim_end(v@.subrange(lo as int, b as int)) == trim_end(v@.subrange(lo as int, hi as int)),
        decreases hi - lo,
    {
        assert(v@.subrange(lo as int, hi as int).drop_last() =~= v@.subrange(lo as int, hi - 1));
        hi -= 1;
    }
    (lo, hi)
}

/// A copy of `v[a..b]`.
pub fn sub_chars(v: &Vec<char>, a: usize, b: usize) -> (r: Vec<char>)
    requires
        a <= b <= v.len(),
    ensures
        r@ == v@.subrange(a as int, b as int),
{
    let mut r: Vec<char> = Vec::new();
    let mut i = a;
    while i < b
        invariant
            a <= i <= b <= v.len(),
            r@ == v@.subrange(a as int, i as int),
        decreases b - i,
    {
        r.push(v[i]);
        assert(r@ =~= v@.subrange(a as int, i + 1));
        i += 1;
    }
    r
}

/// `s` without leading and trailing white space, as a new string.
pub fn trimmed(s: &str) -> (r: String)
    ensures
        r@ == trim(s@),
{
    let v = chars_of(s);
    let (a, b) = trim_range(&v, 0, v.len());
    let w = sub_chars(&v, a, b);
    assert(v@.subrange(0, v.len() as int) =~= v@);
    string_from_chars(w.as_slice())
}

/// The index of the first `c` in `s`, or the length of `s` if there is none.
pub open spec fn index_of(s: Seq<char>, c: char) -> int
    decreases s.len(),
{
    if s.len() == 0 {
        0
    } else if s[0] == c {
        0
    } else {
        1 + index_of(s.drop_first(), c)
    }
}

pub proof fn lemma_index_of_bounds(s: Seq<char>, c: char)
    ensures
        0 <= index_of(s, c) <= s.len(),
        index_of(s, c) < s.len() ==> s[index_of(s, c)] == c,
    decreases s.len(),
{
    if s.len() > 0 && s[0] != c {
        lemma_index_of_bounds(s.drop_first(), c);
    }
}

/// No `c` comes before the first one.
pub proof fn lemma_index_of_before(s: Seq<char>, c: char)
    ensures
        forall|j: int| 0 <= j < index_of(s, c) ==> s[j] != c,
    decreases s.len(),
{
    lemma_index_of_bounds(s, c);
    if s.len() > 0 && s[0] != c {
        lemma_index_of_before(s.drop_first(), c);
        assert forall|j: int| 0 <= j < index_of(s, c) implies s[j] != c by {
            if j > 0 {
                assert(s[j] == s.drop_first()[j - 1]);
            }
        }
    }
}

/// Trimming ignores white space at either end: dropping a leading or a
/// trailing white-space character leaves the trimmed text as it was.
pub proof fn lemma_trim_drops_space(x: Seq<char>)
    requires
        x.len() > 0,
    ensures
        is_space(x[0]) ==> trim(x.drop_first()) == trim(x),
        is_space(x.last()) ==> trim(x.drop_last()) == trim(x),
    decreases x.len(),
{
    if is_space(x.last()) {
        if is_space(x[0]) {
            if x.len() == 1 {
                assert(x.drop_last() =~= Seq::<char>::empty());
                assert(x.drop_first() =~= Seq::<char>::empty());
            } else {
                lemma_trim_drops_space(x.drop_first());
                assert(x.drop_first().last() == x.last());
                assert(x.drop_last().drop_first() =~= x.drop_first().drop_last());
                assert(x.drop_last()[0] == x[0]);
            }
        } else {
            assert(x.len() >= 2);
            assert(x.drop_last()[0] == x[0]);
        }
    }
}

/// The first `c` is at `i` when none comes before it.
pub proof fn lemma_index_of_at(s: Seq<char>, c: char, i: int)
    requires
        0 <= i <= s.len(),
        forall|j: int| 0 <= j < i ==> s[j] != c,
        i == s.len() || s[i] == c,
    ensures
        index_of(s, c) == i,
    decreases i,
{
    if i > 0 {
        assert forall|j: int| 0 <= j < i - 1 implies s.drop_first()[j] != c by {
            assert(s.drop_first()[j] == s[j + 1]);
        }
        lemma_index_of_at(s.drop_first(), c, i - 1);
    }
}

/// The text of `s` before its first `c` (all of `s` if there is none).
pub open spec fn before_char(s: Seq<char>, c: char) -> Seq<char> {
    s.take(index_of(s, c))
}

/// The text of `s` after its first `c`.
pub open spec fn after_char(s: Seq<char>, c: char) -> Seq<char> {
    s.skip(index_of(s, c) + 1)
}

/// The absolute index of the first `c` in `v[start..end]`, or `end`.
pub fn find_char(v: &Vec<char>, c: char, start: usize, end: usize) -> (r: usize)
    requires
        start <= end <= v.len(),
    ensures
        r == start + index_of(v@.subrange(start as int, end as int), c),
        start <= r <= end,
{
    let mut i = start;
    while i < end
        invariant
            start <= i <= end <= v.len(),
            forall|j: int| start <= j < i ==> v@[j] != c,
        decreases end - i,
    {
        if v[i] == c {
            proof {
                lemma_index_of_at(v@.subrange(start as int, end as int), c, i - start);
            }
            return i;
        }
        i += 1;
    }
    proof {
        lemma_index_of_at(v@.subrange(start as int, end as int), c, end - start);
    }
    end
}

/// The index of the first occurrence of `pat` in `s`, or the length of `s`.
pub open spec fn index_of_seq(s: Seq<char>, pat: Seq<char>) -> int
    decreases s.len(),
{
    if s.len() < pat.len() || s.len() == 0 {
        s.len() as int
    } else if s.subrange(0, pat.len() as int) == pat {
        0
    } else {
        1 + index_of_seq(s.drop_first(), pat)
    }
}

pub proof fn lemma_index_of_seq_at(s: Seq<char>, pat: Seq<char>, i: int)
    requires
        pat.len() > 0,
        0 <= i <= s.len(),
        forall|j: int| 0 <= j < i && j + pat.len() <= s.len() ==> #[trigger] s.subrange(j, j + pat.len()) != pat,
        (i + pat.len() <= s.len() && s.subrange(i, i + pat.len()) == pat) || i == s.len(),
    ensures
        index_of_seq(s, pat) == i,
    decreases i,
{
    if i > 0 && s.len() >= pat.len() {
        assert(s.subrange(0int, 0int + pat.len()) != pat);
        assert(s.subrange(0, pat.len() as int) != pat);
        let t = s.drop_first();
        assert forall|j: int| 0 <= j < i - 1 && j + pat.len() <= t.len() implies #[trigger] t.subrange(j, j + pat.len()) != pat by {
            assert(t.subrange(j, j + pat.len()) =~= s.subrange(j + 1, j + 1 + pat.len()));
        }
        if i < s.len() {
            assert(t.subrange(i - 1, i - 1 + pat.len()) =~= s.subrange(i, i + pat.len()));
        }
        lemma_index_of_seq_at(t, pat, i - 1);
    }
}

/// The index of the first occurrence of `pat` in `v[start..]`, as an
/// absolute index, or `v.len()`.
pub fn find_seq(v: &Vec<char>, pat: &Vec<char>, start: usize) -> (r: usize)
    requires
        start <= v.len(),
        pat.len() > 0,
    ensures
        r == start + index_of_seq(v@.skip(start as int), pat@),
        start <= r <= v.len(),
{
    let ghost s = v@.skip(start as int);
    if pat.len() > v.len() - start {
        proof {
            lemma_index_of_seq_at(s, pat@, s.len() as int);
        }
        return v.len();
    }
    let last = v.len() - pat.len();
    let mut i = start;
    while i <= last
        invariant
            last + pat.len() == v.len(),
            start <= i <= v.len(),
            pat.len() > 0,
            s == v@.skip(start as int),
            forall|j: int| 0 <= j < i - start && j + pat.len() <= s.len() ==> #[trigger] s.subrange(j, j + pat.len()) != pat@,
        decreases v.len() - i,
    {
        assert(s.subrange(i - start, i - start + pat.len()) =~= v@.subrange(i as int, i + pat.len()));
        if matches_at(v, pat, i) {
            proof {
                lemma_index_of_seq_at(s, pat@, i - start);
            }
            return i;
        }
        if i == last {
            proof {
                lemma_index_of_seq_at(s, pat@, s.len() as int);
            }
            return v.len();
        }
        i += 1;
    }
    proof {
        lemma_index_of_seq_at(s, pat@, s.len() as int);
    }
    v.len()
}

/// Whether `v` begins with `prefix`.
pub fn starts_with_chars(v: &Vec<char>, prefix: &Vec<char>) -> (r: bool)
    ensures
        r == starts_with_seq(v@, prefix@),
{
    if prefix.len() > v.len() {
        return false;
    }
    matches_at(v, prefix, 0)
}

/// Whether `s` begins with `prefix`.
pub fn str_starts_with(s: &str, prefix: &str) -> (r: bool)
    ensures
        r == starts_with_seq(s@, prefix@),
{
    let v = chars_of(s);
    let p = chars_of(prefix);
    starts_with_chars(&v, &p)
}

/// The numeric value of a run of decimal digits.
pub open spec fn digits_value(s: Seq<char>) -> int
    decreases s.len(),
{
    if s.len() == 0 {
        0
    } else {
        digits_value(s.drop_last()) * 10 + (s.last() as int - '0' as int)
    }
}

/// Every character is an ASCII decimal digit.
pub open spec fn all_digits(s: Seq<char>) -> bool {
    forall|i: int| 0 <= i < s.len() ==> '0' <= #[trigger] s[i] <= '9'
}

/// `s` read as an unsigned integer no larger than `max`, the way
/// `str::parse` reads unsigned integers: an optional `+`, then at least one
/// decimal digit, with a value that fits.
pub open spec fn parse_unsigned(s: Seq<char>, max: int) -> Option<int> {
    let d = if s.len() > 0 && s[0] == '+' { s.drop_first() } else { s };
    if d.len() > 0 && all_digits(d) && digits_value(d) <= max {
        Some(digits_value(d))
    } else {
        None
    }
}

/// `s` read as a `u16` the way `str::parse::<u16>` reads it.
pub open spec fn parse_u16(s: Seq<char>) -> Option<u16> {
    match parse_unsigned(s, 65535) {
        Some(v) => Some(v as u16),
        None => None,
    }
}

/// `s` read as a `u8` the way `str::parse::<u8>` reads it.
pub open spec fn parse_u8(s: Seq<char>) -> Option<u8> {
    match parse_unsigned(s, 255) {
        Some(v) => Some(v as u8),
        None => None,
    }
}

/// `s` read as a `u64` the way `str::parse::<u64>` reads it.
pub open spec fn parse_u64(s: Seq<char>) -> Option<u64> {
    match parse_unsigned(s, 0xffff_ffff_ffff_ffff) {
        Some(v) => Some(v as u64),
        None => None,
    }
}

proof fn lemma_digits_monotone(s: Seq<char>, i: int)
    requires
        all_digits(s),
        0 <= i <= s.len(),
    ensures
        0 <= digits_value(s.take(i)) <= digits_value(s),
    decreases s.len() - i,
{
    if i < s.len() {
        lemma_digits_monotone(s, i + 1);
        assert(s.take(i + 1).drop_last() =~= s.take(i));
        assert('0' <= s[i] <= '9');
    } else {
        assert(s.take(i) =~= s);
        lemma_digits_nonneg(s);
    }
}

proof fn lemma_digits_nonneg(s: Seq<char>)
    requires
        all_digits(s),
    ensures
        digits_value(s) >= 0,
    decreases s.len(),
{
    if s.len() > 0 {
        lemma_digits_nonneg(s.drop_last());
        assert('0' <= s[s.len() - 1] <= '9');
    }
}

/// `v[a..b]` read as an unsigned integer no larger than `max`.
pub fn parse_unsigned_chars(v: &Vec<char>, a: usize, b: usize, max: u64) -> (r: Option<u64>)
    requires
        a <= b <= v.len(),
    ensures
        match r {
            Some(x) => parse_unsigned(v@.subrange(a as int, b as int), max as int) == Some(x as int),
            None => parse_unsigned(v@.subrange(a as int, b as int), max as int) is None,
        },
{
    let ghost s = v@.subrange(a as int, b as int);
    let mut start = a;
    if a < b && v[a] == '+' {
        start = a + 1;
    }
    let ghost d = v@.subrange(start as int, b as int);
    assert(d == if s.len() > 0 && s[0] == '+' { s.drop_first() } else { s });
    if start == b {
        return None;
    }
    let mut acc: u128 = 0;
    let mut i = start;
    while i < b
        invariant
            a <= start <= i <= b <= v.len(),
            d == v@.subrange(start as int, b as int),
            s == v@.subrange(a as int, b as int),
            d == if s.len() > 0 && s[0] == '+' { s.drop_first() } else { s },
            d.len() > 0,
            all_digits(d.take(i - start)),
            acc as int == digits_value(d.take(i - start)),
            acc <= max,
        decreases b - i,
    {
        let c = v[i];
        if c < '0' || c > '9' {
            assert(d[i - start] == c);
            assert(!all_digits(d));
            return None;
        }
        let digit: u128 = ((c as u32) - ('0' as u32)) as u128;
        assert(d.take(i - start + 1).drop_last() =~= d.take(i - start));
        assert(d.take(i - start + 1).last() == c);
        acc = acc * 10 + digit;
        if acc > max as u128 {
            proof {
                let k = i - start + 1;
                if all_digits(d) {
                    lemma_digits_monotone(d, k);
                }
            }
            return None;
        }
        i += 1;
    }
    assert(d.take(b - start) =~= d);
    Some(acc as u64)
}

/// `v[a..b]` read as a `u16`.
pub fn parse_u16_chars(v: &Vec<char>, a: usize, b: usize) -> (r: Option<u16>)
    requires
        a <= b <= v.len(),
    ensures
        r == parse_u16(v@.subrange(a as int, b as int)),
{
    match parse_unsigned_chars(v, a, b, 65535) {
        Some(x) => Some(x as u16),
        None => None,
    }
}

/// `v[a..b]` read as a `u8`.
pub fn parse_u8_chars(v: &Vec<char>, a: usize, b: usize) -> (r: Option<u8>)
    requires
        a <= b <= v.len(),
    ensures
        r == parse_u8(v@.subrange(a as int, b as int)),
{
    match parse_unsigned_chars(v, a, b, 255) {
        Some(x) => Some(x as u8),
        None => None,
    }
}

/// `v[a..b]` read as a `u64`.
pub fn parse_u64_chars(v: &Vec<char>, a: usize, b: usize) -> (r: Option<u64>)
    requires
        a <= b <= v.len(),
    ensures
        r == parse_u64(v@.subrange(a as int, b as int)),
{
    parse_unsigned_chars(v, a, b, 0xffff_ffff_ffff_ffff)
}

} // verus!

verus! {

/// A found occurrence lies inside `s` and is one.
pub proof fn lemma_index_of_seq_bounds(s: Seq<char>, pat: Seq<char>)
    ensures
        0 <= index_of_seq(s, pat) <= s.len(),
        index_of_seq(s, pat) < s.len() ==> index_of_seq(s, pat) + pat.len() <= s.len() && s.subrange(
            index_of_seq(s, pat),
            index_of_seq(s, pat) + pat.len(),
        ) == pat,
    decreases s.len(),
{
    if !(s.len() < pat.len() || s.len() == 0) && s.subrange(0, pat.len() as int) != pat {
        let t = s.drop_first();
        lemma_index_of_seq_bounds(t, pat);
        let i = index_of_seq(t, pat);
        if i < t.len() {
            assert(t.subrange(i, i + pat.len()) =~= s.subrange(i + 1, i + 1 + pat.len()));
        }
    }
}

} // verus!
