//! Subscription parsing: Clash documents and lists of proxy links.

use vstd::prelude::*;
use base64::Engine;
use vstd::utf8::{decode_utf8, valid_utf8};
use crate::model::{GroupType, NaryaConfig, NaryaConfigModel, Proxy, ProxyGroup, ProxyGroupModel, ProxyModel, default_settings, strings_view};
use crate::text::{after_char, is_space, lemma_index_of_at, lemma_index_of_before, lemma_trim_drops_space, trim_end, trim_start, before_char, chars_of, contains_chars, contains_seq, find_char, find_seq, index_of, index_of_seq, lemma_index_of_bounds, lemma_index_of_seq_bounds, lemma_map_push, lowercase, parse_u16, parse_u16_chars, starts_with_chars, starts_with_seq, string_from_chars, sub_chars, to_lowercase, trim, trim_range};
use crate::yaml::{YamlValue, get_seq, get_str, get_u64, parse_yaml, yaml_document, yaml_str};

verus! {

/// What the base64 engine decodes `input` to, if it is valid standard
/// base64 (the `+`/`/` alphabet with canonical `=` padding).
pub uninterp spec fn base64_decoded(input: Seq<char>) -> Option<Seq<u8>>;

/// What percent-decoding `s` and then decoding the bytes as UTF-8 (with
/// replacement characters for invalid sequences) gives.
pub uninterp spec fn percent_decoded(s: Seq<char>) -> Seq<char>;

/// Trusted: `base64::engine::general_purpose::STANDARD.decode`, whose result
/// depends on the input alone.
#[verifier::external_body]
fn base64_decode(input: &str) -> (r: Option<Vec<u8>>)
    ensures
        match r {
            Some(b) => base64_decoded(input@) == Some(b@),
            None => base64_decoded(input@) is None,
        },
{
    base64::engine::general_purpose::STANDARD.decode(input).ok()
}

/// Trusted: `String::from_utf8`, which succeeds exactly on valid UTF-8 and
/// then holds the decoded characters.
#[verifier::external_body]
fn utf8_decode(bytes: Vec<u8>) -> (r: Option<String>)
    ensures
        r is Some <==> valid_utf8(bytes@),
        r matches Some(s) ==> s@ == decode_utf8(bytes@),
{
    String::from_utf8(bytes).ok()
}

/// Trusted: `percent_encoding::percent_decode_str` followed by
/// `decode_utf8_lossy`, whose result depends on the input alone.
#[verifier::external_body]
fn percent_decode_lossy(s: &str) -> (r: String)
    ensures
        r@ == percent_decoded(s@),
{
    percent_encoding::percent_decode_str(s).decode_utf8_lossy().into_owned()
}

/// The separator between a link's scheme and the rest.
pub open spec fn scheme_sep() -> Seq<char> {
    seq![':', '/', '/']
}

/// A line that is a Shadowsocks, VMess, Trojan or VLESS link.
pub open spec fn is_link(line: Seq<char>) -> bool {
    starts_with_seq(line, "ss://"@) || starts_with_seq(line, "vmess://"@) || starts_with_seq(line, "trojan://"@)
        || starts_with_seq(line, "vless://"@)
}

/// The text before the first `://` (the whole line if there is none).
pub open spec fn scheme_of(line: Seq<char>) -> Seq<char> {
    line.take(index_of_seq(line, scheme_sep()))
}

/// A link's node name: the percent-decoded fragment after the first `#`, or
/// `<scheme>-node` when there is no fragment.
pub open spec fn link_name(line: Seq<char>) -> Seq<char> {
    if index_of(line, '#') < line.len() {
        percent_decoded(after_char(line, '#'))
    } else {
        scheme_of(line) + seq!['-', 'n', 'o', 'd', 'e']
    }
}

/// The `host:port` part of a link: after the first `@` up to the next `@`,
/// or else between the first `://` and the next one; cut at the first `#`.
pub open spec fn server_info(line: Seq<char>) -> Seq<char> {
    if index_of(line, '@') < line.len() {
        before_char(before_char(after_char(line, '@'), '@'), '#')
    } else {
        let i = index_of_seq(line, scheme_sep());
        if i < line.len() {
            let rest = line.skip(i + 3);
            before_char(rest.take(index_of_seq(rest, scheme_sep())), '#')
        } else {
            Seq::empty()
        }
    }
}

/// The host of a `host:port` text, or `unknown` when it has no `:`.
pub open spec fn server_of(info: Seq<char>) -> Seq<char> {
    if index_of(info, ':') < info.len() {
        before_char(info, ':')
    } else {
        "unknown"@
    }
}

/// The port of a `host:port` text: the field after the first `:` read as a
/// `u16`, and 443 when it is missing or not a valid port.
pub open spec fn port_of(info: Seq<char>) -> u16 {
    if index_of(info, ':') < info.len() {
        match parse_u16(before_char(after_char(info, ':'), ':')) {
            Some(p) => p,
            None => 443,
        }
    } else {
        443
    }
}

/// The proxy a link line describes.
pub open spec fn link_proxy(line: Seq<char>) -> ProxyModel {
    ProxyModel {
        name: link_name(line),
        proxy_type: scheme_of(line),
        server: server_of(server_info(line)),
        port: port_of(server_info(line)),
    }
}

/// The proxy of one raw line, if its trimmed text is a link.
pub open spec fn line_entry(raw: Seq<char>) -> Seq<ProxyModel> {
    let l = trim(raw);
    if l.len() > 0 && is_link(l) {
        seq![link_proxy(l)]
    } else {
        Seq::empty()
    }
}

/// The proxies of every link line of `s`, in order.
pub open spec fn link_proxies(s: Seq<char>) -> Seq<ProxyModel>
    decreases s.len(),
{
    let i = index_of(s, '\n');
    proof {
        lemma_index_of_bounds(s, '\n');
    }
    if i < s.len() {
        line_entry(s.take(i)) + link_proxies(s.skip(i + 1))
    } else {
        line_entry(s)
    }
}

/// A leading white-space character adds no link line.
proof fn lemma_link_proxies_drop_first(s: Seq<char>)
    requires
        s.len() > 0,
        is_space(s[0]),
    ensures
        link_proxies(s.drop_first()) == link_proxies(s),
{
    let d = s.drop_first();
    lemma_index_of_bounds(s, '\n');
    lemma_index_of_bounds(d, '\n');
    let i = index_of(s, '\n');
    if s[0] == '\n' {
        assert(s.take(0) =~= Seq::<char>::empty());
        assert(trim(Seq::<char>::empty()) =~= Seq::<char>::empty());
        assert(line_entry(s.take(0)) =~= Seq::<ProxyModel>::empty());
        assert(s.skip(1) =~= d);
        assert(link_proxies(s) =~= link_proxies(d));
    } else {
        assert(i == 1 + index_of(d, '\n'));
        if i < s.len() {
            assert(s.take(i).drop_first() =~= d.take(i - 1));
            lemma_trim_drops_space(s.take(i));
            assert(s.skip(i + 1) =~= d.skip(i));
        } else {
            lemma_trim_drops_space(s);
        }
    }
}

/// A trailing white-space character adds no link line.
proof fn lemma_link_proxies_drop_last(s: Seq<char>)
    requires
        s.len() > 0,
        is_space(s.last()),
    ensures
        link_proxies(s.drop_last()) == link_proxies(s),
    decreases s.len(),
{
    let t = s.drop_last();
    lemma_index_of_bounds(s, '\n');
    lemma_index_of_before(s, '\n');
    let i = index_of(s, '\n');
    if i < s.len() - 1 {
        lemma_index_of_at(t, '\n', i);
        assert(t.take(i) =~= s.take(i));
        assert(t.skip(i + 1) =~= s.skip(i + 1).drop_last());
        assert(s.skip(i + 1).last() == s.last());
        lemma_link_proxies_drop_last(s.skip(i + 1));
    } else if i == s.len() - 1 {
        lemma_index_of_at(t, '\n', t.len() as int);
        assert(s.take(i) =~= t);
        assert(s.skip(i + 1) =~= Seq::<char>::empty());
        lemma_index_of_bounds(Seq::<char>::empty(), '\n');
        assert(trim(Seq::<char>::empty()) =~= Seq::<char>::empty());
        assert(link_proxies(Seq::<char>::empty()) =~= Seq::<ProxyModel>::empty());
        assert(link_proxies(s) =~= line_entry(t));
    } else {
        lemma_index_of_at(t, '\n', t.len() as int);
        lemma_trim_drops_space(s);
    }
}

/// White space around a link list adds no link line.
proof fn lemma_link_proxies_trim(s: Seq<char>)
    ensures
        link_proxies(trim_start(s)) == link_proxies(s),
        link_proxies(trim_end(s)) == link_proxies(s),
        link_proxies(trim(s)) == link_proxies(s),
    decreases s.len(),
{
    if s.len() > 0 && is_space(s[0]) {
        lemma_link_proxies_trim(s.drop_first());
        lemma_link_proxies_drop_first(s);
    }
    if s.len() > 0 && is_space(s.last()) {
        lemma_link_proxies_trim(s.drop_last());
        lemma_link_proxies_drop_last(s);
    }
}

/// A body whose base64 decoding is a link list reads exactly as that list
/// read on its own: the same proxies and the same group.
pub proof fn law_encoded_links_read_as_plain(
    content: Seq<char>,
    links: Seq<char>,
    encoded: NaryaConfigModel,
    plain: NaryaConfigModel,
)
    requires
        classified(content) == Ok::<PayloadModel, ParseError>(PayloadModel::Links(links)),
        classified(links) == Ok::<PayloadModel, ParseError>(PayloadModel::Links(trim(links))),
        reads_links(encoded, links),
        reads_links(plain, trim(links)),
    ensures
        encoded.proxies == plain.proxies,
        encoded.groups == plain.groups,
{
    lemma_link_proxies_trim(links);
}

/// The single `Auto-Parsed` selection group over `proxies`, if any.
pub open spec fn auto_group(proxies: Seq<ProxyModel>) -> Seq<ProxyGroupModel> {
    if proxies.len() == 0 {
        Seq::empty()
    } else {
        seq![
            ProxyGroupModel {
                name: "Auto-Parsed"@,
                group_type: GroupType::Select,
                proxies: proxies.map_values(|p: ProxyModel| p.name),
            },
        ]
    }
}

/// The proxy a Clash proxy entry describes, if it has a string name, type
/// and server and an unsigned port (kept modulo 2^16).
pub open spec fn clash_proxy(p: YamlValue) -> Seq<ProxyModel> {
    match (get_str(p, "name"@), get_str(p, "type"@), get_str(p, "server"@), get_u64(p, "port"@)) {
        (Some(n), Some(t), Some(sv), Some(port)) => seq![
            ProxyModel { name: n, proxy_type: t, server: sv, port: port as u16 },
        ],
        _ => Seq::empty(),
    }
}

/// The proxies of a Clash `proxies` list, in order.
pub open spec fn clash_proxies(items: Seq<YamlValue>) -> Seq<ProxyModel>
    decreases items.len(),
{
    if items.len() == 0 {
        Seq::empty()
    } else {
        clash_proxies(items.drop_last()) + clash_proxy(items.last())
    }
}

/// The group type a Clash type name stands for; unknown names select.
pub open spec fn group_type_named(t: Seq<char>) -> GroupType {
    let l = lowercase(t);
    if l == "select"@ {
        GroupType::Select
    } else if l == "url-test"@ {
        GroupType::UrlTest
    } else if l == "fallback"@ {
        GroupType::Fallback
    } else if l == "load-balance"@ {
        GroupType::LoadBalance
    } else if l == "relay"@ {
        GroupType::Relay
    } else {
        GroupType::Select
    }
}

/// The string items of a list, in order.
pub open spec fn string_items(items: Seq<YamlValue>) -> Seq<Seq<char>>
    decreases items.len(),
{
    if items.len() == 0 {
        Seq::empty()
    } else {
        string_items(items.drop_last()) + match yaml_str(items.last()) {
            Some(s) => seq![s],
            None => Seq::empty(),
        }
    }
}

/// The group a Clash group entry describes, if it has a string name and type.
pub open spec fn clash_group(g: YamlValue) -> Seq<ProxyGroupModel> {
    match (get_str(g, "name"@), get_str(g, "type"@)) {
        (Some(n), Some(t)) => seq![
            ProxyGroupModel {
                name: n,
                group_type: group_type_named(t),
                proxies: match get_seq(g, "proxies"@) {
                    Some(items) => string_items(items),
                    None => Seq::empty(),
                },
            },
        ],
        _ => Seq::empty(),
    }
}

/// The groups of a Clash `proxy-groups` list, in order.
pub open spec fn clash_groups(items: Seq<YamlValue>) -> Seq<ProxyGroupModel>
    decreases items.len(),
{
    if items.len() == 0 {
        Seq::empty()
    } else {
        clash_groups(items.drop_last()) + clash_group(items.last())
    }
}

/// `s` without its line feeds and carriage returns.
pub open spec fn strip_breaks(s: Seq<char>) -> Seq<char>
    decreases s.len(),
{
    if s.len() == 0 {
        Seq::empty()
    } else if s.last() == '\n' || s.last() == '\r' {
        strip_breaks(s.drop_last())
    } else {
        strip_breaks(s.drop_last()).push(s.last())
    }
}

/// A subscription body that begins with `proxies:` or mentions
/// `proxy-groups:` is a Clash document.
pub open spec fn is_clash(t: Seq<char>) -> bool {
    starts_with_seq(t, "proxies:"@) || contains_seq(t, "proxy-groups:"@)
}

/// A subscription body, told apart by format.
pub enum SubscriptionPayload {
    /// A Clash YAML document (trimmed).
    Clash(String),
    /// Proxy links, one per line.
    Links(String),
}

pub enum PayloadModel {
    Clash(Seq<char>),
    Links(Seq<char>),
}

impl View for SubscriptionPayload {
    type V = PayloadModel;

    open spec fn view(&self) -> PayloadModel {
        match self {
            SubscriptionPayload::Clash(s) => PayloadModel::Clash(s@),
            SubscriptionPayload::Links(s) => PayloadModel::Links(s@),
        }
    }
}

/// Why a subscription body could not be read.
#[derive(Debug, Clone, Copy, PartialEq, Eq, Structural)]
pub enum ParseError {
    /// The body was valid base64 but its bytes are not UTF-8.
    InvalidUtf8,
    /// The body looked like a Clash document but is not valid YAML.
    InvalidYaml,
}

/// `c` is what reading the Clash document `doc` gives: its proxies and
/// proxy groups, with default settings and nothing else.
pub open spec fn reads_clash(c: NaryaConfigModel, doc: YamlValue) -> bool {
    &&& c.proxies == match get_seq(doc, "proxies"@) {
        Some(items) => clash_proxies(items),
        None => Seq::empty(),
    }
    &&& c.groups == match get_seq(doc, "proxy-groups"@) {
        Some(items) => clash_groups(items),
        None => Seq::empty(),
    }
    &&& c.subscriptions.len() == 0
    &&& c.rules.len() == 0
    &&& c.settings == default_settings()
}

/// `c` is what reading the link list `text` gives: one proxy per link line,
/// all of them in the `Auto-Parsed` group, with default settings.
pub open spec fn reads_links(c: NaryaConfigModel, text: Seq<char>) -> bool {
    &&& c.proxies == link_proxies(text)
    &&& c.groups == auto_group(link_proxies(text))
    &&& c.subscriptions.len() == 0
    &&& c.rules.len() == 0
    &&& c.settings == default_settings()
}

/// How a subscription body is read: a Clash document as is; otherwise the
/// links inside it, base64-decoded when the body (without line breaks) is
/// valid base64.
pub open spec fn classified(content: Seq<char>) -> Result<PayloadModel, ParseError> {
    let t = trim(content);
    if is_clash(t) {
        Ok(PayloadModel::Clash(t))
    } else {
        match base64_decoded(strip_breaks(t)) {
            Some(bytes) => if valid_utf8(bytes) {
                Ok(PayloadModel::Links(decode_utf8(bytes)))
            } else {
                Err(ParseError::InvalidUtf8)
            },
            None => Ok(PayloadModel::Links(t)),
        }
    }
}

/// Splits subscription contents into Clash documents and link lists.
pub struct SubscriptionParser;

fn link_proxy_of(line: &Vec<char>) -> (p: Proxy)
    ensures
        p@ == link_proxy(line@),
{
    let ghost l = line@;
    let n = line.len();
    assert(l.subrange(0, n as int) =~= l);
    assert(l.skip(0) =~= l);
    let sep: Vec<char> = vec![':', '/', '/'];
    assert(sep@ =~= scheme_sep());
    let k = find_seq(line, &sep, 0);
    proof {
        lemma_index_of_seq_bounds(l, scheme_sep());
    }
    let scheme = sub_chars(line, 0, k);
    let h = find_char(line, '#', 0, n);
    let name = if h < n {
        let frag = string_from_chars(sub_chars(line, h + 1, n).as_slice());
        assert(l.subrange(h + 1, n as int) =~= after_char(l, '#'));
        percent_decode_lossy(frag.as_str())
    } else {
        let mut x = sub_chars(line, 0, k);
        x.push('-');
        x.push('n');
        x.push('o');
        x.push('d');
        x.push('e');
        assert(x@ =~= scheme_of(l) + seq!['-', 'n', 'o', 'd', 'e']);
        string_from_chars(x.as_slice())
    };
    let at = find_char(line, '@', 0, n);
    let info: Vec<char> = if at < n {
        let at2 = find_char(line, '@', at + 1, n);
        let hh = find_char(line, '#', at + 1, at2);
        assert(l.subrange(at + 1, n as int) =~= after_char(l, '@'));
        assert(l.subrange(at + 1, at2 as int) =~= before_char(after_char(l, '@'), '@'));
        let r = sub_chars(line, at + 1, hh);
        assert(r@ =~= server_info(l));
        r
    } else if k < n {
        let rs = k + 3;
        let k2 = find_seq(line, &sep, rs);
        proof {
            lemma_index_of_seq_bounds(l.skip(rs as int), scheme_sep());
        }
        let hh = find_char(line, '#', rs, k2);
        assert(l.subrange(rs as int, k2 as int) =~= l.skip(rs as int).take(index_of_seq(l.skip(rs as int), scheme_sep())));
        let r = sub_chars(line, rs, hh);
        assert(r@ =~= server_info(l));
        r
    } else {
        let r: Vec<char> = Vec::new();
        assert(r@ =~= server_info(l));
        r
    };
    let ni = info.len();
    let c1 = find_char(&info, ':', 0, ni);
    assert(info@.subrange(0, ni as int) =~= info@);
    let (server, port) = if c1 < ni {
        let c2 = find_char(&info, ':', c1 + 1, ni);
        assert(info@.subrange(c1 + 1, ni as int) =~= after_char(info@, ':'));
        assert(info@.subrange(c1 + 1, c2 as int) =~= before_char(after_char(info@, ':'), ':'));
        let port = match parse_u16_chars(&info, c1 + 1, c2) {
            Some(p) => p,
            None => 443,
        };
        (string_from_chars(sub_chars(&info, 0, c1).as_slice()), port)
    } else {
        (String::from_str("unknown"), 443)
    };
    Proxy { name, proxy_type: string_from_chars(scheme.as_slice()), server, port }
}

fn is_link_line(line: &Vec<char>) -> (r: bool)
    ensures
        r == is_link(line@),
{
    starts_with_chars(line, &chars_of("ss://")) || starts_with_chars(line, &chars_of("vmess://"))
        || starts_with_chars(line, &chars_of("trojan://")) || starts_with_chars(line, &chars_of("vless://"))
}

fn string_list(items: &Vec<YamlValue>) -> (r: Vec<String>)
    ensures
        strings_view(r@) == string_items(items@),
{
    let mut r: Vec<String> = Vec::new();
    let mut i: usize = 0;
    while i < items.len()
        invariant
            i <= items.len(),
            strings_view(r@) == string_items(items@.take(i as int)),
        decreases items.len() - i,
    {
        assert(items@.take(i + 1).drop_last() =~= items@.take(i as int));
        assert(items@.take(i + 1).last() == items@[i as int]);
        match items[i].as_str() {
            Some(s) => {
                let ghost prev = r@;
                let s2 = s.clone();
                r.push(s2);
                proof {
                    lemma_map_push(prev, s2, |s: String| s@);
                }
            },
            None => {},
        }
        assert(strings_view(r@) =~= string_items(items@.take(i + 1)));
        i += 1;
    }
    assert(items@.take(items.len() as int) =~= items@);
    r
}

fn group_type_of(t: &String) -> (g: GroupType)
    ensures
        g == group_type_named(t@),
{
    let l = to_lowercase(t.as_str());
    if l == String::from_str("select") {
        GroupType::Select
    } else if l == String::from_str("url-test") {
        GroupType::UrlTest
    } else if l == String::from_str("fallback") {
        GroupType::Fallback
    } else if l == String::from_str("load-balance") {
        GroupType::LoadBalance
    } else if l == String::from_str("relay") {
        GroupType::Relay
    } else {
        GroupType::Select
    }
}

impl SubscriptionParser {
    /// Tells a Clash document from a list of links, base64-decoding the
    /// latter when the body is valid base64.
    pub fn classify(content: &str) -> (r: Result<SubscriptionPayload, ParseError>)
        ensures
            match r {
                Ok(p) => classified(content@) == Ok::<PayloadModel, ParseError>(p@),
                Err(e) => classified(content@) == Err::<PayloadModel, ParseError>(e),
            },
    {
        let v = chars_of(content);
        let (a, b) = trim_range(&v, 0, v.len());
        assert(v@.subrange(0, v.len() as int) =~= v@);
        let t = sub_chars(&v, a, b);
        if starts_with_chars(&t, &chars_of("proxies:")) || contains_chars(&t, &chars_of("proxy-groups:")) {
            return Ok(SubscriptionPayload::Clash(string_from_chars(t.as_slice())));
        }
        let mut cleaned: Vec<char> = Vec::new();
        let mut i: usize = 0;
        while i < t.len()
            invariant
                i <= t.len(),
                cleaned@ == strip_breaks(t@.take(i as int)),
            decreases t.len() - i,
        {
            assert(t@.take(i + 1).drop_last() =~= t@.take(i as int));
            assert(t@.take(i + 1).last() == t@[i as int]);
            if t[i] != '\n' && t[i] != '\r' {
                cleaned.push(t[i]);
            }
            i += 1;
        }
        assert(t@.take(t.len() as int) =~= t@);
        let cleaned_str = string_from_chars(cleaned.as_slice());
        match base64_decode(cleaned_str.as_str()) {
            Some(bytes) => match utf8_decode(bytes) {
                Some(s) => Ok(SubscriptionPayload::Links(s)),
                None => Err(ParseError::InvalidUtf8),
            },
            None => Ok(SubscriptionPayload::Links(string_from_chars(t.as_slice()))),
        }
    }

    /// Reads a subscription body: a Clash document through the YAML
    /// library, a list of links (base64-encoded or not) line by line.
    pub fn parse(content: &str) -> (r: Result<NaryaConfig, ParseError>)
        ensures
            match (classified(content@), r) {
                (Err(e), Err(f)) => f == e,
                (Ok(PayloadModel::Clash(t)), Ok(c)) => yaml_document(t) matches Some(doc) && reads_clash(c@, doc),
                (Ok(PayloadModel::Clash(t)), Err(f)) => yaml_document(t) is None && f == ParseError::InvalidYaml,
                (Ok(PayloadModel::Links(t)), Ok(c)) => reads_links(c@, t),
                _ => false,
            },
    {
        match Self::classify(content) {
            Ok(SubscriptionPayload::Clash(document)) => match parse_yaml(document.as_str()) {
                Some(doc) => Ok(Self::parse_clash(&doc)),
                None => Err(ParseError::InvalidYaml),
            },
            Ok(SubscriptionPayload::Links(text)) => Ok(Self::parse_plain_links(text.as_str())),
            Err(e) => Err(e),
        }
    }

    /// Reads one proxy per `ss://`, `vmess://`, `trojan://` or `vless://`
    /// line and groups them all under `Auto-Parsed`.
    pub fn parse_plain_links(content: &str) -> (c: NaryaConfig)
        ensures
            c@.proxies == link_proxies(content@),
            c@.groups == auto_group(link_proxies(content@)),
            c@.subscriptions.len() == 0,
            c@.rules.len() == 0,
            c@.settings == default_settings(),
    {
        let mut config = NaryaConfig::default();
        let v = chars_of(content);
        let ghost s = v@;
        let mut out: Vec<Proxy> = Vec::new();
        let mut p: usize = 0;
        let mut done = false;
        assert(s.skip(0) =~= s);
        while !done
            invariant
                s == v@,
                p <= v.len(),
                done ==> out@.map_values(|x: Proxy| x@) == link_proxies(s),
                !done ==> out@.map_values(|x: Proxy| x@) + link_proxies(s.skip(p as int)) == link_proxies(s),
            decreases v.len() - p + if done { 0int } else { 1int },
        {
            let nl = find_char(&v, '\n', p, v.len());
            let ghost rest = s.skip(p as int);
            assert(s.subrange(p as int, v.len() as int) =~= rest);
            assert(rest.take(nl - p) =~= s.subrange(p as int, nl as int));
            let (a, b) = trim_range(&v, p, nl);
            let ghost prev = out@;
            if a < b {
                let line = sub_chars(&v, a, b);
                if is_link_line(&line) {
                    let px = link_proxy_of(&line);
                    out.push(px);
                    proof {
                        lemma_map_push(prev, px, |x: Proxy| x@);
                    }
                }
            }
            assert(out@.map_values(|x: Proxy| x@) =~= prev.map_values(|x: Proxy| x@) + line_entry(rest.take(nl - p)));
            if nl == v.len() {
                assert(link_proxies(rest) == line_entry(rest));
                assert(rest.take(nl - p) =~= rest);
                done = true;
            } else {
                assert(rest.skip(nl - p + 1) =~= s.skip(nl + 1));
                assert(link_proxies(rest) == line_entry(rest.take(nl - p)) + link_proxies(s.skip(nl + 1)));
                p = nl + 1;
            }
        }
        let ghost ps = out@.map_values(|x: Proxy| x@);
        let mut names: Vec<String> = Vec::new();
        let mut j: usize = 0;
        while j < out.len()
            invariant
                j <= out.len(),
                ps == out@.map_values(|x: Proxy| x@),
                strings_view(names@) == ps.take(j as int).map_values(|p: ProxyModel| p.name),
            decreases out.len() - j,
        {
            let ghost prev = names@;
            let nm = out[j].name.clone();
            names.push(nm);
            proof {
                lemma_map_push(prev, nm, |s: String| s@);
                crate::text::lemma_map_take_push(ps, j as int, |p: ProxyModel| p.name);
            }
            j += 1;
        }
        assert(ps.take(out.len() as int) =~= ps);
        if out.len() > 0 {
            config.groups.push(ProxyGroup { name: String::from_str("Auto-Parsed"), group_type: GroupType::Select, proxies: names });
            assert(config@.groups =~= auto_group(ps));
        } else {
            assert(config@.groups =~= auto_group(ps));
        }
        config.proxies = out;
        config
    }

    /// Reads the proxies and proxy groups of a Clash document.
    pub fn parse_clash(doc: &YamlValue) -> (c: NaryaConfig)
        ensures
            c@.proxies == match get_seq(*doc, "proxies"@) {
                Some(items) => clash_proxies(items),
                None => Seq::empty(),
            },
            c@.groups == match get_seq(*doc, "proxy-groups"@) {
                Some(items) => clash_groups(items),
                None => Seq::empty(),
            },
            c@.subscriptions.len() == 0,
            c@.rules.len() == 0,
            c@.settings == default_settings(),
    {
        let mut config = NaryaConfig::default();
        match doc.get("proxies") {
            Some(v) => match v.as_sequence() {
                Some(items) => {
                    let mut i: usize = 0;
                    while i < items.len()
                        invariant
                            i <= items.len(),
                            config.proxies@.map_values(|x: Proxy| x@) == clash_proxies(items@.take(i as int)),
                            config@.subscriptions.len() == 0,
                            config@.groups.len() == 0,
                            config@.rules.len() == 0,
                            config@.settings == default_settings(),
                        decreases items.len() - i,
                    {
                        assert(items@.take(i + 1).drop_last() =~= items@.take(i as int));
                        assert(items@.take(i + 1).last() == items@[i as int]);
                        let p = &items[i];
                        let ghost prev = config.proxies@;
                        match (p.get("name"), p.get("type"), p.get("server"), p.get("port")) {
                            (Some(n), Some(t), Some(s), Some(port)) => match (n.as_str(), t.as_str(), s.as_str(), port.as_u64()) {
                                (Some(n), Some(t), Some(s), Some(port)) => {
                                    let px = Proxy { name: n.clone(), proxy_type: t.clone(), server: s.clone(), port: port as u16 };
                                    config.proxies.push(px);
                                    proof {
                                        lemma_map_push(prev, px, |x: Proxy| x@);
                                    }
                                },
                                _ => {},
                            },
                            _ => {},
                        }
                        assert(config.proxies@.map_values(|x: Proxy| x@) =~= clash_proxies(items@.take(i + 1)));
                        i += 1;
                    }
                    assert(items@.take(items.len() as int) =~= items@);
                },
                None => {},
            },
            None => {},
        }
        match doc.get("proxy-groups") {
            Some(v) => match v.as_sequence() {
                Some(items) => {
                    let ghost proxies_done = config@.proxies;
                    let mut i: usize = 0;
                    while i < items.len()
                        invariant
                            i <= items.len(),
                            config.groups@.map_values(|x: ProxyGroup| x@) == clash_groups(items@.take(i as int)),
                            config@.proxies == proxies_done,
                            config@.subscriptions.len() == 0,
                            config@.rules.len() == 0,
                            config@.settings == default_settings(),
                        decreases items.len() - i,
                    {
                        assert(items@.take(i + 1).drop_last() =~= items@.take(i as int));
                        assert(items@.take(i + 1).last() == items@[i as int]);
                        let g = &items[i];
                        let ghost prev = config.groups@;
                        match (g.get("name"), g.get("type")) {
                            (Some(n), Some(t)) => match (n.as_str(), t.as_str()) {
                                (Some(n), Some(t)) => {
                                    let proxies = match g.get("proxies") {
                                        Some(ps) => match ps.as_sequence() {
                                            Some(list) => string_list(list),
                                            None => Vec::new(),
                                        },
                                        None => Vec::new(),
                                    };
                                    let pg = ProxyGroup { name: n.clone(), group_type: group_type_of(t), proxies };
                                    assert(pg@.proxies =~= match get_seq(*g, "proxies"@) {
                                        Some(items) => string_items(items),
                                        None => Seq::empty(),
                                    });
                                    config.groups.push(pg);
                                    proof {
                                        lemma_map_push(prev, pg, |x: ProxyGroup| x@);
                                    }
                                },
                                _ => {},
                            },
                            _ => {},
                        }
                        assert(config.groups@.map_values(|x: ProxyGroup| x@) =~= clash_groups(items@.take(i + 1)));
                        i += 1;
                    }
                    assert(items@.take(items.len() as int) =~= items@);
                },
                None => {},
            },
            None => {},
        }
        config
    }
}

/// The name a Clash document gives each group type.
pub open spec fn clash_type_name(g: GroupType) -> Seq<char> {
    match g {
        GroupType::Select => "select"@,
        GroupType::UrlTest => "url-test"@,
        GroupType::Fallback => "fallback"@,
        GroupType::LoadBalance => "load-balance"@,
        GroupType::Relay => "relay"@,
    }
}

/// A Clash group whose type, lowercased, is a group type's name is read as
/// that type; a type of no known name is read as a selection group.
pub proof fn law_group_types_read_by_name(g: GroupType, t: Seq<char>, u: Seq<char>)
    requires
        lowercase(t) == clash_type_name(g),
        lowercase(u) != "select"@,
        lowercase(u) != "url-test"@,
        lowercase(u) != "fallback"@,
        lowercase(u) != "load-balance"@,
        lowercase(u) != "relay"@,
    ensures
        group_type_named(t) == g,
        group_type_named(u) == GroupType::Select,
{
    reveal_strlit("select");
    reveal_strlit("url-test");
    reveal_strlit("fallback");
    reveal_strlit("load-balance");
    reveal_strlit("relay");
    assert("select"@.len() == 6 && "url-test"@.len() == 8 && "fallback"@.len() == 8);
    assert("load-balance"@.len() == 12 && "relay"@.len() == 5);
    assert("url-test"@[0] != "fallback"@[0]);
}

} // verus!
