//! Reading rule conditions from the condition editor, and showing them.

use vstd::prelude::*;
use crate::routing::{Condition, ConditionModel, RuleModel, opt_view};
use crate::editor::RoutingTable;
use crate::table::{decimal, first_rule, find_rule, lemma_decimal_reads_back, numbered, rules_view};
use crate::text::{chars_of, is_space, parse_u16, parse_u16_chars, parse_u8, parse_u8_chars, string_from_chars, sub_chars, trim, trim_range};
use crate::tracker::IpAddress;

verus! {

/// Why a condition could not be read.
#[derive(Debug, Clone, Copy, PartialEq, Eq, Structural)]
pub enum ConditionError {
    /// A CIDR condition lacks the `/prefix` part.
    CidrFormat,
    /// The CIDR address is not an IP address.
    CidrAddress,
    /// The CIDR prefix is not a number from 0 to 255.
    CidrPrefix,
    /// The port is not a number that fits 16 bits. Port 0 is accepted, though
    /// the message asks for 1 to 65535.
    Port,
    /// The value is blank or the kind is unknown.
    Unsupported,
}

/// The message shown for each error.
pub open spec fn condition_error_text(e: ConditionError) -> Seq<char> {
    match e {
        ConditionError::CidrFormat => "CIDR 条件格式应为地址/前缀，例如 10.0.0.0/8"@,
        ConditionError::CidrAddress => "CIDR 地址无效"@,
        ConditionError::CidrPrefix => "CIDR 前缀无效"@,
        ConditionError::Port => "端口必须是 1-65535 的整数"@,
        ConditionError::Unsupported => "条件值不能为空，或条件类型不支持"@,
    }
}

impl ConditionError {
    /// The message shown for this error.
    pub fn message(&self) -> (s: String)
        ensures
            s@ == condition_error_text(*self),
    {
        match self {
            ConditionError::CidrFormat => String::from_str("CIDR 条件格式应为地址/前缀，例如 10.0.0.0/8"),
            ConditionError::CidrAddress => String::from_str("CIDR 地址无效"),
            ConditionError::CidrPrefix => String::from_str("CIDR 前缀无效"),
            ConditionError::Port => String::from_str("端口必须是 1-65535 的整数"),
            ConditionError::Unsupported => String::from_str("条件值不能为空，或条件类型不支持"),
        }
    }
}

/// The index of the last `c` in `s`, or -1.
pub open spec fn last_index_of(s: Seq<char>, c: char) -> int
    decreases s.len(),
{
    if s.len() == 0 {
        -1
    } else if s.last() == c {
        s.len() - 1
    } else {
        last_index_of(s.drop_last(), c)
    }
}

proof fn lemma_last_index_at(s: Seq<char>, c: char, i: int)
    requires
        -1 <= i < s.len(),
        forall|j: int| i < j < s.len() ==> s[j] != c,
        i == -1 || s[i] == c,
    ensures
        last_index_of(s, c) == i,
    decreases s.len(),
{
    if s.len() > 0 && i < s.len() - 1 {
        assert forall|j: int| i < j < s.len() - 1 implies s.drop_last()[j] != c by {
            assert(s.drop_last()[j] == s[j]);
        }
        lemma_last_index_at(s.drop_last(), c, i);
    }
}

/// The text of a CIDR value (trimmed) before and after its last `/`.
pub open spec fn cidr_split(value: Seq<char>) -> Option<(Seq<char>, Seq<char>)> {
    let v = trim(value);
    let slash = last_index_of(v, '/');
    if slash < 0 {
        None
    } else {
        Some((v.take(slash), v.skip(slash + 1)))
    }
}

/// The condition the editor's kind and value describe, given what the
/// address parser read from the address part of a CIDR value.
pub open spec fn condition_from(kind: Seq<char>, value: Seq<char>, address: Option<IpAddress>) -> Result<ConditionModel, ConditionError> {
    let v = trim(value);
    if kind == "domain"@ && v.len() > 0 {
        Ok(ConditionModel::Domain(v))
    } else if kind == "domain_suffix"@ && v.len() > 0 {
        Ok(ConditionModel::DomainSuffix(v))
    } else if kind == "process"@ && v.len() > 0 {
        Ok(ConditionModel::Process(v))
    } else if kind == "rule_set"@ && v.len() > 0 {
        Ok(ConditionModel::RuleSet(v))
    } else if kind == "ip_cidr"@ {
        let slash = last_index_of(v, '/');
        if slash < 0 {
            Err(ConditionError::CidrFormat)
        } else {
            match address {
                None => Err(ConditionError::CidrAddress),
                Some(network) => match parse_u8(v.skip(slash + 1)) {
                    None => Err(ConditionError::CidrPrefix),
                    Some(prefix) => Ok(ConditionModel::IpCidr { network, prefix }),
                },
            }
        }
    } else if kind == "port"@ {
        match parse_u16(v) {
            Some(p) => Ok(ConditionModel::Port(p)),
            None => Err(ConditionError::Port),
        }
    } else if kind == "any"@ {
        Ok(ConditionModel::Any)
    } else {
        Err(ConditionError::Unsupported)
    }
}

fn last_slash(v: &Vec<char>) -> (r: Option<usize>)
    ensures
        match r {
            Some(i) => i < v.len() && last_index_of(v@, '/') == i,
            None => last_index_of(v@, '/') == -1,
        },
{
    let mut i = v.len();
    while i > 0 && v[i - 1] != '/'
        invariant
            i <= v.len(),
            forall|j: int| i <= j < v.len() ==> v@[j] != '/',
        decreases i,
    {
        i -= 1;
    }
    if i == 0 {
        proof {
            lemma_last_index_at(v@, '/', -1);
        }
        return None;
    }
    proof {
        lemma_last_index_at(v@, '/', i - 1);
    }
    Some(i - 1)
}

/// The address and prefix texts of a CIDR value: the trimmed value split at
/// its last `/`.
pub fn cidr_parts(value: &str) -> (r: Option<(String, String)>)
    ensures
        match r {
            Some((a, p)) => cidr_split(value@) == Some((a@, p@)),
            None => cidr_split(value@) is None,
        },
{
    let raw = chars_of(value);
    let (a, b) = trim_range(&raw, 0, raw.len());
    assert(raw@.subrange(0, raw.len() as int) =~= raw@);
    let v = sub_chars(&raw, a, b);
    match last_slash(&v) {
        None => None,
        Some(slash) => {
            assert(v@.subrange(0, slash as int) =~= v@.take(slash as int));
            assert(v@.subrange(slash + 1, v.len() as int) =~= v@.skip(slash + 1));
            Some((string_from_chars(sub_chars(&v, 0, slash).as_slice()), string_from_chars(sub_chars(&v, slash + 1, v.len()).as_slice())))
        },
    }
}

/// Reads a condition from the editor's kind and value (the value trimmed).
/// `address` is what the address parser read from the address part of a
/// CIDR value (see `cidr_parts`); other kinds ignore it.
pub fn parse_condition(kind: &str, value: &str, address: Option<IpAddress>) -> (r: Result<Condition, ConditionError>)
    ensures
        match r {
            Ok(c) => condition_from(kind@, value@, address) == Ok::<ConditionModel, ConditionError>(c@),
            Err(e) => condition_from(kind@, value@, address) == Err::<ConditionModel, ConditionError>(e),
        },
{
    let raw = chars_of(value);
    let (a, b) = trim_range(&raw, 0, raw.len());
    assert(raw@.subrange(0, raw.len() as int) =~= raw@);
    let v = sub_chars(&raw, a, b);
    let k = String::from_str(kind);
    let nonempty = v.len() > 0;
    if k == String::from_str("domain") && nonempty {
        Ok(Condition::Domain(string_from_chars(v.as_slice())))
    } else if k == String::from_str("domain_suffix") && nonempty {
        Ok(Condition::DomainSuffix(string_from_chars(v.as_slice())))
    } else if k == String::from_str("process") && nonempty {
        Ok(Condition::Process(string_from_chars(v.as_slice())))
    } else if k == String::from_str("rule_set") && nonempty {
        Ok(Condition::RuleSet(string_from_chars(v.as_slice())))
    } else if k == String::from_str("ip_cidr") {
        let slash = match last_slash(&v) {
            None => {
                return Err(ConditionError::CidrFormat);
            },
            Some(s) => s,
        };
        match address {
            None => Err(ConditionError::CidrAddress),
            Some(network) => {
                assert(v@.subrange(slash + 1, v.len() as int) =~= v@.skip(slash + 1));
                match parse_u8_chars(&v, slash + 1, v.len()) {
                    None => Err(ConditionError::CidrPrefix),
                    Some(prefix) => Ok(Condition::IpCidr { network, prefix }),
                }
            },
        }
    } else if k == String::from_str("port") {
        assert(v@.subrange(0, v.len() as int) =~= v@);
        match parse_u16_chars(&v, 0, v.len()) {
            Some(p) => Ok(Condition::Port(p)),
            None => Err(ConditionError::Port),
        }
    } else if k == String::from_str("any") {
        Ok(Condition::Any)
    } else {
        Err(ConditionError::Unsupported)
    }
}

/// What setting a rule condition did.
#[derive(Debug, Clone, Copy, PartialEq, Eq, Structural)]
pub enum ConditionEdit {
    NoSuchRule,
    /// The kind and value do not describe a condition.
    Invalid(ConditionError),
    /// The rule has no condition at that index.
    StaleIndex,
    /// The condition was replaced; the rules are to be validated.
    Replaced,
}

/// The error shown when a condition index no longer exists.
pub open spec fn stale_index_message() -> Seq<char> {
    "条件索引已失效，请刷新规则页"@
}

impl RoutingTable {
    /// Replaces condition `index` of the first rule with id `rule_id` by the
    /// condition the editor describes (`address` as for `parse_condition`).
    pub fn set_rule_condition(&mut self, rule_id: &str, index: usize, kind: &str, value: &str, address: Option<IpAddress>) -> (r: ConditionEdit)
        ensures
            ({
                let old_rules = rules_view(old(self).rules@);
                let i = first_rule(old_rules, rule_id@);
                let parsed = condition_from(kind@, value@, address);
                &&& (i == old_rules.len()) ==> r == ConditionEdit::NoSuchRule && final(self).rule_editor_error
                    == old(self).rule_editor_error && final(self).rules@ == old(self).rules@
                &&& (i < old_rules.len() && parsed is Err) ==> r == ConditionEdit::Invalid(parsed->Err_0)
                    && final(self).rules@ == old(self).rules@ && opt_view(final(self).rule_editor_error) == Some(
                    condition_error_text(parsed->Err_0),
                )
                &&& (i < old_rules.len() && parsed is Ok && index >= old_rules[i].conditions.len()) ==> r
                    == ConditionEdit::StaleIndex && final(self).rules@ == old(self).rules@ && opt_view(
                    final(self).rule_editor_error,
                ) == Some(stale_index_message())
                &&& (i < old_rules.len() && parsed is Ok && index < old_rules[i].conditions.len()) ==> r
                    == ConditionEdit::Replaced && rules_view(final(self).rules@) == old_rules.update(
                    i,
                    RuleModel { conditions: old_rules[i].conditions.update(index as int, parsed->Ok_0), ..old_rules[i] },
                ) && final(self).rule_editor_error == old(self).rule_editor_error
            }),
            final(self).groups@ == old(self).groups@,
            final(self).rule_sets@ == old(self).rule_sets@,
            final(self).group_error == old(self).group_error,
            final(self).rule_set_error == old(self).rule_set_error,
    {
        let i = find_rule(&self.rules, rule_id);
        if i == self.rules.len() {
            return ConditionEdit::NoSuchRule;
        }
        let c = match parse_condition(kind, value, address) {
            Ok(c) => c,
            Err(e) => {
                self.rule_editor_error = Some(e.message());
                return ConditionEdit::Invalid(e);
            },
        };
        if index >= self.rules[i].conditions.len() {
            self.rule_editor_error = Some(String::from_str("条件索引已失效，请刷新规则页"));
            return ConditionEdit::StaleIndex;
        }
        let ghost before = self.rules@;
        let ghost old_conds = self.rules@[i as int].conditions@;
        self.rules[i].conditions.set(index, c);
        assert(self.rules@[i as int].conditions@.map_values(|c: Condition| c@) =~= old_conds.map_values(
            |c: Condition| c@,
        ).update(index as int, c@));
        assert(rules_view(self.rules@) =~= rules_view(before).update(
            i as int,
            RuleModel {
                conditions: rules_view(before)[i as int].conditions.update(index as int, c@),
                ..rules_view(before)[i as int]
            },
        ));
        ConditionEdit::Replaced
    }

    /// Records the verdict of validating the edited rules: its error, or no
    /// error and a save.
    pub fn finish_rule_edit(&mut self, verdict: Option<String>) -> (saved: bool)
        ensures
            saved == (verdict is None),
            match verdict {
                Some(e) => opt_view(final(self).rule_editor_error) == Some("规则校验失败："@ + e@),
                None => final(self).rule_editor_error is None,
            },
            final(self).rules@ == old(self).rules@,
            final(self).groups@ == old(self).groups@,
            final(self).rule_sets@ == old(self).rule_sets@,
            final(self).group_error == old(self).group_error,
            final(self).rule_set_error == old(self).rule_set_error,
    {
        match verdict {
            Some(e) => {
                self.rule_editor_error = Some(String::from_str("规则校验失败：").concat(e.as_str()));
                false
            },
            None => {
                self.rule_editor_error = None;
                true
            },
        }
    }
}

/// The kind an editor row shows for a condition.
pub open spec fn editor_kind(c: ConditionModel) -> Seq<char> {
    match c {
        ConditionModel::Domain(_) => "domain"@,
        ConditionModel::DomainSuffix(_) => "domain_suffix"@,
        ConditionModel::IpCidr { .. } => "ip_cidr"@,
        ConditionModel::Port(_) => "port"@,
        ConditionModel::Process(_) => "process"@,
        ConditionModel::RuleSet(_) => "rule_set"@,
        ConditionModel::Any => "any"@,
    }
}

/// The value an editor row shows for a condition; a CIDR network is shown
/// as `network_text`, the way the address is written.
pub open spec fn editor_value(c: ConditionModel, network_text: Seq<char>) -> Seq<char> {
    match c {
        ConditionModel::Domain(s) => s,
        ConditionModel::DomainSuffix(s) => s,
        ConditionModel::IpCidr { prefix, .. } => network_text + seq!['/'] + decimal(prefix as nat),
        ConditionModel::Port(p) => decimal(p as nat),
        ConditionModel::Process(s) => s,
        ConditionModel::RuleSet(s) => s,
        ConditionModel::Any => Seq::empty(),
    }
}

/// The kind and value an editor row shows for a condition. `network_text`
/// is how the network of a CIDR condition is written; other kinds ignore it.
pub fn condition_editor_value(condition: &Condition, network_text: &str) -> (r: (String, String))
    ensures
        r.0@ == editor_kind(condition@),
        r.1@ == editor_value(condition@, network_text@),
{
    match condition {
        Condition::Domain(v) => (String::from_str("domain"), v.clone()),
        Condition::DomainSuffix(v) => (String::from_str("domain_suffix"), v.clone()),
        Condition::IpCidr { prefix, .. } => {
            proof {
                reveal_strlit("/");
            }
            let head = String::from_str(network_text).concat("/");
            (String::from_str("ip_cidr"), numbered(head.as_str(), *prefix as u64))
        },
        Condition::Port(p) => {
            proof {
                reveal_strlit("");
            }
            (String::from_str("port"), numbered("", *p as u64))
        },
        Condition::Process(v) => (String::from_str("process"), v.clone()),
        Condition::RuleSet(v) => (String::from_str("rule_set"), v.clone()),
        Condition::Any => (String::from_str("any"), String::new()),
    }
}

/// Text with nothing to trim at its ends is left as it is.
proof fn lemma_trim_unchanged(s: Seq<char>)
    requires
        s.len() > 0,
        !is_space(s[0]),
        !is_space(s.last()),
    ensures
        trim(s) == s,
{
}

/// What the editor shows for a condition reads back as that condition.
/// A text condition must be as the editor keeps it (non-empty, trimmed); a
/// CIDR network must be written without white space in front and without
/// `/`, and read back by the address parser as the same network.
pub proof fn law_editor_value_reads_back(c: ConditionModel, network_text: Seq<char>, address: Option<IpAddress>)
    requires
        match c {
            ConditionModel::Domain(s) => s.len() > 0 && trim(s) == s,
            ConditionModel::DomainSuffix(s) => s.len() > 0 && trim(s) == s,
            ConditionModel::Process(s) => s.len() > 0 && trim(s) == s,
            ConditionModel::RuleSet(s) => s.len() > 0 && trim(s) == s,
            ConditionModel::IpCidr { network, .. } => {
                &&& address == Some(network)
                &&& network_text.len() > 0
                &&& !is_space(network_text[0])
                &&& forall|i: int| 0 <= i < network_text.len() ==> network_text[i] != '/'
            },
            _ => true,
        },
    ensures
        condition_from(editor_kind(c), editor_value(c, network_text), address) == Ok::<ConditionModel, ConditionError>(c),
{
    reveal_strlit("domain");
    reveal_strlit("domain_suffix");
    reveal_strlit("ip_cidr");
    reveal_strlit("port");
    reveal_strlit("process");
    reveal_strlit("rule_set");
    reveal_strlit("any");
    match c {
        ConditionModel::IpCidr { network, prefix } => {
            let d = decimal(prefix as nat);
            lemma_decimal_reads_back(prefix as nat);
            let v = network_text + seq!['/'] + d;
            assert(v[0] == network_text[0]);
            assert(v.last() == d.last());
            assert('0' <= d[d.len() - 1] <= '9');
            lemma_trim_unchanged(v);
            assert forall|j: int| network_text.len() < j < v.len() implies v[j] != '/' by {
                assert(v[j] == d[j - network_text.len() - 1]);
            }
            lemma_last_index_at(v, '/', network_text.len() as int);
            assert(v.skip(network_text.len() as int + 1) =~= d);
            assert(d[0] != '+');
            assert(trim(v) == v);
            assert(last_index_of(v, '/') == network_text.len());
            assert(parse_u8(d) == Some(prefix));
            assert("ip_cidr"@.len() == 7 && "domain"@.len() == 6 && "domain_suffix"@.len() == 13);
            assert("ip_cidr"@[0] != "process"@[0]);
            assert("rule_set"@.len() == 8);
        },
        ConditionModel::Port(p) => {
            let d = decimal(p as nat);
            lemma_decimal_reads_back(p as nat);
            assert('0' <= d[0] <= '9');
            assert('0' <= d[d.len() - 1] <= '9');
            lemma_trim_unchanged(d);
            assert("port"@.len() == 4 && "process"@.len() == 7 && "domain"@.len() == 6);
            assert("domain_suffix"@.len() == 13 && "rule_set"@.len() == 8 && "ip_cidr"@.len() == 7);
            assert(parse_u16(d) == Some(p));
        },
        ConditionModel::DomainSuffix(_) => {
            assert("domain_suffix"@.len() == 13 && "domain"@.len() == 6);
        },
        ConditionModel::Process(_) => {
            assert("process"@.len() == 7 && "domain"@.len() == 6 && "domain_suffix"@.len() == 13);
        },
        ConditionModel::RuleSet(_) => {
            assert("rule_set"@.len() == 8 && "process"@.len() == 7 && "domain"@.len() == 6);
            assert("domain_suffix"@.len() == 13);
        },
        ConditionModel::Any => {
            assert("any"@.len() == 3 && "process"@.len() == 7 && "domain"@.len() == 6);
            assert("domain_suffix"@.len() == 13 && "rule_set"@.len() == 8 && "ip_cidr"@.len() == 7);
            assert("port"@.len() == 4);
        },
        _ => {},
    }
}

} // verus!
