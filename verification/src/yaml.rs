//! A YAML document tree and the lookups the subscription parser makes on it.
//!
//! The lookups follow the YAML library's `Value` accessors: each first looks
//! through any tags, then inspects the variant.

use vstd::prelude::*;
use serde_yaml::Value;

verus! {

#[verifier::external_type_specification]
#[verifier::external_body]
pub struct ExYamlLibraryValue(serde_yaml::Value);

/// A YAML number. Floating-point numbers are kept without their value.
#[derive(Debug, Clone)]
pub enum YamlNumber {
    PosInt(u64),
    NegInt(i64),
    Float,
}

/// A YAML value.
pub enum YamlValue {
    Null,
    Bool(bool),
    Number(YamlNumber),
    String(String),
    Sequence(Vec<YamlValue>),
    /// Key-value pairs in document order; keys are distinct.
    Mapping(Vec<(YamlValue, YamlValue)>),
    Tagged(String, Box<YamlValue>),
}

/// The value with all its tags removed.
pub open spec fn untag(v: YamlValue) -> YamlValue
    decreases v,
{
    match v {
        YamlValue::Tagged(_, inner) => untag(*inner),
        _ => v,
    }
}

/// The value of the first entry whose key is the string `key`.
pub open spec fn entry_for(entries: Seq<(YamlValue, YamlValue)>, key: Seq<char>) -> Option<YamlValue>
    decreases entries.len(),
{
    if entries.len() == 0 {
        None
    } else if entries[0].0 matches YamlValue::String(k) && k@ == key {
        Some(entries[0].1)
    } else {
        entry_for(entries.drop_first(), key)
    }
}

/// The value under the string key `key`, if `v` is a mapping that has one.
pub open spec fn yaml_get(v: YamlValue, key: Seq<char>) -> Option<YamlValue> {
    match untag(v) {
        YamlValue::Mapping(entries) => entry_for(entries@, key),
        _ => None,
    }
}

/// The characters of `v` if it is a string.
pub open spec fn yaml_str(v: YamlValue) -> Option<Seq<char>> {
    match untag(v) {
        YamlValue::String(s) => Some(s@),
        _ => None,
    }
}

/// `v` as an unsigned integer, if it is a non-negative integer.
pub open spec fn yaml_u64(v: YamlValue) -> Option<u64> {
    match untag(v) {
        YamlValue::Number(YamlNumber::PosInt(n)) => Some(n),
        _ => None,
    }
}

/// The items of `v` if it is a sequence.
pub open spec fn yaml_seq(v: YamlValue) -> Option<Seq<YamlValue>> {
    match untag(v) {
        YamlValue::Sequence(items) => Some(items@),
        _ => None,
    }
}

/// The string under `key`, if any.
pub open spec fn get_str(v: YamlValue, key: Seq<char>) -> Option<Seq<char>> {
    match yaml_get(v, key) {
        Some(x) => yaml_str(x),
        None => None,
    }
}

/// The unsigned integer under `key`, if any.
pub open spec fn get_u64(v: YamlValue, key: Seq<char>) -> Option<u64> {
    match yaml_get(v, key) {
        Some(x) => yaml_u64(x),
        None => None,
    }
}

/// The sequence under `key`, if any.
pub open spec fn get_seq(v: YamlValue, key: Seq<char>) -> Option<Seq<YamlValue>> {
    match yaml_get(v, key) {
        Some(x) => yaml_seq(x),
        None => None,
    }
}

/// The document tree the YAML library reads from `text`, or none when the
/// text is not a YAML document.
pub uninterp spec fn yaml_document(text: Seq<char>) -> Option<YamlValue>;

/// Trusted: `serde_yaml::from_str` into a `serde_yaml::Value`, converted
/// node by node into the library's tree (integers that fit `u64` or `i64`
/// keep their value, other numbers are floats, tags keep their text). What
/// comes back depends on the text alone; nothing more is claimed of it.
#[verifier::external_body]
pub(crate) fn parse_yaml(text: &str) -> (r: Option<YamlValue>)
    ensures
        r == yaml_document(text@),
{
    match serde_yaml::from_str::<Value>(text) {
        Ok(value) => Some(yaml_tree(&value)),
        Err(_) => None,
    }
}

/// Trusted: the node-by-node conversion `parse_yaml` applies to what the
/// YAML library parsed.
#[verifier::external_body]
fn yaml_tree(value: &Value) -> YamlValue {
    match value {
        Value::Null => YamlValue::Null,
        Value::Bool(b) => YamlValue::Bool(*b),
        Value::Number(n) => YamlValue::Number(
            n.as_u64().map_or(n.as_i64().map_or(YamlNumber::Float, YamlNumber::NegInt), YamlNumber::PosInt),
        ),
        Value::String(s) => YamlValue::String(s.clone()),
        Value::Sequence(items) => YamlValue::Sequence(items.iter().map(yaml_tree).collect()),
        Value::Mapping(m) => YamlValue::Mapping(m.iter().map(|(k, v)| (yaml_tree(k), yaml_tree(v))).collect()),
        Value::Tagged(t) => YamlValue::Tagged(t.tag.to_string(), Box::new(yaml_tree(&t.value))),
    }
}

impl YamlValue {
    /// The value with all its tags removed.
    pub fn untag_ref(&self) -> (r: &YamlValue)
        ensures
            *r == untag(*self),
        decreases self,
    {
        match self {
            YamlValue::Tagged(_, inner) => (**inner).untag_ref(),
            _ => self,
        }
    }

    /// The value under the string key `key`, if this is a mapping with one.
    pub fn get(&self, key: &str) -> (r: Option<&YamlValue>)
        ensures
            match r {
                Some(x) => yaml_get(*self, key@) == Some(*x),
                None => yaml_get(*self, key@) is None,
            },
    {
        let u = self.untag_ref();
        match u {
            YamlValue::Mapping(entries) => {
                assert(untag(*self) == YamlValue::Mapping(*entries));
                assert(yaml_get(*self, key@) == entry_for(entries@, key@));
                assert(entries@.skip(0) =~= entries@);
                let mut i: usize = 0;
                while i < entries.len()
                    invariant
                        i <= entries.len(),
                        entry_for(entries@, key@) == entry_for(entries@.skip(i as int), key@),
                        yaml_get(*self, key@) == entry_for(entries@, key@),
                    decreases entries.len() - i,
                {
                    assert(entries@.skip(i as int)[0] == entries@[i as int]);
                    assert(entries@.skip(i as int).drop_first() =~= entries@.skip(i + 1));
                    match &entries[i].0 {
                        YamlValue::String(k) => {
                            if crate::text::str_eq(k.as_str(), key) {
                                assert(entry_for(entries@.skip(i as int), key@) == Some(entries@[i as int].1));
                                return Some(&entries[i].1);
                            }
                        },
                        _ => {},
                    }
                    i += 1;
                }
                None
            },
            _ => None,
        }
    }

    /// The string, if this is one.
    pub fn as_str(&self) -> (r: Option<&String>)
        ensures
            match r {
                Some(s) => yaml_str(*self) == Some(s@),
                None => yaml_str(*self) is None,
            },
    {
        match self.untag_ref() {
            YamlValue::String(s) => Some(s),
            _ => None,
        }
    }

    /// The unsigned integer, if this is a non-negative integer.
    pub fn as_u64(&self) -> (r: Option<u64>)
        ensures
            r == yaml_u64(*self),
    {
        match self.untag_ref() {
            YamlValue::Number(YamlNumber::PosInt(n)) => Some(*n),
            _ => None,
        }
    }

    /// The items, if this is a sequence.
    pub fn as_sequence(&self) -> (r: Option<&Vec<YamlValue>>)
        ensures
            match r {
                Some(items) => yaml_seq(*self) == Some(items@),
                None => yaml_seq(*self) is None,
            },
    {
        match self.untag_ref() {
            YamlValue::Sequence(items) => Some(items),
            _ => None,
        }
    }
}

} // verus!
