//! JSON documents as `vpm` reads them from npm and from package metadata.
use vstd::prelude::*;

use crate::text::{str_eq, trim, trimmed, is_blank};

verus! {

/// A JSON value; numbers are kept as their text.
pub enum JsonValue {
    Null,
    Bool(bool),
    Number(String),
    Str(String),
    Array(Vec<JsonValue>),
    Object(Vec<(String, JsonValue)>),
}

#[verifier::external_type_specification]
#[verifier::external_body]
pub struct ExSerdeJsonValue(serde_json::Value);

/// What `serde_json::from_str::<serde_json::Value>` makes of a text, in the
/// library's form: `None` when the text is not JSON. It depends on the text
/// alone.
pub uninterp spec fn json_text_value(text: Seq<char>) -> Option<JsonValue>;

/// A `serde_json::Value` in the library's form, variant for variant: numbers
/// as serde_json prints them, objects in serde_json's key order.
#[verifier::external_body]
fn json_from_serde(v: &serde_json::Value) -> JsonValue {
    match v {
        serde_json::Value::Null => JsonValue::Null,
        serde_json::Value::Bool(b) => JsonValue::Bool(*b),
        serde_json::Value::Number(n) => JsonValue::Number(n.to_string()),
        serde_json::Value::String(t) => JsonValue::Str(t.clone()),
        serde_json::Value::Array(items) => JsonValue::Array(items.iter().map(json_from_serde).collect()),
        serde_json::Value::Object(entries) => JsonValue::Object(
            entries.iter().map(|(k, x)| (k.clone(), json_from_serde(x))).collect(),
        ),
    }
}

/// `serde_json::from_str::<serde_json::Value>`: the JSON value of `text`,
/// or `None` when serde_json refuses it.
#[verifier::external_body]
pub(crate) fn parse_json_text(text: &str) -> (r: Option<JsonValue>)
    ensures
        r == json_text_value(text@),
{
    match serde_json::from_str::<serde_json::Value>(text) {
        Ok(v) => Some(json_from_serde(&v)),
        Err(_) => None,
    }
}

/// The index of the first entry of `entries` with key `key`.
pub open spec fn key_index(entries: Seq<(String, JsonValue)>, key: Seq<char>) -> Option<int>
    decreases entries.len(),
{
    if entries.len() == 0 {
        None
    } else if entries[0].0@ == key {
        Some(0)
    } else {
        match key_index(entries.drop_first(), key) {
            Some(i) => Some(i + 1),
            None => None,
        }
    }
}

/// `value.get(key)`: the member `key` of an object.
pub open spec fn member(v: JsonValue, key: Seq<char>) -> Option<JsonValue> {
    match v {
        JsonValue::Object(entries) => match key_index(entries@, key) {
            Some(i) => Some(entries@[i].1),
            None => None,
        },
        _ => None,
    }
}

/// `value.as_str()`: the text of a string.
pub open spec fn text_of(v: JsonValue) -> Option<Seq<char>> {
    match v {
        JsonValue::Str(s) => Some(s@),
        _ => None,
    }
}

/// The text of member `key`, when it is a string.
pub open spec fn member_text(v: JsonValue, key: Seq<char>) -> Option<Seq<char>> {
    match member(v, key) {
        Some(m) => text_of(m),
        None => None,
    }
}

proof fn lemma_key_index(entries: Seq<(String, JsonValue)>, key: Seq<char>, i: int)
    requires
        0 <= i <= entries.len(),
        forall|j: int| 0 <= j < i ==> (#[trigger] entries[j]).0@ != key,
        i < entries.len() ==> entries[i].0@ == key,
    ensures
        key_index(entries, key) == if i < entries.len() {
            Some(i)
        } else {
            None::<int>
        },
    decreases i,
{
    if i > 0 {
        let rest = entries.drop_first();
        assert forall|j: int| 0 <= j < i - 1 implies (#[trigger] rest[j]).0@ != key by {
            assert(rest[j] == entries[j + 1]);
        }
        lemma_key_index(rest, key, i - 1);
    }
}

impl JsonValue {
    #[verifier::loop_isolation(false)]
    pub fn get(&self, key: &str) -> (r: Option<&JsonValue>)
        ensures
            match r {
                Some(m) => member(*self, key@) == Some(*m),
                None => member(*self, key@) is None,
            },
    {
        match self {
            JsonValue::Object(entries) => {
                let mut i: usize = 0;
                while i < entries.len()
                    invariant
                        i <= entries@.len(),
                        forall|j: int| 0 <= j < i ==> (#[trigger] entries@[j]).0@ != key@,
                    decreases entries.len() - i,
                {
                    if str_eq(entries[i].0.as_str(), key) {
                        proof {
                            lemma_key_index(entries@, key@, i as int);
                        }
                        return Some(&entries[i].1);
                    }
                    i = i + 1;
                }
                proof {
                    lemma_key_index(entries@, key@, i as int);
                }
                None
            },
            _ => None,
        }
    }

    pub fn as_str(&self) -> (r: Option<&str>)
        ensures
            match r {
                Some(s) => text_of(*self) == Some(s@),
                None => text_of(*self) is None,
            },
    {
        match self {
            JsonValue::Str(s) => Some(s.as_str()),
            _ => None,
        }
    }
}

/// The text of member `key` of `v`, when it is a string.
pub fn get_text(v: &JsonValue, key: &str) -> (r: Option<String>)
    ensures
        match r {
            Some(s) => member_text(*v, key@) == Some(s@),
            None => member_text(*v, key@) is None,
        },
{
    match v.get(key) {
        Some(m) => match m.as_str() {
            Some(s) => Some(String::from_str(s)),
            None => None,
        },
        None => None,
    }
}

/// A string value itself, or else the string member `key` of an object
/// (npm writes `repository` and `author` either way).
pub open spec fn text_or_member(v: JsonValue, key: Seq<char>) -> Option<Seq<char>> {
    match text_of(v) {
        Some(s) => Some(s),
        None => member_text(v, key),
    }
}

fn text_or_member_of(v: &JsonValue, key: &str) -> (r: Option<String>)
    ensures
        match r {
            Some(s) => text_or_member(*v, key@) == Some(s@),
            None => text_or_member(*v, key@) is None,
        },
{
    match v.as_str() {
        Some(s) => Some(String::from_str(s)),
        None => get_text(v, key),
    }
}

/// The URL of an npm `repository` field.
pub fn extract_repository_url(value: &JsonValue) -> (r: Option<String>)
    ensures
        match r {
            Some(s) => text_or_member(*value, "url"@) == Some(s@),
            None => text_or_member(*value, "url"@) is None,
        },
{
    text_or_member_of(value, "url")
}

/// The name in an npm `author` field.
pub fn extract_author_name(value: &JsonValue) -> (r: Option<String>)
    ensures
        match r {
            Some(s) => text_or_member(*value, "name"@) == Some(s@),
            None => text_or_member(*value, "name"@) is None,
        },
{
    text_or_member_of(value, "name")
}

/// The version recorded in an earlier import's `package.json`: its
/// `version` string, trimmed, if not blank.
pub open spec fn recorded_version(package_json: JsonValue) -> Option<Seq<char>> {
    match member_text(package_json, "version"@) {
        Some(v) => if trim(v).len() == 0 {
            None
        } else {
            Some(trim(v))
        },
        None => None,
    }
}

/// The version recorded in the text of an earlier import's `package.json`:
/// none when the text is not JSON.
pub fn existing_import_version_of(package_json: &str) -> (r: Option<String>)
    ensures
        match json_text_value(package_json@) {
            Some(v) => match r {
                Some(s) => recorded_version(v) == Some(s@),
                None => recorded_version(v) is None,
            },
            None => r is None,
        },
{
    match parse_json_text(package_json) {
        Some(v) => read_existing_import_version(&v),
        None => None,
    }
}

pub fn read_existing_import_version(package_json: &JsonValue) -> (r: Option<String>)
    ensures
        match r {
            Some(s) => recorded_version(*package_json) == Some(s@),
            None => recorded_version(*package_json) is None,
        },
{
    match get_text(package_json, "version") {
        Some(v) => if is_blank(v.as_str()) {
            None
        } else {
            Some(trimmed(v.as_str()))
        },
        None => None,
    }
}

} // verus!
