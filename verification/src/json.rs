//! JSON documents as plain trees.

use vstd::prelude::*;

use crate::text;

verus! {

/// A JSON value. Of a number only the value as a `u64` is kept, where it has
/// one.
#[derive(Debug)]
pub enum Json {
    Null,
    Bool(bool),
    Number(Option<u64>),
    Str(String),
    Array(Vec<Json>),
    Object(Vec<(String, Json)>),
}

pub enum JsonSpec {
    Null,
    Bool(bool),
    Number(Option<u64>),
    Str(Seq<char>),
    Array(Seq<JsonSpec>),
    Object(Seq<(Seq<char>, JsonSpec)>),
}

impl Json {
    pub open spec fn view(&self) -> JsonSpec
        decreases self,
    {
        match *self {
            Json::Null => JsonSpec::Null,
            Json::Bool(b) => JsonSpec::Bool(b),
            Json::Number(n) => JsonSpec::Number(n),
            Json::Str(s) => JsonSpec::Str(s@),
            Json::Array(items) => JsonSpec::Array(
                Seq::new(
                    items@.len(),
                    |i: int|
                        if 0 <= i < items@.len() {
                            items@[i].view()
                        } else {
                            JsonSpec::Null
                        },
                ),
            ),
            Json::Object(fields) => JsonSpec::Object(
                Seq::new(
                    fields@.len(),
                    |i: int|
                        if 0 <= i < fields@.len() {
                            (fields@[i].0@, fields@[i].1.view())
                        } else {
                            (Seq::empty(), JsonSpec::Null)
                        },
                ),
            ),
        }
    }
}

/// The value of the first field named `key`.
pub open spec fn field(fields: Seq<(Seq<char>, JsonSpec)>, key: Seq<char>) -> Option<JsonSpec>
    decreases fields.len(),
{
    if fields.len() == 0 {
        None
    } else if fields[0].0 == key {
        Some(fields[0].1)
    } else {
        field(fields.drop_first(), key)
    }
}

/// A key finds the first field that has it, and nothing if none has.
pub proof fn law_field(
    fields: Seq<(Seq<char>, JsonSpec)>,
    key: Seq<char>,
    other: Seq<char>,
    value: JsonSpec,
)
    ensures
        field(Seq::empty(), key) is None,
        field(seq![(key, value)] + fields, key) == Some(value),
        other != key ==> field(seq![(other, value)] + fields, key) == field(fields, key),
        JsonSpec::Object(fields).get(key) == field(fields, key),
        value !is Object ==> value.get(key) is None,
        JsonSpec::Object(fields).get_str(key) == match field(fields, key) {
            Some(JsonSpec::Str(s)) => Some(s),
            _ => None,
        },
        JsonSpec::Object(fields).get_u64(key) == match field(fields, key) {
            Some(JsonSpec::Number(n)) => n,
            _ => None,
        },
{
    assert((seq![(other, value)] + fields).drop_first() =~= fields);
}

impl JsonSpec {
    /// The value under `key`, if this is an object that has it.
    pub open spec fn get(self, key: Seq<char>) -> Option<JsonSpec> {
        match self {
            JsonSpec::Object(fields) => field(fields, key),
            _ => None,
        }
    }

    /// The value under `key`, if it is a string.
    pub open spec fn get_str(self, key: Seq<char>) -> Option<Seq<char>> {
        match self.get(key) {
            Some(JsonSpec::Str(s)) => Some(s),
            _ => None,
        }
    }

    /// The value under `key`, if it is a number that fits in 64 bits.
    pub open spec fn get_u64(self, key: Seq<char>) -> Option<u64> {
        match self.get(key) {
            Some(JsonSpec::Number(n)) => n,
            _ => None,
        }
    }
}

impl Json {
    /// The value under `key`, if this is an object that has it.
    pub fn get(&self, key: &str) -> (v: Option<&Json>)
        ensures
            match v {
                Some(j) => self@.get(key@) == Some(j@),
                None => self@.get(key@) is None,
            },
    {
        match self {
            Json::Object(fields) => {
                let ghost all = self@->Object_0;
                let n: usize = fields.len();
                assert(all.skip(0) =~= all);
                for i in 0..n
                    invariant
                        n == fields@.len(),
                        n == all.len(),
                        forall|j: int|
                            0 <= j < n ==> #[trigger] all[j] == (fields@[j].0@, fields@[j].1@),
                        field(all.skip(i as int), key@) == field(all, key@),
                        self@.get(key@) == field(all, key@),
                {
                    let ghost here = all.skip(i as int);
                    assert(here[0] == all[i as int]);
                    assert(here.drop_first() =~= all.skip(i + 1));
                    if text::str_eq(fields[i].0.as_str(), key) {
                        return Some(&fields[i].1);
                    }
                }
                None
            },
            _ => None,
        }
    }

    /// The characters of a string.
    pub fn as_str(&self) -> (s: Option<&String>)
        ensures
            match s {
                Some(t) => self@ == JsonSpec::Str(t@),
                None => self@ !is Str,
            },
    {
        match self {
            Json::Str(s) => Some(s),
            _ => None,
        }
    }

    /// The value under `key`, if it is a string.
    pub fn get_str(&self, key: &str) -> (s: Option<&String>)
        ensures
            match s {
                Some(t) => self@.get_str(key@) == Some(t@),
                None => self@.get_str(key@) is None,
            },
    {
        match self.get(key) {
            Some(v) => v.as_str(),
            None => None,
        }
    }

    /// The value under `key`, if it is a number that fits in 64 bits.
    pub fn get_u64(&self, key: &str) -> (n: Option<u64>)
        ensures
            n == self@.get_u64(key@),
    {
        match self.get(key) {
            Some(v) => match v {
                Json::Number(n) => *n,
                _ => None,
            },
            None => None,
        }
    }
}

/// `serde_json::Value`: a parsed document.
#[verifier::external_type_specification]
#[verifier::external_body]
pub struct ExValue(serde_json::Value);

/// Moves the fields of a `serde_json::Value` into a [`Json`].
#[verifier::external_body]
fn from_value(value: serde_json::Value) -> Json {
    match value {
        serde_json::Value::Null => Json::Null,
        serde_json::Value::Bool(b) => Json::Bool(b),
        serde_json::Value::Number(n) => Json::Number(n.as_u64()),
        serde_json::Value::String(s) => Json::Str(s),
        serde_json::Value::Array(a) => Json::Array(a.into_iter().map(from_value).collect()),
        serde_json::Value::Object(o) => Json::Object(
            o.into_iter().map(|(k, v)| (k, from_value(v))).collect(),
        ),
    }
}

/// The document that `raw` spells out, or why it is no JSON document.
pub uninterp spec fn document(raw: Seq<u8>) -> core::result::Result<JsonSpec, Seq<char>>;

/// `serde_json::from_slice` into a `serde_json::Value` parses `raw`; the
/// outcome, and the text of the error, depend on the bytes alone.
#[verifier::external_body]
pub(crate) fn parse_json(raw: &[u8]) -> (out: core::result::Result<Json, String>)
    ensures
        match out {
            Ok(j) => document(raw@) == Ok::<JsonSpec, Seq<char>>(j@),
            Err(e) => document(raw@) == Err::<JsonSpec, Seq<char>>(e@),
        },
{
    serde_json::from_slice::<serde_json::Value>(raw).map(from_value).map_err(|e| e.to_string())
}

} // verus!
