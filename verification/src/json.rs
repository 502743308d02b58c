//! JSON values as the library reads and writes them, and parsing JSON text.
use vstd::prelude::*;

use crate::text::{digits_u64, digits_u64_spec, str_eq};

verus! {

/// A JSON value. Numbers are kept as their JSON text; object entries in order.
#[derive(Debug)]
pub enum Json {
    Null,
    Bool(bool),
    Number(String),
    Str(String),
    Array(Vec<Json>),
    Object(Vec<(String, Json)>),
}

/// The mathematical form of a JSON value.
#[verifier::ext_equal]
pub ghost enum JsonV {
    Null,
    Bool(bool),
    Number(Seq<char>),
    Str(Seq<char>),
    Array(Seq<JsonV>),
    Object(Seq<(Seq<char>, JsonV)>),
}

/// The mathematical form of `j`.
pub open spec fn json_view(j: Json) -> JsonV
    decreases j,
{
    match j {
        Json::Null => JsonV::Null,
        Json::Bool(b) => JsonV::Bool(b),
        Json::Number(s) => JsonV::Number(s@),
        Json::Str(s) => JsonV::Str(s@),
        Json::Array(v) => JsonV::Array(
            Seq::new(v@.len(), |i: int| if 0 <= i < v@.len() { json_view(v@[i]) } else { JsonV::Null }),
        ),
        Json::Object(v) => JsonV::Object(
            Seq::new(
                v@.len(),
                |i: int|
                    if 0 <= i < v@.len() {
                        (v@[i].0@, json_view(v@[i].1))
                    } else {
                        (seq![], JsonV::Null)
                    },
            ),
        ),
    }
}

impl View for Json {
    type V = JsonV;

    open spec fn view(&self) -> JsonV {
        json_view(*self)
    }
}

impl Json {
    /// A copy of the value.
    #[verifier::loop_isolation(false)]
    pub fn duplicate(&self) -> (res: Json)
        ensures
            res@ == self@,
        decreases self,
    {
        match self {
            Json::Null => Json::Null,
            Json::Bool(b) => Json::Bool(*b),
            Json::Number(s) => Json::Number(s.clone()),
            Json::Str(s) => Json::Str(s.clone()),
            Json::Array(v) => {
                let mut out: Vec<Json> = Vec::new();
                for i in 0..v.len()
                    invariant
                        out@.len() == i,
                        forall|k: int| 0 <= k < i ==> json_view(#[trigger] out@[k]) == json_view(v@[k]),
                {
                    proof {
                        assert(decreases_to!(self => v@[i as int]));
                    }
                    let x = v[i].duplicate();
                    out.push(x);
                }
                let ghost a = Seq::new(
                    out@.len(),
                    |i: int| if 0 <= i < out@.len() { json_view(out@[i]) } else { JsonV::Null },
                );
                let ghost b = Seq::new(
                    v@.len(),
                    |i: int| if 0 <= i < v@.len() { json_view(v@[i]) } else { JsonV::Null },
                );
                assert(a =~= b);
                let res = Json::Array(out);
                assert(json_view(res) == JsonV::Array(a)) by {
                    assert(json_view(res)->Array_0 =~= a);
                }
                assert(json_view(*self) == JsonV::Array(b)) by {
                    assert(json_view(*self)->Array_0 =~= b);
                }
                res
            },
            Json::Object(v) => {
                let mut out: Vec<(String, Json)> = Vec::new();
                for i in 0..v.len()
                    invariant
                        out@.len() == i,
                        forall|k: int|
                            0 <= k < i ==> (#[trigger] out@[k]).0@ == v@[k].0@ && json_view(out@[k].1)
                                == json_view(v@[k].1),
                {
                    proof {
                        assert(decreases_to!(self => v@[i as int].1));
                    }
                    let x = v[i].1.duplicate();
                    out.push((v[i].0.clone(), x));
                }
                let ghost a = Seq::new(
                    out@.len(),
                    |i: int|
                        if 0 <= i < out@.len() {
                            (out@[i].0@, json_view(out@[i].1))
                        } else {
                            (seq![], JsonV::Null)
                        },
                );
                let ghost b = Seq::new(
                    v@.len(),
                    |i: int|
                        if 0 <= i < v@.len() {
                            (v@[i].0@, json_view(v@[i].1))
                        } else {
                            (seq![], JsonV::Null)
                        },
                );
                assert(a =~= b);
                let res = Json::Object(out);
                assert(json_view(res) == JsonV::Object(a)) by {
                    assert(json_view(res)->Object_0 =~= a);
                }
                assert(json_view(*self) == JsonV::Object(b)) by {
                    assert(json_view(*self)->Object_0 =~= b);
                }
                res
            },
        }
    }
}

/// The mathematical form of a list of object entries.
pub open spec fn entries_view(es: Seq<(String, Json)>) -> Seq<(Seq<char>, JsonV)> {
    Seq::new(es.len(), |i: int| (es[i].0@, es[i].1@))
}

/// The mathematical form of a list of array items.
pub open spec fn items_view(v: Seq<Json>) -> Seq<JsonV> {
    Seq::new(v.len(), |i: int| v[i]@)
}

proof fn lemma_object_view(v: Vec<(String, Json)>)
    ensures
        Json::Object(v)@ == JsonV::Object(entries_view(v@)),
{
    assert(json_view(Json::Object(v))->Object_0 =~= entries_view(v@));
}

proof fn lemma_array_view(v: Vec<Json>)
    ensures
        Json::Array(v)@ == JsonV::Array(items_view(v@)),
{
    assert(json_view(Json::Array(v))->Array_0 =~= items_view(v@));
}

/// An object with the given entries, in order.
pub fn json_object(entries: Vec<(String, Json)>) -> (res: Json)
    ensures
        res@ == JsonV::Object(entries_view(entries@)),
{
    proof {
        lemma_object_view(entries);
    }
    Json::Object(entries)
}

/// An array with the given items, in order.
pub fn json_array(items: Vec<Json>) -> (res: Json)
    ensures
        res@ == JsonV::Array(items_view(items@)),
{
    proof {
        lemma_array_view(items);
    }
    Json::Array(items)
}

/// An entry `key: value` of an object.
pub fn json_entry(key: &str, value: Json) -> (res: (String, Json))
    ensures
        res.0@ == key@,
        res.1 == value,
{
    (String::from_str(key), value)
}

// ---------------------------------------------------------------------------
// Parsing
// ---------------------------------------------------------------------------

#[verifier::external_type_specification]
#[verifier::external_body]
pub struct ExValue(serde_json::Value);

/// What `serde_json::from_str::<serde_json::Value>` makes of a text: the JSON
/// value (object entries in the order of its map, numbers as their text), or
/// the error's message.
pub uninterp spec fn json_parse_spec(text: Seq<char>) -> Result<JsonV, Seq<char>>;

/// Converts a `serde_json::Value` into the library's form, one variant for one.
#[verifier::external_body]
fn json_from_value(v: serde_json::Value) -> Json {
    match v {
        serde_json::Value::Null => Json::Null,
        serde_json::Value::Bool(b) => Json::Bool(b),
        serde_json::Value::Number(n) => Json::Number(n.to_string()),
        serde_json::Value::String(s) => Json::Str(s),
        serde_json::Value::Array(a) => Json::Array(a.into_iter().map(json_from_value).collect()),
        serde_json::Value::Object(m) => Json::Object(
            m.into_iter().map(|(k, x)| (k, json_from_value(x))).collect(),
        ),
    }
}

/// Trusted: `serde_json::from_str::<serde_json::Value>`. The result is what
/// that function makes of the text (named [`json_parse_spec`]): the value, or
/// the message of its error. Nothing more is stated of it.
#[verifier::external_body]
pub(crate) fn parse_json(text: &str) -> (res: Result<Json, String>)
    ensures
        json_result_view(res) == json_parse_spec(text@),
{
    match serde_json::from_str::<serde_json::Value>(text) {
        Ok(v) => Ok(json_from_value(v)),
        Err(e) => Err(e.to_string()),
    }
}

/// The view of a parse result.
pub open spec fn json_result_view(r: Result<Json, String>) -> Result<JsonV, Seq<char>> {
    match r {
        Ok(j) => Ok(j@),
        Err(e) => Err(e@),
    }
}

// ---------------------------------------------------------------------------
// Reading values
// ---------------------------------------------------------------------------

/// The value of the first entry named `key` in a list of object entries.
pub open spec fn entry_lookup(es: Seq<(Seq<char>, JsonV)>, key: Seq<char>) -> Option<JsonV>
    decreases es.len(),
{
    if es.len() == 0 {
        None
    } else if es[0].0 == key {
        Some(es[0].1)
    } else {
        entry_lookup(es.drop_first(), key)
    }
}

/// `Value::get(key)`: the entry `key` of an object; nothing for any other value.
pub open spec fn json_get(j: JsonV, key: Seq<char>) -> Option<JsonV> {
    match j {
        JsonV::Object(es) => entry_lookup(es, key),
        _ => None,
    }
}

/// `as_str`: the text of a string value.
pub open spec fn json_str(j: Option<JsonV>) -> Option<Seq<char>> {
    match j {
        Some(JsonV::Str(s)) => Some(s),
        _ => None,
    }
}

/// `as_bool`: the value of a boolean.
pub open spec fn json_bool(j: Option<JsonV>) -> Option<bool> {
    match j {
        Some(JsonV::Bool(b)) => Some(b),
        _ => None,
    }
}

/// `as_u64`: the value of a number written as a plain decimal numeral that
/// fits in a `u64` (a non-negative integer).
pub open spec fn json_u64(j: Option<JsonV>) -> Option<nat> {
    match j {
        Some(JsonV::Number(t)) => digits_u64_spec(t),
        _ => None,
    }
}

impl Json {
    /// The entry `key` of an object, if it is one and has it.
    pub fn get(&self, key: &str) -> (res: Option<&Json>)
        ensures
            match res {
                Some(v) => json_get(self@, key@) == Some(v@),
                None => json_get(self@, key@) is None,
            },
    {
        match self {
            Json::Object(v) => {
                let ghost es = match self@ {
                    JsonV::Object(es) => es,
                    _ => seq![],
                };
                assert(es.skip(0) =~= es);
                let mut i: usize = 0;
                while i < v.len()
                    invariant
                        i <= v@.len(),
                        es.len() == v@.len(),
                        json_get(self@, key@) == entry_lookup(es, key@),
                        forall|k: int| 0 <= k < v@.len() ==> #[trigger] es[k] == (v@[k].0@, json_view(v@[k].1)),
                        entry_lookup(es, key@) == entry_lookup(es.skip(i as int), key@),
                    decreases v@.len() - i,
                {
                    assert(es.skip(i as int)[0] == es[i as int]);
                    if str_eq(v[i].0.as_str(), key) {
                        assert(es[i as int] == (key@, v@[i as int].1@));
                        assert(entry_lookup(es.skip(i as int), key@) == Some(v@[i as int].1@));
                        return Some(&v[i].1);
                    }
                    assert(es.skip(i as int).drop_first() =~= es.skip(i + 1));
                    i = i + 1;
                }
                assert(es.skip(i as int) =~= Seq::<(Seq<char>, JsonV)>::empty());
                None
            },
            _ => None,
        }
    }

    /// The text of a string value.
    pub fn as_str(&self) -> (res: Option<&str>)
        ensures
            match res {
                Some(s) => json_str(Some(self@)) == Some(s@),
                None => json_str(Some(self@)) is None,
            },
    {
        match self {
            Json::Str(s) => Some(s.as_str()),
            _ => None,
        }
    }

    /// The value of a boolean.
    pub fn as_bool(&self) -> (res: Option<bool>)
        ensures
            res == json_bool(Some(self@)),
    {
        match self {
            Json::Bool(b) => Some(*b),
            _ => None,
        }
    }

    /// The value of a non-negative integer that fits in a `u64`.
    pub fn as_u64(&self) -> (res: Option<u64>)
        ensures
            match res {
                Some(v) => json_u64(Some(self@)) == Some(v as nat),
                None => json_u64(Some(self@)) is None,
            },
    {
        match self {
            Json::Number(t) => digits_u64(t.as_str()),
            _ => None,
        }
    }
}

/// The text of the string entry `key` of `j`, if there is one.
pub fn get_str<'a>(j: &'a Json, key: &str) -> (res: Option<&'a str>)
    ensures
        match res {
            Some(s) => json_str(json_get(j@, key@)) == Some(s@),
            None => json_str(json_get(j@, key@)) is None,
        },
{
    match j.get(key) {
        Some(v) => v.as_str(),
        None => None,
    }
}

/// A string value.
pub fn json_string(s: &str) -> (res: Json)
    ensures
        res@ == JsonV::Str(s@),
{
    Json::Str(String::from_str(s))
}

} // verus!
