//! JSON documents as plain values.
//!
//! Text is read and written by `serde_json`. What it reads is copied into
//! [`Json`], a tree that the rest of the library can reason about. Floating
//! point numbers stay bit patterns: nothing here computes with them.
use vstd::prelude::*;

use crate::text::same_text;

verus! {

/// A JSON number as its readers see it: each field is what the number is in
/// that representation, or `None` where it has none there. `double` is the bit
/// pattern of an IEEE 754 double.
#[derive(Clone, Copy, Debug, PartialEq, Eq, Structural)]
pub struct JsonNumber {
    pub unsigned: Option<u64>,
    pub signed: Option<i64>,
    pub double: Option<u64>,
}

/// The mathematical content of a JSON value. The fields of an object are two
/// sequences of one length: `keys[i]` maps to `values[i]`.
pub enum JsonTree {
    Null,
    Bool(bool),
    Number(JsonNumber),
    Text(Seq<char>),
    List(Seq<JsonTree>),
    Object(Seq<Seq<char>>, Seq<JsonTree>),
}

impl JsonTree {
    /// The object without fields.
    pub open spec fn empty_object() -> JsonTree {
        JsonTree::Object(Seq::empty(), Seq::empty())
    }

    /// The value under `key`; `None` for what is no object and for a missing key.
    pub open spec fn get(self, key: Seq<char>) -> Option<JsonTree> {
        match self {
            JsonTree::Object(keys, values) => if keys.contains(key) {
                Some(values[keys.index_of_first(key)->0])
            } else {
                None
            },
            _ => None,
        }
    }

    pub open spec fn as_bool(self) -> Option<bool> {
        match self {
            JsonTree::Bool(b) => Some(b),
            _ => None,
        }
    }

    pub open spec fn as_text(self) -> Option<Seq<char>> {
        match self {
            JsonTree::Text(s) => Some(s),
            _ => None,
        }
    }

    pub open spec fn as_list(self) -> Option<Seq<JsonTree>> {
        match self {
            JsonTree::List(items) => Some(items),
            _ => None,
        }
    }

    pub open spec fn as_u64(self) -> Option<u64> {
        match self {
            JsonTree::Number(n) => n.unsigned,
            _ => None,
        }
    }

    pub open spec fn as_i64(self) -> Option<i64> {
        match self {
            JsonTree::Number(n) => n.signed,
            _ => None,
        }
    }

    /// The bit pattern of the double that a number stands for.
    pub open spec fn as_double(self) -> Option<u64> {
        match self {
            JsonTree::Number(n) => n.double,
            _ => None,
        }
    }

    /// The boolean under `key`.
    pub open spec fn bool_at(self, key: Seq<char>) -> Option<bool> {
        match self.get(key) {
            Some(v) => v.as_bool(),
            None => None,
        }
    }

    /// The text under `key`.
    pub open spec fn text_at(self, key: Seq<char>) -> Option<Seq<char>> {
        match self.get(key) {
            Some(v) => v.as_text(),
            None => None,
        }
    }

    /// The unsigned integer under `key`.
    pub open spec fn u64_at(self, key: Seq<char>) -> Option<u64> {
        match self.get(key) {
            Some(v) => v.as_u64(),
            None => None,
        }
    }

    /// The signed integer under `key`.
    pub open spec fn i64_at(self, key: Seq<char>) -> Option<i64> {
        match self.get(key) {
            Some(v) => v.as_i64(),
            None => None,
        }
    }

    /// The bit pattern of the double under `key`.
    pub open spec fn double_at(self, key: Seq<char>) -> Option<u64> {
        match self.get(key) {
            Some(v) => v.as_double(),
            None => None,
        }
    }
}

/// A JSON value.
#[derive(Debug)]
pub enum Json {
    Null,
    Bool(bool),
    Number(JsonNumber),
    Text(String),
    List(Vec<Json>),
    Object(Vec<(String, Json)>),
}

/// The text that was handed in is no JSON document.
#[derive(Clone, Copy, Debug, PartialEq, Eq, Structural)]
pub struct NotJson;

impl View for Json {
    type V = JsonTree;

    open spec fn view(&self) -> JsonTree {
        self.tree()
    }
}

impl Json {
    /// The tree that this value stands for.
    pub open spec fn tree(self) -> JsonTree
        decreases self,
    {
        match self {
            Json::Null => JsonTree::Null,
            Json::Bool(b) => JsonTree::Bool(b),
            Json::Number(n) => JsonTree::Number(n),
            Json::Text(s) => JsonTree::Text(s@),
            Json::List(items) => JsonTree::List(
                Seq::new(
                    items@.len(),
                    |i: int|
                        if 0 <= i < items@.len() {
                            items@[i].tree()
                        } else {
                            JsonTree::Null
                        },
                ),
            ),
            Json::Object(fields) => JsonTree::Object(
                Seq::new(fields@.len(), |i: int| fields@[i].0@),
                Seq::new(
                    fields@.len(),
                    |i: int|
                        if 0 <= i < fields@.len() {
                            fields@[i].1.tree()
                        } else {
                            JsonTree::Null
                        },
                ),
            ),
        }
    }

    /// A value with the same content.
    pub fn copy(&self) -> (r: Json)
        ensures
            r@ == self@,
        decreases self,
    {
        match self {
            Json::Null => Json::Null,
            Json::Bool(b) => Json::Bool(*b),
            Json::Number(n) => Json::Number(*n),
            Json::Text(s) => Json::Text(s.clone()),
            Json::List(items) => {
                let mut out: Vec<Json> = Vec::new();
                for i in 0..items.len()
                    invariant
                        *self == Json::List(*items),
                        out@.len() == i,
                        forall|j: int| 0 <= j < i ==> (#[trigger] out@[j])@ == items@[j]@,
                {
                    assert(decreases_to!(*self => (*self)->List_0));
                    assert(decreases_to!(items@ => items@[i as int]));
                    out.push(items[i].copy());
                }
                let r = Json::List(out);
                assert(r.tree()->List_0 =~= self.tree()->List_0);
                r
            },
            Json::Object(fields) => {
                let mut out: Vec<(String, Json)> = Vec::new();
                for i in 0..fields.len()
                    invariant
                        *self == Json::Object(*fields),
                        out@.len() == i,
                        forall|j: int|
                            0 <= j < i ==> (#[trigger] out@[j]).0@ == fields@[j].0@ && out@[j].1@
                                == fields@[j].1@,
                {
                    assert(decreases_to!(*self => (*self)->Object_0));
                    assert(decreases_to!(fields@ => fields@[i as int]));
                    assert(decreases_to!(fields@[i as int] => fields@[i as int].1));
                    out.push((fields[i].0.clone(), fields[i].1.copy()));
                }
                let r = Json::Object(out);
                assert(r.tree()->Object_0 =~= self.tree()->Object_0);
                assert(r.tree()->Object_1 =~= self.tree()->Object_1);
                r
            },
        }
    }

    /// The value under `key`.
    pub fn get(&self, key: &str) -> (r: Option<&Json>)
        ensures
            match r {
                Some(v) => self@.get(key@) == Some(v@),
                None => self@.get(key@) is None,
            },
    {
        match self {
            Json::Object(fields) => {
                let ghost keys = self@->Object_0;
                for i in 0..fields.len()
                    invariant
                        *self == Json::Object(*fields),
                        keys == self@->Object_0,
                        forall|j: int| 0 <= j < i ==> #[trigger] keys[j] != key@,
                {
                    assert(keys[i as int] == fields@[i as int].0@);
                    if same_text(fields[i].0.as_str(), key) {
                        proof {
                            keys.index_of_first_ensures(key@);
                            let k = keys.index_of_first(key@)->0;
                            assert(keys[k] == key@);
                            assert(k == i as int);
                        }
                        return Some(&fields[i].1);
                    }
                }
                None
            },
            _ => None,
        }
    }

    pub fn is_null(&self) -> (r: bool)
        ensures
            r == (self@ == JsonTree::Null),
    {
        match self {
            Json::Null => true,
            _ => false,
        }
    }

    pub fn as_bool(&self) -> (r: Option<bool>)
        ensures
            r == self@.as_bool(),
    {
        match self {
            Json::Bool(b) => Some(*b),
            _ => None,
        }
    }

    pub fn as_text(&self) -> (r: Option<&str>)
        ensures
            match r {
                Some(s) => self@.as_text() == Some(s@),
                None => self@.as_text() is None,
            },
    {
        match self {
            Json::Text(s) => Some(s.as_str()),
            _ => None,
        }
    }

    pub fn as_list(&self) -> (r: Option<&Vec<Json>>)
        ensures
            match r {
                Some(items) => {
                    &&& self@.as_list() is Some
                    &&& self@.as_list()->0.len() == items@.len()
                    &&& forall|i: int|
                        0 <= i < items@.len() ==> (#[trigger] items@[i])@ == self@.as_list()->0[i]
                },
                None => self@.as_list() is None,
            },
    {
        match self {
            Json::List(items) => Some(items),
            _ => None,
        }
    }

    /// The boolean under `key`.
    pub fn bool_at(&self, key: &str) -> (r: Option<bool>)
        ensures
            r == self@.bool_at(key@),
    {
        match self.get(key) {
            Some(v) => v.as_bool(),
            None => None,
        }
    }

    /// The text under `key`.
    pub fn text_at(&self, key: &str) -> (r: Option<&str>)
        ensures
            match r {
                Some(s) => self@.text_at(key@) == Some(s@),
                None => self@.text_at(key@) is None,
            },
    {
        match self.get(key) {
            Some(v) => v.as_text(),
            None => None,
        }
    }

    /// The unsigned integer under `key`.
    pub fn u64_at(&self, key: &str) -> (r: Option<u64>)
        ensures
            r == self@.u64_at(key@),
    {
        match self.get(key) {
            Some(Json::Number(n)) => n.unsigned,
            _ => None,
        }
    }

    /// The signed integer under `key`.
    pub fn i64_at(&self, key: &str) -> (r: Option<i64>)
        ensures
            r == self@.i64_at(key@),
    {
        match self.get(key) {
            Some(Json::Number(n)) => n.signed,
            _ => None,
        }
    }

    /// The bit pattern of the double under `key`.
    pub fn double_at(&self, key: &str) -> (r: Option<u64>)
        ensures
            r == self@.double_at(key@),
    {
        match self.get(key) {
            Some(Json::Number(n)) => n.double,
            _ => None,
        }
    }
}

/// A value of `serde_json`, whose content [`value_tree`] names.
#[verifier::external_type_specification]
#[verifier::external_body]
pub struct ExValue(serde_json::Value);

/// The error of `serde_json`, carried and never looked into.
#[verifier::external_type_specification]
#[verifier::external_body]
pub struct ExJsonError(serde_json::Error);

/// What a `serde_json::Value` holds.
pub uninterp spec fn value_tree(v: serde_json::Value) -> JsonTree;

/// The document that `serde_json` reads in `text`; `None` where it reads none.
pub uninterp spec fn json_document(text: Seq<u8>) -> Option<JsonTree>;

/// What a `serde_json::Value` is, one level deep.
enum Parts<'a> {
    Null,
    Bool(bool),
    Number(JsonNumber),
    Text(String),
    List(&'a Vec<serde_json::Value>),
    Object(Vec<(String, &'a serde_json::Value)>),
}

impl<'a> Parts<'a> {
    spec fn tree(self) -> JsonTree {
        match self {
            Parts::Null => JsonTree::Null,
            Parts::Bool(b) => JsonTree::Bool(b),
            Parts::Number(n) => JsonTree::Number(n),
            Parts::Text(s) => JsonTree::Text(s@),
            Parts::List(items) => JsonTree::List(
                Seq::new(items@.len(), |i: int| value_tree(items@[i])),
            ),
            Parts::Object(fields) => JsonTree::Object(
                Seq::new(fields@.len(), |i: int| fields@[i].0@),
                Seq::new(fields@.len(), |i: int| value_tree(*fields@[i].1)),
            ),
        }
    }
}

/// Calls `serde_json::from_slice`. Its outcome is a function of the text, which
/// [`json_document`] names: a value with that content, or an error where there
/// is none.
#[verifier::external_body]
fn from_slice(text: &[u8]) -> (r: Result<serde_json::Value, serde_json::Error>)
    ensures
        match r {
            Ok(v) => json_document(text@) == Some(value_tree(v)),
            Err(_) => json_document(text@) is None,
        },
{
    serde_json::from_slice(text)
}

/// Tells the variants of `serde_json::Value` apart and hands out what each
/// holds: scalars as they are (a number through `as_u64`, `as_i64` and
/// `as_f64`, the last as its bits), the items of an array in order, the entries
/// of an object in the order in which its map is walked.
#[verifier::external_body]
fn parts(v: &serde_json::Value) -> (r: Parts<'_>)
    ensures
        r.tree() == value_tree(*v),
{
    match v {
        serde_json::Value::Null => Parts::Null,
        serde_json::Value::Bool(b) => Parts::Bool(*b),
        serde_json::Value::Number(n) => Parts::Number(JsonNumber {
            unsigned: n.as_u64(),
            signed: n.as_i64(),
            double: n.as_f64().map(|x| x.to_bits()),
        }),
        serde_json::Value::String(s) => Parts::Text(s.clone()),
        serde_json::Value::Array(a) => Parts::List(a),
        serde_json::Value::Object(m) => Parts::Object(m.iter().map(|(k, x)| (k.clone(), x)).collect()),
    }
}

/// Copies a `serde_json::Value` into a tree of this library.
fn from_value(v: &serde_json::Value) -> (r: Json)
    ensures
        r@ == value_tree(*v),
    decreases value_tree(*v),
{
    match parts(v) {
        Parts::Null => Json::Null,
        Parts::Bool(b) => Json::Bool(b),
        Parts::Number(n) => Json::Number(n),
        Parts::Text(s) => Json::Text(s),
        Parts::List(items) => {
            let mut out: Vec<Json> = Vec::new();
            let ghost values = value_tree(*v)->List_0;
            for i in 0..items.len()
                invariant
                    value_tree(*v) == JsonTree::List(values),
                    values == Seq::new(items@.len(), |j: int| value_tree(items@[j])),
                    out@.len() == i,
                    forall|j: int| 0 <= j < i ==> (#[trigger] out@[j])@ == values[j],
            {
                assert(values[i as int] == value_tree(items@[i as int]));
                assert(decreases_to!(value_tree(*v) => value_tree(*v)->List_0));
                assert(decreases_to!(values => values[i as int]));
                out.push(from_value(&items[i]));
            }
            let r = Json::List(out);
            assert(r.tree()->List_0 =~= values);
            r
        },
        Parts::Object(fields) => {
            let mut out: Vec<(String, Json)> = Vec::new();
            let ghost keys = value_tree(*v)->Object_0;
            let ghost values = value_tree(*v)->Object_1;
            for i in 0..fields.len()
                invariant
                    value_tree(*v) == JsonTree::Object(keys, values),
                    keys == Seq::new(fields@.len(), |j: int| fields@[j].0@),
                    values == Seq::new(fields@.len(), |j: int| value_tree(*fields@[j].1)),
                    out@.len() == i,
                    forall|j: int|
                        0 <= j < i ==> (#[trigger] out@[j]).0@ == keys[j] && out@[j].1@
                            == values[j],
            {
                assert(values[i as int] == value_tree(*fields@[i as int].1));
                assert(decreases_to!(value_tree(*v) => value_tree(*v)->Object_1));
                assert(decreases_to!(values => values[i as int]));
                out.push((fields[i].0.clone(), from_value(fields[i].1)));
            }
            let r = Json::Object(out);
            assert(r.tree()->Object_0 =~= keys);
            assert(r.tree()->Object_1 =~= values);
            r
        },
    }
}

/// What reading a document came to: the named document as a tree.
pub open spec fn reads(r: Result<Json, NotJson>, document: Option<JsonTree>) -> bool {
    match r {
        Ok(j) => document == Some(j@),
        Err(_) => document is None,
    }
}

/// Reads the JSON document in `text`.
pub fn parse_json(text: &[u8]) -> (r: Result<Json, NotJson>)
    ensures
        reads(r, json_document(text@)),
{
    match from_slice(text) {
        Ok(v) => Ok(from_value(&v)),
        Err(_) => Err(NotJson),
    }
}

/// What stands under the one key of an object that this library writes.
#[derive(Clone, Copy, Debug, PartialEq, Eq, Structural)]
pub enum JsonScalar {
    Unsigned(u32),
    Flag(bool),
}

/// Whether `t` is the object with the one field `key`, which holds `value`. Of
/// a number the integer readings are fixed.
pub open spec fn is_single_field(t: JsonTree, key: Seq<char>, value: JsonScalar) -> bool {
    &&& t matches JsonTree::Object(keys, values)
    &&& keys == seq![key]
    &&& values.len() == 1
    &&& match value {
        JsonScalar::Unsigned(n) => {
            &&& values[0].as_u64() == Some(n as u64)
            &&& values[0].as_i64() == Some(n as i64)
        },
        JsonScalar::Flag(b) => values[0] == JsonTree::Bool(b),
    }
}

/// Whether a text stands in JSON as it is: it holds printable ASCII, without
/// quotation marks and backslashes.
pub open spec fn is_plain(s: Seq<char>) -> bool {
    forall|i: int|
        0 <= i < s.len() ==> ' ' <= (#[trigger] s[i]) <= '~' && s[i] != '"' && s[i] != '\\'
}

/// The bytes of a text in ASCII.
pub open spec fn ascii(s: Seq<char>) -> Seq<u8> {
    s.map_values(|c: char| c as u8)
}

/// The text of a scalar.
pub open spec fn scalar_text(value: JsonScalar) -> Seq<char> {
    match value {
        JsonScalar::Unsigned(n) => crate::text::decimal(n as nat),
        JsonScalar::Flag(true) => "true"@,
        JsonScalar::Flag(false) => "false"@,
    }
}

/// The text of the object with the one field `key`, without any white space.
pub open spec fn single_field_text(key: Seq<char>, value: JsonScalar) -> Seq<u8> {
    ascii(seq!['{', '"'] + key + seq!['"', ':'] + scalar_text(value) + seq!['}'])
}

/// Calls `serde_json::to_vec` on an object with one field, whose key needs no
/// escapes. The text is the compact one, and reading it gives that object back.
#[verifier::external_body]
pub(crate) fn write_single_field(key: &str, value: JsonScalar) -> (r: Vec<u8>)
    requires
        is_plain(key@),
    ensures
        r@ == single_field_text(key@, value),
        json_document(r@) is Some,
        is_single_field(json_document(r@)->0, key@, value),
{
    let mut object = serde_json::Map::new();
    let content = match value {
        JsonScalar::Unsigned(n) => serde_json::Value::from(n),
        JsonScalar::Flag(b) => serde_json::Value::from(b),
    };
    object.insert(key.to_string(), content);
    serde_json::to_vec(&object).unwrap_or_default()
}

/// Under a key of an object stands the value of the first field with that key.
/// Under any other one nothing does, nor in what is no object.
pub proof fn keys_find_their_first_field(
    keys: Seq<Seq<char>>,
    values: Seq<JsonTree>,
    i: int,
    key: Seq<char>,
)
    ensures
        0 <= i < keys.len() && keys[i] == key && (forall|j: int|
            0 <= j < i ==> #[trigger] keys[j] != key) ==> JsonTree::Object(keys, values).get(key)
            == Some(values[i]),
        !keys.contains(key) ==> JsonTree::Object(keys, values).get(key) is None,
        JsonTree::List(values).get(key) is None,
        JsonTree::Text(key).get(key) is None,
        JsonTree::Null.get(key) is None,
{
    if keys.contains(key) {
        keys.index_of_first_ensures(key);
        let k = keys.index_of_first(key)->0;
        assert(keys[k] == key);
        if 0 <= i < keys.len() && keys[i] == key {
            assert(k <= i);
        }
    }
}

/// What is read under a key is what stands there, if it is of the type that is
/// asked for, and nothing otherwise: a text is no number, and a number no boolean.
pub proof fn values_are_read_by_their_type(t: JsonTree, key: Seq<char>)
    ensures
        t.bool_at(key) == match t.get(key) {
            Some(JsonTree::Bool(b)) => Some(b),
            _ => None,
        },
        t.text_at(key) == match t.get(key) {
            Some(JsonTree::Text(s)) => Some(s),
            _ => None,
        },
        t.u64_at(key) == match t.get(key) {
            Some(JsonTree::Number(n)) => n.unsigned,
            _ => None,
        },
        t.i64_at(key) == match t.get(key) {
            Some(JsonTree::Number(n)) => n.signed,
            _ => None,
        },
        t.double_at(key) == match t.get(key) {
            Some(JsonTree::Number(n)) => n.double,
            _ => None,
        },
        t.as_list() == match t {
            JsonTree::List(items) => Some(items),
            _ => None,
        },
{
}

} // verus!
