//! JSON documents, built and read with `serde_json`.
//!
//! [`Doc`] is what a document says; the functions here build, read, render and parse
//! `serde_json` values, and their contracts speak of the documents those values hold.

use crate::text;
use serde_json::{Map as JsonMap, Value};
use vstd::prelude::*;
use vstd::utf8;

verus! {

/// A JSON document. The entries of an object stand in key order.
pub enum Doc {
    Null,
    Bool(bool),
    Unsigned(u64),
    Negative(i64),
    /// A number with a fraction or an exponent, by the bits of its IEEE value.
    Float(u64),
    Text(Seq<char>),
    List(Seq<Doc>),
    Object(Seq<(Seq<char>, Doc)>),
}

#[verifier::external_type_specification]
#[verifier::external_body]
pub struct ExValue(serde_json::Value);

#[verifier::external_type_specification]
#[verifier::external_body]
#[verifier::reject_recursive_types(K)]
#[verifier::reject_recursive_types(V)]
pub struct ExJsonMap<K, V>(serde_json::Map<K, V>);

/// The document that a `serde_json` value holds.
pub uninterp spec fn document(v: serde_json::Value) -> Doc;

/// The entries of a `serde_json` map, in the order in which it hands them out.
pub uninterp spec fn entries(m: serde_json::Map<String, serde_json::Value>) -> Seq<(Seq<char>, Doc)>;

/// `a` comes before `b` in the order of strings.
pub open spec fn text_before(a: Seq<char>, b: Seq<char>) -> bool
    decreases a.len(),
{
    if b.len() == 0 {
        false
    } else if a.len() == 0 {
        true
    } else if a[0] == b[0] {
        text_before(a.drop_first(), b.drop_first())
    } else {
        a[0] < b[0]
    }
}

/// `e` with `value` under `key`, in the place that the key order gives it.
pub open spec fn put(e: Seq<(Seq<char>, Doc)>, key: Seq<char>, value: Doc) -> Seq<(Seq<char>, Doc)>
    decreases e.len(),
{
    if e.len() == 0 {
        seq![(key, value)]
    } else if e[0].0 == key {
        e.update(0, (key, value))
    } else if text_before(key, e[0].0) {
        seq![(key, value)] + e
    } else {
        seq![e[0]] + put(e.drop_first(), key, value)
    }
}

/// The value under `key`.
pub open spec fn lookup(e: Seq<(Seq<char>, Doc)>, key: Seq<char>) -> Option<Doc>
    decreases e.len(),
{
    if e.len() == 0 {
        None
    } else if e[0].0 == key {
        Some(e[0].1)
    } else {
        lookup(e.drop_first(), key)
    }
}

/// An object with the fields of a list; a later field replaces an earlier one of the same name.
pub open spec fn collected(fields: Seq<(Seq<char>, Doc)>) -> Seq<(Seq<char>, Doc)>
    decreases fields.len(),
{
    if fields.len() == 0 {
        Seq::empty()
    } else {
        put(collected(fields.drop_last()), fields.last().0, fields.last().1)
    }
}

/// The document of an object with the given fields.
pub open spec fn object_of(fields: Seq<(Seq<char>, Doc)>) -> Doc {
    Doc::Object(collected(fields))
}

/// The number as JSON writes it: with or without a sign.
pub open spec fn integer_doc(n: int) -> Doc {
    if n >= 0 {
        Doc::Unsigned(n as u64)
    } else {
        Doc::Negative(n as i64)
    }
}

/// What was put under a key is found there, and the other keys keep what they had.
pub proof fn law_lookup_of_put(e: Seq<(Seq<char>, Doc)>, key: Seq<char>, value: Doc, other: Seq<char>)
    ensures
        lookup(put(e, key, value), key) == Some(value),
        other != key ==> lookup(put(e, key, value), other) == lookup(e, other),
    decreases e.len(),
{
    let after = put(e, key, value);
    if e.len() == 0 {
        assert(after.drop_first() =~= e);
    } else if e[0].0 == key {
        assert(after.drop_first() =~= e.drop_first());
    } else if text_before(key, e[0].0) {
        assert(after.drop_first() =~= e);
    } else {
        law_lookup_of_put(e.drop_first(), key, value, other);
        assert(after.drop_first() =~= put(e.drop_first(), key, value));
    }
}

/// `serde_json::Map::new`: a map without entries.
#[verifier::external_body]
fn new_object() -> (m: JsonMap<String, Value>)
    ensures
        entries(m) == Seq::<(Seq<char>, Doc)>::empty(),
{
    JsonMap::new()
}

/// `serde_json::Map::insert`: the map keeps its entries in key order, and the new value
/// replaces one that stood under the same key.
#[verifier::external_body]
fn insert(m: &mut JsonMap<String, Value>, key: &str, value: Value)
    ensures
        entries(*final(m)) == put(entries(*old(m)), key@, document(value)),
{
    m.insert(key.to_string(), value);
}

/// `serde_json::Value::Object`: a value that is a map.
#[verifier::external_body]
fn object_value(m: JsonMap<String, Value>) -> (v: Value)
    ensures
        document(v) == Doc::Object(entries(m)),
{
    Value::Object(m)
}

/// `serde_json::Value::String`: a value that is a text.
#[verifier::external_body]
pub(crate) fn text_value(s: &str) -> (v: Value)
    ensures
        document(v) == Doc::Text(s@),
{
    Value::String(s.to_string())
}

/// `serde_json::Value::from` for `u64`: a value that is a number without a sign.
#[verifier::external_body]
pub(crate) fn unsigned_value(n: u64) -> (v: Value)
    ensures
        document(v) == Doc::Unsigned(n),
{
    Value::from(n)
}

/// `serde_json::Value::from` for `i64`: a value that is a number; one below zero has a sign.
#[verifier::external_body]
pub(crate) fn integer_value(n: i64) -> (v: Value)
    ensures
        document(v) == integer_doc(n as int),
{
    Value::from(n)
}

/// `serde_json::Value::Bool`: a value that is a truth value.
#[verifier::external_body]
pub(crate) fn bool_value(b: bool) -> (v: Value)
    ensures
        document(v) == Doc::Bool(b),
{
    Value::Bool(b)
}

/// The documents of some values.
pub open spec fn documents(values: Seq<Value>) -> Seq<Doc> {
    values.map_values(|v: Value| document(v))
}

/// `serde_json::Value::Array`: a value that is a list.
#[verifier::external_body]
pub(crate) fn list_value(items: Vec<Value>) -> (v: Value)
    ensures
        document(v) == Doc::List(documents(items@)),
{
    Value::Array(items)
}

/// The text that `serde_json::to_vec` renders a document as.
pub uninterp spec fn rendered(d: Doc) -> Seq<u8>;

/// `serde_json::to_vec`: the text of a document, which depends on the document alone and is
/// always UTF-8.
#[verifier::external_body]
pub(crate) fn to_bytes(v: &Value) -> (bytes: Vec<u8>)
    ensures
        bytes@ == rendered(document(*v)),
        utf8::valid_utf8(bytes@),
{
    serde_json::to_vec(v).unwrap_or_default()
}

/// The text of a document.
pub fn to_text(v: &Value) -> (s: String)
    ensures
        utf8::encode_utf8(s@) == rendered(document(*v)),
{
    let bytes: Vec<u8> = to_bytes(v);
    match text::utf8_text(bytes.as_slice()) {
        Ok(s) => s.to_owned(),
        Err(_) => String::new(),
    }
}

/// An object under construction.
pub struct Fields {
    map: JsonMap<String, Value>,
    list: Ghost<Seq<(Seq<char>, Doc)>>,
}

impl View for Fields {
    type V = Seq<(Seq<char>, Doc)>;

    closed spec fn view(&self) -> Seq<(Seq<char>, Doc)> {
        self.list@
    }
}

impl Fields {
    /// The map holds the fields that were added.
    pub closed spec fn well_formed(&self) -> bool {
        entries(self.map) == collected(self.list@)
    }

    /// An object without fields.
    pub fn new() -> (f: Self)
        ensures
            f.well_formed(),
            f@ == Seq::<(Seq<char>, Doc)>::empty(),
    {
        Fields { map: new_object(), list: Ghost(Seq::empty()) }
    }

    /// Adds a field with any value.
    pub fn value(&mut self, key: &str, value: Value)
        requires
            old(self).well_formed(),
        ensures
            final(self).well_formed(),
            final(self)@ == old(self)@.push((key@, document(value))),
    {
        let ghost before = self.list@;
        let ghost more = before.push((key@, document(value)));
        insert(&mut self.map, key, value);
        self.list = Ghost(more);
        assert(more.drop_last() =~= before);
    }

    /// Adds a field with a text.
    pub fn text(&mut self, key: &str, value: &str)
        requires
            old(self).well_formed(),
        ensures
            final(self).well_formed(),
            final(self)@ == old(self)@.push((key@, Doc::Text(value@))),
    {
        self.value(key, text_value(value));
    }

    /// Adds a field with a number that has no sign.
    pub fn unsigned(&mut self, key: &str, value: u64)
        requires
            old(self).well_formed(),
        ensures
            final(self).well_formed(),
            final(self)@ == old(self)@.push((key@, Doc::Unsigned(value))),
    {
        self.value(key, unsigned_value(value));
    }

    /// Adds a field with a number.
    pub fn integer(&mut self, key: &str, value: i64)
        requires
            old(self).well_formed(),
        ensures
            final(self).well_formed(),
            final(self)@ == old(self)@.push((key@, integer_doc(value as int))),
    {
        self.value(key, integer_value(value));
    }

    /// Adds a field with 1 or 0.
    pub fn bit(&mut self, key: &str, value: bool)
        requires
            old(self).well_formed(),
        ensures
            final(self).well_formed(),
            final(self)@ == old(self)@.push((key@, bit_doc(value))),
    {
        self.value(
            key,
            unsigned_value(
                if value {
                    1
                } else {
                    0
                },
            ),
        );
    }

    /// Adds a field with a truth value.
    pub fn boolean(&mut self, key: &str, value: bool)
        requires
            old(self).well_formed(),
        ensures
            final(self).well_formed(),
            final(self)@ == old(self)@.push((key@, Doc::Bool(value))),
    {
        self.value(key, bool_value(value));
    }

    /// The finished object.
    pub fn finish(self) -> (v: Value)
        requires
            self.well_formed(),
        ensures
            document(v) == object_of(self@),
    {
        object_value(self.map)
    }
}

/// 1 for true and 0 for false.
pub open spec fn bit_doc(b: bool) -> Doc {
    Doc::Unsigned(
        if b {
            1
        } else {
            0
        },
    )
}

/// The document that `serde_json::from_slice` finds in a text, or its message where it finds
/// none.
pub uninterp spec fn parsed(text: Seq<u8>) -> Result<Doc, Seq<char>>;

/// `serde_json::from_slice`: the value of a text, or the message of the error.
#[verifier::external_body]
pub(crate) fn parse(text: &[u8]) -> (r: Result<Value, String>)
    ensures
        match parsed(text@) {
            Ok(d) => r is Ok && document(r->Ok_0) == d,
            Err(m) => r is Err && r->Err_0@ == m,
        },
{
    serde_json::from_slice(text).map_err(|e| e.to_string())
}

/// The value that a document has under a key; only an object has any.
pub open spec fn field(d: Doc, key: Seq<char>) -> Option<Doc> {
    match d {
        Doc::Object(e) => lookup(e, key),
        _ => None,
    }
}

/// An optional value by its document.
pub open spec fn opt_document(v: Option<&Value>) -> Option<Doc> {
    match v {
        Some(v) => Some(document(*v)),
        None => None,
    }
}

/// `serde_json::Value::get` with a key: the value under it, where the value is an object that
/// has one.
#[verifier::external_body]
pub(crate) fn get<'a>(v: &'a Value, key: &str) -> (r: Option<&'a Value>)
    ensures
        opt_document(r) == field(document(*v), key@),
{
    v.get(key)
}

/// `serde_json::Value::as_str`: the text, where the value is one.
#[verifier::external_body]
pub(crate) fn as_text<'a>(v: &'a Value) -> (r: Option<&'a str>)
    ensures
        match r {
            Some(s) => document(*v) == Doc::Text(s@),
            None => !(document(*v) is Text),
        },
{
    v.as_str()
}

/// `serde_json::Value::as_u64`: the number, where the value is one without sign, fraction or
/// exponent.
#[verifier::external_body]
pub(crate) fn as_unsigned(v: &Value) -> (r: Option<u64>)
    ensures
        match r {
            Some(n) => document(*v) == Doc::Unsigned(n),
            None => !(document(*v) is Unsigned),
        },
{
    v.as_u64()
}

/// `serde_json::Value::as_array`: the items, where the value is a list.
#[verifier::external_body]
pub(crate) fn as_items<'a>(v: &'a Value) -> (r: Option<&'a Vec<Value>>)
    ensures
        match r {
            Some(items) => document(*v) == Doc::List(documents(items@)),
            None => !(document(*v) is List),
        },
{
    v.as_array()
}

/// `serde_json::Value::as_bool`: the truth value, where the value is one.
#[verifier::external_body]
pub(crate) fn as_boolean(v: &Value) -> (r: Option<bool>)
    ensures
        match r {
            Some(b) => document(*v) == Doc::Bool(b),
            None => !(document(*v) is Bool),
        },
{
    v.as_bool()
}

/// The bits of the IEEE value that `serde_json::Value::as_f64` gives for a document.
pub uninterp spec fn number_bits(d: Doc) -> Option<u64>;

/// `serde_json::Value::as_f64`: the IEEE value of a number, by its bits. Every number has one,
/// and a number with a fraction or an exponent is held as that value.
#[verifier::external_body]
pub(crate) fn as_number(v: &Value) -> (r: Option<u64>)
    ensures
        r == number_bits(document(*v)),
        match document(*v) {
            Doc::Unsigned(_) => r is Some,
            Doc::Negative(_) => r is Some,
            Doc::Float(b) => r == Some(b),
            _ => r is None,
        },
{
    v.as_f64().map(|x| x.to_bits())
}

/// `serde_json::Value::as_object`: the map, where the value is an object.
#[verifier::external_body]
pub(crate) fn as_entries<'a>(v: &'a Value) -> (r: Option<&'a JsonMap<String, Value>>)
    ensures
        match r {
            Some(m) => document(*v) == Doc::Object(entries(*m)),
            None => !(document(*v) is Object),
        },
{
    v.as_object()
}

/// `serde_json::Map::get`: the value under a key.
#[verifier::external_body]
pub(crate) fn entry<'a>(m: &'a JsonMap<String, Value>, key: &str) -> (r: Option<&'a Value>)
    ensures
        opt_document(r) == lookup(entries(*m), key@),
{
    m.get(key)
}

/// Entries by their contents.
pub open spec fn entry_views(list: Seq<(&str, &Value)>) -> Seq<(Seq<char>, Doc)> {
    list.map_values(|e: (&str, &Value)| (e.0@, document(*e.1)))
}

/// `serde_json::Map::iter`: the entries of a map, in key order.
#[verifier::external_body]
pub(crate) fn entry_list<'a>(m: &'a JsonMap<String, Value>) -> (list: Vec<(&'a str, &'a Value)>)
    ensures
        entry_views(list@) == entries(*m),
{
    m.iter().map(|(k, v)| (k.as_str(), v)).collect()
}

/// The text under a key.
pub open spec fn text_field(d: Doc, key: Seq<char>) -> Option<Seq<char>> {
    match field(d, key) {
        Some(Doc::Text(s)) => Some(s),
        _ => None,
    }
}

/// The number without sign, fraction or exponent under a key.
pub open spec fn unsigned_field(d: Doc, key: Seq<char>) -> Option<u64> {
    match field(d, key) {
        Some(Doc::Unsigned(n)) => Some(n),
        _ => None,
    }
}

/// The text under a key.
pub fn get_text<'a>(v: &'a Value, key: &str) -> (r: Option<&'a str>)
    ensures
        match r {
            Some(s) => text_field(document(*v), key@) == Some(s@),
            None => text_field(document(*v), key@) is None,
        },
{
    match get(v, key) {
        Some(f) => as_text(f),
        None => None,
    }
}

/// The number without sign, fraction or exponent under a key.
pub fn get_unsigned(v: &Value, key: &str) -> (r: Option<u64>)
    ensures
        r == unsigned_field(document(*v), key@),
{
    match get(v, key) {
        Some(f) => as_unsigned(f),
        None => None,
    }
}

} // verus!
