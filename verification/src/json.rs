//! JSON values of serde_json as plain data (`JsonModel`), the compact text
//! serde_json writes for them, and the trusted calls that build, read and
//! write them.
use vstd::prelude::*;
use crate::text::seq_lt;

verus! {

/// The lowercase hexadecimal digit of `n` (below 16).
pub open spec fn hex_digit(n: u32) -> char {
    if n < 10 {
        (('0' as u32) + n) as char
    } else {
        (('a' as u32) + n - 10) as char
    }
}

/// How serde_json writes one character inside a string: `"` and `\`
/// escaped, the short escapes for backspace, form feed, newline, carriage
/// return and tab, other control characters below 0x20 as `\u00xx`, and
/// everything else as it is.
pub open spec fn json_escape_char(c: char) -> Seq<char> {
    if c == '"' {
        seq!['\\', '"']
    } else if c == '\\' {
        seq!['\\', '\\']
    } else if c == '\u{8}' {
        seq!['\\', 'b']
    } else if c == '\u{c}' {
        seq!['\\', 'f']
    } else if c == '\n' {
        seq!['\\', 'n']
    } else if c == '\r' {
        seq!['\\', 'r']
    } else if c == '\t' {
        seq!['\\', 't']
    } else if (c as u32) < 0x20 {
        seq!['\\', 'u', '0', '0', hex_digit((c as u32) / 16), hex_digit((c as u32) % 16)]
    } else {
        seq![c]
    }
}

/// The characters of `s` as serde_json escapes them.
pub open spec fn json_escape(s: Seq<char>) -> Seq<char>
    decreases s.len(),
{
    if s.len() == 0 {
        Seq::empty()
    } else {
        json_escape(s.drop_last()) + json_escape_char(s.last())
    }
}

/// The text serde_json writes for a JSON string holding `s`: quoted, with
/// the characters escaped (`json_escape`).
#[verifier::opaque]
pub open spec fn json_string_literal(s: Seq<char>) -> Seq<char> {
    seq!['"'] + json_escape(s) + seq!['"']
}

#[verifier::external_type_specification]
#[verifier::external_body]
pub struct ExJsonValue(serde_json::Value);

/// A JSON value as plain data. Object entries are kept in key order, as
/// `serde_json::Map` (a `BTreeMap`) keeps them; a number carries its integer
/// readings and the text serde_json writes for it.
pub enum JsonModel {
    Null,
    Bool(bool),
    Number { as_u64: Option<u64>, as_i64: Option<i64>, text: Seq<char> },
    Str(Seq<char>),
    Array(Seq<JsonModel>),
    Object(Seq<(Seq<char>, JsonModel)>),
}

/// What a `serde_json::Value` holds.
pub uninterp spec fn json_model(v: serde_json::Value) -> JsonModel;

/// The value `serde_json::from_str` parses from `text`, or `None` when it
/// reports an error.
pub uninterp spec fn json_parse(text: Seq<char>) -> Option<JsonModel>;

/// The compact text serde_json writes for a value: `null`, `true` or
/// `false`, a number's text, a quoted string (`json_string_literal`), and
/// arrays and objects with their items separated by commas and no spaces;
/// an object member is its quoted key, `:` and its value.
pub open spec fn json_text(v: JsonModel) -> Seq<char>
    decreases v, 0int,
{
    match v {
        JsonModel::Null => "null"@,
        JsonModel::Bool(b) => if b { "true"@ } else { "false"@ },
        JsonModel::Number { text, .. } => text,
        JsonModel::Str(s) => json_string_literal(s),
        JsonModel::Array(a) => seq!['['] + items_text(a, a.len() as int) + seq![']'],
        JsonModel::Object(es) => seq!['{'] + members_text(es, es.len() as int) + seq!['}'],
    }
}

/// The texts of the first `n` items, separated by commas.
pub open spec fn items_text(a: Seq<JsonModel>, n: int) -> Seq<char>
    decreases a, n,
{
    if n <= 0 || n > a.len() {
        Seq::empty()
    } else if n == 1 {
        json_text(a[0])
    } else {
        items_text(a, n - 1) + seq![','] + json_text(a[n - 1])
    }
}

/// The first `n` object members, separated by commas.
pub open spec fn members_text(es: Seq<(Seq<char>, JsonModel)>, n: int) -> Seq<char>
    decreases es, n,
{
    if n <= 0 || n > es.len() {
        Seq::empty()
    } else if n == 1 {
        proof {
            assert(decreases_to!(es => es[0]));
        }
        json_string_literal(es[0].0) + seq![':'] + json_text(es[0].1)
    } else {
        proof {
            assert(decreases_to!(es => es[n - 1]));
        }
        members_text(es, n - 1) + seq![','] + json_string_literal(es[n - 1].0) + seq![':']
            + json_text(es[n - 1].1)
    }
}

/// The value stored under `key` in an object's entries.
pub open spec fn obj_lookup(es: Seq<(Seq<char>, JsonModel)>, key: Seq<char>) -> Option<JsonModel>
    decreases es.len(),
{
    if es.len() == 0 {
        None
    } else if es[0].0 == key {
        Some(es[0].1)
    } else {
        obj_lookup(es.drop_first(), key)
    }
}

/// `get(key)` on a value: the entry of an object, nothing otherwise.
pub open spec fn model_get(v: JsonModel, key: Seq<char>) -> Option<JsonModel> {
    match v {
        JsonModel::Object(es) => obj_lookup(es, key),
        _ => None,
    }
}

pub open spec fn model_str(v: JsonModel) -> Option<Seq<char>> {
    match v {
        JsonModel::Str(s) => Some(s),
        _ => None,
    }
}

pub open spec fn model_array(v: JsonModel) -> Option<Seq<JsonModel>> {
    match v {
        JsonModel::Array(a) => Some(a),
        _ => None,
    }
}

pub open spec fn model_u64(v: JsonModel) -> Option<u64> {
    match v {
        JsonModel::Number { as_u64, .. } => as_u64,
        _ => None,
    }
}

pub open spec fn model_i64(v: JsonModel) -> Option<i64> {
    match v {
        JsonModel::Number { as_i64, .. } => as_i64,
        _ => None,
    }
}

pub open spec fn models_of(vs: Seq<serde_json::Value>) -> Seq<JsonModel> {
    vs.map_values(|x: serde_json::Value| json_model(x))
}

/// `serde_json::from_str::<serde_json::Value>`: the parsed value is named
/// `json_parse(text)`; nothing is stated of which texts parse.
#[verifier::external_body]
pub(crate) fn parse_json(text: &str) -> (r: Option<serde_json::Value>)
    ensures
        match r {
            Some(v) => json_parse(text@) == Some(json_model(v)),
            None => json_parse(text@) is None,
        },
{
    serde_json::from_str::<serde_json::Value>(text).ok()
}

/// `serde_json::Value::get` with a string key: the entry of an object under
/// that key, `None` for a missing key or a value that is not an object.
#[verifier::external_body]
pub(crate) fn json_get<'a>(v: &'a serde_json::Value, key: &str) -> (r: Option<&'a serde_json::Value>)
    ensures
        match r {
            Some(x) => model_get(json_model(*v), key@) == Some(json_model(*x)),
            None => model_get(json_model(*v), key@) is None,
        },
{
    v.get(key)
}

/// `serde_json::Value::as_str`: the text of a string value.
#[verifier::external_body]
pub(crate) fn json_as_str(v: &serde_json::Value) -> (r: Option<&str>)
    ensures
        match r {
            Some(s) => model_str(json_model(*v)) == Some(s@),
            None => model_str(json_model(*v)) is None,
        },
{
    v.as_str()
}

/// `serde_json::Value::as_array`: the items of an array value.
#[verifier::external_body]
pub(crate) fn json_as_array(v: &serde_json::Value) -> (r: Option<&Vec<serde_json::Value>>)
    ensures
        match r {
            Some(a) => model_array(json_model(*v)) == Some(models_of(a@)),
            None => model_array(json_model(*v)) is None,
        },
{
    v.as_array()
}

/// `serde_json::Value::as_u64`: a number's reading as `u64`, if it has one.
#[verifier::external_body]
pub(crate) fn json_as_u64(v: &serde_json::Value) -> (r: Option<u64>)
    ensures
        r == model_u64(json_model(*v)),
{
    v.as_u64()
}

/// `serde_json::Value::as_i64`: a number's reading as `i64`, if it has one.
#[verifier::external_body]
pub(crate) fn json_as_i64(v: &serde_json::Value) -> (r: Option<i64>)
    ensures
        r == model_i64(json_model(*v)),
{
    v.as_i64()
}

/// `serde_json::Value`'s `to_string`: the compact text, named `json_text`.
#[verifier::external_body]
pub(crate) fn json_to_string(v: &serde_json::Value) -> (r: String)
    ensures
        r@ == json_text(json_model(*v)),
{
    v.to_string()
}

/// The compact text of the JSON value in `raw`, or `None` when `raw` does not
/// parse.
pub open spec fn json_reencode(raw: Seq<char>) -> Option<Seq<char>> {
    match json_parse(raw) {
        Some(m) => Some(json_text(m)),
        None => None,
    }
}

/// Inserts `(k, v)` into entries sorted by key: an entry with key `k` is
/// replaced, otherwise the new entry goes before the first larger key.
pub open spec fn sorted_insert(
    e: Seq<(Seq<char>, Seq<char>)>,
    k: Seq<char>,
    v: Seq<char>,
) -> Seq<(Seq<char>, Seq<char>)>
    decreases e.len(),
{
    if e.len() == 0 {
        seq![(k, v)]
    } else if e[0].0 == k {
        seq![(k, v)] + e.drop_first()
    } else if seq_lt(k, e[0].0) {
        seq![(k, v)] + e
    } else {
        seq![e[0]] + sorted_insert(e.drop_first(), k, v)
    }
}

/// `"key":value` for one entry.
pub open spec fn render_entry(kv: (Seq<char>, Seq<char>)) -> Seq<char> {
    json_string_literal(kv.0) + seq![':'] + kv.1
}

/// The entries rendered and separated by commas.
pub open spec fn render_entries(e: Seq<(Seq<char>, Seq<char>)>) -> Seq<char>
    decreases e.len(),
{
    if e.len() == 0 {
        Seq::empty()
    } else if e.len() == 1 {
        render_entry(e[0])
    } else {
        render_entries(e.drop_last()) + seq![','] + render_entry(e.last())
    }
}

/// Compact JSON object text for the entries.
pub open spec fn render_object(e: Seq<(Seq<char>, Seq<char>)>) -> Seq<char> {
    seq!['{'] + render_entries(e) + seq!['}']
}

/// Items separated by commas.
pub open spec fn join_commas(items: Seq<Seq<char>>) -> Seq<char>
    decreases items.len(),
{
    if items.len() == 0 {
        Seq::empty()
    } else if items.len() == 1 {
        items[0]
    } else {
        join_commas(items.drop_last()) + seq![','] + items.last()
    }
}

/// An object's members with their values written as text.
pub open spec fn entry_texts(es: Seq<(Seq<char>, JsonModel)>) -> Seq<(Seq<char>, Seq<char>)> {
    es.map_values(|e: (Seq<char>, JsonModel)| (e.0, json_text(e.1)))
}

/// The members of an object, none for another value.
pub open spec fn model_entries(v: JsonModel) -> Seq<(Seq<char>, JsonModel)> {
    match v {
        JsonModel::Object(es) => es,
        _ => Seq::empty(),
    }
}

/// Inserting into members kept in key order, as `serde_json::Map` (a
/// `BTreeMap` keyed by `String`) does: a member with key `k` gets the new
/// value, otherwise the new member goes before the first larger key.
pub open spec fn model_insert(
    es: Seq<(Seq<char>, JsonModel)>,
    k: Seq<char>,
    v: JsonModel,
) -> Seq<(Seq<char>, JsonModel)>
    decreases es.len(),
{
    if es.len() == 0 {
        seq![(k, v)]
    } else if es[0].0 == k {
        seq![(k, v)] + es.drop_first()
    } else if seq_lt(k, es[0].0) {
        seq![(k, v)] + es
    } else {
        seq![es[0]] + model_insert(es.drop_first(), k, v)
    }
}

proof fn lemma_items_text(a: Seq<JsonModel>, n: int)
    requires
        0 <= n <= a.len(),
    ensures
        items_text(a, n) == join_commas(a.map_values(|x: JsonModel| json_text(x)).take(n)),
    decreases n,
{
    let t = a.map_values(|x: JsonModel| json_text(x)).take(n);
    if n == 0 {
        assert(t =~= Seq::<Seq<char>>::empty());
    } else if n == 1 {
        assert(t =~= seq![json_text(a[0])]);
    } else {
        lemma_items_text(a, n - 1);
        assert(t.drop_last() =~= a.map_values(|x: JsonModel| json_text(x)).take(n - 1));
    }
}

proof fn lemma_members_text(es: Seq<(Seq<char>, JsonModel)>, n: int)
    requires
        0 <= n <= es.len(),
    ensures
        members_text(es, n) == render_entries(entry_texts(es).take(n)),
    decreases n,
{
    let t = entry_texts(es).take(n);
    if n == 0 {
        assert(t =~= Seq::<(Seq<char>, Seq<char>)>::empty());
    } else if n == 1 {
        assert(t =~= seq![(es[0].0, json_text(es[0].1))]);
    } else {
        lemma_members_text(es, n - 1);
        assert(t.drop_last() =~= entry_texts(es).take(n - 1));
        assert(t.last() == (es[n - 1].0, json_text(es[n - 1].1)));
        assert(members_text(es, n) =~= render_entries(t.drop_last()) + seq![','] + render_entry(t.last()));
    }
}

/// An array's text is its items' texts, comma-separated, in brackets.
pub proof fn lemma_array_text(a: Seq<JsonModel>)
    ensures
        json_text(JsonModel::Array(a)) == seq!['['] + join_commas(a.map_values(|x: JsonModel| json_text(x)))
            + seq![']'],
{
    lemma_items_text(a, a.len() as int);
    assert(a.map_values(|x: JsonModel| json_text(x)).take(a.len() as int) =~= a.map_values(
        |x: JsonModel| json_text(x),
    ));
}

/// An object's text is its members rendered in order (`render_object`).
pub proof fn lemma_object_text(es: Seq<(Seq<char>, JsonModel)>)
    ensures
        json_text(JsonModel::Object(es)) == render_object(entry_texts(es)),
{
    lemma_members_text(es, es.len() as int);
    assert(entry_texts(es).take(es.len() as int) =~= entry_texts(es));
}

/// Writing the members as text commutes with inserting one.
pub proof fn lemma_insert_texts(es: Seq<(Seq<char>, JsonModel)>, k: Seq<char>, v: JsonModel)
    ensures
        entry_texts(model_insert(es, k, v)) == sorted_insert(entry_texts(es), k, json_text(v)),
    decreases es.len(),
{
    let et = entry_texts(es);
    if es.len() == 0 {
        assert(entry_texts(model_insert(es, k, v)) =~= seq![(k, json_text(v))]);
    } else {
        assert(et[0] == (es[0].0, json_text(es[0].1)));
        assert(et.drop_first() =~= entry_texts(es.drop_first()));
        if es[0].0 == k {
            assert(entry_texts(model_insert(es, k, v)) =~= seq![(k, json_text(v))] + et.drop_first());
        } else if seq_lt(k, es[0].0) {
            assert(entry_texts(model_insert(es, k, v)) =~= seq![(k, json_text(v))] + et);
        } else {
            lemma_insert_texts(es.drop_first(), k, v);
            assert(entry_texts(model_insert(es, k, v)) =~= seq![et[0]] + entry_texts(
                model_insert(es.drop_first(), k, v),
            ));
        }
    }
}

/// `serde_json::Value::Null`.
#[verifier::external_body]
pub(crate) fn json_null() -> (r: serde_json::Value)
    ensures
        json_model(r) == JsonModel::Null,
{
    serde_json::Value::Null
}

/// `serde_json::Value::Bool`.
#[verifier::external_body]
pub(crate) fn json_bool(b: bool) -> (r: serde_json::Value)
    ensures
        json_model(r) == JsonModel::Bool(b),
{
    serde_json::Value::Bool(b)
}

/// `serde_json::Value::String`: a JSON string value.
#[verifier::external_body]
pub(crate) fn json_string(s: String) -> (r: serde_json::Value)
    ensures
        json_model(r) == JsonModel::Str(s@),
{
    serde_json::Value::String(s)
}

/// `serde_json::Value::Array`: an array of the given values, in order.
#[verifier::external_body]
pub(crate) fn json_array(items: Vec<serde_json::Value>) -> (r: serde_json::Value)
    ensures
        json_model(r) == JsonModel::Array(models_of(items@)),
{
    serde_json::Value::Array(items)
}

/// `serde_json::Map::new` in a `serde_json::Value::Object`: an object
/// without members.
#[verifier::external_body]
pub(crate) fn json_object() -> (r: serde_json::Value)
    ensures
        json_model(r) == JsonModel::Object(Seq::empty()),
{
    serde_json::Value::Object(serde_json::Map::new())
}

/// `serde_json::Map::insert` on an object value: the member is added or its
/// value replaced, members staying in key order (`model_insert`).
#[verifier::external_body]
pub(crate) fn json_insert(obj: &mut serde_json::Value, key: String, v: serde_json::Value)
    requires
        json_model(*old(obj)) is Object,
    ensures
        json_model(*final(obj)) == JsonModel::Object(
            model_insert(model_entries(json_model(*old(obj))), key@, json_model(v)),
        ),
{
    if let serde_json::Value::Object(m) = obj {
        m.insert(key, v);
    }
}

/// `Clone` of `serde_json::Value`: an equal value.
#[verifier::external_body]
pub(crate) fn json_clone(v: &serde_json::Value) -> (r: serde_json::Value)
    ensures
        json_model(r) == json_model(*v),
{
    v.clone()
}

} // verus!
