//! A JSON document model, with the parsing and printing that `serde_json`
//! does for it.
use vstd::prelude::*;

use crate::text::{chars_of, hex_digit, lemma_read_digits_bounded, parse_u64, read_digits, str_eq};

verus! {

/// The mathematical model of a JSON document. A number is held as the text
/// that `serde_json` prints for it; an object as its entries, in order.
pub enum Json {
    Null,
    Bool(bool),
    Number(Seq<char>),
    Str(Seq<char>),
    Array(Seq<Json>),
    Object(Seq<(Seq<char>, Json)>),
}

/// An executable JSON document. A number is held as its text; when the
/// document is printed, that text is read by `serde_json::Number`, and a
/// text that does not read as a JSON number is printed as `null`.
#[derive(Debug)]
pub enum JsonValue {
    Null,
    Bool(bool),
    Number(String),
    Str(String),
    Array(Vec<JsonValue>),
    Object(Vec<(String, JsonValue)>),
}

/// The model of an executable document.
pub open spec fn json_model(v: JsonValue) -> Json
    decreases v,
    via json_model_decreases
{
    match v {
        JsonValue::Null => Json::Null,
        JsonValue::Bool(b) => Json::Bool(b),
        JsonValue::Number(n) => Json::Number(n@),
        JsonValue::Str(s) => Json::Str(s@),
        JsonValue::Array(items) => Json::Array(
            Seq::new(
                items@.len(),
                |i: int|
                    if 0 <= i < items@.len() {
                        json_model(items@[i])
                    } else {
                        Json::Null
                    },
            ),
        ),
        JsonValue::Object(entries) => Json::Object(
            Seq::new(
                entries@.len(),
                |i: int|
                    if 0 <= i < entries@.len() {
                        (entries@[i].0@, json_model(entries@[i].1))
                    } else {
                        (Seq::empty(), Json::Null)
                    },
            ),
        ),
    }
}

#[via_fn]
proof fn json_model_decreases(v: JsonValue) {
    match v {
        JsonValue::Array(items) => {
            assert forall|i: int| 0 <= i < items@.len() implies decreases_to!(v => items@[i]) by {
                assert(decreases_to!(items@ => items@[i]));
            }
        },
        JsonValue::Object(entries) => {
            assert forall|i: int| 0 <= i < entries@.len() implies decreases_to!(v => entries@[i].1) by {
                assert(decreases_to!(entries@ => entries@[i]));
                assert(decreases_to!(entries@[i] => entries@[i].1));
            }
        },
        _ => {},
    }
}

impl View for JsonValue {
    type V = Json;

    open spec fn view(&self) -> Json {
        json_model(*self)
    }
}

/// The value stored under `key` among `entries`; where the key occurs more
/// than once, the last entry counts, as it does when `serde_json` builds
/// its map from them.
pub open spec fn entries_lookup(entries: Seq<(Seq<char>, Json)>, key: Seq<char>) -> Option<Json>
    decreases entries.len(),
{
    if entries.len() == 0 {
        None
    } else if entries.last().0 == key {
        Some(entries.last().1)
    } else {
        entries_lookup(entries.drop_last(), key)
    }
}

/// The member `key` of an object (`Value::get`); nothing for other values.
pub open spec fn json_field(j: Json, key: Seq<char>) -> Option<Json> {
    match j {
        Json::Object(entries) => entries_lookup(entries, key),
        _ => None,
    }
}

/// The text of a JSON string (`Value::as_str`).
pub open spec fn json_as_str(j: Json) -> Option<Seq<char>> {
    match j {
        Json::Str(s) => Some(s),
        _ => None,
    }
}

/// The value of a JSON boolean (`Value::as_bool`).
pub open spec fn json_as_bool(j: Json) -> Option<bool> {
    match j {
        Json::Bool(b) => Some(b),
        _ => None,
    }
}

/// The member `key` of an object when it is a string.
pub open spec fn json_str_field(j: Json, key: Seq<char>) -> Option<Seq<char>> {
    match json_field(j, key) {
        Some(f) => json_as_str(f),
        None => None,
    }
}

/// A JSON object with the given members.
pub open spec fn json_object(entries: Seq<(Seq<char>, Json)>) -> Json {
    Json::Object(entries)
}

/// The compact text that `serde_json` prints for a document (the
/// `Display` of `serde_json::Value`).
pub uninterp spec fn json_text(value: Json) -> Seq<char>;

/// What `serde_json::from_str::<serde_json::Value>` gives for a text: the
/// document, or the message of its error.
pub uninterp spec fn json_parse(text: Seq<char>) -> Result<Json, Seq<char>>;

/// What `serde_json::from_str::<bool>` gives for a text.
pub uninterp spec fn json_parse_bool(text: Seq<char>) -> Result<bool, Seq<char>>;

/// What `serde_json::from_str::<Vec<String>>` gives for a text.
pub uninterp spec fn json_parse_strings(text: Seq<char>) -> Result<Seq<Seq<char>>, Seq<char>>;

/// How `serde_json` writes one character inside a string literal: a quote
/// and a backslash behind a backslash, the control characters with short
/// escapes as those (`\b`, `\t`, `\n`, `\f`, `\r`), the other characters
/// below U+0020 as `\u00` and two lower-case hexadecimal digits, and every
/// other character as itself.
pub open spec fn escape_char(c: char) -> Seq<char> {
    if c == '"' {
        seq!['\\', '"']
    } else if c == '\\' {
        seq!['\\', '\\']
    } else if c == '\u{8}' {
        seq!['\\', 'b']
    } else if c == '\t' {
        seq!['\\', 't']
    } else if c == '\n' {
        seq!['\\', 'n']
    } else if c == '\u{c}' {
        seq!['\\', 'f']
    } else if c == '\r' {
        seq!['\\', 'r']
    } else if (c as u32) < 32 {
        seq!['\\', 'u', '0', '0', hex_digit(((c as u32) / 16) as int), hex_digit(((c as u32) % 16) as int)]
    } else {
        seq![c]
    }
}

/// The characters of a text, each as `escape_char` writes it.
pub open spec fn escaped(s: Seq<char>) -> Seq<char>
    decreases s.len(),
{
    if s.len() == 0 {
        seq![]
    } else {
        escaped(s.drop_last()) + escape_char(s.last())
    }
}

/// The JSON string literal that `serde_json::to_string` prints for a text:
/// the escaped characters between quotes.
pub open spec fn json_quote(s: Seq<char>) -> Seq<char> {
    seq!['"'] + escaped(s) + seq!['"']
}

/// Declares `serde_json::Value` to the verifier as an opaque type; it is
/// only handled inside the printing and parsing wrappers below.
#[verifier::external_type_specification]
#[verifier::external_body]
pub struct ExSerdeValue(serde_json::Value);

/// Turns the library's document into `serde_json`'s, one node for one node.
/// A number whose text `serde_json::Number` does not read becomes `null`.
#[verifier::external_body]
fn into_serde(v: &JsonValue) -> serde_json::Value {
    match v {
        JsonValue::Null => serde_json::Value::Null,
        JsonValue::Bool(b) => serde_json::Value::Bool(*b),
        JsonValue::Number(n) => match n.parse::<serde_json::Number>() {
            Ok(num) => serde_json::Value::Number(num),
            Err(_) => serde_json::Value::Null,
        },
        JsonValue::Str(s) => serde_json::Value::String(s.clone()),
        JsonValue::Array(items) => serde_json::Value::Array(items.iter().map(into_serde).collect()),
        JsonValue::Object(es) => serde_json::Value::Object(es.iter().map(|(k, x)| (k.clone(), into_serde(x))).collect()),
    }
}

/// Turns `serde_json`'s document into the library's, one node for one node.
#[verifier::external_body]
fn from_serde(v: serde_json::Value) -> JsonValue {
    match v {
        serde_json::Value::Null => JsonValue::Null,
        serde_json::Value::Bool(b) => JsonValue::Bool(b),
        serde_json::Value::Number(n) => JsonValue::Number(n.to_string()),
        serde_json::Value::String(s) => JsonValue::Str(s),
        serde_json::Value::Array(items) => JsonValue::Array(items.into_iter().map(from_serde).collect()),
        serde_json::Value::Object(m) => JsonValue::Object(m.into_iter().map(|(k, x)| (k, from_serde(x))).collect()),
    }
}

/// Prints a document as compact JSON text (`serde_json::Value`'s
/// `Display`): object members sorted by name, a number whose text is not a
/// JSON number as `null`. The contract names the result and says no more of
/// it.
#[verifier::external_body]
pub(crate) fn json_to_string(v: &JsonValue) -> (text: String)
    ensures
        text@ == json_text(v@),
{
    into_serde(v).to_string()
}

/// A JSON object with one string member.
pub open spec fn single_string_object(key: Seq<char>, value: Seq<char>) -> Json {
    Json::Object(seq![(key, Json::Str(value))])
}

/// Parses JSON text (`serde_json::from_str::<serde_json::Value>`). The
/// contract names the outcome, the document or the error's message. Of the
/// outcome it states two facts besides: empty text is no JSON (the parser
/// reports an unexpected end of input), and the text that `serde_json`
/// prints for an object with one string member reads back as that object
/// (the string is escaped on printing and unescaped on reading, and a map
/// of one entry has one order).
#[verifier::external_body]
pub(crate) fn parse_json(text: &str) -> (res: Result<JsonValue, String>)
    ensures
        match res {
            Ok(v) => {
                &&& json_parse(text@) == Ok::<Json, Seq<char>>(v@)
                &&& text@.len() > 0
                &&& forall|key: Seq<char>, value: Seq<char>|
                    #![trigger json_text(single_string_object(key, value))]
                    text@ == json_text(single_string_object(key, value)) ==> v@
                        == single_string_object(key, value)
            },
            Err(e) => {
                &&& json_parse(text@) == Err::<Json, Seq<char>>(e@)
                &&& forall|key: Seq<char>, value: Seq<char>|
                    #![trigger json_text(single_string_object(key, value))]
                    text@ != json_text(single_string_object(key, value))
            },
        },
{
    match serde_json::from_str::<serde_json::Value>(text) {
        Ok(v) => Ok(from_serde(v)),
        Err(e) => Err(e.to_string()),
    }
}

/// Parses a JSON boolean (`serde_json::from_str::<bool>`); the contract
/// names the outcome.
#[verifier::external_body]
pub(crate) fn parse_json_bool(text: &str) -> (res: Result<bool, String>)
    ensures
        match res {
            Ok(b) => json_parse_bool(text@) == Ok::<bool, Seq<char>>(b),
            Err(e) => json_parse_bool(text@) == Err::<bool, Seq<char>>(e@),
        },
{
    match serde_json::from_str::<bool>(text) {
        Ok(b) => Ok(b),
        Err(e) => Err(e.to_string()),
    }
}

/// Parses a JSON array of strings (`serde_json::from_str::<Vec<String>>`);
/// the contract names the outcome.
#[verifier::external_body]
pub(crate) fn parse_json_strings(text: &str) -> (res: Result<Vec<String>, String>)
    ensures
        match res {
            Ok(v) => json_parse_strings(text@) == Ok::<Seq<Seq<char>>, Seq<char>>(
                v@.map_values(|s: String| s@),
            ),
            Err(e) => json_parse_strings(text@) == Err::<Seq<Seq<char>>, Seq<char>>(e@),
        },
{
    match serde_json::from_str::<Vec<String>>(text) {
        Ok(v) => Ok(v),
        Err(e) => Err(e.to_string()),
    }
}

/// The JSON string literal for `s` (`serde_json::to_string::<str>`, which
/// writes it with `format_escaped_str`). Printing a string into memory does
/// not fail, so the error arm, which gives the empty string, is never taken.
#[verifier::external_body]
pub(crate) fn quote(s: &str) -> (q: String)
    ensures
        q@ == json_quote(s@),
{
    match serde_json::to_string(s) {
        Ok(q) => q,
        Err(_) => String::new(),
    }
}

/// Whether the document is `null` (`Value::is_null`).
pub fn is_null(v: &JsonValue) -> (r: bool)
    ensures
        r == (v@ == Json::Null),
{
    match v {
        JsonValue::Null => true,
        _ => false,
    }
}

/// The text of a JSON string (`Value::as_str`).
pub fn as_str(v: &JsonValue) -> (r: Option<&String>)
    ensures
        match r {
            Some(s) => json_as_str(v@) == Some(s@),
            None => json_as_str(v@) is None,
        },
{
    match v {
        JsonValue::Str(s) => Some(s),
        _ => None,
    }
}

/// The value of a JSON boolean (`Value::as_bool`).
pub fn as_bool(v: &JsonValue) -> (r: Option<bool>)
    ensures
        r == json_as_bool(v@),
{
    match v {
        JsonValue::Bool(b) => Some(*b),
        _ => None,
    }
}

/// The member `key` of an object (`Value::get`).
pub fn field<'a>(v: &'a JsonValue, key: &str) -> (r: Option<&'a JsonValue>)
    ensures
        match r {
            Some(f) => json_field(v@, key@) == Some(f@),
            None => json_field(v@, key@) is None,
        },
{
    match v {
        JsonValue::Object(entries) => {
            let ghost es = v@->Object_0;
            assert(es.len() == entries@.len());
            assert(es.take(es.len() as int) =~= es);
            let mut i = entries.len();
            while i > 0
                invariant
                    i <= entries.len(),
                    es.len() == entries@.len(),
                    v@ == Json::Object(es),
                    forall|k: int| 0 <= k < entries@.len() ==> #[trigger] es[k] == (
                        entries@[k].0@,
                        entries@[k].1@,
                    ),
                    entries_lookup(es, key@) == entries_lookup(es.take(i as int), key@),
                decreases i,
            {
                let (k, x) = &entries[i - 1];
                assert(es.take(i as int).last() == es[i - 1]);
                assert(es.take(i as int).drop_last() =~= es.take(i - 1));
                if str_eq(k.as_str(), key) {
                    return Some(x);
                }
                i = i - 1;
            }
            None
        },
        _ => None,
    }
}

/// The member `key` of an object when it is a string.
pub fn str_field(v: &JsonValue, key: &str) -> (r: Option<String>)
    ensures
        match r {
            Some(s) => json_str_field(v@, key@) == Some(s@),
            None => json_str_field(v@, key@) is None,
        },
{
    match field(v, key) {
        Some(f) => match as_str(f) {
            Some(s) => Some(s.clone()),
            None => None,
        },
        None => None,
    }
}


/// The models of a sequence of documents.
pub open spec fn values_view(items: Seq<JsonValue>) -> Seq<Json> {
    items.map_values(|x: JsonValue| x@)
}

/// The texts of a sequence of strings.
pub open spec fn strings_view(items: Seq<String>) -> Seq<Seq<char>> {
    items.map_values(|s: String| s@)
}

/// The texts of a sequence of string pairs.
pub open spec fn pairs_view(items: Seq<(String, String)>) -> Seq<(Seq<char>, Seq<char>)> {
    items.map_values(|p: (String, String)| (p.0@, p.1@))
}

/// The model of an array's items.
pub proof fn lemma_array_view(items: Vec<JsonValue>)
    ensures
        JsonValue::Array(items)@ == Json::Array(values_view(items@)),
{
    assert(JsonValue::Array(items)@->Array_0 =~= values_view(items@));
}

/// The model of an object's entries.
pub proof fn lemma_object_view(entries: Vec<(String, JsonValue)>)
    ensures
        JsonValue::Object(entries)@ == Json::Object(
            entries@.map_values(|e: (String, JsonValue)| (e.0@, e.1@)),
        ),
{
    assert(JsonValue::Object(entries)@->Object_0 =~= entries@.map_values(
        |e: (String, JsonValue)| (e.0@, e.1@),
    ));
}

/// A copy of a document.
pub fn deep_clone(v: &JsonValue) -> (r: JsonValue)
    ensures
        r@ == v@,
    decreases v,
{
    match v {
        JsonValue::Null => JsonValue::Null,
        JsonValue::Bool(b) => JsonValue::Bool(*b),
        JsonValue::Number(n) => JsonValue::Number(n.clone()),
        JsonValue::Str(s) => JsonValue::Str(s.clone()),
        JsonValue::Array(items) => {
            let out = clone_values(items);
            proof {
                lemma_array_view(out);
                lemma_array_view(*items);
            }
            JsonValue::Array(out)
        },
        JsonValue::Object(entries) => {
            let out = clone_entries(entries);
            proof {
                lemma_object_view(out);
                lemma_object_view(*entries);
            }
            JsonValue::Object(out)
        },
    }
}

/// Copies of an object's entries.
pub fn clone_entries(entries: &Vec<(String, JsonValue)>) -> (out: Vec<(String, JsonValue)>)
    ensures
        out@.map_values(|e: (String, JsonValue)| (e.0@, e.1@)) == entries@.map_values(
            |e: (String, JsonValue)| (e.0@, e.1@),
        ),
    decreases entries,
{
    let mut out: Vec<(String, JsonValue)> = Vec::new();
    let mut i: usize = 0;
    while i < entries.len()
        invariant
            i <= entries.len(),
            out@.len() == i,
            forall|k: int|
                0 <= k < i ==> #[trigger] out@[k].0@ == entries@[k].0@ && out@[k].1@
                    == entries@[k].1@,
        decreases entries.len() - i,
    {
        assert(decreases_to!(entries => entries@));
        assert(decreases_to!(entries@ => entries@[i as int]));
        assert(decreases_to!(entries@[i as int] => entries@[i as int].1));
        let (k, x) = &entries[i];
        out.push((k.clone(), deep_clone(x)));
        i = i + 1;
    }
    assert(out@.map_values(|e: (String, JsonValue)| (e.0@, e.1@)) =~= entries@.map_values(
        |e: (String, JsonValue)| (e.0@, e.1@),
    ));
    out
}

/// Copies of a sequence of documents.
pub fn clone_values(items: &Vec<JsonValue>) -> (out: Vec<JsonValue>)
    ensures
        values_view(out@) == values_view(items@),
    decreases items,
{
    let mut out: Vec<JsonValue> = Vec::new();
    let mut i: usize = 0;
    while i < items.len()
        invariant
            i <= items.len(),
            out@.len() == i,
            forall|k: int| 0 <= k < i ==> #[trigger] out@[k]@ == items@[k]@,
        decreases items.len() - i,
    {
        assert(decreases_to!(items@ => items@[i as int]));
        out.push(deep_clone(&items[i]));
        i = i + 1;
    }
    assert(values_view(out@) =~= values_view(items@));
    out
}

/// Copies of a sequence of strings.
pub fn clone_strings(items: &Vec<String>) -> (out: Vec<String>)
    ensures
        strings_view(out@) == strings_view(items@),
{
    let mut out: Vec<String> = Vec::new();
    let mut i: usize = 0;
    while i < items.len()
        invariant
            i <= items.len(),
            out@.len() == i,
            forall|k: int| 0 <= k < i ==> #[trigger] out@[k]@ == items@[k]@,
        decreases items.len() - i,
    {
        out.push(items[i].clone());
        i = i + 1;
    }
    assert(strings_view(out@) =~= strings_view(items@));
    out
}

/// Copies of a sequence of string pairs.
pub fn clone_pairs(items: &Vec<(String, String)>) -> (out: Vec<(String, String)>)
    ensures
        pairs_view(out@) == pairs_view(items@),
{
    let mut out: Vec<(String, String)> = Vec::new();
    let mut i: usize = 0;
    while i < items.len()
        invariant
            i <= items.len(),
            out@.len() == i,
            forall|k: int|
                0 <= k < i ==> #[trigger] out@[k].0@ == items@[k].0@ && out@[k].1@ == items@[k].1@,
        decreases items.len() - i,
    {
        out.push((items[i].0.clone(), items[i].1.clone()));
        i = i + 1;
    }
    assert(pairs_view(out@) =~= pairs_view(items@));
    out
}

/// A JSON number read as a `u32`, as `serde` reads one: only a number
/// printed as plain digits (a non-negative integer) with a value that fits.
pub open spec fn json_u32(j: Json) -> Option<u32> {
    match j {
        Json::Number(t) => match read_digits(t, 0) {
            Ok(v) => if t.len() > 0 && v <= u32::MAX {
                Some(v as u32)
            } else {
                None
            },
            Err(_) => None,
        },
        _ => None,
    }
}

/// A JSON array of strings read as its texts.
pub open spec fn json_strings(j: Json) -> Option<Seq<Seq<char>>> {
    match j {
        Json::Array(items) => if forall|i: int| 0 <= i < items.len() ==> #[trigger] items[i] is Str {
            Some(items.map_values(|x: Json| x->Str_0))
        } else {
            None
        },
        _ => None,
    }
}

/// A JSON array read as its items.
pub open spec fn json_values(j: Json) -> Option<Seq<Json>> {
    match j {
        Json::Array(items) => Some(items),
        _ => None,
    }
}

/// Whether no two pairs share a key.
pub open spec fn distinct_pair_keys(ps: Seq<(Seq<char>, Seq<char>)>) -> bool {
    forall|i: int, j: int| 0 <= i < ps.len() && 0 <= j < ps.len() && i != j ==> ps[i].0 != ps[j].0
}

/// The pairs without those whose key is `key`, in order.
pub open spec fn without_key(ps: Seq<(Seq<char>, Seq<char>)>, key: Seq<char>) -> Seq<
    (Seq<char>, Seq<char>),
>
    decreases ps.len(),
{
    if ps.len() == 0 {
        ps
    } else if ps.last().0 == key {
        without_key(ps.drop_last(), key)
    } else {
        without_key(ps.drop_last(), key).push(ps.last())
    }
}

/// The pairs with each key kept once, with the value of its last
/// occurrence, as a map built from them in order keeps it.
pub open spec fn last_per_key(ps: Seq<(Seq<char>, Seq<char>)>) -> Seq<(Seq<char>, Seq<char>)>
    decreases ps.len(),
{
    if ps.len() == 0 {
        ps
    } else {
        without_key(last_per_key(ps.drop_last()), ps.last().0).push(ps.last())
    }
}

/// A JSON object whose members are all strings, read as a map of strings
/// (`HashMap<String, String>`): a key that occurs twice keeps its last value.
pub open spec fn json_string_pairs(j: Json) -> Option<Seq<(Seq<char>, Seq<char>)>> {
    match j {
        Json::Object(es) => if forall|i: int| 0 <= i < es.len() ==> (#[trigger] es[i]).1 is Str {
            Some(last_per_key(es.map_values(|e: (Seq<char>, Json)| (e.0, e.1->Str_0))))
        } else {
            None
        },
        _ => None,
    }
}

/// A string or `null` read as an optional text.
pub open spec fn json_opt_string(j: Json) -> Option<Option<Seq<char>>> {
    match j {
        Json::Null => Some(None),
        Json::Str(s) => Some(Some(s)),
        _ => None,
    }
}

/// Reads a JSON number as a `u32`.
pub fn read_u32(v: &JsonValue) -> (r: Option<u32>)
    ensures
        r == json_u32(v@),
{
    match v {
        JsonValue::Number(t) => {
            let cs = chars_of(t.as_str());
            if cs.len() == 0 {
                return None;
            }
            if cs[0] == '+' {
                assert(!crate::text::is_digit(t@[0]));
                assert(read_digits(t@, 0) is Err);
                return None;
            }
            proof {
                lemma_read_digits_bounded(t@, 0);
                if t@.len() == 1 && t@[0] == '-' {
                    assert(read_digits(t@, 0) is Err);
                }
            }
            match parse_u64(t.as_str()) {
                Ok(x) => {
                    assert(read_digits(t@, 0) == Ok::<int, crate::text::IntParseError>(x as int));
                    if x <= 4294967295 {
                        Some(x as u32)
                    } else {
                        None
                    }
                },
                Err(_) => None,
            }
        },
        _ => None,
    }
}

/// Reads a JSON array of strings.
pub fn read_strings(v: &JsonValue) -> (r: Option<Vec<String>>)
    ensures
        match r {
            Some(out) => json_strings(v@) == Some(strings_view(out@)),
            None => json_strings(v@) is None,
        },
{
    match v {
        JsonValue::Array(items) => {
            proof {
                lemma_array_view(*items);
            }
            let ghost js = values_view(items@);
            let mut out: Vec<String> = Vec::new();
            let mut i: usize = 0;
            while i < items.len()
                invariant
                    i <= items.len(),
                    js.len() == items@.len(),
                    js == values_view(items@),
                    v@ == Json::Array(js),
                    strings_view(out@) == js.take(i as int).map_values(|x: Json| x->Str_0),
                    forall|k: int| 0 <= k < i ==> #[trigger] js[k] is Str,
                decreases items.len() - i,
            {
                assert(js[i as int] == items@[i as int]@);
                let ghost before = out@;
                match as_str(&items[i]) {
                    Some(s) => {
                        out.push(s.clone());
                        assert(js[i as int]->Str_0 == s@);
                        assert(strings_view(out@) =~= strings_view(before).push(s@));
                        assert(js.take(i + 1).map_values(|x: Json| x->Str_0) =~= js.take(
                            i as int,
                        ).map_values(|x: Json| x->Str_0).push(js[i as int]->Str_0));
                    },
                    None => {
                        assert(!(js[i as int] is Str));
                        return None;
                    },
                }
                assert(strings_view(out@) =~= js.take(i + 1).map_values(|x: Json| x->Str_0));
                i = i + 1;
            }
            assert(js.take(i as int) =~= js);
            Some(out)
        },
        _ => None,
    }
}

/// Reads a JSON array as copies of its items.
pub fn read_values(v: &JsonValue) -> (r: Option<Vec<JsonValue>>)
    ensures
        match r {
            Some(out) => json_values(v@) == Some(values_view(out@)),
            None => json_values(v@) is None,
        },
{
    match v {
        JsonValue::Array(items) => {
            proof {
                lemma_array_view(*items);
            }
            Some(clone_values(items))
        },
        _ => None,
    }
}

/// The pairs without those whose key is `key`.
fn remove_key(ps: Vec<(String, String)>, key: &str) -> (r: Vec<(String, String)>)
    ensures
        pairs_view(r@) == without_key(pairs_view(ps@), key@),
{
    let mut r: Vec<(String, String)> = Vec::new();
    let mut i: usize = 0;
    while i < ps.len()
        invariant
            i <= ps.len(),
            pairs_view(r@) == without_key(pairs_view(ps@).take(i as int), key@),
        decreases ps.len() - i,
    {
        let ghost before = r@;
        proof {
            let t = pairs_view(ps@).take(i + 1);
            assert(t.drop_last() =~= pairs_view(ps@).take(i as int));
            assert(t.last() == (ps@[i as int].0@, ps@[i as int].1@));
        }
        if !str_eq(ps[i].0.as_str(), key) {
            r.push((ps[i].0.clone(), ps[i].1.clone()));
            assert(pairs_view(r@) =~= pairs_view(before).push((ps@[i as int].0@, ps@[i as int].1@)));
        }
        i = i + 1;
    }
    assert(pairs_view(ps@).take(ps.len() as int) =~= pairs_view(ps@));
    r
}

/// The pairs with each key kept once, with its last value.
fn keep_last_per_key(ps: &Vec<(String, String)>) -> (r: Vec<(String, String)>)
    ensures
        pairs_view(r@) == last_per_key(pairs_view(ps@)),
{
    let mut r: Vec<(String, String)> = Vec::new();
    let mut i: usize = 0;
    assert(pairs_view(r@) =~= last_per_key(pairs_view(ps@).take(0)));
    while i < ps.len()
        invariant
            i <= ps.len(),
            pairs_view(r@) == last_per_key(pairs_view(ps@).take(i as int)),
        decreases ps.len() - i,
    {
        proof {
            let t = pairs_view(ps@).take(i + 1);
            assert(t.drop_last() =~= pairs_view(ps@).take(i as int));
            assert(t.last() == (ps@[i as int].0@, ps@[i as int].1@));
        }
        r = remove_key(r, ps[i].0.as_str());
        let ghost before = r@;
        r.push((ps[i].0.clone(), ps[i].1.clone()));
        assert(pairs_view(r@) =~= pairs_view(before).push((ps@[i as int].0@, ps@[i as int].1@)));
        i = i + 1;
    }
    assert(pairs_view(ps@).take(ps.len() as int) =~= pairs_view(ps@));
    r
}

/// Reads a JSON object whose members are all strings, each key once.
pub fn read_string_pairs(v: &JsonValue) -> (r: Option<Vec<(String, String)>>)
    ensures
        match r {
            Some(out) => json_string_pairs(v@) == Some(pairs_view(out@)) && distinct_pair_keys(
                pairs_view(out@),
            ),
            None => json_string_pairs(v@) is None,
        },
{
    match v {
        JsonValue::Object(entries) => {
            proof {
                lemma_object_view(*entries);
            }
            let ghost es = v@->Object_0;
            let mut out: Vec<(String, String)> = Vec::new();
            let mut i: usize = 0;
            while i < entries.len()
                invariant
                    i <= entries.len(),
                    es == entries@.map_values(|e: (String, JsonValue)| (e.0@, e.1@)),
                    v@ == Json::Object(es),
                    pairs_view(out@) == es.take(i as int).map_values(
                        |e: (Seq<char>, Json)| (e.0, e.1->Str_0),
                    ),
                    forall|k: int| 0 <= k < i ==> (#[trigger] es[k]).1 is Str,
                decreases entries.len() - i,
            {
                assert(es[i as int] == (entries@[i as int].0@, entries@[i as int].1@));
                let ghost before = out@;
                let (k, x) = &entries[i];
                match as_str(x) {
                    Some(s) => {
                        out.push((k.clone(), s.clone()));
                        assert(pairs_view(out@) =~= pairs_view(before).push((k@, s@)));
                        assert(es.take(i + 1).map_values(|e: (Seq<char>, Json)| (e.0, e.1->Str_0))
                            =~= es.take(i as int).map_values(
                            |e: (Seq<char>, Json)| (e.0, e.1->Str_0),
                        ).push((es[i as int].0, es[i as int].1->Str_0)));
                    },
                    None => {
                        assert(!(es[i as int].1 is Str));
                        return None;
                    },
                }
                i = i + 1;
            }
            assert(es.take(i as int) =~= es);
            let kept = keep_last_per_key(&out);
            proof {
                lemma_last_per_key_distinct(pairs_view(out@));
            }
            Some(kept)
        },
        _ => None,
    }
}

/// Reads a string or `null`.
pub fn read_opt_string(v: &JsonValue) -> (r: Option<Option<String>>)
    ensures
        match r {
            Some(Some(s)) => json_opt_string(v@) == Some(Some(s@)),
            Some(None) => json_opt_string(v@) == Some(None::<Seq<char>>),
            None => json_opt_string(v@) is None,
        },
{
    match v {
        JsonValue::Null => Some(None),
        JsonValue::Str(s) => Some(Some(s.clone())),
        _ => None,
    }
}

/// A JSON array of strings.
pub fn strings_json(items: &Vec<String>) -> (r: JsonValue)
    ensures
        r@ == Json::Array(strings_view(items@).map_values(|s: Seq<char>| Json::Str(s))),
{
    let mut out: Vec<JsonValue> = Vec::new();
    let mut i: usize = 0;
    while i < items.len()
        invariant
            i <= items.len(),
            out@.len() == i,
            forall|k: int| 0 <= k < i ==> #[trigger] out@[k]@ == Json::Str(items@[k]@),
        decreases items.len() - i,
    {
        out.push(JsonValue::Str(items[i].clone()));
        i = i + 1;
    }
    proof {
        lemma_array_view(out);
        assert(values_view(out@) =~= strings_view(items@).map_values(|s: Seq<char>| Json::Str(s)));
    }
    JsonValue::Array(out)
}

/// A JSON object of string members.
pub fn pairs_json(items: &Vec<(String, String)>) -> (r: JsonValue)
    ensures
        r@ == Json::Object(
            pairs_view(items@).map_values(
                |p: (Seq<char>, Seq<char>)| (p.0, Json::Str(p.1)),
            ),
        ),
{
    let mut out: Vec<(String, JsonValue)> = Vec::new();
    let mut i: usize = 0;
    while i < items.len()
        invariant
            i <= items.len(),
            out@.len() == i,
            forall|k: int|
                0 <= k < i ==> #[trigger] out@[k].0@ == items@[k].0@ && out@[k].1@ == Json::Str(
                    items@[k].1@,
                ),
        decreases items.len() - i,
    {
        out.push((items[i].0.clone(), JsonValue::Str(items[i].1.clone())));
        i = i + 1;
    }
    proof {
        lemma_object_view(out);
        assert(out@.map_values(|e: (String, JsonValue)| (e.0@, e.1@)) =~= pairs_view(
            items@,
        ).map_values(|p: (Seq<char>, Seq<char>)| (p.0, Json::Str(p.1))));
    }
    JsonValue::Object(out)
}


// ---------------------------------------------------------------------------
// Fields of a record, read as `serde` reads the fields of a struct
// ---------------------------------------------------------------------------

/// Whether a document can hold a struct of `n` fields: an object (fields by
/// name, other members ignored), or an array of at most `n` items (fields by
/// position, missing trailing fields taken as absent).
pub open spec fn json_record(j: Json, n: nat) -> bool {
    match j {
        Json::Object(_) => true,
        Json::Array(items) => items.len() <= n,
        _ => false,
    }
}

/// The field `key`, the `index`-th of its struct, in a record: the member
/// of that name in an object, the item at that position in an array.
pub open spec fn json_member(j: Json, key: Seq<char>, index: int) -> Option<Json> {
    match j {
        Json::Array(items) => if 0 <= index < items.len() {
            Some(items[index])
        } else {
            None
        },
        _ => json_field(j, key),
    }
}

/// A required string field.
pub open spec fn slot_str(f: Option<Json>) -> Option<Seq<char>> {
    match f {
        Some(x) => json_as_str(x),
        None => None,
    }
}

/// A required boolean field.
pub open spec fn slot_bool(f: Option<Json>) -> Option<bool> {
    match f {
        Some(x) => json_as_bool(x),
        None => None,
    }
}

/// The boolean member `key` of an object.
pub open spec fn json_field_bool(j: Json, key: Seq<char>) -> Option<bool> {
    slot_bool(json_field(j, key))
}

/// A field of any kind that defaults to `null`.
pub open spec fn slot_or_null(f: Option<Json>) -> Json {
    match f {
        Some(x) => x,
        None => Json::Null,
    }
}

/// An optional field of any kind: absent or `null` reads as nothing.
pub open spec fn slot_opt_any(f: Option<Json>) -> Option<Json> {
    match f {
        Some(Json::Null) => None,
        Some(x) => Some(x),
        None => None,
    }
}

/// A `u32` field with a default.
pub open spec fn slot_u32_or(f: Option<Json>, d: u32) -> Option<u32> {
    match f {
        Some(x) => json_u32(x),
        None => Some(d),
    }
}

/// A required field holding an array of strings.
pub open spec fn slot_strings(f: Option<Json>) -> Option<Seq<Seq<char>>> {
    match f {
        Some(x) => json_strings(x),
        None => None,
    }
}

/// A field holding an array of strings, empty by default.
pub open spec fn slot_strings_or_empty(f: Option<Json>) -> Option<Seq<Seq<char>>> {
    match f {
        Some(x) => json_strings(x),
        None => Some(seq![]),
    }
}

/// A field holding an array, empty by default.
pub open spec fn slot_values_or_empty(f: Option<Json>) -> Option<Seq<Json>> {
    match f {
        Some(x) => json_values(x),
        None => Some(seq![]),
    }
}

/// A field holding an object of strings, empty by default.
pub open spec fn slot_pairs_or_empty(f: Option<Json>) -> Option<Seq<(Seq<char>, Seq<char>)>> {
    match f {
        Some(x) => json_string_pairs(x),
        None => Some(seq![]),
    }
}

/// An optional string field: absent or `null` reads as nothing.
pub open spec fn slot_opt_string(f: Option<Json>) -> Option<Option<Seq<char>>> {
    match f {
        Some(x) => json_opt_string(x),
        None => Some(None),
    }
}

/// The model of an optional document reference.
pub open spec fn slot_view(f: Option<&JsonValue>) -> Option<Json> {
    match f {
        Some(x) => Some(x@),
        None => None,
    }
}

/// The field `key`, the `index`-th of its struct, in a record.
pub fn member<'a>(v: &'a JsonValue, key: &str, index: usize) -> (r: Option<&'a JsonValue>)
    ensures
        slot_view(r) == json_member(v@, key@, index as int),
{
    match v {
        JsonValue::Array(items) => {
            proof {
                lemma_array_view(*items);
            }
            if index < items.len() {
                Some(&items[index])
            } else {
                None
            }
        },
        _ => {
            let r = field(v, key);
            r
        },
    }
}

/// Whether a document can hold a struct of `n` fields.
pub fn is_record(v: &JsonValue, n: usize) -> (r: bool)
    ensures
        r == json_record(v@, n as nat),
{
    match v {
        JsonValue::Object(_) => true,
        JsonValue::Array(items) => {
            proof {
                lemma_array_view(*items);
            }
            items.len() <= n
        },
        _ => false,
    }
}

/// Reads a required string field.
pub fn read_slot_str(f: Option<&JsonValue>) -> (r: Option<String>)
    ensures
        opt_string_view(r) == slot_str(slot_view(f)),
{
    match f {
        Some(x) => match as_str(x) {
            Some(s) => Some(s.clone()),
            None => None,
        },
        None => None,
    }
}

/// The text of an optional string.
pub open spec fn opt_string_view(s: Option<String>) -> Option<Seq<char>> {
    match s {
        Some(t) => Some(t@),
        None => None,
    }
}

/// Reads a required boolean field.
pub fn read_slot_bool(f: Option<&JsonValue>) -> (r: Option<bool>)
    ensures
        r == slot_bool(slot_view(f)),
{
    match f {
        Some(x) => as_bool(x),
        None => None,
    }
}

/// Reads the boolean member `key` of an object.
pub fn read_field_bool(v: &JsonValue, key: &str) -> (r: Option<bool>)
    ensures
        r == json_field_bool(v@, key@),
{
    read_slot_bool(field(v, key))
}

/// Reads a required field of any kind.
pub fn read_slot_any(f: Option<&JsonValue>) -> (r: Option<JsonValue>)
    ensures
        opt_value_view(r) == slot_view(f),
{
    match f {
        Some(x) => Some(deep_clone(x)),
        None => None,
    }
}

/// The model of an optional document.
pub open spec fn opt_value_view(v: Option<JsonValue>) -> Option<Json> {
    match v {
        Some(j) => Some(j@),
        None => None,
    }
}

/// Reads a field of any kind that defaults to `null`.
pub fn read_slot_or_null(f: Option<&JsonValue>) -> (r: JsonValue)
    ensures
        r@ == slot_or_null(slot_view(f)),
{
    match f {
        Some(x) => deep_clone(x),
        None => JsonValue::Null,
    }
}

/// Reads an optional field of any kind.
pub fn read_slot_opt_any(f: Option<&JsonValue>) -> (r: Option<JsonValue>)
    ensures
        opt_value_view(r) == slot_opt_any(slot_view(f)),
{
    match f {
        Some(x) => if is_null(x) {
            None
        } else {
            Some(deep_clone(x))
        },
        None => None,
    }
}

/// Reads a `u32` field with a default.
pub fn read_slot_u32_or(f: Option<&JsonValue>, d: u32) -> (r: Option<u32>)
    ensures
        r == slot_u32_or(slot_view(f), d),
{
    match f {
        Some(x) => read_u32(x),
        None => Some(d),
    }
}

/// Reads a required field holding an array of strings.
pub fn read_slot_strings(f: Option<&JsonValue>) -> (r: Option<Vec<String>>)
    ensures
        match r {
            Some(out) => slot_strings(slot_view(f)) == Some(strings_view(out@)),
            None => slot_strings(slot_view(f)) is None,
        },
{
    match f {
        Some(x) => read_strings(x),
        None => None,
    }
}

/// Reads a field holding an array of strings, empty by default.
pub fn read_slot_strings_or_empty(f: Option<&JsonValue>) -> (r: Option<Vec<String>>)
    ensures
        match r {
            Some(out) => slot_strings_or_empty(slot_view(f)) == Some(strings_view(out@)),
            None => slot_strings_or_empty(slot_view(f)) is None,
        },
{
    match f {
        Some(x) => read_strings(x),
        None => {
            let out: Vec<String> = Vec::new();
            assert(strings_view(out@) =~= seq![]);
            Some(out)
        },
    }
}

/// Reads a field holding an array, empty by default.
pub fn read_slot_values_or_empty(f: Option<&JsonValue>) -> (r: Option<Vec<JsonValue>>)
    ensures
        match r {
            Some(out) => slot_values_or_empty(slot_view(f)) == Some(values_view(out@)),
            None => slot_values_or_empty(slot_view(f)) is None,
        },
{
    match f {
        Some(x) => read_values(x),
        None => {
            let out: Vec<JsonValue> = Vec::new();
            assert(values_view(out@) =~= seq![]);
            Some(out)
        },
    }
}

/// Reads a field holding an object of strings, empty by default.
pub fn read_slot_pairs_or_empty(f: Option<&JsonValue>) -> (r: Option<Vec<(String, String)>>)
    ensures
        match r {
            Some(out) => slot_pairs_or_empty(slot_view(f)) == Some(pairs_view(out@))
                && distinct_pair_keys(pairs_view(out@)),
            None => slot_pairs_or_empty(slot_view(f)) is None,
        },
{
    match f {
        Some(x) => read_string_pairs(x),
        None => {
            let out: Vec<(String, String)> = Vec::new();
            assert(pairs_view(out@) =~= seq![]);
            Some(out)
        },
    }
}

/// Reads an optional string field.
pub fn read_slot_opt_string(f: Option<&JsonValue>) -> (r: Option<Option<String>>)
    ensures
        match r {
            Some(o) => slot_opt_string(slot_view(f)) == Some(opt_string_view(o)),
            None => slot_opt_string(slot_view(f)) is None,
        },
{
    match f {
        Some(x) => read_opt_string(x),
        None => Some(None),
    }
}

/// A JSON string.
pub fn string_json(s: &str) -> (r: JsonValue)
    ensures
        r@ == Json::Str(s@),
{
    JsonValue::Str(s.to_owned())
}

/// A string or `null`.
pub fn opt_string_json(s: &Option<String>) -> (r: JsonValue)
    ensures
        r@ == match opt_string_view(*s) {
            Some(t) => Json::Str(t),
            None => Json::Null,
        },
{
    match s {
        Some(t) => JsonValue::Str(t.clone()),
        None => JsonValue::Null,
    }
}


/// Whether no two entries share a key.
pub open spec fn distinct_keys(es: Seq<(Seq<char>, Json)>) -> bool {
    forall|i: int, j: int| 0 <= i < es.len() && 0 <= j < es.len() && i != j ==> es[i].0 != es[j].0
}

/// Among entries with distinct keys, looking a key up finds its entry.
pub proof fn lemma_lookup_distinct(es: Seq<(Seq<char>, Json)>, k: int)
    requires
        distinct_keys(es),
        0 <= k < es.len(),
    ensures
        entries_lookup(es, es[k].0) == Some(es[k].1),
    decreases es.len(),
{
    if k != es.len() - 1 {
        assert(es.last().0 != es[k].0);
        let rest = es.drop_last();
        assert(rest[k] == es[k]);
        lemma_lookup_distinct(rest, k);
    }
}

/// Looking up a key that no entry has finds nothing.
pub proof fn lemma_lookup_absent(es: Seq<(Seq<char>, Json)>, key: Seq<char>)
    requires
        forall|i: int| 0 <= i < es.len() ==> (#[trigger] es[i]).0 != key,
    ensures
        entries_lookup(es, key) is None,
    decreases es.len(),
{
    if es.len() > 0 {
        assert(es[es.len() - 1].0 != key);
        let rest = es.drop_last();
        assert forall|i: int| 0 <= i < rest.len() implies (#[trigger] rest[i]).0 != key by {
            assert(rest[i] == es[i]);
        }
        lemma_lookup_absent(rest, key);
    }
}

/// Strings written as an array of strings read back as themselves.
pub proof fn lemma_strings_roundtrip(ss: Seq<Seq<char>>)
    ensures
        json_strings(Json::Array(ss.map_values(|s: Seq<char>| Json::Str(s)))) == Some(ss),
{
    let items = ss.map_values(|s: Seq<char>| Json::Str(s));
    assert(forall|i: int| 0 <= i < items.len() ==> #[trigger] items[i] is Str);
    assert(items.map_values(|x: Json| x->Str_0) =~= ss);
}

/// Removing a key leaves only pairs that were there, none with that key,
/// and removes nothing when no pair has the key.
pub proof fn lemma_without_key(ps: Seq<(Seq<char>, Seq<char>)>, key: Seq<char>)
    ensures
        forall|i: int|
            #![trigger without_key(ps, key)[i]]
            0 <= i < without_key(ps, key).len() ==> without_key(ps, key)[i].0 != key && ps.contains(
                without_key(ps, key)[i],
            ),
        distinct_pair_keys(ps) ==> distinct_pair_keys(without_key(ps, key)),
        (forall|i: int| 0 <= i < ps.len() ==> (#[trigger] ps[i]).0 != key) ==> without_key(ps, key)
            == ps,
    decreases ps.len(),
{
    if ps.len() > 0 {
        let rest = ps.drop_last();
        lemma_without_key(rest, key);
        let w = without_key(ps, key);
        let wr = without_key(rest, key);
        assert forall|i: int| #![trigger w[i]] 0 <= i < w.len() implies w[i].0 != key && ps.contains(w[i]) by {
            if i < wr.len() {
                assert(w[i] == wr[i]);
                assert(rest.contains(wr[i]));
                let k = choose|k: int| 0 <= k < rest.len() && rest[k] == wr[i];
                assert(ps[k] == rest[k]);
                assert(ps[k] == w[i]);
            } else {
                assert(w[i] == ps.last());
                assert(ps[ps.len() - 1] == ps.last());
                assert(ps.last().0 != key);
            }
        }
        if distinct_pair_keys(ps) {
            assert(distinct_pair_keys(rest)) by {
                assert forall|i: int, j: int|
                    0 <= i < rest.len() && 0 <= j < rest.len() && i != j implies rest[i].0
                    != rest[j].0 by {
                    assert(rest[i] == ps[i] && rest[j] == ps[j]);
                }
            }
            if ps.last().0 != key {
                assert forall|i: int| #![trigger wr[i]] 0 <= i < wr.len() implies wr[i].0 != ps.last().0 by {
                    assert(rest.contains(wr[i]));
                    let k = choose|k: int| 0 <= k < rest.len() && rest[k] == wr[i];
                    assert(ps[k] == rest[k]);
                    assert(ps.last() == ps[ps.len() - 1]);
                }
                assert forall|i: int, j: int|
                    0 <= i < w.len() && 0 <= j < w.len() && i != j implies w[i].0 != w[j].0 by {
                    if i < wr.len() && j < wr.len() {
                        assert(w[i] == wr[i] && w[j] == wr[j]);
                    } else if i < wr.len() {
                        assert(w[i] == wr[i]);
                    } else {
                        assert(w[j] == wr[j]);
                    }
                }
            }
        }
        if forall|i: int| 0 <= i < ps.len() ==> (#[trigger] ps[i]).0 != key {
            assert(ps[ps.len() - 1].0 != key);
            assert forall|i: int| 0 <= i < rest.len() implies (#[trigger] rest[i]).0 != key by {
                assert(rest[i] == ps[i]);
            }
            assert(w =~= ps);
        }
    }
}

/// Keeping the last value per key leaves each key once.
pub proof fn lemma_last_per_key_distinct(ps: Seq<(Seq<char>, Seq<char>)>)
    ensures
        distinct_pair_keys(last_per_key(ps)),
    decreases ps.len(),
{
    if ps.len() > 0 {
        lemma_last_per_key_distinct(ps.drop_last());
        let key = ps.last().0;
        let w = without_key(last_per_key(ps.drop_last()), key);
        lemma_without_key(last_per_key(ps.drop_last()), key);
        let l = last_per_key(ps);
        assert(l == w.push(ps.last()));
        assert forall|i: int, j: int|
            0 <= i < l.len() && 0 <= j < l.len() && i != j implies l[i].0 != l[j].0 by {
            if i < w.len() && j < w.len() {
                assert(l[i] == w[i] && l[j] == w[j]);
            } else if i < w.len() {
                assert(l[i] == w[i]);
            } else {
                assert(l[j] == w[j]);
            }
        }
    }
}

/// Pairs that already have distinct keys are kept as they are.
pub proof fn lemma_last_per_key_distinct_same(ps: Seq<(Seq<char>, Seq<char>)>)
    requires
        distinct_pair_keys(ps),
    ensures
        last_per_key(ps) == ps,
    decreases ps.len(),
{
    if ps.len() > 0 {
        let rest = ps.drop_last();
        assert(distinct_pair_keys(rest)) by {
            assert forall|i: int, j: int|
                0 <= i < rest.len() && 0 <= j < rest.len() && i != j implies rest[i].0
                != rest[j].0 by {
                assert(rest[i] == ps[i] && rest[j] == ps[j]);
            }
        }
        lemma_last_per_key_distinct_same(rest);
        assert forall|i: int| 0 <= i < rest.len() implies (#[trigger] rest[i]).0 != ps.last().0 by {
            assert(rest[i] == ps[i]);
            assert(ps.last() == ps[ps.len() - 1]);
        }
        lemma_without_key(rest, ps.last().0);
        assert(last_per_key(ps) =~= ps);
    }
}

/// String pairs written as an object of strings read back as themselves,
/// when no key occurs twice.
pub proof fn lemma_pairs_roundtrip(ps: Seq<(Seq<char>, Seq<char>)>)
    requires
        distinct_pair_keys(ps),
    ensures
        json_string_pairs(
            Json::Object(ps.map_values(|q: (Seq<char>, Seq<char>)| (q.0, Json::Str(q.1)))),
        ) == Some(ps),
{
    let es = ps.map_values(|q: (Seq<char>, Seq<char>)| (q.0, Json::Str(q.1)));
    assert(forall|i: int| 0 <= i < es.len() ==> (#[trigger] es[i]).1 is Str);
    assert(es.map_values(|e: (Seq<char>, Json)| (e.0, e.1->Str_0)) =~= ps);
    lemma_last_per_key_distinct_same(ps);
}

/// Escaping a text escapes its parts one after the other.
pub proof fn lemma_escaped_concat(s: Seq<char>, t: Seq<char>)
    ensures
        escaped(s + t) == escaped(s) + escaped(t),
    decreases t.len(),
{
    if t.len() == 0 {
        assert(s + t =~= s);
        assert(escaped(t) =~= seq![]);
        assert(escaped(s) + escaped(t) =~= escaped(s));
    } else {
        assert((s + t).drop_last() =~= s + t.drop_last());
        assert((s + t).last() == t.last());
        lemma_escaped_concat(s, t.drop_last());
        assert(escaped(s + t) =~= escaped(s) + escaped(t));
    }
}

/// A text with no quote, no backslash and no control character is printed
/// as itself between quotes.
pub proof fn lemma_plain_text_quoted(s: Seq<char>)
    requires
        forall|i: int|
            0 <= i < s.len() ==> #[trigger] s[i] != '"' && s[i] != '\\' && (s[i] as u32) >= 32,
    ensures
        json_quote(s) == seq!['"'] + s + seq!['"'],
    decreases s.len(),
{
    if s.len() > 0 {
        let r = s.drop_last();
        assert forall|i: int| 0 <= i < r.len() implies #[trigger] r[i] != '"' && r[i] != '\\'
            && (r[i] as u32) >= 32 by {
            assert(r[i] == s[i]);
        }
        lemma_plain_text_quoted(r);
        assert(s.last() == s[s.len() - 1]);
        assert(escaped(r) =~= json_quote(r).subrange(1, r.len() + 1 as int));
        assert(escaped(r) =~= r);
        assert(escaped(s) =~= s);
    }
}

/// No control character is left in an escaped text, so the printed string
/// literal is valid JSON.
pub proof fn lemma_escaped_has_no_control(s: Seq<char>)
    ensures
        forall|i: int| 0 <= i < escaped(s).len() ==> (#[trigger] escaped(s)[i] as u32) >= 32,
    decreases s.len(),
{
    if s.len() > 0 {
        lemma_escaped_has_no_control(s.drop_last());
        let c = s.last();
        let e = escape_char(c);
        assert forall|i: int| 0 <= i < e.len() implies (#[trigger] e[i] as u32) >= 32 by {
            if (c as u32) < 32 && c != '\u{8}' && c != '\t' && c != '\n' && c != '\u{c}' && c
                != '\r' {
                let hi = ((c as u32) / 16) as int;
                let lo = ((c as u32) % 16) as int;
                assert(0 <= hi < 2 && 0 <= lo < 16);
                assert(hex_digit(hi) as int == if hi < 10 { 48 + hi } else { 87 + hi });
                assert(hex_digit(lo) as int == if lo < 10 { 48 + lo } else { 87 + lo });
            }
        }
        let a = escaped(s.drop_last());
        assert forall|i: int| 0 <= i < escaped(s).len() implies (#[trigger] escaped(s)[i] as u32) >= 32 by {
            if i < a.len() {
                assert(escaped(s)[i] == a[i]);
            } else {
                assert(escaped(s)[i] == e[i - a.len()]);
            }
        }
    }
}

/// Whether `text` is what `serde_json` prints for some document in which
/// each of `fields` stands as a member under its name.
pub open spec fn prints_object_with(text: Seq<char>, fields: Seq<(Seq<char>, Json)>) -> bool {
    exists|d: Json|
        #[trigger] json_text(d) == text && forall|i: int|
            0 <= i < fields.len() ==> json_field(d, #[trigger] fields[i].0) == Some(fields[i].1)
}

/// The printed form of an object with distinct member names holds each of
/// its members.
pub proof fn lemma_prints_object(es: Seq<(Seq<char>, Json)>)
    requires
        distinct_keys(es),
    ensures
        prints_object_with(json_text(Json::Object(es)), es),
{
    let d = Json::Object(es);
    assert forall|i: int| 0 <= i < es.len() implies json_field(d, #[trigger] es[i].0) == Some(es[i].1) by {
        lemma_lookup_distinct(es, i);
    }
    assert(json_text(d) == json_text(Json::Object(es)));
}

} // verus!

