//! Plugin-scoped key-value storage. The host namespaces keys by plugin and
//! keeps values as Base64 text.
use vstd::prelude::*;

use crate::encoding::{
    base64_decode_error, base64_decoding, base64_encode, base64_text, decode_base64,
    lemma_decoding_roundtrip,
};
use crate::host::{call_failure, cause, host_reply, text_result, unit_reply, unit_result, with_cause};
use crate::json::{distinct_keys, lemma_prints_object, prints_object_with, 
    is_null, json_parse, json_str_field, json_text, json_to_string, parse_json,
    single_string_object, str_field, string_json, Json, JsonValue,
};
use crate::text::owned;

verus! {

/// The request that names a key: `{"key": key}`.
pub open spec fn key_request(key: Seq<char>) -> Seq<char> {
    json_text(Json::Object(seq![("key"@, Json::Str(key))]))
}

/// The request for `get`.
pub fn get_input(key: &str) -> (input: String)
    ensures
        input@ == key_request(key@),
{
    let mut es: Vec<(String, JsonValue)> = Vec::new();
    es.push((owned("key"), string_json(key)));
    let v = JsonValue::Object(es);
    proof {
        crate::json::lemma_object_view(es);
        assert(es@.map_values(|e: (String, JsonValue)| (e.0@, e.1@)) =~= seq![("key"@, Json::Str(key@))]);
    }
    json_to_string(&v)
}

/// Reads stored Base64 text as bytes.
pub open spec fn stored_bytes(t: Seq<char>) -> Result<Option<Seq<u8>>, Seq<char>> {
    match base64_decoding(t) {
        Some(b) => Ok(Some(b)),
        None => Err(with_cause("Failed to decode storage data: "@, base64_decode_error(t))),
    }
}

/// What `get` gives for a reply. An empty reply is a missing key. A reply
/// that is JSON with a string member `data` holds the value as Base64 (an
/// empty one is a missing key); a JSON `null` is a missing key; any other
/// reply is taken as the Base64 text itself.
pub open spec fn get_outcome(raw: Result<Seq<char>, Seq<char>>) -> Result<Option<Seq<u8>>, Seq<char>> {
    match raw {
        Err(e) => Err(call_failure("host_storage_get"@, e)),
        Ok(t) => if t.len() == 0 {
            Ok(None)
        } else {
            match json_parse(t) {
                Ok(j) => match json_str_field(j, "data"@) {
                    Some(d) => if d.len() == 0 {
                        Ok(None)
                    } else {
                        stored_bytes(d)
                    },
                    None => if j == Json::Null {
                        Ok(None)
                    } else {
                        stored_bytes(t)
                    },
                },
                Err(_) => stored_bytes(t),
            }
        },
    }
}

/// The bytes of an optional byte outcome.
pub open spec fn opt_bytes_result(r: Result<Option<Vec<u8>>, String>) -> Result<Option<Seq<u8>>, Seq<char>> {
    match r {
        Ok(Some(b)) => Ok(Some(b@)),
        Ok(None) => Ok(None),
        Err(e) => Err(e@),
    }
}

/// Decodes stored Base64 text.
fn decode_stored(t: &str) -> (r: Result<Option<Vec<u8>>, String>)
    ensures
        opt_bytes_result(r) == stored_bytes(t@),
{
    match decode_base64(t) {
        Ok(b) => Ok(Some(b)),
        Err(e) => Err(cause("Failed to decode storage data: ", e)),
    }
}

/// What `get` gives for the reply of `host_storage_get`. In particular,
/// when the host answers with the object `{"data": ...}` that holds the
/// Base64 text of some bytes (as it does after `set` stored them), the
/// result is those bytes, or a missing key for the empty value that
/// `delete` stores.
pub fn get_output(raw: Result<String, String>) -> (r: Result<Option<Vec<u8>>, String>)
    ensures
        opt_bytes_result(r) == get_outcome(text_result(raw)),
        forall|data: Seq<u8>|
            #![trigger single_string_object("data"@, base64_text(data))]
            text_result(raw) == Ok::<Seq<char>, Seq<char>>(
                json_text(single_string_object("data"@, base64_text(data))),
            ) ==> opt_bytes_result(r) == if data.len() == 0 {
                Ok::<Option<Seq<u8>>, Seq<char>>(None)
            } else {
                Ok(Some(data))
            },
{
    let t = match host_reply("host_storage_get", raw) {
        Ok(t) => t,
        Err(e) => return Err(e),
    };
    let parsed = parse_json(t.as_str());
    proof {
        assert forall|data: Seq<u8>|
            #![trigger single_string_object("data"@, base64_text(data))]
            t@ == json_text(single_string_object("data"@, base64_text(data))) implies get_outcome(
                Ok(t@),
            ) == if data.len() == 0 {
                Ok::<Option<Seq<u8>>, Seq<char>>(None)
            } else {
                Ok(Some(data))
            } by {
            reveal_strlit("data");
            lemma_set_then_get(data, t@);
        }
    }
    if t.as_str().is_empty() {
        return Ok(None);
    }
    match parsed {
        Ok(obj) => {
            match str_field(&obj, "data") {
                Some(d) => {
                    if d.as_str().is_empty() {
                        return Ok(None);
                    }
                    return decode_stored(d.as_str());
                },
                None => {
                    if is_null(&obj) {
                        return Ok(None);
                    }
                },
            }
        },
        Err(_) => {},
    }
    decode_stored(t.as_str())
}

/// The request for `set`: `{"key": key, "data": <Base64 of data>}`.
pub open spec fn set_request(key: Seq<char>, data: Seq<u8>) -> Seq<char> {
    json_text(Json::Object(seq![("key"@, Json::Str(key)), ("data"@, Json::Str(base64_text(data)))]))
}

/// The request for `set`.
pub fn set_input(key: &str, data: &[u8]) -> (input: String)
    requires
        data@.len() / 3 * 4 + 4 <= usize::MAX,
    ensures
        input@ == set_request(key@, data@),
{
    let encoded = base64_encode(data);
    let mut es: Vec<(String, JsonValue)> = Vec::new();
    es.push((owned("key"), string_json(key)));
    es.push((owned("data"), JsonValue::Str(encoded)));
    let v = JsonValue::Object(es);
    proof {
        crate::json::lemma_object_view(es);
        assert(es@.map_values(|e: (String, JsonValue)| (e.0@, e.1@)) =~= seq![
            ("key"@, Json::Str(key@)),
            ("data"@, Json::Str(base64_text(data@))),
        ]);
    }
    json_to_string(&v)
}

/// What `set` gives for the reply of `host_storage_set`.
pub fn set_output(raw: Result<String, String>) -> (r: Result<(), String>)
    ensures
        unit_result(r) == match text_result(raw) {
            Ok(_) => Ok::<(), Seq<char>>(()),
            Err(e) => Err(call_failure("host_storage_set"@, e)),
        },
{
    unit_reply("host_storage_set", raw)
}

/// The request for `delete`: the key is set to the empty value (the host
/// has no delete call for storage).
pub fn delete(key: &str) -> (input: String)
    ensures
        input@ == set_request(key@, seq![]),
{
    let empty: [u8; 0] = [];
    set_input(key, &empty)
}

/// A value stored by `set` comes back from `get`: when the host answers
/// with the JSON object `{"data": ...}` holding the Base64 text that `set`
/// sent, `get` gives the bytes that were set, or a missing key for the
/// empty value that `delete` stores.
pub proof fn lemma_set_then_get(data: Seq<u8>, reply: Seq<char>)
    requires
        reply.len() > 0,
        json_parse(reply) matches Ok(j) && json_str_field(j, "data"@) == Some(base64_text(data)),
    ensures
        get_outcome(Ok(reply)) == if data.len() == 0 {
            Ok::<Option<Seq<u8>>, Seq<char>>(None)
        } else {
            Ok(Some(data))
        },
{
    lemma_decoding_roundtrip(data);
    crate::encoding::lemma_base64_len(data);
}

/// The host may also answer with the bare Base64 text that `set` sent: then
/// `get` gives back the bytes too, unless that text is itself JSON (such as
/// `null`, the text of the bytes `9e e9 65`, which reads as a missing key).
pub proof fn lemma_set_then_get_raw(data: Seq<u8>)
    requires
        data.len() > 0,
        json_parse(base64_text(data)) is Err,
    ensures
        get_outcome(Ok(base64_text(data))) == Ok::<Option<Seq<u8>>, Seq<char>>(Some(data)),
{
    lemma_decoding_roundtrip(data);
    crate::encoding::lemma_base64_len(data);
}

/// The request that names a stored value carries its key.
pub proof fn lemma_key_request_carries(key: Seq<char>)
    ensures
        prints_object_with(
            key_request(key),
            seq![
                ("key"@, Json::Str(key)),
            ],
        ),
{
    reveal_strlit("key");
    let es = seq![
        ("key"@, Json::Str(key)),
    ];
    assert(es[0].0.len() == 3);
    assert(distinct_keys(es));
    lemma_prints_object(es);
}

/// The request that stores bytes carries the key and the bytes as Base64 text.
pub proof fn lemma_set_request_carries(key: Seq<char>, data: Seq<u8>)
    ensures
        prints_object_with(
            set_request(key, data),
            seq![
                ("key"@, Json::Str(key)),
                ("data"@, Json::Str(base64_text(data))),
            ],
        ),
{
    reveal_strlit("key");
    reveal_strlit("data");
    let es = seq![
        ("key"@, Json::Str(key)),
        ("data"@, Json::Str(base64_text(data))),
    ];
    assert(es[0].0.len() == 3 && es[1].0.len() == 4);
    assert(distinct_keys(es));
    lemma_prints_object(es);
}

} // verus!
