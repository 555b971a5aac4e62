//! Objects in namespaces, uploaded, deleted and listed through the host, and
//! the audiences that may read them.
use vstd::prelude::*;

use crate::encoding::{base64_encode, base64_text};
use crate::host::{call_failure, host_reply, text_result, unit_result, with_cause};
use crate::json::{distinct_keys, lemma_prints_object, prints_object_with, json_parse, json_str_field, json_text, json_to_string, parse_json, str_field, string_json, Json, JsonValue};
use crate::text::owned;

verus! {

/// Metadata of one object in a namespace.
#[derive(Debug)]
pub struct ObjectMeta {
    pub key: String,
    pub audience: Option<String>,
    pub mime_type: Option<String>,
}

/// The request for `put_object`.
pub open spec fn put_object_request(
    ns_id: Seq<char>,
    key: Seq<char>,
    bytes: Seq<u8>,
    mime_type: Seq<char>,
    audience: Seq<char>,
) -> Seq<char> {
    json_text(
        Json::Object(
            seq![
                ("ns_id"@, Json::Str(ns_id)),
                ("key"@, Json::Str(key)),
                ("body_base64"@, Json::Str(base64_text(bytes))),
                ("mime_type"@, Json::Str(mime_type)),
                ("audience"@, Json::Str(audience)),
            ],
        ),
    )
}

/// The request for `put_object`: the namespace, key, content as Base64,
/// MIME type and audience.
pub fn put_object_input(
    ns_id: &str,
    key: &str,
    bytes: &[u8],
    mime_type: &str,
    audience: &str,
) -> (input: String)
    requires
        bytes@.len() / 3 * 4 + 4 <= usize::MAX,
    ensures
        input@ == put_object_request(ns_id@, key@, bytes@, mime_type@, audience@),
{
    let mut es: Vec<(String, JsonValue)> = Vec::new();
    es.push((owned("ns_id"), string_json(ns_id)));
    es.push((owned("key"), string_json(key)));
    es.push((owned("body_base64"), JsonValue::Str(base64_encode(bytes))));
    es.push((owned("mime_type"), string_json(mime_type)));
    es.push((owned("audience"), string_json(audience)));
    let v = JsonValue::Object(es);
    proof {
        crate::json::lemma_object_view(es);
        assert(es@.map_values(|e: (String, JsonValue)| (e.0@, e.1@)) =~= seq![
            ("ns_id"@, Json::Str(ns_id@)),
            ("key"@, Json::Str(key@)),
            ("body_base64"@, Json::Str(base64_text(bytes@))),
            ("mime_type"@, Json::Str(mime_type@)),
            ("audience"@, Json::Str(audience@)),
        ]);
    }
    json_to_string(&v)
}

/// The request for `delete_object`: `{"ns_id": ns_id, "key": key}`.
pub open spec fn delete_object_request(ns_id: Seq<char>, key: Seq<char>) -> Seq<char> {
    json_text(Json::Object(seq![("ns_id"@, Json::Str(ns_id)), ("key"@, Json::Str(key))]))
}

/// The request for `delete_object`.
pub fn delete_object_input(ns_id: &str, key: &str) -> (input: String)
    ensures
        input@ == delete_object_request(ns_id@, key@),
{
    let mut es: Vec<(String, JsonValue)> = Vec::new();
    es.push((owned("ns_id"), string_json(ns_id)));
    es.push((owned("key"), string_json(key)));
    let v = JsonValue::Object(es);
    proof {
        crate::json::lemma_object_view(es);
        assert(es@.map_values(|e: (String, JsonValue)| (e.0@, e.1@)) =~= seq![
            ("ns_id"@, Json::Str(ns_id@)),
            ("key"@, Json::Str(key@)),
        ]);
    }
    json_to_string(&v)
}

/// The request for `list_objects`: `{"ns_id": ns_id}`.
pub open spec fn list_objects_request(ns_id: Seq<char>) -> Seq<char> {
    json_text(Json::Object(seq![("ns_id"@, Json::Str(ns_id))]))
}

/// The request for `list_objects`.
pub fn list_objects_input(ns_id: &str) -> (input: String)
    ensures
        input@ == list_objects_request(ns_id@),
{
    let mut es: Vec<(String, JsonValue)> = Vec::new();
    es.push((owned("ns_id"), string_json(ns_id)));
    let v = JsonValue::Object(es);
    proof {
        crate::json::lemma_object_view(es);
        assert(es@.map_values(|e: (String, JsonValue)| (e.0@, e.1@)) =~= seq![
            ("ns_id"@, Json::Str(ns_id@)),
        ]);
    }
    json_to_string(&v)
}

/// The request for `sync_audience`:
/// `{"ns_id": ns_id, "audience": audience, "access": access}`.
pub open spec fn sync_audience_request(ns_id: Seq<char>, audience: Seq<char>, access: Seq<char>) -> Seq<char> {
    json_text(
        Json::Object(
            seq![
                ("ns_id"@, Json::Str(ns_id)),
                ("audience"@, Json::Str(audience)),
                ("access"@, Json::Str(access)),
            ],
        ),
    )
}

/// The request for `sync_audience`.
pub fn sync_audience_input(ns_id: &str, audience: &str, access: &str) -> (input: String)
    ensures
        input@ == sync_audience_request(ns_id@, audience@, access@),
{
    let mut es: Vec<(String, JsonValue)> = Vec::new();
    es.push((owned("ns_id"), string_json(ns_id)));
    es.push((owned("audience"), string_json(audience)));
    es.push((owned("access"), string_json(access)));
    let v = JsonValue::Object(es);
    proof {
        crate::json::lemma_object_view(es);
        assert(es@.map_values(|e: (String, JsonValue)| (e.0@, e.1@)) =~= seq![
            ("ns_id"@, Json::Str(ns_id@)),
            ("audience"@, Json::Str(audience@)),
            ("access"@, Json::Str(access@)),
        ]);
    }
    json_to_string(&v)
}

/// What a namespace call gives for a reply: the reply must be JSON, and a
/// string member `error` in it is the failure.
pub open spec fn status_outcome(
    name: Seq<char>,
    what: Seq<char>,
    raw: Result<Seq<char>, Seq<char>>,
) -> Result<(), Seq<char>> {
    match raw {
        Err(e) => Err(call_failure(name, e)),
        Ok(t) => match json_parse(t) {
            Err(e) => Err(with_cause("Failed to parse "@ + what + " response: "@, e)),
            Ok(j) => match json_str_field(j, "error"@) {
                Some(m) => Err(m),
                None => Ok(()),
            },
        },
    }
}

/// What the namespace call `name` (an operation `what`) gives for its reply.
fn status_output(name: &str, what: &str, raw: Result<String, String>) -> (r: Result<(), String>)
    ensures
        unit_result(r) == status_outcome(name@, what@, text_result(raw)),
{
    let t = match host_reply(name, raw) {
        Ok(t) => t,
        Err(e) => return Err(e),
    };
    match parse_json(t.as_str()) {
        Err(e) => {
            let mut m = crate::text::concat("Failed to parse ", what);
            m.append(" response: ");
            m.append(e.as_str());
            Err(m)
        },
        Ok(v) => match str_field(&v, "error") {
            Some(m) => Err(m),
            None => Ok(()),
        },
    }
}

/// What `put_object` gives for the reply of `host_namespace_put_object`.
pub fn put_object_output(raw: Result<String, String>) -> (r: Result<(), String>)
    ensures
        unit_result(r) == status_outcome("host_namespace_put_object"@, "put_object"@, text_result(raw)),
{
    status_output("host_namespace_put_object", "put_object", raw)
}

/// What `delete_object` gives for the reply of
/// `host_namespace_delete_object`.
pub fn delete_object_output(raw: Result<String, String>) -> (r: Result<(), String>)
    ensures
        unit_result(r) == status_outcome(
            "host_namespace_delete_object"@,
            "delete_object"@,
            text_result(raw),
        ),
{
    status_output("host_namespace_delete_object", "delete_object", raw)
}

/// What `sync_audience` gives for the reply of
/// `host_namespace_sync_audience`.
pub fn sync_audience_output(raw: Result<String, String>) -> (r: Result<(), String>)
    ensures
        unit_result(r) == status_outcome(
            "host_namespace_sync_audience"@,
            "sync_audience"@,
            text_result(raw),
        ),
{
    status_output("host_namespace_sync_audience", "sync_audience", raw)
}

/// The reply of `host_namespace_list_objects`, before it is read as a list
/// of objects.
pub fn list_objects_reply(raw: Result<String, String>) -> (r: Result<String, String>)
    ensures
        text_result(r) == crate::host::reply_of("host_namespace_list_objects"@, text_result(raw)),
{
    host_reply("host_namespace_list_objects", raw)
}

/// The request that stores an object carries the namespace, the key, the
/// bytes as Base64, the MIME type and the audience.
pub proof fn lemma_put_object_request_carries(
    ns_id: Seq<char>,
    key: Seq<char>,
    bytes: Seq<u8>,
    mime_type: Seq<char>,
    audience: Seq<char>,
)
    ensures
        prints_object_with(
            put_object_request(ns_id, key, bytes, mime_type, audience),
            seq![
                ("ns_id"@, Json::Str(ns_id)),
                ("key"@, Json::Str(key)),
                ("body_base64"@, Json::Str(base64_text(bytes))),
                ("mime_type"@, Json::Str(mime_type)),
                ("audience"@, Json::Str(audience)),
            ],
        ),
{
    reveal_strlit("ns_id");
    reveal_strlit("key");
    reveal_strlit("body_base64");
    reveal_strlit("mime_type");
    reveal_strlit("audience");
    let es = seq![
        ("ns_id"@, Json::Str(ns_id)),
        ("key"@, Json::Str(key)),
        ("body_base64"@, Json::Str(base64_text(bytes))),
        ("mime_type"@, Json::Str(mime_type)),
        ("audience"@, Json::Str(audience)),
    ];
    assert(es[0].0.len() == 5 && es[1].0.len() == 3 && es[2].0.len() == 11 && es[3].0.len() == 9 && es[4].0.len() == 8);
    assert(distinct_keys(es));
    lemma_prints_object(es);
}

/// The request that deletes an object carries the namespace and the key.
pub proof fn lemma_delete_object_request_carries(ns_id: Seq<char>, key: Seq<char>)
    ensures
        prints_object_with(
            delete_object_request(ns_id, key),
            seq![
                ("ns_id"@, Json::Str(ns_id)),
                ("key"@, Json::Str(key)),
            ],
        ),
{
    reveal_strlit("ns_id");
    reveal_strlit("key");
    let es = seq![
        ("ns_id"@, Json::Str(ns_id)),
        ("key"@, Json::Str(key)),
    ];
    assert(es[0].0.len() == 5 && es[1].0.len() == 3);
    assert(distinct_keys(es));
    lemma_prints_object(es);
}

/// The request that lists objects carries the namespace.
pub proof fn lemma_list_objects_request_carries(ns_id: Seq<char>)
    ensures
        prints_object_with(
            list_objects_request(ns_id),
            seq![
                ("ns_id"@, Json::Str(ns_id)),
            ],
        ),
{
    reveal_strlit("ns_id");
    let es = seq![
        ("ns_id"@, Json::Str(ns_id)),
    ];
    assert(es[0].0.len() == 5);
    assert(distinct_keys(es));
    lemma_prints_object(es);
}

/// The request that syncs an audience carries the namespace, the audience and the access.
pub proof fn lemma_sync_audience_request_carries(ns_id: Seq<char>, audience: Seq<char>, access: Seq<char>)
    ensures
        prints_object_with(
            sync_audience_request(ns_id, audience, access),
            seq![
                ("ns_id"@, Json::Str(ns_id)),
                ("audience"@, Json::Str(audience)),
                ("access"@, Json::Str(access)),
            ],
        ),
{
    reveal_strlit("ns_id");
    reveal_strlit("audience");
    reveal_strlit("access");
    let es = seq![
        ("ns_id"@, Json::Str(ns_id)),
        ("audience"@, Json::Str(audience)),
        ("access"@, Json::Str(access)),
    ];
    assert(es[0].0.len() == 5 && es[1].0.len() == 8 && es[2].0.len() == 6);
    assert(distinct_keys(es));
    lemma_prints_object(es);
}

} // verus!
