//! The secret store for credentials, kept apart from plugin storage.
use vstd::prelude::*;

use crate::host::{call_failure, host_reply, text_result, unit_reply, unit_result};
use crate::host::storage::{get_input, key_request};
use crate::json::{distinct_keys, lemma_prints_object, prints_object_with, 
    json_parse, json_str_field, json_text, json_to_string, parse_json, single_string_object, str_field,
    string_json, Json, JsonValue,
};
use crate::text::owned;

verus! {

/// The request for `get` and `delete`: `{"key": key}`.
pub fn key_input(key: &str) -> (input: String)
    ensures
        input@ == key_request(key@),
{
    get_input(key)
}

/// What `get` gives for a reply. An empty reply is a missing secret; a
/// reply that is JSON with a string member `value` holds the secret (an
/// empty one is a missing secret); any other reply is the secret itself.
pub open spec fn get_outcome(raw: Result<Seq<char>, Seq<char>>) -> Result<Option<Seq<char>>, Seq<char>> {
    match raw {
        Err(e) => Err(call_failure("host_secret_get"@, e)),
        Ok(t) => if t.len() == 0 {
            Ok(None)
        } else {
            match json_parse(t) {
                Ok(j) => match json_str_field(j, "value"@) {
                    Some(v) => if v.len() == 0 {
                        Ok(None)
                    } else {
                        Ok(Some(v))
                    },
                    None => Ok(Some(t)),
                },
                Err(_) => Ok(Some(t)),
            }
        },
    }
}

/// The text of an optional text outcome.
pub open spec fn opt_text_result(r: Result<Option<String>, String>) -> Result<Option<Seq<char>>, Seq<char>> {
    match r {
        Ok(Some(s)) => Ok(Some(s@)),
        Ok(None) => Ok(None),
        Err(e) => Err(e@),
    }
}

/// What `get` gives for the reply of `host_secret_get`. In particular,
/// when the host answers with the object `{"value": ...}` holding a secret
/// (as it does after `set` stored it), the result is that secret, or no
/// secret when it is empty.
pub fn get_output(raw: Result<String, String>) -> (r: Result<Option<String>, String>)
    ensures
        opt_text_result(r) == get_outcome(text_result(raw)),
        forall|value: Seq<char>|
            #![trigger single_string_object("value"@, value)]
            text_result(raw) == Ok::<Seq<char>, Seq<char>>(
                json_text(single_string_object("value"@, value)),
            ) ==> opt_text_result(r) == if value.len() == 0 {
                Ok::<Option<Seq<char>>, Seq<char>>(None)
            } else {
                Ok(Some(value))
            },
{
    let t = match host_reply("host_secret_get", raw) {
        Ok(t) => t,
        Err(e) => return Err(e),
    };
    let parsed = parse_json(t.as_str());
    proof {
        assert forall|value: Seq<char>|
            #![trigger single_string_object("value"@, value)]
            t@ == json_text(single_string_object("value"@, value)) implies get_outcome(Ok(t@))
                == if value.len() == 0 {
                Ok::<Option<Seq<char>>, Seq<char>>(None)
            } else {
                Ok(Some(value))
            } by {
            reveal_strlit("value");
            lemma_set_then_get(value, t@);
        }
    }
    if t.as_str().is_empty() {
        return Ok(None);
    }
    match parsed {
        Ok(obj) => match str_field(&obj, "value") {
            Some(v) => {
                if v.as_str().is_empty() {
                    return Ok(None);
                }
                return Ok(Some(v));
            },
            None => {},
        },
        Err(_) => {},
    }
    Ok(Some(t))
}

/// The request for `set`: `{"key": key, "value": value}`.
pub open spec fn set_request(key: Seq<char>, value: Seq<char>) -> Seq<char> {
    json_text(Json::Object(seq![("key"@, Json::Str(key)), ("value"@, Json::Str(value))]))
}

/// The request for `set`.
pub fn set_input(key: &str, value: &str) -> (input: String)
    ensures
        input@ == set_request(key@, value@),
{
    let mut es: Vec<(String, JsonValue)> = Vec::new();
    es.push((owned("key"), string_json(key)));
    es.push((owned("value"), string_json(value)));
    let v = JsonValue::Object(es);
    proof {
        crate::json::lemma_object_view(es);
        assert(es@.map_values(|e: (String, JsonValue)| (e.0@, e.1@)) =~= seq![
            ("key"@, Json::Str(key@)),
            ("value"@, Json::Str(value@)),
        ]);
    }
    json_to_string(&v)
}

/// What `set` gives for the reply of `host_secret_set`.
pub fn set_output(raw: Result<String, String>) -> (r: Result<(), String>)
    ensures
        unit_result(r) == match text_result(raw) {
            Ok(_) => Ok::<(), Seq<char>>(()),
            Err(e) => Err(call_failure("host_secret_set"@, e)),
        },
{
    unit_reply("host_secret_set", raw)
}

/// What `delete` gives for the reply of `host_secret_delete`.
pub fn delete_output(raw: Result<String, String>) -> (r: Result<(), String>)
    ensures
        unit_result(r) == match text_result(raw) {
            Ok(_) => Ok::<(), Seq<char>>(()),
            Err(e) => Err(call_failure("host_secret_delete"@, e)),
        },
{
    unit_reply("host_secret_delete", raw)
}

/// A secret stored by `set` comes back from `get`: when the host answers
/// with a JSON object whose member `value` is the secret that `set` sent,
/// `get` gives that secret, or no secret when it was empty.
pub proof fn lemma_set_then_get(value: Seq<char>, reply: Seq<char>)
    requires
        reply.len() > 0,
        json_parse(reply) matches Ok(j) && json_str_field(j, "value"@) == Some(value),
    ensures
        get_outcome(Ok(reply)) == if value.len() == 0 {
            Ok::<Option<Seq<char>>, Seq<char>>(None)
        } else {
            Ok(Some(value))
        },
{
}

/// The request that stores a secret carries the key and the secret.
pub proof fn lemma_set_request_carries(key: Seq<char>, value: Seq<char>)
    ensures
        prints_object_with(
            set_request(key, value),
            seq![
                ("key"@, Json::Str(key)),
                ("value"@, Json::Str(value)),
            ],
        ),
{
    reveal_strlit("key");
    reveal_strlit("value");
    let es = seq![
        ("key"@, Json::Str(key)),
        ("value"@, Json::Str(value)),
    ];
    assert(es[0].0.len() == 3 && es[1].0.len() == 5);
    assert(distinct_keys(es));
    lemma_prints_object(es);
}

} // verus!
