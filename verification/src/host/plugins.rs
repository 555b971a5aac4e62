//! Commands run on another plugin through the host's plugin registry.
use vstd::prelude::*;

use crate::host::{call_failure, cause, host_reply, text_result, with_cause};
use crate::json::{
    deep_clone, field, json_field, json_field_bool, json_parse, json_str_field, json_text,
    json_to_string, parse_json, read_field_bool, str_field, string_json, Json, JsonValue,
    distinct_keys, lemma_lookup_distinct,
};
use crate::text::owned;

verus! {

/// The request for `call`:
/// `{"plugin_id": plugin_id, "command": command, "params": params}`.
pub open spec fn call_request(plugin_id: Seq<char>, command: Seq<char>, params: Json) -> Seq<char> {
    json_text(
        Json::Object(
            seq![
                ("plugin_id"@, Json::Str(plugin_id)),
                ("command"@, Json::Str(command)),
                ("params"@, params),
            ],
        ),
    )
}

/// The request for `call`.
pub fn call_input(plugin_id: &str, command: &str, params: &JsonValue) -> (input: String)
    ensures
        input@ == call_request(plugin_id@, command@, params@),
{
    let mut es: Vec<(String, JsonValue)> = Vec::new();
    es.push((owned("plugin_id"), string_json(plugin_id)));
    es.push((owned("command"), string_json(command)));
    es.push((owned("params"), deep_clone(params)));
    let v = JsonValue::Object(es);
    proof {
        crate::json::lemma_object_view(es);
        assert(es@.map_values(|e: (String, JsonValue)| (e.0@, e.1@)) =~= seq![
            ("plugin_id"@, Json::Str(plugin_id@)),
            ("command"@, Json::Str(command@)),
            ("params"@, params@),
        ]);
    }
    json_to_string(&v)
}

/// What `call` gives for a reply: when the reply, read as JSON, has
/// `success` set to `true`, its member `data` (`null` when missing);
/// otherwise its string member `error`, or a generic message.
pub open spec fn call_outcome(raw: Result<Seq<char>, Seq<char>>) -> Result<Json, Seq<char>> {
    match raw {
        Err(e) => Err(call_failure("host_plugin_command"@, e)),
        Ok(t) => match json_parse(t) {
            Err(e) => Err(with_cause("Failed to parse host_plugin_command response: "@, e)),
            Ok(j) => if json_field_bool(j, "success"@) == Some(true) {
                match json_field(j, "data"@) {
                    Some(d) => Ok(d),
                    None => Ok(Json::Null),
                }
            } else {
                match json_str_field(j, "error"@) {
                    Some(m) => Err(m),
                    None => Err("Unknown plugin command error"@),
                }
            },
        },
    }
}

/// What `call` gives for the reply of `host_plugin_command`.
pub fn call_output(raw: Result<String, String>) -> (r: Result<JsonValue, String>)
    ensures
        match r {
            Ok(v) => call_outcome(text_result(raw)) == Ok::<Json, Seq<char>>(v@),
            Err(e) => call_outcome(text_result(raw)) == Err::<Json, Seq<char>>(e@),
        },
{
    let t = match host_reply("host_plugin_command", raw) {
        Ok(t) => t,
        Err(e) => return Err(e),
    };
    let response = match parse_json(t.as_str()) {
        Ok(v) => v,
        Err(e) => return Err(cause("Failed to parse host_plugin_command response: ", e)),
    };
    if read_field_bool(&response, "success") == Some(true) {
        match field(&response, "data") {
            Some(d) => Ok(deep_clone(d)),
            None => Ok(JsonValue::Null),
        }
    } else {
        match str_field(&response, "error") {
            Some(m) => Err(m),
            None => Err(owned("Unknown plugin command error")),
        }
    }
}

/// The request for a plugin call is the printed form of an object that
/// names the plugin and the command and carries the parameters exactly as
/// given.
pub proof fn lemma_call_request_carries(plugin_id: Seq<char>, command: Seq<char>, params: Json)
    ensures
        exists|d: Json|
            {
                &&& call_request(plugin_id, command, params) == json_text(d)
                &&& json_field(d, "plugin_id"@) == Some(Json::Str(plugin_id))
                &&& json_field(d, "command"@) == Some(Json::Str(command))
                &&& json_field(d, "params"@) == Some(params)
            },
{
    reveal_strlit("plugin_id");
    reveal_strlit("command");
    reveal_strlit("params");
    let es = seq![
        ("plugin_id"@, Json::Str(plugin_id)),
        ("command"@, Json::Str(command)),
        ("params"@, params),
    ];
    let d = Json::Object(es);
    assert(es[0].0 == "plugin_id"@ && es[1].0 == "command"@ && es[2].0 == "params"@);
    assert(distinct_keys(es));
    lemma_lookup_distinct(es, 0);
    lemma_lookup_distinct(es, 1);
    lemma_lookup_distinct(es, 2);
    assert(call_request(plugin_id, command, params) == json_text(d));
}

} // verus!

