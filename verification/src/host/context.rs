//! The runtime context that the host describes (platform, version,
//! workspace).
use vstd::prelude::*;

use crate::host::{call_failure, cause, host_reply, text_result, with_cause};
use crate::json::{json_parse, parse_json, Json, JsonValue};
use crate::text::{trim, trimmed};

verus! {

/// What `get` gives for a reply: an empty object when the reply is blank,
/// else the reply read as JSON.
pub open spec fn get_outcome(raw: Result<Seq<char>, Seq<char>>) -> Result<Json, Seq<char>> {
    match raw {
        Err(e) => Err(call_failure("host_get_runtime_context"@, e)),
        Ok(t) => if trimmed(t).len() == 0 {
            Ok(Json::Object(seq![]))
        } else {
            match json_parse(t) {
                Ok(j) => Ok(j),
                Err(e) => Err(with_cause("Failed to parse host_get_runtime_context response: "@, e)),
            }
        },
    }
}

/// What `get` gives for the reply of `host_get_runtime_context`.
pub fn get_output(raw: Result<String, String>) -> (r: Result<JsonValue, String>)
    ensures
        match r {
            Ok(v) => get_outcome(text_result(raw)) == Ok::<Json, Seq<char>>(v@),
            Err(e) => get_outcome(text_result(raw)) == Err::<Json, Seq<char>>(e@),
        },
{
    let t = match host_reply("host_get_runtime_context", raw) {
        Ok(t) => t,
        Err(e) => return Err(e),
    };
    let blank = trim(t.as_str());
    if blank.as_str().is_empty() {
        let es: Vec<(String, JsonValue)> = Vec::new();
        proof {
            crate::json::lemma_object_view(es);
            assert(es@.map_values(|e: (String, JsonValue)| (e.0@, e.1@)) =~= seq![]);
        }
        return Ok(JsonValue::Object(es));
    }
    match parse_json(t.as_str()) {
        Ok(v) => Ok(v),
        Err(e) => Err(cause("Failed to parse host_get_runtime_context response: ", e)),
    }
}

} // verus!
