//! Structured logging through the host's logging system.
use vstd::prelude::*;

use crate::json::{distinct_keys, lemma_prints_object, prints_object_with, json_text, json_to_string, string_json, Json, JsonValue};
use crate::text::owned;

verus! {

/// The request for `log`: `{"level": level, "message": message}`.
pub open spec fn log_request(level: Seq<char>, message: Seq<char>) -> Seq<char> {
    json_text(Json::Object(seq![("level"@, Json::Str(level)), ("message"@, Json::Str(message))]))
}

/// The request that logs `message` at `level` (`"trace"`, `"debug"`,
/// `"info"`, `"warn"` or `"error"`).
pub fn log(level: &str, message: &str) -> (input: String)
    ensures
        input@ == log_request(level@, message@),
{
    let mut es: Vec<(String, JsonValue)> = Vec::new();
    es.push((owned("level"), string_json(level)));
    es.push((owned("message"), string_json(message)));
    let v = JsonValue::Object(es);
    proof {
        crate::json::lemma_object_view(es);
        assert(es@.map_values(|e: (String, JsonValue)| (e.0@, e.1@)) =~= seq![
            ("level"@, Json::Str(level@)),
            ("message"@, Json::Str(message@)),
        ]);
    }
    json_to_string(&v)
}

/// The request that logs at trace level.
pub fn trace(message: &str) -> (input: String)
    ensures
        input@ == log_request("trace"@, message@),
{
    log("trace", message)
}

/// The request that logs at debug level.
pub fn debug(message: &str) -> (input: String)
    ensures
        input@ == log_request("debug"@, message@),
{
    log("debug", message)
}

/// The request that logs at info level.
pub fn info(message: &str) -> (input: String)
    ensures
        input@ == log_request("info"@, message@),
{
    log("info", message)
}

/// The request that logs at warn level.
pub fn warn(message: &str) -> (input: String)
    ensures
        input@ == log_request("warn"@, message@),
{
    log("warn", message)
}

/// The request that logs at error level.
pub fn error(message: &str) -> (input: String)
    ensures
        input@ == log_request("error"@, message@),
{
    log("error", message)
}

/// A log request carries the level and the message.
pub proof fn lemma_log_request_carries(level: Seq<char>, message: Seq<char>)
    ensures
        prints_object_with(
            log_request(level, message),
            seq![
                ("level"@, Json::Str(level)),
                ("message"@, Json::Str(message)),
            ],
        ),
{
    reveal_strlit("level");
    reveal_strlit("message");
    let es = seq![
        ("level"@, Json::Str(level)),
        ("message"@, Json::Str(message)),
    ];
    assert(es[0].0.len() == 5 && es[1].0.len() == 7);
    assert(distinct_keys(es));
    lemma_prints_object(es);
}

} // verus!
