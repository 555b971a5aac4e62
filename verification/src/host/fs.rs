//! Workspace file I/O: read, write, list, delete and existence checks, in
//! text and binary variants.
use vstd::prelude::*;

use crate::encoding::{base64_decoding, base64_encode, base64_text, decode_base64};
use crate::host::{bytes_result, call_failure, cause, host_reply, reply_of, text_result, unit_reply, unit_result, with_cause};
use crate::json::{distinct_keys, lemma_prints_object, prints_object_with, 
    json_parse, json_parse_bool, json_parse_strings, json_str_field, json_text, json_to_string,
    parse_json, parse_json_bool, parse_json_strings, str_field, string_json, strings_view, Json,
    JsonValue,
};
use crate::text::{owned, str_eq};

verus! {

/// The request that names a file: `{"path": path}`.
pub open spec fn path_request(path: Seq<char>) -> Seq<char> {
    json_text(Json::Object(seq![("path"@, Json::Str(path))]))
}

/// The request for `read_file`, `read_binary`, `file_exists` and
/// `delete_file`.
pub fn path_input(path: &str) -> (input: String)
    ensures
        input@ == path_request(path@),
{
    let mut es: Vec<(String, JsonValue)> = Vec::new();
    es.push((owned("path"), string_json(path)));
    let v = JsonValue::Object(es);
    proof {
        crate::json::lemma_object_view(es);
        assert(es@.map_values(|e: (String, JsonValue)| (e.0@, e.1@)) =~= seq![("path"@, Json::Str(path@))]);
    }
    json_to_string(&v)
}

/// The request for `list_files`: `{"prefix": prefix}`.
pub open spec fn list_files_request(prefix: Seq<char>) -> Seq<char> {
    json_text(Json::Object(seq![("prefix"@, Json::Str(prefix))]))
}

/// The request for `list_files`.
pub fn list_files_input(prefix: &str) -> (input: String)
    ensures
        input@ == list_files_request(prefix@),
{
    let mut es: Vec<(String, JsonValue)> = Vec::new();
    es.push((owned("prefix"), string_json(prefix)));
    let v = JsonValue::Object(es);
    proof {
        crate::json::lemma_object_view(es);
        assert(es@.map_values(|e: (String, JsonValue)| (e.0@, e.1@)) =~= seq![("prefix"@, Json::Str(prefix@))]);
    }
    json_to_string(&v)
}

/// The request for `write_file`: `{"path": path, "content": content}`.
pub open spec fn write_file_request(path: Seq<char>, content: Seq<char>) -> Seq<char> {
    json_text(Json::Object(seq![("path"@, Json::Str(path)), ("content"@, Json::Str(content))]))
}

/// The request for `write_file`.
pub fn write_file_input(path: &str, content: &str) -> (input: String)
    ensures
        input@ == write_file_request(path@, content@),
{
    let mut es: Vec<(String, JsonValue)> = Vec::new();
    es.push((owned("path"), string_json(path)));
    es.push((owned("content"), string_json(content)));
    let v = JsonValue::Object(es);
    proof {
        crate::json::lemma_object_view(es);
        assert(es@.map_values(|e: (String, JsonValue)| (e.0@, e.1@)) =~= seq![
            ("path"@, Json::Str(path@)),
            ("content"@, Json::Str(content@)),
        ]);
    }
    json_to_string(&v)
}

/// The request for `write_binary`: the path, and the content as Base64.
pub fn write_binary_input(path: &str, content: &[u8]) -> (input: String)
    requires
        content@.len() / 3 * 4 + 4 <= usize::MAX,
    ensures
        input@ == write_file_request(path@, base64_text(content@)),
{
    let encoded = base64_encode(content);
    write_file_input(path, encoded.as_str())
}

/// What `read_file` gives: the reply of `host_read_file`.
pub fn read_file_output(raw: Result<String, String>) -> (r: Result<String, String>)
    ensures
        text_result(r) == reply_of("host_read_file"@, text_result(raw)),
{
    host_reply("host_read_file", raw)
}

/// What `read_binary` gives for a reply: nothing for an empty reply;
/// otherwise the reply must be JSON with a string member `data` holding
/// Base64, whose bytes are the file's content.
pub open spec fn read_binary_outcome(raw: Result<Seq<char>, Seq<char>>) -> Result<Seq<u8>, Seq<char>> {
    match raw {
        Err(e) => Err(call_failure("host_read_binary"@, e)),
        Ok(t) => if t.len() == 0 {
            Ok(seq![])
        } else {
            match json_parse(t) {
                Err(e) => Err(with_cause("Failed to parse binary response: "@, e)),
                Ok(j) => match json_str_field(j, "data"@) {
                    None => Err("Missing data in binary response"@),
                    Some(d) => match base64_decoding(d) {
                        Some(b) => Ok(b),
                        None => Err(
                            with_cause(
                                "Failed to decode binary response: "@,
                                crate::encoding::base64_decode_error(d),
                            ),
                        ),
                    },
                },
            }
        },
    }
}

/// What `read_binary` gives for the reply of `host_read_binary`.
pub fn read_binary_output(raw: Result<String, String>) -> (r: Result<Vec<u8>, String>)
    ensures
        bytes_result(r) == read_binary_outcome(text_result(raw)),
{
    let t = match host_reply("host_read_binary", raw) {
        Ok(t) => t,
        Err(e) => return Err(e),
    };
    if t.as_str().is_empty() {
        let empty: Vec<u8> = Vec::new();
        assert(empty@ =~= seq![]);
        return Ok(empty);
    }
    let parsed = match parse_json(t.as_str()) {
        Ok(v) => v,
        Err(e) => return Err(cause("Failed to parse binary response: ", e)),
    };
    let data = match str_field(&parsed, "data") {
        Some(d) => d,
        None => return Err(owned("Missing data in binary response")),
    };
    match decode_base64(data.as_str()) {
        Ok(b) => Ok(b),
        Err(e) => Err(cause("Failed to decode binary response: ", e)),
    }
}

/// What `list_files` gives for a reply: the reply read as a JSON array of
/// strings.
pub open spec fn list_files_outcome(raw: Result<Seq<char>, Seq<char>>) -> Result<
    Seq<Seq<char>>,
    Seq<char>,
> {
    match raw {
        Err(e) => Err(call_failure("host_list_files"@, e)),
        Ok(t) => match json_parse_strings(t) {
            Ok(v) => Ok(v),
            Err(e) => Err(with_cause("Failed to parse file list: "@, e)),
        },
    }
}

/// What `list_files` gives for the reply of `host_list_files`.
pub fn list_files_output(raw: Result<String, String>) -> (r: Result<Vec<String>, String>)
    ensures
        match r {
            Ok(v) => list_files_outcome(text_result(raw)) == Ok::<Seq<Seq<char>>, Seq<char>>(
                strings_view(v@),
            ),
            Err(e) => list_files_outcome(text_result(raw)) == Err::<Seq<Seq<char>>, Seq<char>>(
                e@,
            ),
        },
{
    let t = match host_reply("host_list_files", raw) {
        Ok(t) => t,
        Err(e) => return Err(e),
    };
    match parse_json_strings(t.as_str()) {
        Ok(v) => Ok(v),
        Err(e) => Err(cause("Failed to parse file list: ", e)),
    }
}

/// What `file_exists` gives for a reply: the bare words `true` and `false`,
/// or else the reply read as a JSON boolean.
pub open spec fn file_exists_outcome(raw: Result<Seq<char>, Seq<char>>) -> Result<bool, Seq<char>> {
    match raw {
        Err(e) => Err(call_failure("host_file_exists"@, e)),
        Ok(t) => if t == "true"@ {
            Ok(true)
        } else if t == "false"@ {
            Ok(false)
        } else {
            match json_parse_bool(t) {
                Ok(b) => Ok(b),
                Err(e) => Err(with_cause("Failed to parse exists result: "@, e)),
            }
        },
    }
}

/// What `file_exists` gives for the reply of `host_file_exists`.
pub fn file_exists_output(raw: Result<String, String>) -> (r: Result<bool, String>)
    ensures
        match r {
            Ok(b) => file_exists_outcome(text_result(raw)) == Ok::<bool, Seq<char>>(b),
            Err(e) => file_exists_outcome(text_result(raw)) == Err::<bool, Seq<char>>(e@),
        },
{
    let t = match host_reply("host_file_exists", raw) {
        Ok(t) => t,
        Err(e) => return Err(e),
    };
    if str_eq(t.as_str(), "true") {
        return Ok(true);
    }
    if str_eq(t.as_str(), "false") {
        return Ok(false);
    }
    match parse_json_bool(t.as_str()) {
        Ok(b) => Ok(b),
        Err(e) => Err(cause("Failed to parse exists result: ", e)),
    }
}

/// What `write_file` gives for the reply of `host_write_file`.
pub fn write_file_output(raw: Result<String, String>) -> (r: Result<(), String>)
    ensures
        unit_result(r) == match text_result(raw) {
            Ok(_) => Ok::<(), Seq<char>>(()),
            Err(e) => Err(call_failure("host_write_file"@, e)),
        },
{
    unit_reply("host_write_file", raw)
}

/// What `write_binary` gives for the reply of `host_write_binary`.
pub fn write_binary_output(raw: Result<String, String>) -> (r: Result<(), String>)
    ensures
        unit_result(r) == match text_result(raw) {
            Ok(_) => Ok::<(), Seq<char>>(()),
            Err(e) => Err(call_failure("host_write_binary"@, e)),
        },
{
    unit_reply("host_write_binary", raw)
}

/// What `delete_file` gives for the reply of `host_delete_file`.
pub fn delete_file_output(raw: Result<String, String>) -> (r: Result<(), String>)
    ensures
        unit_result(r) == match text_result(raw) {
            Ok(_) => Ok::<(), Seq<char>>(()),
            Err(e) => Err(call_failure("host_delete_file"@, e)),
        },
{
    unit_reply("host_delete_file", raw)
}

/// The request that names a file carries its path.
pub proof fn lemma_path_request_carries(path: Seq<char>)
    ensures
        prints_object_with(
            path_request(path),
            seq![
                ("path"@, Json::Str(path)),
            ],
        ),
{
    reveal_strlit("path");
    let es = seq![
        ("path"@, Json::Str(path)),
    ];
    assert(es[0].0.len() == 4);
    assert(distinct_keys(es));
    lemma_prints_object(es);
}

/// The request for a file listing carries the prefix.
pub proof fn lemma_list_files_request_carries(prefix: Seq<char>)
    ensures
        prints_object_with(
            list_files_request(prefix),
            seq![
                ("prefix"@, Json::Str(prefix)),
            ],
        ),
{
    reveal_strlit("prefix");
    let es = seq![
        ("prefix"@, Json::Str(prefix)),
    ];
    assert(es[0].0.len() == 6);
    assert(distinct_keys(es));
    lemma_prints_object(es);
}

/// The request that writes a file carries its path and its content.
pub proof fn lemma_write_file_request_carries(path: Seq<char>, content: Seq<char>)
    ensures
        prints_object_with(
            write_file_request(path, content),
            seq![
                ("path"@, Json::Str(path)),
                ("content"@, Json::Str(content)),
            ],
        ),
{
    reveal_strlit("path");
    reveal_strlit("content");
    let es = seq![
        ("path"@, Json::Str(path)),
        ("content"@, Json::Str(content)),
    ];
    assert(es[0].0.len() == 4 && es[1].0.len() == 7);
    assert(distinct_keys(es));
    lemma_prints_object(es);
}

} // verus!
