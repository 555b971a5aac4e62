//! SHA-256 hashing of workspace files, done by the host.
use vstd::prelude::*;

use crate::host::fs::{path_input, path_request};
use crate::host::text_result;
use crate::json::{json_parse, json_str_field, parse_json, str_field};

verus! {

/// The request for `hash_file`: `{"path": path}`.
pub fn hash_file_input(path: &str) -> (input: String)
    ensures
        input@ == path_request(path@),
{
    path_input(path)
}

/// What `hash_file` gives for a reply: the string member `hash` of the
/// reply read as JSON; nothing when the call failed, the reply is empty or
/// not JSON, or it has no such member.
pub open spec fn hash_file_outcome(raw: Result<Seq<char>, Seq<char>>) -> Option<Seq<char>> {
    match raw {
        Err(_) => None,
        Ok(t) => if t.len() == 0 {
            None
        } else {
            match json_parse(t) {
                Ok(j) => json_str_field(j, "hash"@),
                Err(_) => None,
            }
        },
    }
}

/// What `hash_file` gives for the reply of `host_hash_file`: the hex digest,
/// or `None` when the file does not exist or cannot be read.
pub fn hash_file_output(raw: Result<String, String>) -> (r: Option<String>)
    ensures
        crate::json::opt_string_view(r) == hash_file_outcome(text_result(raw)),
{
    let t = match raw {
        Ok(t) => t,
        Err(_) => return None,
    };
    if t.as_str().is_empty() {
        return None;
    }
    match parse_json(t.as_str()) {
        Ok(v) => str_field(&v, "hash"),
        Err(_) => None,
    }
}

} // verus!
