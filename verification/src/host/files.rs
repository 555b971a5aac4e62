//! Files that the user provides through the host's interface.
use vstd::prelude::*;

use crate::host::storage::{get_input, key_request};
use crate::host::{bytes_result, call_failure, host_reply, text_result};

verus! {

/// The request for `request`: `{"key": key}`.
pub fn request_input(key: &str) -> (input: String)
    ensures
        input@ == key_request(key@),
{
    get_input(key)
}

/// What `request` gives for a reply: the reply's UTF-8 bytes.
pub open spec fn request_outcome(raw: Result<Seq<char>, Seq<char>>) -> Result<Seq<u8>, Seq<char>> {
    match raw {
        Err(e) => Err(call_failure("host_request_file"@, e)),
        Ok(t) => Ok(vstd::utf8::encode_utf8(t)),
    }
}

/// What `request` gives for the reply of `host_request_file`.
pub fn request_output(raw: Result<String, String>) -> (r: Result<Vec<u8>, String>)
    ensures
        bytes_result(r) == request_outcome(text_result(raw)),
{
    match host_reply("host_request_file", raw) {
        Ok(t) => Ok(vstd::slice::slice_to_vec(t.as_str().as_bytes())),
        Err(e) => Err(e),
    }
}

} // verus!
