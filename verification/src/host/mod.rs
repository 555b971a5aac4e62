//! The computing half of the host API: what each host call is sent, and
//! what its reply means. The calls themselves are made by the plugin
//! runtime around this library.
use vstd::prelude::*;

use crate::text::concat;

pub mod context;
pub mod events;
pub mod files;
pub mod fs;
pub mod hash;
pub mod http;
pub mod log;
pub mod namespace;
pub mod plugins;
pub mod secrets;
pub mod storage;
pub mod time;
pub mod wasi;
pub mod ws;

verus! {

/// The texts of a text outcome.
pub open spec fn text_result(r: Result<String, String>) -> Result<Seq<char>, Seq<char>> {
    match r {
        Ok(t) => Ok(t@),
        Err(e) => Err(e@),
    }
}

/// The bytes and text of a byte outcome.
pub open spec fn bytes_result(r: Result<Vec<u8>, String>) -> Result<Seq<u8>, Seq<char>> {
    match r {
        Ok(b) => Ok(b@),
        Err(e) => Err(e@),
    }
}

/// The text of an outcome without a value.
pub open spec fn unit_result(r: Result<(), String>) -> Result<(), Seq<char>> {
    match r {
        Ok(()) => Ok(()),
        Err(e) => Err(e@),
    }
}

/// The message for a failed host call: the host function's name, then
/// `failed: ` and the runtime's error.
pub open spec fn call_failure(name: Seq<char>, e: Seq<char>) -> Seq<char> {
    name + " failed: "@ + e
}

/// `prefix` followed by an error's message.
pub open spec fn with_cause(prefix: Seq<char>, e: Seq<char>) -> Seq<char> {
    prefix + e
}

/// The reply of the host function `name`, with a runtime error turned into
/// its message.
pub open spec fn reply_of(name: Seq<char>, raw: Result<Seq<char>, Seq<char>>) -> Result<
    Seq<char>,
    Seq<char>,
> {
    match raw {
        Ok(t) => Ok(t),
        Err(e) => Err(call_failure(name, e)),
    }
}

/// The reply of the host function `name` (`raw` is what the call gave).
pub fn host_reply(name: &str, raw: Result<String, String>) -> (r: Result<String, String>)
    ensures
        text_result(r) == reply_of(name@, text_result(raw)),
{
    match raw {
        Ok(t) => Ok(t),
        Err(e) => {
            let mut m = concat(name, " failed: ");
            m.append(e.as_str());
            Err(m)
        },
    }
}

/// The outcome of a host call whose reply carries nothing.
pub fn unit_reply(name: &str, raw: Result<String, String>) -> (r: Result<(), String>)
    ensures
        unit_result(r) == match raw {
            Ok(_) => Ok::<(), Seq<char>>(()),
            Err(e) => Err(call_failure(name@, e@)),
        },
{
    match host_reply(name, raw) {
        Ok(_) => Ok(()),
        Err(e) => Err(e),
    }
}

/// `prefix` followed by an error's message.
pub fn cause(prefix: &str, e: String) -> (m: String)
    ensures
        m@ == with_cause(prefix@, e@),
{
    concat(prefix, e.as_str())
}

} // verus!
