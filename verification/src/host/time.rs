//! Timestamps from the host.
use vstd::prelude::*;

use crate::host::{call_failure, host_reply, reply_of, text_result, with_cause};
use crate::text::{int_error_message, int_error_text, parse_u64, parsed_u64, trim, trimmed};

verus! {

/// What `timestamp_millis` gives for a reply: the reply, trimmed, read as
/// an unsigned decimal number of milliseconds.
pub open spec fn timestamp_outcome(raw: Result<Seq<char>, Seq<char>>) -> Result<u64, Seq<char>> {
    match raw {
        Err(e) => Err(call_failure("host_get_timestamp"@, e)),
        Ok(t) => match parsed_u64(trimmed(t)) {
            Ok(n) => Ok(n),
            Err(k) => Err(with_cause("Failed to parse timestamp: "@, int_error_message(k))),
        },
    }
}

/// What `timestamp_millis` gives for the reply of `host_get_timestamp`.
pub fn timestamp_millis_output(raw: Result<String, String>) -> (r: Result<u64, String>)
    ensures
        match r {
            Ok(n) => timestamp_outcome(text_result(raw)) == Ok::<u64, Seq<char>>(n),
            Err(e) => timestamp_outcome(text_result(raw)) == Err::<u64, Seq<char>>(e@),
        },
{
    let t = match host_reply("host_get_timestamp", raw) {
        Ok(t) => t,
        Err(e) => return Err(e),
    };
    let s = trim(t.as_str());
    match parse_u64(s.as_str()) {
        Ok(n) => Ok(n),
        Err(k) => {
            let mut m = crate::text::owned("Failed to parse timestamp: ");
            let msg = int_error_text(k);
            m.append(msg.as_str());
            Err(m)
        },
    }
}

/// What `now_rfc3339` gives for the reply of `host_get_now`.
pub fn now_rfc3339_output(raw: Result<String, String>) -> (r: Result<String, String>)
    ensures
        text_result(r) == reply_of("host_get_now"@, text_result(raw)),
{
    host_reply("host_get_now", raw)
}

} // verus!
