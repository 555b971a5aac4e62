//! Events that a plugin emits to the host application.
use vstd::prelude::*;

use crate::host::{call_failure, text_result, unit_reply, unit_result};

verus! {

/// What `emit` gives for the reply of `host_emit_event`.
pub fn emit_output(raw: Result<String, String>) -> (r: Result<(), String>)
    ensures
        unit_result(r) == match text_result(raw) {
            Ok(_) => Ok::<(), Seq<char>>(()),
            Err(e) => Err(call_failure("host_emit_event"@, e)),
        },
{
    unit_reply("host_emit_event", raw)
}

} // verus!
