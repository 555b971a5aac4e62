//! The WebSocket bridge: the host keeps the connection and the plugin sends
//! it structured requests, each a JSON object tagged by `type`.
use vstd::prelude::*;

use crate::encoding::{base64_encode, base64_text};
use crate::host::{host_reply, reply_of, text_result};
use crate::json::{json_quote, quote};
use crate::text::{owned, push_str};
use crate::writer::{
    bool_text, entry_text, has_member, lemma_object_prefix_push, lemma_object_text_member,
    lemma_object_text_prefix, member_text, object_prefix, object_text, opt_member_text, opt_quoted,
};

verus! {

/// The start of a request of the given type: `{"type":"<kind>"`.
pub open spec fn tagged(kind: Seq<char>) -> Seq<char> {
    "{"@ + json_quote("type"@) + ":"@ + json_quote(kind)
}

/// The `connect` request: the server and workspace, then the token, session
/// code and disk flag where given.
pub open spec fn connect_payload(
    server_url: Seq<char>,
    workspace_id: Seq<char>,
    auth_token: Option<Seq<char>>,
    session_code: Option<Seq<char>>,
    write_to_disk: Option<bool>,
) -> Seq<char> {
    tagged("connect"@) + member_text("server_url"@, json_quote(server_url)) + member_text(
        "workspace_id"@,
        json_quote(workspace_id),
    ) + opt_member_text("auth_token"@, opt_quoted(auth_token)) + opt_member_text(
        "session_code"@,
        opt_quoted(session_code),
    ) + opt_member_text(
        "write_to_disk"@,
        match write_to_disk {
            Some(b) => Some(bool_text(b)),
            None => None,
        },
    ) + "}"@
}

/// Appends `,"key":` to `out`.
fn push_key(out: &mut String, key: &str)
    ensures
        final(out)@ == old(out)@ + ","@ + json_quote(key@) + ":"@,
{
    push_str(out, ",");
    let k = quote(key);
    push_str(out, k.as_str());
    push_str(out, ":");
    assert(final(out)@ =~= old(out)@ + ","@ + json_quote(key@) + ":"@);
}

/// Starts a request of type `kind`.
fn start(kind: &str) -> (out: String)
    ensures
        out@ == tagged(kind@),
{
    let mut out = owned("{");
    let t = quote("type");
    push_str(&mut out, t.as_str());
    push_str(&mut out, ":");
    let k = quote(kind);
    push_str(&mut out, k.as_str());
    assert(out@ =~= tagged(kind@));
    out
}

/// Appends a string member.
fn push_string_member(out: &mut String, key: &str, value: &str)
    ensures
        final(out)@ == old(out)@ + member_text(key@, json_quote(value@)),
{
    push_key(out, key);
    let q = quote(value);
    push_str(out, q.as_str());
    assert(final(out)@ =~= old(out)@ + member_text(key@, json_quote(value@)));
}

/// The payload that connects to a WebSocket server.
#[verifier::spinoff_prover]
#[verifier::rlimit(30)]
pub fn connect(
    server_url: &str,
    workspace_id: &str,
    auth_token: Option<&str>,
    session_code: Option<&str>,
    write_to_disk: Option<bool>,
) -> (payload: String)
    ensures
        payload@ == connect_payload(
            server_url@,
            workspace_id@,
            match auth_token {
                Some(t) => Some(t@),
                None => None,
            },
            match session_code {
                Some(c) => Some(c@),
                None => None,
            },
            write_to_disk,
        ),
{
    let mut out = start("connect");
    push_string_member(&mut out, "server_url", server_url);
    push_string_member(&mut out, "workspace_id", workspace_id);
    let ghost a = out@;
    let ghost auth = match auth_token {
        Some(t) => Some(t@),
        None => None,
    };
    let ghost code = match session_code {
        Some(c) => Some(c@),
        None => None,
    };
    match auth_token {
        Some(t) => push_string_member(&mut out, "auth_token", t),
        None => {},
    }
    assert(out@ =~= a + opt_member_text("auth_token"@, opt_quoted(auth)));
    let ghost b = out@;
    match session_code {
        Some(c) => push_string_member(&mut out, "session_code", c),
        None => {},
    }
    assert(out@ =~= b + opt_member_text("session_code"@, opt_quoted(code)));
    let ghost c = out@;
    let ghost flag = match write_to_disk {
        Some(w) => Some(bool_text(w)),
        None => None,
    };
    match write_to_disk {
        Some(w) => {
            push_key(&mut out, "write_to_disk");
            if w {
                push_str(&mut out, "true");
            } else {
                push_str(&mut out, "false");
            }
        },
        None => {},
    }
    assert(out@ =~= c + opt_member_text("write_to_disk"@, flag));
    let ghost d = out@;
    push_str(&mut out, "}");
    assert(out@ == d + "}"@);
    assert(out@ == connect_payload(server_url@, workspace_id@, auth, code, write_to_disk));
    out
}

/// The `send_binary` request: the data as Base64.
pub open spec fn send_binary_payload(data: Seq<u8>) -> Seq<char> {
    tagged("send_binary"@) + member_text("data"@, json_quote(base64_text(data))) + "}"@
}

/// The payload that sends binary data.
pub fn send_binary(data: &[u8]) -> (payload: String)
    requires
        data@.len() / 3 * 4 + 4 <= usize::MAX,
    ensures
        payload@ == send_binary_payload(data@),
{
    let encoded = base64_encode(data);
    let mut out = start("send_binary");
    push_string_member(&mut out, "data", encoded.as_str());
    push_str(&mut out, "}");
    assert(out@ =~= send_binary_payload(data@));
    out
}

/// The `send_text` request.
pub open spec fn send_text_payload(text: Seq<char>) -> Seq<char> {
    tagged("send_text"@) + member_text("text"@, json_quote(text)) + "}"@
}

/// The payload that sends a text message.
pub fn send_text(text: &str) -> (payload: String)
    ensures
        payload@ == send_text_payload(text@),
{
    let mut out = start("send_text");
    push_string_member(&mut out, "text", text);
    push_str(&mut out, "}");
    assert(out@ =~= send_text_payload(text@));
    out
}

/// The `disconnect` request.
pub open spec fn disconnect_payload() -> Seq<char> {
    tagged("disconnect"@) + "}"@
}

/// The payload that disconnects from the server.
pub fn disconnect() -> (payload: String)
    ensures
        payload@ == disconnect_payload(),
{
    let mut out = start("disconnect");
    push_str(&mut out, "}");
    out
}

/// What `raw_request` gives for the reply of `host_ws_request`.
pub fn raw_request_output(raw: Result<String, String>) -> (r: Result<String, String>)
    ensures
        text_result(r) == reply_of("host_ws_request"@, text_result(raw)),
{
    host_reply("host_ws_request", raw)
}

/// The start of a request is an object's opening brace and its `type`
/// member.
proof fn lemma_tagged(kind: Seq<char>)
    ensures
        tagged(kind) == object_prefix(seq![("type"@, json_quote(kind))]),
{
    reveal_strlit("{");
    assert(tagged(kind) =~= seq!['{'] + entry_text("type"@, json_quote(kind)));
}

/// A request with the members `ms` after its `type` holds each of them.
proof fn lemma_request_members(kind: Seq<char>, ms: Seq<(Seq<char>, Seq<char>)>, text: Seq<char>)
    requires
        ms.len() > 0,
        ms[0] == ("type"@, json_quote(kind)),
        text == object_prefix(ms) + "}"@,
    ensures
        forall|k: int| 0 <= k < ms.len() ==> has_member(text, #[trigger] ms[k].0, ms[k].1),
{
    reveal_strlit("}");
    lemma_object_text_prefix(ms);
    assert("}"@ =~= seq!['}']);
    assert(text == object_text(ms));
    assert forall|k: int| 0 <= k < ms.len() implies has_member(text, #[trigger] ms[k].0, ms[k].1) by {
        lemma_object_text_member(ms, k);
    }
}

/// A `send_text` request holds its type and the text.
pub proof fn lemma_send_text_members(text: Seq<char>)
    ensures
        has_member(send_text_payload(text), "type"@, json_quote("send_text"@)),
        has_member(send_text_payload(text), "text"@, json_quote(text)),
{
    let m0 = seq![("type"@, json_quote("send_text"@))];
    lemma_tagged("send_text"@);
    lemma_object_prefix_push(m0, ("text"@, json_quote(text)));
    let ms = m0.push(("text"@, json_quote(text)));
    lemma_request_members("send_text"@, ms, send_text_payload(text));
    assert(ms[0].0 == "type"@ && ms[1].0 == "text"@);
}

/// A `send_binary` request holds its type and the data as Base64 text.
pub proof fn lemma_send_binary_members(data: Seq<u8>)
    ensures
        has_member(send_binary_payload(data), "type"@, json_quote("send_binary"@)),
        has_member(send_binary_payload(data), "data"@, json_quote(base64_text(data))),
{
    let m0 = seq![("type"@, json_quote("send_binary"@))];
    lemma_tagged("send_binary"@);
    lemma_object_prefix_push(m0, ("data"@, json_quote(base64_text(data))));
    let ms = m0.push(("data"@, json_quote(base64_text(data))));
    lemma_request_members("send_binary"@, ms, send_binary_payload(data));
    assert(ms[0].0 == "type"@ && ms[1].0 == "data"@);
}

/// A `disconnect` request holds its type.
pub proof fn lemma_disconnect_members()
    ensures
        has_member(disconnect_payload(), "type"@, json_quote("disconnect"@)),
{
    let ms = seq![("type"@, json_quote("disconnect"@))];
    lemma_tagged("disconnect"@);
    lemma_request_members("disconnect"@, ms, disconnect_payload());
    assert(ms[0].0 == "type"@);
}

/// A `connect` request holds its type, the server and the workspace, and
/// the token, session code and disk flag when they are given.
#[verifier::spinoff_prover]
pub proof fn lemma_connect_members(
    server_url: Seq<char>,
    workspace_id: Seq<char>,
    auth_token: Option<Seq<char>>,
    session_code: Option<Seq<char>>,
    write_to_disk: Option<bool>,
)
    ensures
        has_member(
            connect_payload(server_url, workspace_id, auth_token, session_code, write_to_disk),
            "type"@,
            json_quote("connect"@),
        ),
        has_member(
            connect_payload(server_url, workspace_id, auth_token, session_code, write_to_disk),
            "server_url"@,
            json_quote(server_url),
        ),
        has_member(
            connect_payload(server_url, workspace_id, auth_token, session_code, write_to_disk),
            "workspace_id"@,
            json_quote(workspace_id),
        ),
        auth_token matches Some(t) ==> has_member(
            connect_payload(server_url, workspace_id, auth_token, session_code, write_to_disk),
            "auth_token"@,
            json_quote(t),
        ),
        session_code matches Some(c) ==> has_member(
            connect_payload(server_url, workspace_id, auth_token, session_code, write_to_disk),
            "session_code"@,
            json_quote(c),
        ),
        write_to_disk matches Some(w) ==> has_member(
            connect_payload(server_url, workspace_id, auth_token, session_code, write_to_disk),
            "write_to_disk"@,
            bool_text(w),
        ),
{
    let text = connect_payload(server_url, workspace_id, auth_token, session_code, write_to_disk);
    let m0 = seq![("type"@, json_quote("connect"@))];
    lemma_tagged("connect"@);
    let m1 = m0.push(("server_url"@, json_quote(server_url)));
    lemma_object_prefix_push(m0, ("server_url"@, json_quote(server_url)));
    let m2 = m1.push(("workspace_id"@, json_quote(workspace_id)));
    lemma_object_prefix_push(m1, ("workspace_id"@, json_quote(workspace_id)));
    let a = object_prefix(m2);
    let m3 = match auth_token {
        Some(t) => {
            lemma_object_prefix_push(m2, ("auth_token"@, json_quote(t)));
            m2.push(("auth_token"@, json_quote(t)))
        },
        None => m2,
    };
    assert(object_prefix(m3) =~= a + opt_member_text("auth_token"@, opt_quoted(auth_token)));
    let b = object_prefix(m3);
    let m4 = match session_code {
        Some(c) => {
            lemma_object_prefix_push(m3, ("session_code"@, json_quote(c)));
            m3.push(("session_code"@, json_quote(c)))
        },
        None => m3,
    };
    assert(object_prefix(m4) =~= b + opt_member_text("session_code"@, opt_quoted(session_code)));
    let c = object_prefix(m4);
    let flag = match write_to_disk {
        Some(w) => Some(bool_text(w)),
        None => None,
    };
    let ms = match write_to_disk {
        Some(w) => {
            lemma_object_prefix_push(m4, ("write_to_disk"@, bool_text(w)));
            m4.push(("write_to_disk"@, bool_text(w)))
        },
        None => m4,
    };
    assert(object_prefix(ms) =~= c + opt_member_text("write_to_disk"@, flag));
    assert(text == object_prefix(ms) + "}"@);
    lemma_request_members("connect"@, ms, text);
    assert(ms[0].0 == "type"@ && ms[1].0 == "server_url"@ && ms[2].0 == "workspace_id"@);
    if auth_token is Some {
        assert(ms[3] == m3[3]);
    }
    if session_code is Some {
        assert(ms[m3.len() as int] == m4[m3.len() as int]);
    }
    if write_to_disk is Some {
        assert(ms[m4.len() as int].0 == "write_to_disk"@);
    }
}

} // verus!

