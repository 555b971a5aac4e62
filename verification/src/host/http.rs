//! HTTP requests made through the host runtime.
use vstd::prelude::*;

use crate::encoding::{
    base64_decode_error, base64_decoding, base64_encode, base64_text, decode_base64,
    lemma_decoding_roundtrip,
};
use crate::host::{cause, host_reply, reply_of, text_result, with_cause};
use crate::json::{
    clone_pairs, distinct_keys, distinct_pair_keys, json_field, json_parse, json_string_pairs,
    json_text, json_to_string, lemma_lookup_distinct, lemma_pairs_roundtrip, pairs_json, pairs_view,
    parse_json,
    string_json, Json, JsonValue,
};
use crate::text::{owned, str_eq};

verus! {

/// The response to an HTTP request.
#[derive(Debug)]
pub struct HttpResponse {
    /// HTTP status code.
    pub status: u16,
    /// Response headers.
    pub headers: Vec<(String, String)>,
    /// Response body as text.
    pub body: String,
    /// The binary response body as Base64, if the host sent one.
    pub body_base64: Option<String>,
}

impl HttpResponse {
    /// The body as bytes: the Base64 body decoded when there is one, else
    /// the UTF-8 bytes of the text body.
    pub fn body_bytes(&self) -> (r: Result<Vec<u8>, String>)
        ensures
            match self.body_base64 {
                Some(b) => match base64_decoding(b@) {
                    Some(x) => r matches Ok(v) && v@ == x,
                    None => r matches Err(e) && e@ == with_cause(
                        "Failed to decode response body: "@,
                        base64_decode_error(b@),
                    ),
                },
                None => r matches Ok(v) && v@ == vstd::utf8::encode_utf8(self.body@),
            },
    {
        match &self.body_base64 {
            Some(b64) => match decode_base64(b64.as_str()) {
                Ok(v) => Ok(v),
                Err(e) => Err(cause("Failed to decode response body: ", e)),
            },
            None => Ok(vstd::slice::slice_to_vec(self.body.as_str().as_bytes())),
        }
    }
}

/// Headers as a JSON object.
pub open spec fn headers_json(headers: Seq<(Seq<char>, Seq<char>)>) -> Json {
    Json::Object(headers.map_values(|p: (Seq<char>, Seq<char>)| (p.0, Json::Str(p.1))))
}

/// The members of a request that are always present.
pub open spec fn request_base(method: Seq<char>, url: Seq<char>, headers: Seq<(Seq<char>, Seq<char>)>) -> Seq<(Seq<char>, Json)> {
    seq![("url"@, Json::Str(url)), ("method"@, Json::Str(method)), ("headers"@, headers_json(headers))]
}

/// The request for `request`: the URL, method and headers, and the body
/// when there is one.
pub open spec fn http_request(
    method: Seq<char>,
    url: Seq<char>,
    headers: Seq<(Seq<char>, Seq<char>)>,
    body: Option<Seq<char>>,
) -> Seq<char> {
    match body {
        Some(b) => json_text(Json::Object(request_base(method, url, headers).push(("body"@, Json::Str(b))))),
        None => json_text(Json::Object(request_base(method, url, headers))),
    }
}

/// The members of a request that are always present.
fn request_entries(method: &str, url: &str, headers: &Vec<(String, String)>) -> (es: Vec<(String, JsonValue)>)
    ensures
        es@.map_values(|e: (String, JsonValue)| (e.0@, e.1@)) == request_base(method@, url@, pairs_view(headers@)),
{
    let mut es: Vec<(String, JsonValue)> = Vec::new();
    es.push((owned("url"), string_json(url)));
    es.push((owned("method"), string_json(method)));
    es.push((owned("headers"), pairs_json(headers)));
    assert(es@.map_values(|e: (String, JsonValue)| (e.0@, e.1@)) =~= request_base(method@, url@, pairs_view(headers@)));
    es
}

/// The request for `request` with an optional text body.
pub fn request_input(
    method: &str,
    url: &str,
    headers: &Vec<(String, String)>,
    body: Option<&str>,
) -> (input: String)
    requires
        distinct_pair_keys(pairs_view(headers@)),
    ensures
        input@ == http_request(
            method@,
            url@,
            pairs_view(headers@),
            match body {
                Some(b) => Some(b@),
                None => None,
            },
        ),
{
    let mut es = request_entries(method, url, headers);
    let ghost base = es@;
    match body {
        Some(b) => {
            es.push((owned("body"), string_json(b)));
        },
        None => {},
    }
    let v = JsonValue::Object(es);
    proof {
        crate::json::lemma_object_view(es);
        match body {
            Some(b) => {
                assert(es@.map_values(|e: (String, JsonValue)| (e.0@, e.1@)) =~= request_base(
                    method@,
                    url@,
                    pairs_view(headers@),
                ).push(("body"@, Json::Str(b@))));
            },
            None => {},
        }
    }
    json_to_string(&v)
}

/// The request for `request_binary`: the URL, method and headers, and the
/// body as Base64.
pub open spec fn http_binary_request(
    method: Seq<char>,
    url: Seq<char>,
    headers: Seq<(Seq<char>, Seq<char>)>,
    body: Seq<u8>,
) -> Seq<char> {
    json_text(Json::Object(request_base(method, url, headers).push(("body_base64"@, Json::Str(base64_text(body))))))
}

/// The request for `request_binary`.
pub fn request_binary_input(
    method: &str,
    url: &str,
    headers: &Vec<(String, String)>,
    body: &[u8],
) -> (input: String)
    requires
        body@.len() / 3 * 4 + 4 <= usize::MAX,
        distinct_pair_keys(pairs_view(headers@)),
    ensures
        input@ == http_binary_request(method@, url@, pairs_view(headers@), body@),
{
    let encoded = base64_encode(body);
    let mut es = request_entries(method, url, headers);
    let ghost base = es@;
    es.push((owned("body_base64"), JsonValue::Str(encoded)));
    let v = JsonValue::Object(es);
    proof {
        crate::json::lemma_object_view(es);
        assert(es@.map_values(|e: (String, JsonValue)| (e.0@, e.1@)) =~= request_base(
            method@,
            url@,
            pairs_view(headers@),
        ).push(("body_base64"@, Json::Str(base64_text(body@)))));
    }
    json_to_string(&v)
}

/// Whether a header named `name` is among `headers`.
pub open spec fn has_header(headers: Seq<(Seq<char>, Seq<char>)>, name: Seq<char>) -> bool {
    exists|i: int| 0 <= i < headers.len() && (#[trigger] headers[i]).0 == name
}

/// The headers of a JSON request: with a body, `Content-Type:
/// application/json` is added unless a `Content-Type` header is already
/// there.
pub open spec fn json_request_headers(headers: Seq<(Seq<char>, Seq<char>)>, has_body: bool) -> Seq<(Seq<char>, Seq<char>)> {
    if has_body && !has_header(headers, "Content-Type"@) {
        headers.push(("Content-Type"@, "application/json"@))
    } else {
        headers
    }
}

/// The headers of a JSON request.
pub fn with_json_content_type(headers: &Vec<(String, String)>, has_body: bool) -> (out: Vec<(String, String)>)
    ensures
        pairs_view(out@) == json_request_headers(pairs_view(headers@), has_body),
{
    let mut out = clone_pairs(headers);
    if !has_body {
        return out;
    }
    let mut i: usize = 0;
    while i < headers.len()
        invariant
            i <= headers.len(),
            pairs_view(out@) == pairs_view(headers@),
            forall|k: int| 0 <= k < i ==> (#[trigger] pairs_view(headers@)[k]).0 != "Content-Type"@,
        decreases headers.len() - i,
    {
        if str_eq(headers[i].0.as_str(), "Content-Type") {
            assert(pairs_view(headers@)[i as int].0 == "Content-Type"@);
            return out;
        }
        i = i + 1;
    }
    let ghost before = out@;
    out.push((owned("Content-Type"), owned("application/json")));
    assert(pairs_view(out@) =~= pairs_view(before).push(("Content-Type"@, "application/json"@)));
    out
}

/// The request for `request_json`: the body printed as JSON text, and
/// `Content-Type: application/json` added as `json_request_headers` says.
pub fn request_json_input(
    method: &str,
    url: &str,
    headers: &Vec<(String, String)>,
    body: Option<&JsonValue>,
) -> (input: String)
    requires
        distinct_pair_keys(pairs_view(headers@)),
    ensures
        input@ == http_request(
            method@,
            url@,
            json_request_headers(pairs_view(headers@), body is Some),
            match body {
                Some(b) => Some(json_text(b@)),
                None => None,
            },
        ),
{
    let header_map = with_json_content_type(headers, body.is_some());
    proof {
        lemma_json_headers(pairs_view(headers@), body is Some);
    }
    match body {
        Some(b) => {
            let text = json_to_string(b);
            request_input(method, url, &header_map, Some(text.as_str()))
        },
        None => request_input(method, url, &header_map, None),
    }
}

/// What `request_json` gives for the body of the response: the body read
/// as JSON.
pub open spec fn json_body_outcome(body: Seq<char>) -> Result<Json, Seq<char>> {
    match json_parse(body) {
        Ok(j) => Ok(j),
        Err(e) => Err(with_cause("Failed to parse JSON response: "@, e)),
    }
}

/// What `request_json` gives for the body of the response.
pub fn request_json_output(body: &str) -> (r: Result<JsonValue, String>)
    ensures
        match r {
            Ok(v) => json_body_outcome(body@) == Ok::<Json, Seq<char>>(v@),
            Err(e) => json_body_outcome(body@) == Err::<Json, Seq<char>>(e@),
        },
{
    match parse_json(body) {
        Ok(v) => Ok(v),
        Err(e) => Err(cause("Failed to parse JSON response: ", e)),
    }
}

/// The reply of `host_http_request`, before it is read as a response.
pub fn request_reply(raw: Result<String, String>) -> (r: Result<String, String>)
    ensures
        text_result(r) == reply_of("host_http_request"@, text_result(raw)),
{
    host_reply("host_http_request", raw)
}

/// The request for a GET without a body.
pub fn get(url: &str, headers: &Vec<(String, String)>) -> (input: String)
    requires
        distinct_pair_keys(pairs_view(headers@)),
    ensures
        input@ == http_request("GET"@, url@, pairs_view(headers@), None),
{
    request_input("GET", url, headers, None)
}

/// The request for a POST with a text body.
pub fn post(url: &str, headers: &Vec<(String, String)>, body: &str) -> (input: String)
    requires
        distinct_pair_keys(pairs_view(headers@)),
    ensures
        input@ == http_request("POST"@, url@, pairs_view(headers@), Some(body@)),
{
    request_input("POST", url, headers, Some(body))
}

/// A JSON request keeps a `Content-Type` header that is already there, and
/// otherwise, with a body, adds exactly one saying `application/json`; the
/// other headers stay as they were, so no header name comes twice that did
/// not before.
pub proof fn lemma_json_headers(headers: Seq<(Seq<char>, Seq<char>)>, has_body: bool)
    ensures
        distinct_pair_keys(headers) ==> distinct_pair_keys(json_request_headers(headers, has_body)),
        has_header(headers, "Content-Type"@) || !has_body ==> json_request_headers(headers, has_body) == headers,
        has_body ==> has_header(json_request_headers(headers, has_body), "Content-Type"@),
        json_request_headers(headers, has_body).subrange(0, headers.len() as int) == headers,
{
    let out = json_request_headers(headers, has_body);
    assert(out.subrange(0, headers.len() as int) =~= headers);
    if has_body && !has_header(headers, "Content-Type"@) {
        assert(out[headers.len() as int].0 == "Content-Type"@);
        if distinct_pair_keys(headers) {
            assert forall|i: int, j: int|
                0 <= i < out.len() && 0 <= j < out.len() && i != j implies out[i].0 != out[j].0 by {
                if i < headers.len() && j < headers.len() {
                    assert(out[i] == headers[i] && out[j] == headers[j]);
                } else if i < headers.len() {
                    assert(out[i] == headers[i]);
                } else {
                    assert(out[j] == headers[j]);
                }
            }
        }
    }
}

/// The members of a request that are always there: the URL, the method,
/// and the caller's headers, which read back as those headers.
pub open spec fn carries_request_base(
    d: Json,
    method: Seq<char>,
    url: Seq<char>,
    headers: Seq<(Seq<char>, Seq<char>)>,
) -> bool {
    &&& json_field(d, "url"@) == Some(Json::Str(url))
    &&& json_field(d, "method"@) == Some(Json::Str(method))
    &&& json_field(d, "headers"@) matches Some(h) && json_string_pairs(h) == Some(headers)
}

/// Reading back the request members and headers of an object built from
/// them.
proof fn lemma_request_base_fields(
    method: Seq<char>,
    url: Seq<char>,
    headers: Seq<(Seq<char>, Seq<char>)>,
    extra: Seq<(Seq<char>, Json)>,
)
    requires
        distinct_pair_keys(headers),
        extra.len() <= 1,
        extra.len() == 1 ==> extra[0].0 != "url"@ && extra[0].0 != "method"@ && extra[0].0
            != "headers"@,
    ensures
        carries_request_base(Json::Object(request_base(method, url, headers) + extra), method, url, headers),
        extra.len() == 1 ==> json_field(Json::Object(request_base(method, url, headers) + extra), extra[0].0)
            == Some(extra[0].1),
{
    reveal_strlit("url");
    reveal_strlit("method");
    reveal_strlit("headers");
    let es = request_base(method, url, headers) + extra;
    assert(es[0].0 == "url"@ && es[1].0 == "method"@ && es[2].0 == "headers"@);
    if extra.len() == 1 {
        assert(es[3] == extra[0]);
    }
    assert(distinct_keys(es));
    lemma_lookup_distinct(es, 0);
    lemma_lookup_distinct(es, 1);
    lemma_lookup_distinct(es, 2);
    if extra.len() == 1 {
        lemma_lookup_distinct(es, 3);
    }
    lemma_pairs_roundtrip(headers);
    assert(headers_json(headers) == Json::Object(
        headers.map_values(|q: (Seq<char>, Seq<char>)| (q.0, Json::Str(q.1))),
    ));
}

/// A binary request is the printed form of an object that carries the URL,
/// the method and the caller's headers, and the body as Base64 text that
/// decodes to the body's bytes.
pub proof fn lemma_binary_request_carries(
    method: Seq<char>,
    url: Seq<char>,
    headers: Seq<(Seq<char>, Seq<char>)>,
    body: Seq<u8>,
)
    requires
        distinct_pair_keys(headers),
    ensures
        exists|d: Json|
            {
                &&& http_binary_request(method, url, headers, body) == json_text(d)
                &&& carries_request_base(d, method, url, headers)
                &&& json_field(d, "body_base64"@) matches Some(Json::Str(t)) && base64_decoding(t)
                    == Some(body)
            },
{
    reveal_strlit("body_base64");
    reveal_strlit("url");
    reveal_strlit("method");
    reveal_strlit("headers");
    assert("body_base64"@.len() == 11 && "url"@.len() == 3 && "method"@.len() == 6
        && "headers"@.len() == 7);
    let extra = seq![("body_base64"@, Json::Str(base64_text(body)))];
    lemma_request_base_fields(method, url, headers, extra);
    let d = Json::Object(request_base(method, url, headers) + extra);
    assert(request_base(method, url, headers) + extra =~= request_base(method, url, headers).push(
        ("body_base64"@, Json::Str(base64_text(body))),
    ));
    lemma_decoding_roundtrip(body);
    assert(http_binary_request(method, url, headers, body) == json_text(d));
}

/// A request with an optional text body is the printed form of an object
/// that carries the URL, the method and the caller's headers, and the body
/// under `body` when there is one.
pub proof fn lemma_request_carries(
    method: Seq<char>,
    url: Seq<char>,
    headers: Seq<(Seq<char>, Seq<char>)>,
    body: Option<Seq<char>>,
)
    requires
        distinct_pair_keys(headers),
    ensures
        exists|d: Json|
            {
                &&& http_request(method, url, headers, body) == json_text(d)
                &&& carries_request_base(d, method, url, headers)
                &&& body matches Some(b) ==> json_field(d, "body"@) == Some(Json::Str(b))
            },
{
    reveal_strlit("body");
    reveal_strlit("url");
    reveal_strlit("method");
    reveal_strlit("headers");
    match body {
        Some(b) => {
            assert("body"@.len() == 4 && "url"@.len() == 3 && "method"@.len() == 6
                && "headers"@.len() == 7);
            let extra = seq![("body"@, Json::Str(b))];
            lemma_request_base_fields(method, url, headers, extra);
            let d = Json::Object(request_base(method, url, headers) + extra);
            assert(request_base(method, url, headers) + extra =~= request_base(method, url, headers).push(
                ("body"@, Json::Str(b)),
            ));
            assert(http_request(method, url, headers, body) == json_text(d));
        },
        None => {
            let extra: Seq<(Seq<char>, Json)> = seq![];
            lemma_request_base_fields(method, url, headers, extra);
            let d = Json::Object(request_base(method, url, headers) + extra);
            assert(request_base(method, url, headers) + extra =~= request_base(method, url, headers));
            assert(http_request(method, url, headers, body) == json_text(d));
        },
    }
}

} // verus!

