use diaryx_plugin_sdk::host::{context, events, files, fs, hash, http, log, namespace, plugins, secrets, storage, time, wasi, ws};
use diaryx_plugin_sdk::json::JsonValue;

fn to_serde(v: &JsonValue) -> serde_json::Value {
    match v {
        JsonValue::Null => serde_json::Value::Null,
        JsonValue::Bool(b) => serde_json::Value::Bool(*b),
        JsonValue::Number(n) => serde_json::Value::Number(n.parse().unwrap()),
        JsonValue::Str(s) => serde_json::Value::String(s.clone()),
        JsonValue::Array(items) => serde_json::Value::Array(items.iter().map(to_serde).collect()),
        JsonValue::Object(es) => object_to_serde(es),
    }
}

fn object_to_serde(es: &[(String, JsonValue)]) -> serde_json::Value {
    let mut m = serde_json::Map::new();
    for (k, x) in es {
        m.insert(k.clone(), to_serde(x));
    }
    serde_json::Value::Object(m)
}

fn from_serde(v: serde_json::Value) -> JsonValue {
    match v {
        serde_json::Value::Null => JsonValue::Null,
        serde_json::Value::Bool(b) => JsonValue::Bool(b),
        serde_json::Value::Number(n) => JsonValue::Number(n.to_string()),
        serde_json::Value::String(s) => JsonValue::Str(s),
        serde_json::Value::Array(items) => JsonValue::Array(items.into_iter().map(from_serde).collect()),
        serde_json::Value::Object(m) => object_from_serde(m),
    }
}

fn object_from_serde(m: serde_json::Map<String, serde_json::Value>) -> JsonValue {
    let mut es = Vec::new();
    for (k, x) in m {
        es.push((k, from_serde(x)));
    }
    JsonValue::Object(es)
}

fn text(v: &JsonValue) -> String {
    to_serde(v).to_string()
}

fn doc(t: &str) -> JsonValue {
    from_serde(serde_json::from_str(t).unwrap())
}

fn ok(s: &str) -> Result<String, String> {
    Ok(s.to_string())
}

fn fail() -> Result<String, String> {
    Err("boom".to_string())
}

#[test]
fn fs_requests() {
    assert_eq!(fs::path_input("a/b.md"), r#"{"path":"a/b.md"}"#);
    assert_eq!(fs::list_files_input("notes/"), r#"{"prefix":"notes/"}"#);
    assert_eq!(fs::write_file_input("p", "c\"q"), r#"{"content":"c\"q","path":"p"}"#);
    assert_eq!(fs::write_binary_input("p", &[1, 2]), r#"{"content":"AQI=","path":"p"}"#);
}

#[test]
fn fs_replies() {
    assert_eq!(fs::read_file_output(ok("text")).unwrap(), "text");
    assert_eq!(fs::read_file_output(fail()).unwrap_err(), "host_read_file failed: boom");
    assert_eq!(fs::read_binary_output(ok("")).unwrap(), Vec::<u8>::new());
    assert_eq!(fs::read_binary_output(ok(r#"{"data":"aGVsbG8="}"#)).unwrap(), b"hello".to_vec());
    assert_eq!(fs::read_binary_output(ok("{}")).unwrap_err(), "Missing data in binary response");
    assert!(fs::read_binary_output(ok("x")).unwrap_err().starts_with("Failed to parse binary response: "));
    assert!(fs::read_binary_output(ok(r#"{"data":"Q"}"#)).unwrap_err().starts_with("Failed to decode binary response: "));
    assert_eq!(fs::read_binary_output(fail()).unwrap_err(), "host_read_binary failed: boom");
    assert_eq!(fs::list_files_output(ok(r#"["a","b/c"]"#)).unwrap(), vec!["a", "b/c"]);
    assert!(fs::list_files_output(ok("{}")).unwrap_err().starts_with("Failed to parse file list: "));
    assert_eq!(fs::file_exists_output(ok("true")), Ok(true));
    assert_eq!(fs::file_exists_output(ok("false")), Ok(false));
    assert_eq!(fs::file_exists_output(ok(" true ")), Ok(true));
    assert!(fs::file_exists_output(ok("maybe")).unwrap_err().starts_with("Failed to parse exists result: "));
    assert_eq!(fs::write_file_output(ok("")), Ok(()));
    assert_eq!(fs::write_binary_output(fail()), Err("host_write_binary failed: boom".to_string()));
    assert_eq!(fs::delete_file_output(fail()), Err("host_delete_file failed: boom".to_string()));
}

#[test]
fn storage_requests() {
    assert_eq!(storage::get_input("k"), r#"{"key":"k"}"#);
    assert_eq!(storage::set_input("k", &[1, 2]), r#"{"data":"AQI=","key":"k"}"#);
    assert_eq!(storage::delete("k"), r#"{"data":"","key":"k"}"#);
    assert_eq!(storage::delete("k"), storage::set_input("k", &[]));
}

#[test]
fn storage_replies() {
    assert_eq!(storage::get_output(fail()).unwrap_err(), "host_storage_get failed: boom");
    assert_eq!(storage::get_output(ok("")), Ok(None));
    assert_eq!(storage::get_output(ok(r#"{"data":"AQI="}"#)), Ok(Some(vec![1, 2])));
    assert_eq!(storage::get_output(ok(r#"{"data":""}"#)), Ok(None));
    assert_eq!(storage::get_output(ok("null")), Ok(None));
    assert_eq!(storage::get_output(ok("AQI=")), Ok(Some(vec![1, 2])));
    assert!(storage::get_output(ok(r#"{"data":"!!"}"#)).unwrap_err().starts_with("Failed to decode storage data: "));
    assert!(storage::get_output(ok("42")).unwrap_err().starts_with("Failed to decode storage data: "));
    assert_eq!(storage::set_output(fail()), Err("host_storage_set failed: boom".to_string()));
}

#[test]
fn storage_set_then_get() {
    let data = b"some stored bytes".to_vec();
    let sent = storage::set_input("k", &data);
    let v = doc(&sent);
    let stored = diaryx_plugin_sdk::json::str_field(&v, "data").unwrap();
    let reply = format!(r#"{{"data":"{}"}}"#, stored);
    assert_eq!(storage::get_output(Ok(reply)), Ok(Some(data.clone())));
    assert_eq!(storage::get_output(Ok(stored)), Ok(Some(data)));
}

#[test]
fn secrets_replies() {
    assert_eq!(secrets::key_input("k"), r#"{"key":"k"}"#);
    assert_eq!(secrets::set_input("k", "v"), r#"{"key":"k","value":"v"}"#);
    assert_eq!(secrets::get_output(ok(r#"{"value":"s"}"#)), Ok(Some("s".to_string())));
    assert_eq!(secrets::get_output(ok(r#"{"value":""}"#)), Ok(None));
    assert_eq!(secrets::get_output(ok("plain")), Ok(Some("plain".to_string())));
    assert_eq!(secrets::get_output(ok(r#"{"other":1}"#)), Ok(Some(r#"{"other":1}"#.to_string())));
    assert_eq!(secrets::get_output(ok("")), Ok(None));
    assert_eq!(secrets::get_output(fail()).unwrap_err(), "host_secret_get failed: boom");
    assert_eq!(secrets::set_output(fail()), Err("host_secret_set failed: boom".to_string()));
    assert_eq!(secrets::delete_output(ok("x")), Ok(()));
}

#[test]
fn hash_and_files_and_events() {
    assert_eq!(hash::hash_file_input("f"), r#"{"path":"f"}"#);
    assert_eq!(hash::hash_file_output(ok(r#"{"hash":"abc"}"#)).as_deref(), Some("abc"));
    assert_eq!(hash::hash_file_output(ok("")), None);
    assert_eq!(hash::hash_file_output(ok("{}")), None);
    assert_eq!(hash::hash_file_output(ok("nope")), None);
    assert_eq!(hash::hash_file_output(fail()), None);
    assert_eq!(files::request_input("k"), r#"{"key":"k"}"#);
    assert_eq!(files::request_output(ok("hé")).unwrap(), "hé".as_bytes().to_vec());
    assert_eq!(files::request_output(fail()).unwrap_err(), "host_request_file failed: boom");
    assert_eq!(events::emit_output(fail()), Err("host_emit_event failed: boom".to_string()));
    assert_eq!(events::emit_output(ok("")), Ok(()));
}

#[test]
fn context_and_time() {
    assert_eq!(text(&context::get_output(ok("  \n")).unwrap()), "{}");
    assert_eq!(text(&context::get_output(ok(r#"{"platform":"web"}"#)).unwrap()), r#"{"platform":"web"}"#);
    assert!(context::get_output(ok("x")).unwrap_err().starts_with("Failed to parse host_get_runtime_context response: "));
    assert_eq!(context::get_output(fail()).unwrap_err(), "host_get_runtime_context failed: boom");
    assert_eq!(time::timestamp_millis_output(ok(" 1700000000000\n")), Ok(1700000000000));
    assert_eq!(time::timestamp_millis_output(ok("abc")).unwrap_err(), "Failed to parse timestamp: invalid digit found in string");
    assert_eq!(time::timestamp_millis_output(ok("")).unwrap_err(), "Failed to parse timestamp: cannot parse integer from empty string");
    assert_eq!(time::timestamp_millis_output(fail()).unwrap_err(), "host_get_timestamp failed: boom");
    assert_eq!(time::now_rfc3339_output(ok("2024-01-15T10:30:00-07:00")).unwrap(), "2024-01-15T10:30:00-07:00");
}

#[test]
fn log_requests() {
    assert_eq!(log::trace("hi"), r#"{"level":"trace","message":"hi"}"#);
    assert_eq!(log::debug("hi"), r#"{"level":"debug","message":"hi"}"#);
    assert_eq!(log::info("hi"), r#"{"level":"info","message":"hi"}"#);
    assert_eq!(log::warn("hi"), r#"{"level":"warn","message":"hi"}"#);
    assert_eq!(log::error("hi"), r#"{"level":"error","message":"hi"}"#);
    assert_eq!(log::log("custom", "m"), r#"{"level":"custom","message":"m"}"#);
}

#[test]
fn plugin_calls() {
    assert_eq!(plugins::call_input("p", "c", &JsonValue::Null), r#"{"command":"c","params":null,"plugin_id":"p"}"#);
    let data = plugins::call_output(ok(r#"{"success":true,"data":{"n":1}}"#)).unwrap();
    assert_eq!(text(&data), r#"{"n":1}"#);
    assert_eq!(text(&plugins::call_output(ok(r#"{"success":true}"#)).unwrap()), "null");
    assert_eq!(plugins::call_output(ok(r#"{"success":false,"error":"bad"}"#)).unwrap_err(), "bad");
    assert_eq!(plugins::call_output(ok(r#"{"success":"yes"}"#)).unwrap_err(), "Unknown plugin command error");
    assert!(plugins::call_output(ok("x")).unwrap_err().starts_with("Failed to parse host_plugin_command response: "));
    assert_eq!(plugins::call_output(fail()).unwrap_err(), "host_plugin_command failed: boom");
}

#[test]
fn namespace_calls() {
    assert_eq!(
        namespace::put_object_input("n", "k", &[1, 2], "text/plain", "public"),
        r#"{"audience":"public","body_base64":"AQI=","key":"k","mime_type":"text/plain","ns_id":"n"}"#
    );
    assert_eq!(namespace::delete_object_input("n", "k"), r#"{"key":"k","ns_id":"n"}"#);
    assert_eq!(namespace::list_objects_input("n"), r#"{"ns_id":"n"}"#);
    assert_eq!(namespace::sync_audience_input("n", "a", "read"), r#"{"access":"read","audience":"a","ns_id":"n"}"#);
    assert_eq!(namespace::put_object_output(ok(r#"{"ok":true}"#)), Ok(()));
    assert_eq!(namespace::put_object_output(ok(r#"{"error":"denied"}"#)), Err("denied".to_string()));
    assert!(namespace::put_object_output(ok("x")).unwrap_err().starts_with("Failed to parse put_object response: "));
    assert!(namespace::delete_object_output(ok("x")).unwrap_err().starts_with("Failed to parse delete_object response: "));
    assert_eq!(namespace::sync_audience_output(fail()), Err("host_namespace_sync_audience failed: boom".to_string()));
    assert_eq!(namespace::list_objects_reply(ok("[]")), Ok("[]".to_string()));
}

#[test]
fn http_requests() {
    let headers = vec![("A".to_string(), "1".to_string())];
    assert_eq!(http::get("https://x", &headers), r#"{"headers":{"A":"1"},"method":"GET","url":"https://x"}"#);
    assert_eq!(http::post("https://x", &headers, "b"), r#"{"body":"b","headers":{"A":"1"},"method":"POST","url":"https://x"}"#);
    assert_eq!(
        http::request_binary_input("PUT", "u", &vec![], &[1, 2]),
        r#"{"body_base64":"AQI=","headers":{},"method":"PUT","url":"u"}"#
    );
    let body = JsonValue::Object(vec![("q".into(), JsonValue::Bool(false))]);
    assert_eq!(
        http::request_json_input("POST", "u", &headers, Some(&body)),
        r#"{"body":"{\"q\":false}","headers":{"A":"1","Content-Type":"application/json"},"method":"POST","url":"u"}"#
    );
    assert_eq!(http::request_json_input("GET", "u", &headers, None), r#"{"headers":{"A":"1"},"method":"GET","url":"u"}"#);
    let own = vec![("Content-Type".to_string(), "text/plain".to_string())];
    assert_eq!(http::with_json_content_type(&own, true), own);
    assert_eq!(http::with_json_content_type(&headers, false), headers);
    assert_eq!(http::with_json_content_type(&headers, true).len(), 2);
    assert_eq!(text(&http::request_json_output(r#"{"a":1}"#).unwrap()), r#"{"a":1}"#);
    assert!(http::request_json_output("<html>").unwrap_err().starts_with("Failed to parse JSON response: "));
    assert_eq!(http::request_reply(fail()).unwrap_err(), "host_http_request failed: boom");
}

#[test]
fn http_body_bytes() {
    let text = http::HttpResponse { status: 200, headers: vec![], body: "hé".into(), body_base64: None };
    assert_eq!(text.body_bytes().unwrap(), "hé".as_bytes().to_vec());
    let bin = http::HttpResponse { status: 200, headers: vec![], body: String::new(), body_base64: Some("AQI=".into()) };
    assert_eq!(bin.body_bytes().unwrap(), vec![1, 2]);
    let bad = http::HttpResponse { status: 500, headers: vec![], body: String::new(), body_base64: Some("*".into()) };
    assert!(bad.body_bytes().unwrap_err().starts_with("Failed to decode response body: "));
}

#[test]
fn ws_payloads() {
    assert_eq!(
        ws::connect("wss://s", "w", Some("t"), None, Some(true)),
        r#"{"type":"connect","server_url":"wss://s","workspace_id":"w","auth_token":"t","write_to_disk":true}"#
    );
    assert_eq!(
        ws::connect("u", "w", None, Some("c"), Some(false)),
        r#"{"type":"connect","server_url":"u","workspace_id":"w","session_code":"c","write_to_disk":false}"#
    );
    assert_eq!(ws::connect("u", "w", None, None, None), r#"{"type":"connect","server_url":"u","workspace_id":"w"}"#);
    assert_eq!(ws::send_text("hi \"x\""), r#"{"type":"send_text","text":"hi \"x\""}"#);
    assert_eq!(ws::send_binary(&[1, 2]), r#"{"type":"send_binary","data":"AQI="}"#);
    assert_eq!(ws::disconnect(), r#"{"type":"disconnect"}"#);
    assert_eq!(ws::raw_request_output(fail()).unwrap_err(), "host_ws_request failed: boom");
}

#[test]
fn wasi_request_text() {
    let full = wasi::WasiRunRequest {
        module_key: "m".into(),
        args: vec!["a".into(), "b".into()],
        stdin: Some("c3Q=".into()),
        files: Some(vec![("in.txt".into(), "eA==".into())]),
        output_files: Some(vec!["out.txt".into()]),
    };
    assert_eq!(
        wasi::run_input(&full),
        r#"{"module_key":"m","args":["a","b"],"stdin":"c3Q=","files":{"in.txt":"eA=="},"output_files":["out.txt"]}"#
    );
    let bare = wasi::WasiRunRequest { module_key: "m".into(), args: vec![], stdin: None, files: None, output_files: None };
    assert_eq!(wasi::run_input(&bare), r#"{"module_key":"m","args":[]}"#);
    assert_eq!(wasi::run_reply(fail()).unwrap_err(), "host_run_wasi_module failed: boom");
}

#[test]
fn storage_delete_then_get() {
    let sent = storage::delete("k");
    let v = doc(&sent);
    let stored = diaryx_plugin_sdk::json::str_field(&v, "data").unwrap();
    assert_eq!(stored, "");
    let reply = format!(r#"{{"data":"{}"}}"#, stored);
    assert_eq!(storage::get_output(Ok(reply)), Ok(None));
    assert_eq!(storage::get_output(Ok(String::new())), Ok(None));
}

#[test]
fn secrets_set_then_get() {
    let sent = secrets::set_input("k", "tok\"en");
    let v = doc(&sent);
    let stored = diaryx_plugin_sdk::json::str_field(&v, "value").unwrap();
    let reply = text(&JsonValue::Object(vec![("value".into(), JsonValue::Str(stored))]));
    assert_eq!(secrets::get_output(Ok(reply)), Ok(Some("tok\"en".to_string())));
    let empty = text(&JsonValue::Object(vec![("value".into(), JsonValue::Str(String::new()))]));
    assert_eq!(secrets::get_output(Ok(empty)), Ok(None));
}
