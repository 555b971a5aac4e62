use diaryx_plugin_sdk::json::{field, JsonValue};
use diaryx_plugin_sdk::protocol::{
    default_protocol_version, CommandRequest, CommandResponse, GuestEvent, GuestManifest,
    GuestRequestedPermissions, CURRENT_PROTOCOL_VERSION, MIN_SUPPORTED_PROTOCOL_VERSION,
};

fn manifest_text(m: &GuestManifest) -> String {
    m.to_json_text()
}

fn manifest_from_text(text: &str) -> GuestManifest {
    GuestManifest::from_json_text(text).unwrap()
}

fn to_serde(v: &JsonValue) -> serde_json::Value {
    match v {
        JsonValue::Null => serde_json::Value::Null,
        JsonValue::Bool(b) => serde_json::Value::Bool(*b),
        JsonValue::Number(n) => serde_json::Value::Number(n.parse().unwrap()),
        JsonValue::Str(s) => serde_json::Value::String(s.clone()),
        JsonValue::Array(items) => serde_json::Value::Array(items.iter().map(to_serde).collect()),
        JsonValue::Object(es) => object_to_serde(es),
    }
}

fn object_to_serde(es: &[(String, JsonValue)]) -> serde_json::Value {
    let mut m = serde_json::Map::new();
    for (k, x) in es {
        m.insert(k.clone(), to_serde(x));
    }
    serde_json::Value::Object(m)
}

fn from_serde(v: serde_json::Value) -> JsonValue {
    match v {
        serde_json::Value::Null => JsonValue::Null,
        serde_json::Value::Bool(b) => JsonValue::Bool(b),
        serde_json::Value::Number(n) => JsonValue::Number(n.to_string()),
        serde_json::Value::String(s) => JsonValue::Str(s),
        serde_json::Value::Array(items) => JsonValue::Array(items.into_iter().map(from_serde).collect()),
        serde_json::Value::Object(m) => object_from_serde(m),
    }
}

fn object_from_serde(m: serde_json::Map<String, serde_json::Value>) -> JsonValue {
    let mut es = Vec::new();
    for (k, x) in m {
        es.push((k, from_serde(x)));
    }
    JsonValue::Object(es)
}

fn text(v: &JsonValue) -> String {
    to_serde(v).to_string()
}

fn doc(t: &str) -> JsonValue {
    from_serde(serde_json::from_str(t).unwrap())
}

#[test]
fn guest_manifest_roundtrip() {
    let manifest = GuestManifest::new(
        "diaryx.test".into(),
        "Test Plugin".into(),
        "0.1.0".into(),
        "A test plugin".into(),
        vec!["custom_commands".into()],
    )
    .commands(vec!["do-thing".into()]);
    let json = manifest.to_json_text();
    let parsed = GuestManifest::from_json_text(&json).unwrap();
    assert_eq!(parsed.id, "diaryx.test");
    assert_eq!(parsed.commands, vec!["do-thing"]);
}

#[test]
fn manifest_defaults_protocol_version() {
    let json = r#"{"id":"test","name":"T","version":"1.0","description":"d","capabilities":[]}"#;
    let m = manifest_from_text(json);
    assert_eq!(m.protocol_version, 1);
}

#[test]
fn command_response_helpers() {
    let ok = CommandResponse::ok(JsonValue::Object(vec![(
        "count".to_string(),
        JsonValue::Number("42".to_string()),
    )]));
    assert!(ok.success);
    let data = ok.data.unwrap();
    assert_eq!(text(field(&data, "count").unwrap()), "42");

    let err = CommandResponse::err("oops".into());
    assert!(!err.success);
    assert_eq!(err.error.as_deref(), Some("oops"));

    let err_code = CommandResponse::err_with_code("denied".into(), "permission_denied".into());
    assert_eq!(err_code.error_code.as_deref(), Some("permission_denied"));
}

#[test]
fn command_response_without_error_code() {
    let json = r#"{"success":false,"error":"oops"}"#;
    let resp = CommandResponse::from_json_text(json).unwrap();
    assert!(!resp.success);
    assert!(resp.error_code.is_none());
}

#[test]
fn protocol_constants() {
    assert_eq!(CURRENT_PROTOCOL_VERSION, 1);
    assert_eq!(MIN_SUPPORTED_PROTOCOL_VERSION, 1);
    assert_eq!(default_protocol_version(), 1);
}

#[test]
fn manifest_new_has_empty_optionals() {
    let m = GuestManifest::new("a".into(), "b".into(), "c".into(), "d".into(), vec![]);
    assert_eq!(m.protocol_version, CURRENT_PROTOCOL_VERSION);
    assert!(m.ui.is_empty() && m.commands.is_empty() && m.cli.is_empty());
    assert!(m.requested_permissions.is_none() && m.min_app_version.is_none());
    assert!(m.conversions.is_empty());
}

#[test]
fn manifest_builders_set_one_field() {
    let m = GuestManifest::new("a".into(), "b".into(), "c".into(), "d".into(), vec!["x".into()])
        .ui(vec![JsonValue::Bool(true)])
        .cli(vec![JsonValue::Null])
        .conversions(vec!["heic:jpeg".into()])
        .min_app_version("1.4.0".into())
        .requested_permissions(GuestRequestedPermissions::default());
    assert_eq!(m.id, "a");
    assert_eq!(m.capabilities, vec!["x"]);
    assert_eq!(m.ui.len(), 1);
    assert_eq!(m.cli.len(), 1);
    assert_eq!(m.conversions, vec!["heic:jpeg"]);
    assert_eq!(m.min_app_version.as_deref(), Some("1.4.0"));
    assert!(m.requested_permissions.is_some());
}

#[test]
fn manifest_json_text_is_in_declaration_order() {
    let m = GuestManifest::new("i".into(), "n".into(), "v".into(), "d".into(), vec![]);
    assert_eq!(
        manifest_text(&m),
        r#"{"protocol_version":1,"id":"i","name":"n","version":"v","description":"d","capabilities":[],"ui":[],"commands":[],"cli":[],"requested_permissions":null,"conversions":[]}"#
    );
    let with_version = m.min_app_version("2.0".into());
    assert!(manifest_text(&with_version).contains(r#""min_app_version":"2.0""#));
}

#[test]
fn manifest_full_roundtrip() {
    let perms = GuestRequestedPermissions {
        defaults: JsonValue::Object(vec![("fs".into(), JsonValue::Bool(true))]),
        reasons: vec![("fs".into(), "reads notes".into())],
    };
    let m = GuestManifest::new("a".into(), "b".into(), "c".into(), "d".into(), vec!["x".into()])
        .requested_permissions(perms)
        .min_app_version("1.2.3".into())
        .ui(vec![JsonValue::Str("panel".into())]);
    let back = manifest_from_text(&manifest_text(&m));
    assert_eq!(back.min_app_version.as_deref(), Some("1.2.3"));
    let p = back.requested_permissions.unwrap();
    assert_eq!(p.reasons, vec![("fs".to_string(), "reads notes".to_string())]);
    assert_eq!(text(&p.defaults), r#"{"fs":true}"#);
    assert_eq!(back.ui.len(), 1);
}

#[test]
fn manifest_rejects_missing_or_wrong_fields() {
    assert!(GuestManifest::from_json(&doc(r#"{"id":"a"}"#)).is_none());
    let bad_version = r#"{"protocol_version":-1,"id":"a","name":"b","version":"c","description":"d","capabilities":[]}"#;
    assert!(GuestManifest::from_json(&doc(bad_version)).is_none());
    let float_version = r#"{"protocol_version":1.0,"id":"a","name":"b","version":"c","description":"d","capabilities":[]}"#;
    assert!(GuestManifest::from_json(&doc(float_version)).is_none());
    let bad_caps = r#"{"id":"a","name":"b","version":"c","description":"d","capabilities":[1]}"#;
    assert!(GuestManifest::from_json(&doc(bad_caps)).is_none());
    assert!(GuestManifest::from_json(&doc("[]")).is_none());
}

#[test]
fn manifest_null_optionals_read_as_none() {
    let text = r#"{"id":"a","name":"b","version":"c","description":"d","capabilities":[],"requested_permissions":null,"min_app_version":null,"protocol_version":7}"#;
    let m = manifest_from_text(text);
    assert!(m.requested_permissions.is_none());
    assert!(m.min_app_version.is_none());
    assert_eq!(m.protocol_version, 7);
}

#[test]
fn response_roundtrip_and_null_data() {
    let r = CommandResponse::err_with_code("x".into(), "y".into());
    let printed = r.to_json_text();
    assert_eq!(printed, r#"{"success":false,"data":null,"error":"x","error_code":"y"}"#);
    let back = CommandResponse::from_json_text(&printed).unwrap();
    assert_eq!(back.error_code.as_deref(), Some("y"));
    let null_data = CommandResponse::ok(JsonValue::Null);
    let back = CommandResponse::from_json(&null_data.to_json()).unwrap();
    assert!(back.data.is_none());
    let empty = CommandResponse::ok_empty();
    assert!(empty.success && empty.data.is_none() && empty.error.is_none());
}

#[test]
fn event_and_request_roundtrip() {
    let e = GuestEvent { event_type: "file_saved".into(), payload: JsonValue::Str("p".into()) };
    let back = GuestEvent::from_json_text(&e.to_json_text()).unwrap();
    assert_eq!(back.event_type, "file_saved");
    let q = CommandRequest { command: "word-count".into(), params: JsonValue::Null };
    let back = CommandRequest::from_json(&q.to_json()).unwrap();
    assert_eq!(back.command, "word-count");
    assert!(CommandRequest::from_json(&doc(r#"{"command":"c"}"#)).is_none());
}

#[test]
fn nested_values_and_permissions_print_in_order() {
    let perms = GuestRequestedPermissions {
        defaults: JsonValue::Object(vec![
            ("b".into(), JsonValue::Bool(true)),
            ("a".into(), JsonValue::Null),
        ]),
        reasons: vec![("fs".into(), "reads \"notes\"".into())],
    };
    assert_eq!(
        perms.to_json_text(),
        r#"{"defaults":{"a":null,"b":true},"reasons":{"fs":"reads \"notes\""}}"#
    );
    let m = GuestManifest::new("a".into(), "b".into(), "c".into(), "d".into(), vec!["x".into(), "y".into()])
        .ui(vec![JsonValue::Number("3".into()), JsonValue::Str("s".into())])
        .requested_permissions(perms)
        .min_app_version("1.0".into());
    assert_eq!(
        m.to_json_text(),
        r#"{"protocol_version":1,"id":"a","name":"b","version":"c","description":"d","capabilities":["x","y"],"ui":[3,"s"],"commands":[],"cli":[],"requested_permissions":{"defaults":{"a":null,"b":true},"reasons":{"fs":"reads \"notes\""}},"conversions":[],"min_app_version":"1.0"}"#
    );
    let e = GuestEvent { event_type: "t".into(), payload: JsonValue::Array(vec![JsonValue::Bool(false)]) };
    assert_eq!(e.to_json_text(), r#"{"event_type":"t","payload":[false]}"#);
    let q = CommandRequest { command: "c".into(), params: JsonValue::Null };
    assert_eq!(q.to_json_text(), r#"{"command":"c","params":null}"#);
    let ok = CommandResponse::ok(JsonValue::Str("v".into()));
    assert_eq!(ok.to_json_text(), r#"{"success":true,"data":"v","error":null}"#);
}

#[test]
fn structs_read_from_arrays_in_field_order() {
    let m = manifest_from_text(r#"[2,"a","b","c","d",["x"]]"#);
    assert_eq!(m.protocol_version, 2);
    assert_eq!(m.id, "a");
    assert_eq!(m.capabilities, vec!["x"]);
    assert!(m.ui.is_empty() && m.requested_permissions.is_none());
    assert!(GuestManifest::from_json_text(r#"[1,"a","b","c","d"]"#).is_none());
    let too_long = r#"[1,"a","b","c","d",[],[],[],[],null,[],null,0]"#;
    assert!(GuestManifest::from_json_text(too_long).is_none());
    let e = GuestEvent::from_json_text(r#"["t",{"k":1}]"#).unwrap();
    assert_eq!(e.event_type, "t");
    assert!(GuestEvent::from_json_text(r#"["t"]"#).is_none());
    assert!(GuestEvent::from_json_text(r#"["t",1,2]"#).is_none());
    let q = CommandRequest::from_json_text(r#"["c",null]"#).unwrap();
    assert_eq!(q.command, "c");
    let r = CommandResponse::from_json_text("[true]").unwrap();
    assert!(r.success && r.data.is_none() && r.error.is_none());
    let r = CommandResponse::from_json_text(r#"[false,null,"e","code"]"#).unwrap();
    assert_eq!(r.error_code.as_deref(), Some("code"));
    assert!(CommandResponse::from_json_text("[]").is_none());
    let p = GuestRequestedPermissions::from_json(&doc(r#"[null,{"fs":"r"}]"#)).unwrap();
    assert_eq!(p.reasons, vec![("fs".to_string(), "r".to_string())]);
}

#[test]
fn repeated_reason_keeps_last_value() {
    let reasons = JsonValue::Object(vec![
        ("fs".into(), JsonValue::Str("one".into())),
        ("net".into(), JsonValue::Str("two".into())),
        ("fs".into(), JsonValue::Str("three".into())),
    ]);
    let v = JsonValue::Object(vec![("reasons".into(), reasons)]);
    let p = GuestRequestedPermissions::from_json(&v).unwrap();
    assert_eq!(
        p.reasons,
        vec![("net".to_string(), "two".to_string()), ("fs".to_string(), "three".to_string())]
    );
}

#[test]
fn control_characters_are_escaped() {
    let e = GuestEvent { event_type: "a\nb\u{1}\"\\\u{8}".into(), payload: JsonValue::Null };
    assert_eq!(e.to_json_text(), r#"{"event_type":"a\nb\u0001\"\\\b","payload":null}"#);
}
