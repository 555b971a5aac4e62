use diaryx_plugin_sdk::config::workspace_key;
use diaryx_plugin_sdk::encoding::decode_base64;
use diaryx_plugin_sdk::host::ws::send_binary;
use diaryx_plugin_sdk::getrandom_shim::{get_seed, start_state, xorshift_fill};
use diaryx_plugin_sdk::json::{field, str_field, JsonValue};
use diaryx_plugin_sdk::state::PluginState;
use diaryx_plugin_sdk::text::{parse_u64, push_decimal, push_hex, trim, IntParseError, int_error_text, str_eq};

#[test]
fn trim_removes_unicode_white_space() {
    assert_eq!(trim("  \t abc \n"), "abc");
    assert_eq!(trim("\u{3000}x y\u{a0}"), "x y");
    assert_eq!(trim("   "), "");
    assert_eq!(trim(""), "");
}

#[test]
fn parse_u64_follows_std() {
    for s in ["0", "42", "+7", "18446744073709551615", "", "+", "-", "-1", "1a", "18446744073709551616", " 1"] {
        let ours = parse_u64(s);
        let theirs = s.parse::<u64>();
        match (ours, theirs) {
            (Ok(a), Ok(b)) => assert_eq!(a, b),
            (Err(k), Err(e)) => assert_eq!(int_error_text(k), e.to_string()),
            (a, b) => panic!("{s}: {a:?} vs {b:?}"),
        }
    }
    assert_eq!(parse_u64("99999999999999999999x"), Err(IntParseError::PosOverflow));
}

#[test]
fn hex_and_decimal_text() {
    let mut s = String::new();
    push_hex(&mut s, 0);
    push_hex(&mut s, 255);
    push_hex(&mut s, u64::MAX);
    assert_eq!(s, format!("{:x}{:x}{:x}", 0, 255, u64::MAX));
    let mut d = String::new();
    push_decimal(&mut d, 1234567890);
    assert_eq!(d, "1234567890");
    assert!(str_eq("abc", "abc") && !str_eq("abc", "abd") && !str_eq("ab", "abc"));
}

fn encoded(data: &[u8]) -> String {
    let payload = send_binary(data);
    let v: serde_json::Value = serde_json::from_str(&payload).unwrap();
    v["data"].as_str().unwrap().to_string()
}

#[test]
fn base64_encodes_standard_padded() {
    assert_eq!(encoded(b"hello"), "aGVsbG8=");
    assert_eq!(encoded(&[1, 2]), "AQI=");
    assert_eq!(encoded(&[]), "");
    assert_eq!(encoded(&[0x9e, 0xe9, 0x65]), "null");
    assert_eq!(decode_base64("aGVsbG8=").unwrap(), b"hello".to_vec());
    assert!(decode_base64("QR==").is_err());
    assert!(decode_base64("QQ").is_err());
    assert!(decode_base64("a b").is_err());
    let data: Vec<u8> = (0..=255).collect();
    assert_eq!(decode_base64(&encoded(&data)).unwrap(), data);
}

#[test]
fn json_member_access() {
    let v = JsonValue::Object(vec![
        ("b".into(), JsonValue::Number("1".into())),
        ("a".into(), JsonValue::Array(vec![JsonValue::Bool(true), JsonValue::Null])),
    ]);
    assert_eq!(str_field(&v, "b"), None);
    assert!(field(&v, "a").is_some());
    assert!(field(&v, "c").is_none());
    assert!(field(&JsonValue::Null, "a").is_none());
    let dup = JsonValue::Object(vec![
        ("k".into(), JsonValue::Str("first".into())),
        ("k".into(), JsonValue::Str("last".into())),
    ]);
    assert_eq!(str_field(&dup, "k").as_deref(), Some("last"));
}

#[test]
fn workspace_key_format() {
    let key = workspace_key("myplugin.config", Some("/Users/me/diary"));
    let rest = key.strip_prefix("myplugin.config.").unwrap();
    assert!(!rest.is_empty() && rest.len() <= 16);
    assert!(rest.chars().all(|c| c.is_ascii_hexdigit() && !c.is_ascii_uppercase()));
    assert!(!rest.starts_with('0') || rest == "0");
    assert_eq!(key, workspace_key("myplugin.config", Some("/Users/me/diary")));
    assert_eq!(workspace_key("p", None), workspace_key("p", Some("__default__")));
    assert_ne!(workspace_key("p", Some("/a")), workspace_key("p", Some("/b")));
    assert_ne!(workspace_key("p", Some("/a")), "p.");
}

#[test]
fn seed_falls_back_to_42() {
    assert_eq!(get_seed(Ok(7)), 7);
    assert_eq!(get_seed(Ok(0)), 42);
    assert_eq!(get_seed(Err("no clock".into())), 42);
    assert_eq!(start_state(5, || panic!("seed asked for")), 5);
    assert_eq!(start_state(0, || 9), 9);
}

#[test]
fn xorshift_fill_values() {
    let mut buf = [0u8; 8];
    let next = xorshift_fill(1, &mut buf);
    assert_eq!(buf, [65, 65, 41, 37, 101, 1, 113, 13]);
    assert_eq!(next, 14279964170112293133);
    let mut buf = [0u8; 4];
    let next = xorshift_fill(42, &mut buf);
    assert_eq!(buf, [170, 191, 122, 104]);
    assert_eq!(next, 2899061411254629736);
    let mut empty: [u8; 0] = [];
    assert_eq!(xorshift_fill(3, &mut empty), 3);
}

#[test]
fn xorshift_fill_continues_where_it_stopped() {
    let mut whole = [0u8; 13];
    let end = xorshift_fill(12345, &mut whole);
    let mut first = [0u8; 5];
    let mut second = [0u8; 8];
    let mid = xorshift_fill(12345, &mut first);
    let end2 = xorshift_fill(mid, &mut second);
    assert_eq!(&whole[..5], &first);
    assert_eq!(&whole[5..], &second);
    assert_eq!(end, end2);
    assert_ne!(end, 0);
}

#[derive(Debug, Clone, Default, PartialEq)]
struct Counter {
    count: u32,
    root: Option<String>,
}

#[test]
fn plugin_state_lifecycle() {
    let mut state: PluginState<Counter> = PluginState::new();
    assert_eq!(state.try_get(), None);
    assert_eq!(state.get(), Counter::default());
    assert_eq!(state.try_get(), Some(Counter::default()));
    state.update(|mut c| {
        c.count += 1;
        c
    });
    assert_eq!(state.get().count, 1);
    state.set(Counter { count: 9, root: Some("/w".into()) });
    assert_eq!(state.get(), Counter { count: 9, root: Some("/w".into()) });
    let mut fresh: PluginState<Counter> = PluginState::new();
    fresh.update(|mut c| {
        c.count = 4;
        c
    });
    assert_eq!(fresh.try_get().unwrap().count, 4);
}

#[test]
fn base64_decoder_accepts_exactly_encodings() {
    let alphabet = ['A', 'Q', 'g', 'w', 'B', '/', '+', '='];
    let mut accepted = 0;
    for n in 0..4096usize {
        let mut s = String::new();
        let mut k = n;
        for _ in 0..4 {
            s.push(alphabet[k % 8]);
            k /= 8;
        }
        if let Ok(b) = decode_base64(&s) {
            accepted += 1;
            assert_eq!(encoded(&b), s);
        }
    }
    assert!(accepted > 0);
    for x in 0..=255u8 {
        for y in [0u8, 1, 127, 255] {
            assert_eq!(decode_base64(&encoded(&[x, y])).unwrap(), vec![x, y]);
            assert_eq!(decode_base64(&encoded(&[x])).unwrap(), vec![x]);
        }
    }
}

#[test]
fn workspace_key_prefix_is_recovered() {
    let key = workspace_key("my.plugin.config", Some("/w"));
    let (prefix, hash) = key.rsplit_once('.').unwrap();
    assert_eq!(prefix, "my.plugin.config");
    assert!(!hash.is_empty());
    assert_ne!(workspace_key("a.b", Some("/w")), workspace_key("a", Some("/w")));
}

#[test]
fn plugin_state_get_after_set_keeps_value() {
    let mut state: PluginState<Counter> = PluginState::new();
    let v = Counter { count: 3, root: None };
    state.set(v.clone());
    assert_eq!(state.get(), v);
    assert_eq!(state.get(), v);
    assert_eq!(state.try_get(), Some(v));
}
