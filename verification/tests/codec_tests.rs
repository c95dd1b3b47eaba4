use call_relay::codec::decode_notification;
use call_relay::codec::encode_notification;
use call_relay::codec::encode_response;
use call_relay::messages::DecodeError;
use call_relay::messages::IncomingNotification;
use call_relay::messages::OutgoingResponse;

fn notification(account_sid: &str, call_sid: &str) -> IncomingNotification {
    IncomingNotification { account_sid: account_sid.to_string(), call_sid: call_sid.to_string() }
}

#[test]
fn encode_simple_notification() {
    let text = encode_notification(&notification("AC1", "CA1"));
    assert_eq!(text, "{\"account_sid\":\"AC1\",\"call_sid\":\"CA1\"}");
}

#[test]
fn round_trip_simple() {
    let text = encode_notification(&notification("AC1", "CA1"));
    let decoded = decode_notification(text.as_bytes()).unwrap();
    assert_eq!(decoded.account_sid, "AC1");
    assert_eq!(decoded.call_sid, "CA1");
}

#[test]
fn round_trip_with_escapes() {
    let n = notification("a\"b\\c", "x\ny\tz\u{1}");
    let text = encode_notification(&n);
    let decoded = decode_notification(text.as_bytes()).unwrap();
    assert_eq!(decoded.account_sid, "a\"b\\c");
    assert_eq!(decoded.call_sid, "x\ny\tz\u{1}");
}

#[test]
fn round_trip_non_ascii() {
    let n = notification("caf\u{e9}", "\u{1f600}\u{4e16}");
    let text = encode_notification(&n);
    let decoded = decode_notification(text.as_bytes()).unwrap();
    assert_eq!(decoded.account_sid, "caf\u{e9}");
    assert_eq!(decoded.call_sid, "\u{1f600}\u{4e16}");
}

#[test]
fn control_characters_are_escaped_as_hex() {
    let text = encode_notification(&notification("\u{1}", "\u{1f}"));
    assert_eq!(text, "{\"account_sid\":\"\\u0001\",\"call_sid\":\"\\u001f\"}");
}

#[test]
fn invalid_utf8_is_an_encoding_error() {
    let r = decode_notification(&[0xff, 0xfe, 0x41]);
    assert!(matches!(r, Err(DecodeError::Encoding)));
}

#[test]
fn truncated_utf8_is_an_encoding_error() {
    // a two-byte sequence cut short
    let r = decode_notification(&[b'{', 0xc3]);
    assert!(matches!(r, Err(DecodeError::Encoding)));
}

#[test]
fn missing_call_sid_is_a_schema_error() {
    let r = decode_notification(b"{\"account_sid\":\"AC1\"}");
    assert!(matches!(r, Err(DecodeError::Schema)));
}

#[test]
fn missing_account_sid_is_a_schema_error() {
    let r = decode_notification(b"{\"call_sid\":\"CA1\"}");
    assert!(matches!(r, Err(DecodeError::Schema)));
}

#[test]
fn wrong_field_type_is_a_schema_error() {
    let r = decode_notification(b"{\"account_sid\":7,\"call_sid\":\"CA1\"}");
    assert!(matches!(r, Err(DecodeError::Schema)));
}

#[test]
fn wrong_key_is_a_schema_error() {
    let r = decode_notification(b"{\"account_sid\":\"AC1\",\"caller\":\"CA1\"}");
    assert!(matches!(r, Err(DecodeError::Schema)));
}

#[test]
fn duplicate_key_is_a_schema_error() {
    let r = decode_notification(b"{\"account_sid\":\"a\",\"account_sid\":\"b\"}");
    assert!(matches!(r, Err(DecodeError::Schema)));
}

#[test]
fn empty_object_is_a_schema_error() {
    let r = decode_notification(b"{}");
    assert!(matches!(r, Err(DecodeError::Schema)));
}

#[test]
fn non_json_text_is_a_schema_error() {
    let r = decode_notification(b"hello there");
    assert!(matches!(r, Err(DecodeError::Schema)));
}

#[test]
fn trailing_garbage_is_a_schema_error() {
    let r = decode_notification(b"{\"account_sid\":\"a\",\"call_sid\":\"b\"} x");
    assert!(matches!(r, Err(DecodeError::Schema)));
}

#[test]
fn unterminated_string_is_a_schema_error() {
    let r = decode_notification(b"{\"account_sid\":\"a\",\"call_sid\":\"b}");
    assert!(matches!(r, Err(DecodeError::Schema)));
}

#[test]
fn bare_control_character_is_a_schema_error() {
    let r = decode_notification(b"{\"account_sid\":\"a\x01\",\"call_sid\":\"b\"}");
    assert!(matches!(r, Err(DecodeError::Schema)));
}

#[test]
fn surrogate_escape_is_a_schema_error() {
    let r = decode_notification(b"{\"account_sid\":\"\\ud800\",\"call_sid\":\"b\"}");
    assert!(matches!(r, Err(DecodeError::Schema)));
}

#[test]
fn fields_may_come_in_either_order() {
    let r = decode_notification(b"{\"call_sid\":\"CA9\",\"account_sid\":\"AC9\"}").unwrap();
    assert_eq!(r.account_sid, "AC9");
    assert_eq!(r.call_sid, "CA9");
}

#[test]
fn whitespace_between_tokens_is_accepted() {
    let r = decode_notification(b" {\r\n\t\"account_sid\" : \"A\" ,\n \"call_sid\"\t: \"C\" }\n")
        .unwrap();
    assert_eq!(r.account_sid, "A");
    assert_eq!(r.call_sid, "C");
}

#[test]
fn escape_forms_are_decoded() {
    let r = decode_notification(
        b"{\"account_sid\":\"a\\nb\\\"c\\\\d\\/e\\bf\\fg\",\"call_sid\":\"\\u0041\\u00e9\\r\\t\"}",
    )
    .unwrap();
    assert_eq!(r.account_sid, "a\nb\"c\\d/e\u{8}f\u{c}g");
    assert_eq!(r.call_sid, "A\u{e9}\r\t");
}

#[test]
fn encode_response_text() {
    let text = encode_response(&OutgoingResponse { content: "x\"y".to_string() });
    assert_eq!(text, "{\"content\":\"x\\\"y\"}");
}

#[test]
fn encoder_output_parses_with_serde_json() {
    let n = notification("a\"b\\c\n\u{1}", "q\u{1f600}");
    let text = encode_notification(&n);
    let value: serde_json::Value = serde_json::from_str(&text).unwrap();
    assert_eq!(value.get("account_sid").unwrap().as_str().unwrap(), "a\"b\\c\n\u{1}");
    assert_eq!(value.get("call_sid").unwrap().as_str().unwrap(), "q\u{1f600}");
}

#[test]
fn serde_json_output_decodes_with_this_codec() {
    let mut map = serde_json::Map::new();
    map.insert(
        "account_sid".to_string(),
        serde_json::Value::String("A\"B\\C\n".to_string()),
    );
    map.insert("call_sid".to_string(), serde_json::Value::String("C\u{e9}D".to_string()));
    let text = serde_json::Value::Object(map).to_string();
    let decoded = decode_notification(text.as_bytes()).unwrap();
    assert_eq!(decoded.account_sid, "A\"B\\C\n");
    assert_eq!(decoded.call_sid, "C\u{e9}D");
}
