use pact_core::json_text::to_json_bytes;
use pact_core::value::JsonValue;

#[test]
fn serializes_scalars_exactly() {
    assert_eq!(to_json_bytes(&JsonValue::Null), b"null".to_vec());
    assert_eq!(to_json_bytes(&JsonValue::Bool(true)), b"true".to_vec());
    assert_eq!(to_json_bytes(&JsonValue::Bool(false)), b"false".to_vec());
    assert_eq!(to_json_bytes(&JsonValue::Int(0)), b"0".to_vec());
    assert_eq!(to_json_bytes(&JsonValue::Int(1234567890)), b"1234567890".to_vec());
    assert_eq!(to_json_bytes(&JsonValue::Int(-17)), b"-17".to_vec());
    assert_eq!(
        to_json_bytes(&JsonValue::Int(i64::MIN)),
        b"-9223372036854775808".to_vec()
    );
}

#[test]
fn serializes_object_compactly() {
    let v = JsonValue::Object(vec![
        ("ok".to_string(), JsonValue::Bool(true)),
        ("n".to_string(), JsonValue::Int(2)),
    ]);
    assert_eq!(to_json_bytes(&v), b"{\"ok\":true,\"n\":2}".to_vec());
}

#[test]
fn serializes_array_in_order() {
    let v = JsonValue::Array(vec![
        JsonValue::Int(1),
        JsonValue::Text("a".to_string()),
        JsonValue::Array(vec![]),
        JsonValue::Object(vec![]),
    ]);
    assert_eq!(to_json_bytes(&v), b"[1,\"a\",[],{}]".to_vec());
}

#[test]
fn escapes_quotes_backslashes_and_controls() {
    let v = JsonValue::Text("a\"b\\c\nd\te\rf\u{8}g\u{c}h\u{1}".to_string());
    assert_eq!(
        to_json_bytes(&v),
        b"\"a\\\"b\\\\c\\nd\\te\\rf\\bg\\fh\\u0001\"".to_vec()
    );
}

#[test]
fn escapes_characters_outside_ascii() {
    let v = JsonValue::Text("é".to_string());
    assert_eq!(to_json_bytes(&v), b"\"\\u00e9\"".to_vec());
    let v = JsonValue::Text("\u{1F600}".to_string());
    assert_eq!(to_json_bytes(&v), b"\"\\ud83d\\ude00\"".to_vec());
}

#[test]
fn writes_the_float_token_verbatim() {
    // The token is the host's rendering; serde_json computes it here, as a
    // host would.
    let token = serde_json::Number::from_f64(0.5).unwrap().to_string();
    let v = JsonValue::Object(vec![(
        "ratio".to_string(),
        JsonValue::Float(0.5f64.to_bits(), token),
    )]);
    assert_eq!(to_json_bytes(&v), b"{\"ratio\":0.5}".to_vec());
}

#[test]
fn non_finite_float_serializes_as_null() {
    let v = JsonValue::Float(f64::NAN.to_bits(), "NaN".to_string());
    assert_eq!(to_json_bytes(&v), b"null".to_vec());
}
