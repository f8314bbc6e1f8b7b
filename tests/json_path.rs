use cargo_check_i18n::{extract_json_path, JsonValue};

fn sample() -> JsonValue {
    let content = JsonValue::Object(vec![("content".to_string(), JsonValue::Str("hola".to_string()))]);
    let choice = JsonValue::Object(vec![("message".to_string(), content)]);
    JsonValue::Object(vec![("choices".to_string(), JsonValue::Array(vec![choice]))])
}

#[test]
fn default_path_finds_the_content() {
    assert_eq!(extract_json_path(&sample(), "choices.0.message.content"), Some("hola".to_string()));
}

#[test]
fn index_out_of_range_fails() {
    assert_eq!(extract_json_path(&sample(), "choices.1.message.content"), None);
}

#[test]
fn missing_key_fails() {
    assert_eq!(extract_json_path(&sample(), "choices.0.msg.content"), None);
}

#[test]
fn non_string_end_fails() {
    assert_eq!(extract_json_path(&sample(), "choices.0.message"), None);
    let n = JsonValue::Object(vec![("n".to_string(), JsonValue::Number("3".to_string()))]);
    assert_eq!(extract_json_path(&n, "n"), None);
}

#[test]
fn number_segment_on_object_fails() {
    let v = JsonValue::Object(vec![("0".to_string(), JsonValue::Str("x".to_string()))]);
    assert_eq!(extract_json_path(&v, "0"), None);
}

#[test]
fn plus_sign_index_is_read_as_number() {
    let v = JsonValue::Array(vec![JsonValue::Str("a".to_string()), JsonValue::Str("b".to_string())]);
    assert_eq!(extract_json_path(&v, "+1"), Some("b".to_string()));
    assert_eq!(extract_json_path(&v, "-1"), None);
}

#[test]
fn empty_path_reads_the_root() {
    let v = JsonValue::Object(vec![("".to_string(), JsonValue::Str("root".to_string()))]);
    assert_eq!(extract_json_path(&v, ""), Some("root".to_string()));
    assert_eq!(extract_json_path(&JsonValue::Null, "a"), None);
}
