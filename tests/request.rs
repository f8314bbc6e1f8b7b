use cargo_check_i18n::{
    annotate, build_request_body, default_body_around, default_language, default_response_path, effective_rate,
    prepare_line, translation_from_response, JsonValue, LineAction, RequestShape,
};

fn shape(template: Option<&str>) -> RequestShape {
    RequestShape {
        model: "gpt-4o-mini".to_string(),
        temperature: "0.2".to_string(),
        temperature_json: "0.2".to_string(),
        template: template.map(|t| t.to_string()),
    }
}

#[test]
fn template_is_filled() {
    let s = shape(Some("{\"model\": \"{{model}}\", \"content\": \"{{prompt}}\", \"t\": {{temperature}}}"));
    assert_eq!(
        build_request_body(&s, "hi"),
        Some("{\"model\": \"gpt-4o-mini\", \"content\": \"hi\", \"t\": 0.2}".to_string())
    );
}

#[test]
fn default_body_is_json() {
    let body = build_request_body(&shape(None), "say \"hi\"\n").unwrap();
    assert_eq!(
        body,
        "{\"messages\":[{\"content\":\"say \\\"hi\\\"\\n\",\"role\":\"user\"}],\"model\":\"gpt-4o-mini\",\"temperature\":0.2}"
    );
}

#[test]
fn failed_status_gives_no_translation() {
    let v = JsonValue::Object(vec![("t".to_string(), JsonValue::Str("x".to_string()))]);
    assert_eq!(translation_from_response(false, Some(&v), "t"), None);
    assert_eq!(translation_from_response(true, None, "t"), None);
    assert_eq!(translation_from_response(true, Some(&v), "t"), Some("x".to_string()));
}

#[test]
fn defaults() {
    assert_eq!(default_language(), "zh-CN");
    assert_eq!(default_response_path(), "choices.0.message.content");
    assert_eq!(effective_rate(None), 8);
    assert_eq!(effective_rate(Some(0)), 1);
    assert_eq!(effective_rate(Some(20)), 20);
}

#[test]
fn coloured_line_is_keyed_by_its_clean_text() {
    match prepare_line("\u{1b}[33mwarning\u{1b}[0m: unused variable: `x`  ") {
        LineAction::Translate(k) => assert_eq!(k, "warning: unused variable: `x`"),
        LineAction::Plain => panic!("a warning is translated"),
    }
    assert!(matches!(prepare_line("\u{1b}[1m10 | let x = 5;\u{1b}[0m"), LineAction::Plain));
}

#[test]
fn annotated_line() {
    assert_eq!(annotate("warning: x", "aviso: x"), "warning: x (aviso: x)");
}

#[test]
fn body_around_quoted_strings() {
    assert_eq!(
        default_body_around("\"p\"", "\"m\"", "1"),
        "{\"messages\":[{\"content\":\"p\",\"role\":\"user\"}],\"model\":\"m\",\"temperature\":1}"
    );
}
