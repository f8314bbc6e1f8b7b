use cargo_check_i18n::{should_translate, should_translate_folded};

#[test]
fn warning_line_is_translated() {
    assert!(should_translate("warning: unused variable: `x`"));
}

#[test]
fn location_line_is_not_translated() {
    assert!(!should_translate("  --> src/main.rs:10:5"));
}

#[test]
fn numbered_gutter_line_is_not_translated() {
    assert!(!should_translate("10 | let x = 5;"));
}

#[test]
fn help_line_is_translated() {
    assert!(should_translate("help: consider removing this"));
}

#[test]
fn long_line_without_letters_is_not_translated() {
    let line = "0123456789.,;:!?-=+*".repeat(10);
    assert_eq!(line.len(), 200);
    assert!(!should_translate(&line));
}

#[test]
fn repeated_calls_agree() {
    let lines = ["warning: unused variable: `x`", "10 | let x = 5;", "", "|", "some plain sentence here"];
    for l in lines {
        assert_eq!(should_translate(l), should_translate(l));
    }
}

#[test]
fn status_lines_are_not_translated() {
    assert!(!should_translate("   Compiling foo v0.1.0 (/tmp/foo)"));
    assert!(!should_translate("    Checking foo v0.1.0"));
    assert!(!should_translate("    Finished dev [unoptimized] target(s) in 0.5s"));
}

#[test]
fn upper_case_keyword_is_found_after_lowering() {
    assert!(should_translate("ERROR: bad"));
    assert!(!should_translate("COMPILING something big"));
}

#[test]
fn lone_pipe_is_not_translated() {
    assert!(!should_translate("  |"));
}

#[test]
fn pipe_followed_by_text_is_not_translated() {
    assert!(!should_translate("   |     let error = 5;"));
}

#[test]
fn pipe_followed_by_marker_falls_through() {
    assert!(should_translate("   |     ^^^ help: remove this"));
    assert!(should_translate("   |     --- this value is moved here"));
    assert!(!should_translate("  | ^^^"));
}

#[test]
fn sentence_shape_without_keyword() {
    assert!(should_translate("the quick brown fox jumps"));
    assert!(!should_translate("short words"));
    assert!(!should_translate("12345678901234567890"));
    let long = "a".repeat(120);
    assert!(!should_translate(&long));
    let fits = "a".repeat(119);
    assert!(should_translate(&fits));
    let just_over = "a".repeat(16);
    assert!(should_translate(&just_over));
    let at_bound = "a".repeat(15);
    assert!(!should_translate(&at_bound));
}

#[test]
fn folded_classification_uses_the_given_lower_form() {
    assert!(should_translate_folded("XYZ", "error"));
    assert!(!should_translate_folded("ERROR", "compiling"));
}
