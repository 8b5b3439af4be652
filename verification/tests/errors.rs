use subrass::parser::errors::{ParseError, Section};

#[test]
fn test_section_from_header() {
    assert_eq!(
        Section::from_header("[Script Info]"),
        Some(Section::ScriptInfo)
    );
    assert_eq!(
        Section::from_header("[V4+ Styles]"),
        Some(Section::V4PlusStyles)
    );
    assert_eq!(Section::from_header("[Events]"), Some(Section::Events));
    assert_eq!(Section::from_header("[Fonts]"), Some(Section::Fonts));
    assert_eq!(Section::from_header("[invalid]"), None);
}

#[test]
fn test_parse_error_display() {
    let error = ParseError::InvalidTime("bad".to_string());
    assert!(error.message().contains("Invalid time format"));

    let error = ParseError::line_error(42, "test error".to_string());
    assert!(error.message().contains("line 42"));
}

#[test]
fn error_messages_are_exact() {
    let e = ParseError::line_error(7, "boom".to_string());
    assert_eq!(e.message(), "Parse error at line 7: boom");
    let e = ParseError::FieldCountMismatch { expected: 10, actual: 3 };
    assert_eq!(e.message(), "Field count mismatch: expected 10, got 3");
    let e = ParseError::Unexpected("x".to_string());
    assert_eq!(e.message(), "Unexpected error: x");
}

#[test]
fn section_headers_ignore_case_and_spaces() {
    assert_eq!(Section::from_header("  [EVENTS]  "), Some(Section::Events));
    assert_eq!(Section::from_header("[ScriptInfo]"), Some(Section::ScriptInfo));
    assert_eq!(Section::from_header("[v4 styles]"), Some(Section::V4Styles));
    assert_eq!(Section::from_header("[Graphics]"), Some(Section::Graphics));
}
