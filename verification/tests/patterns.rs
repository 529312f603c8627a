use slugify::errors::Error;
use slugify::pattern::{
    regex_pattern, separator_regex_pattern, separator_string_pattern, string_pattern,
};

#[test]
fn test_separator_none_underscore_dash() {
    assert_eq!(string_pattern(None), "[^a-zA-Z0-9_-]+");
    assert_eq!(string_pattern(Some('_')), "[^a-zA-Z0-9_-]+");
    assert_eq!(string_pattern(Some('-')), "[^a-zA-Z0-9_-]+");
}

#[test]
fn test_separator_dot() {
    assert_eq!(string_pattern(Some('.')), "[^a-zA-Z0-9_.-]+");
}

#[test]
fn string_test_separator_none_underscore_dash() -> Result<(), Error> {
    assert_eq!(string_pattern(None), "[^a-zA-Z0-9_-]+");
    assert_eq!(string_pattern(Some('_')), "[^a-zA-Z0-9_-]+");
    assert_eq!(string_pattern(Some('-')), "[^a-zA-Z0-9_-]+");
    Ok(())
}

#[test]
fn string_test_separator_dot() -> Result<(), Error> {
    assert_eq!(string_pattern(Some('.')), "[^a-zA-Z0-9_.-]+");
    Ok(())
}

#[test]
fn separator_patterns() {
    assert_eq!(separator_string_pattern(None), "[-]+");
    assert_eq!(separator_string_pattern(Some('_')), "[-]+");
    assert_eq!(separator_string_pattern(Some('-')), "[-]+");
    assert_eq!(separator_string_pattern(Some('.')), "[_.-]+");
}

#[test]
fn compiled_patterns_keep_their_source() {
    assert_eq!(regex_pattern(None).unwrap().as_str(), "[^a-zA-Z0-9_-]+");
    assert_eq!(regex_pattern(Some('.')).unwrap().as_str(), "[^a-zA-Z0-9_.-]+");
    assert_eq!(separator_regex_pattern(Some('.')).unwrap().as_str(), "[_.-]+");
    assert_eq!(separator_regex_pattern(Some('-')).unwrap().as_str(), "[-]+");
}

#[test]
fn opening_bracket_makes_no_pattern() {
    let refused = regex_pattern(Some('[')).unwrap_err();
    assert_eq!(refused.variant(), "PatternCompilationError");
    assert!(matches!(refused, Error::PatternCompilationError(_)));
    assert!(!refused.message().is_empty());
    assert!(separator_regex_pattern(Some('[')).is_err());
}
