use agentai::text::{contains_str, decimal_string, parse_ordinal, split_once_at};

#[test]
fn decimal_spelling() {
    assert_eq!(decimal_string(0), "0");
    assert_eq!(decimal_string(9), "9");
    assert_eq!(decimal_string(10), "10");
    assert_eq!(decimal_string(1234), "1234");
    assert_eq!(decimal_string(usize::MAX), usize::MAX.to_string());
}

#[test]
fn ordinal_parsing() {
    assert_eq!(parse_ordinal("0", 1), Some(0));
    assert_eq!(parse_ordinal("12", 13), Some(12));
    assert_eq!(parse_ordinal("012", 13), Some(12));
    assert_eq!(parse_ordinal("13", 13), None);
    assert_eq!(parse_ordinal("", 13), None);
    assert_eq!(parse_ordinal("1a", 13), None);
    assert_eq!(parse_ordinal("99999999999999999999999999", usize::MAX), None);
    assert_eq!(parse_ordinal("0", 0), None);
}

#[test]
fn splitting_at_first_separator() {
    assert_eq!(split_once_at("a-b-c", '-'), Some(("a".to_string(), "b-c".to_string())));
    assert_eq!(split_once_at("-x", '-'), Some(("".to_string(), "x".to_string())));
    assert_eq!(split_once_at("abc", '-'), None);
    assert_eq!(split_once_at("é-ü", '-'), Some(("é".to_string(), "ü".to_string())));
}

#[test]
fn substring_search() {
    assert!(contains_str("Unknown tool: x", "Unknown tool"));
    assert!(contains_str("abc", ""));
    assert!(contains_str("xxabc", "abc"));
    assert!(!contains_str("ab", "abc"));
    assert!(!contains_str("unknown tool", "Unknown tool"));
}
