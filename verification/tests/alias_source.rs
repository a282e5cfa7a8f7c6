//! Tests of alias-source parsing and the alias map.

use tz_rust::alias::{parse_tz_abbr, AliasMap};
use tz_rust::strutil::str_eq;

#[test]
fn parses_simple_source() {
    let am = parse_tz_abbr("NYC=America/New_York\nLON=Europe/London\n").unwrap();
    assert_eq!(am.lookup("NYC").as_deref(), Some("America/New_York"));
    assert_eq!(am.lookup("LON").as_deref(), Some("Europe/London"));
    assert_eq!(am.lookup("PAR"), None);
}

#[test]
fn final_newline_is_optional() {
    let am = parse_tz_abbr("NYC=America/New_York").unwrap();
    assert_eq!(am.lookup("NYC").as_deref(), Some("America/New_York"));
}

#[test]
fn empty_source_is_empty_map() {
    let am = parse_tz_abbr("").unwrap();
    assert_eq!(am.lookup("NYC"), None);
}

#[test]
fn line_without_separator_is_fatal() {
    assert!(matches!(parse_tz_abbr("NYC America/New_York"), Err("Invalid format")));
    assert!(matches!(parse_tz_abbr("A=B\nmalformed\nC=D"), Err("Invalid format")));
    // a blank line has no separator either
    assert!(matches!(parse_tz_abbr("A=B\n\nC=D"), Err("Invalid format")));
}

#[test]
fn splits_at_first_separator_only() {
    let am = parse_tz_abbr("K=a=b").unwrap();
    assert_eq!(am.lookup("K").as_deref(), Some("a=b"));
}

#[test]
fn last_entry_wins_on_duplicate_key() {
    let am = parse_tz_abbr("K=first\nK=second").unwrap();
    assert_eq!(am.lookup("K").as_deref(), Some("second"));
}

#[test]
fn carriage_returns_are_tolerated() {
    let am = parse_tz_abbr("NYC=America/New_York\r\nLON=Europe/London\r\n").unwrap();
    assert_eq!(am.lookup("NYC").as_deref(), Some("America/New_York"));
    assert_eq!(am.lookup("LON").as_deref(), Some("Europe/London"));
}

#[test]
fn final_unterminated_line_keeps_carriage_return() {
    // only a line break strips the carriage return before it
    let am = parse_tz_abbr("K=V\r\n").unwrap();
    assert_eq!(am.lookup("K").as_deref(), Some("V"));
    let am = parse_tz_abbr("K=V\r").unwrap();
    assert_eq!(am.lookup("K").as_deref(), Some("V\r"));
}

#[test]
fn keys_are_case_sensitive() {
    let am = parse_tz_abbr("NYC=America/New_York").unwrap();
    assert_eq!(am.lookup("nyc"), None);
}

#[test]
fn put_overrides_earlier_entry() {
    let mut am = AliasMap::new();
    am.put("K".to_string(), "one".to_string());
    am.put("K".to_string(), "two".to_string());
    assert_eq!(am.lookup("K").as_deref(), Some("two"));
}

#[test]
fn str_eq_compares_characters() {
    assert!(str_eq("abc", "abc"));
    assert!(!str_eq("abc", "abd"));
    assert!(!str_eq("abc", "ab"));
    assert!(str_eq("", ""));
}
