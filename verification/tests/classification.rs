//! Tests of token classification: slot assignment, merging, defaults,
//! aliases and errors.

use tz_rust::alias::AliasMap;
use tz_rust::civil::{CivilDate, CivilDateTime, CivilTime};
use tz_rust::classify::parse_dt_parts;

fn now() -> CivilDateTime {
    CivilDateTime {
        date: CivilDate { year: 2024, month: 5, day: 10 },
        time: CivilTime { hour: 12, minute: 34, second: 56 },
    }
}

fn toks(parts: &[&str]) -> Vec<String> {
    parts.iter().map(|s| s.to_string()).collect()
}

#[test]
fn order_independent_permutations() {
    let aliases = AliasMap::new();
    let orders: [[&str; 3]; 6] = [
        ["11-12", "20:00", "utc"],
        ["11-12", "utc", "20:00"],
        ["20:00", "11-12", "utc"],
        ["20:00", "utc", "11-12"],
        ["utc", "11-12", "20:00"],
        ["utc", "20:00", "11-12"],
    ];
    for order in orders.iter() {
        let r = parse_dt_parts(&toks(order), &aliases, now()).unwrap();
        assert_eq!(r.0.date, CivilDate { year: 2024, month: 11, day: 12 });
        assert_eq!(r.0.time, CivilTime { hour: 20, minute: 0, second: 0 });
        assert_eq!(r.1.as_deref(), Some("UTC"));
    }
}

#[test]
fn two_timezones_fail() {
    let aliases = AliasMap::new();
    let r = parse_dt_parts(&toks(&["utc", "America/New_York"]), &aliases, now());
    assert_eq!(r, Err("Invalid datetime"));
}

#[test]
fn empty_tokens_yield_now() {
    let aliases = AliasMap::new();
    let r = parse_dt_parts(&toks(&[]), &aliases, now()).unwrap();
    assert_eq!(r.0, now());
    assert_eq!(r.1, None);
}

#[test]
fn two_token_time_merge() {
    let aliases = AliasMap::new();
    let r = parse_dt_parts(&toks(&["8", "25am"]), &aliases, now()).unwrap();
    assert_eq!(r.0.time, CivilTime { hour: 8, minute: 25, second: 0 });
    assert_eq!(r.0.date, now().date);
    assert_eq!(r.1, None);
}

#[test]
fn merge_consumes_exactly_two_tokens() {
    // the token after a merged pair is classified normally, not skipped
    let aliases = AliasMap::new();
    let r = parse_dt_parts(&toks(&["8", "25am", "utc"]), &aliases, now()).unwrap();
    assert_eq!(r.0.time, CivilTime { hour: 8, minute: 25, second: 0 });
    assert_eq!(r.1.as_deref(), Some("UTC"));
}

#[test]
fn detached_ampm_suffix_merges() {
    let aliases = AliasMap::new();
    let r = parse_dt_parts(&toks(&["8:25", "am"]), &aliases, now()).unwrap();
    assert_eq!(r.0.time, CivilTime { hour: 8, minute: 25, second: 0 });
    let r = parse_dt_parts(&toks(&["8:25", "pm"]), &aliases, now()).unwrap();
    assert_eq!(r.0.time, CivilTime { hour: 20, minute: 25, second: 0 });
    let r = parse_dt_parts(&toks(&["8", "pm"]), &aliases, now()).unwrap();
    assert_eq!(r.0.time, CivilTime { hour: 20, minute: 0, second: 0 });
}

#[test]
fn split_bare_time_concatenates() {
    let aliases = AliasMap::new();
    let r = parse_dt_parts(&toks(&["14", "30"]), &aliases, now()).unwrap();
    assert_eq!(r.0.time, CivilTime { hour: 14, minute: 30, second: 0 });
}

#[test]
fn two_plain_tokens_merge_as_hour_minute() {
    let aliases = AliasMap::new();
    let r = parse_dt_parts(&toks(&["8", "25"]), &aliases, now()).unwrap();
    assert_eq!(r.0.time, CivilTime { hour: 8, minute: 25, second: 0 });
}

#[test]
fn full_example_with_all_three_tokens() {
    let aliases = AliasMap::new();
    let r = parse_dt_parts(
        &toks(&["2023/12/10", "8:25", "America/Los_Angeles"]),
        &aliases,
        now(),
    )
    .unwrap();
    assert_eq!(r.0.date, CivilDate { year: 2023, month: 12, day: 10 });
    assert_eq!(r.0.time, CivilTime { hour: 8, minute: 25, second: 0 });
    assert_eq!(r.1.as_deref(), Some("America/Los_Angeles"));
}

#[test]
fn time_only_defaults_to_today() {
    let aliases = AliasMap::new();
    let r = parse_dt_parts(&toks(&["14:30"]), &aliases, now()).unwrap();
    assert_eq!(r.0.date, now().date);
    assert_eq!(r.0.time, CivilTime { hour: 14, minute: 30, second: 0 });
    assert_eq!(r.1, None);
}

#[test]
fn date_only_defaults_to_current_time() {
    let aliases = AliasMap::new();
    let r = parse_dt_parts(&toks(&["2023-12-10"]), &aliases, now()).unwrap();
    assert_eq!(r.0.date, CivilDate { year: 2023, month: 12, day: 10 });
    assert_eq!(r.0.time, now().time);
}

#[test]
fn timezone_lookup_is_case_insensitive_and_canonical() {
    let aliases = AliasMap::new();
    let r = parse_dt_parts(&toks(&["america/new_york"]), &aliases, now()).unwrap();
    assert_eq!(r.1.as_deref(), Some("America/New_York"));
    let r = parse_dt_parts(&toks(&["uTc"]), &aliases, now()).unwrap();
    assert_eq!(r.1.as_deref(), Some("UTC"));
}

#[test]
fn alias_overrides_literal_token() {
    // "utc" would name the UTC zone on its own, but the alias wins
    let mut aliases = AliasMap::new();
    aliases.put("utc".to_string(), "America/New_York".to_string());
    let r = parse_dt_parts(&toks(&["utc"]), &aliases, now()).unwrap();
    assert_eq!(r.1.as_deref(), Some("America/New_York"));
}

#[test]
fn alias_maps_custom_abbreviation() {
    let mut aliases = AliasMap::new();
    aliases.put("nyc".to_string(), "America/New_York".to_string());
    let r = parse_dt_parts(&toks(&["nyc", "20:00"]), &aliases, now()).unwrap();
    assert_eq!(r.1.as_deref(), Some("America/New_York"));
    assert_eq!(r.0.time, CivilTime { hour: 20, minute: 0, second: 0 });
}

#[test]
fn unclassifiable_token_fails() {
    let aliases = AliasMap::new();
    assert_eq!(
        parse_dt_parts(&toks(&["nonsense"]), &aliases, now()),
        Err("Invalid datetime")
    );
}

#[test]
fn double_filled_slot_fails() {
    let aliases = AliasMap::new();
    assert_eq!(
        parse_dt_parts(&toks(&["14:30", "15:30"]), &aliases, now()),
        Err("Invalid datetime")
    );
    assert_eq!(
        parse_dt_parts(&toks(&["11-12", "10-11"]), &aliases, now()),
        Err("Invalid datetime")
    );
}
