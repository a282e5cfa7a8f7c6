//! Tests of civil-time resolution, conversion and planning.

use tz_rust::civil::{CivilDate, CivilDateTime, CivilTime};
use tz_rust::convert::{
    conversion_plan, convert_dt, converted_of, order_fold, Converted, Mode, Template,
};
use tz_rust::zones::Resolved;

fn civil(y: u16, mo: u8, d: u8, h: u8, mi: u8, s: u8) -> CivilDateTime {
    CivilDateTime {
        date: CivilDate { year: y, month: mo, day: d },
        time: CivilTime { hour: h, minute: mi, second: s },
    }
}

#[test]
fn round_trip_through_utc() {
    // UTC has no transitions: one instant, read back identically
    let c = civil(2023, 6, 1, 12, 0, 0);
    let zone = Some("UTC".to_string());
    let r = convert_dt(&c, &zone, &zone).unwrap();
    assert_eq!(r, Converted::Single(c, 1685620800));
}

#[test]
fn round_trip_through_zone_without_transition() {
    // New York has no transition anywhere near this datetime
    let c = civil(2023, 6, 1, 12, 0, 0);
    let zone = Some("America/New_York".to_string());
    let r = convert_dt(&c, &zone, &zone).unwrap();
    match r {
        Converted::Single(back, ts) => {
            assert_eq!(back, c);
            // 12:00 EDT == 16:00 UTC
            assert_eq!(ts, 1685620800 + 4 * 3600);
        }
        other => panic!("expected a single instant, got {:?}", other),
    }
}

#[test]
fn fold_yields_two_instants_earliest_first() {
    // clocks fall back 2023-11-05 02:00 EDT -> 01:00 EST: 01:30 repeats
    let c = civil(2023, 11, 5, 1, 30, 0);
    let zone = Some("America/New_York".to_string());
    let r = convert_dt(&c, &zone, &zone).unwrap();
    match r {
        Converted::Fold(c1, t1, c2, t2) => {
            assert_eq!(t1, 1699162200);
            assert_eq!(t2, 1699165800);
            assert!(t1 < t2);
            // both instants show the same wall clock independently
            assert_eq!(c1, c);
            assert_eq!(c2, c);
        }
        other => panic!("expected a fold, got {:?}", other),
    }
}

#[test]
fn gap_yields_no_instant() {
    // clocks spring forward 2023-03-12 02:00 EST -> 03:00 EDT: 02:30 skipped
    let c = civil(2023, 3, 12, 2, 30, 0);
    let zone = Some("America/New_York".to_string());
    let r = convert_dt(&c, &zone, &zone).unwrap();
    assert_eq!(r, Converted::Gap);
}

#[test]
fn conversion_shows_target_wall_clock() {
    let c = civil(2023, 6, 1, 12, 0, 0);
    let r = convert_dt(
        &c,
        &Some("UTC".to_string()),
        &Some("Asia/Tokyo".to_string()),
    )
    .unwrap();
    assert_eq!(r, Converted::Single(civil(2023, 6, 1, 21, 0, 0), 1685620800));
}

#[test]
fn conversion_across_midnight_and_year() {
    let c = civil(2023, 12, 31, 23, 30, 0);
    let r = convert_dt(
        &c,
        &Some("UTC".to_string()),
        &Some("Asia/Tokyo".to_string()),
    )
    .unwrap();
    assert_eq!(r, Converted::Single(civil(2024, 1, 1, 8, 30, 0), 1704065400));
}

#[test]
fn local_zone_conversion_succeeds() {
    // whatever the machine's zone, a mid-range civil datetime converts
    let c = civil(2023, 6, 1, 12, 0, 0);
    let r = convert_dt(&c, &None, &None);
    assert!(r.is_some());
}

#[test]
fn checked_conversion_rejects_unknown_zone() {
    let c = civil(2023, 6, 1, 12, 0, 0);
    let r = tz_rust::convert::convert_dt_checked(&c, &Some("Nowhere/Land".to_string()), &None);
    assert_eq!(r, None);
}

#[test]
fn fold_order_is_restored() {
    assert_eq!(order_fold(Resolved::Fold(5, 3)), Resolved::Fold(3, 5));
    assert_eq!(order_fold(Resolved::Fold(3, 5)), Resolved::Fold(3, 5));
    assert_eq!(order_fold(Resolved::Single(7)), Resolved::Single(7));
    assert_eq!(order_fold(Resolved::Gap), Resolved::Gap);
}

#[test]
fn converted_of_maps_each_resolution() {
    let tgt = Some("UTC".to_string());
    assert_eq!(converted_of(Resolved::Gap, &tgt), Some(Converted::Gap));
    assert_eq!(
        converted_of(Resolved::Single(1685620800), &tgt),
        Some(Converted::Single(civil(2023, 6, 1, 12, 0, 0), 1685620800))
    );
    assert_eq!(
        converted_of(Resolved::Fold(1699162200, 1699165800), &Some("America/New_York".to_string())),
        Some(Converted::Fold(
            civil(2023, 11, 5, 1, 30, 0),
            1699162200,
            civil(2023, 11, 5, 1, 30, 0),
            1699165800
        ))
    );
    // far outside the convertible window nothing is produced
    assert_eq!(converted_of(Resolved::Single(i64::MAX), &tgt), None);
}

#[test]
fn plan_mode_from() {
    let p = conversion_plan(Mode::From, Some("Asia/Tokyo".to_string()));
    assert_eq!(p.source.as_deref(), Some("Asia/Tokyo"));
    assert_eq!(p.target, None);
    assert_eq!(p.template, Template::Full);
}

#[test]
fn plan_mode_to_utc_abbreviation_only() {
    let p = conversion_plan(Mode::To, Some("UTC".to_string()));
    assert_eq!(p.source, None);
    assert_eq!(p.target.as_deref(), Some("UTC"));
    assert_eq!(p.template, Template::FullZone);
}

#[test]
fn plan_mode_to_other_zone_with_offset() {
    let p = conversion_plan(Mode::To, Some("Asia/Tokyo".to_string()));
    assert_eq!(p.template, Template::FullZoneOffset);
    let p = conversion_plan(Mode::To, None);
    assert_eq!(p.template, Template::FullZoneOffset);
}

#[test]
fn plan_mode_timestamp() {
    let p = conversion_plan(Mode::Timestamp, Some("UTC".to_string()));
    assert_eq!(p.source, None);
    assert_eq!(p.target, None);
    assert_eq!(p.template, Template::StampOnly);
}

#[test]
fn mode_names() {
    assert_eq!(Mode::From.name(), "from");
    assert_eq!(Mode::To.name(), "to");
    assert_eq!(Mode::Timestamp.name(), "ts");
}
