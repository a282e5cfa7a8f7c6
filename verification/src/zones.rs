//! Timezone lookups and civil-time resolution.  The IANA timezone
//! database work is done by an outside provider; the declarations here
//! state what its calls return, and everything downstream is proved
//! against them.

use crate::civil::{CivilDate, CivilDateTime, CivilTime, days_in_month};
use chrono::{Datelike, Timelike};
use vstd::prelude::*;

verus! {

/// Resolution of a civil datetime against a zone's transition rules: no
/// instant (a gap), one instant, or two instants (a fold), as seconds
/// since the epoch.
#[derive(Clone, Copy, PartialEq, Eq, Structural, Debug)]
pub enum Resolved {
    Gap,
    Single(i64),
    Fold(i64, i64),
}

/// Does the timezone database recognize this name, compared
/// case-insensitively against the IANA identifiers?
pub uninterp spec fn tz_token_ok(s: Seq<char>) -> bool;

/// The canonical IANA identifier of the zone a recognized name denotes.
pub uninterp spec fn canon_of(s: Seq<char>) -> Seq<char>;

/// The resolution of a civil datetime, read as wall-clock time of the
/// named zone, against that zone's transition rules.
pub uninterp spec fn zone_resolution(zone: Seq<char>, c: CivilDateTime) -> Resolved;

/// The civil datetime shown on the named zone's wall clock at `ts`
/// seconds since the epoch.
pub uninterp spec fn civil_at(zone: Seq<char>, ts: i64) -> CivilDateTime;

/// Timestamp window for instants whose wall-clock year is `y` between 0
/// and 9999: the civil range read as seconds, widened by a day, since
/// zone offsets stay below 24 hours.
pub open spec fn in_window(y: int, t: i64) -> bool {
    (y >= 1 ==> t >= -62135683200) && t <= 253402387199
}

/// Timestamps whose wall clock converts in any zone: between civil year
/// 1 and civil year 9999, widened by a day for any offset.  Every
/// instant in the window of a civil year from 1 on lies in it.
pub open spec fn ts_convertible(ts: i64) -> bool {
    -62135770000 <= ts <= 253402390000
}

/// Field ranges every wall clock shows: a real month, day and time of
/// day (the year is left open).
pub open spec fn clock_fields_ok(c: CivilDateTime) -> bool {
    &&& 1 <= c.date.month <= 12
    &&& 1 <= c.date.day <= days_in_month(c.date.year as int, c.date.month as int)
    &&& c.time.wf()
}

/// Relies on chrono_tz's `Tz::from_str_insensitive` and `Tz::name`: the
/// lookup matches case-insensitively against the IANA identifiers, and
/// `name` gives the canonical identifier of the zone found.  Looking the
/// canonical identifier up again finds the same zone, so the canonical
/// name of a canonical name is itself.
#[verifier::external_body]
pub(crate) fn canon_zone_name(token: &str) -> (r: Option<String>)
    ensures
        (r is Some) == tz_token_ok(token@),
        r matches Some(n) ==> n@ == canon_of(token@) && tz_token_ok(n@) && canon_of(n@) == n@,
{
    match chrono_tz::Tz::from_str_insensitive(token) {
        Ok(z) => Some(z.name().to_string()),
        Err(_) => None,
    }
}

/// Relies on chrono's `TimeZone::from_local_datetime` for
/// `chrono_tz::Tz`: the result is single, ambiguous `(earliest, latest)`
/// or none, per the zone's transition rules; every returned instant
/// shows the given civil time on the zone's wall clock, so its timestamp
/// stays in the window of the civil year.
#[verifier::external_body]
pub(crate) fn resolve_in_zone(zone: &str, c: &CivilDateTime) -> (r: Resolved)
    requires
        tz_token_ok(zone@),
        c.wf(),
    ensures
        r == zone_resolution(zone@, *c),
        r matches Resolved::Single(t) ==> civil_at(zone@, t) == *c && in_window(
            c.date.year as int,
            t,
        ),
        r matches Resolved::Fold(a, b) ==> a < b && civil_at(zone@, a) == *c && civil_at(
            zone@,
            b,
        ) == *c && in_window(c.date.year as int, a) && in_window(c.date.year as int, b),
{
    let z = chrono_tz::Tz::from_str_insensitive(zone).unwrap();
    let d = chrono::NaiveDate::from_ymd_opt(c.date.year as i32, c.date.month as u32, c.date.day as u32).unwrap();
    let t = chrono::NaiveTime::from_hms_opt(c.time.hour as u32, c.time.minute as u32, c.time.second as u32).unwrap();
    match chrono::TimeZone::from_local_datetime(&z, &chrono::NaiveDateTime::new(d, t)) {
        chrono::LocalResult::Single(dt) => Resolved::Single(dt.timestamp()),
        chrono::LocalResult::Ambiguous(e, l) => Resolved::Fold(e.timestamp(), l.timestamp()),
        chrono::LocalResult::None => Resolved::Gap,
    }
}

/// Relies on chrono's `TimeZone::from_local_datetime` for `Local`.  The
/// outcome depends on the machine's zone, so only the shape is stated:
/// instants stay in the window of the civil year.  Nothing is claimed of
/// the order of an ambiguous pair: the machine-zone path hands it back
/// ordered by offset, not by instant, so callers must order it
/// themselves.
#[verifier::external_body]
pub(crate) fn resolve_in_local(c: &CivilDateTime) -> (r: Resolved)
    requires
        c.wf(),
    ensures
        r matches Resolved::Single(t) ==> in_window(c.date.year as int, t),
        r matches Resolved::Fold(a, b) ==> in_window(c.date.year as int, a) && in_window(
            c.date.year as int,
            b,
        ),
{
    let d = chrono::NaiveDate::from_ymd_opt(c.date.year as i32, c.date.month as u32, c.date.day as u32).unwrap();
    let t = chrono::NaiveTime::from_hms_opt(c.time.hour as u32, c.time.minute as u32, c.time.second as u32).unwrap();
    match chrono::TimeZone::from_local_datetime(&chrono::Local, &chrono::NaiveDateTime::new(d, t)) {
        chrono::LocalResult::Single(dt) => Resolved::Single(dt.timestamp()),
        chrono::LocalResult::Ambiguous(e, l) => Resolved::Fold(e.timestamp(), l.timestamp()),
        chrono::LocalResult::None => Resolved::Gap,
    }
}

/// Relies on chrono's `DateTime::from_timestamp`, `with_timezone` and
/// the `naive_local` field accessors: the wall clock of the named zone
/// at `ts`.  The timestamp window is required: near chrono's own range
/// edge (around year 262,000) the local-time accessor does not return
/// when the offset crosses the edge.  Inside the window the wall-clock
/// year lies between 0 and 10000, so the call always succeeds.
#[verifier::external_body]
pub(crate) fn civil_from_ts(zone: &str, ts: i64) -> (r: Option<CivilDateTime>)
    requires
        tz_token_ok(zone@),
        ts_convertible(ts),
    ensures
        r is Some,
        r matches Some(c) ==> c == civil_at(zone@, ts) && clock_fields_ok(c),
{
    let utc = match chrono::DateTime::from_timestamp(ts, 0) { Some(u) => u, None => return None };
    let z = chrono_tz::Tz::from_str_insensitive(zone).unwrap();
    let l = utc.with_timezone(&z).naive_local();
    let year = match u16::try_from(l.year()) { Ok(y) => y, Err(_) => return None };
    Some(CivilDateTime {
        date: CivilDate { year, month: l.month() as u8, day: l.day() as u8 },
        time: CivilTime { hour: l.hour() as u8, minute: l.minute() as u8, second: l.second() as u8 },
    })
}

/// Relies on chrono's `DateTime::from_timestamp`, `with_timezone` for
/// `Local` and the `naive_local` field accessors.  The fields depend on
/// the machine's zone, so only their ranges are stated.  The timestamp
/// window is required for the same reason as for a named zone: clear of
/// chrono's range edge, the local-time accessor always returns and the
/// year fits.
#[verifier::external_body]
pub(crate) fn civil_from_ts_local(ts: i64) -> (r: Option<CivilDateTime>)
    requires
        ts_convertible(ts),
    ensures
        r is Some,
        r matches Some(c) ==> clock_fields_ok(c),
{
    let utc = match chrono::DateTime::from_timestamp(ts, 0) { Some(u) => u, None => return None };
    let l = utc.with_timezone(&chrono::Local).naive_local();
    let year = match u16::try_from(l.year()) { Ok(y) => y, Err(_) => return None };
    Some(CivilDateTime {
        date: CivilDate { year, month: l.month() as u8, day: l.day() as u8 },
        time: CivilTime { hour: l.hour() as u8, minute: l.minute() as u8, second: l.second() as u8 },
    })
}

} // verus!
