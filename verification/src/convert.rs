//! Civil-time resolution and conversion planning.  A civil datetime is
//! read as wall-clock time of a source zone, resolved into zero, one or
//! two instants, and each instant is shown on a target zone's wall
//! clock; the conversion mode picks the zones and the output template.

use crate::civil::{civil_wf, CivilDateTime};
use crate::strutil::str_eq;
use vstd::string::StringExecFns;
use crate::zones::{
    canon_zone_name, civil_at, civil_from_ts, civil_from_ts_local, clock_fields_ok, in_window,
    resolve_in_local, resolve_in_zone, ts_convertible, tz_token_ok, zone_resolution, Resolved,
};
use vstd::prelude::*;

verus! {

/// The conversion mode selected on the command line.
#[derive(Clone, Copy, PartialEq, Eq, Structural, Debug)]
pub enum Mode {
    /// From the given timezone to local time.
    From,
    /// From local time to the given timezone.
    To,
    /// Seconds since the epoch.
    Timestamp,
}

pub open spec fn mode_name(m: Mode) -> Seq<char> {
    match m {
        Mode::From => "from"@,
        Mode::To => "to"@,
        Mode::Timestamp => "ts"@,
    }
}

impl Mode {
    /// The mode's command-line spelling.
    pub fn name(&self) -> (r: String)
        ensures
            r@ == mode_name(*self),
    {
        match self {
            Mode::From => String::from_str("from"),
            Mode::To => String::from_str("to"),
            Mode::Timestamp => String::from_str("ts"),
        }
    }
}

/// The output template a conversion is rendered with.
#[derive(Clone, Copy, PartialEq, Eq, Structural, Debug)]
pub enum Template {
    /// Date, time and timestamp.
    Full,
    /// Date, time, zone abbreviation and timestamp.
    FullZone,
    /// Date, time, zone abbreviation, numeric offset and timestamp.
    FullZoneOffset,
    /// Timestamp only.
    StampOnly,
}

/// Source zone, target zone (`None` meaning the invocation's local
/// zone) and template of one conversion.
pub struct ConversionPlan {
    pub source: Option<String>,
    pub target: Option<String>,
    pub template: Template,
}

/// Picks source zone, target zone and template for a mode and the
/// classified timezone.  In mode `to` the zero-offset reference zone is
/// shown by abbreviation alone, every other target with its numeric
/// offset as well.
pub fn conversion_plan(mode: Mode, zone: Option<String>) -> (r: ConversionPlan)
    ensures
        mode == Mode::From ==> r.source == zone && r.target is None && r.template == Template::Full,
        mode == Mode::To ==> {
            &&& r.source is None
            &&& r.target == zone
            &&& r.template == (if zone matches Some(n) && n@ == "UTC"@ {
                Template::FullZone
            } else {
                Template::FullZoneOffset
            })
        },
        mode == Mode::Timestamp ==> r.source is None && r.target is None && r.template
            == Template::StampOnly,
{
    match mode {
        Mode::From => ConversionPlan { source: zone, target: None, template: Template::Full },
        Mode::To => {
            let is_utc = match &zone {
                Some(n) => str_eq(n.as_str(), "UTC"),
                None => false,
            };
            ConversionPlan {
                source: None,
                target: zone,
                template: if is_utc {
                    Template::FullZone
                } else {
                    Template::FullZoneOffset
                },
            }
        },
        Mode::Timestamp => ConversionPlan {
            source: None,
            target: None,
            template: Template::StampOnly,
        },
    }
}

/// A conversion's outcome: the civil datetime on the target zone's wall
/// clock and the timestamp, for each resolved instant.
#[derive(Clone, Copy, PartialEq, Eq, Structural, Debug)]
pub enum Converted {
    /// The civil time does not exist in the source zone.
    Gap,
    /// Exactly one instant.
    Single(CivilDateTime, i64),
    /// Two instants, earliest first.
    Fold(CivilDateTime, i64, CivilDateTime, i64),
}

/// How a conversion outcome must mirror a resolution: same shape, same
/// timestamps, and, for a named target zone, each civil part is that
/// zone's wall clock at its instant.
pub open spec fn converted_for(
    res: Resolved,
    target: Option<Seq<char>>,
    cv: Converted,
) -> bool {
    match res {
        Resolved::Gap => cv == Converted::Gap,
        Resolved::Single(t) => match cv {
            Converted::Single(cc, tt) => tt == t && (target matches Some(z) ==> cc == civil_at(
                z,
                t,
            )),
            _ => false,
        },
        Resolved::Fold(a, b) => match cv {
            Converted::Fold(ca, ta, cb, tb) => ta == a && tb == b && (target matches Some(z)
                ==> ca == civil_at(z, a) && cb == civil_at(z, b)),
            _ => false,
        },
    }
}

/// An ambiguous pair reordered earliest first; other resolutions are
/// left as they are.
pub open spec fn fold_ordered(r: Resolved) -> Resolved {
    match r {
        Resolved::Fold(a, b) => if a <= b {
            r
        } else {
            Resolved::Fold(b, a)
        },
        _ => r,
    }
}

/// Orders a resolution's ambiguous pair earliest first.
pub fn order_fold(r: Resolved) -> (s: Resolved)
    ensures
        s == fold_ordered(r),
{
    match r {
        Resolved::Fold(a, b) => if a <= b {
            Resolved::Fold(a, b)
        } else {
            Resolved::Fold(b, a)
        },
        other => other,
    }
}

/// Resolves a civil datetime as wall-clock time of the source zone
/// (`None`: the invocation's local zone).  An ambiguous result carries
/// its two instants earliest first; the machine-zone path hands the
/// pair back in no fixed order, so it is ordered here.
pub fn resolve_civil(c: &CivilDateTime, source: &Option<String>) -> (r: Resolved)
    requires
        c.wf(),
        source matches Some(z) ==> tz_token_ok(z@),
    ensures
        source matches Some(z) ==> {
            &&& r == zone_resolution(z@, *c)
            &&& (r matches Resolved::Single(t) ==> civil_at(z@, t) == *c)
            &&& (r matches Resolved::Fold(a, b) ==> a < b && civil_at(z@, a) == *c && civil_at(
                z@,
                b,
            ) == *c)
        },
        r matches Resolved::Single(t) ==> in_window(c.date.year as int, t),
        r matches Resolved::Fold(a, b) ==> a <= b && in_window(c.date.year as int, a) && in_window(
            c.date.year as int,
            b,
        ),
{
    match source {
        Some(z) => resolve_in_zone(z.as_str(), c),
        None => order_fold(resolve_in_local(c)),
    }
}

/// The wall clock of the target zone (`None`: the invocation's local
/// zone) at `ts`; exactly the timestamps of the convertible window
/// succeed.
pub fn clock_time_at(target: &Option<String>, ts: i64) -> (r: Option<CivilDateTime>)
    requires
        target matches Some(z) ==> tz_token_ok(z@),
    ensures
        (r is Some) == ts_convertible(ts),
        r matches Some(c) ==> clock_fields_ok(c) && (target matches Some(z) ==> c == civil_at(
            z@,
            ts,
        )),
{
    if ts < -62135770000 || ts > 253402390000 {
        return None;
    }
    match target {
        Some(z) => civil_from_ts(z.as_str(), ts),
        None => civil_from_ts_local(ts),
    }
}

/// Maps one resolution to the conversion outcome, reading each instant
/// on the target zone's wall clock (`None`: the invocation's local
/// zone).  Exactly the resolutions whose instants lie in the convertible
/// window succeed; a gap always reports as a gap.
pub fn converted_of(res: Resolved, target: &Option<String>) -> (r: Option<Converted>)
    requires
        target matches Some(z) ==> tz_token_ok(z@),
    ensures
        (r is Some) == (match res {
            Resolved::Gap => true,
            Resolved::Single(t) => ts_convertible(t),
            Resolved::Fold(a, b) => ts_convertible(a) && ts_convertible(b),
        }),
        r matches Some(cv) ==> converted_for(res, target.deep_view(), cv),
        r matches Some(Converted::Single(cc, tt)) ==> clock_fields_ok(cc),
        r matches Some(Converted::Fold(ca, ta, cb, tb)) ==> clock_fields_ok(ca)
            && clock_fields_ok(cb),
{
    match res {
        Resolved::Gap => Some(Converted::Gap),
        Resolved::Single(t) => {
            match clock_time_at(target, t) {
                Some(cc) => Some(Converted::Single(cc, t)),
                None => None,
            }
        },
        Resolved::Fold(a, b) => {
            let ca = clock_time_at(target, a);
            let cb = clock_time_at(target, b);
            match (ca, cb) {
                (Some(ca), Some(cb)) => Some(Converted::Fold(ca, a, cb, b)),
                _ => None,
            }
        },
    }
}

/// Resolves `c` in the source zone and shows every resolved instant on
/// the target zone's wall clock (`None` meaning the invocation's local
/// zone in either place).  For a civil year from 1 on, the conversion
/// itself always succeeds; a unique instant converted back through the
/// source zone shows the original civil datetime again.
pub fn convert_dt(c: &CivilDateTime, source: &Option<String>, target: &Option<String>) -> (r:
    Option<Converted>)
    requires
        c.wf(),
        source matches Some(z) ==> tz_token_ok(z@),
        target matches Some(z) ==> tz_token_ok(z@),
    ensures
        source matches Some(z) ==> (r matches Some(cv) ==> converted_for(
            zone_resolution(z@, *c),
            target.deep_view(),
            cv,
        )),
        c.date.year >= 1 ==> r is Some,
        r matches Some(Converted::Fold(ca, ta, cb, tb)) ==> ta <= tb,
        source matches Some(z) ==> (r matches Some(Converted::Fold(ca, ta, cb, tb)) ==> ta < tb),
        target matches Some(zt) ==> (r matches Some(Converted::Single(cc, tt)) ==> cc == civil_at(
            zt@,
            tt,
        )),
        target matches Some(zt) ==> (r matches Some(Converted::Fold(ca, ta, cb, tb)) ==> ca
            == civil_at(zt@, ta) && cb == civil_at(zt@, tb)),
        source matches Some(zs) ==> (target matches Some(zt) ==> (zs@ == zt@ ==> (zone_resolution(
            zs@,
            *c,
        ) matches Resolved::Single(t) ==> (r matches Some(cv) ==> cv == Converted::Single(
            *c,
            t,
        ))))),
{
    let res = resolve_civil(c, source);
    converted_of(res, target)
}

/// Is a zone reference usable: either the local zone, or a name the
/// timezone database recognizes?
pub open spec fn zone_name_ok(o: Option<Seq<char>>) -> bool {
    match o {
        Some(z) => tz_token_ok(z),
        None => true,
    }
}

/// Validates the civil datetime and looks both zone names up in the
/// timezone database, then converts.  `None` for an ill-formed civil
/// datetime, an unrecognized zone name, or a datetime outside the
/// convertible range; with everything valid and a civil year from 1 on,
/// the conversion always succeeds.
pub fn convert_dt_checked(
    c: &CivilDateTime,
    source: &Option<String>,
    target: &Option<String>,
) -> (r: Option<Converted>)
    ensures
        !c.wf() ==> r is None,
        !zone_name_ok(source.deep_view()) ==> r is None,
        !zone_name_ok(target.deep_view()) ==> r is None,
        source matches Some(z) ==> (r matches Some(cv) ==> converted_for(
            zone_resolution(z@, *c),
            target.deep_view(),
            cv,
        )),
        (c.wf() && c.date.year >= 1 && zone_name_ok(source.deep_view()) && zone_name_ok(
            target.deep_view(),
        )) ==> r is Some,
        r matches Some(Converted::Fold(ca, ta, cb, tb)) ==> ta <= tb,
        source matches Some(z) ==> (r matches Some(Converted::Fold(ca, ta, cb, tb)) ==> ta < tb),
        target matches Some(zt) ==> (r matches Some(Converted::Single(cc, tt)) ==> cc == civil_at(
            zt@,
            tt,
        )),
        target matches Some(zt) ==> (r matches Some(Converted::Fold(ca, ta, cb, tb)) ==> ca
            == civil_at(zt@, ta) && cb == civil_at(zt@, tb)),
        source matches Some(zs) ==> (target matches Some(zt) ==> (zs@ == zt@ ==> (zone_resolution(
            zs@,
            *c,
        ) matches Resolved::Single(t) ==> (r matches Some(cv) ==> cv == Converted::Single(
            *c,
            t,
        ))))),
{
    if !civil_wf(c) {
        return None;
    }
    let source_ok = match source {
        Some(z) => canon_zone_name(z.as_str()).is_some(),
        None => true,
    };
    if !source_ok {
        return None;
    }
    let target_ok = match target {
        Some(z) => canon_zone_name(z.as_str()).is_some(),
        None => true,
    };
    if !target_ok {
        return None;
    }
    convert_dt(c, source, target)
}

} // verus!
