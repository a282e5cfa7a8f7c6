//! Token classification: a single left-to-right pass assigns each token
//! to at most one of three slots (timezone, date, time), each fillable at
//! most once.  A token that fits no open slot fails the whole
//! classification.

use crate::alias::AliasMap;
use crate::civil::{CivilDate, CivilDateTime, CivilTime};
use crate::dateparse::{date_of, lemma_date_of_wf, try_parse_date};
use crate::strutil::{chars_of, concat_chars, join_with};
use crate::timeparse::{lemma_time_of_wf, time_of, try_parse_time};
use crate::zones::{canon_of, canon_zone_name, tz_token_ok};
use vstd::prelude::*;

verus! {

/// The classification state: at most one date, one time and one
/// (canonical) timezone name.
pub struct SlotState {
    pub date: Option<CivilDate>,
    pub time: Option<CivilTime>,
    pub zone: Option<Seq<char>>,
}

pub open spec fn initial_slots() -> SlotState {
    SlotState { date: None, time: None, zone: None }
}

/// A token resolves through the alias map first, falling back to the
/// raw token when it is not a key.
pub open spec fn alias_target(aliases: Map<Seq<char>, Seq<char>>, t: Seq<char>) -> Seq<char> {
    if aliases.contains_key(t) {
        aliases[t]
    } else {
        t
    }
}

/// The timezone attempt: alias resolution, then the case-insensitive
/// database lookup; success yields the canonical identifier.
pub open spec fn tz_attempt(aliases: Map<Seq<char>, Seq<char>>, t: Seq<char>) -> Option<Seq<char>> {
    if tz_token_ok(alias_target(aliases, t)) {
        Some(canon_of(alias_target(aliases, t)))
    } else {
        None
    }
}

/// Two adjacent tokens read as one time candidate: first the plain
/// concatenation (a detached am/pm suffix, or a split bare time), then
/// the two joined with a colon (a split hour-minute pair).
pub open spec fn merged_time(a: Seq<char>, b: Seq<char>) -> Option<CivilTime> {
    if time_of(a + b) is Some {
        time_of(a + b)
    } else {
        time_of(a + seq![':'] + b)
    }
}

/// One left-to-right pass over the tokens.  Each token tries the
/// timezone slot, then the date slot, then the time slot; the time
/// attempt first tries this token merged with the next one, consuming
/// both on success.  A token that fits no open slot fails the pass.
pub open spec fn classify_tokens(
    tokens: Seq<Seq<char>>,
    aliases: Map<Seq<char>, Seq<char>>,
    cy: int,
    st: SlotState,
) -> Option<SlotState>
    decreases tokens.len(),
{
    if tokens.len() == 0 {
        Some(st)
    } else {
        let t = tokens[0];
        if st.zone is None && tz_attempt(aliases, t) is Some {
            classify_tokens(
                tokens.drop_first(),
                aliases,
                cy,
                SlotState { zone: tz_attempt(aliases, t), ..st },
            )
        } else if st.date is None && date_of(t, cy) is Some {
            classify_tokens(
                tokens.drop_first(),
                aliases,
                cy,
                SlotState { date: date_of(t, cy), ..st },
            )
        } else if st.time is None {
            if tokens.len() >= 2 && merged_time(t, tokens[1]) is Some {
                classify_tokens(
                    tokens.skip(2),
                    aliases,
                    cy,
                    SlotState { time: merged_time(t, tokens[1]), ..st },
                )
            } else if time_of(t) is Some {
                classify_tokens(
                    tokens.drop_first(),
                    aliases,
                    cy,
                    SlotState { time: time_of(t), ..st },
                )
            } else {
                None
            }
        } else {
            None
        }
    }
}

/// The classification outcome: the civil datetime (unfilled slots
/// defaulting to the invocation's current date and time) and the
/// optional canonical zone name; `None` is the "invalid datetime" error.
pub open spec fn classification(
    tokens: Seq<Seq<char>>,
    aliases: Map<Seq<char>, Seq<char>>,
    now: CivilDateTime,
) -> Option<(CivilDateTime, Option<Seq<char>>)> {
    match classify_tokens(tokens, aliases, now.date.year as int, initial_slots()) {
        None => None,
        Some(st) => Some(
            (
                CivilDateTime {
                    date: match st.date {
                        Some(d) => d,
                        None => now.date,
                    },
                    time: match st.time {
                        Some(t) => t,
                        None => now.time,
                    },
                },
                st.zone,
            ),
        ),
    }
}

/// Classifies the tokens and builds the civil datetime; `now` is the
/// invocation's current local civil datetime, used for the current year
/// of year-less dates and for the date and time defaults.  An empty
/// token list yields `now` itself with no timezone.
pub fn parse_dt_parts(parts: &Vec<String>, tz_abbr: &AliasMap, now: CivilDateTime) -> (r: Result<
    (CivilDateTime, Option<String>),
    &'static str,
>)
    requires
        now.wf(),
    ensures
        r matches Ok((dt, z)) ==> {
            &&& classification(parts.deep_view(), tz_abbr@, now) matches Some((sdt, sz))
                && sdt == dt && sz == z.deep_view()
            &&& dt.wf()
            &&& z matches Some(n) ==> tz_token_ok(n@) && canon_of(n@) == n@
        },
        r matches Err(e) ==> classification(parts.deep_view(), tz_abbr@, now) is None && e@
            == "Invalid datetime"@,
        parts@.len() == 0 ==> (r matches Ok((dt, z)) && dt == now && z is None),
{
    let ghost toks = parts.deep_view();
    let ghost am = tz_abbr@;
    let ghost cy = now.date.year as int;
    let mut odate: Option<CivilDate> = None;
    let mut otime: Option<CivilTime> = None;
    let mut ozone: Option<String> = None;
    let mut i: usize = 0;
    proof {
        assert(toks.skip(0) =~= toks);
    }
    while i < parts.len()
        invariant
            now.wf(),
            toks == parts.deep_view(),
            am == tz_abbr@,
            cy == now.date.year as int,
            0 <= i <= parts@.len(),
            toks.len() == parts@.len(),
            classify_tokens(toks, am, cy, initial_slots()) == classify_tokens(
                toks.skip(i as int),
                am,
                cy,
                SlotState { date: odate, time: otime, zone: ozone.deep_view() },
            ),
            odate matches Some(d) ==> d.wf(),
            otime matches Some(t) ==> t.wf(),
            ozone matches Some(n) ==> tz_token_ok(n@) && canon_of(n@) == n@,
        decreases parts@.len() - i,
    {
        let ghost st = SlotState { date: odate, time: otime, zone: ozone.deep_view() };
        let tok = &parts[i];
        proof {
            assert(toks[i as int] == parts@[i as int].deep_view());
            assert(toks.skip(i as int)[0] == toks[i as int]);
            assert(toks.skip(i as int).drop_first() =~= toks.skip(i + 1));
            assert(toks.skip(i as int).len() == toks.len() - i);
        }
        if ozone.is_none() {
            let target: String = match tz_abbr.lookup(tok.as_str()) {
                Some(v) => v,
                None => tok.clone(),
            };
            proof {
                assert(target@ == alias_target(am, toks[i as int]));
            }
            if let Some(n) = canon_zone_name(target.as_str()) {
                proof {
                    assert(tz_attempt(am, toks[i as int]) == Some(n@));
                }
                ozone = Some(n);
                i = i + 1;
                continue;
            }
            proof {
                assert(tz_attempt(am, toks[i as int]) is None);
            }
        }
        let cs = chars_of(tok.as_str());
        if odate.is_none() {
            if let Some(d) = try_parse_date(&cs, now.date.year) {
                proof {
                    lemma_date_of_wf(toks[i as int], cy);
                }
                odate = Some(d);
                i = i + 1;
                continue;
            }
        }
        if otime.is_none() {
            if i + 1 < parts.len() {
                let next = chars_of(parts[i + 1].as_str());
                let cat = concat_chars(&cs, &next);
                let mut mt = try_parse_time(&cat);
                if mt.is_none() {
                    let joined = join_with(&cs, ':', &next);
                    mt = try_parse_time(&joined);
                }
                proof {
                    assert(toks.skip(i as int)[1] == toks[i + 1]);
                    assert(toks[i + 1] == parts@[i + 1].deep_view());
                    assert(mt == merged_time(toks[i as int], toks[i + 1]));
                }
                if let Some(t) = mt {
                    proof {
                        lemma_time_of_wf(toks[i as int] + toks[i + 1]);
                        lemma_time_of_wf(toks[i as int] + seq![':'] + toks[i + 1]);
                        assert(toks.skip(i as int).skip(2) =~= toks.skip(i + 2));
                    }
                    otime = Some(t);
                    i = i + 2;
                    continue;
                }
            }
            if let Some(t) = try_parse_time(&cs) {
                proof {
                    lemma_time_of_wf(toks[i as int]);
                }
                otime = Some(t);
                i = i + 1;
                continue;
            }
        }
        proof {
            assert(classify_tokens(toks.skip(i as int), am, cy, st) is None);
        }
        return Err("Invalid datetime");
    }
    proof {
        assert(toks.skip(i as int) =~= Seq::<Seq<char>>::empty());
    }
    let date = match odate {
        Some(d) => d,
        None => now.date,
    };
    let time = match otime {
        Some(t) => t,
        None => now.time,
    };
    Ok((CivilDateTime { date, time }, ozone))
}

} // verus!
