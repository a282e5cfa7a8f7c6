//! Time-of-day parsing.  A time token is tried, in order, as `HH:MM:SS`,
//! `HH:MM`, bare four-digit `HHMM`, `HH:MM:SS` with an am/pm suffix,
//! `HH:MM` with an am/pm suffix, and finally a bare 12-hour hour with an
//! am/pm suffix; the first pattern that fits wins.

use crate::civil::CivilTime;
use crate::scan::{all_ascii, seg_num, segments, split_sep};
use crate::strutil::copy_range;
use vstd::prelude::*;

verus! {

broadcast use crate::scan::lemma_seg_num_nonneg;

/// Strips a trailing case-insensitive `am`/`pm`; the flag is true for `pm`.
pub open spec fn ampm_suffix(s: Seq<char>) -> Option<(Seq<char>, bool)> {
    if s.len() >= 2 {
        let a = s[s.len() - 2];
        let b = s.last();
        if b == 'm' || b == 'M' {
            if a == 'a' || a == 'A' {
                Some((s.take(s.len() - 2), false))
            } else if a == 'p' || a == 'P' {
                Some((s.take(s.len() - 2), true))
            } else {
                None
            }
        } else {
            None
        }
    } else {
        None
    }
}

/// Converts a 12-hour clock hour to the 24-hour clock.
pub open spec fn to_24h(h: int, pm: bool) -> int {
    if pm {
        if h == 12 {
            12
        } else {
            h + 12
        }
    } else {
        if h == 12 {
            0
        } else {
            h
        }
    }
}

pub open spec fn time_hms_24(s: Seq<char>) -> Option<CivilTime> {
    let segs = segments(s, ':');
    if segs.len() == 3 {
        match (seg_num(segs[0], 1, 2), seg_num(segs[1], 1, 2), seg_num(segs[2], 1, 2)) {
            (Some(h), Some(m), Some(sec)) => if h <= 23 && m <= 59 && sec <= 59 {
                Some(CivilTime { hour: h as u8, minute: m as u8, second: sec as u8 })
            } else {
                None
            },
            _ => None,
        }
    } else {
        None
    }
}

pub open spec fn time_hm_24(s: Seq<char>) -> Option<CivilTime> {
    let segs = segments(s, ':');
    if segs.len() == 2 {
        match (seg_num(segs[0], 1, 2), seg_num(segs[1], 1, 2)) {
            (Some(h), Some(m)) => if h <= 23 && m <= 59 {
                Some(CivilTime { hour: h as u8, minute: m as u8, second: 0 })
            } else {
                None
            },
            _ => None,
        }
    } else {
        None
    }
}

/// A bare four-digit 24-hour time, `HHMM`.
pub open spec fn time_hhmm(s: Seq<char>) -> Option<CivilTime> {
    if s.len() == 4 {
        match (seg_num(s.subrange(0, 2), 2, 2), seg_num(s.subrange(2, 4), 2, 2)) {
            (Some(h), Some(m)) => if h <= 23 && m <= 59 {
                Some(CivilTime { hour: h as u8, minute: m as u8, second: 0 })
            } else {
                None
            },
            _ => None,
        }
    } else {
        None
    }
}

pub open spec fn time_hms_12(s: Seq<char>) -> Option<CivilTime> {
    match ampm_suffix(s) {
        Some((rest, pm)) => {
            let segs = segments(rest, ':');
            if segs.len() == 3 {
                match (seg_num(segs[0], 1, 2), seg_num(segs[1], 1, 2), seg_num(segs[2], 1, 2)) {
                    (Some(h), Some(m), Some(sec)) => if 1 <= h <= 12 && m <= 59 && sec <= 59 {
                        Some(
                            CivilTime {
                                hour: to_24h(h, pm) as u8,
                                minute: m as u8,
                                second: sec as u8,
                            },
                        )
                    } else {
                        None
                    },
                    _ => None,
                }
            } else {
                None
            }
        },
        None => None,
    }
}

pub open spec fn time_hm_12(s: Seq<char>) -> Option<CivilTime> {
    match ampm_suffix(s) {
        Some((rest, pm)) => {
            let segs = segments(rest, ':');
            if segs.len() == 2 {
                match (seg_num(segs[0], 1, 2), seg_num(segs[1], 1, 2)) {
                    (Some(h), Some(m)) => if 1 <= h <= 12 && m <= 59 {
                        Some(CivilTime { hour: to_24h(h, pm) as u8, minute: m as u8, second: 0 })
                    } else {
                        None
                    },
                    _ => None,
                }
            } else {
                None
            }
        },
        None => None,
    }
}

/// Fallback: a bare 12-hour hour with an am/pm suffix and implied zero
/// minutes; non-ASCII input is rejected at this stage.
pub open spec fn time_h_12(s: Seq<char>) -> Option<CivilTime> {
    if all_ascii(s) {
        match ampm_suffix(s) {
            Some((rest, pm)) => match seg_num(rest, 1, 2) {
                Some(h) => if 1 <= h <= 12 {
                    Some(CivilTime { hour: to_24h(h, pm) as u8, minute: 0, second: 0 })
                } else {
                    None
                },
                None => None,
            },
            None => None,
        }
    } else {
        None
    }
}

/// The full time-pattern cascade; the first pattern that fits wins.
pub open spec fn time_of(s: Seq<char>) -> Option<CivilTime> {
    if time_hms_24(s) is Some {
        time_hms_24(s)
    } else if time_hm_24(s) is Some {
        time_hm_24(s)
    } else if time_hhmm(s) is Some {
        time_hhmm(s)
    } else if time_hms_12(s) is Some {
        time_hms_12(s)
    } else if time_hm_12(s) is Some {
        time_hm_12(s)
    } else {
        time_h_12(s)
    }
}

/// Every time the cascade accepts is a well-formed wall-clock time.
pub proof fn lemma_time_of_wf(s: Seq<char>)
    ensures
        time_of(s) matches Some(t) ==> t.wf(),
{
}

fn check_ascii(s: &Vec<char>) -> (r: bool)
    ensures
        r == all_ascii(s@),
{
    let mut i: usize = 0;
    while i < s.len()
        invariant
            0 <= i <= s@.len(),
            all_ascii(s@.take(i as int)),
        decreases s@.len() - i,
    {
        if s[i] as u32 >= 128 {
            proof {
                assert((s@[i as int] as u32) >= 128);
            }
            return false;
        }
        proof {
            assert(forall|k: int| #![trigger s@.take(i + 1)[k]]
                0 <= k < i + 1 ==> s@.take(i + 1)[k] == s@.take(i as int).push(s@[i as int])[k]);
            assert(s@.take(i + 1) =~= s@.take(i as int).push(s@[i as int]));
        }
        i = i + 1;
    }
    proof {
        assert(s@.take(i as int) =~= s@);
    }
    true
}

/// Detects a trailing am/pm suffix; `Some(true)` means `pm`.
fn ampm_of(s: &Vec<char>) -> (r: Option<bool>)
    ensures
        r matches Some(pm) ==> ampm_suffix(s@) == Some((s@.take(s@.len() - 2), pm)),
        r is None ==> ampm_suffix(s@) is None,
{
    if s.len() < 2 {
        return None;
    }
    let a = s[s.len() - 2];
    let b = s[s.len() - 1];
    if b == 'm' || b == 'M' {
        if a == 'a' || a == 'A' {
            Some(false)
        } else if a == 'p' || a == 'P' {
            Some(true)
        } else {
            None
        }
    } else {
        None
    }
}

fn hour_12_to_24(h: u16, pm: bool) -> (r: u8)
    requires
        1 <= h <= 12,
    ensures
        r == to_24h(h as int, pm),
{
    if pm {
        if h == 12 {
            12
        } else {
            (h + 12) as u8
        }
    } else {
        if h == 12 {
            0
        } else {
            h as u8
        }
    }
}

/// Parses a single token as a time of day, trying each pattern of the
/// cascade in order.
pub fn try_parse_time(tok: &Vec<char>) -> (r: Option<CivilTime>)
    ensures
        r == time_of(tok@),
{
    let segs = split_sep(tok, ':');
    proof {
        assert(segs.deep_view() == segments(tok@, ':'));
        assert(segs.deep_view()[0] == segs@[0].deep_view());
        assert(segs@[0].deep_view() =~= segs@[0]@);
        if segs.len() >= 2 {
            assert(segs.deep_view()[1] == segs@[1].deep_view());
            assert(segs@[1].deep_view() =~= segs@[1]@);
        }
        if segs.len() >= 3 {
            assert(segs.deep_view()[2] == segs@[2].deep_view());
            assert(segs@[2].deep_view() =~= segs@[2]@);
        }
    }
    if segs.len() == 3 {
        let h = crate::scan::read_num(&segs[0], 1, 2);
        let m = crate::scan::read_num(&segs[1], 1, 2);
        let sec = crate::scan::read_num(&segs[2], 1, 2);
        if let (Some(h), Some(m), Some(sec)) = (h, m, sec) {
            if h <= 23 && m <= 59 && sec <= 59 {
                return Some(CivilTime { hour: h as u8, minute: m as u8, second: sec as u8 });
            }
        }
    }
    if segs.len() == 2 {
        let h = crate::scan::read_num(&segs[0], 1, 2);
        let m = crate::scan::read_num(&segs[1], 1, 2);
        if let (Some(h), Some(m)) = (h, m) {
            if h <= 23 && m <= 59 {
                return Some(CivilTime { hour: h as u8, minute: m as u8, second: 0 });
            }
        }
    }
    proof {
        assert(time_hms_24(tok@) is None);
        assert(time_hm_24(tok@) is None);
    }
    if tok.len() == 4 {
        let hh = copy_range(tok, 0, 2);
        let h = crate::scan::read_num(&hh, 2, 2);
        let mut mm: Vec<char> = Vec::new();
        mm.push(tok[2]);
        mm.push(tok[3]);
        proof {
            assert(hh@ =~= tok@.subrange(0, 2));
            assert(mm@ =~= tok@.subrange(2, 4));
        }
        let m = crate::scan::read_num(&mm, 2, 2);
        if let (Some(h), Some(m)) = (h, m) {
            if h <= 23 && m <= 59 {
                return Some(CivilTime { hour: h as u8, minute: m as u8, second: 0 });
            }
        }
    }
    proof {
        assert(time_hhmm(tok@) is None);
    }
    let suffix = ampm_of(tok);
    if let Some(pm) = suffix {
        let rest = copy_range(tok, 0, tok.len() - 2);
        let rsegs = split_sep(&rest, ':');
        proof {
            assert(rsegs.deep_view() == segments(rest@, ':'));
            assert(rsegs.deep_view()[0] == rsegs@[0].deep_view());
            assert(rsegs@[0].deep_view() =~= rsegs@[0]@);
            if rsegs.len() >= 2 {
                assert(rsegs.deep_view()[1] == rsegs@[1].deep_view());
                assert(rsegs@[1].deep_view() =~= rsegs@[1]@);
            }
            if rsegs.len() >= 3 {
                assert(rsegs.deep_view()[2] == rsegs@[2].deep_view());
                assert(rsegs@[2].deep_view() =~= rsegs@[2]@);
            }
        }
        if rsegs.len() == 3 {
            let h = crate::scan::read_num(&rsegs[0], 1, 2);
            let m = crate::scan::read_num(&rsegs[1], 1, 2);
            let sec = crate::scan::read_num(&rsegs[2], 1, 2);
            if let (Some(h), Some(m), Some(sec)) = (h, m, sec) {
                if 1 <= h && h <= 12 && m <= 59 && sec <= 59 {
                    return Some(
                        CivilTime {
                            hour: hour_12_to_24(h, pm),
                            minute: m as u8,
                            second: sec as u8,
                        },
                    );
                }
            }
        }
        if rsegs.len() == 2 {
            let h = crate::scan::read_num(&rsegs[0], 1, 2);
            let m = crate::scan::read_num(&rsegs[1], 1, 2);
            if let (Some(h), Some(m)) = (h, m) {
                if 1 <= h && h <= 12 && m <= 59 {
                    return Some(
                        CivilTime { hour: hour_12_to_24(h, pm), minute: m as u8, second: 0 },
                    );
                }
            }
        }
        proof {
            assert(time_hms_12(tok@) is None);
            assert(time_hm_12(tok@) is None);
        }
        if check_ascii(tok) {
            let h = crate::scan::read_num(&rest, 1, 2);
            if let Some(h) = h {
                if 1 <= h && h <= 12 {
                    return Some(CivilTime { hour: hour_12_to_24(h, pm), minute: 0, second: 0 });
                }
            }
        }
        proof {
            assert(time_h_12(tok@) is None);
        }
        return None;
    }
    proof {
        assert(time_hms_12(tok@) is None);
        assert(time_hm_12(tok@) is None);
        assert(time_h_12(tok@) is None);
    }
    None
}

} // verus!
