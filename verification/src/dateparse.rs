//! Calendar-date parsing.  A date token is tried, in order, as a
//! month-day pair completed with the current year, a four-digit-year date,
//! and a two-digit-year date, first with `-` and then with `/` as the
//! separator; the first pattern that fits wins.

use crate::civil::CivilDate;
use crate::scan::{seg_num, segments, split_sep};
use vstd::prelude::*;

verus! {

broadcast use crate::scan::lemma_seg_num_nonneg;

/// The century pivot for two-digit years: `00`-`68` land in the 2000s,
/// `69`-`99` in the 1900s.
pub open spec fn pivot_year(y2: int) -> int {
    if y2 <= 68 {
        2000 + y2
    } else {
        1900 + y2
    }
}

/// A month-day token, completed with the current year `cy`.
pub open spec fn date_md(s: Seq<char>, sep: char, cy: int) -> Option<CivilDate> {
    let segs = segments(s, sep);
    if segs.len() == 2 {
        match (seg_num(segs[0], 1, 2), seg_num(segs[1], 1, 2)) {
            (Some(m), Some(d)) => {
                let date = CivilDate { year: cy as u16, month: m as u8, day: d as u8 };
                if date.wf() {
                    Some(date)
                } else {
                    None
                }
            },
            _ => None,
        }
    } else {
        None
    }
}

/// A full date token with a four-digit year.
pub open spec fn date_y4(s: Seq<char>, sep: char) -> Option<CivilDate> {
    let segs = segments(s, sep);
    if segs.len() == 3 {
        match (seg_num(segs[0], 4, 4), seg_num(segs[1], 1, 2), seg_num(segs[2], 1, 2)) {
            (Some(y), Some(m), Some(d)) => {
                let date = CivilDate { year: y as u16, month: m as u8, day: d as u8 };
                if date.wf() {
                    Some(date)
                } else {
                    None
                }
            },
            _ => None,
        }
    } else {
        None
    }
}

/// A full date token with a two-digit year, read through the century pivot.
pub open spec fn date_y2(s: Seq<char>, sep: char) -> Option<CivilDate> {
    let segs = segments(s, sep);
    if segs.len() == 3 {
        match (seg_num(segs[0], 2, 2), seg_num(segs[1], 1, 2), seg_num(segs[2], 1, 2)) {
            (Some(y2), Some(m), Some(d)) => {
                let date = CivilDate {
                    year: pivot_year(y2) as u16,
                    month: m as u8,
                    day: d as u8,
                };
                if date.wf() {
                    Some(date)
                } else {
                    None
                }
            },
            _ => None,
        }
    } else {
        None
    }
}

/// The full date-pattern cascade, given the current year `cy`; the first
/// pattern that fits wins.
pub open spec fn date_of(s: Seq<char>, cy: int) -> Option<CivilDate> {
    if date_md(s, '-', cy) is Some {
        date_md(s, '-', cy)
    } else if date_y4(s, '-') is Some {
        date_y4(s, '-')
    } else if date_y2(s, '-') is Some {
        date_y2(s, '-')
    } else if date_md(s, '/', cy) is Some {
        date_md(s, '/', cy)
    } else if date_y4(s, '/') is Some {
        date_y4(s, '/')
    } else {
        date_y2(s, '/')
    }
}

/// Every date the cascade accepts is a real calendar date.
pub proof fn lemma_date_of_wf(s: Seq<char>, cy: int)
    ensures
        date_of(s, cy) matches Some(d) ==> d.wf(),
{
}

/// Tries one separator's three date patterns in order.
fn parse_with_sep(tok: &Vec<char>, sep: char, cy: u16) -> (r: Option<CivilDate>)
    requires
        cy <= 9999,
    ensures
        r is Some ==> {
            ||| date_md(tok@, sep, cy as int) == r
            ||| date_md(tok@, sep, cy as int) is None && date_y4(tok@, sep) == r
            ||| date_md(tok@, sep, cy as int) is None && date_y4(tok@, sep) is None && date_y2(
                tok@,
                sep,
            ) == r
        },
        r is None ==> date_md(tok@, sep, cy as int) is None && date_y4(tok@, sep) is None
            && date_y2(tok@, sep) is None,
{
    let segs = split_sep(tok, sep);
    proof {
        assert(segs.deep_view() == segments(tok@, sep));
        assert(segs.deep_view()[0] == segs@[0].deep_view());
        assert(segs@[0].deep_view() =~= segs@[0]@);
        if segs.len() >= 2 {
            assert(segs.deep_view()[1] == segs@[1].deep_view());
            assert(segs@[1].deep_view() =~= segs@[1]@);
        }
        if segs.len() >= 3 {
            assert(segs.deep_view()[2] == segs@[2].deep_view());
            assert(segs@[2].deep_view() =~= segs@[2]@);
        }
    }
    if segs.len() == 2 {
        let m = crate::scan::read_num(&segs[0], 1, 2);
        let d = crate::scan::read_num(&segs[1], 1, 2);
        if let (Some(m), Some(d)) = (m, d) {
            if crate::civil::valid_date(cy, m as u8, d as u8) {
                return Some(CivilDate { year: cy, month: m as u8, day: d as u8 });
            }
        }
        return None;
    }
    if segs.len() == 3 {
        let m = crate::scan::read_num(&segs[1], 1, 2);
        let d = crate::scan::read_num(&segs[2], 1, 2);
        if let (Some(m), Some(d)) = (m, d) {
            let y4 = crate::scan::read_num(&segs[0], 4, 4);
            if let Some(y) = y4 {
                if crate::civil::valid_date(y, m as u8, d as u8) {
                    return Some(CivilDate { year: y, month: m as u8, day: d as u8 });
                }
                return None;
            }
            let y2 = crate::scan::read_num(&segs[0], 2, 2);
            if let Some(y2) = y2 {
                let y: u16 = if y2 <= 68 {
                    2000 + y2
                } else {
                    1900 + y2
                };
                if crate::civil::valid_date(y, m as u8, d as u8) {
                    return Some(CivilDate { year: y, month: m as u8, day: d as u8 });
                }
            }
            return None;
        }
        return None;
    }
    None
}

/// Parses a single token as a calendar date, trying each pattern of the
/// cascade in order; `cy` is the invocation's current year.
pub fn try_parse_date(tok: &Vec<char>, cy: u16) -> (r: Option<CivilDate>)
    requires
        cy <= 9999,
    ensures
        r == date_of(tok@, cy as int),
{
    let dash = parse_with_sep(tok, '-', cy);
    if dash.is_some() {
        return dash;
    }
    parse_with_sep(tok, '/', cy)
}

} // verus!
