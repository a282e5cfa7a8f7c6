//! The alias map: user-defined abbreviation -> canonical timezone
//! identifier, loaded from a line-oriented `KEY=VALUE` text source.

use crate::scan::{find_ch, lemma_find_ch_at, lemma_find_ch_none, segments, split_sep};
use crate::strutil::{chars_of, copy_range, str_eq, string_from_chars};
use vstd::prelude::*;

verus! {

/// Mapping from abbreviation to canonical timezone identifier.  Entries
/// are kept in insertion order; a later entry for the same key wins, as
/// for repeated keys in the alias source.
pub struct AliasMap {
    entries: Vec<(String, String)>,
}

impl View for AliasMap {
    type V = Map<Seq<char>, Seq<char>>;

    closed spec fn view(&self) -> Map<Seq<char>, Seq<char>> {
        map_of(self.entries@)
    }
}

spec fn map_of(s: Seq<(String, String)>) -> Map<Seq<char>, Seq<char>>
    decreases s.len(),
{
    if s.len() == 0 {
        Map::empty()
    } else {
        map_of(s.drop_last()).insert(s.last().0@, s.last().1@)
    }
}

proof fn lemma_map_of_found(s: Seq<(String, String)>, key: Seq<char>, j: int)
    requires
        0 <= j < s.len(),
        s[j].0@ == key,
        forall|k: int| j < k < s.len() ==> s[k].0@ != key,
    ensures
        map_of(s).contains_key(key),
        map_of(s)[key] == s[j].1@,
    decreases s.len(),
{
    if j < s.len() - 1 {
        assert(s.drop_last()[j] == s[j]);
        lemma_map_of_found(s.drop_last(), key, j);
        assert(s.last().0@ != key);
    }
}

proof fn lemma_map_of_absent(s: Seq<(String, String)>, key: Seq<char>)
    requires
        forall|k: int| 0 <= k < s.len() ==> s[k].0@ != key,
    ensures
        !map_of(s).contains_key(key),
    decreases s.len(),
{
    if s.len() > 0 {
        lemma_map_of_absent(s.drop_last(), key);
    }
}

impl AliasMap {
    pub fn new() -> (r: AliasMap)
        ensures
            r@ == Map::<Seq<char>, Seq<char>>::empty(),
    {
        AliasMap { entries: Vec::new() }
    }

    /// Adds a mapping; a later entry for the same key wins.
    pub fn put(&mut self, key: String, val: String)
        ensures
            final(self)@ == old(self)@.insert(key@, val@),
    {
        let ghost old_entries = self.entries@;
        let ghost k = key@;
        let ghost v = val@;
        self.entries.push((key, val));
        proof {
            assert(self.entries@.drop_last() =~= old_entries);
            assert(self.entries@.last().0@ == k);
            assert(self.entries@.last().1@ == v);
        }
    }

    /// The canonical identifier registered for `key`, if any.
    pub fn lookup(&self, key: &str) -> (r: Option<String>)
        ensures
            r matches Some(v) ==> self@.contains_key(key@) && v@ == self@[key@],
            r is None ==> !self@.contains_key(key@),
    {
        let mut i: usize = self.entries.len();
        while i > 0
            invariant
                0 <= i <= self.entries@.len(),
                forall|k: int| i <= k < self.entries@.len() ==> self.entries@[k].0@ != key@,
            decreases i,
        {
            i = i - 1;
            if str_eq(self.entries[i].0.as_str(), key) {
                proof {
                    lemma_map_of_found(self.entries@, key@, i as int);
                }
                return Some(self.entries[i].1.clone());
            }
        }
        proof {
            lemma_map_of_absent(self.entries@, key@);
        }
        None
    }
}

/// Drops the carriage return a `\r\n` line break leaves at the end of
/// a split-off line, so that sources with either line break read the
/// same.
pub open spec fn strip_cr(line: Seq<char>) -> Seq<char> {
    if line.len() > 0 && line.last() == '\r' {
        line.drop_last()
    } else {
        line
    }
}

/// Splits an alias line at its first `=`; a line without one is invalid.
pub open spec fn split_alias_line(line: Seq<char>) -> Option<(Seq<char>, Seq<char>)> {
    match find_ch(line, '=') {
        None => None,
        Some(i) => Some((line.take(i), line.subrange(i + 1, line.len() as int))),
    }
}

/// The lines of the source, as a line-oriented reader sees them: split
/// at `\n`, the carriage return of a `\r\n` line break removed, and a
/// final line break opening no last, empty line.  A final line that no
/// line break terminated keeps a trailing carriage return: it is part
/// of the content.
pub open spec fn lines_of(contents: Seq<char>) -> Seq<Seq<char>> {
    let raw = segments(contents, '\n');
    let ended = raw.len() > 0 && raw.last().len() == 0;
    let kept = if ended {
        raw.drop_last()
    } else {
        raw
    };
    Seq::new(
        kept.len(),
        |j: int|
            if ended || j < kept.len() - 1 {
                strip_cr(kept[j])
            } else {
                kept[j]
            },
    )
}

pub open spec fn build_aliases(rows: Seq<Seq<char>>, acc: Map<Seq<char>, Seq<char>>) -> Option<
    Map<Seq<char>, Seq<char>>,
>
    decreases rows.len(),
{
    if rows.len() == 0 {
        Some(acc)
    } else {
        match split_alias_line(rows[0]) {
            None => None,
            Some((k, v)) => build_aliases(rows.drop_first(), acc.insert(k, v)),
        }
    }
}

/// The alias mapping described by an alias source, if every line of it is
/// well formed; later lines override earlier ones.
pub open spec fn aliases_of(contents: Seq<char>) -> Option<Map<Seq<char>, Seq<char>>> {
    build_aliases(lines_of(contents), Map::empty())
}

/// Parses the text of an alias source.  Every line must hold a `=`; the
/// whole source is rejected otherwise.
pub fn parse_tz_abbr(contents: &str) -> (r: Result<AliasMap, &'static str>)
    ensures
        r matches Ok(am) ==> aliases_of(contents@) == Some(am@),
        r matches Err(e) ==> aliases_of(contents@) is None && e@ == "Invalid format"@,
{
    let cs = chars_of(contents);
    let mut rows = split_sep(&cs, '\n');
    proof {
        assert(rows.deep_view() == segments(contents@, '\n'));
        assert(rows.deep_view().last() == rows@.last().deep_view());
        assert(rows@.last().deep_view() =~= rows@.last()@);
    }
    let ghost raw = segments(contents@, '\n');
    let ghost ended = raw.len() > 0 && raw.last().len() == 0;
    let ghost kept = if ended {
        raw.drop_last()
    } else {
        raw
    };
    let mut popped: bool = false;
    if rows[rows.len() - 1].len() == 0 {
        let ghost before = rows.deep_view();
        let _ = rows.pop();
        popped = true;
        proof {
            assert(rows.deep_view() =~= before.drop_last());
        }
    }
    let ghost lines = lines_of(contents@);
    let mut am = AliasMap::new();
    let mut j: usize = 0;
    proof {
        assert(popped == ended);
        assert(rows.deep_view() =~= kept);
        assert(lines.len() == kept.len());
        assert(lines.skip(0) =~= lines);
    }
    while j < rows.len()
        invariant
            0 <= j <= rows@.len(),
            lines == lines_of(contents@),
            raw == segments(contents@, '\n'),
            ended == (raw.len() > 0 && raw.last().len() == 0),
            kept == (if ended {
                raw.drop_last()
            } else {
                raw
            }),
            popped == ended,
            rows.deep_view() =~= kept,
            lines.len() == kept.len(),
            build_aliases(lines, Map::empty()) == build_aliases(
                lines.skip(j as int),
                am@,
            ),
        decreases rows@.len() - j,
    {
        proof {
            assert(rows.deep_view()[j as int] == rows@[j as int].deep_view());
            assert(rows@[j as int].deep_view() =~= rows@[j as int]@);
            assert(rows@.len() == kept.len());
        }
        let row = &rows[j];
        let terminated = popped || j + 1 < rows.len();
        let ghost line = lines[j as int];
        proof {
            assert(line == (if ended || j < kept.len() - 1 {
                strip_cr(kept[j as int])
            } else {
                kept[j as int]
            }));
        }
        let mut end: usize = row.len();
        if terminated && end > 0 && row[end - 1] == '\r' {
            end = end - 1;
        }
        proof {
            assert(line =~= row@.subrange(0, end as int));
        }
        let mut eq: usize = 0;
        let mut found: bool = false;
        while eq < end && !found
            invariant
                0 <= eq <= end <= row@.len(),
                line =~= row@.subrange(0, end as int),
                !found ==> forall|k: int| 0 <= k < eq ==> line[k] != '=',
                found ==> eq < end && line[eq as int] == '=' && forall|k: int|
                    0 <= k < eq ==> line[k] != '=',
            decreases end - eq + (if found { 0int } else { 1int }),
        {
            if row[eq] == '=' {
                found = true;
            } else {
                eq = eq + 1;
            }
        }
        if !found {
            proof {
                assert(line.len() == end);
                lemma_find_ch_none(line, '=');
                assert(split_alias_line(line) is None);
                assert(lines.skip(j as int).len() > 0);
                assert(lines.skip(j as int)[0] == lines[j as int]);
                assert(build_aliases(lines.skip(j as int), am@) is None);
            }
            return Err("Invalid format");
        }
        proof {
            lemma_find_ch_at(line, '=', eq as int);
        }
        let key = copy_range(row, 0, eq);
        let val = copy_range(row, eq + 1, end);
        proof {
            assert(key@ =~= line.take(eq as int));
            assert(val@ =~= line.subrange(eq + 1, line.len() as int));
        }
        let key_s = string_from_chars(&key);
        let val_s = string_from_chars(&val);
        am.put(key_s, val_s);
        proof {
            assert(lines.skip(j as int).drop_first() =~= lines.skip(j + 1));
        }
        j = j + 1;
    }
    proof {
        assert(lines.skip(j as int) =~= Seq::<Seq<char>>::empty());
    }
    Ok(am)
}

} // verus!
