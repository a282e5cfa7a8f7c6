//! Character-level scanning: digit runs, base-10 values, and splitting a
//! token at a separator character.  These spec functions are the
//! mathematical grammar that the date and time parsers are proved against.

use vstd::prelude::*;

verus! {

pub open spec fn is_digit(c: char) -> bool {
    '0' <= c && c <= '9'
}

pub open spec fn digit_val(c: char) -> int {
    c as int - '0' as int
}

pub open spec fn all_digits(s: Seq<char>) -> bool {
    forall|i: int| 0 <= i < s.len() ==> is_digit(#[trigger] s[i])
}

pub open spec fn all_ascii(s: Seq<char>) -> bool {
    forall|i: int| #![trigger s[i]] 0 <= i < s.len() ==> (s[i] as u32) < 128
}

/// Value of a digit string read in base 10.
pub open spec fn num_val(s: Seq<char>) -> int
    decreases s.len(),
{
    if s.len() == 0 {
        0
    } else {
        num_val(s.drop_last()) * 10 + digit_val(s.last())
    }
}

pub open spec fn pow10(n: nat) -> int
    decreases n,
{
    if n == 0 {
        1
    } else {
        10 * pow10((n - 1) as nat)
    }
}

pub proof fn lemma_num_val_bound(s: Seq<char>)
    requires
        all_digits(s),
    ensures
        0 <= num_val(s) < pow10(s.len()),
    decreases s.len(),
{
    if s.len() > 0 {
        assert(all_digits(s.drop_last())) by {
            assert(forall|i: int|
                0 <= i < s.len() - 1 ==> s.drop_last()[i] == #[trigger] s[i]);
        }
        lemma_num_val_bound(s.drop_last());
        assert(is_digit(s.last()));
    }
}

/// The maximal runs of characters between occurrences of `sep`; always one
/// more segment than there are separators.
pub open spec fn segments(s: Seq<char>, sep: char) -> Seq<Seq<char>>
    decreases s.len(),
{
    if s.len() == 0 {
        seq![Seq::<char>::empty()]
    } else {
        let rest = segments(s.drop_first(), sep);
        if s[0] == sep {
            seq![Seq::<char>::empty()] + rest
        } else {
            seq![seq![s[0]] + rest[0]] + rest.drop_first()
        }
    }
}

pub proof fn lemma_segments_len(s: Seq<char>, sep: char)
    ensures
        segments(s, sep).len() >= 1,
    decreases s.len(),
{
    if s.len() > 0 {
        lemma_segments_len(s.drop_first(), sep);
    }
}

/// A string without the separator is a single segment.
pub proof fn lemma_segments_nosep(s: Seq<char>, sep: char)
    requires
        forall|k: int| 0 <= k < s.len() ==> s[k] != sep,
    ensures
        segments(s, sep) =~~= seq![s],
    decreases s.len(),
{
    if s.len() > 0 {
        lemma_segments_nosep(s.drop_first(), sep);
        assert(segments(s, sep) =~~= seq![seq![s[0]] + s.drop_first()]);
        assert(seq![s[0]] + s.drop_first() =~= s);
    }
}

/// Splitting at the first occurrence of the separator peels off one segment.
pub proof fn lemma_segments_split(s: Seq<char>, sep: char, i: int)
    requires
        0 <= i < s.len(),
        s[i] == sep,
        forall|k: int| 0 <= k < i ==> s[k] != sep,
    ensures
        segments(s, sep) =~~= seq![s.subrange(0, i)] + segments(
            s.subrange(i + 1, s.len() as int),
            sep,
        ),
    decreases i,
{
    if i == 0 {
        assert(s.subrange(0, 0) =~= Seq::<char>::empty());
        assert(s.drop_first() =~= s.subrange(1, s.len() as int));
    } else {
        let rest = s.drop_first();
        assert(rest[i - 1] == sep);
        assert(forall|k: int| 0 <= k < i - 1 ==> rest[k] != sep);
        lemma_segments_split(rest, sep, i - 1);
        lemma_segments_len(rest.subrange(i, rest.len() as int), sep);
        assert(rest.subrange(0, i - 1) =~= s.subrange(1, i));
        assert(rest.subrange(i, rest.len() as int) =~= s.subrange(i + 1, s.len() as int));
        assert(seq![s[0]] + s.subrange(1, i) =~= s.subrange(0, i));
    }
}

/// Splits `s` into its segments between occurrences of `sep`.
pub fn split_sep(s: &Vec<char>, sep: char) -> (r: Vec<Vec<char>>)
    ensures
        r.deep_view() =~~= segments(s@, sep),
        r.len() >= 1,
{
    let mut res: Vec<Vec<char>> = Vec::new();
    let mut cur: Vec<char> = Vec::new();
    let ghost mut start: int = 0;
    let mut i: usize = 0;
    proof {
        assert(s@.subrange(0, s@.len() as int) =~= s@);
        assert(res.deep_view() + segments(s@, sep) =~~= segments(s@, sep));
    }
    while i < s.len()
        invariant
            0 <= start <= i <= s@.len(),
            cur@ =~= s@.subrange(start, i as int),
            forall|k: int| start <= k < i ==> s@[k] != sep,
            segments(s@, sep) =~~= res.deep_view() + segments(
                s@.subrange(start, s@.len() as int),
                sep,
            ),
        decreases s@.len() - i,
    {
        if s[i] == sep {
            proof {
                let tail = s@.subrange(start, s@.len() as int);
                lemma_segments_split(tail, sep, i - start);
                assert(tail.subrange(0, i - start) =~= s@.subrange(start, i as int));
                assert(tail.subrange(i - start + 1, tail.len() as int) =~= s@.subrange(
                    i + 1,
                    s@.len() as int,
                ));
            }
            let ghost old_dv = res.deep_view();
            let ghost cur_view = cur@;
            res.push(cur);
            cur = Vec::new();
            proof {
                assert(res.deep_view() =~~= old_dv.push(cur_view));
                start = i + 1;
            }
        } else {
            cur.push(s[i]);
        }
        i = i + 1;
    }
    proof {
        let tail = s@.subrange(start, s@.len() as int);
        lemma_segments_nosep(tail, sep);
    }
    res.push(cur);
    res
}

/// Reads a digit run of between `lo` and `hi` characters as a base-10
/// number; anything else is rejected.
pub open spec fn seg_num(s: Seq<char>, lo: int, hi: int) -> Option<int> {
    if lo <= s.len() <= hi && all_digits(s) {
        Some(num_val(s))
    } else {
        None
    }
}

/// Index of the first occurrence of a character, if any.
pub open spec fn find_ch(s: Seq<char>, c: char) -> Option<int>
    decreases s.len(),
{
    if s.len() == 0 {
        None
    } else if s[0] == c {
        Some(0)
    } else {
        match find_ch(s.drop_first(), c) {
            Some(i) => Some(i + 1),
            None => None,
        }
    }
}

pub proof fn lemma_find_ch_at(s: Seq<char>, c: char, i: int)
    requires
        0 <= i < s.len(),
        s[i] == c,
        forall|k: int| 0 <= k < i ==> s[k] != c,
    ensures
        find_ch(s, c) == Some(i),
    decreases i,
{
    if i > 0 {
        let rest = s.drop_first();
        assert(rest[i - 1] == c);
        assert(forall|k: int| 0 <= k < i - 1 ==> rest[k] != c);
        lemma_find_ch_at(rest, c, i - 1);
    }
}

pub proof fn lemma_find_ch_none(s: Seq<char>, c: char)
    requires
        forall|k: int| 0 <= k < s.len() ==> s[k] != c,
    ensures
        find_ch(s, c) is None,
    decreases s.len(),
{
    if s.len() > 0 {
        lemma_find_ch_none(s.drop_first(), c);
    }
}

/// A digit run never reads as a negative number.
pub broadcast proof fn lemma_seg_num_nonneg(s: Seq<char>, lo: int, hi: int)
    ensures
        #[trigger] seg_num(s, lo, hi) matches Some(v) ==> v >= 0,
{
    if seg_num(s, lo, hi) is Some {
        lemma_num_val_bound(s);
    }
}

/// Exec counterpart of `seg_num` for runs of at most four digits.
pub fn read_num(s: &Vec<char>, lo: usize, hi: usize) -> (r: Option<u16>)
    requires
        hi <= 4,
    ensures
        r matches Some(v) ==> seg_num(s@, lo as int, hi as int) == Some(v as int),
        r matches Some(v) ==> v < 10000 && (hi <= 2 ==> v < 100),
        r is None ==> seg_num(s@, lo as int, hi as int) is None,
{
    if s.len() < lo || s.len() > hi {
        return None;
    }
    let mut val: u16 = 0;
    let mut i: usize = 0;
    while i < s.len()
        invariant
            0 <= i <= s@.len() <= 4,
            all_digits(s@.take(i as int)),
            val == num_val(s@.take(i as int)),
            0 <= val < pow10(i as nat),
        decreases s@.len() - i,
    {
        let c = s[i];
        if c < '0' || c > '9' {
            proof {
                assert(!is_digit(s@[i as int]));
            }
            return None;
        }
        let d: u16 = (c as u32 - '0' as u32) as u16;
        proof {
            reveal_with_fuel(pow10, 6);
            lemma_num_val_bound(s@.take(i as int));
            assert(s@.take(i + 1).drop_last() =~= s@.take(i as int));
            assert(s@.take(i + 1).last() == s@[i as int]);
        }
        val = val * 10 + d;
        i = i + 1;
    }
    proof {
        reveal_with_fuel(pow10, 6);
        assert(s@.take(i as int) =~= s@);
    }
    Some(val)
}

} // verus!
