//! General properties of the classification engine, stated and proved
//! once and for all inputs.

use crate::civil::CivilDateTime;
use crate::classify::{
    alias_target, classification, classify_tokens, initial_slots, merged_time, tz_attempt,
    SlotState,
};
use crate::dateparse::date_of;
use crate::timeparse::time_of;
use crate::zones::{canon_of, tz_token_ok};
use vstd::prelude::*;

verus! {

/// `s` lists the three tokens `d`, `t`, `z`, in some order.
pub open spec fn perm3(s: Seq<Seq<char>>, d: Seq<char>, t: Seq<char>, z: Seq<char>) -> bool {
    ||| s =~= seq![d, t, z]
    ||| s =~= seq![d, z, t]
    ||| s =~= seq![t, d, z]
    ||| s =~= seq![t, z, d]
    ||| s =~= seq![z, d, t]
    ||| s =~= seq![z, t, d]
}

/// The hypotheses of the order-independence law: `d` is date-shaped
/// only, `t` time-shaped only, `z` timezone-shaped, and no adjacent
/// merge of `t` with one of the others reads as a time.
pub open spec fn one_of_each(
    d: Seq<char>,
    t: Seq<char>,
    z: Seq<char>,
    aliases: Map<Seq<char>, Seq<char>>,
    cy: int,
) -> bool {
    &&& tz_attempt(aliases, d) is None
    &&& tz_attempt(aliases, t) is None
    &&& tz_attempt(aliases, z) is Some
    &&& date_of(d, cy) is Some
    &&& date_of(t, cy) is None
    &&& time_of(t) is Some
    &&& merged_time(t, d) is None
    &&& merged_time(t, z) is None
}

/// The slot state every permutation of the three tokens ends in.
pub open spec fn full_slots(
    d: Seq<char>,
    t: Seq<char>,
    z: Seq<char>,
    aliases: Map<Seq<char>, Seq<char>>,
    cy: int,
) -> SlotState {
    SlotState { date: date_of(d, cy), time: time_of(t), zone: tz_attempt(aliases, z) }
}

proof fn case_dtz(
    d: Seq<char>,
    t: Seq<char>,
    z: Seq<char>,
    aliases: Map<Seq<char>, Seq<char>>,
    cy: int,
)
    requires
        one_of_each(d, t, z, aliases, cy),
    ensures
        classify_tokens(seq![d, t, z], aliases, cy, initial_slots()) == Some(
            full_slots(d, t, z, aliases, cy),
        ),
{
    let st0 = initial_slots();
    let s = seq![d, t, z];
    assert(s.drop_first() =~= seq![t, z]);
    assert(seq![t, z].drop_first() =~= seq![z]);
    assert(seq![z].drop_first() =~= Seq::<Seq<char>>::empty());
    let s1 = SlotState { date: date_of(d, cy), ..st0 };
    let s2 = SlotState { time: time_of(t), ..s1 };
    let s3 = SlotState { zone: tz_attempt(aliases, z), ..s2 };
    assert(classify_tokens(s, aliases, cy, st0) == classify_tokens(seq![t, z], aliases, cy, s1));
    assert(classify_tokens(seq![t, z], aliases, cy, s1) == classify_tokens(
        seq![z],
        aliases,
        cy,
        s2,
    ));
    assert(classify_tokens(seq![z], aliases, cy, s2) == classify_tokens(
        Seq::<Seq<char>>::empty(),
        aliases,
        cy,
        s3,
    ));
    assert(s3 == full_slots(d, t, z, aliases, cy));
}

proof fn case_dzt(
    d: Seq<char>,
    t: Seq<char>,
    z: Seq<char>,
    aliases: Map<Seq<char>, Seq<char>>,
    cy: int,
)
    requires
        one_of_each(d, t, z, aliases, cy),
    ensures
        classify_tokens(seq![d, z, t], aliases, cy, initial_slots()) == Some(
            full_slots(d, t, z, aliases, cy),
        ),
{
    let st0 = initial_slots();
    let s = seq![d, z, t];
    assert(s.drop_first() =~= seq![z, t]);
    assert(seq![z, t].drop_first() =~= seq![t]);
    assert(seq![t].drop_first() =~= Seq::<Seq<char>>::empty());
    let s1 = SlotState { date: date_of(d, cy), ..st0 };
    let s2 = SlotState { zone: tz_attempt(aliases, z), ..s1 };
    let s3 = SlotState { time: time_of(t), ..s2 };
    assert(classify_tokens(s, aliases, cy, st0) == classify_tokens(seq![z, t], aliases, cy, s1));
    assert(classify_tokens(seq![z, t], aliases, cy, s1) == classify_tokens(
        seq![t],
        aliases,
        cy,
        s2,
    ));
    assert(classify_tokens(seq![t], aliases, cy, s2) == classify_tokens(
        Seq::<Seq<char>>::empty(),
        aliases,
        cy,
        s3,
    ));
    assert(s3 == full_slots(d, t, z, aliases, cy));
}

proof fn case_tdz(
    d: Seq<char>,
    t: Seq<char>,
    z: Seq<char>,
    aliases: Map<Seq<char>, Seq<char>>,
    cy: int,
)
    requires
        one_of_each(d, t, z, aliases, cy),
    ensures
        classify_tokens(seq![t, d, z], aliases, cy, initial_slots()) == Some(
            full_slots(d, t, z, aliases, cy),
        ),
{
    let st0 = initial_slots();
    let s = seq![t, d, z];
    assert(s.drop_first() =~= seq![d, z]);
    assert(seq![d, z].drop_first() =~= seq![z]);
    assert(seq![z].drop_first() =~= Seq::<Seq<char>>::empty());
    let s1 = SlotState { time: time_of(t), ..st0 };
    let s2 = SlotState { date: date_of(d, cy), ..s1 };
    let s3 = SlotState { zone: tz_attempt(aliases, z), ..s2 };
    assert(classify_tokens(s, aliases, cy, st0) == classify_tokens(seq![d, z], aliases, cy, s1));
    assert(classify_tokens(seq![d, z], aliases, cy, s1) == classify_tokens(
        seq![z],
        aliases,
        cy,
        s2,
    ));
    assert(classify_tokens(seq![z], aliases, cy, s2) == classify_tokens(
        Seq::<Seq<char>>::empty(),
        aliases,
        cy,
        s3,
    ));
    assert(s3 == full_slots(d, t, z, aliases, cy));
}

proof fn case_tzd(
    d: Seq<char>,
    t: Seq<char>,
    z: Seq<char>,
    aliases: Map<Seq<char>, Seq<char>>,
    cy: int,
)
    requires
        one_of_each(d, t, z, aliases, cy),
    ensures
        classify_tokens(seq![t, z, d], aliases, cy, initial_slots()) == Some(
            full_slots(d, t, z, aliases, cy),
        ),
{
    let st0 = initial_slots();
    let s = seq![t, z, d];
    assert(s.drop_first() =~= seq![z, d]);
    assert(seq![z, d].drop_first() =~= seq![d]);
    assert(seq![d].drop_first() =~= Seq::<Seq<char>>::empty());
    let s1 = SlotState { time: time_of(t), ..st0 };
    let s2 = SlotState { zone: tz_attempt(aliases, z), ..s1 };
    let s3 = SlotState { date: date_of(d, cy), ..s2 };
    assert(classify_tokens(s, aliases, cy, st0) == classify_tokens(seq![z, d], aliases, cy, s1));
    assert(classify_tokens(seq![z, d], aliases, cy, s1) == classify_tokens(
        seq![d],
        aliases,
        cy,
        s2,
    ));
    assert(classify_tokens(seq![d], aliases, cy, s2) == classify_tokens(
        Seq::<Seq<char>>::empty(),
        aliases,
        cy,
        s3,
    ));
    assert(s3 == full_slots(d, t, z, aliases, cy));
}

proof fn case_zdt(
    d: Seq<char>,
    t: Seq<char>,
    z: Seq<char>,
    aliases: Map<Seq<char>, Seq<char>>,
    cy: int,
)
    requires
        one_of_each(d, t, z, aliases, cy),
    ensures
        classify_tokens(seq![z, d, t], aliases, cy, initial_slots()) == Some(
            full_slots(d, t, z, aliases, cy),
        ),
{
    let st0 = initial_slots();
    let s = seq![z, d, t];
    assert(s.drop_first() =~= seq![d, t]);
    assert(seq![d, t].drop_first() =~= seq![t]);
    assert(seq![t].drop_first() =~= Seq::<Seq<char>>::empty());
    let s1 = SlotState { zone: tz_attempt(aliases, z), ..st0 };
    let s2 = SlotState { date: date_of(d, cy), ..s1 };
    let s3 = SlotState { time: time_of(t), ..s2 };
    assert(classify_tokens(s, aliases, cy, st0) == classify_tokens(seq![d, t], aliases, cy, s1));
    assert(classify_tokens(seq![d, t], aliases, cy, s1) == classify_tokens(
        seq![t],
        aliases,
        cy,
        s2,
    ));
    assert(classify_tokens(seq![t], aliases, cy, s2) == classify_tokens(
        Seq::<Seq<char>>::empty(),
        aliases,
        cy,
        s3,
    ));
    assert(s3 == full_slots(d, t, z, aliases, cy));
}

proof fn case_ztd(
    d: Seq<char>,
    t: Seq<char>,
    z: Seq<char>,
    aliases: Map<Seq<char>, Seq<char>>,
    cy: int,
)
    requires
        one_of_each(d, t, z, aliases, cy),
    ensures
        classify_tokens(seq![z, t, d], aliases, cy, initial_slots()) == Some(
            full_slots(d, t, z, aliases, cy),
        ),
{
    let st0 = initial_slots();
    let s = seq![z, t, d];
    assert(s.drop_first() =~= seq![t, d]);
    assert(seq![t, d].drop_first() =~= seq![d]);
    assert(seq![d].drop_first() =~= Seq::<Seq<char>>::empty());
    let s1 = SlotState { zone: tz_attempt(aliases, z), ..st0 };
    let s2 = SlotState { time: time_of(t), ..s1 };
    let s3 = SlotState { date: date_of(d, cy), ..s2 };
    assert(classify_tokens(s, aliases, cy, st0) == classify_tokens(seq![t, d], aliases, cy, s1));
    assert(classify_tokens(seq![t, d], aliases, cy, s1) == classify_tokens(
        seq![d],
        aliases,
        cy,
        s2,
    ));
    assert(classify_tokens(seq![d], aliases, cy, s2) == classify_tokens(
        Seq::<Seq<char>>::empty(),
        aliases,
        cy,
        s3,
    ));
    assert(s3 == full_slots(d, t, z, aliases, cy));
}

proof fn lemma_perm3_classifies(
    s: Seq<Seq<char>>,
    d: Seq<char>,
    t: Seq<char>,
    z: Seq<char>,
    aliases: Map<Seq<char>, Seq<char>>,
    cy: int,
)
    requires
        perm3(s, d, t, z),
        one_of_each(d, t, z, aliases, cy),
    ensures
        classify_tokens(s, aliases, cy, initial_slots()) == Some(
            full_slots(d, t, z, aliases, cy),
        ),
{
    if s =~= seq![d, t, z] {
        case_dtz(d, t, z, aliases, cy);
    } else if s =~= seq![d, z, t] {
        case_dzt(d, t, z, aliases, cy);
    } else if s =~= seq![t, d, z] {
        case_tdz(d, t, z, aliases, cy);
    } else if s =~= seq![t, z, d] {
        case_tzd(d, t, z, aliases, cy);
    } else if s =~= seq![z, d, t] {
        case_zdt(d, t, z, aliases, cy);
    } else {
        case_ztd(d, t, z, aliases, cy);
    }
}

/// Order-independence of classification: a token list holding exactly
/// one date-shaped token, one time-shaped token and one timezone-shaped
/// token yields the same civil datetime and timezone in every
/// permutation, provided no adjacent merge of the time token with one of
/// the others reads as a time.
pub proof fn lemma_classification_order_independent(
    s: Seq<Seq<char>>,
    d: Seq<char>,
    t: Seq<char>,
    z: Seq<char>,
    aliases: Map<Seq<char>, Seq<char>>,
    now: CivilDateTime,
)
    requires
        perm3(s, d, t, z),
        one_of_each(d, t, z, aliases, now.date.year as int),
    ensures
        classification(s, aliases, now) == classification(seq![d, t, z], aliases, now),
        classification(s, aliases, now) is Some,
{
    let cy = now.date.year as int;
    lemma_perm3_classifies(s, d, t, z, aliases, cy);
    assert(perm3(seq![d, t, z], d, t, z));
    lemma_perm3_classifies(seq![d, t, z], d, t, z, aliases, cy);
}

/// Two tokens that both match the timezone pattern fail classification:
/// the second finds the timezone slot filled, and, matching neither the
/// date nor the time patterns, fits no other slot.
pub proof fn lemma_double_timezone(
    a: Seq<char>,
    b: Seq<char>,
    aliases: Map<Seq<char>, Seq<char>>,
    now: CivilDateTime,
)
    requires
        tz_attempt(aliases, a) is Some,
        tz_attempt(aliases, b) is Some,
        date_of(b, now.date.year as int) is None,
        time_of(b) is None,
    ensures
        classification(seq![a, b], aliases, now) is None,
{
    let cy = now.date.year as int;
    let st0 = initial_slots();
    assert(seq![a, b].drop_first() =~= seq![b]);
    let s1 = SlotState { zone: tz_attempt(aliases, a), ..st0 };
    assert(classify_tokens(seq![a, b], aliases, cy, st0) == classify_tokens(
        seq![b],
        aliases,
        cy,
        s1,
    ));
    assert(classify_tokens(seq![b], aliases, cy, s1) is None);
}

/// An abbreviation present in the alias map overrides the literal token:
/// the classified zone is the canonical zone of the mapped value,
/// whatever the raw token itself would have named.
pub proof fn lemma_alias_overrides(
    tok: Seq<char>,
    aliases: Map<Seq<char>, Seq<char>>,
    now: CivilDateTime,
)
    requires
        aliases.contains_key(tok),
        tz_token_ok(aliases[tok]),
    ensures
        classification(seq![tok], aliases, now) == Some(
            (now, Some(canon_of(aliases[tok]))),
        ),
{
    let cy = now.date.year as int;
    let st0 = initial_slots();
    assert(alias_target(aliases, tok) == aliases[tok]);
    assert(seq![tok].drop_first() =~= Seq::<Seq<char>>::empty());
    let s1 = SlotState { zone: tz_attempt(aliases, tok), ..st0 };
    assert(classify_tokens(seq![tok], aliases, cy, st0) == classify_tokens(
        Seq::<Seq<char>>::empty(),
        aliases,
        cy,
        s1,
    ));
    assert(now == CivilDateTime { date: now.date, time: now.time });
}

} // verus!
