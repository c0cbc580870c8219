//! What holds of the durations in a manifest.

use vstd::prelude::*;
use crate::numerals::{all_digits, is_digit, value_of};
use crate::spectur::durations::{
    after_unit, attribute_fits, duration_seconds, fraction_end, has_unit, is_duration, may_be_digit, number,
    number_end, role_of, unit_number, whole_seconds, Role,
};
use crate::spectur::markup::Attribute;

verus! {

proof fn lemma_number_end(d: Seq<char>, k: int, e: int)
    requires
        0 <= k <= e <= d.len(),
        forall|i: int| k <= i < e ==> is_digit(#[trigger] d[i]),
        e < d.len() ==> !may_be_digit(d[e]),
    ensures
        number_end(d, k) == e,
    decreases e - k,
{
    if k < e {
        assert(is_digit(d[k]));
        lemma_number_end(d, k + 1, e);
    }
}

proof fn lemma_front_is_smaller(s: Seq<char>)
    requires
        s.len() > 0,
        all_digits(s),
    ensures
        value_of(s.drop_last()) <= value_of(s),
        all_digits(s.drop_last()),
{
    assert(is_digit(s[s.len() - 1]));
    assert forall|i: int| 0 <= i < s.drop_last().len() implies is_digit(#[trigger] s.drop_last()[i]) by {
        assert(is_digit(s[i]));
    }
}

proof fn lemma_number(d: Seq<char>, k: int, e: int)
    requires
        0 <= k <= e <= d.len(),
        all_digits(d.subrange(k, e)),
        value_of(d.subrange(k, e)) < 0x1_0000_0000_0000_0000,
    ensures
        number(d, k, e) == value_of(d.subrange(k, e)),
    decreases e - k,
{
    if k < e {
        let s = d.subrange(k, e);
        assert(s.drop_last() =~= d.subrange(k, e - 1));
        lemma_front_is_smaller(s);
        lemma_number(d, k, e - 1);
        assert(s.last() == d[e - 1]);
        assert(is_digit(s[s.len() - 1]));
    }
}

/// A number and its unit, with nothing but digits before the unit.
pub open spec fn part(n: Seq<char>, unit: char) -> Seq<char> {
    n + seq![unit]
}

proof fn lemma_part(d: Seq<char>, k: int, n: Seq<char>, unit: char, rest: Seq<char>)
    requires
        0 <= k <= d.len(),
        d.skip(k) == part(n, unit) + rest,
        n.len() > 0,
        all_digits(n),
        value_of(n) < 0x1_0000_0000_0000_0000,
        !may_be_digit(unit),
    ensures
        number_end(d, k) == k + n.len(),
        k + n.len() < d.len(),
        d[k + n.len()] == unit,
        number(d, k, k + n.len()) == value_of(n),
        has_unit(d, k, unit),
        after_unit(d, k, unit) == k + n.len() + 1,
        unit_number(d, k, unit) == value_of(n),
        d.skip(k + n.len() + 1) == rest,
{
    let s = d.skip(k);
    let e = k + n.len();
    assert(s.len() == n.len() + 1 + rest.len());
    assert(d[e] == s[n.len() as int]);
    assert forall|i: int| k <= i < e implies is_digit(#[trigger] d[i]) by {
        assert(d[i] == s[i - k]);
        assert(s[i - k] == n[i - k]);
    }
    lemma_number_end(d, k, e);
    assert(d.subrange(k, e) =~= n) by {
        assert forall|i: int| 0 <= i < n.len() implies d.subrange(k, e)[i] == n[i] by {
            assert(d[k + i] == s[i]);
        }
    }
    lemma_number(d, k, e);
    assert(d.skip(e + 1) =~= rest) by {
        assert forall|i: int| 0 <= i < rest.len() implies d.skip(e + 1)[i] == rest[i] by {
            assert(d[e + 1 + i] == s[n.len() + 1 + i]);
        }
    }
}

proof fn lemma_date(d: Seq<char>, y: Seq<char>, mo: Seq<char>, w: Seq<char>, dd: Seq<char>, rest: Seq<char>) -> (k: int)
    requires
        d.len() > 0,
        d.skip(1) == part(y, 'Y') + (part(mo, 'M') + (part(w, 'W') + (part(dd, 'D') + rest))),
        y.len() > 0 && mo.len() > 0 && w.len() > 0 && dd.len() > 0,
        all_digits(y) && all_digits(mo) && all_digits(w) && all_digits(dd),
        value_of(y) < 0x1_0000_0000_0000_0000,
        value_of(mo) < 0x1_0000_0000_0000_0000,
        value_of(w) < 0x1_0000_0000_0000_0000,
        value_of(dd) < 0x1_0000_0000_0000_0000,
    ensures
        0 <= k <= d.len(),
        d.skip(k) == rest,
        ({
            let months = after_unit(d, 1, 'Y');
            let weeks = after_unit(d, months, 'M');
            let days = after_unit(d, weeks, 'W');
            &&& after_unit(d, days, 'D') == k
            &&& unit_number(d, 1, 'Y') == value_of(y)
            &&& unit_number(d, months, 'M') == value_of(mo)
            &&& unit_number(d, weeks, 'W') == value_of(w)
            &&& unit_number(d, days, 'D') == value_of(dd)
        }),
{
    let t3 = part(dd, 'D') + rest;
    let t2 = part(w, 'W') + t3;
    let t1 = part(mo, 'M') + t2;
    lemma_part(d, 1, y, 'Y', t1);
    let k1: int = 1int + y.len() + 1;
    lemma_part(d, k1, mo, 'M', t2);
    let k2: int = k1 + mo.len() + 1;
    lemma_part(d, k2, w, 'W', t3);
    let k3: int = k2 + w.len() + 1;
    lemma_part(d, k3, dd, 'D', rest);
    k3 + dd.len() + 1
}

proof fn lemma_time(d: Seq<char>, k: int, h: Seq<char>, m: Seq<char>, s: Seq<char>)
    requires
        0 <= k <= d.len(),
        d.skip(k) == part(h, 'H') + (part(m, 'M') + part(s, 'S')),
        h.len() > 0 && m.len() > 0 && s.len() > 0,
        all_digits(h) && all_digits(m) && all_digits(s),
        value_of(h) < 0x1_0000_0000_0000_0000,
        value_of(m) < 0x1_0000_0000_0000_0000,
        value_of(s) < 0x1_0000_0000_0000_0000,
    ensures
        ({
            let minutes = after_unit(d, k, 'H');
            let seconds = after_unit(d, minutes, 'M');
            &&& unit_number(d, k, 'H') == value_of(h)
            &&& unit_number(d, minutes, 'M') == value_of(m)
            &&& whole_seconds(d, seconds) == value_of(s)
        }),
{
    let t7 = part(s, 'S');
    lemma_part(d, k, h, 'H', part(m, 'M') + t7);
    let k5: int = k + h.len() + 1;
    lemma_part(d, k5, m, 'M', t7);
    let k6: int = k5 + m.len() + 1;
    assert(t7 + Seq::<char>::empty() =~= t7);
    lemma_part(d, k6, s, 'S', Seq::empty());
    assert(fraction_end(d, k6) == k6 + s.len());
}

/// A duration comes to the seconds of its years, months, weeks, days, hours,
/// minutes and seconds.
#[verifier::rlimit(40)]
pub proof fn law_durations_come_to_seconds(
    d: Seq<char>,
    y: Seq<char>,
    mo: Seq<char>,
    w: Seq<char>,
    dd: Seq<char>,
    h: Seq<char>,
    m: Seq<char>,
    s: Seq<char>,
)
    requires
        d == seq!['P'] + (part(y, 'Y') + (part(mo, 'M') + (part(w, 'W') + (part(dd, 'D') + (seq!['T'] + (part(h, 'H')
            + (part(m, 'M') + part(s, 'S')))))))),
        y.len() > 0 && mo.len() > 0 && w.len() > 0 && dd.len() > 0 && h.len() > 0 && m.len() > 0 && s.len() > 0,
        all_digits(y) && all_digits(mo) && all_digits(w) && all_digits(dd) && all_digits(h) && all_digits(m)
            && all_digits(s),
        value_of(y) < 0x1_0000_0000_0000_0000,
        value_of(mo) < 0x1_0000_0000_0000_0000,
        value_of(w) < 0x1_0000_0000_0000_0000,
        value_of(dd) < 0x1_0000_0000_0000_0000,
        value_of(h) < 0x1_0000_0000_0000_0000,
        value_of(m) < 0x1_0000_0000_0000_0000,
        value_of(s) < 0x1_0000_0000_0000_0000,
    ensures
        duration_seconds(d, 0) == value_of(s) + 60 * (value_of(m) + 60 * (value_of(h) + 24 * (value_of(dd) + 7
            * value_of(w) + 30 * value_of(mo) + 365 * value_of(y)))),
{
    let t5 = part(h, 'H') + (part(m, 'M') + part(s, 'S'));
    let t4 = seq!['T'] + t5;
    assert(d[0] == 'P');
    assert(d.skip(1) =~= part(y, 'Y') + (part(mo, 'M') + (part(w, 'W') + (part(dd, 'D') + t4))));
    let k = lemma_date(d, y, mo, w, dd, t4);
    assert(d.skip(k)[0] == 'T');
    assert(d.skip(k).skip(1) =~= t5);
    assert(d.skip(k + 1) =~= d.skip(k).skip(1));
    lemma_time(d, k + 1, h, m, s);
}

/// The fraction of a second does not count.
pub proof fn law_fractions_do_not_count(d: Seq<char>, s: Seq<char>, fraction: Seq<char>, point: char)
    requires
        d == seq!['P'] + (seq!['T'] + (part(s, point) + part(fraction, 'S'))),
        point == '.' || point == ',',
        s.len() > 0 && fraction.len() > 0,
        all_digits(s) && all_digits(fraction),
        value_of(s) < 0x1_0000_0000_0000_0000,
        value_of(fraction) < 0x1_0000_0000_0000_0000,
    ensures
        duration_seconds(d, 0) == value_of(s),
{
    let rest = part(fraction, 'S');
    let body = part(s, point) + rest;
    assert(d.skip(2) =~= body);
    assert(d[0] == 'P' && d[1] == 'T');
    lemma_part(d, 2, s, point, rest);
    let k: int = 2int + s.len() + 1;
    assert(rest + Seq::<char>::empty() =~= rest);
    lemma_part(d, k, fraction, 'S', Seq::empty());
    lemma_number_end(d, 1, 1);
    assert(fraction_end(d, 2) == k + fraction.len());
    assert(whole_seconds(d, 2) == value_of(s));
    assert(!has_unit(d, 2, 'H') && !has_unit(d, 2, 'M'));
}

/// A duration that says only its seconds comes to them.
pub proof fn law_seconds_stand_alone(d: Seq<char>, s: Seq<char>)
    requires
        d == seq!['P'] + (seq!['T'] + part(s, 'S')),
        s.len() > 0,
        all_digits(s),
        value_of(s) < 0x1_0000_0000_0000_0000,
    ensures
        duration_seconds(d, 0) == value_of(s),
{
    let rest = part(s, 'S');
    assert(d.skip(2) =~= rest);
    assert(d[0] == 'P' && d[1] == 'T');
    assert(rest + Seq::<char>::empty() =~= rest);
    lemma_part(d, 2, s, 'S', Seq::empty());
    lemma_number_end(d, 1, 1);
    assert(fraction_end(d, 2) == 2 + s.len());
    assert(!has_unit(d, 2, 'H') && !has_unit(d, 2, 'M'));
}

/// What begins neither with `P` nor with a sign is no duration.
pub proof fn law_no_duration_without_its_mark(d: Seq<char>)
    requires
        d.len() > 0 ==> d[0] != 'P' && d[0] != '+' && d[0] != '-',
    ensures
        duration_seconds(d, 0) == 0,
{
}

/// The attributes that hold a duration: seven of the manifest itself, two of a
/// period, two of a range, and one of a base URL; no attribute of anything else
/// does.
pub proof fn law_durations_stand_in_their_attributes(name: Seq<char>, attribute: Seq<char>, depth: int)
    requires
        0 <= depth,
    ensures
        depth == 0 ==> (is_duration(role_of(name, depth), attribute) <==> attribute == "mediaPresentationDuration"@
            || attribute == "minimumUpdatePeriod"@ || attribute == "minBufferTime"@ || attribute
            == "timeShiftBufferDepth"@ || attribute == "suggestedPresentationDelay"@ || attribute
            == "maxSegmentDuration"@ || attribute == "maxSubsegmentDuration"@),
        depth == 1 && name == "Period"@ ==> (is_duration(role_of(name, depth), attribute) <==> attribute == "start"@
            || attribute == "duration"@),
        depth == 2 && name == "Range"@ ==> (is_duration(role_of(name, depth), attribute) <==> attribute
            == "starttime"@ || attribute == "duration"@),
        depth > 0 && name == "BaseURL"@ ==> (is_duration(role_of(name, depth), attribute) <==> attribute
            == "timeShiftBufferDepth"@),
        depth > 0 && name != "BaseURL"@ && !(depth == 1 && name == "Period"@) && !(depth == 2 && name == "Range"@)
            ==> !is_duration(role_of(name, depth), attribute),
{
    reveal_strlit("BaseURL");
    reveal_strlit("Period");
    reveal_strlit("Range");
    assert("BaseURL"@[0] == 'B');
    assert("Period"@[0] == 'P');
    assert("Range"@[0] == 'R');
}

/// An attribute whose value comes to more seconds than 64 bits hold does not
/// fit where it holds a duration, and fits anywhere else.
pub proof fn law_long_durations_do_not_fit(t: Seq<char>, role: Role, a: Attribute)
    ensures
        !attribute_fits(t, role, a) <==> is_duration(role, t.subrange(a.name_start as int, a.name_end as int))
            && duration_seconds(
            crate::spectur::durations::decoded(t.subrange(a.value_start as int, a.value_end as int)),
            0,
        ) > 0xffff_ffff_ffff_ffff,
{
}

} // verus!
