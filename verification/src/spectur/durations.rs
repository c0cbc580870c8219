//! Durations in a manifest that no 64 bits of seconds would hold.

use vstd::prelude::*;
use crate::spectur::markup::{
    attribute_at, find_markup_close, find_open, markup_at, markup_close, open_at, read_attribute, read_markup, read_tag,
    tag_parts, Attribute, Markup, TagParts,
};
use crate::text::{chars_of, same, string_between};

verus! {

/// The value of a digit of a number to the base of at most sixteen; sixteen
/// where `c` is no digit.
pub open spec fn digit_value(c: char) -> int {
    if '0' <= c && c <= '9' {
        c as u32 - 48
    } else if 'a' <= c && c <= 'f' {
        c as u32 - 87
    } else if 'A' <= c && c <= 'F' {
        c as u32 - 55
    } else {
        16
    }
}

/// The number that digits to a base stand for; 256 where it is larger.
pub open spec fn small_value(s: Seq<char>, base: int) -> int
    decreases s.len(),
{
    if s.len() == 0 {
        0
    } else {
        let front = small_value(s.drop_last(), base);
        let d = digit_value(s.last());
        if d >= base || front * base + d > 255 {
            256
        } else {
            front * base + d
        }
    }
}

/// What stands for every character that is not ASCII.
pub open spec fn other_char() -> char {
    '\u{80}'
}

/// The character of a code: a space for what is not seen.
pub open spec fn char_of_code(code: int) -> char {
    if code >= 128 {
        other_char()
    } else if 32 < code < 127 {
        (code as u8) as char
    } else {
        ' '
    }
}

/// Where the digits to a base end that begin at `k`.
pub open spec fn digits_end(t: Seq<char>, k: int, base: int) -> int
    decreases t.len() - k,
{
    if 0 <= k < t.len() && digit_value(t[k]) < base {
        digits_end(t, k + 1, base)
    } else {
        k
    }
}

/// The base of the character reference at the front of `t`.
pub open spec fn reference_base(t: Seq<char>) -> int {
    if t.len() > 2 && t[2] == 'x' {
        16
    } else {
        10
    }
}

/// Where the digits of the character reference at the front of `t` begin.
pub open spec fn reference_start(t: Seq<char>) -> int {
    if t.len() > 2 && t[2] == 'x' {
        3
    } else {
        2
    }
}

/// Where the digits of the character reference at the front of `t` end.
pub open spec fn reference_end(t: Seq<char>) -> int {
    digits_end(t, reference_start(t), reference_base(t))
}

/// A character reference stands at the front of `t`: digits between `&#` and
/// `;`, or hexadecimal ones between `&#x` and `;`.
pub open spec fn at_reference(t: Seq<char>) -> bool {
    &&& t.len() >= 2
    &&& t[0] == '&'
    &&& t[1] == '#'
    &&& reference_start(t) < reference_end(t) < t.len()
    &&& t[reference_end(t)] == ';'
}

/// The text with its character references replaced.
pub open spec fn decoded(t: Seq<char>) -> Seq<char>
    decreases t.len(),
{
    if t.len() == 0 {
        Seq::empty()
    } else if at_reference(t) {
        let code = small_value(t.subrange(reference_start(t), reference_end(t)), reference_base(t));
        seq![char_of_code(code)] + decoded(t.skip(reference_end(t) + 1))
    } else {
        seq![t[0]] + decoded(t.skip(1))
    }
}

/// A character that a number of a duration can hold. Not every one that is
/// not ASCII is a digit, but digits are among them.
pub open spec fn may_be_digit(c: char) -> bool {
    '0' <= c && c <= '9' || other_char() <= c
}

/// Where the number ends that begins at `k`.
pub open spec fn number_end(d: Seq<char>, k: int) -> int
    decreases d.len() - k,
{
    if 0 <= k < d.len() && may_be_digit(d[k]) {
        number_end(d, k + 1)
    } else {
        k
    }
}

/// The least number that 64 bits do not hold.
pub open spec fn beyond() -> int {
    0x1_0000_0000_0000_0000
}

/// The number that stands in `d` from `k` to `e`, cut off at `beyond()`.
pub open spec fn number(d: Seq<char>, k: int, e: int) -> int
    decreases e - k,
{
    if e <= k {
        0
    } else {
        let c = d[e - 1];
        let n = number(d, k, e - 1) * 10 + if '0' <= c && c <= '9' {
            c as u32 - 48
        } else {
            0
        };
        if n >= beyond() {
            beyond()
        } else {
            n
        }
    }
}

/// A number and its unit stand at `k`.
pub open spec fn has_unit(d: Seq<char>, k: int, unit: char) -> bool {
    k < number_end(d, k) < d.len() && d[number_end(d, k)] == unit
}

/// What follows the number and its unit, if they stand at `k`.
pub open spec fn after_unit(d: Seq<char>, k: int, unit: char) -> int {
    if has_unit(d, k, unit) {
        number_end(d, k) + 1
    } else {
        k
    }
}

/// The number at `k`, if it has the unit; else zero.
pub open spec fn unit_number(d: Seq<char>, k: int, unit: char) -> int {
    if has_unit(d, k, unit) {
        number(d, k, number_end(d, k))
    } else {
        0
    }
}

/// Where the number of seconds at `k` ends, with its fraction.
pub open spec fn fraction_end(d: Seq<char>, k: int) -> int {
    let e = number_end(d, k);
    if e < d.len() && (d[e] == '.' || d[e] == ',') && number_end(d, e + 1) > e + 1 {
        number_end(d, e + 1)
    } else {
        e
    }
}

/// The seconds at `k`, without their fraction.
pub open spec fn whole_seconds(d: Seq<char>, k: int) -> int {
    if k < number_end(d, k) && fraction_end(d, k) < d.len() && d[fraction_end(d, k)] == 'S' {
        number(d, k, number_end(d, k))
    } else {
        0
    }
}

pub open spec fn is_ascii(d: Seq<char>) -> bool {
    forall|i: int| 0 <= i < d.len() ==> #[trigger] d[i] < other_char()
}

/// `n` times `each` on top of `rest`. A number that 64 bits do not hold is
/// refused before anything is reckoned with it or after it.
pub open spec fn reckoned(d: Seq<char>, n: int, each: int, rest: int) -> int {
    if n >= beyond() && is_ascii(d) {
        0
    } else {
        n * each + rest
    }
}

/// The seconds that years of 365 days, months of 30, weeks and days, and the
/// time that may follow, come to. They are reckoned from seconds to years, up
/// to a number that is refused.
pub open spec fn period_seconds(d: Seq<char>, k: int) -> int {
    let months = after_unit(d, k, 'Y');
    let weeks = after_unit(d, months, 'M');
    let days = after_unit(d, weeks, 'W');
    let time = after_unit(d, days, 'D');
    let date = reckoned(
        d,
        unit_number(d, days, 'D'),
        86400,
        reckoned(
            d,
            unit_number(d, weeks, 'W'),
            604800,
            reckoned(d, unit_number(d, months, 'M'), 2592000, reckoned(d, unit_number(d, k, 'Y'), 31536000, 0)),
        ),
    );
    if time < d.len() && d[time] == 'T' {
        let minutes = after_unit(d, time + 1, 'H');
        let seconds = after_unit(d, minutes, 'M');
        reckoned(
            d,
            whole_seconds(d, seconds),
            1,
            reckoned(
                d,
                unit_number(d, minutes, 'M'),
                60,
                reckoned(d, unit_number(d, time + 1, 'H'), 3600, date),
            ),
        )
    } else {
        date
    }
}

/// The seconds of the duration at `k`, with or without a sign; zero where
/// there is none.
pub open spec fn duration_seconds(d: Seq<char>, k: int) -> int {
    let p = if k < d.len() && (d[k] == '+' || d[k] == '-') {
        k + 1
    } else {
        k
    };
    if p < d.len() && d[p] == 'P' {
        period_seconds(d, p + 1)
    } else {
        0
    }
}

/// Where in a manifest an element stands, as far as durations go.
#[derive(Debug, Clone, Copy, PartialEq, Eq, Structural)]
pub enum Role {
    Manifest,
    Period,
    Range,
    BaseUrl,
    Other,
}

/// The role of an element with so many around it.
pub open spec fn role_of(name: Seq<char>, depth: int) -> Role {
    if depth == 0 {
        Role::Manifest
    } else if depth == 1 && name == "Period"@ {
        Role::Period
    } else if depth == 2 && name == "Range"@ {
        Role::Range
    } else if name == "BaseURL"@ {
        Role::BaseUrl
    } else {
        Role::Other
    }
}

/// The attribute of an element in that role holds a duration.
pub open spec fn is_duration(role: Role, name: Seq<char>) -> bool {
    match role {
        Role::Manifest => {
            ||| name == "mediaPresentationDuration"@
            ||| name == "minimumUpdatePeriod"@
            ||| name == "minBufferTime"@
            ||| name == "timeShiftBufferDepth"@
            ||| name == "suggestedPresentationDelay"@
            ||| name == "maxSegmentDuration"@
            ||| name == "maxSubsegmentDuration"@
        },
        Role::Period => name == "start"@ || name == "duration"@,
        Role::Range => name == "starttime"@ || name == "duration"@,
        Role::BaseUrl => name == "timeShiftBufferDepth"@,
        Role::Other => false,
    }
}

/// The element is named like an attribute that holds a duration, `@` and all.
/// No name in XML begins so.
pub open spec fn is_odd(name: Seq<char>) -> bool {
    name.len() > 0 && name[0] == '@' && {
        ||| is_duration(Role::Manifest, name.skip(1))
        ||| is_duration(Role::Period, name.skip(1))
        ||| is_duration(Role::Range, name.skip(1))
    }
}

/// The attribute does not hold a duration of more seconds than 64 bits hold.
pub open spec fn attribute_fits(t: Seq<char>, role: Role, a: Attribute) -> bool {
    is_duration(role, t.subrange(a.name_start as int, a.name_end as int)) ==> duration_seconds(
        decoded(t.subrange(a.value_start as int, a.value_end as int)),
        0,
    ) <= u64::MAX
}

/// The attributes from `p` on of a tag that ends at `end` fit.
pub open spec fn attributes_fit(t: Seq<char>, role: Role, p: int, end: int) -> bool
    decreases end - p,
{
    if p < 0 || end > t.len() {
        true
    } else {
        match attribute_at(t, p, end) {
            Some(a) => attribute_fits(t, role, a) && (p < a.value_end < end ==> attributes_fit(
                t,
                role,
                a.value_end + 1,
                end,
            )),
            None => true,
        }
    }
}

/// The tag from the `<` at `j` to the `>` at `k` fits, with so many elements
/// around it.
pub open spec fn tag_fits(t: Seq<char>, j: int, k: int, depth: int) -> bool {
    let tag = tag_parts(t, j, k);
    let name = t.subrange(tag.name_start as int, tag.name_end as int);
    !is_odd(name) && attributes_fit(t, role_of(name, depth), tag.name_end as int, tag.end as int)
}

/// The tags from `i` on fit, up to the end of the outermost element, with
/// `depth` elements open.
pub open spec fn tags_fit(t: Seq<char>, i: int, depth: int) -> bool
    decreases t.len() - i,
{
    let j = open_at(t, i);
    let k = markup_close(t, j);
    if i < 0 || !(i <= j < k < t.len()) {
        true
    } else {
        match markup_at(t, j) {
            Markup::Tag => tag_fits(t, j, k, depth) && if tag_parts(t, j, k).is_empty {
                depth == 0 || tags_fit(t, k + 1, depth)
            } else {
                tags_fit(t, k + 1, depth + 1)
            },
            Markup::EndTag => depth <= 1 || tags_fit(t, k + 1, depth - 1),
            _ => tags_fit(t, k + 1, depth),
        }
    }
}

/// No duration in the manifest comes to more seconds than 64 bits hold.
/// Durations are the values of attributes. The text of an element that takes
/// the place of such an attribute is not looked at, so there is to be none.
pub open spec fn durations_fit(body: Seq<char>) -> bool {
    tags_fit(body, 0, 0)
}

fn value_of_digit(c: char) -> (r: u32)
    ensures
        r == digit_value(c),
{
    if '0' <= c && c <= '9' {
        c as u32 - 48
    } else if 'a' <= c && c <= 'f' {
        c as u32 - 87
    } else if 'A' <= c && c <= 'F' {
        c as u32 - 55
    } else {
        16
    }
}

proof fn lemma_small_value(s: Seq<char>, base: int)
    requires
        base == 10 || base == 16,
    ensures
        0 <= small_value(s, base) <= 256,
    decreases s.len(),
{
    if s.len() > 0 {
        lemma_small_value(s.drop_last(), base);
        let front = small_value(s.drop_last(), base);
        assert(front * base >= 0) by (nonlinear_arith)
            requires
                front >= 0,
                base >= 0,
        ;
    }
}

fn read_small(v: &Vec<char>, from: usize, to: usize, base: u32) -> (r: u32)
    requires
        from <= to <= v@.len(),
        base == 10 || base == 16,
    ensures
        r == small_value(v@.subrange(from as int, to as int), base as int),
        r <= 256,
{
    let mut n: u32 = 0;
    let mut i: usize = from;
    while i < to
        invariant
            from <= i <= to <= v@.len(),
            base == 10 || base == 16,
            n == small_value(v@.subrange(from as int, i as int), base as int),
            n <= 256,
        decreases to - i,
    {
        assert(v@.subrange(from as int, i + 1).drop_last() =~= v@.subrange(from as int, i as int));
        let d: u32 = value_of_digit(v[i]);
        assert(n * base <= 4096) by (nonlinear_arith)
            requires
                n <= 256,
                base <= 16,
        ;
        let next: u32 = n * base + d;
        n = if d >= base || next > 255 {
            256
        } else {
            next
        };
        i = i + 1;
    }
    n
}

/// The character of a code.
fn read_code(code: u32) -> (r: char)
    requires
        code <= 256,
    ensures
        r == char_of_code(code as int),
{
    if code >= 128 {
        '\u{80}'
    } else if 32 < code && code < 127 {
        (code as u8) as char
    } else {
        ' '
    }
}

/// Where the digits to a base end that begin at `from`.
fn find_digits_end(v: &Vec<char>, from: usize, base: u32, Ghost(i): Ghost<int>) -> (r: usize)
    requires
        0 <= i <= from <= v@.len(),
        base == 10 || base == 16,
    ensures
        from <= r <= v@.len(),
        digits_end(v@.skip(i), from - i, base as int) == r - i,
{
    let ghost t = v@.skip(i);
    let mut e: usize = from;
    while e < v.len() && value_of_digit(v[e]) < base
        invariant
            0 <= i <= from <= e <= v@.len(),
            t == v@.skip(i),
            digits_end(t, from - i, base as int) == digits_end(t, e - i, base as int),
        decreases v@.len() - e,
    {
        assert(t[e - i] == v@[e as int]);
        e = e + 1;
    }
    proof {
        if e < v@.len() {
            assert(t[e - i] == v@[e as int]);
        }
    }
    e
}

/// The character reference at `i`: its character, and where it ends.
fn read_reference(v: &Vec<char>, i: usize) -> (r: Option<(char, usize)>)
    requires
        i < v@.len(),
    ensures
        ({
            let t = v@.skip(i as int);
            match r {
                Some((c, end)) => {
                    &&& at_reference(t)
                    &&& end - i == reference_end(t)
                    &&& end < v@.len()
                    &&& c == char_of_code(
                        small_value(t.subrange(reference_start(t), reference_end(t)), reference_base(t)),
                    )
                },
                None => !at_reference(t),
            }
        }),
{
    let ghost t = v@.skip(i as int);
    let n: usize = v.len();
    if n - i < 2 || v[i] != '&' || v[i + 1] != '#' {
        assert(n - i >= 2 ==> t[0] == v@[i as int] && t[1] == v@[i + 1]);
        return None;
    }
    assert(t[0] == v@[i as int] && t[1] == v@[i + 1]);
    let hex: bool = n - i > 2 && v[i + 2] == 'x';
    assert(n - i > 2 ==> t[2] == v@[i + 2]);
    let from: usize = if hex {
        i + 3
    } else {
        i + 2
    };
    let base: u32 = if hex {
        16
    } else {
        10
    };
    let end: usize = find_digits_end(v, from, base, Ghost(i as int));
    assert(end < n ==> t[end - i] == v@[end as int]);
    if end == from || end >= n || v[end] != ';' {
        return None;
    }
    let code: u32 = read_small(v, from, end, base);
    assert(t.subrange(from - i, end - i) =~= v@.subrange(from as int, end as int));
    Some((read_code(code), end))
}

/// The text with its character references replaced.
fn decode(v: &Vec<char>) -> (r: Vec<char>)
    ensures
        r@ == decoded(v@),
{
    let n: usize = v.len();
    let mut r: Vec<char> = Vec::new();
    let mut i: usize = 0;
    assert(v@.skip(0) =~= v@);
    while i < n
        invariant
            n == v@.len(),
            i <= n,
            r@ + decoded(v@.skip(i as int)) == decoded(v@),
        decreases n - i,
    {
        let ghost rest = v@.skip(i as int);
        let ghost before = r@;
        match read_reference(v, i) {
            Some((c, end)) => {
                assert(rest.skip(end - i + 1) =~= v@.skip(end + 1));
                r.push(c);
                assert(before + (seq![c] + decoded(v@.skip(end + 1))) =~= r@ + decoded(v@.skip(end + 1)));
                i = end + 1;
            },
            None => {
                assert(rest[0] == v@[i as int]);
                assert(rest.skip(1) =~= v@.skip(i + 1));
                r.push(v[i]);
                assert(before + (seq![rest[0]] + decoded(v@.skip(i + 1))) =~= r@ + decoded(v@.skip(i + 1)));
                i = i + 1;
            },
        }
    }
    assert(v@.skip(n as int).len() == 0);
    assert(r@ + Seq::<char>::empty() =~= r@);
    r
}

/// Reads the number at `k`: its value, and where it ends.
fn read_number(d: &Vec<char>, k: usize) -> (r: (u128, usize))
    requires
        k <= d@.len(),
    ensures
        r.1 == number_end(d@, k as int),
        k <= r.1 <= d@.len(),
        r.0 == number(d@, k as int, r.1 as int),
        r.0 <= beyond(),
{
    let mut e: usize = k;
    let mut n: u128 = 0;
    while e < d.len() && (('0' <= d[e] && d[e] <= '9') || '\u{80}' <= d[e])
        invariant
            k <= e <= d@.len(),
            number_end(d@, k as int) == number_end(d@, e as int),
            n == number(d@, k as int, e as int),
            n <= beyond(),
        decreases d@.len() - e,
    {
        let c: char = d[e];
        let next: u128 = n * 10 + if '0' <= c && c <= '9' {
            (c as u32 - 48) as u128
        } else {
            0
        };
        n = if next >= 0x1_0000_0000_0000_0000 {
            0x1_0000_0000_0000_0000
        } else {
            next
        };
        e = e + 1;
    }
    (n, e)
}

/// Reads a number with a unit at `k`, and what follows.
fn read_unit(d: &Vec<char>, k: usize, unit: char) -> (r: (u128, usize))
    requires
        k <= d@.len(),
    ensures
        r.0 == unit_number(d@, k as int, unit),
        r.0 <= beyond(),
        r.1 == after_unit(d@, k as int, unit),
        k <= r.1 <= d@.len(),
{
    let (n, e) = read_number(d, k);
    if e > k && e < d.len() && d[e] == unit {
        (n, e + 1)
    } else {
        (0, k)
    }
}

fn check_ascii(d: &Vec<char>) -> (r: bool)
    ensures
        r == is_ascii(d@),
{
    let mut i: usize = 0;
    while i < d.len()
        invariant
            i <= d@.len(),
            forall|k: int| 0 <= k < i ==> #[trigger] d@[k] < other_char(),
        decreases d@.len() - i,
    {
        if d[i] >= '\u{80}' {
            assert(!(d@[i as int] < other_char()));
            return false;
        }
        i = i + 1;
    }
    true
}

fn reckon(Ghost(d): Ghost<Seq<char>>, ascii: bool, n: u128, each: u128, rest: u128) -> (r: u128)
    requires
        ascii == is_ascii(d),
        n <= beyond(),
        each <= 31536000,
        rest <= 7 * beyond() * 31536000,
    ensures
        r == reckoned(d, n as int, each as int, rest as int),
        r <= rest + beyond() * 31536000,
{
    if n >= 0x1_0000_0000_0000_0000 && ascii {
        0
    } else {
        assert(n * each <= beyond() * 31536000) by (nonlinear_arith)
            requires
                n <= beyond(),
                each <= 31536000,
        ;
        n * each + rest
    }
}

/// Reads the seconds at `k`.
fn read_seconds(d: &Vec<char>, k: usize) -> (r: u128)
    requires
        k <= d@.len(),
    ensures
        r == whole_seconds(d@, k as int),
        r <= beyond(),
{
    let (n, e) = read_number(d, k);
    let end: usize = if e < d.len() && (d[e] == '.' || d[e] == ',') {
        let (_, f) = read_number(d, e + 1);
        if f > e + 1 {
            f
        } else {
            e
        }
    } else {
        e
    };
    if e > k && end < d.len() && d[end] == 'S' {
        n
    } else {
        0
    }
}

/// Reads the duration at `k`.
fn read_duration(d: &Vec<char>, k: usize) -> (r: u128)
    requires
        k <= d@.len(),
    ensures
        r == duration_seconds(d@, k as int),
{
    let p: usize = if k < d.len() && (d[k] == '+' || d[k] == '-') {
        k + 1
    } else {
        k
    };
    if p >= d.len() || d[p] != 'P' {
        return 0;
    }
    let ascii: bool = check_ascii(d);
    let (years, a) = read_unit(d, p + 1, 'Y');
    let (months, b) = read_unit(d, a, 'M');
    let (weeks, c) = read_unit(d, b, 'W');
    let (days, t) = read_unit(d, c, 'D');
    let date: u128 = reckon(Ghost(d@), ascii, years, 31536000, 0);
    let date: u128 = reckon(Ghost(d@), ascii, months, 2592000, date);
    let date: u128 = reckon(Ghost(d@), ascii, weeks, 604800, date);
    let date: u128 = reckon(Ghost(d@), ascii, days, 86400, date);
    if t < d.len() && d[t] == 'T' {
        let (hours, m) = read_unit(d, t + 1, 'H');
        let (minutes, s) = read_unit(d, m, 'M');
        let seconds: u128 = read_seconds(d, s);
        let time: u128 = reckon(Ghost(d@), ascii, hours, 3600, date);
        let time: u128 = reckon(Ghost(d@), ascii, minutes, 60, time);
        reckon(Ghost(d@), ascii, seconds, 1, time)
    } else {
        date
    }
}

fn read_role(name: &str, depth: usize) -> (r: Role)
    ensures
        r == role_of(name@, depth as int),
{
    if depth == 0 {
        Role::Manifest
    } else if depth == 1 && same(name, "Period") {
        Role::Period
    } else if depth == 2 && same(name, "Range") {
        Role::Range
    } else if same(name, "BaseURL") {
        Role::BaseUrl
    } else {
        Role::Other
    }
}

fn check_duration(role: Role, name: &str) -> (r: bool)
    ensures
        r == is_duration(role, name@),
{
    match role {
        Role::Manifest => same(name, "mediaPresentationDuration") || same(name, "minimumUpdatePeriod") || same(
            name,
            "minBufferTime",
        ) || same(name, "timeShiftBufferDepth") || same(name, "suggestedPresentationDelay") || same(
            name,
            "maxSegmentDuration",
        ) || same(name, "maxSubsegmentDuration"),
        Role::Period => same(name, "start") || same(name, "duration"),
        Role::Range => same(name, "starttime") || same(name, "duration"),
        Role::BaseUrl => same(name, "timeShiftBufferDepth"),
        Role::Other => false,
    }
}

fn check_odd(t: &Vec<char>, from: usize, to: usize) -> (r: bool)
    requires
        from <= to <= t@.len(),
    ensures
        r == is_odd(t@.subrange(from as int, to as int)),
{
    if from >= to || t[from] != '@' {
        return false;
    }
    let name: String = string_between(t, from + 1, to);
    assert(name@ =~= t@.subrange(from as int, to as int).skip(1));
    check_duration(Role::Manifest, name.as_str()) || check_duration(Role::Period, name.as_str()) || check_duration(
        Role::Range,
        name.as_str(),
    )
}

fn check_attributes(t: &Vec<char>, role: Role, from: usize, end: usize) -> (r: bool)
    requires
        from <= end <= t@.len(),
    ensures
        r == attributes_fit(t@, role, from as int, end as int),
{
    let mut p: usize = from;
    loop
        invariant
            from <= p <= end <= t@.len(),
            attributes_fit(t@, role, p as int, end as int) == attributes_fit(t@, role, from as int, end as int),
        decreases end - p,
    {
        match read_attribute(t, p, end) {
            Some(a) => {
                let name: String = string_between(t, a.name_start, a.name_end);
                if check_duration(role, name.as_str()) {
                    let value: String = string_between(t, a.value_start, a.value_end);
                    let d: Vec<char> = decode(&chars_of(value.as_str()));
                    if read_duration(&d, 0) > u64::MAX as u128 {
                        return false;
                    }
                }
                p = a.value_end + 1;
            },
            None => {
                return true;
            },
        }
    }
}

/// Whether no duration in the manifest comes to more seconds than 64 bits hold.
pub fn check_durations(body: &str) -> (r: bool)
    ensures
        r == durations_fit(body@),
{
    let t: Vec<char> = chars_of(body);
    let n: usize = t.len();
    let mut i: usize = 0;
    let mut depth: usize = 0;
    loop
        invariant
            n == t@.len(),
            t@ == body@,
            depth <= i <= n,
            tags_fit(t@, i as int, depth as int) == tags_fit(t@, 0, 0),
        decreases n - i,
    {
        let j: usize = find_open(&t, i);
        if j >= n {
            return true;
        }
        let k: usize = find_markup_close(&t, j);
        if k >= n {
            return true;
        }
        match read_markup(&t, j) {
            Markup::Tag => {
                let tag: TagParts = read_tag(&t, j, k);
                let name: String = string_between(&t, tag.name_start, tag.name_end);
                if check_odd(&t, tag.name_start, tag.name_end) {
                    return false;
                }
                if !check_attributes(&t, read_role(name.as_str(), depth), tag.name_end, tag.end) {
                    return false;
                }
                if !tag.is_empty {
                    depth = depth + 1;
                } else if depth == 0 {
                    return true;
                }
            },
            Markup::EndTag => {
                if depth <= 1 {
                    return true;
                }
                depth = depth - 1;
            },
            _ => {},
        }
        i = k + 1;
    }
}

} // verus!
