//! What holds of text, of numerals, and of the names of servers.

use vstd::prelude::*;
use crate::numerals::{decimal, decimal_string, digit, hex, hex_string, parse_up_to, signed_decimal_string, value_of};
use crate::quic::{server_name_from, split_origin, strip_front};
use crate::text::{
    begins, char_index, ends, index_of_char, is_space, is_white_space, join, joined, last_char_index, last_index_of,
    lemma_index_of_char_is_first, lines_string, lower, mentions, replace_all, same, split, split_at_char, starts_with,
    texts, to_lower, to_lower_char, trim_back, trim_front, trimmed,
};
use crate::text_map::{is_named, TextMap};
use crate::units::{
    align_down, bytes_to_ceiling_mb, bytes_to_floor_mb, max_u64, max_usize, mbps_to_bps, min_u64, min_usize,
    saturating_mul_u64,
};
use crate::web_url::{extract_origin_from, format_origin, origin_key_from, UrlParts};

verus! {

/// What a run of decimal digits is worth.
pub open spec fn worth(s: Seq<char>) -> int
    decreases s.len(),
{
    if s.len() == 0 {
        0
    } else {
        10 * worth(s.drop_last()) + (s[s.len() - 1] as int - 0x30)
    }
}

/// `s` holds decimal digits only.
pub open spec fn has_digits_only(s: Seq<char>) -> bool {
    forall|i: int| 0 <= i < s.len() ==> 0x30 <= (#[trigger] s[i]) as int <= 0x39
}

proof fn lemma_numeral(n: nat)
    ensures
        decimal(n).len() > 0,
        has_digits_only(decimal(n)),
        worth(decimal(n)) == n,
        n > 0 ==> decimal(n)[0] != '0',
        n == 0 ==> decimal(n).len() == 1,
    decreases n,
{
    if n >= 10 {
        lemma_numeral(n / 10);
        let d = decimal(n);
        assert(d.drop_last() =~= decimal(n / 10));
        assert(d[d.len() - 1] == digit((n % 10) as int));
        assert(digit((n % 10) as int) as int == 48 + n % 10);
        assert forall|i: int| 0 <= i < d.len() implies 0x30 <= (#[trigger] d[i]) as int <= 0x39 by {
            if i < d.len() - 1 {
                assert(d[i] == decimal(n / 10)[i]);
            }
        }
        assert(d[0] == decimal(n / 10)[0]);
    } else {
        let d = decimal(n);
        assert(d.drop_last() =~= Seq::empty());
        assert(worth(Seq::<char>::empty()) == 0);
        assert(d[0] as int == 48 + n);
    }
}

/// A number is written with its digits, the first of which is not zero unless
/// it is all there is, and a sign where it is less than nothing.
pub proof fn law_numbers_are_written(n: u64, r: String, m: i64, s: String)
    requires
        call_ensures(decimal_string, (n,), r),
        call_ensures(signed_decimal_string, (m,), s),
    ensures
        has_digits_only(r@),
        worth(r@) == n,
        n > 0 ==> r@[0] != '0',
        n == 0 ==> r@ == seq!['0'],
        m >= 0 ==> has_digits_only(s@) && worth(s@) == m,
        m < 0 ==> s@[0] == '-' && has_digits_only(s@.skip(1)) && worth(s@.skip(1)) == -m,
{
    lemma_numeral(n as nat);
    if n == 0 {
        assert(worth(r@.drop_last()) == 0) by {
            assert(r@.drop_last() =~= Seq::empty());
        }
        assert(r@[0] as int == 0x30);
        assert(r@ =~= seq!['0']);
    }
    if m >= 0 {
        lemma_numeral(m as nat);
    } else {
        lemma_numeral((-m) as nat);
        assert(s@.skip(1) =~= decimal((-m) as nat));
    }
}

proof fn lemma_worth(s: Seq<char>)
    requires
        has_digits_only(s),
    ensures
        worth(s) == value_of(s),
        worth(s) >= 0,
    decreases s.len(),
{
    if s.len() > 0 {
        assert(has_digits_only(s.drop_last())) by {
            assert forall|i: int| 0 <= i < s.drop_last().len() implies 0x30 <= (#[trigger] s.drop_last()[i]) as int
                <= 0x39 by {
                assert(s.drop_last()[i] == s[i]);
            }
        }
        lemma_worth(s.drop_last());
        assert(s.last() == s[s.len() - 1]);
        assert(0x30 <= s[s.len() - 1] as int <= 0x39);
    }
}

/// A numeral is read for what it is worth, up to a maximum, with or without a
/// plus sign; anything else is none.
pub proof fn law_numerals_are_read(s: &str, max: u64, r: Option<u64>)
    requires
        call_ensures(parse_up_to, (s, max), r),
    ensures
        ({
            let d = if s@.len() > 0 && s@[0] == '+' {
                s@.skip(1)
            } else {
                s@
            };
            &&& r is Some <==> d.len() > 0 && has_digits_only(d) && worth(d) <= max
            &&& r matches Some(v) ==> v == worth(d)
        }),
{
    let d = if s@.len() > 0 && s@[0] == '+' {
        s@.skip(1)
    } else {
        s@
    };
    if crate::numerals::all_digits(d) {
        assert forall|i: int| 0 <= i < d.len() implies 0x30 <= (#[trigger] d[i]) as int <= 0x39 by {
            assert(crate::numerals::is_digit(d[i]));
        }
    }
    if has_digits_only(d) {
        assert forall|i: int| 0 <= i < d.len() implies crate::numerals::is_digit(#[trigger] d[i]) by {
            assert(0x30 <= d[i] as int <= 0x39);
        }
        lemma_worth(d);
    }
}

proof fn lemma_hex(b: Seq<u8>, i: int)
    requires
        0 <= i < b.len(),
    ensures
        hex(b).len() == 2 * b.len(),
        hex(b)[2 * i] == digit(b[i] as int / 16),
        hex(b)[2 * i + 1] == digit(b[i] as int % 16),
    decreases b.len(),
{
    if b.len() == 1 {
        assert(hex(b.drop_last()).len() == 0);
    } else {
        if i < b.len() - 1 {
            lemma_hex(b.drop_last(), i);
        } else {
            lemma_hex(b.drop_last(), 0);
        }
    }
}

/// Every byte is written with two digits, the high one first.
pub proof fn law_bytes_are_written(b: &Vec<u8>, r: String, i: int)
    requires
        0 <= i < b@.len(),
        call_ensures(hex_string, (b,), r),
    ensures
        r@.len() == 2 * b@.len(),
        r@[2 * i] == "0123456789abcdef"@[b@[i] as int / 16],
        r@[2 * i + 1] == "0123456789abcdef"@[b@[i] as int % 16],
{
    lemma_hex(b@, i);
    reveal_strlit("0123456789abcdef");
    lemma_hex_digit(b@[i] as int / 16);
    lemma_hex_digit(b@[i] as int % 16);
}

proof fn lemma_hex_digit(d: int)
    requires
        0 <= d < 16,
    ensures
        digit(d) == "0123456789abcdef"@[d],
{
    reveal_strlit("0123456789abcdef");
    let t = "0123456789abcdef"@;
    if d == 0 {
        assert(t[0] == '0');
    } else if d == 1 {
        assert(t[1] == '1');
    } else if d == 2 {
        assert(t[2] == '2');
    } else if d == 3 {
        assert(t[3] == '3');
    } else if d == 4 {
        assert(t[4] == '4');
    } else if d == 5 {
        assert(t[5] == '5');
    } else if d == 6 {
        assert(t[6] == '6');
    } else if d == 7 {
        assert(t[7] == '7');
    } else if d == 8 {
        assert(t[8] == '8');
    } else if d == 9 {
        assert(t[9] == '9');
    } else if d == 10 {
        assert(t[10] == 'a');
    } else if d == 11 {
        assert(t[11] == 'b');
    } else if d == 12 {
        assert(t[12] == 'c');
    } else if d == 13 {
        assert(t[13] == 'd');
    } else if d == 14 {
        assert(t[14] == 'e');
    } else {
        assert(t[15] == 'f');
    }
}

/// Text is told to be the same, to hold, to begin and to end with other text
/// exactly where it does.
pub proof fn law_text_is_compared(s: &str, p: &str, eq: bool, holds: bool, front: bool, back: bool)
    requires
        call_ensures(same, (s, p), eq),
        call_ensures(mentions, (s, p), holds),
        call_ensures(begins, (s, p), front),
        call_ensures(ends, (s, p), back),
    ensures
        eq <==> s@ == p@,
        holds <==> exists|i: int|
            0 <= i && i + p@.len() <= s@.len() && #[trigger] s@.subrange(i, i + p@.len()) == p@,
        front <==> p@.len() <= s@.len() && s@.subrange(0, p@.len() as int) == p@,
        back <==> p@.len() <= s@.len() && s@.subrange(s@.len() - p@.len(), s@.len() as int) == p@,
{
    if holds {
        let i = choose|i: int| crate::text::occurs_at(s@, p@, i);
        assert(s@.subrange(i, i + p@.len()) == p@);
    }
    if exists|i: int| 0 <= i && i + p@.len() <= s@.len() && #[trigger] s@.subrange(i, i + p@.len()) == p@ {
        let i = choose|i: int| 0 <= i && i + p@.len() <= s@.len() && #[trigger] s@.subrange(i, i + p@.len()) == p@;
        assert(crate::text::occurs_at(s@, p@, i));
    }
}

/// Only the letters from A to Z are changed to lower case, one for one.
pub proof fn law_letters_are_lowered(s: &str, r: String, i: int, c: char, d: char)
    requires
        0 <= i < s@.len(),
        call_ensures(to_lower, (s,), r),
        call_ensures(to_lower_char, (c,), d),
    ensures
        r@.len() == s@.len(),
        0x41 <= s@[i] as int <= 0x5a ==> r@[i] as int == s@[i] as int + 32,
        !(0x41 <= s@[i] as int <= 0x5a) ==> r@[i] == s@[i],
        0x41 <= c as int <= 0x5a ==> d as int == c as int + 32,
        !(0x41 <= c as int <= 0x5a) ==> d == c,
{
    assert(r@[i] == crate::text::lower_char(s@[i]));
}

proof fn lemma_trim_front(s: Seq<char>) -> (a: int)
    ensures
        0 <= a <= s.len(),
        trim_front(s) == s.skip(a),
        forall|k: int| 0 <= k < a ==> is_space(#[trigger] s[k]),
        a < s.len() ==> !is_space(s[a]),
    decreases s.len(),
{
    if s.len() > 0 && is_space(s[0]) {
        let b = lemma_trim_front(s.skip(1));
        assert(s.skip(1).skip(b) =~= s.skip(b + 1));
        assert forall|k: int| 0 <= k < b + 1 implies is_space(#[trigger] s[k]) by {
            if k > 0 {
                assert(s.skip(1)[k - 1] == s[k]);
            }
        }
        b + 1
    } else {
        assert(s.skip(0) =~= s);
        0
    }
}

proof fn lemma_trim_back(s: Seq<char>) -> (b: int)
    ensures
        0 <= b <= s.len(),
        trim_back(s) == s.take(b),
        forall|k: int| b <= k < s.len() ==> is_space(#[trigger] s[k]),
        b > 0 ==> !is_space(s[b - 1]),
    decreases s.len(),
{
    if s.len() > 0 && is_space(s.last()) {
        let b = lemma_trim_back(s.drop_last());
        assert(s.drop_last().take(b) =~= s.take(b));
        assert forall|k: int| b <= k < s.len() implies is_space(#[trigger] s[k]) by {
            if k < s.len() - 1 {
                assert(s.drop_last()[k] == s[k]);
            }
        }
        if b > 0 {
            assert(s.drop_last()[b - 1] == s[b - 1]);
        }
        b
    } else {
        assert(s.take(s.len() as int) =~= s);
        s.len() as int
    }
}

/// Trimmed text is what stands between the white space at the two ends, and
/// has none at its own.
pub proof fn law_text_is_trimmed(s: &str, r: String)
    requires
        call_ensures(trimmed, (s,), r),
    ensures
        exists|a: int, b: int|
            {
                &&& 0 <= a <= b <= s@.len()
                &&& #[trigger] s@.subrange(a, b) == r@
                &&& forall|k: int| 0 <= k < a ==> is_blank(#[trigger] s@[k])
                &&& forall|k: int| b <= k < s@.len() ==> is_blank(#[trigger] s@[k])
            },
        r@.len() > 0 ==> !is_blank(r@[0]) && !is_blank(r@[r@.len() - 1]),
{
    let t = s@;
    let a = lemma_trim_front(t);
    let rest = t.skip(a);
    let n = lemma_trim_back(rest);
    let b = a + n;
    assert(t.subrange(a, b) =~= rest.take(n));
    assert forall|k: int| 0 <= k < a implies is_blank(#[trigger] t[k]) by {
        assert(is_space(t[k]));
    }
    assert forall|k: int| b <= k < t.len() implies is_blank(#[trigger] t[k]) by {
        assert(is_space(rest[k - a]));
    }
    if r@.len() > 0 {
        assert(r@[0] == t[a]);
        assert(r@[r@.len() - 1] == rest[n - 1]);
    }
}

/// White space, by its code points.
pub open spec fn is_blank(c: char) -> bool {
    let n = c as u32;
    0x09 <= n <= 0x0d || n == 0x20 || n == 0x85 || n == 0xa0 || n == 0x1680 || 0x2000 <= n <= 0x200a || n == 0x2028 || n
        == 0x2029 || n == 0x202f || n == 0x205f || n == 0x3000
}

/// White space is told by its code points.
pub proof fn law_blanks_are_known(c: char, r: bool)
    requires
        call_ensures(is_white_space, (c,), r),
    ensures
        r <==> is_blank(c),
{
}

proof fn lemma_join_front(a: Seq<char>, rest: Seq<Seq<char>>, sep: Seq<char>)
    requires
        rest.len() > 0,
    ensures
        join(seq![a] + rest, sep) == a + sep + join(rest, sep),
    decreases rest.len(),
{
    let all = seq![a] + rest;
    if rest.len() == 1 {
        assert(all.drop_last() =~= seq![a]);
        assert(join(seq![a], sep) =~= a);
        assert(join(all, sep) =~= a + sep + rest[0]);
    } else {
        assert(all.drop_last() =~= seq![a] + rest.drop_last());
        lemma_join_front(a, rest.drop_last(), sep);
        assert(join(all, sep) =~= a + sep + join(rest, sep));
    }
}

proof fn lemma_split(s: Seq<char>, c: char)
    ensures
        split(s, c).len() > 0,
        join(split(s, c), seq![c]) == s,
        forall|i: int, k: int| 0 <= i < split(s, c).len() && 0 <= k < split(s, c)[i].len() ==> #[trigger] split(
            s,
            c,
        )[i][k] != c,
    decreases s.len(),
{
    lemma_index_of_char_is_first(s, c);
    let i = index_of_char(s, c);
    let all = split(s, c);
    if i < s.len() {
        let rest = split(s.skip(i + 1), c);
        lemma_split(s.skip(i + 1), c);
        lemma_join_front(s.take(i), rest, seq![c]);
        assert(s.take(i) + seq![c] + s.skip(i + 1) =~= s);
        assert forall|j: int, k: int| 0 <= j < all.len() && 0 <= k < all[j].len() implies #[trigger] all[j][k]
            != c by {
            if j > 0 {
                assert(all[j] == rest[j - 1]);
                assert(rest[j - 1][k] != c);
            } else {
                assert(all[0] == s.take(i));
                assert(s[k] != c);
            }
        }
    } else {
        assert(all =~= seq![s]);
        assert forall|j: int, k: int| 0 <= j < all.len() && 0 <= k < all[j].len() implies #[trigger] all[j][k]
            != c by {
            assert(s[k] != c);
        }
    }
}

/// Text that is split holds its separator in no part, and joined again it is
/// what it was.
pub proof fn law_split_text_joins_again(s: &str, c: char, parts: Vec<String>, sep: &str, r: String, i: int, k: int)
    requires
        call_ensures(split_at_char, (s, c), parts),
        sep@ == seq![c],
        call_ensures(joined, (&parts, sep), r),
        0 <= i < parts@.len(),
        0 <= k < parts@[i]@.len(),
    ensures
        r@ == s@,
        parts@[i]@[k] != c,
{
    lemma_split(s@, c);
    assert(texts(parts@)[i] == parts@[i]@);
    assert(split(s@, c)[i][k] != c);
}

/// Parts are joined one by one, with the separator between them.
pub proof fn law_parts_are_joined(a: &Vec<String>, b: &Vec<String>, last: String, sep: &str, x: String, y: String)
    requires
        call_ensures(joined, (a, sep), x),
        call_ensures(joined, (b, sep), y),
        b@ == a@.push(last),
    ensures
        a@.len() == 0 ==> x@.len() == 0 && y@ == last@,
        a@.len() > 0 ==> y@ == x@ + sep@ + last@,
{
    let t = texts(b@);
    assert(t.drop_last() =~= texts(a@));
    assert(t.last() == last@);
    assert(texts(a@).len() == a@.len());
    if a@.len() == 0 {
        assert(t[0] == last@);
    }
}

/// Every line has its end.
pub proof fn law_lines_have_ends(a: &Vec<String>, b: &Vec<String>, last: String, x: String, y: String)
    requires
        call_ensures(lines_string, (a,), x),
        call_ensures(lines_string, (b,), y),
        b@ == a@.push(last),
    ensures
        a@.len() == 0 ==> x@.len() == 0,
        y@ == x@ + last@ + seq!['\n'],
{
    let t = texts(b@);
    assert(t.drop_last() =~= texts(a@));
    assert(t.last() == last@);
    assert(texts(a@).len() == a@.len());
}

proof fn lemma_last(s: Seq<char>, c: char)
    ensures
        -1 <= last_index_of(s, c) < s.len(),
        last_index_of(s, c) >= 0 ==> s[last_index_of(s, c)] == c,
        forall|j: int| last_index_of(s, c) < j < s.len() ==> #[trigger] s[j] != c,
    decreases s.len(),
{
    if s.len() > 0 && s.last() != c {
        lemma_last(s.drop_last(), c);
        assert forall|j: int| last_index_of(s, c) < j < s.len() implies #[trigger] s[j] != c by {
            if j < s.len() - 1 {
                assert(s[j] == s.drop_last()[j]);
            }
        }
    }
}

/// The first and the last place of a character: it is there, and not before or
/// behind.
pub proof fn law_characters_are_found(v: &Vec<char>, c: char, first: usize, last: Option<usize>, k: int)
    requires
        0 <= k < v@.len(),
        call_ensures(char_index, (v, c), first),
        call_ensures(last_char_index, (v, c), last),
    ensures
        first <= v@.len(),
        first < v@.len() ==> v@[first as int] == c,
        k < first ==> v@[k] != c,
        last is None ==> v@[k] != c,
        last matches Some(i) ==> i < v@.len() && v@[i as int] == c && (k > i ==> v@[k] != c),
{
    lemma_index_of_char_is_first(v@, c);
    lemma_last(v@, c);
}

/// A replacement takes the place of what it replaces, from the left; all other
/// text stays.
pub proof fn law_text_is_replaced(
    s: &str,
    p: &str,
    q: &str,
    r: String,
    rest: &str,
    t: String,
)
    requires
        p@.len() > 0,
        s@.len() > 0,
        call_ensures(replace_all, (s, p, q), r),
        call_ensures(replace_all, (rest, p, q), t),
        rest@ == if p@.len() <= s@.len() && s@.subrange(0, p@.len() as int) == p@ {
            s@.skip(p@.len() as int)
        } else {
            s@.skip(1)
        },
    ensures
        p@.len() <= s@.len() && s@.subrange(0, p@.len() as int) == p@ ==> r@ == q@ + t@,
        !(p@.len() <= s@.len() && s@.subrange(0, p@.len() as int) == p@) ==> r@ == seq![s@[0]] + t@,
{
}

/// The smaller and the larger of two numbers, and numbers that are cut off,
/// divided and rounded.
pub proof fn law_numbers_are_reckoned(
    a: u64,
    b: u64,
    x: usize,
    y: usize,
    low: u64,
    high: u64,
    least: usize,
    most: usize,
    product: u64,
    down: u64,
    up_mb: u64,
    down_mb: u64,
    bps: u64,
)
    requires
        call_ensures(min_u64, (a, b), low),
        call_ensures(max_u64, (a, b), high),
        call_ensures(min_usize, (x, y), least),
        call_ensures(max_usize, (x, y), most),
        call_ensures(saturating_mul_u64, (a, b), product),
        call_ensures(align_down, (a, b), down),
        call_ensures(bytes_to_ceiling_mb, (a,), up_mb),
        call_ensures(bytes_to_floor_mb, (a,), down_mb),
        call_ensures(mbps_to_bps, (b,), bps),
    ensures
        low <= a && low <= b && (low == a || low == b),
        high >= a && high >= b && (high == a || high == b),
        least <= x && least <= y && (least == x || least == y),
        most >= x && most >= y && (most == x || most == y),
        a * b <= u64::MAX ==> product == a * b,
        a * b > u64::MAX ==> product == u64::MAX,
        b > 0 ==> down <= a && a - down < b && down as int % b as int == 0,
        b == 0 ==> down == a,
        up_mb * 1048576 >= a && a > (up_mb - 1) * 1048576,
        down_mb * 1048576 <= a && a < (down_mb + 1) * 1048576,
        b * 1000000 <= u64::MAX ==> bps == b * 125000,
{
    if b > 0 {
        vstd::arithmetic::div_mod::lemma_fundamental_div_mod(a as int, b as int);
        vstd::arithmetic::div_mod::lemma_mod_bound(a as int, b as int);
        let q = a as int / b as int;
        assert(down == b * q);
        vstd::arithmetic::div_mod::lemma_mod_multiples_basic(q, b as int);
        assert(b * q == q * b) by (nonlinear_arith);
    }
}

/// The origin of a URL is its scheme, its host and its port; the name that a
/// server's state is kept under is its origin, or the URL itself where it is
/// none.
pub proof fn law_origins_are_named(
    u: &UrlParts,
    host: &str,
    r: String,
    url: &str,
    parts: &Option<UrlParts>,
    key: String,
    origin: String,
    port: String,
    number: u64,
)
    requires
        call_ensures(format_origin, (u, host), r),
        call_ensures(origin_key_from, (url, parts), key),
        call_ensures(extract_origin_from, (parts,), origin),
        number == match u.port {
            Some(p) => p as u64,
            None => 0u64,
        },
        call_ensures(decimal_string, (number,), port),
    ensures
        u.host matches Some(h) ==> r@ == u.scheme@ + "://"@ + h@ + ":"@ + port@,
        u.host is None ==> r@ == u.scheme@ + "://"@ + host@ + ":"@ + port@,
        parts is None ==> key@ == url@ && origin@.len() == 0,
        (parts matches Some(p) && p == u && host@ == url@) ==> key@ == r@,
        (parts matches Some(p) && p.host is None) ==> origin@.len() == 0,
        (parts matches Some(p) && p == u && p.host is Some) ==> origin@ == r@,
{
}

/// The host and the port stand on the two sides of the last colon behind the
/// scheme; without one the port is that of HTTPS, as it is where it is no port.
pub proof fn law_origins_are_split(origin: &str, rest: Seq<char>, r: (String, u16), digits: &str, port: Option<u64>, i: int)
    requires
        origin@ == "https://"@ + rest,
        rest.len() == 0 || rest[0] != 'h',
        call_ensures(split_origin, (origin,), r),
        0 <= i < rest.len() ==> {
            &&& rest[i] == ':'
            &&& forall|k: int| i < k < rest.len() ==> #[trigger] rest[k] != ':'
            &&& digits@ == rest.skip(i + 1)
            &&& call_ensures(parse_up_to, (digits, 65535u64), port)
        },
    ensures
        (forall|k: int| 0 <= k < rest.len() ==> #[trigger] rest[k] != ':') ==> r.0@ == rest && r.1 == 443,
        0 <= i < rest.len() ==> r.0@ == rest.take(i) && r.1 == match port {
            Some(p) => p as int,
            None => 443int,
        },
{
    reveal_strlit("https://");
    reveal_strlit("http://");
    let a = "https://"@;
    let b = "http://"@;
    assert(a.len() == 8 && b.len() == 7);
    assert(origin@.subrange(0, 8) =~= a);
    assert(starts_with(origin@, a));
    assert(origin@.skip(8) =~= rest);
    assert(!starts_with(rest, a)) by {
        if starts_with(rest, a) {
            assert(rest.subrange(0, 8)[0] == a[0]);
        }
    }
    assert(!starts_with(rest, b)) by {
        if starts_with(rest, b) {
            assert(rest.subrange(0, 7)[0] == b[0]);
        }
    }
    assert(strip_front(rest, a) == rest);
    assert(strip_front(origin@, a) == rest);
    assert(strip_front(rest, b) == rest);
    lemma_last(rest, ':');
    if 0 <= i < rest.len() {
        assert(last_index_of(rest, ':') == i) by {
            let j = last_index_of(rest, ':');
            if j < i {
                assert(rest[i] != ':');
            }
            if i < j {
                assert(rest[j] != ':');
            }
        }
    }
}

/// A server goes by the host of its URL, or by its origin where there is none.
pub proof fn law_servers_go_by_their_host(parts: &Option<UrlParts>, origin: &str, r: String)
    requires
        call_ensures(server_name_from, (parts, origin), r),
    ensures
        (parts matches Some(u) && u.host is Some) ==> r@ == (parts->0.host->0)@,
        !(parts matches Some(u) && u.host is Some) ==> r@ == origin@,
{
}

/// What is put under a name replaces what was there, in its place; a new name
/// comes last; every other name keeps its value.
pub proof fn law_names_keep_their_place(m: &mut TextMap, name: String, value: String, i: int)
    requires
        old(m).wf(),
        0 <= i < old(m)@.len(),
        call_ensures(TextMap::insert, (m, name, value), ()),
    ensures
        old(m)@[i].0 != name@ ==> final(m)@[i] == old(m)@[i],
        old(m)@[i].0 == name@ ==> final(m)@[i] == (name@, value@) && final(m)@.len() == old(m)@.len(),
        (forall|k: int| 0 <= k < old(m)@.len() ==> (#[trigger] old(m)@[k]).0 != name@) ==> final(m)@.len() == old(m)@.len() + 1 && final(m)@[old(m)@.len() as int] == (name@, value@),
{
    let s = old(m)@;
    if exists|c: int| is_named(s, name@, c) {
        let c = choose|c: int| is_named(s, name@, c);
        if s[i].0 == name@ && c != i {
            if c < i {
                assert(s[c].0 != s[i].0);
            } else {
                assert(s[i].0 != s[c].0);
            }
        }
    } else {
        if s[i].0 == name@ {
            assert(is_named(s, name@, i)) by {
                assert forall|j: int| 0 <= j < i implies (#[trigger] s[j]).0 != name@ by {
                    assert(s[j].0 != s[i].0);
                }
            }
        }
    }
}

} // verus!
