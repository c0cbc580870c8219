//! What holds of cookie files.

use vstd::prelude::*;
use crate::cookies::{
    cookie_line, file_head, file_lines, inserted, line_imported, lines_imported, no_duplicates, same_cookie,
    strip_dots, CookieView,
};
use crate::text::{
    is_space, lacks, lemma_split_append, lemma_split_lines, lemma_split_single, lines_text, split, starts_with,
    trim, trim_back, trim_front,
};

verus! {

/// `s` holds neither a tab nor a line end.
pub open spec fn unbroken(s: Seq<char>) -> bool {
    lacks(s, '\t') && lacks(s, '\n')
}

/// `c` can be read back from the line that is written for it.
pub open spec fn writable(c: CookieView) -> bool {
    &&& unbroken(c.name)
    &&& unbroken(c.value)
    &&& unbroken(c.domain)
    &&& unbroken(c.path)
    &&& c.expires matches Some(e) ==> unbroken(e)
    &&& c.domain.len() > 0
    &&& !is_space(c.domain[0])
    &&& c.domain[0] != '.'
    &&& c.domain[0] != '#'
    &&& !starts_with(c.domain, "//"@)
    &&& c.value.len() > 0
    &&& !is_space(c.value.last())
}

/// `c` without its date of expiry, which is not read back.
pub open spec fn undated(c: CookieView) -> CookieView {
    CookieView { expires: None, ..c }
}

proof fn lemma_lacks_append(a: Seq<char>, b: Seq<char>, c: char)
    requires
        lacks(a, c),
        lacks(b, c),
    ensures
        lacks(a + b, c),
{
    assert forall|i: int| 0 <= i < (a + b).len() implies #[trigger] (a + b)[i] != c by {
        if i < a.len() {
            assert(a[i] != c);
        } else {
            assert(b[i - a.len()] != c);
        }
    }
}

proof fn lemma_cookie_line_parts(c: CookieView)
    requires
        writable(c),
    ensures
        ({
            let parts = split(cookie_line(c), '\t');
            &&& parts.len() == 7
            &&& parts[0] == c.domain
            &&& parts[2] == c.path
            &&& parts[3] == (if c.secure { "TRUE"@ } else { "FALSE"@ })
            &&& parts[5] == c.name
            &&& parts[6] == c.value
        }),
        lacks(cookie_line(c), '\n'),
{
    reveal_strlit("\tTRUE\t");
    reveal_strlit("TRUE");
    reveal_strlit("FALSE");
    reveal_strlit("\t");
    reveal_strlit("0");
    let t = seq!['\t'];
    let flag = if c.secure { "TRUE"@ } else { "FALSE"@ };
    let date = match c.expires {
        Some(e) => e,
        None => "0"@,
    };
    let l1 = c.domain;
    let l2 = l1 + t + "TRUE"@;
    let l3 = l2 + t + c.path;
    let l4 = l3 + t + flag;
    let l5 = l4 + t + date;
    let l6 = l5 + t + c.name;
    let l7 = l6 + t + c.value;
    assert(cookie_line(c) =~= l7);
    lemma_split_single(l1, '\t');
    lemma_split_single("TRUE"@, '\t');
    lemma_split_single(c.path, '\t');
    lemma_split_single(flag, '\t');
    lemma_split_single(date, '\t');
    lemma_split_single(c.name, '\t');
    lemma_split_single(c.value, '\t');
    lemma_split_append(l1, '\t', "TRUE"@);
    lemma_split_append(l2, '\t', c.path);
    lemma_split_append(l3, '\t', flag);
    lemma_split_append(l4, '\t', date);
    lemma_split_append(l5, '\t', c.name);
    lemma_split_append(l6, '\t', c.value);
    assert(split(l7, '\t') =~= seq![c.domain, "TRUE"@, c.path, flag, date, c.name, c.value]);
    assert(lacks(t, '\n'));
    lemma_lacks_append(l1, t, '\n');
    lemma_lacks_append(l1 + t, "TRUE"@, '\n');
    lemma_lacks_append(l2, t, '\n');
    lemma_lacks_append(l2 + t, c.path, '\n');
    lemma_lacks_append(l3, t, '\n');
    lemma_lacks_append(l3 + t, flag, '\n');
    lemma_lacks_append(l4, t, '\n');
    lemma_lacks_append(l4 + t, date, '\n');
    lemma_lacks_append(l5, t, '\n');
    lemma_lacks_append(l5 + t, c.name, '\n');
    lemma_lacks_append(l6, t, '\n');
    lemma_lacks_append(l6 + t, c.value, '\n');
}

/// The line that is written for a cookie reads as the cookie, without its date.
pub proof fn law_cookie_line_reads_back(jar: Seq<CookieView>, c: CookieView, default_domain: Seq<char>)
    requires
        writable(c),
    ensures
        trim(cookie_line(c)) == cookie_line(c),
        line_imported(jar, cookie_line(c), default_domain) == inserted(jar, undated(c)),
{
    lemma_cookie_line_parts(c);
    let line = cookie_line(c);
    reveal_strlit("\tTRUE\t");
    reveal_strlit("//");
    assert(line[0] == c.domain[0]);
    assert(line.last() == c.value.last());
    assert(trim_front(line) == line);
    assert(trim_back(line) == line);
    assert(!starts_with(line, "//"@)) by {
        if starts_with(line, "//"@) {
            assert(line.subrange(0, 2) == "//"@);
            assert(line[0] == line.subrange(0, 2)[0]);
            assert(line[1] == line.subrange(0, 2)[1]);
            if c.domain.len() >= 2 {
                assert(line[1] == c.domain[1]);
                assert(c.domain.subrange(0, 2) =~= "//"@);
            } else {
                assert(line[1] == '\t');
            }
        }
    }
    assert(strip_dots(c.domain) == c.domain);
    assert("TRUE"@ != "FALSE"@) by {
        reveal_strlit("TRUE");
        reveal_strlit("FALSE");
    }
    let parts = split(line, '\t');
    let read = CookieView {
        name: parts[5],
        value: parts[6],
        domain: strip_dots(parts[0]),
        path: parts[2],
        secure: parts[3] == "TRUE"@,
        expires: None,
    };
    assert(read =~= undated(c));
}

proof fn lemma_head_is_comment(jar: Seq<CookieView>, default_domain: Seq<char>)
    ensures
        forall|i: int| 0 <= i < 3 ==> lacks(#[trigger] file_head()[i], '\n'),
        forall|i: int|
            0 <= i < 3 ==> line_imported(jar, trim(#[trigger] file_head()[i]), default_domain) == jar,
{
    reveal_strlit("# Netscape HTTP Cookie File");
    reveal_strlit("# https://curl.se/rfc/cookie_spec.html");
    reveal_strlit("# This file was generated by tur-rs");
    let a = "# Netscape HTTP Cookie File"@;
    let b = "# https://curl.se/rfc/cookie_spec.html"@;
    let d = "# This file was generated by tur-rs"@;
    assert(lacks(a, '\n'));
    assert(lacks(b, '\n'));
    assert(lacks(d, '\n'));
    assert(trim(a) == a);
    assert(trim(b) == b);
    assert(trim(d) == d);
    assert(file_head()[0] == a && file_head()[1] == b && file_head()[2] == d);
    assert forall|i: int| 0 <= i < 3 implies lacks(#[trigger] file_head()[i], '\n') by {
        assert(i == 0 || i == 1 || i == 2);
    }
    assert forall|i: int| 0 <= i < 3 implies line_imported(jar, trim(#[trigger] file_head()[i]), default_domain)
        == jar by {
        assert(i == 0 || i == 1 || i == 2);
    }
}

proof fn lemma_fresh_insert(jar: Seq<CookieView>, c: CookieView)
    requires
        forall|i: int| 0 <= i < jar.len() ==> !same_cookie(#[trigger] jar[i], c),
    ensures
        inserted(jar, c) == jar.push(c),
{
    let keep = |x: CookieView| !same_cookie(x, c);
    lemma_filter_all(jar, keep);
}

proof fn lemma_filter_all(jar: Seq<CookieView>, keep: spec_fn(CookieView) -> bool)
    requires
        forall|i: int| 0 <= i < jar.len() ==> keep(#[trigger] jar[i]),
    ensures
        jar.filter(keep) == jar,
    decreases jar.len(),
{
    reveal(Seq::filter);
    if jar.len() > 0 {
        assert forall|i: int| 0 <= i < jar.drop_last().len() implies keep(#[trigger] jar.drop_last()[i]) by {
            assert(keep(jar[i]));
        }
        lemma_filter_all(jar.drop_last(), keep);
        assert(keep(jar[jar.len() - 1]));
        assert(jar.drop_last().push(jar.last()) =~= jar);
    }
}

proof fn lemma_lines_read_back(jar: Seq<CookieView>, lines: Seq<Seq<char>>, n: int, default_domain: Seq<char>)
    requires
        0 <= n <= jar.len(),
        forall|i: int| 0 <= i < jar.len() ==> writable(#[trigger] jar[i]),
        no_duplicates(jar),
        lines == file_lines(jar).push(Seq::empty()),
    ensures
        lines_imported(Seq::empty(), lines, n + 3, default_domain) == jar.take(n).map_values(
            |c: CookieView| undated(c),
        ),
    decreases n,
{
    let read = jar.take(n).map_values(|c: CookieView| undated(c));
    if n == 0 {
        let none = Seq::<CookieView>::empty();
        lemma_head_is_comment(none, default_domain);
        assert(lines[0] == file_head()[0] && lines[1] == file_head()[1] && lines[2] == file_head()[2]);
        reveal_with_fuel(lines_imported, 5);
        assert(read =~= none);
        assert(line_imported(none, trim(file_head()[0]), default_domain) == none);
        assert(line_imported(none, trim(file_head()[1]), default_domain) == none);
        assert(line_imported(none, trim(file_head()[2]), default_domain) == none);
    } else {
        lemma_lines_read_back(jar, lines, n - 1, default_domain);
        let before = jar.take(n - 1).map_values(|c: CookieView| undated(c));
        let c = jar[n - 1];
        assert(writable(c));
        assert(lines[n + 2] == cookie_line(c));
        law_cookie_line_reads_back(before, c, default_domain);
        assert forall|i: int| 0 <= i < before.len() implies !same_cookie(#[trigger] before[i], undated(c)) by {
            assert(!same_cookie(jar[i], jar[n - 1]));
        }
        lemma_fresh_insert(before, undated(c));
        assert(before.push(undated(c)) =~= read);
    }
}

/// Reading a cookie file that was written from a jar gives the jar back, in
/// order, but for the dates of expiry.
pub proof fn law_cookie_file_reads_back(jar: Seq<CookieView>, default_domain: Seq<char>)
    requires
        forall|i: int| 0 <= i < jar.len() ==> writable(#[trigger] jar[i]),
        no_duplicates(jar),
    ensures
        ({
            let lines = split(lines_text(file_lines(jar)), '\n');
            lines_imported(Seq::empty(), lines, lines.len() as int, default_domain) == jar.map_values(
                |c: CookieView| undated(c),
            )
        }),
{
    let all = file_lines(jar);
    let none = Seq::<char>::empty();
    lemma_head_is_comment(Seq::empty(), default_domain);
    assert forall|i: int| 0 <= i < all.len() implies lacks(#[trigger] all[i], '\n') by {
        if i < 3 {
            assert(all[i] == file_head()[i]);
        } else {
            assert(writable(jar[i - 3]));
            lemma_cookie_line_parts(jar[i - 3]);
            assert(all[i] == cookie_line(jar[i - 3]));
        }
    }
    lemma_split_lines(all, none);
    assert(lines_text(all) + none =~= lines_text(all));
    let lines = split(lines_text(all), '\n');
    assert(lines =~= all.push(none));
    lemma_lines_read_back(jar, lines, jar.len() as int, default_domain);
    assert(jar.take(jar.len() as int) =~= jar);
    assert(lines[lines.len() - 1] == none);
    assert(trim(none) == none);
}

} // verus!
