//! What holds of requests: their headers, their cookies, and the tasks that
//! they become.

use vstd::prelude::*;
use vstd::utf8::encode_utf8;
use crate::cookies::{
    cookie_header, cookie_views, header_value, request_value, split_once, with_attributes, CookieEntry, CookieJar,
    CookieView,
};
use crate::engine::types::{DownloadStatus, HttpMode, ScheduleMode};
use crate::headers::{
    build_request_headers, context_headers, custom_headers, h3_port, header_values, is_header_name, is_header_value,
    parse_alt_svc_value, strip_sensitive_headers, with_optional,
};
use crate::numerals::parse_up_to;
use crate::request::{DownloadRequest, RequestContext, SessionContext};
use crate::service::{
    build_task, file_name_of_url, law_request_cookies_win, merge_cookies, DownloadTask, DownloadUpdate, EngineEvent,
    Listeners,
};
use crate::text::{
    index_of_char, lemma_index_of_char, lemma_index_of_char_is_first, lemma_split_append, lemma_split_single, lower,
    split, starts_with, trim,
};
use crate::web_url::{opt_text, UrlParts};

verus! {

/// A cookie goes to its domain and to what is below it, to its path and to what
/// begins with it, and over HTTPS only where it is secure.
pub proof fn law_cookies_go_where_they_belong(c: &CookieEntry, u: &UrlParts, r: bool)
    requires
        call_ensures(CookieEntry::goes_to_url, (c, u), r),
        u.host is Some,
    ensures
        ({
            let h = (u.host->0)@;
            let d = c.domain@;
            let below = h.len() > d.len() && h[h.len() - d.len() - 1] == '.' && h.subrange(h.len() - d.len(), h.len() as int)
                == d;
            let path = c.path@.len() <= u.path@.len() && u.path@.subrange(0, c.path@.len() as int) == c.path@;
            r <==> (h == d || below) && path && (!c.secure || u.scheme@ == "https"@)
        }),
{
    let h = (u.host->0)@;
    let d = c.domain@;
    let dotted = seq!['.'] + d;
    let below = h.len() > d.len() && h[h.len() - d.len() - 1] == '.' && h.subrange(h.len() - d.len(), h.len() as int)
        == d;
    assert(crate::text::ends_with(h, dotted) == below) by {
        let n = h.len() - d.len() - 1;
        if below {
            assert(h.subrange(n, n + dotted.len()) =~= dotted);
        }
        if crate::text::ends_with(h, dotted) {
            let t = h.subrange(n, n + dotted.len());
            assert(t == dotted);
            assert(t[0] == '.');
            assert(h.subrange(h.len() - d.len(), h.len() as int) =~= t.skip(1));
            assert(t.skip(1) =~= d);
        }
    }
}

/// Two cookies are of one kind.
pub open spec fn of_one_kind(a: CookieView, b: CookieView) -> bool {
    a.name == b.name && a.domain == b.domain && a.path == b.path
}

proof fn lemma_filter_out(jar: Seq<CookieView>, c: CookieView, x: CookieView)
    ensures
        jar.filter(|y: CookieView| !crate::cookies::same_cookie(y, c)).contains(x) <==> jar.contains(x)
            && !of_one_kind(x, c),
    decreases jar.len(),
{
    reveal(Seq::filter);
    let keep = |y: CookieView| !crate::cookies::same_cookie(y, c);
    let after = jar.filter(keep);
    if jar.len() > 0 {
        let front = jar.drop_last();
        lemma_filter_out(front, c, x);
        let kept = front.filter(keep);
        if after.contains(x) {
            let i = choose|i: int| 0 <= i < after.len() && after[i] == x;
            if i < kept.len() {
                assert(kept[i] == x);
                let j = choose|j: int| 0 <= j < front.len() && front[j] == x;
                assert(jar[j] == x);
            } else {
                assert(jar[jar.len() - 1] == x);
            }
        }
        if jar.contains(x) && !of_one_kind(x, c) {
            let i = choose|i: int| 0 <= i < jar.len() && jar[i] == x;
            if i < front.len() {
                assert(front[i] == x);
                assert(kept.contains(x));
                let j = choose|j: int| 0 <= j < kept.len() && kept[j] == x;
                assert(after[j] == x);
            } else {
                assert(after[kept.len() as int] == x);
            }
        }
    } else {
        assert(after.len() == 0);
    }
}

/// A cookie that is put in a jar takes the place of the one of its kind; all
/// others stay.
pub proof fn law_jars_keep_one_of_a_kind(jar: &mut CookieJar, c: CookieEntry, x: CookieView)
    requires
        call_ensures(CookieJar::insert, (jar, c), ()),
    ensures
        final(jar)@.len() > 0,
        final(jar)@[final(jar)@.len() - 1] == c@,
        x != c@ ==> (final(jar)@.contains(x) <==> old(jar)@.contains(x) && !of_one_kind(x, c@)),
        final(jar)@.contains(c@),
{
    let kept = old(jar)@.filter(|y: CookieView| !crate::cookies::same_cookie(y, c@));
    let after = final(jar)@;
    lemma_filter_out(old(jar)@, c@, x);
    assert(after == kept.push(c@));
    assert(after[after.len() - 1] == c@);
    if x != c@ {
        if after.contains(x) {
            let i = choose|i: int| 0 <= i < after.len() && after[i] == x;
            assert(i < kept.len());
            assert(kept[i] == x);
        }
        if kept.contains(x) {
            let i = choose|i: int| 0 <= i < kept.len() && kept[i] == x;
            assert(after[i] == x);
        }
    }
}

proof fn lemma_matching(jar: Seq<CookieView>, u: crate::web_url::UrlView, x: CookieView)
    ensures
        crate::cookies::matching(jar, u).contains(x) <==> jar.contains(x) && crate::cookies::goes_to(x, u),
    decreases jar.len(),
{
    reveal(Seq::filter);
    let after = crate::cookies::matching(jar, u);
    if jar.len() > 0 {
        let front = jar.drop_last();
        lemma_matching(front, u, x);
        let kept = crate::cookies::matching(front, u);
        if after.contains(x) {
            let i = choose|i: int| 0 <= i < after.len() && after[i] == x;
            if i < kept.len() {
                assert(kept[i] == x);
                let j = choose|j: int| 0 <= j < front.len() && front[j] == x;
                assert(jar[j] == x);
            } else {
                assert(jar[jar.len() - 1] == x);
            }
        }
        if jar.contains(x) && crate::cookies::goes_to(x, u) {
            let i = choose|i: int| 0 <= i < jar.len() && jar[i] == x;
            if i < front.len() {
                assert(front[i] == x);
                assert(kept.contains(x));
                let j = choose|j: int| 0 <= j < kept.len() && kept[j] == x;
                assert(after[j] == x);
            } else {
                assert(after[kept.len() as int] == x);
            }
        }
    } else {
        assert(after.len() == 0);
    }
}

/// A URL gets the cookies of a jar that go to it, and no others.
pub proof fn law_urls_get_their_cookies(
    jar: &CookieJar,
    u: &UrlParts,
    r: Vec<CookieEntry>,
    c: &CookieEntry,
    goes: bool,
    value: Option<String>,
    all: String,
)
    requires
        call_ensures(CookieJar::match_url, (jar, u), r),
        call_ensures(CookieEntry::goes_to_url, (c, u), goes),
        call_ensures(CookieJar::header_value_for_url, (jar, u), value),
        call_ensures(cookie_header, (&r,), all),
    ensures
        cookie_views(r@).contains(c@) <==> cookie_views(jar.cookies@).contains(c@) && goes,
        value is Some <==> r@.len() > 0,
        value matches Some(v) ==> v@ == all@,
{
    lemma_matching(jar@, u@, c@);
    assert(cookie_views(r@).len() == r@.len());
}

/// Cookies are sent as a name and a value each, with a semicolon and a space
/// between them.
pub proof fn law_cookies_are_sent(
    c: CookieEntry,
    own: String,
    a: &Vec<CookieEntry>,
    b: &Vec<CookieEntry>,
    x: String,
    y: String,
)
    requires
        call_ensures(CookieEntry::to_request_value, (&c,), own),
        b@ == a@.push(c),
        call_ensures(cookie_header, (a,), x),
        call_ensures(cookie_header, (b,), y),
    ensures
        own@ == c.name@ + "="@ + c.value@,
        a@.len() == 0 ==> x@.len() == 0 && y@ == own@,
        a@.len() > 0 ==> y@ == x@ + "; "@ + own@,
{
    let s = cookie_views(a@).map_values(|k: CookieView| request_value(k));
    let t = cookie_views(b@).map_values(|k: CookieView| request_value(k));
    assert(t.drop_last() =~= s);
    assert(t.last() == own@);
    assert(s.len() == a@.len());
    if a@.len() == 0 {
        assert(t[0] == own@);
    }
}

/// A line of a cookie file holds the domain, the path, whether the cookie is
/// secure, when it ends, its name and its value, with tabs between.
pub proof fn law_cookie_lines_are_written(c: &CookieEntry, r: String)
    requires
        call_ensures(CookieEntry::to_cookie_line, (c,), r),
    ensures
        c.secure && c.expires is None ==> r@ == c.domain@ + "\tTRUE\t"@ + c.path@ + "\t"@ + "TRUE"@ + "\t"@ + "0"@ + "\t"@
            + c.name@ + "\t"@ + c.value@,
        !c.secure && c.expires is None ==> r@ == c.domain@ + "\tTRUE\t"@ + c.path@ + "\t"@ + "FALSE"@ + "\t"@ + "0"@
            + "\t"@ + c.name@ + "\t"@ + c.value@,
        c.secure && (c.expires matches Some(e) && true) ==> r@ == c.domain@ + "\tTRUE\t"@ + c.path@ + "\t"@ + "TRUE"@
            + "\t"@ + (c.expires->0)@ + "\t"@ + c.name@ + "\t"@ + c.value@,
{
}

/// Comments and empty lines hold no cookie; a line with seven fields holds one,
/// for the domain without its dots; a plain name and value hold one for the
/// domain at hand.
pub proof fn law_cookie_lines_are_read(line: &str, domain: &str, r: Option<CookieEntry>, pair: Option<(String, String)>)
    requires
        call_ensures(CookieEntry::from_line, (line, domain), r),
        call_ensures(split_once, (line, '='), pair),
    ensures
        line@.len() == 0 ==> r is None,
        line@.len() > 0 && line@[0] == '#' ==> r is None,
        line@.len() > 1 && line@[0] == '/' && line@[1] == '/' ==> r is None,
        ({
            let f = split(line@, '\t');
            let text = line@.len() > 0 && line@[0] != '#' && !(line@.len() > 1 && line@[0] == '/' && line@[1] == '/');
            &&& text && f.len() >= 7 ==> (r matches Some(c) && {
                &&& c.name@ == f[5]
                &&& c.value@ == f[6]
                &&& c.path@ == f[2]
                &&& c.secure <==> f[3] == "TRUE"@
                &&& c.expires is None
                &&& c.domain@.len() <= f[0].len()
                &&& c.domain@ == f[0].skip(f[0].len() - c.domain@.len())
                &&& c.domain@.len() > 0 ==> c.domain@[0] != '.'
                &&& f[0].len() > 0 && f[0][0] != '.' ==> c.domain@ == f[0]
            })
            &&& text && f.len() < 7 && pair is None ==> r is None
        }),
{
    reveal_strlit("//");
    let t = line@;
    if t.len() > 1 {
        assert(t.subrange(0, 2)[0] == t[0] && t.subrange(0, 2)[1] == t[1]);
        if t[0] == '/' && t[1] == '/' {
            assert(t.subrange(0, 2) =~= "//"@);
            assert(starts_with(t, "//"@));
        }
    }
    let text = t.len() > 0 && t[0] != '#' && !(t.len() > 1 && t[0] == '/' && t[1] == '/');
    if text {
        assert(!starts_with(t, "//"@)) by {
            if starts_with(t, "//"@) {
                assert(t.subrange(0, 2)[0] == '/');
                assert(t.subrange(0, 2)[1] == '/');
            }
        }
        let f = split(t, '\t');
        if f.len() >= 7 {
            lemma_dots(f[0]);
        }
    }
}

proof fn lemma_dots(s: Seq<char>)
    ensures
        ({
            let d = crate::cookies::strip_dots(s);
            &&& d.len() <= s.len()
            &&& d == s.skip(s.len() - d.len())
            &&& d.len() > 0 ==> d[0] != '.'
            &&& s.len() > 0 && s[0] != '.' ==> d == s
        }),
    decreases s.len(),
{
    let d = crate::cookies::strip_dots(s);
    if s.len() > 0 && s[0] == '.' {
        lemma_dots(s.skip(1));
        assert(s.skip(1).skip(s.len() - 1 - d.len()) =~= s.skip(s.len() - d.len()));
    } else {
        assert(s.skip(0) =~= s);
    }
}

/// A text is split at the first of its separators.
pub proof fn law_pairs_are_split(s: &str, c: char, r: Option<(String, String)>, k: int)
    requires
        0 <= k < s@.len(),
        call_ensures(split_once, (s, c), r),
    ensures
        r is None ==> s@[k] != c,
        r matches Some(p) ==> s@ == p.0@ + seq![c] + p.1@ && (k < p.0@.len() ==> p.0@[k] != c),
{
    lemma_index_of_char_is_first(s@, c);
    if let Some(p) = r {
        let i = index_of_char(s@, c);
        assert(p.0@ + seq![c] + p.1@ =~= s@);
    }
}

proof fn lemma_prefix_attributes(c: CookieView, a: Seq<Seq<char>>, b: Seq<Seq<char>>, n: int)
    requires
        0 <= n <= a.len(),
        a.len() <= b.len(),
        forall|i: int| 0 <= i < a.len() ==> a[i] == b[i],
    ensures
        with_attributes(c, a, n) == with_attributes(c, b, n),
    decreases n,
{
    if n > 1 {
        lemma_prefix_attributes(c, a, b, n - 1);
    }
}

/// A cookie without attributes belongs to its host, to every path, and is not
/// secure.
pub proof fn law_set_cookies_begin_plain(header: &str, u: &UrlParts, r: Option<CookieEntry>, pair: Option<(String, String)>)
    requires
        forall|k: int| 0 <= k < header@.len() ==> #[trigger] header@[k] != ';',
        call_ensures(CookieEntry::from_set_cookie, (header, u), r),
        call_ensures(split_once, (header, '='), pair),
    ensures
        r is Some <==> u.host is Some && pair is Some,
        r matches Some(c) ==> {
            &&& c.name@ == trim((pair->0).0@)
            &&& c.value@ == trim((pair->0).1@)
            &&& c.domain@ == (u.host->0)@
            &&& c.path@ == seq!['/']
            &&& !c.secure
            &&& c.expires is None
        },
{
    lemma_split_single(header@, ';');
}

/// Each attribute says one thing more of a cookie; unknown ones say nothing.
pub proof fn law_attributes_add_up(
    header: &str,
    more: &str,
    attribute: Seq<char>,
    u: &UrlParts,
    a: Option<CookieEntry>,
    b: Option<CookieEntry>,
)
    requires
        more@ == header@ + seq![';'] + attribute,
        forall|k: int| 0 <= k < attribute.len() ==> #[trigger] attribute[k] != ';',
        call_ensures(CookieEntry::from_set_cookie, (header, u), a),
        call_ensures(CookieEntry::from_set_cookie, (more, u), b),
    ensures
        a is Some <==> b is Some,
        a matches Some(x) ==> {
            let y = b->0;
            let t = trim(attribute);
            let i = index_of_char(t, '=');
            let key = lower(trim(t.take(i)));
            let value = trim(t.skip(i + 1));
            &&& y.name@ == x.name@
            &&& y.value@ == x.value@
            &&& i == t.len() && lower(t) == "secure"@ ==> y.secure
            &&& !(i == t.len() && lower(t) == "secure"@) ==> y.secure == x.secure
            &&& i < t.len() && key == "path"@ ==> y.path@ == value
            &&& !(i < t.len() && key == "path"@) ==> y.path@ == x.path@
            &&& i < t.len() && key == "expires"@ ==> opt_text(y.expires) == Some(value)
            &&& !(i < t.len() && key == "expires"@) ==> opt_text(y.expires) == opt_text(x.expires)
            &&& i < t.len() && key == "domain"@ && value.len() > 0 && value[0] != '.' ==> y.domain@ == value
            &&& i < t.len() && key == "domain"@ ==> (y.domain@.len() > 0 ==> y.domain@[0] != '.')
            &&& !(i < t.len() && key == "domain"@) ==> y.domain@ == x.domain@
        },
{
    let p = split(header@, ';');
    let q = split(more@, ';');
    lemma_split_append(header@, ';', attribute);
    lemma_split_single(attribute, ';');
    assert(q =~= p.push(attribute));
    assert(p.len() > 0);
    assert(q[0] == p[0]);
    lemma_index_of_char_is_first(trim(attribute), '=');
    lemma_attribute_names();
    if let Some(x) = a {
        let c = crate::cookies::plain_cookie(
            trim(crate::cookies::before_char(p[0], '=')),
            trim(crate::cookies::after_char(p[0], '=')),
            (u.host->0)@,
        );
        lemma_prefix_attributes(c, p, q, p.len() as int);
        let t = trim(attribute);
        assert(q[q.len() - 1] == attribute);
        assert(with_attributes(c, q, q.len() as int) == crate::cookies::with_attribute(
            with_attributes(c, q, q.len() - 1),
            t,
        ));
        lemma_attributes_keep(c, q, q.len() as int);
        lemma_attributes_keep(c, p, p.len() as int);
        lemma_dots(trim(crate::cookies::after_char(t, '=')));
    }
}

proof fn lemma_attribute_names()
    ensures
        "domain"@ != "path"@,
        "domain"@ != "expires"@,
        "path"@ != "expires"@,
{
    reveal_strlit("domain");
    reveal_strlit("path");
    reveal_strlit("expires");
    assert("domain"@.len() == 6);
    assert("path"@.len() == 4);
    assert("expires"@.len() == 7);
}

proof fn lemma_attributes_keep(c: CookieView, parts: Seq<Seq<char>>, n: int)
    ensures
        with_attributes(c, parts, n).name == c.name,
        with_attributes(c, parts, n).value == c.value,
    decreases n,
{
    if n > 1 {
        lemma_attributes_keep(c, parts, n - 1);
    }
}

/// What a request has for authorization, referer and user agent stands in the
/// headers under its own name; the credentials are what another origin does
/// not get to see.
pub proof fn law_headers_carry_the_context(
    ctx: &RequestContext,
    r: Option<http::HeaderMap>,
    headers: &http::HeaderMap,
    safe: http::HeaderMap,
    name: Seq<char>,
    value: String,
)
    requires
        call_ensures(build_request_headers, (ctx,), r),
        call_ensures(strip_sensitive_headers, (headers,), safe),
        ctx.cookies matches Some(c) ==> call_ensures(cookie_header, (&c,), value),
    ensures
        (ctx.auth matches Some(v) && is_header_value(v@)) ==> (r matches Some(h) && header_values(h).dom().contains(
            "authorization"@,
        ) && header_values(h)["authorization"@] == seq![encode_utf8((ctx.auth->0)@)]),
        (ctx.referer matches Some(v) && is_header_value(v@)) ==> (r matches Some(h) && header_values(h).dom().contains(
            "referer"@,
        ) && header_values(h)["referer"@] == seq![encode_utf8((ctx.referer->0)@)]),
        (ctx.user_agent matches Some(v) && is_header_value(v@)) ==> (r matches Some(h)
            && header_values(h).dom().contains("user-agent"@) && header_values(h)["user-agent"@] == seq![
            encode_utf8((ctx.user_agent->0)@),
        ]),
        (ctx.cookies matches Some(c) && c@.len() > 0 && is_header_value(value@)) ==> (r matches Some(h)
            && header_values(h).dom().contains("cookie"@) && header_values(h)["cookie"@] == seq![encode_utf8(value@)]),
        ctx.auth is None && ctx.referer is None && ctx.user_agent is None && ctx.cookies is None
            && ctx.headers.entries@.len() == 0 ==> r is None,
        !header_values(safe).dom().contains("authorization"@),
        !header_values(safe).dom().contains("cookie"@),
        !header_values(safe).dom().contains("referer"@),
        name != "authorization"@ && name != "cookie"@ && name != "referer"@ ==> header_values(safe).dom().contains(name)
            == header_values(*headers).dom().contains(name) && (header_values(*headers).dom().contains(name)
            ==> header_values(safe)[name] == header_values(*headers)[name]),
{
    reveal_strlit("authorization");
    reveal_strlit("cookie");
    reveal_strlit("referer");
    reveal_strlit("user-agent");
    assert("authorization"@.len() == 13);
    assert("cookie"@.len() == 6);
    assert("referer"@.len() == 7);
    assert("user-agent"@.len() == 10);
    assert(lower("authorization"@) =~= "authorization"@);
    assert(lower("cookie"@) =~= "cookie"@);
    assert(lower("referer"@) =~= "referer"@);
    assert(lower("user-agent"@) =~= "user-agent"@);
    assert(is_header_name("authorization"@));
    assert(is_header_name("cookie"@));
    assert(is_header_name("referer"@));
    assert(is_header_name("user-agent"@));
    if let Some(c) = ctx.cookies {
        assert(cookie_views(c@).len() == c@.len());
    }
    let custom = custom_headers(ctx@.headers, ctx@.headers.len() as int);
    let a = with_optional(custom, "authorization"@, ctx@.auth);
    let b = with_optional(a, "referer"@, ctx@.referer);
    let c = with_optional(b, "user-agent"@, ctx@.user_agent);
    let all = context_headers(ctx@);
    assert(ctx@.auth == opt_text(ctx.auth));
    assert(ctx@.referer == opt_text(ctx.referer));
    if ctx.auth is Some && is_header_value((ctx.auth->0)@) {
        assert(a.dom().contains("authorization"@));
        assert(b.dom().contains("authorization"@) && b["authorization"@] == a["authorization"@]);
        assert(c.dom().contains("authorization"@) && c["authorization"@] == a["authorization"@]);
        assert(all.dom().contains("authorization"@) && all["authorization"@] == a["authorization"@]);
    }
    if ctx.referer is Some && is_header_value((ctx.referer->0)@) {
        assert(b.dom().contains("referer"@));
        assert(c.dom().contains("referer"@) && c["referer"@] == b["referer"@]);
        assert(all.dom().contains("referer"@) && all["referer"@] == b["referer"@]);
    }
    assert(ctx@.user_agent == opt_text(ctx.user_agent));
    if ctx.user_agent is Some && is_header_value((ctx.user_agent->0)@) {
        assert(c.dom().contains("user-agent"@));
        assert(all.dom().contains("user-agent"@) && all["user-agent"@] == c["user-agent"@]);
    }
    if ctx.cookies is Some && (ctx.cookies->0)@.len() > 0 && is_header_value(value@) {
        let own = cookie_views((ctx.cookies->0)@);
        assert(ctx@.cookies == Some(own));
        assert(own.len() > 0);
        assert(header_value(own) == value@);
        assert(all.dom().contains("cookie"@));
    }
    if ctx.headers.entries@.len() == 0 {
        assert(ctx@.headers.len() == 0);
        assert(custom_headers(ctx@.headers, 0) =~= Map::empty());
    }
}

/// An offer of HTTP/3 is read between the colon behind the first quotation mark
/// and the next quotation mark; an entry that does not begin with it is passed
/// over.
pub proof fn law_offers_are_read(
    value: &str,
    x: Seq<char>,
    d: &str,
    y: Seq<char>,
    r: Option<u16>,
    port: Option<u64>,
)
    requires
        call_ensures(parse_alt_svc_value, (value,), r),
        forall|k: int| 0 <= k < value@.len() ==> #[trigger] value@[k] != ',',
        trim(value@) == x + seq!['"', ':'] + d@ + seq!['"'] + y,
        forall|k: int| 0 <= k < x.len() ==> #[trigger] x[k] != '"',
        forall|k: int| 0 <= k < d@.len() ==> #[trigger] d@[k] != '"',
        call_ensures(parse_up_to, (d, 65535u64), port),
    ensures
        x.len() >= 2 && x[0] == 'h' && x[1] == '3' ==> (match port {
            Some(p) => r == Some(p as u16),
            None => r is None,
        }),
        x.len() >= 2 && !(x[0] == 'h' && x[1] == '3') ==> r is None,
{
    reveal_strlit("h3");
    let t = trim(value@);
    lemma_split_single(value@, ',');
    let all = split(value@, ',');
    assert(all =~= seq![value@]);
    let mark = seq!['"', ':'];
    let n = x.len() as int;
    assert(t.subrange(n, n + 2) =~= mark);
    assert(crate::text::occurs_at(t, mark, n));
    assert forall|k: int| 0 <= k < n implies !#[trigger] crate::text::occurs_at(t, mark, k) by {
        if crate::text::occurs_at(t, mark, k) {
            assert(t.subrange(k, k + 2)[0] == '"');
            assert(t[k] == x[k]);
        }
    }
    assert(crate::text::is_first_at(t, mark, 0, n));
    assert forall|i: int| crate::text::is_first_at(t, mark, 0, i) implies i == n by {
        if i < n {
            assert(!crate::text::occurs_at(t, mark, i));
        }
        if n < i {
            assert(!crate::text::occurs_at(t, mark, n));
        }
    }
    let rest = t.skip(n + 2);
    assert(rest =~= d@ + seq!['"'] + y);
    assert forall|k: int| 0 <= k < d@.len() implies #[trigger] rest[k] != '"' by {
        assert(rest[k] == d@[k]);
    }
    lemma_index_of_char(rest, '"', d@.len() as int);
    assert(rest.take(d@.len() as int) =~= d@);
    if x.len() >= 2 {
        assert(t.subrange(0, 2)[0] == x[0] && t.subrange(0, 2)[1] == x[1]);
        if x[0] == 'h' && x[1] == '3' {
            assert(t.subrange(0, 2) =~= "h3"@);
            assert(starts_with(t, "h3"@));
        } else {
            assert(!starts_with(t, "h3"@));
        }
    }
    assert(h3_port(all, 1) is None);
}

/// The name of a file is what follows the last slash of its URL.
pub proof fn law_files_are_named_by_their_url(url: &str, r: String, k: int)
    requires
        call_ensures(file_name_of_url, (url,), r),
        0 <= k < r@.len(),
    ensures
        r@[k] != '/',
        r@.len() <= url@.len(),
        url@.skip(url@.len() - r@.len()) == r@,
        r@.len() < url@.len() ==> url@[url@.len() - r@.len() - 1] == '/',
{
    lemma_file_name(url@, k);
}

proof fn lemma_file_name(s: Seq<char>, k: int)
    ensures
        split(s, '/').len() > 0,
        ({
            let r = split(s, '/').last();
            &&& r.len() <= s.len()
            &&& s.skip(s.len() - r.len()) == r
            &&& r.len() < s.len() ==> s[s.len() - r.len() - 1] == '/'
            &&& 0 <= k < r.len() ==> r[k] != '/'
        }),
    decreases s.len(),
{
    lemma_index_of_char_is_first(s, '/');
    let i = index_of_char(s, '/');
    let r = split(s, '/').last();
    if i < s.len() {
        let rest = s.skip(i + 1);
        lemma_file_name(rest, k);
        assert(r == split(rest, '/').last());
        assert(rest.skip(rest.len() - r.len()) =~= s.skip(s.len() - r.len()));
        if r.len() < rest.len() {
            assert(s[s.len() - r.len() - 1] == rest[rest.len() - r.len() - 1]);
        }
    } else {
        assert(r == s);
        assert(s.skip(0) =~= s);
        if 0 <= k < r.len() {
            assert(s[k] != '/');
        }
    }
}

/// The cookies that a request brings come first and unchanged; of the others
/// none is lost but those of a kind that is there.
pub proof fn law_own_cookies_come_first(
    own: Vec<CookieEntry>,
    extra: Vec<CookieEntry>,
    r: Vec<CookieEntry>,
    i: int,
    j: int,
)
    requires
        call_ensures(merge_cookies, (own, extra), r),
        0 <= i < own@.len(),
        0 <= j < extra@.len(),
    ensures
        r@.len() >= own@.len(),
        r@[i]@ == own@[i]@,
        exists|k: int| 0 <= k < r@.len() && of_one_kind((#[trigger] r@[k])@, extra@[j]@),
        r@.len() <= own@.len() + extra@.len(),
        forall|k: int| own@.len() <= k < r@.len() ==> !of_one_kind(own@[i]@, (#[trigger] r@[k])@),
{
    let a = cookie_views(own@);
    let b = cookie_views(extra@);
    let n = b.len() as int;
    law_request_cookies_win(a, b, n);
    let m = crate::service::merged(a, b, n);
    assert(m == cookie_views(r@));
    assert(m.len() == r@.len());
    assert(m[i] == a[i]);
    assert(crate::service::shadowed(m, b[j]));
    let k = choose|k: int| 0 <= k < m.len() && crate::cookies::same_cookie(#[trigger] m[k], b[j]);
    assert(m[k] == r@[k]@);
    assert(of_one_kind(r@[k]@, extra@[j]@));
    lemma_merged_len(a, b, n);
    lemma_merged_apart(a, b, n, i);
    assert forall|k: int| own@.len() <= k < r@.len() implies !of_one_kind(own@[i]@, (#[trigger] r@[k])@) by {
        assert(m[k] == r@[k]@);
        assert(a[i] == own@[i]@);
    }
}

proof fn lemma_merged_apart(a: Seq<CookieView>, b: Seq<CookieView>, n: int, i: int)
    requires
        0 <= n <= b.len(),
        0 <= i < a.len(),
    ensures
        a.len() <= crate::service::merged(a, b, n).len(),
        crate::service::merged(a, b, n)[i] == a[i],
        forall|k: int|
            a.len() <= k < crate::service::merged(a, b, n).len() ==> !of_one_kind(
                a[i],
                #[trigger] crate::service::merged(a, b, n)[k],
            ),
    decreases n,
{
    if n > 0 {
        lemma_merged_apart(a, b, n - 1, i);
        let before = crate::service::merged(a, b, n - 1);
        if !crate::service::shadowed(before, b[n - 1]) {
            assert(!crate::cookies::same_cookie(before[i], b[n - 1]));
        }
    }
}

proof fn lemma_merged_len(a: Seq<CookieView>, b: Seq<CookieView>, n: int)
    requires
        0 <= n <= b.len(),
    ensures
        crate::service::merged(a, b, n).len() <= a.len() + n,
    decreases n,
{
    if n > 0 {
        lemma_merged_len(a, b, n - 1);
    }
}

/// A task is what was asked for; what was left open takes its default, and it
/// begins with nothing.
pub proof fn law_tasks_follow_requests(
    request: DownloadRequest,
    id: u128,
    n: usize,
    jar: &mut CookieJar,
    parts: &Option<UrlParts>,
    task: DownloadTask,
    url: &str,
    name: String,
)
    requires
        call_ensures(build_task, (request, id, n, jar, parts), task),
        url@ == request.url@,
        call_ensures(file_name_of_url, (url,), name),
    ensures
        task.id == id,
        task.url@ == request.url@,
        task.dir@ == request.dir@,
        task.total_size == 0 && task.downloaded_size == 0,
        task.status == DownloadStatus::Queued,
        request.filename matches Some(f) ==> task.filename@ == f@,
        request.filename is None ==> task.filename@ == name@,
        request.connections matches Some(c) ==> task.connections == c,
        request.connections is None ==> task.connections == n,
        request.min_connections matches Some(c) ==> task.min_connections == c,
        request.min_connections is None ==> task.min_connections == 1,
        request.max_connections matches Some(c) ==> task.max_connections == c,
        request.max_connections is None ==> task.max_connections == 16,
        request.borrow_limit_mb matches Some(c) ==> task.borrow_limit_mb == c,
        request.borrow_limit_mb is None ==> task.borrow_limit_mb == 2,
        request.per_download_bandwidth_limit_bps matches Some(c) ==> task.per_download_bandwidth_limit_bps == c,
        request.per_download_bandwidth_limit_bps is None ==> task.per_download_bandwidth_limit_bps == 0,
        request.schedule_mode matches Some(c) ==> task.schedule_mode == c,
        request.schedule_mode is None ==> task.schedule_mode == ScheduleMode::Equal,
        request.http_mode matches Some(c) ==> task.http_mode == c,
        request.http_mode is None ==> task.http_mode == HttpMode::Auto,
        task.dry_run == request.dry_run,
        task.dry_run_size_mb == request.dry_run_size_mb,
        task.log_root is None,
        parts is None && request.request_context is None ==> task.request_context is None,
        (request.request_context matches Some(c) && true) ==> (task.request_context matches Some(d) && opt_text(d.auth)
            == opt_text((request.request_context->0).auth) && opt_text(d.referer) == opt_text(
            (request.request_context->0).referer,
        ) && opt_text(d.user_agent) == opt_text((request.request_context->0).user_agent) && d.headers@
            == (request.request_context->0).headers@),
{
    let t = task@;
    assert(t.context == match task.request_context {
        Some(c) => Some(c@),
        None => None,
    });
}

/// A listener hears of its own download until it is over, and of no other.
pub proof fn law_listeners_hear_their_own(l: &mut Listeners, event: EngineEvent, r: (u128, Option<DownloadUpdate>, bool), other: u128)
    requires
        call_ensures(Listeners::route, (l, event), r),
    ensures
        ({
            let id = match event {
                EngineEvent::Progress { id, .. } => id,
                EngineEvent::StatusChanged { id, .. } => id,
                EngineEvent::TotalSize { id, .. } => id,
                EngineEvent::Workers { id, .. } => id,
                EngineEvent::Protocol { id, .. } => id,
            };
            let over = event matches EngineEvent::StatusChanged { status, .. } && (status is Completed || status is Error);
            &&& r.0 == id
            &&& r.1 is Some <==> old(l)@.contains(id)
            &&& r.2 <==> over
            &&& over ==> !final(l)@.contains(id)
            &&& !over ==> (final(l)@.contains(id) <==> old(l)@.contains(id))
            &&& other != id ==> (final(l)@.contains(other) <==> old(l)@.contains(other))
            &&& r.1 matches Some(DownloadUpdate::TotalSize(size)) ==> (event matches EngineEvent::TotalSize { size: s, .. }
                && s == size)
            &&& r.1 matches Some(DownloadUpdate::StatusChanged(status)) ==> (event matches EngineEvent::StatusChanged {
                status: s,
                ..
            } && s == status)
            &&& r.1 matches Some(DownloadUpdate::Progress { downloaded_bytes, speed_bits }) ==> (event matches EngineEvent::Progress {
                downloaded,
                speed_bits: b,
                ..
            } && downloaded == downloaded_bytes && b == speed_bits)
        }),
{
}

/// What is set of a request is set, and nothing else.
pub proof fn law_requests_hold_what_is_set(
    q: DownloadRequest,
    n: usize,
    mb: u64,
    h: HttpMode,
    s: ScheduleMode,
    dry: bool,
    text: &str,
    a: DownloadRequest,
    b: DownloadRequest,
    c: DownloadRequest,
    d: DownloadRequest,
    e: DownloadRequest,
    f: DownloadRequest,
    g: DownloadRequest,
    i: DownloadRequest,
    j: DownloadRequest,
    k: DownloadRequest,
    l: DownloadRequest,
)
    requires
        call_ensures(DownloadRequest::connections, (q, n), a),
        call_ensures(DownloadRequest::min_connections, (q, n), b),
        call_ensures(DownloadRequest::max_connections, (q, n), c),
        call_ensures(DownloadRequest::borrow_limit_mb, (q, mb), d),
        call_ensures(DownloadRequest::per_download_bandwidth_limit_bps, (q, mb), e),
        call_ensures(DownloadRequest::http_mode, (q, h), f),
        call_ensures(DownloadRequest::schedule_mode, (q, s), g),
        call_ensures(DownloadRequest::dry_run, (q, dry), i),
        call_ensures(DownloadRequest::dry_run_size_mb, (q, mb), j),
        call_ensures(DownloadRequest::filename, (q, text), k),
        call_ensures(DownloadRequest::dir, (q, text), l),
    ensures
        a.connections == Some(n) && a.min_connections == q.min_connections && a.max_connections == q.max_connections
            && a.url@ == q.url@,
        b.min_connections == Some(n) && b.connections == q.connections && b.max_connections == q.max_connections
            && b.url@ == q.url@,
        c.max_connections == Some(n) && c.connections == q.connections && c.min_connections == q.min_connections
            && c.url@ == q.url@,
        d.borrow_limit_mb == Some(mb) && d.per_download_bandwidth_limit_bps == q.per_download_bandwidth_limit_bps
            && d.dry_run_size_mb == q.dry_run_size_mb && d.url@ == q.url@,
        e.per_download_bandwidth_limit_bps == Some(mb) && e.borrow_limit_mb == q.borrow_limit_mb && e.dry_run_size_mb
            == q.dry_run_size_mb && e.url@ == q.url@,
        f.http_mode == Some(h) && f.schedule_mode == q.schedule_mode && f.url@ == q.url@,
        g.schedule_mode == Some(s) && g.http_mode == q.http_mode && g.url@ == q.url@,
        i.dry_run == dry && i.dry_run_size_mb == q.dry_run_size_mb && i.url@ == q.url@,
        j.dry_run_size_mb == Some(mb) && j.dry_run == q.dry_run && j.borrow_limit_mb == q.borrow_limit_mb && j.url@
            == q.url@,
        opt_text(k.filename) == Some(text@) && k.dir@ == q.dir@ && k.url@ == q.url@,
        l.dir@ == text@ && opt_text(l.filename) == opt_text(q.filename) && l.url@ == q.url@,
{
    assert(a@.connections == a.connections);
    assert(b@.connections == b.connections);
    assert(c@.connections == c.connections);
    assert(d@.url == d.url@);
    assert(e@.url == e.url@);
    assert(f@.url == f.url@);
    assert(g@.url == g.url@);
    assert(i@.url == i.url@);
    assert(j@.url == j.url@);
    assert(k@.url == k.url@);
    assert(l@.url == l.url@);
}

/// What is set of a context is set, and nothing else; a token is borne as such.
pub proof fn law_contexts_hold_what_is_set(
    q: RequestContext,
    text: &str,
    a: RequestContext,
    b: RequestContext,
    c: RequestContext,
    request: DownloadRequest,
    t: DownloadRequest,
    u: DownloadRequest,
    session: &SessionContext,
    x: RequestContext,
)
    requires
        call_ensures(RequestContext::auth, (q, text), a),
        call_ensures(RequestContext::referer, (q, text), b),
        call_ensures(RequestContext::user_agent, (q, text), c),
        call_ensures(DownloadRequest::bearer_token, (request, text), t),
        call_ensures(DownloadRequest::referer, (request, text), u),
        call_ensures(SessionContext::to_request_context, (session,), x),
    ensures
        opt_text(a.auth) == Some(text@) && opt_text(a.referer) == opt_text(q.referer) && opt_text(a.user_agent) == opt_text(
            q.user_agent,
        ) && a.headers@ == q.headers@,
        opt_text(b.referer) == Some(text@) && opt_text(b.auth) == opt_text(q.auth) && opt_text(b.user_agent) == opt_text(
            q.user_agent,
        ) && b.headers@ == q.headers@,
        opt_text(c.user_agent) == Some(text@) && opt_text(c.auth) == opt_text(q.auth) && opt_text(c.referer) == opt_text(
            q.referer,
        ) && c.headers@ == q.headers@,
        t.request_context matches Some(z) && opt_text(z.auth) == Some("Bearer "@ + text@),
        u.request_context matches Some(z) && opt_text(z.referer) == Some(text@),
        t.url@ == request.url@ && t.connections == request.connections,
        (request.request_context matches Some(z) && true) ==> opt_text((t.request_context->0).referer) == opt_text(
            (request.request_context->0).referer,
        ) && opt_text((u.request_context->0).auth) == opt_text((request.request_context->0).auth),
        opt_text(x.auth) == opt_text(session.auth),
        opt_text(x.referer) == opt_text(session.referer),
        opt_text(x.user_agent) == opt_text(session.user_agent),
        x.headers@ == session.headers@,
        session.cookies@.len() == 0 ==> x.cookies is None,
        session.cookies@.len() > 0 ==> (x.cookies matches Some(v) && cookie_views(v@) == cookie_views(session.cookies@)),
{
    assert(a@.auth == opt_text(a.auth));
    assert(b@.auth == opt_text(b.auth));
    assert(c@.auth == opt_text(c.auth));
    assert(x@.auth == opt_text(x.auth));
    assert(t@.context == crate::request::opt_context(t.request_context));
    assert(u@.context == crate::request::opt_context(u.request_context));
    assert(cookie_views(session.cookies@).len() == session.cookies@.len());
}

} // verus!
