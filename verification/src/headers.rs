//! Request and response headers.

use vstd::prelude::*;
use vstd::utf8::encode_utf8;
use crate::cookies::{cookie_header, cookie_views, header_value};
use crate::numerals::parse_up_to;
use crate::request::{ContextView, RequestContext};
use crate::text::{
    begins, chars_of, char_index, find_from, index_of_char, is_first_at, lower, occurs_at, split, split_at_char,
    starts_with, string_between, texts, trim, trimmed,
};

verus! {

/// `http::HeaderMap`.
#[verifier::external_type_specification]
#[verifier::external_body]
#[verifier::reject_recursive_types(T)]
pub struct ExHeaderMap<T>(http::HeaderMap<T>);

/// `http::HeaderValue`.
#[verifier::external_type_specification]
#[verifier::external_body]
pub struct ExHeaderValue(http::HeaderValue);

/// The values of a header map, by name in lower case.
pub uninterp spec fn header_values(headers: http::HeaderMap) -> Map<Seq<char>, Seq<Seq<u8>>>;

/// How many names a header map takes without running out of room, however
/// they hash.
pub const HEADER_LIMIT: usize = 6553;

/// `c` may stand in a header name.
pub open spec fn is_name_char(c: char) -> bool {
    ||| '0' <= c && c <= '9'
    ||| 'a' <= c && c <= 'z'
    ||| 'A' <= c && c <= 'Z'
    ||| c == '!' || c == '#' || c == '$' || c == '%' || c == '&' || c == '\'' || c == '*' || c == '+' || c == '-'
    ||| c == '.' || c == '^' || c == '_' || c == '`' || c == '|' || c == '~'
}

/// `s` is a header name.
pub open spec fn is_header_name(s: Seq<char>) -> bool {
    0 < s.len() <= 65535 && forall|i: int| 0 <= i < s.len() ==> is_name_char(#[trigger] s[i])
}

/// `b` may stand in a header value.
pub open spec fn is_value_byte(b: u8) -> bool {
    b >= 32 && b != 127 || b == 9
}

/// `s` is a header value.
pub open spec fn is_header_value(s: Seq<char>) -> bool {
    forall|i: int| 0 <= i < encode_utf8(s).len() ==> is_value_byte(#[trigger] encode_utf8(s)[i])
}

/// The bytes `v` are visible ASCII characters and tabs.
pub open spec fn is_visible(v: Seq<u8>) -> bool {
    forall|i: int| 0 <= i < v.len() ==> (32 <= #[trigger] v[i] < 127 || v[i] == 9)
}

/// No header at all.
pub open spec fn no_headers() -> Map<Seq<char>, Seq<Seq<u8>>> {
    Map::empty()
}

/// `http::HeaderMap::new` makes an empty map.
#[verifier::external_body]
fn new_headers() -> (r: http::HeaderMap)
    ensures
        header_values(r) == no_headers(),
{
    http::HeaderMap::new()
}

/// `http::HeaderName::from_bytes` accepts the bytes of a token of at most
/// 65535 characters.
#[verifier::external_body]
pub(crate) fn valid_name(name: &str) -> (r: bool)
    ensures
        r == is_header_name(name@),
{
    http::HeaderName::from_bytes(name.as_bytes()).is_ok()
}

/// `http::HeaderValue::from_str` accepts text without control characters,
/// but for tabs.
#[verifier::external_body]
pub(crate) fn valid_value(value: &str) -> (r: bool)
    ensures
        r == is_header_value(value@),
{
    http::HeaderValue::from_str(value).is_ok()
}

/// `http::HeaderMap::insert` puts a value under a name, in place of all that
/// were there. Names are kept in lower case.
#[verifier::external_body]
fn insert_header(headers: &mut http::HeaderMap, name: &str, value: &str)
    requires
        is_header_name(name@),
        is_header_value(value@),
        header_values(*old(headers)).dom().finite(),
        header_values(*old(headers)).dom().len() < HEADER_LIMIT,
    ensures
        header_values(*final(headers)) == header_values(*old(headers)).insert(
            lower(name@),
            seq![encode_utf8(value@)],
        ),
{
    let name = http::HeaderName::from_bytes(name.as_bytes()).unwrap();
    headers.insert(name, http::HeaderValue::from_str(value).unwrap());
}

/// `http::HeaderMap::remove` takes a name out with all its values.
#[verifier::external_body]
fn remove_header(headers: &mut http::HeaderMap, name: &str)
    requires
        is_header_name(name@),
    ensures
        header_values(*final(headers)) == header_values(*old(headers)).remove(lower(name@)),
{
    headers.remove(name);
}

/// The `Clone` of `http::HeaderMap` copies the contents.
#[verifier::external_body]
fn copy_headers(headers: &http::HeaderMap) -> (r: http::HeaderMap)
    ensures
        header_values(r) == header_values(*headers),
{
    headers.clone()
}

/// `http::HeaderMap::get` finds the first value of a name, and
/// `http::HeaderValue::to_str` reads it where it is visible ASCII.
#[verifier::external_body]
pub(crate) fn header_text(headers: &http::HeaderMap, name: &str) -> (r: Option<String>)
    requires
        is_header_name(name@),
    ensures
        match r {
            Some(s) => header_values(*headers).dom().contains(lower(name@)) && is_visible(
                header_values(*headers)[lower(name@)][0],
            ) && encode_utf8(s@) == header_values(*headers)[lower(name@)][0],
            None => !header_values(*headers).dom().contains(lower(name@)) || !is_visible(
                header_values(*headers)[lower(name@)][0],
            ),
        },
{
    let value = headers.get(name)?;
    Some(value.to_str().ok()?.to_string())
}

/// `m` with `value` under `name`, where both are valid.
pub open spec fn with_header(
    m: Map<Seq<char>, Seq<Seq<u8>>>,
    name: Seq<char>,
    value: Seq<char>,
) -> Map<Seq<char>, Seq<Seq<u8>>> {
    if is_header_name(name) && is_header_value(value) {
        m.insert(lower(name), seq![encode_utf8(value)])
    } else {
        m
    }
}

pub open spec fn with_optional(
    m: Map<Seq<char>, Seq<Seq<u8>>>,
    name: Seq<char>,
    value: Option<Seq<char>>,
) -> Map<Seq<char>, Seq<Seq<u8>>> {
    match value {
        Some(v) => with_header(m, name, v),
        None => m,
    }
}

/// The first `n` of the custom headers.
pub open spec fn custom_headers(h: Seq<(Seq<char>, Seq<char>)>, n: int) -> Map<Seq<char>, Seq<Seq<u8>>>
    decreases n,
{
    if n <= 0 {
        Map::empty()
    } else {
        with_header(custom_headers(h, n - 1), h[n - 1].0, h[n - 1].1)
    }
}

/// The headers that a context adds to a request: the custom ones, then those
/// for authorization, referer, user agent and cookies in their place. What is
/// not a valid name or value is left out.
pub open spec fn context_headers(ctx: ContextView) -> Map<Seq<char>, Seq<Seq<u8>>> {
    let custom = custom_headers(ctx.headers, ctx.headers.len() as int);
    let a = with_optional(custom, "authorization"@, ctx.auth);
    let b = with_optional(a, "referer"@, ctx.referer);
    let c = with_optional(b, "user-agent"@, ctx.user_agent);
    match ctx.cookies {
        Some(cookies) => if cookies.len() > 0 {
            with_header(c, "cookie"@, header_value(cookies))
        } else {
            c
        },
        None => c,
    }
}

/// Puts a header in, where it is valid.
fn add_header(headers: &mut http::HeaderMap, name: &str, value: &str)
    requires
        header_values(*old(headers)).dom().finite(),
        header_values(*old(headers)).dom().len() < HEADER_LIMIT,
    ensures
        header_values(*final(headers)) == with_header(header_values(*old(headers)), name@, value@),
        header_values(*final(headers)).dom().finite(),
        header_values(*final(headers)).dom().len() <= header_values(*old(headers)).dom().len() + 1,
{
    if valid_name(name) && valid_value(value) {
        insert_header(headers, name, value);
    }
}

/// The headers that `ctx` adds to a request; nothing where it adds none.
pub fn build_request_headers(ctx: &RequestContext) -> (r: Option<http::HeaderMap>)
    requires
        ctx@.headers.len() + 4 <= HEADER_LIMIT,
    ensures
        match r {
            Some(h) => header_values(h) == context_headers(ctx@) && context_headers(ctx@).dom().len() > 0,
            None => context_headers(ctx@) == no_headers(),
        },
{
    let mut headers: http::HeaderMap = new_headers();
    let mut i: usize = 0;
    while i < ctx.headers.entries.len()
        invariant
            ctx@.headers.len() + 4 <= HEADER_LIMIT,
            ctx@.headers.len() == ctx.headers.entries@.len(),
            i <= ctx.headers.entries@.len(),
            header_values(headers) == custom_headers(ctx@.headers, i as int),
            header_values(headers).dom().finite(),
            header_values(headers).dom().len() <= i,
        decreases ctx.headers.entries@.len() - i,
    {
        assert(ctx@.headers[i as int] == (ctx.headers.entries@[i as int].0@, ctx.headers.entries@[i as int].1@));
        add_header(&mut headers, ctx.headers.entries[i].0.as_str(), ctx.headers.entries[i].1.as_str());
        i = i + 1;
    }
    match &ctx.auth {
        Some(v) => add_header(&mut headers, "authorization", v.as_str()),
        None => {},
    }
    match &ctx.referer {
        Some(v) => add_header(&mut headers, "referer", v.as_str()),
        None => {},
    }
    match &ctx.user_agent {
        Some(v) => add_header(&mut headers, "user-agent", v.as_str()),
        None => {},
    }
    match &ctx.cookies {
        Some(cookies) => {
            assert(cookie_views(cookies@).len() == cookies@.len());
            if cookies.len() > 0 {
                let value: String = cookie_header(cookies);
                add_header(&mut headers, "cookie", value.as_str());
            }
        },
        None => {},
    }
    if headers_empty(&headers) {
        None
    } else {
        Some(headers)
    }
}

/// `http::HeaderMap::is_empty` tells whether there is no name.
#[verifier::external_body]
fn headers_empty(headers: &http::HeaderMap) -> (r: bool)
    ensures
        header_values(*headers).dom().finite() ==> r == (header_values(*headers).dom().len() == 0),
        r ==> header_values(*headers) == no_headers(),
{
    headers.is_empty()
}

proof fn lemma_header_names()
    ensures
        is_header_name("authorization"@),
        is_header_name("cookie"@),
        is_header_name("referer"@),
        is_header_name("alt-svc"@),
        lower("authorization"@) == "authorization"@,
        lower("cookie"@) == "cookie"@,
        lower("referer"@) == "referer"@,
        lower("alt-svc"@) == "alt-svc"@,
{
    reveal_strlit("authorization");
    reveal_strlit("cookie");
    reveal_strlit("referer");
    reveal_strlit("alt-svc");
    assert(lower("authorization"@) =~= "authorization"@);
    assert(lower("cookie"@) =~= "cookie"@);
    assert(lower("referer"@) =~= "referer"@);
    assert(lower("alt-svc"@) =~= "alt-svc"@);
}

/// The headers without those for authorization, cookies and referer.
pub open spec fn without_credentials(m: Map<Seq<char>, Seq<Seq<u8>>>) -> Map<Seq<char>, Seq<Seq<u8>>> {
    m.remove("authorization"@).remove("cookie"@).remove("referer"@)
}

/// The headers that another origin may see: all but authorization, cookies
/// and referer.
pub fn strip_sensitive_headers(headers: &http::HeaderMap) -> (r: http::HeaderMap)
    ensures
        header_values(r) == without_credentials(header_values(*headers)),
{
    proof {
        lemma_header_names();
    }
    let mut safe: http::HeaderMap = copy_headers(headers);
    remove_header(&mut safe, "authorization");
    remove_header(&mut safe, "cookie");
    remove_header(&mut safe, "referer");
    safe
}

/// The port that one entry of an `Alt-Svc` value offers HTTP/3 on: `None` if
/// it does not speak of HTTP/3, else what stands between `":` and the next
/// quotation mark, where that is a port.
pub open spec fn h3_entry(token: Seq<char>) -> Option<Option<int>> {
    let mark = seq!['"', ':'];
    if starts_with(token, "h3"@) && exists|i: int| is_first_at(token, mark, 0, i) {
        let i = choose|i: int| is_first_at(token, mark, 0, i);
        let rest = token.skip(i + 2);
        if index_of_char(rest, '"') < rest.len() {
            Some(crate::numerals::parsed(rest.take(index_of_char(rest, '"')), u16::MAX as int))
        } else {
            None
        }
    } else {
        None
    }
}

/// The port of the first of the entries from `n` on that settles it.
pub open spec fn h3_port(entries: Seq<Seq<char>>, n: int) -> Option<int>
    decreases entries.len() - n,
{
    if n < 0 || n >= entries.len() {
        None
    } else {
        match h3_entry(trim(entries[n])) {
            Some(port) => port,
            None => h3_port(entries, n + 1),
        }
    }
}

fn read_h3_entry(token: &str) -> (r: Option<Option<u16>>)
    ensures
        match r {
            Some(Some(p)) => h3_entry(token@) == Some(Some(p as int)),
            Some(None) => h3_entry(token@) == Some(None::<int>),
            None => h3_entry(token@) is None,
        },
{
    let mark: Vec<char> = vec!['"', ':'];
    assert(mark@ =~= seq!['"', ':']);
    if !begins(token, "h3") {
        return None;
    }
    let v: Vec<char> = chars_of(token);
    match find_from(&v, &mark, 0) {
        Some(i) => {
            proof {
                let c = choose|c: int| is_first_at(token@, mark@, 0, c);
                assert(is_first_at(token@, mark@, 0, i as int));
                assert(c == i) by {
                    if c < i {
                        assert(!occurs_at(token@, mark@, c));
                    } else if i < c {
                        assert(!occurs_at(token@, mark@, i as int));
                    }
                }
            }
            let n: usize = v.len();
            assert(i + 2 <= n);
            let rest: String = string_between(&v, i + 2, n);
            assert(rest@ =~= token@.skip(i + 2));
            let w: Vec<char> = chars_of(rest.as_str());
            let end: usize = char_index(&w, '"');
            if end < w.len() {
                let digits: String = string_between(&w, 0, end);
                assert(digits@ =~= rest@.take(end as int));
                match parse_up_to(digits.as_str(), 65535) {
                    Some(p) => Some(Some(p as u16)),
                    None => Some(None),
                }
            } else {
                None
            }
        },
        None => None,
    }
}

/// The HTTP/3 port that an `Alt-Svc` value offers.
pub fn parse_alt_svc_value(alt_svc: &str) -> (r: Option<u16>)
    ensures
        match r {
            Some(p) => h3_port(split(alt_svc@, ','), 0) == Some(p as int),
            None => h3_port(split(alt_svc@, ','), 0) is None,
        },
{
    let entries: Vec<String> = split_at_char(alt_svc, ',');
    let ghost all = split(alt_svc@, ',');
    let mut i: usize = 0;
    while i < entries.len()
        invariant
            i <= entries@.len(),
            all == texts(entries@),
            all == split(alt_svc@, ','),
            h3_port(all, 0) == h3_port(all, i as int),
        decreases entries@.len() - i,
    {
        let token: String = trimmed(entries[i].as_str());
        assert(token@ == trim(all[i as int]));
        match read_h3_entry(token.as_str()) {
            Some(port) => {
                return port;
            },
            None => {},
        }
        i = i + 1;
    }
    None
}

/// The HTTP/3 port that a response offers by its `Alt-Svc` header.
pub fn parse_alt_svc_h3_port(headers: &http::HeaderMap) -> (r: Option<u16>)
    ensures
        ({
            let m = header_values(*headers);
            let name = "alt-svc"@;
            if m.dom().contains(name) && is_visible(m[name][0]) {
                exists|value: Seq<char>|
                    {
                        &&& #[trigger] encode_utf8(value) == m[name][0]
                        &&& match r {
                            Some(p) => h3_port(split(value, ','), 0) == Some(p as int),
                            None => h3_port(split(value, ','), 0) is None,
                        }
                    }
            } else {
                r is None
            }
        }),
{
    proof {
        lemma_header_names();
    }
    match header_text(headers, "alt-svc") {
        Some(value) => parse_alt_svc_value(value.as_str()),
        None => None,
    }
}

/// What was stripped is gone, and everything else is still there.
pub proof fn law_strip_removes_credentials(m: Map<Seq<char>, Seq<Seq<u8>>>, name: Seq<char>)
    ensures
        ({
            let s = without_credentials(m);
            if name == "authorization"@ || name == "cookie"@ || name == "referer"@ {
                !s.dom().contains(name)
            } else {
                s.dom().contains(name) == m.dom().contains(name) && (m.dom().contains(name) ==> s[name] == m[name])
            }
        }),
{
}

} // verus!
