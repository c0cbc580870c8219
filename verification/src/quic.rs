//! Where an HTTP/3 server is.

use vstd::prelude::*;
use crate::numerals::{parse_up_to, parsed};
use crate::text::{chars_of, last_char_index, last_index_of, owned, stands_at, starts_with, string_between};
use crate::web_url::{opt_url, url_parts, UrlParts, UrlView};

verus! {

/// The port of HTTPS.
pub const HTTPS_PORT: u16 = 443;

/// `s` without the repetitions of `p` at its front.
pub open spec fn strip_front(s: Seq<char>, p: Seq<char>) -> Seq<char>
    decreases s.len(),
{
    if p.len() > 0 && starts_with(s, p) {
        strip_front(s.skip(p.len() as int), p)
    } else {
        s
    }
}

/// The host and the port of an origin: what stands on the two sides of the
/// last colon after the scheme, with the port of HTTPS where there is none.
pub open spec fn host_and_port(origin: Seq<char>) -> (Seq<char>, int) {
    let rest = strip_front(strip_front(origin, "https://"@), "http://"@);
    let i = last_index_of(rest, ':');
    if i < 0 {
        (rest, HTTPS_PORT as int)
    } else {
        (
            rest.take(i),
            match parsed(rest.skip(i + 1), u16::MAX as int) {
                Some(p) => p,
                None => HTTPS_PORT as int,
            },
        )
    }
}

fn without_front(s: &str, p: &str) -> (r: String)
    requires
        p@.len() > 0,
    ensures
        r@ == strip_front(s@, p@),
{
    let v: Vec<char> = chars_of(s);
    let w: Vec<char> = chars_of(p);
    let n: usize = v.len();
    let mut from: usize = 0;
    assert(v@.skip(0) =~= v@);
    while stands_at(&v, &w, from)
        invariant
            n == v@.len(),
            from <= n,
            w@.len() > 0,
            strip_front(v@, w@) == strip_front(v@.skip(from as int), w@),
        decreases n - from,
    {
        proof {
            let rest = v@.skip(from as int);
            assert(rest.subrange(0, w@.len() as int) =~= v@.subrange(from as int, from + w@.len()));
            assert(starts_with(rest, w@));
            assert(rest.skip(w@.len() as int) =~= v@.skip(from + w@.len()));
        }
        from = from + w.len();
    }
    proof {
        let rest = v@.skip(from as int);
        if starts_with(rest, w@) {
            assert(rest.subrange(0, w@.len() as int) =~= v@.subrange(from as int, from + w@.len()));
        }
    }
    let r = string_between(&v, from, n);
    assert(r@ =~= v@.skip(from as int));
    r
}

/// The host and the port of an origin.
pub fn split_origin(origin: &str) -> (r: (String, u16))
    ensures
        r.0@ == host_and_port(origin@).0,
        r.1 == host_and_port(origin@).1,
{
    proof {
        reveal_strlit("https://");
        reveal_strlit("http://");
    }
    let a: String = without_front(origin, "https://");
    let b: String = without_front(a.as_str(), "http://");
    let v: Vec<char> = chars_of(b.as_str());
    match last_char_index(&v, ':') {
        Some(i) => {
            let host: String = string_between(&v, 0, i);
            let digits: String = string_between(&v, i + 1, v.len());
            assert(host@ =~= v@.take(i as int));
            assert(digits@ =~= v@.skip(i + 1));
            let port: u16 = match parse_up_to(digits.as_str(), 65535) {
                Some(p) => p as u16,
                None => HTTPS_PORT,
            };
            (host, port)
        },
        None => (b, HTTPS_PORT),
    }
}

/// The name that a server is addressed by: the host of the URL, or the origin
/// where there is none.
pub open spec fn server_name_of(parts: Option<UrlView>, origin: Seq<char>) -> Seq<char> {
    match parts {
        Some(u) => match u.host {
            Some(h) => h,
            None => origin,
        },
        None => origin,
    }
}

/// `server_name` for a URL whose parts are known.
pub fn server_name_from(parts: &Option<UrlParts>, origin: &str) -> (r: String)
    ensures
        r@ == server_name_of(opt_url(*parts), origin@),
{
    match parts {
        Some(u) => match &u.host {
            Some(h) => owned(h.as_str()),
            None => owned(origin),
        },
        None => owned(origin),
    }
}

/// The name that the server of `url` is addressed by.
pub fn server_name(url: &str, origin: &str) -> (r: String)
    ensures
        r@ == server_name_of(url_parts(url@), origin@),
{
    server_name_from(&UrlParts::parse(url), origin)
}

} // verus!
