//! The parts of a URL that the library reads.

use vstd::prelude::*;
use crate::numerals::{decimal, decimal_string};
use crate::text::owned;

verus! {

/// The parts of a URL.
#[derive(Debug)]
pub struct UrlParts {
    /// The whole URL, in its normal form.
    pub text: String,
    pub scheme: String,
    pub host: Option<String>,
    /// The port, or the one that the scheme stands for.
    pub port: Option<u16>,
    pub path: String,
}

/// The parts of a URL, as text.
#[verifier::ext_equal]
pub struct UrlView {
    pub text: Seq<char>,
    pub scheme: Seq<char>,
    pub host: Option<Seq<char>>,
    pub port: Option<u16>,
    pub path: Seq<char>,
}

/// The view of an optional string.
pub open spec fn opt_text(s: Option<String>) -> Option<Seq<char>> {
    match s {
        Some(t) => Some(t@),
        None => None,
    }
}

/// The view of an optional URL.
pub open spec fn opt_url(parts: Option<UrlParts>) -> Option<UrlView> {
    match parts {
        Some(u) => Some(u@),
        None => None,
    }
}

impl UrlParts {
    pub open spec fn view(&self) -> UrlView {
        UrlView {
            text: self.text@,
            scheme: self.scheme@,
            host: opt_text(self.host),
            port: self.port,
            path: self.path@,
        }
    }

    /// Reads a URL.
    pub fn parse(text: &str) -> (r: Option<UrlParts>)
        ensures
            opt_url(r) == url_parts(text@),
    {
        parse_url(text)
    }
}

/// What `url::Url::parse` makes of a text: its normal form, the scheme, the host, the port with
/// the scheme's own in its place, and the path; nothing where it fails.
pub uninterp spec fn url_parts(text: Seq<char>) -> Option<UrlView>;

/// `url::Url::parse`, and the accessors `as_str`, `scheme`, `host_str`,
/// `port_or_known_default` and `path` of its result.
#[verifier::external_body]
fn parse_url(text: &str) -> (r: Option<UrlParts>)
    ensures
        opt_url(r) == url_parts(text@),
{
    let parsed = url::Url::parse(text).ok()?;
    Some(UrlParts {
        text: parsed.as_str().to_string(),
        scheme: parsed.scheme().to_string(),
        host: parsed.host_str().map(|h| h.to_string()),
        port: parsed.port_or_known_default(),
        path: parsed.path().to_string(),
    })
}

/// What `url::Url::join` makes of a base URL and a reference; nothing where
/// the base is no URL or the two do not join.
pub uninterp spec fn joined_url(base: Seq<char>, reference: Seq<char>) -> Option<Seq<char>>;

/// `url::Url::parse` of `base`, then `join`, as text.
#[verifier::external_body]
pub(crate) fn join_url(base: &str, reference: &str) -> (r: Option<String>)
    ensures
        opt_text(r) == joined_url(base@, reference@),
{
    let parsed = url::Url::parse(base).ok()?;
    Some(parsed.join(reference).ok()?.to_string())
}

/// The origin of `u`, with `host` where it has none and zero where it has no port.
pub open spec fn origin_text(u: UrlView, host: Seq<char>) -> Seq<char> {
    u.scheme + "://"@ + (match u.host {
        Some(h) => h,
        None => host,
    }) + ":"@ + decimal(match u.port {
        Some(p) => p as nat,
        None => 0,
    })
}

/// The origin of `u` as text.
pub fn format_origin(u: &UrlParts, host: &str) -> (r: String)
    ensures
        r@ == origin_text(u@, host@),
{
    let mut r: String = owned(u.scheme.as_str());
    r.append("://");
    match &u.host {
        Some(h) => r.append(h.as_str()),
        None => r.append(host),
    }
    r.append(":");
    let port: u64 = match u.port {
        Some(p) => p as u64,
        None => 0,
    };
    let digits: String = decimal_string(port);
    r.append(digits.as_str());
    r
}

/// The name that the state of a server is kept under: its scheme, host and
/// port, or `url` itself where it is no URL.
pub open spec fn origin_key_of(url: Seq<char>, parts: Option<UrlView>) -> Seq<char> {
    match parts {
        Some(u) => origin_text(u, url),
        None => url,
    }
}

/// `origin_key` for a URL whose parts are known.
pub fn origin_key_from(url: &str, parts: &Option<UrlParts>) -> (r: String)
    ensures
        r@ == origin_key_of(url@, opt_url(*parts)),
{
    match parts {
        Some(u) => format_origin(u, url),
        None => owned(url),
    }
}

pub fn origin_key(url: &str) -> (r: String)
    ensures
        r@ == origin_key_of(url@, url_parts(url@)),
{
    origin_key_from(url, &UrlParts::parse(url))
}

/// The origin of a URL that has a host; empty where it is no such URL.
pub open spec fn origin_of(parts: Option<UrlView>) -> Seq<char> {
    match parts {
        Some(u) => if u.host is Some {
            origin_text(u, Seq::empty())
        } else {
            Seq::empty()
        },
        None => Seq::empty(),
    }
}

/// `extract_origin` for a URL whose parts are known.
pub fn extract_origin_from(parts: &Option<UrlParts>) -> (r: String)
    ensures
        r@ == origin_of(opt_url(*parts)),
{
    match parts {
        Some(u) => match &u.host {
            Some(h) => {
                let r = format_origin(u, h.as_str());
                assert(origin_text(u@, h@) == origin_text(u@, Seq::empty()));
                r
            },
            None => String::new(),
        },
        None => String::new(),
    }
}

pub fn extract_origin(url: &str) -> (r: String)
    ensures
        r@ == origin_of(url_parts(url@)),
{
    extract_origin_from(&UrlParts::parse(url))
}

} // verus!
