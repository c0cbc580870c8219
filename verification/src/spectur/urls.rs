//! The URLs of what a manifest names.

use vstd::prelude::*;
use crate::text::{
    begins, chars_of, contains, ends, ends_with, last_char_index, last_index_of, mentions, owned, starts_with,
    string_between,
};
use crate::web_url::{join_url, joined_url, opt_text, opt_url, url_parts, UrlParts, UrlView};

verus! {

/// `s` is a whole URL of the web.
pub open spec fn is_absolute(s: Seq<char>) -> bool {
    starts_with(s, "http://"@) || starts_with(s, "https://"@)
}

fn names_whole_url(s: &str) -> (r: bool)
    ensures
        r == is_absolute(s@),
{
    begins(s, "http://") || begins(s, "https://")
}

/// What `uri` stands for at `base`.
pub open spec fn resolved(base: Seq<char>, uri: Seq<char>) -> Option<Seq<char>> {
    if is_absolute(uri) {
        Some(uri)
    } else {
        joined_url(base, uri)
    }
}

/// The URL that `segment_uri` stands for at `base_url`.
pub fn resolve_segment_base(base_url: &str, segment_uri: &str) -> (r: Option<String>)
    ensures
        opt_text(r) == resolved(base_url@, segment_uri@),
{
    if names_whole_url(segment_uri) {
        Some(owned(segment_uri))
    } else {
        join_url(base_url, segment_uri)
    }
}

/// What `uri` stands for at `base`; `uri` itself where the two do not join.
pub open spec fn located(base: Seq<char>, uri: Seq<char>) -> Seq<char> {
    match resolved(base, uri) {
        Some(u) => u,
        None => uri,
    }
}

pub(crate) fn locate(base: &str, uri: &str) -> (r: String)
    ensures
        r@ == located(base@, uri@),
{
    match resolve_segment_base(base, uri) {
        Some(u) => u,
        None => owned(uri),
    }
}

/// The URL up to its last slash; `url` itself where it is none.
pub open spec fn base_of(url: Seq<char>, parts: Option<UrlView>) -> Seq<char> {
    match parts {
        Some(u) => if last_index_of(u.text, '/') >= 0 {
            u.text.take(last_index_of(u.text, '/') + 1)
        } else {
            url
        },
        None => url,
    }
}

/// `extract_base_url` for a URL whose parts are known.
pub fn extract_base_url_from(url: &str, parts: &Option<UrlParts>) -> (r: String)
    ensures
        r@ == base_of(url@, opt_url(*parts)),
{
    match parts {
        Some(u) => {
            let v: Vec<char> = chars_of(u.text.as_str());
            match last_char_index(&v, '/') {
                Some(i) => {
                    let n: usize = v.len();
                    assert(i < n);
                    let r: String = string_between(&v, 0, i + 1);
                    assert(r@ =~= u.text@.take(i + 1));
                    r
                },
                None => owned(url),
            }
        },
        None => owned(url),
    }
}

/// The URL up to its last slash.
pub fn extract_base_url(url: &str) -> (r: String)
    ensures
        r@ == base_of(url@, url_parts(url@)),
{
    extract_base_url_from(url, &UrlParts::parse(url))
}

/// The URL is that of a file, not of a place that holds some.
pub open spec fn names_file(url: Seq<char>) -> bool {
    ends_with(url, ".mpd"@) || contains(url, "?"@) || contains(url.skip(last_index_of(url, '/') + 1), "."@)
}

/// Where the URLs in a manifest start from.
pub open spec fn manifest_base(url: Seq<char>) -> Seq<char> {
    if names_file(url) {
        base_of(url, url_parts(url))
    } else {
        url
    }
}

/// Where one goes from `current` by a base URL, if there is one.
pub open spec fn stepped(current: Seq<char>, step: Option<Seq<char>>) -> Seq<char> {
    match step {
        Some(rel) => if is_absolute(rel) {
            rel
        } else {
            match joined_url(current, rel) {
                Some(u) => u,
                None => current,
            }
        },
        None => current,
    }
}

/// The URL of a representation: from the manifest's own by the base URLs of
/// the manifest, the period, the adaptation set and the representation.
pub open spec fn dash_url(
    manifest: Seq<char>,
    mpd: Option<Seq<char>>,
    period: Option<Seq<char>>,
    adaptation: Option<Seq<char>>,
    representation: Option<Seq<char>>,
) -> Seq<char> {
    stepped(stepped(stepped(stepped(manifest_base(manifest), mpd), period), adaptation), representation)
}

fn step(current: String, rel: &Option<String>) -> (r: String)
    ensures
        r@ == stepped(current@, opt_text(*rel)),
{
    match rel {
        Some(s) => {
            if names_whole_url(s.as_str()) {
                owned(s.as_str())
            } else {
                match join_url(current.as_str(), s.as_str()) {
                    Some(u) => u,
                    None => current,
                }
            }
        },
        None => current,
    }
}

/// The URL of a representation.
pub fn resolve_dash_url(
    manifest_url: &str,
    mpd: &Option<String>,
    period: &Option<String>,
    adaptation: &Option<String>,
    representation: &Option<String>,
) -> (r: String)
    ensures
        r@ == dash_url(
            manifest_url@,
            opt_text(*mpd),
            opt_text(*period),
            opt_text(*adaptation),
            opt_text(*representation),
        ),
{
    let v: Vec<char> = chars_of(manifest_url);
    let n: usize = v.len();
    let after: usize = match last_char_index(&v, '/') {
        Some(i) => i + 1,
        None => 0,
    };
    let name: String = string_between(&v, after, n);
    assert(name@ =~= manifest_url@.skip(last_index_of(manifest_url@, '/') + 1));
    let start: String = if ends(manifest_url, ".mpd") || mentions(manifest_url, "?") || mentions(name.as_str(), ".") {
        extract_base_url(manifest_url)
    } else {
        owned(manifest_url)
    };
    step(step(step(step(start, mpd), period), adaptation), representation)
}

} // verus!
