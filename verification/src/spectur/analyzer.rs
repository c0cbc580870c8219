//! How a stream is looked at.

use vstd::prelude::*;
use crate::headers::{is_header_name, is_header_value, valid_name, valid_value};
use crate::numerals::{decimal, decimal_string};
use crate::spectur::dash::{dash_metadata, manifest_of, parse_dash_content};
use crate::spectur::hls::{hls_metadata, hls_playlist, parse_hls_content};
use crate::spectur::types::{
    fresh_ids, no_stream, tab_streams_changed, AppState, CapturedStream, MetadataView, ProbeState, StreamFormat,
    StreamMetadata,
};
use crate::spectur::urls::{base_of, extract_base_url};
use crate::spectur::ws::{keys_set, matching_keys, page_keys, set_keys};
use crate::text::{
    byte_width, chars_of, contains, find_from, is_first_at, lemma_text_bytes_take, lower_unicode, mentions, occurs_at,
    owned, replace_all, replaced, same, string_between, text_bytes, texts, unicode_lower, unicode_upper, upper_unicode,
};
use crate::text_map::TextMap;
use crate::web_url::{join_url, joined_url, opt_text, url_parts, UrlParts};

verus! {

/// The first `j` characters of `s` take `b` bytes.
pub open spec fn at_byte(s: Seq<char>, b: int, j: int) -> bool {
    0 <= j <= s.len() && text_bytes(s.take(j)) == b
}

/// The character of `s` that starts at byte `b`.
fn char_at_byte(v: &Vec<char>, b: u128) -> (r: Option<usize>)
    ensures
        match r {
            Some(j) => at_byte(v@, b as int, j as int),
            None => forall|j: int| !#[trigger] at_byte(v@, b as int, j),
        },
{
    let n: usize = v.len();
    let mut i: usize = 0;
    let mut bytes: u128 = 0;
    assert(v@.take(0) =~= Seq::<char>::empty());
    loop
        invariant
            n == v@.len(),
            i <= n,
            bytes == text_bytes(v@.take(i as int)),
            bytes <= b,
            forall|j: int| 0 <= j < i ==> !#[trigger] at_byte(v@, b as int, j),
        decreases n - i,
    {
        if bytes == b {
            return Some(i);
        }
        if i == n {
            return None;
        }
        assert(v@.take(i + 1).drop_last() =~= v@.take(i as int));
        let w: u128 = byte_width(v[i]) as u128;
        if w > b - bytes {
            assert forall|j: int| !#[trigger] at_byte(v@, b as int, j) by {
                if i < j <= n {
                    lemma_text_bytes_take(v@, i + 1, j);
                }
            }
            return None;
        }
        bytes = bytes + w;
        i = i + 1;
    }
}

/// How many bytes the first `n` characters take.
fn bytes_before(v: &Vec<char>, n: usize) -> (r: u128)
    requires
        n <= v@.len(),
    ensures
        r == text_bytes(v@.take(n as int)),
{
    let mut i: usize = 0;
    let mut bytes: u128 = 0;
    assert(v@.take(0) =~= Seq::<char>::empty());
    while i < n
        invariant
            i <= n <= v@.len(),
            bytes == text_bytes(v@.take(i as int)),
            bytes <= 4 * i,
        decreases n - i,
    {
        assert(v@.take(i + 1).drop_last() =~= v@.take(i as int));
        bytes = bytes + byte_width(v[i]) as u128;
        i = i + 1;
    }
    bytes
}

/// The start of a playlist, given the text and its upper case: the mark is
/// found in the one, and its byte position taken in the other.
pub open spec fn is_start(content: Seq<char>, upper: Seq<char>, j: int) -> bool {
    exists|i: int|
        #[trigger] is_first_at(upper, "#EXTM3U"@, 0, i) && at_byte(content, text_bytes(upper.take(i)), j)
}

/// The text can be taken apart: the start of a playlist falls on a character.
pub open spec fn readable(content: Seq<char>, upper: Seq<char>) -> bool {
    contains(upper, "#EXTM3U"@) ==> exists|j: int| is_start(content, upper, j)
}

/// What a manifest that came along tells, given its text and its upper case.
pub open spec fn told_by(content: Seq<char>, upper: Seq<char>, url: Seq<char>) -> Option<(MetadataView, StreamFormat)> {
    if contains(upper, "#EXTM3U"@) {
        match hls_playlist(content.skip(choose|j: int| is_start(content, upper, j))) {
            Ok(p) => Some((hls_metadata(p, url), StreamFormat::Hls)),
            Err(_) => None,
        }
    } else if contains(upper, "<MPD"@) && contains(upper, "</MPD>"@) {
        match manifest_of(content) {
            Ok(v) => Some((dash_metadata(v, url), StreamFormat::Dash)),
            Err(_) => None,
        }
    } else {
        None
    }
}

/// The view of a finding.
pub open spec fn opt_found(r: Option<(StreamMetadata, StreamFormat)>) -> Option<(MetadataView, StreamFormat)> {
    match r {
        Some((m, f)) => Some((m@, f)),
        None => None,
    }
}

proof fn lemma_start_unique(content: Seq<char>, upper: Seq<char>, i: int, j: int)
    requires
        is_first_at(upper, "#EXTM3U"@, 0, i),
        at_byte(content, text_bytes(upper.take(i)), j),
    ensures
        is_start(content, upper, j),
        forall|k: int| is_start(content, upper, k) ==> k == j,
{
    assert forall|k: int| is_start(content, upper, k) implies k == j by {
        let h = choose|h: int|
            #[trigger] is_first_at(upper, "#EXTM3U"@, 0, h) && at_byte(content, text_bytes(upper.take(h)), k);
        if h < i {
            assert(occurs_at(upper, "#EXTM3U"@, h));
        } else if i < h {
            assert(occurs_at(upper, "#EXTM3U"@, i));
        }
        if k < j {
            lemma_text_bytes_take(content, k, j);
        } else if j < k {
            lemma_text_bytes_take(content, j, k);
        }
    }
}

/// Where the playlist in a text starts.
fn find_start(content: &Vec<char>, upper: &Vec<char>, i: usize) -> (r: Option<usize>)
    requires
        is_first_at(upper@, "#EXTM3U"@, 0, i as int),
        i <= upper@.len(),
    ensures
        match r {
            Some(j) => is_start(content@, upper@, j as int) && j <= content@.len() && forall|k: int|
                is_start(content@, upper@, k) ==> k == j,
            None => forall|k: int| !is_start(content@, upper@, k),
        },
{
    match char_at_byte(content, bytes_before(upper, i)) {
        Some(j) => {
            proof {
                lemma_start_unique(content@, upper@, i as int, j as int);
            }
            Some(j)
        },
        None => {
            assert forall|k: int| !is_start(content@, upper@, k) by {
                if is_start(content@, upper@, k) {
                    let h = choose|h: int|
                        #[trigger] is_first_at(upper@, "#EXTM3U"@, 0, h) && at_byte(
                            content@,
                            text_bytes(upper@.take(h)),
                            k,
                        );
                    if h < i {
                        assert(occurs_at(upper@, "#EXTM3U"@, h));
                    } else if i < h {
                        assert(occurs_at(upper@, "#EXTM3U"@, i as int));
                    }
                }
            }
            None
        },
    }
}

/// What a manifest that came along tells, given its text and its upper case.
pub fn read_given_from(content: &str, upper: &str, url: &str) -> (r: Option<(StreamMetadata, StreamFormat)>)
    requires
        readable(content@, upper@),
    ensures
        opt_found(r) == told_by(content@, upper@, url@),
{
    let v: Vec<char> = chars_of(content);
    let u: Vec<char> = chars_of(upper);
    let mark: Vec<char> = chars_of("#EXTM3U");
    match find_from(&u, &mark, 0) {
        Some(i) => {
            assert(contains(upper@, "#EXTM3U"@));
            match find_start(&v, &u, i) {
                Some(j) => {
                    let body: String = string_between(&v, j, v.len());
                    assert(body@ =~= content@.skip(j as int));
                    match parse_hls_content(body.as_str(), url) {
                        Ok(m) => Some((m, StreamFormat::Hls)),
                        Err(_) => None,
                    }
                },
                None => None,
            }
        },
        None => {
            assert(!contains(upper@, "#EXTM3U"@));
            if mentions(upper, "<MPD") && mentions(upper, "</MPD>") {
                match parse_dash_content(content, url) {
                    Ok(m) => Some((m, StreamFormat::Dash)),
                    Err(_) => None,
                }
            } else {
                None
            }
        },
    }
}

fn check_readable(content: &str, upper: &str) -> (r: bool)
    ensures
        r == readable(content@, upper@),
{
    let v: Vec<char> = chars_of(content);
    let u: Vec<char> = chars_of(upper);
    let mark: Vec<char> = chars_of("#EXTM3U");
    match find_from(&u, &mark, 0) {
        Some(i) => {
            assert(contains(upper@, "#EXTM3U"@));
            find_start(&v, &u, i).is_some()
        },
        None => {
            assert(!contains(upper@, "#EXTM3U"@));
            true
        },
    }
}

/// What became of a manifest that came along.
#[derive(Debug)]
pub enum GivenManifest {
    /// It cannot be taken apart.
    Unreadable,
    /// It tells nothing.
    Silent,
    /// It tells what the stream holds.
    Tells(StreamMetadata, StreamFormat),
}

/// Looks at a manifest that came along.
pub fn read_given(content: &str, url: &str) -> (r: GivenManifest)
    ensures
        match r {
            GivenManifest::Unreadable => !readable(content@, unicode_upper(content@)),
            GivenManifest::Silent => readable(content@, unicode_upper(content@)) && told_by(
                content@,
                unicode_upper(content@),
                url@,
            ) is None,
            GivenManifest::Tells(m, f) => readable(content@, unicode_upper(content@)) && told_by(
                content@,
                unicode_upper(content@),
                url@,
            ) == Some((m@, f)),
        },
{
    let upper: String = upper_unicode(content);
    if !check_readable(content, upper.as_str()) {
        return GivenManifest::Unreadable;
    }
    match read_given_from(content, upper.as_str(), url) {
        Some((m, f)) => GivenManifest::Tells(m, f),
        None => GivenManifest::Silent,
    }
}

/// How a stream is looked at.
#[derive(Debug)]
pub enum LookPlan {
    /// A playlist is fetched from the URL.
    Hls(String),
    /// A manifest is fetched from the URL.
    Dash(String),
    /// A program looks at the file.
    File,
    /// The server is asked what it is.
    Ask,
}

pub enum PlanView {
    Hls(Seq<char>),
    Dash(Seq<char>),
    File,
    Ask,
}

impl LookPlan {
    pub open spec fn view(&self) -> PlanView {
        match *self {
            LookPlan::Hls(u) => PlanView::Hls(u@),
            LookPlan::Dash(u) => PlanView::Dash(u@),
            LookPlan::File => PlanView::File,
            LookPlan::Ask => PlanView::Ask,
        }
    }
}

/// The URL of the manifest that goes with a list of segments.
pub open spec fn sibling_manifest(url: Seq<char>) -> Seq<char> {
    let u = replaced(url, ".json"@, ".mpd"@);
    if contains(u, "?"@) {
        u + "&query_string_ranges=1"@
    } else {
        u + "?query_string_ranges=1"@
    }
}

/// How the stream at `url` is looked at, given the path of the URL in lower case.
pub open spec fn plan_for(url: Seq<char>, path: Option<Seq<char>>) -> PlanView {
    match path {
        Some(p) => if contains(p, ".m3u8"@) {
            PlanView::Hls(url)
        } else if contains(p, ".mpd"@) {
            PlanView::Dash(url)
        } else if contains(p, "master.json"@) || contains(p, "playlist.json"@) {
            PlanView::Dash(sibling_manifest(url))
        } else if contains(p, ".mp4"@) {
            PlanView::File
        } else {
            PlanView::Ask
        },
        None => PlanView::Ask,
    }
}

/// How the stream at `url` is looked at, given the path of the URL in lower case.
pub fn plan_look_from(url: &str, path: &Option<String>) -> (r: LookPlan)
    ensures
        r@ == plan_for(url@, opt_text(*path)),
{
    match path {
        Some(p) => {
            if mentions(p.as_str(), ".m3u8") {
                LookPlan::Hls(owned(url))
            } else if mentions(p.as_str(), ".mpd") {
                LookPlan::Dash(owned(url))
            } else if mentions(p.as_str(), "master.json") || mentions(p.as_str(), "playlist.json") {
                proof {
                    reveal_strlit(".json");
                }
                let mut u: String = replace_all(url, ".json", ".mpd");
                if mentions(u.as_str(), "?") {
                    u.append("&query_string_ranges=1");
                } else {
                    u.append("?query_string_ranges=1");
                }
                LookPlan::Dash(u)
            } else if mentions(p.as_str(), ".mp4") {
                LookPlan::File
            } else {
                LookPlan::Ask
            }
        },
        None => LookPlan::Ask,
    }
}

/// How the stream at `url` is looked at.
pub fn plan_look(url: &str) -> (r: LookPlan)
    ensures
        r@ == plan_for(
            url@,
            match url_parts(url@) {
                Some(u) => Some(unicode_lower(u.path)),
                None => None,
            },
        ),
{
    let path: Option<String> = match UrlParts::parse(url) {
        Some(u) => Some(lower_unicode(u.path.as_str())),
        None => None,
    };
    plan_look_from(url, &path)
}

/// A header that goes with no request for a manifest.
pub open spec fn is_withheld(name: Seq<char>) -> bool {
    let n = unicode_lower(name);
    n == "host"@ || n == "accept-encoding"@ || n == "content-length"@ || n == "connection"@
}

/// The headers among the first `n` that go with a request for a manifest.
pub open spec fn sent_headers(headers: Seq<(Seq<char>, Seq<char>)>, n: int) -> Seq<(Seq<char>, Seq<char>)>
    decreases n,
{
    if n <= 0 {
        Seq::empty()
    } else {
        let before = sent_headers(headers, n - 1);
        let h = headers[n - 1];
        if !is_withheld(h.0) && is_header_name(h.0) && is_header_value(h.1) {
            before.push(h)
        } else {
            before
        }
    }
}

/// The headers that go with a request for a manifest: those that are neither
/// withheld nor malformed.
pub fn fetch_headers(headers: &TextMap) -> (r: TextMap)
    ensures
        r@ == sent_headers(headers@, headers@.len() as int),
{
    let mut r: TextMap = TextMap::new();
    let mut i: usize = 0;
    while i < headers.entries.len()
        invariant
            i <= headers.entries@.len(),
            r@ == sent_headers(headers@, i as int),
        decreases headers.entries@.len() - i,
    {
        let name: &str = headers.entries[i].0.as_str();
        let value: &str = headers.entries[i].1.as_str();
        assert(headers@[i as int] == (name@, value@));
        let lowered: String = lower_unicode(name);
        let withheld: bool = same(lowered.as_str(), "host") || same(lowered.as_str(), "accept-encoding") || same(
            lowered.as_str(),
            "content-length",
        ) || same(lowered.as_str(), "connection");
        if !withheld && valid_name(name) && valid_value(value) {
            let ghost before = r@;
            r.entries.push((owned(name), owned(value)));
            assert(r@ =~= before.push((name@, value@)));
        }
        i = i + 1;
    }
    r
}

/// The redirection that a response names.
#[derive(Debug)]
pub enum Location {
    Absent,
    /// It is no text.
    Unreadable,
    Text(String),
}

/// What a response comes to.
#[derive(Debug)]
pub enum FetchStep {
    /// The same is to be asked of another URL.
    Follow,
    /// The body is to be read.
    Body,
    TooManyRedirects,
    /// The redirection leads nowhere.
    BadLocation,
    BadStatus,
}

/// How many redirections are followed.
pub const MAX_REDIRECTS: usize = 10;

/// A fetch under way.
#[derive(Debug)]
pub struct Fetch {
    pub url: String,
    pub followed: usize,
}

/// What a response to the request for `url` comes to.
pub open spec fn fetch_outcome(url: Seq<char>, followed: usize, status: u16, location: Location) -> (
    FetchStep,
    Seq<char>,
    int,
) {
    let stay = if 200 <= status < 300 {
        (FetchStep::Body, url, followed as int)
    } else {
        (FetchStep::BadStatus, url, followed as int)
    };
    if 300 <= status < 400 {
        if followed >= MAX_REDIRECTS {
            (FetchStep::TooManyRedirects, url, followed as int)
        } else {
            match location {
                Location::Absent => stay,
                Location::Unreadable => (FetchStep::BadLocation, url, followed as int),
                Location::Text(l) => match joined_url(url, l@) {
                    Some(u) => (FetchStep::Follow, u, followed + 1),
                    None => (FetchStep::BadLocation, url, followed as int),
                },
            }
        }
    } else {
        stay
    }
}

impl Fetch {
    pub fn new(url: &str) -> (r: Fetch)
        ensures
            r.url@ == url@,
            r.followed == 0,
    {
        Fetch { url: owned(url), followed: 0 }
    }

    /// Takes in a response.
    pub fn step(&mut self, status: u16, location: &Location) -> (r: FetchStep)
        ensures
            (r, final(self).url@, final(self).followed as int) == fetch_outcome(
                old(self).url@,
                old(self).followed,
                status,
                *location,
            ),
    {
        if 300 <= status && status < 400 {
            if self.followed >= MAX_REDIRECTS {
                return FetchStep::TooManyRedirects;
            }
            match location {
                Location::Absent => {},
                Location::Unreadable => {
                    return FetchStep::BadLocation;
                },
                Location::Text(l) => match join_url(self.url.as_str(), l.as_str()) {
                    Some(u) => {
                        self.url = u;
                        self.followed = self.followed + 1;
                        return FetchStep::Follow;
                    },
                    None => {
                        return FetchStep::BadLocation;
                    },
                },
            }
        }
        if 200 <= status && status < 300 {
            FetchStep::Body
        } else {
            FetchStep::BadStatus
        }
    }
}

/// A chain of redirections comes to an end: none is followed once
/// `MAX_REDIRECTS` have been.
pub proof fn law_redirects_end(url: Seq<char>, followed: usize, status: u16, location: Location)
    ensures
        fetch_outcome(url, followed, status, location).0 is Follow ==> followed < MAX_REDIRECTS && fetch_outcome(
            url,
            followed,
            status,
            location,
        ).2 == followed + 1,
{
}

/// What is wrong with a response, given its status as text.
pub fn fetch_error(step: &FetchStep, status: &str) -> (r: Option<String>)
    ensures
        opt_text(r) == match *step {
            FetchStep::TooManyRedirects => Some("too many redirects"@),
            FetchStep::BadStatus => Some("HTTP error status: "@ + status@),
            _ => None,
        },
{
    match step {
        FetchStep::TooManyRedirects => Some(owned("too many redirects")),
        FetchStep::BadStatus => {
            let mut r: String = owned("HTTP error status: ");
            r.append(status);
            Some(r)
        },
        _ => None,
    }
}

/// What is known of the stream at `url` by its playlist.
pub open spec fn hls_look(url: Seq<char>, body: Seq<char>) -> Result<MetadataView, Seq<char>> {
    let base = base_of(url, url_parts(url));
    match hls_playlist(body) {
        Ok(p) => Ok(MetadataView { segment_base_url: Some(base), ..hls_metadata(p, base) }),
        Err(e) => Err("m3u8 parse error: "@ + e),
    }
}

/// What is known of the stream at `url` by its manifest.
pub open spec fn dash_look(url: Seq<char>, body: Seq<char>) -> Result<MetadataView, Seq<char>> {
    let base = base_of(url, url_parts(url));
    match manifest_of(body) {
        Ok(v) => Ok(MetadataView { segment_base_url: Some(base), ..dash_metadata(v, base) }),
        Err(e) => Err("MPD parse error: "@ + e),
    }
}

/// The view of what is known, or of what went wrong.
pub open spec fn look_view(r: Result<StreamMetadata, String>) -> Result<MetadataView, Seq<char>> {
    match r {
        Ok(m) => Ok(m@),
        Err(e) => Err(e@),
    }
}

/// What is known of the stream at `url` by the playlist that was fetched.
pub fn parse_hls(url: &str, body: &str) -> (r: Result<StreamMetadata, String>)
    ensures
        look_view(r) == hls_look(url@, body@),
{
    let base: String = extract_base_url(url);
    match parse_hls_content(body, base.as_str()) {
        Ok(m) => {
            let mut m: StreamMetadata = m;
            m.segment_base_url = Some(base);
            Ok(m)
        },
        Err(e) => Err(e),
    }
}

/// What is known of the stream at `url` by the manifest that was fetched.
pub fn parse_dash(url: &str, body: &str) -> (r: Result<StreamMetadata, String>)
    ensures
        look_view(r) == dash_look(url@, body@),
{
    let base: String = extract_base_url(url);
    match parse_dash_content(body, base.as_str()) {
        Ok(m) => {
            let mut m: StreamMetadata = m;
            m.segment_base_url = Some(base);
            Ok(m)
        },
        Err(e) => Err(e),
    }
}

/// What a server says a stream is.
#[derive(Debug, Clone, Copy, PartialEq, Eq, Structural)]
pub enum Answer {
    Hls,
    Dash,
    File,
    Unclear,
}

/// What a content type, in lower case, says that a stream is.
pub open spec fn answer_of(t: Seq<char>) -> Answer {
    if contains(t, "mpegurl"@) {
        Answer::Hls
    } else if contains(t, "dash+xml"@) {
        Answer::Dash
    } else if contains(t, "video/mp4"@) || contains(t, "video/"@) || contains(t, "audio/"@) {
        Answer::File
    } else {
        Answer::Unclear
    }
}

/// What a content type says that a stream is.
pub fn read_answer(content_type: &str) -> (r: Answer)
    ensures
        r == answer_of(unicode_lower(content_type@)),
{
    let t: String = lower_unicode(content_type);
    read_answer_from(t.as_str())
}

/// What a content type, in lower case, says that a stream is.
pub fn read_answer_from(t: &str) -> (r: Answer)
    ensures
        r == answer_of(t@),
{
    if mentions(t, "mpegurl") {
        Answer::Hls
    } else if mentions(t, "dash+xml") {
        Answer::Dash
    } else if mentions(t, "video/mp4") || mentions(t, "video/") || mentions(t, "audio/") {
        Answer::File
    } else {
        Answer::Unclear
    }
}

/// What is known of a stream by the body that the server gave.
pub open spec fn body_look(answer: Answer, url: Seq<char>, body: Seq<char>) -> Result<
    (MetadataView, StreamFormat),
    Seq<char>,
> {
    let base = base_of(url, url_parts(url));
    match answer {
        Answer::Hls => match hls_playlist(body) {
            Ok(p) => Ok((hls_metadata(p, base), StreamFormat::Hls)),
            Err(e) => Err("m3u8 parse error: "@ + e),
        },
        Answer::Dash => match manifest_of(body) {
            Ok(v) => Ok((dash_metadata(v, base), StreamFormat::Dash)),
            Err(e) => Err("MPD parse error: "@ + e),
        },
        _ => match (hls_playlist(body), manifest_of(body)) {
            (Ok(p), _) => Ok((hls_metadata(p, base), StreamFormat::Hls)),
            (Err(_), Ok(v)) => Ok((dash_metadata(v, base), StreamFormat::Dash)),
            _ => Err("unknown format or unsupported media"@),
        },
    }
}

/// The view of what is known and of the kind of a stream, or of what went wrong.
pub open spec fn found_view(r: Result<(StreamMetadata, StreamFormat), String>) -> Result<
    (MetadataView, StreamFormat),
    Seq<char>,
> {
    match r {
        Ok((m, f)) => Ok((m@, f)),
        Err(e) => Err(e@),
    }
}

/// What is known of a stream by the body that the server gave.
pub fn parse_answer(answer: Answer, url: &str, body: &str) -> (r: Result<(StreamMetadata, StreamFormat), String>)
    ensures
        found_view(r) == body_look(answer, url@, body@),
{
    let base: String = extract_base_url(url);
    match answer {
        Answer::Hls => match parse_hls_content(body, base.as_str()) {
            Ok(m) => Ok((m, StreamFormat::Hls)),
            Err(e) => Err(e),
        },
        Answer::Dash => match parse_dash_content(body, base.as_str()) {
            Ok(m) => Ok((m, StreamFormat::Dash)),
            Err(e) => Err(e),
        },
        _ => match parse_hls_content(body, base.as_str()) {
            Ok(m) => Ok((m, StreamFormat::Hls)),
            Err(_) => match parse_dash_content(body, base.as_str()) {
                Ok(m) => Ok((m, StreamFormat::Dash)),
                Err(_) => Err(owned("unknown format or unsupported media")),
            },
        },
    }
}

/// `after` is the state with the look at a stream ended in vain.
pub open spec fn look_failed(before: AppState, after: AppState, id: u64, error: String) -> bool {
    &&& after.selection() == before.selection()
    &&& after.next_stream_id == before.next_stream_id
    &&& after.downloads == before.downloads
    &&& after.intercepted_keys == before.intercepted_keys
    &&& texts(after.tui_logs@) == texts(before.tui_logs@).push(
        "Analyzer error for stream "@ + decimal(id as nat) + ": "@ + error@,
    )
    &&& forall|t: int, j: int| #[trigger]
        before.is_stream(id, t, j) ==> tab_streams_changed(
            before.tabs@,
            after.tabs@,
            t,
            before.tabs@[t].streams@.update(
                j,
                CapturedStream { probe_state: ProbeState::Failed(error), ..before.tabs@[t].streams@[j] },
            ),
        )
    &&& (forall|a: int| 0 <= a < before.tabs@.len() ==> no_stream(#[trigger] before.tabs@[a], id)) ==> after.tabs
        == before.tabs
}

/// `m` is `found` with the keys of a page.
pub open spec fn with_keys(found: StreamMetadata, m: StreamMetadata, keys: Seq<Seq<char>>) -> bool {
    StreamMetadata { keys: found.keys, ..m } == found && keys_set(found.keys@, m.keys@, keys)
}

/// `after` is the state with the look at a stream ended well.
pub open spec fn look_ended(
    before: AppState,
    after: AppState,
    id: u64,
    found: StreamMetadata,
    format: StreamFormat,
) -> bool {
    &&& after.selection() == before.selection()
    &&& after.next_stream_id == before.next_stream_id
    &&& after.downloads == before.downloads
    &&& after.intercepted_keys == before.intercepted_keys
    &&& after.tui_logs == before.tui_logs
    &&& forall|t: int, j: int| #[trigger]
        before.is_stream(id, t, j) ==> exists|m: StreamMetadata|
            #[trigger] with_keys(found, m, page_keys(before.intercepted_keys@, before.tabs@[t].page_url@))
                && tab_streams_changed(
                before.tabs@,
                after.tabs@,
                t,
                before.tabs@[t].streams@.update(
                    j,
                    CapturedStream { probe_state: ProbeState::Done(m), format, ..before.tabs@[t].streams@[j] },
                ),
            )
    &&& (forall|a: int| 0 <= a < before.tabs@.len() ==> no_stream(#[trigger] before.tabs@[a], id)) ==> after.tabs
        == before.tabs
}

impl AppState {
    /// Notes what the look at a stream came to. What was found gets the keys
    /// that the page of the stream was seen to use.
    pub fn finish_look(&mut self, stream_id: u64, result: Result<(StreamMetadata, StreamFormat), String>)
        requires
            old(self).wf(),
        ensures
            final(self).wf(),
            fresh_ids(*old(self)) ==> fresh_ids(*final(self)),
            match result {
                Ok((m, format)) => look_ended(*old(self), *final(self), stream_id, m, format),
                Err(e) => look_failed(*old(self), *final(self), stream_id, e),
            },
    {
        match result {
            Ok((m, format)) => {
                let ghost found = m;
                let mut m: StreamMetadata = m;
                match self.find_stream(stream_id) {
                    Some((t, j)) => {
                        let keys: Vec<String> = matching_keys(
                            &self.intercepted_keys,
                            self.tabs[t].page_url.as_str(),
                        );
                        let _ = set_keys(&mut m.keys, "", &keys);
                        let ghost kept = m;
                        self.set_stream_probe_done(stream_id, m, format);
                        proof {
                            let page = page_keys(old(self).intercepted_keys@, old(self).tabs@[t as int].page_url@);
                            assert(with_keys(found, kept, page));
                            assert(old(self).is_stream(stream_id, t as int, j as int));
                            old(self).lemma_stream_unique(stream_id, t as int, j as int);
                        }
                    },
                    None => {
                        self.set_stream_probe_done(stream_id, m, format);
                        proof {
                            old(self).lemma_no_stream(stream_id);
                        }
                    },
                }
            },
            Err(e) => {
                let mut line: String = owned("Analyzer error for stream ");
                let id: String = decimal_string(stream_id);
                line.append(id.as_str());
                line.append(": ");
                line.append(e.as_str());
                let ghost added = line@;
                self.tui_logs.push(line);
                assert(texts(self.tui_logs@) =~= texts(old(self).tui_logs@).push(added));
                let ghost middle = *self;
                assert forall|t: int, j: int| #[trigger] old(self).is_stream(stream_id, t, j) implies middle.is_stream(
                    stream_id,
                    t,
                    j,
                ) by {}
                self.set_stream_probe_failed(stream_id, e);
            },
        }
    }
}

} // verus!
