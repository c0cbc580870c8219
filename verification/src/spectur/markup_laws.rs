//! What holds of the tags and attributes of a manifest, and of what a manifest
//! is read into.

use vstd::prelude::*;
use crate::spectur::dash::{DashAdaptation, DashManifest, DashPeriod, DashProtection, DashRepresentation};
use crate::spectur::hls::{HlsKey, HlsSegment, HlsVariant};
use crate::spectur::markup::{
    find_markup_close, find_open, local_start, mark_close, open_at, read_attribute, read_markup, read_tag, seek,
    skip_space, tag_close, word_end, Attribute, Markup, TagParts,
};
use crate::web_url::opt_text;

verus! {

proof fn lemma_open(t: Seq<char>, i: int)
    requires
        0 <= i <= t.len(),
    ensures
        i <= open_at(t, i) <= t.len(),
        open_at(t, i) < t.len() ==> t[open_at(t, i)] == '<',
        forall|k: int| i <= k < open_at(t, i) ==> #[trigger] t[k] != '<',
    decreases t.len() - i,
{
    if i < t.len() && t[i] != '<' {
        lemma_open(t, i + 1);
    }
}

/// The next opening bracket is found: there is none before it.
pub proof fn law_brackets_are_found(t: &Vec<char>, i: usize, r: usize, k: int)
    requires
        i <= t@.len(),
        call_ensures(find_open, (t, i), r),
        i <= k < r,
    ensures
        i <= r <= t@.len(),
        t@[k] != '<',
        r < t@.len() ==> t@[r as int] == '<',
{
    lemma_open(t@, i as int);
}

/// Markup is told by what follows its bracket.
pub proof fn law_markup_is_told(t: &Vec<char>, j: usize, r: Markup)
    requires
        j + 2 < t@.len(),
        call_ensures(read_markup, (t, j), r),
    ensures
        ({
            let a = t@[j + 1];
            let b = t@[j + 2];
            &&& r == Markup::EndTag <==> a == '/'
            &&& r == Markup::Instruction <==> a == '?'
            &&& r == Markup::Comment <==> a == '!' && b == '-'
            &&& r == Markup::CData <==> a == '!' && b == '['
            &&& r == Markup::DocType <==> a == '!' && (b == 'D' || b == 'd')
            &&& r == Markup::Tag <==> a != '/' && a != '?' && a != '!'
        }),
{
}

/// The quote that is open at `k`, where none is at `from`.
pub open spec fn open_quote(t: Seq<char>, from: int, k: int) -> Option<char>
    decreases k - from,
{
    if k <= from {
        None
    } else {
        let c = t[k - 1];
        match open_quote(t, from, k - 1) {
            Some(q) => if c == q {
                None
            } else {
                Some(q)
            },
            None => if c == '"' || c == '\'' {
                Some(c)
            } else {
                None
            },
        }
    }
}

proof fn lemma_tag_close(t: Seq<char>, from: int, k: int)
    requires
        0 <= from <= k <= t.len(),
    ensures
        ({
            let r = tag_close(t, k, open_quote(t, from, k));
            &&& k <= r <= t.len()
            &&& r < t.len() ==> t[r] == '>' && open_quote(t, from, r) is None
            &&& forall|i: int| k <= i < r && #[trigger] t[i] == '>' ==> open_quote(t, from, i) is Some
        }),
    decreases t.len() - k,
{
    if k < t.len() {
        let q = open_quote(t, from, k);
        if !(q is None && t[k] == '>') {
            lemma_tag_close(t, from, k + 1);
            assert(tag_close(t, k, q) == tag_close(t, k + 1, open_quote(t, from, k + 1)));
        }
    }
}

proof fn lemma_mark_close(t: Seq<char>, j: int, k: int, kind: Markup)
    requires
        0 <= k <= t.len(),
    ensures
        k <= mark_close(t, j, k, kind) <= t.len(),
        mark_close(t, j, k, kind) < t.len() ==> crate::spectur::markup::closes(t, j, mark_close(t, j, k, kind), kind),
        forall|i: int| k <= i < mark_close(t, j, k, kind) ==> !#[trigger] crate::spectur::markup::closes(t, j, i, kind),
    decreases t.len() - k,
{
    if k < t.len() && !crate::spectur::markup::closes(t, j, k, kind) {
        lemma_mark_close(t, j, k + 1, kind);
    }
}

/// A tag ends at the first closing bracket that stands in no quotes; a comment
/// at the first behind two dashes, a character section at the first behind two
/// square brackets, an instruction at the first behind a question mark.
pub proof fn law_markup_is_closed(t: &Vec<char>, j: usize, kind: Markup, r: usize, i: int)
    requires
        j < t@.len(),
        call_ensures(read_markup, (t, j), kind),
        call_ensures(find_markup_close, (t, j), r),
        j < i < r,
    ensures
        j < r <= t@.len(),
        kind == Markup::Tag || kind == Markup::EndTag ==> {
            &&& r < t@.len() ==> t@[r as int] == '>' && open_quote(t@, j + 1, r as int) is None
            &&& t@[i] == '>' ==> open_quote(t@, j + 1, i) is Some
        },
        kind == Markup::Comment ==> {
            &&& r < t@.len() ==> t@[r as int] == '>' && t@[r - 1] == '-' && t@[r - 2] == '-' && r - j > 5
            &&& !(t@[i] == '>' && i - j > 5 && t@[i - 1] == '-' && t@[i - 2] == '-')
        },
        kind == Markup::CData ==> {
            &&& r < t@.len() ==> t@[r as int] == '>' && t@[r - 1] == ']' && t@[r - 2] == ']' && r - j > 2
            &&& !(t@[i] == '>' && i - j > 2 && t@[i - 1] == ']' && t@[i - 2] == ']')
        },
        kind == Markup::Instruction ==> {
            &&& r < t@.len() ==> t@[r as int] == '>' && t@[r - 1] == '?' && r - j > 1
            &&& !(t@[i] == '>' && i - j > 1 && t@[i - 1] == '?')
        },
        kind == Markup::Broken ==> r == t@.len(),
{
    lemma_tag_close(t@, j + 1, j + 1);
    lemma_mark_close(t@, j as int, j + 1, kind);
    assert(open_quote(t@, j + 1, j + 1) is None);
    if kind == Markup::Comment || kind == Markup::CData || kind == Markup::Instruction {
        assert(!crate::spectur::markup::closes(t@, j as int, i, kind));
    }
}

proof fn lemma_skip_space(t: Seq<char>, p: int, n: int, end: int)
    requires
        0 <= p <= n <= end <= t.len(),
        forall|k: int| p <= k < n ==> crate::spectur::markup::is_space(#[trigger] t[k]),
        n < end ==> !crate::spectur::markup::is_space(t[n]),
    ensures
        skip_space(t, p, end) == n,
    decreases n - p,
{
    if p < n {
        lemma_skip_space(t, p + 1, n, end);
    }
}

proof fn lemma_word(t: Seq<char>, p: int, n: int, end: int, at_equals: bool)
    requires
        0 <= p <= n <= end <= t.len(),
        forall|k: int|
            p <= k < n ==> !crate::spectur::markup::is_space(#[trigger] t[k]) && !(at_equals && t[k] == '='),
        n < end ==> crate::spectur::markup::is_space(t[n]) || (at_equals && t[n] == '='),
    ensures
        word_end(t, p, end, at_equals) == n,
    decreases n - p,
{
    if p < n {
        lemma_word(t, p + 1, n, end, at_equals);
    }
}

proof fn lemma_seek(t: Seq<char>, p: int, n: int, end: int, c: char)
    requires
        0 <= p <= n <= end <= t.len(),
        forall|k: int| p <= k < n ==> #[trigger] t[k] != c,
        n < end ==> t[n] == c,
    ensures
        seek(t, p, end, c) == n,
    decreases n - p,
{
    if p < n {
        lemma_seek(t, p + 1, n, end, c);
    }
}

/// An attribute is a name, an equals sign and a value between two quotes of one
/// kind: it is found behind any space, and its value holds all between them.
pub proof fn law_attributes_are_found(
    t: &Vec<char>,
    p: usize,
    end: usize,
    r: Option<Attribute>,
    name: int,
    equals: int,
    close: int,
    quote: char,
)
    requires
        p <= name < equals < equals + 1 < close < end <= t@.len(),
        call_ensures(read_attribute, (t, p, end), r),
        forall|k: int| p <= k < name ==> #[trigger] t@[k] == ' ',
        forall|k: int|
            name <= k < equals ==> (#[trigger] t@[k]) != ' ' && t@[k] != '\t' && t@[k] != '\n' && t@[k] != '\r' && t@[k]
                != '=' && t@[k] != ':',
        t@[equals] == '=',
        quote == '"' || quote == '\'',
        t@[equals + 1] == quote,
        t@[close] == quote,
        forall|k: int| equals + 1 < k < close ==> #[trigger] t@[k] != quote,
    ensures
        r matches Some(a) && a.name_start == name && a.name_end == equals && a.value_start == equals + 2 && a.value_end
            == close,
{
    let s = t@;
    lemma_skip_space(s, p as int, name, end as int);
    lemma_word(s, name + 1, equals, end as int, true);
    lemma_skip_space(s, equals, equals, end as int);
    lemma_skip_space(s, equals + 1, equals + 1, end as int);
    lemma_seek(s, equals + 2, close, end as int, quote);
    lemma_seek(s, name, equals, equals, ':');
    assert(local_start(s, name, equals) == name);
}

/// A prefix with its colon is no part of an attribute's name.
pub proof fn law_prefixes_are_left_out(t: Seq<char>, a: int, colon: int, b: int)
    requires
        0 <= a <= colon < b <= t.len(),
        t[colon] == ':',
        forall|k: int| a <= k < colon ==> #[trigger] t[k] != ':',
    ensures
        local_start(t, a, b) == colon + 1,
{
    lemma_seek(t, a, colon, b, ':');
}

/// A tag is its name, up to the first space, and its attributes, up to its end;
/// a slash before the end closes it.
pub proof fn law_tags_are_read(t: &Vec<char>, j: usize, k: usize, r: TagParts, n: int)
    requires
        j + 1 < k < t@.len(),
        call_ensures(read_tag, (t, j, k), r),
        j < n,
        n <= if t@[k - 1] == '/' {
            k - 1
        } else {
            k as int
        },
        forall|i: int|
            j < i < n ==> (#[trigger] t@[i]) != ' ' && t@[i] != '\t' && t@[i] != '\n' && t@[i] != '\r' && t@[i] != ':',
        n < (if t@[k - 1] == '/' {
            k - 1
        } else {
            k as int
        }) ==> t@[n] == ' ',
    ensures
        r.is_empty <==> t@[k - 1] == '/',
        r.is_empty ==> r.end == k - 1,
        !r.is_empty ==> r.end == k,
        r.name_start == j + 1,
        r.name_end == n,
{
    let end = if t@[k - 1] == '/' {
        k - 1
    } else {
        k as int
    };
    lemma_word(t@, j + 1, n, end, false);
    lemma_seek(t@, j + 1, n, n, ':');
    assert(local_start(t@, j + 1, n) == j + 1);
}

/// What is held of a manifest and its parts is what their fields hold.
pub proof fn law_manifests_show_their_fields(
    m: &DashManifest,
    p: &DashPeriod,
    a: &DashAdaptation,
    r: &DashRepresentation,
    c: &DashProtection,
    i: int,
)
    ensures
        m@.seconds == m.seconds,
        m@.periods.len() == m.periods@.len(),
        0 <= i < m.periods@.len() ==> m@.periods[i] == m.periods@[i]@,
        m@.base_urls.len() == m.base_urls@.len(),
        0 <= i < m.base_urls@.len() ==> m@.base_urls[i] == m.base_urls@[i]@,
        p@.adaptations.len() == p.adaptations@.len(),
        0 <= i < p.adaptations@.len() ==> p@.adaptations[i] == p.adaptations@[i]@,
        p@.base_urls.len() == p.base_urls@.len(),
        0 <= i < p.base_urls@.len() ==> p@.base_urls[i] == p.base_urls@[i]@,
        a@.content_type == opt_text(a.content_type),
        a@.codecs == opt_text(a.codecs),
        a@.frame_rate == opt_text(a.frame_rate),
        a@.mime_type == opt_text(a.mime_type),
        a@.representations.len() == a.representations@.len(),
        0 <= i < a.representations@.len() ==> a@.representations[i] == a.representations@[i]@,
        a@.base_urls.len() == a.base_urls@.len(),
        0 <= i < a.base_urls@.len() ==> a@.base_urls[i] == a.base_urls@[i]@,
        r@.id == opt_text(r.id),
        r@.bandwidth == r.bandwidth,
        r@.width == r.width,
        r@.height == r.height,
        r@.codecs == opt_text(r.codecs),
        r@.frame_rate == opt_text(r.frame_rate),
        r@.mime_type == opt_text(r.mime_type),
        r@.timeline == r.timeline,
        r@.segment_list == r.segment_list,
        r@.base_urls.len() == r.base_urls@.len(),
        0 <= i < r.base_urls@.len() ==> r@.base_urls[i] == r.base_urls@[i]@,
        c@.scheme_id_uri == c.scheme_id_uri@,
        c@.value == opt_text(c.value),
        c@.default_kid == opt_text(c.default_kid),
        c@.laurl == opt_text(c.laurl),
        c@.clearkey_laurl == opt_text(c.clearkey_laurl),
{
}

/// What is held of a playlist's parts is what their fields hold.
pub proof fn law_playlists_show_their_fields(v: &HlsVariant, k: &HlsKey, s: &HlsSegment)
    ensures
        v@.uri == v.uri@,
        v@.bandwidth == v.bandwidth,
        v@.resolution == v.resolution,
        v@.codecs == opt_text(v.codecs),
        v@.frame_rate == opt_text(v.frame_rate),
        k@.method == k.method@,
        k@.uri == opt_text(k.uri),
        k@.iv == opt_text(k.iv),
        k@.keyformat == opt_text(k.keyformat),
        s@.duration_bits == s.duration_bits,
        s.key is None ==> s@.key is None,
        s.key matches Some(x) ==> s@.key == Some(x@),
{
}

} // verus!
