//! What holds of the streams that were seen, and of what is selected.

use vstd::prelude::*;
use crate::spectur::types::{
    detect_format_from, names_piece, path_dedup_from, shown, AppState, CapturedStream, Place, ProbeState, StreamFormat,
    StreamMetadata, StreamPayload, TabSession, YtFormat,
};
use crate::numerals::signed_decimal;
use crate::text::{contains, last_index_of};
use crate::text_map::TextMap;
use crate::web_url::UrlParts;

verus! {

/// A piece of a stream is known by its URL or its kind.
pub proof fn law_pieces_are_known(u: &str, r: bool, s: &CapturedStream, noise: bool, lowered: &str, named: bool)
    requires
        call_ensures(names_piece, (u,), r),
        call_ensures(CapturedStream::is_noise, (s,), noise),
        lowered@ == crate::text::unicode_lower(s.url@),
        call_ensures(names_piece, (lowered,), named),
    ensures
        r <==> contains(u@, ".m4s"@) || contains(u@, "/segment"@) || contains(u@, "/fragment"@) || contains(
            u@,
            "/chunk"@,
        ) || contains(u@, "/init-"@) || contains(u@, "seg-"@) || contains(u@, "/range/"@) || contains(u@, "/bytes/"@),
        noise <==> s.format == StreamFormat::Ts || named,
{
}

proof fn lemma_shown(streams: Seq<CapturedStream>, all: bool, n: int, k: int)
    requires
        0 <= n <= streams.len(),
        0 <= k < streams.len(),
    ensures
        forall|i: int| 0 <= i < shown(streams, all, n).len() ==> 0 <= #[trigger] shown(streams, all, n)[i] < n,
        forall|i: int, j: int|
            0 <= i < j < shown(streams, all, n).len() ==> #[trigger] shown(streams, all, n)[i] < #[trigger] shown(
                streams,
                all,
                n,
            )[j],
        shown(streams, all, n).contains(k) <==> k < n && (all || !streams[k].noise()),
    decreases n,
{
    if n > 0 {
        lemma_shown(streams, all, n - 1, k);
        let before = shown(streams, all, n - 1);
        let after = shown(streams, all, n);
        if after.contains(k) {
            let i = choose|i: int| 0 <= i < after.len() && after[i] == k;
            if i < before.len() {
                assert(before[i] == k);
                assert(before.contains(k));
            }
        }
        if k < n && (all || !streams[k].noise()) {
            if k < n - 1 {
                assert(before.contains(k));
                let i = choose|i: int| 0 <= i < before.len() && before[i] == k;
                assert(after[i] == k);
            } else {
                assert(after[before.len() as int] == k);
            }
        }
    }
}

/// The streams of a page are shown in their order: all of them where pieces
/// are wanted, else those that are none.
pub proof fn law_streams_are_shown_in_order(t: &TabSession, r: Vec<usize>, k: int, piece: bool, i: int, j: int)
    requires
        call_ensures(TabSession::visible_positions, (t,), r),
        0 <= k < t.streams@.len(),
        call_ensures(CapturedStream::is_noise, (&t.streams@[k],), piece),
        0 <= i < j < r@.len(),
    ensures
        r@.contains(k as usize) <==> t.show_noise || !piece,
        r@[i] < r@[j],
        r@[j] < t.streams@.len(),
{
    assert(t.streams.len() == t.streams@.len());
    let n = t.streams@.len() as int;
    lemma_shown(t.streams@, t.show_noise, n, k);
    let v = t.visible();
    let m = r@.map_values(|x: usize| x as int);
    assert(m == v);
    assert(m[i] == r@[i] && m[j] == r@[j]);
    assert(v[i] < v[j]);
    if r@.contains(k as usize) {
        let x = choose|x: int| 0 <= x < r@.len() && r@[x] == k as usize;
        assert(m[x] == k);
        assert(v.contains(k));
    }
    if v.contains(k) {
        let x = choose|x: int| 0 <= x < v.len() && v[x] == k;
        assert(m[x] == r@[x]);
        assert(r@[x] == k as usize);
    }
}

/// The kind of a stream is told by its path, else by its content type, else it
/// is not known.
pub proof fn law_kinds_are_told(path: &Option<String>, headers: &TextMap, r: StreamFormat)
    requires
        call_ensures(detect_format_from, (path, headers), r),
        headers@.len() == 1,
    ensures
        ({
            let p = match *path {
                Some(t) => t@,
                None => Seq::empty(),
            };
            let m3u8 = path is Some && contains(p, ".m3u8"@);
            let mpd = path is Some && contains(p, ".mpd"@);
            let mp4 = path is Some && contains(p, ".mp4"@);
            let ts = path is Some && contains(p, ".ts"@);
            let typed = headers@[0].0 == "content-type"@;
            let t = headers@[0].1;
            &&& m3u8 ==> r == StreamFormat::Hls
            &&& mpd && !m3u8 ==> r == StreamFormat::Dash
            &&& mp4 && !m3u8 && !mpd ==> r == StreamFormat::Mp4
            &&& ts && !m3u8 && !mpd && !mp4 ==> r == StreamFormat::Ts
            &&& !m3u8 && !mpd && !mp4 && !ts ==> {
                &&& !typed ==> r == StreamFormat::Unknown
                &&& typed && contains(t, "mpegurl"@) ==> r == StreamFormat::Hls
                &&& typed && !contains(t, "mpegurl"@) && contains(t, "dash+xml"@) ==> r == StreamFormat::Dash
                &&& typed && !contains(t, "mpegurl"@) && !contains(t, "dash+xml"@) && contains(t, "video/mp4"@) ==> r
                    == StreamFormat::Mp4
                &&& typed && !contains(t, "mpegurl"@) && !contains(t, "dash+xml"@) && !contains(t, "video/mp4"@)
                    && contains(t, "video/mp2t"@) ==> r == StreamFormat::Ts
                &&& typed && !contains(t, "mpegurl"@) && !contains(t, "dash+xml"@) && !contains(t, "video/mp4"@)
                    && !contains(t, "video/mp2t"@) ==> r == StreamFormat::Unknown
            }
        }),
{
    let h = headers@;
    assert(h.skip(1).len() == 0);
    assert(crate::spectur::types::format_by_headers(h.skip(1)) == StreamFormat::Unknown);
}

/// A header that is no content type, or none that tells, makes no difference.
pub proof fn law_other_headers_do_not_tell(
    path: &Option<String>,
    a: &TextMap,
    b: &TextMap,
    x: StreamFormat,
    y: StreamFormat,
)
    requires
        b@.len() == a@.len() + 1,
        b@.skip(1) == a@,
        b@[0].0 != "content-type"@,
        call_ensures(detect_format_from, (path, a), x),
        call_ensures(detect_format_from, (path, b), y),
    ensures
        x == y,
{
}

proof fn lemma_last(s: Seq<char>, c: char)
    ensures
        -1 <= last_index_of(s, c) < s.len(),
        last_index_of(s, c) >= 0 ==> s[last_index_of(s, c)] == c,
        forall|j: int| last_index_of(s, c) < j < s.len() ==> #[trigger] s[j] != c,
    decreases s.len(),
{
    if s.len() > 0 && s.last() != c {
        lemma_last(s.drop_last(), c);
        assert forall|j: int| last_index_of(s, c) < j < s.len() implies #[trigger] s[j] != c by {
            if j < s.len() - 1 {
                assert(s[j] == s.drop_last()[j]);
            }
        }
    }
}

/// Two URLs go together where their hosts and the directories of their paths
/// are the same.
pub proof fn law_urls_go_together(url: &str, parts: &Option<UrlParts>, r: String, i: int)
    requires
        call_ensures(path_dedup_from, (url, parts), r),
        parts matches Some(u) ==> {
            &&& u.host is Some
            &&& 0 <= i < u.path@.len()
            &&& u.path@[i] == '/'
            &&& forall|k: int| i < k < u.path@.len() ==> #[trigger] u.path@[k] != '/'
        },
    ensures
        parts is None ==> r@ == url@,
        parts matches Some(u) ==> r@ == (u.host->0)@ + "|"@ + u.path@.subrange(0, i + 1),
{
    if let Some(u) = *parts {
        lemma_last(u.path@, '/');
        let j = last_index_of(u.path@, '/');
        assert(j == i) by {
            if j < i {
                assert(u.path@[i] != '/');
            }
            if i < j {
                assert(u.path@[j] != '/');
            }
        }
        assert(u.path@.take(i + 1) =~= u.path@.subrange(0, i + 1));
    }
}

/// What is told of a stream that was just seen.
pub open spec fn is_just_seen(s: CapturedStream, p: StreamPayload, id: u64, format: StreamFormat) -> bool {
    &&& s.stream_id == id
    &&& s.url == p.url
    &&& s.method == p.method
    &&& s.request_headers == p.request_headers
    &&& s.server_ip == p.server_ip
    &&& s.format == format
    &&& s.probe_state is Probing
    &&& s.manifest_content == p.manifest_content
}

/// A request opens a page of its own, or a stream of its page, or belongs to a
/// stream that is known: its place says which. Numbers are given once, in
/// order, and only to new streams; a known stream keeps its own.
pub proof fn law_requests_find_their_place(
    app: &mut AppState,
    p: StreamPayload,
    format: StreamFormat,
    place: Place,
    r: (usize, u64, bool),
)
    requires
        old(app).wf(),
        old(app).next_stream_id < u64::MAX,
        call_ensures(AppState::find_place, (&*old(app), &p, format), place),
        call_ensures(AppState::add_stream_at, (app, p, format, place), r),
    ensures
        match place {
            Place::NewTab => {
                let n = old(app).tabs@.len() as int;
                let t = final(app).tabs@[n];
                &&& forall|k: int| 0 <= k < n ==> (#[trigger] old(app).tabs@[k]).page_url@ != p.page_url@
                &&& final(app).tabs@.len() == n + 1
                &&& t.page_url@ == p.page_url@
                &&& p.page_title@.len() > 0 ==> t.page_title@ == p.page_title@
                &&& p.page_title@.len() == 0 ==> t.page_title@ == "Unknown Page"@
                &&& t.streams@.len() == 1
                &&& is_just_seen(t.streams@[0], p, old(app).next_stream_id, format)
                &&& !t.show_noise
                &&& r.0 == n && r.1 == old(app).next_stream_id && !r.2
                &&& final(app).next_stream_id == old(app).next_stream_id + 1
            },
            Place::NewStream(i) => {
                let a = old(app).tabs@[i as int];
                let b = final(app).tabs@[i as int];
                &&& i < old(app).tabs@.len()
                &&& a.page_url@ == p.page_url@
                &&& b.streams@.len() == a.streams@.len() + 1
                &&& b.streams@.take(a.streams@.len() as int) == a.streams@
                &&& is_just_seen(b.streams@[a.streams@.len() as int], p, old(app).next_stream_id, format)
                &&& r.0 == i && r.1 == old(app).next_stream_id && !r.2
                &&& final(app).next_stream_id == old(app).next_stream_id + 1
                &&& final(app).tabs@.len() == old(app).tabs@.len()
            },
            Place::Known(i, j) => {
                let a = old(app).tabs@[i as int].streams@[j as int];
                let b = final(app).tabs@[i as int].streams@[j as int];
                let again = p.manifest_content is Some && !(a.probe_state is Done);
                &&& i < old(app).tabs@.len() && j < old(app).tabs@[i as int].streams@.len()
                &&& old(app).tabs@[i as int].page_url@ == p.page_url@
                &&& a.url@ == p.url@ || (format != StreamFormat::Mp4 && a.format == format)
                &&& b.stream_id == a.stream_id
                &&& b.url == p.url
                &&& b.request_headers == p.request_headers
                &&& b.format == a.format
                &&& again ==> b.probe_state is Probing && b.manifest_content == p.manifest_content
                &&& !again ==> b.probe_state == a.probe_state && b.manifest_content == a.manifest_content
                &&& r.0 == i && r.1 == a.stream_id && (r.2 <==> !again)
                &&& final(app).next_stream_id == old(app).next_stream_id
                &&& final(app).tabs@.len() == old(app).tabs@.len()
                &&& final(app).tabs@[i as int].streams@.len() == old(app).tabs@[i as int].streams@.len()
            },
        },
        final(app).selected_tab_index == old(app).selected_tab_index,
        final(app).selected_stream_index == old(app).selected_stream_index,
{
    assert(old(app).tabs.len() == old(app).tabs@.len());
    assert(final(app).selection().tab == old(app).selection().tab);
    assert(final(app).selection().stream == old(app).selection().stream);
    if let Place::NewStream(i) = place {
        let a = old(app).tabs@[i as int];
        let b = final(app).tabs@[i as int];
        assert(b.streams@.take(a.streams@.len() as int) =~= a.streams@);
    }
}

/// A video format is told by its size and its quality, one with sound as such,
/// any other by its number.
pub proof fn law_formats_have_labels(f: &YtFormat, r: String, short: String, video: bool, audio: bool)
    requires
        call_ensures(YtFormat::resolution_label, (f,), r),
        call_ensures(YtFormat::short_label, (f,), short),
        call_ensures(YtFormat::is_video, (f,), video),
        call_ensures(YtFormat::is_audio_only, (f,), audio),
    ensures
        video <==> f.width is Some && f.height is Some,
        audio <==> f.mime_type@.len() >= 6 && f.mime_type@.subrange(0, 6) == "audio/"@,
        video && f.quality_label is Some ==> r@ == signed_decimal(f.width->0 as int) + "x"@ + signed_decimal(
            f.height->0 as int,
        ) + " ("@ + (f.quality_label->0)@ + ")"@,
        video && f.quality_label is None ==> r@ == signed_decimal(f.width->0 as int) + "x"@ + signed_decimal(
            f.height->0 as int,
        ),
        !video && f.quality_label is Some ==> r@ == (f.quality_label->0)@,
        !video && f.quality_label is None && audio ==> r@ == "Audio (itag "@ + signed_decimal(f.itag as int) + ")"@,
        !video && f.quality_label is None && !audio ==> r@ == "itag "@ + signed_decimal(f.itag as int),
        f.quality_label is Some ==> short@ == (f.quality_label->0)@,
        f.quality_label is None && audio ==> short@ == "Audio"@,
        f.quality_label is None && !audio ==> short@ == "itag "@ + signed_decimal(f.itag as int),
{
    reveal_strlit("audio/");
    assert("audio/"@.len() == 6);
}

/// The tab of a page is its first.
pub proof fn law_pages_have_one_tab(app: &AppState, page: &str, r: Option<usize>)
    requires
        call_ensures(AppState::find_tab, (app, page), r),
    ensures
        r matches Some(i) ==> i < app.tabs@.len() && app.tabs@[i as int].page_url@ == page@,
        r is None ==> is_unseen(*app, page@),
{
}

/// No tab is of the page.
pub open spec fn is_unseen(app: AppState, page: Seq<char>) -> bool {
    forall|k: int| 0 <= k < app.tabs@.len() ==> (#[trigger] app.tabs@[k]).page_url@ != page
}

/// One goes through the tabs and round their ends; another tab begins with its
/// first stream.
pub proof fn law_tabs_are_walked_round(a: &mut AppState, b: &mut AppState)
    requires
        old(a).wf(),
        old(b).wf(),
        call_ensures(AppState::next_tab, (a,), ()),
        call_ensures(AppState::prev_tab, (b,), ()),
    ensures
        ({
            let n = old(a).tabs@.len();
            let i = old(a).selected_tab_index;
            &&& n > 1 && i + 1 < n ==> final(a).selected_tab_index == i + 1
            &&& n > 1 && i + 1 == n ==> final(a).selected_tab_index == 0
            &&& n > 1 ==> final(a).selected_stream_index == 0 && final(a).selected_resolution_index == 0
            &&& n <= 1 ==> final(a).selected_tab_index == i && final(a).selected_stream_index == old(a).selected_stream_index
            &&& final(a).tabs == old(a).tabs
        }),
        ({
            let n = old(b).tabs@.len();
            let i = old(b).selected_tab_index;
            &&& n > 0 && i > 0 ==> final(b).selected_tab_index == i - 1
            &&& n > 0 && i == 0 ==> final(b).selected_tab_index == n - 1
            &&& n > 0 ==> final(b).selected_stream_index == 0 && final(b).selected_resolution_index == 0
            &&& n == 0 ==> final(b).selected_tab_index == i
            &&& final(b).tabs == old(b).tabs
        }),
{
    assert(old(b).tabs.len() == old(b).tabs@.len());
    assert(old(a).tabs.len() == old(a).tabs@.len());
    assert(final(a).selection().tab == final(a).selected_tab_index);
    assert(final(b).selection().tab == final(b).selected_tab_index);
    assert(final(a).data().1 == old(a).data().1);
    assert(final(b).data().1 == old(b).data().1);
    let n = old(a).tabs@.len() as int;
    let i = old(a).selected_tab_index as int;
    if n > 1 {
        lemma_next(i, n);
    }
}

proof fn lemma_next(i: int, n: int)
    requires
        0 <= i < n,
    ensures
        crate::spectur::types::next_of(i, n) == if i + 1 < n {
            i + 1
        } else {
            0
        },
{
    if i + 1 < n {
        vstd::arithmetic::div_mod::lemma_small_mod((i + 1) as nat, n as nat);
    } else {
        vstd::arithmetic::div_mod::lemma_mod_self_0(n);
    }
}

/// One goes through the streams that are shown, and round their ends; another
/// stream begins with its first resolution.
pub proof fn law_streams_are_walked_round(a: &mut AppState, b: &mut AppState, shown_a: Vec<usize>, shown_b: Vec<usize>)
    requires
        old(a).wf(),
        old(b).wf(),
        old(a).tabs@.len() > 0,
        old(b).tabs@.len() > 0,
        call_ensures(TabSession::visible_positions, (&old(a).tabs@[old(a).selected_tab_index as int],), shown_a),
        call_ensures(TabSession::visible_positions, (&old(b).tabs@[old(b).selected_tab_index as int],), shown_b),
        old(a).selected_stream_index < usize::MAX,
        call_ensures(AppState::next_stream, (a,), ()),
        call_ensures(AppState::prev_stream, (b,), ()),
    ensures
        ({
            let n = shown_a@.len();
            let i = old(a).selected_stream_index;
            &&& n > 1 && i + 1 < n ==> final(a).selected_stream_index == i + 1
            &&& n > 1 && i + 1 == n ==> final(a).selected_stream_index == 0
            &&& n > 1 ==> final(a).selected_resolution_index == 0
            &&& n <= 1 ==> final(a).selected_stream_index == i
            &&& final(a).selected_tab_index == old(a).selected_tab_index
        }),
        ({
            let n = shown_b@.len();
            let i = old(b).selected_stream_index;
            &&& n > 0 && i > 0 ==> final(b).selected_stream_index == i - 1
            &&& n > 0 && i == 0 ==> final(b).selected_stream_index == n - 1
            &&& n > 0 ==> final(b).selected_resolution_index == 0
            &&& n == 0 ==> final(b).selected_stream_index == i
            &&& final(b).selected_tab_index == old(b).selected_tab_index
        }),
{
    assert(final(a).selection().stream == final(a).selected_stream_index);
    assert(final(b).selection().stream == final(b).selected_stream_index);
    assert(shown_b.len() == shown_b@.len());
    let n = shown_a@.len() as int;
    let i = old(a).selected_stream_index as int;
    if n > 1 && i < n {
        lemma_next(i, n);
    }
}

/// The selected stream is the one that is shown at the selected place.
pub proof fn law_the_selected_stream_is_shown(app: &AppState, r: Option<&CapturedStream>, positions: Vec<usize>)
    requires
        app.wf(),
        call_ensures(AppState::selected_stream, (app,), r),
        app.tabs@.len() > 0,
        call_ensures(TabSession::visible_positions, (&app.tabs@[app.selected_tab_index as int],), positions),
    ensures
        r is Some <==> app.selected_stream_index < positions@.len(),
        r matches Some(s) ==> *s == app.tabs@[app.selected_tab_index as int].streams@[positions@[app.selected_stream_index as int] as int],
{
    let t = app.tabs@[app.selected_tab_index as int];
    let m = positions@.map_values(|x: usize| x as int);
    assert(m == t.visible());
    if app.selected_stream_index < positions@.len() {
        assert(m[app.selected_stream_index as int] == positions@[app.selected_stream_index as int]);
    }
}

/// One goes through the resolutions of the selected stream, and round their
/// ends.
pub proof fn law_resolutions_are_walked_round(
    a: &mut AppState,
    b: &mut AppState,
    s: Option<&CapturedStream>,
    t: Option<&CapturedStream>,
)
    requires
        old(a).wf(),
        old(b).wf(),
        old(a).selected_resolution_index < usize::MAX,
        call_ensures(AppState::selected_stream, (&*old(a),), s),
        call_ensures(AppState::selected_stream, (&*old(b),), t),
        call_ensures(AppState::next_resolution, (a,), ()),
        call_ensures(AppState::prev_resolution, (b,), ()),
    ensures
        s matches Some(x) ==> (x.probe_state matches ProbeState::Done(m) ==> {
            let n = m.resolutions@.len();
            let i = old(a).selected_resolution_index;
            &&& i + 1 < n ==> final(a).selected_resolution_index == i + 1
            &&& i + 1 == n ==> final(a).selected_resolution_index == 0
        }),
        s is None ==> final(a).selected_resolution_index == old(a).selected_resolution_index,
        t matches Some(x) ==> (x.probe_state matches ProbeState::Done(m) ==> {
            let n = m.resolutions@.len();
            let i = old(b).selected_resolution_index;
            &&& n > 0 && i > 0 ==> final(b).selected_resolution_index == i - 1
            &&& n > 0 && i == 0 ==> final(b).selected_resolution_index == n - 1
        }),
        t is None ==> final(b).selected_resolution_index == old(b).selected_resolution_index,
        final(a).selected_stream_index == old(a).selected_stream_index,
        final(b).selected_stream_index == old(b).selected_stream_index,
{
    assert(final(a).selection().resolution == final(a).selected_resolution_index);
    assert(final(b).selection().resolution == final(b).selected_resolution_index);
    assert(final(a).selection().stream == final(a).selected_stream_index);
    assert(final(b).selection().stream == final(b).selected_stream_index);
    if let Some(x) = s {
        if let ProbeState::Done(m) = x.probe_state {
            let n = m.resolutions@.len() as int;
            let i = old(a).selected_resolution_index as int;
            if i < n {
                lemma_next(i, n);
            }
        }
    }
    if let Some(x) = t {
        if let ProbeState::Done(m) = x.probe_state {
            assert(m.resolutions.len() == m.resolutions@.len());
        }
    }
}

/// What a look at a stream comes to is kept with the stream that has the
/// number, and with no other.
pub proof fn law_looks_are_kept_with_their_stream(
    a: &mut AppState,
    b: &mut AppState,
    id: u64,
    meta: StreamMetadata,
    format: StreamFormat,
    error: String,
    found: Option<(usize, usize)>,
    found_b: Option<(usize, usize)>,
    t: int,
    j: int,
)
    requires
        old(a).wf(),
        old(b).wf(),
        call_ensures(AppState::find_stream, (&*old(a), id), found),
        call_ensures(AppState::find_stream, (&*old(b), id), found_b),
        call_ensures(AppState::set_stream_probe_done, (a, id, meta, format), ()),
        call_ensures(AppState::set_stream_probe_failed, (b, id, error), ()),
    ensures
        found matches Some(x) ==> {
            let before = old(a).tabs@[x.0 as int].streams@[x.1 as int];
            let after = final(a).tabs@[x.0 as int].streams@[x.1 as int];
            &&& before.stream_id == id
            &&& after.stream_id == id
            &&& after.probe_state == ProbeState::Done(meta)
            &&& after.format == format
            &&& after.url == before.url
            &&& 0 <= t < old(a).tabs@.len() && t != x.0 ==> final(a).tabs@[t] == old(a).tabs@[t]
            &&& 0 <= j < old(a).tabs@[x.0 as int].streams@.len() && j != x.1 ==> final(a).tabs@[x.0 as int].streams@[j]
                == old(a).tabs@[x.0 as int].streams@[j]
        },
        found_b matches Some(x) ==> {
            let before = old(b).tabs@[x.0 as int].streams@[x.1 as int];
            let after = final(b).tabs@[x.0 as int].streams@[x.1 as int];
            &&& after.stream_id == id
            &&& after.probe_state == ProbeState::Failed(error)
            &&& after.format == before.format
            &&& after.url == before.url
        },
        final(a).next_stream_id == old(a).next_stream_id,
{
    if let Some(x) = found {
        assert(old(a).is_stream(id, x.0 as int, x.1 as int));
    }
    if let Some(x) = found_b {
        assert(old(b).is_stream(id, x.0 as int, x.1 as int));
    }
}

} // verus!
