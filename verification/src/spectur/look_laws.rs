//! What holds of the look at a stream, and of what is done with a selection.

use vstd::prelude::*;
use crate::headers::{is_header_name, is_header_value};
use crate::numerals::decimal;
use crate::spectur::actions::{
    drm_text, drms_text, format_logs_for_copy, format_metadata_for_copy, header_text, key_text, keys_text,
    resolution_text, track_text, Choice,
};
use crate::spectur::analyzer::{
    at_byte, fetch_error, fetch_headers, is_start, parse_answer, parse_dash, parse_hls, plan_look, plan_look_from,
    read_answer, read_answer_from, read_given, read_given_from, readable, sent_headers, with_keys, Answer, Fetch,
    FetchStep, GivenManifest, Location, LookPlan,
};
use crate::spectur::dash::{
    classify_drm, classify_drm_from, manifest_metadata, read_manifest, DashManifest, DashProtection,
};
use crate::spectur::hls::{playlist_metadata, read_playlist, HlsPlaylist};
use crate::spectur::json::{json_of, json_view};
use crate::spectur::probe::{probe_from, read_probe, Mp4Probe};
use crate::spectur::types::{
    detect_format, detect_format_from, path_dedup, path_dedup_from, AppState, CapturedStream, DrmView, KeyView, Panel,
    Place, ProbeState, ResolutionView, StreamFormat, StreamMetadata, StreamPayload, TabSession,
};
use crate::spectur::urls::extract_base_url;
use crate::spectur::ws::matching_keys;
use crate::text::{
    contains, is_first_at, join, lemma_text_bytes_take, replaced, text_bytes, texts, unicode_lower, unicode_upper,
};
use crate::text_map::TextMap;
use crate::web_url::{joined_url, opt_text, opt_url, url_parts, UrlParts};

verus! {

proof fn lemma_start(content: Seq<char>, upper: Seq<char>, i: int, j: int)
    requires
        is_first_at(upper, "#EXTM3U"@, 0, i),
        at_byte(content, text_bytes(upper.take(i)), j),
    ensures
        contains(upper, "#EXTM3U"@),
        is_start(content, upper, j),
        (choose|j: int| is_start(content, upper, j)) == j,
        readable(content, upper),
{
    assert(is_start(content, upper, j));
    let c = choose|j: int| is_start(content, upper, j);
    assert(is_start(content, upper, c));
    let k = choose|k: int| #[trigger]
        is_first_at(upper, "#EXTM3U"@, 0, k) && at_byte(content, text_bytes(upper.take(k)), c);
    assert(k == i) by {
        if k < i {
            assert(!crate::text::occurs_at(upper, "#EXTM3U"@, k));
        } else if i < k {
            assert(!crate::text::occurs_at(upper, "#EXTM3U"@, i));
        }
    }
    if c < j {
        lemma_text_bytes_take(content, c, j);
    } else if j < c {
        lemma_text_bytes_take(content, j, c);
    }
}

/// A playlist that came along is read from its first mark on, whatever stands
/// before it; it tells what the playlist says, with its files at the URL.
pub proof fn law_given_playlists_are_read(
    content: &str,
    upper: &str,
    url: &str,
    r: Option<(StreamMetadata, StreamFormat)>,
    i: int,
    j: int,
    rest: &str,
    list: Result<HlsPlaylist, String>,
    x: StreamMetadata,
)
    requires
        readable(content@, upper@),
        call_ensures(read_given_from, (content, upper, url), r),
        is_first_at(upper@, "#EXTM3U"@, 0, i),
        0 <= j <= content@.len(),
        text_bytes(content@.take(j)) == text_bytes(upper@.take(i)),
        rest@ == content@.skip(j),
        call_ensures(read_playlist, (rest,), list),
        list matches Ok(p) ==> call_ensures(playlist_metadata, (&p, url), x),
    ensures
        r is Some <==> list is Ok,
        r matches Some((m, f)) ==> m@ == x@ && f == StreamFormat::Hls,
{
    lemma_start(content@, upper@, i, j);
}

/// Without the mark of a playlist, a text with the tags of a manifest is one;
/// any other text tells nothing.
pub proof fn law_given_manifests_are_read(
    content: &str,
    upper: &str,
    url: &str,
    r: Option<(StreamMetadata, StreamFormat)>,
    manifest: Result<DashManifest, String>,
    x: StreamMetadata,
)
    requires
        !contains(upper@, "#EXTM3U"@),
        call_ensures(read_given_from, (content, upper, url), r),
        call_ensures(read_manifest, (content,), manifest),
        manifest matches Ok(m) ==> call_ensures(manifest_metadata, (&m, url), x),
    ensures
        r is Some <==> contains(upper@, "<MPD"@) && contains(upper@, "</MPD>"@) && manifest is Ok,
        r matches Some((m, f)) ==> m@ == x@ && f == StreamFormat::Dash,
{
}

/// What came along is read by its upper case, where it can be.
pub proof fn law_given_text_is_read(
    content: &str,
    upper: &str,
    url: &str,
    g: GivenManifest,
    r: Option<(StreamMetadata, StreamFormat)>,
)
    requires
        upper@ == unicode_upper(content@),
        call_ensures(read_given, (content, url), g),
        call_ensures(read_given_from, (content, upper, url), r),
    ensures
        g is Unreadable <==> !readable(content@, upper@),
        g is Silent ==> r is None,
        g matches GivenManifest::Tells(m, f) ==> (r matches Some((n, k)) && m@ == n@ && f == k),
{
}

/// A path with the ending of a playlist is looked at as one, then one with the
/// ending of a manifest, then a list of segments by the manifest beside it,
/// then a file; of any other the server is asked.
pub proof fn law_looks_are_planned(url: &str, path: &Option<String>, r: LookPlan)
    requires
        call_ensures(plan_look_from, (url, path), r),
    ensures
        path is None ==> r is Ask,
        path matches Some(p) ==> {
            let hls = contains(p@, ".m3u8"@);
            let dash = contains(p@, ".mpd"@);
            let list = contains(p@, "master.json"@) || contains(p@, "playlist.json"@);
            &&& r is Hls <==> hls
            &&& r is Dash <==> !hls && (dash || list)
            &&& r is File <==> !hls && !dash && !list && contains(p@, ".mp4"@)
            &&& r matches LookPlan::Hls(u) ==> u@ == url@
            &&& dash ==> (r matches LookPlan::Dash(u) ==> u@ == url@)
            &&& !dash ==> (r matches LookPlan::Dash(u) ==> {
                let m = replaced(url@, ".json"@, ".mpd"@);
                &&& contains(m, "?"@) ==> u@ == m + "&query_string_ranges=1"@
                &&& !contains(m, "?"@) ==> u@ == m + "?query_string_ranges=1"@
            })
        },
{
    if let Some(p) = path {
        let hls = contains(p@, ".m3u8"@);
        let dash = contains(p@, ".mpd"@);
        assert(hls ==> r is Hls);
    }
}

/// A URL is looked at by its path, in lower case.
pub proof fn law_urls_are_looked_at_by_their_path(url: &str, path: &Option<String>, r: LookPlan, s: LookPlan)
    requires
        call_ensures(plan_look, (url,), r),
        call_ensures(plan_look_from, (url, path), s),
        opt_text(*path) == (match url_parts(url@) {
            Some(u) => Some(unicode_lower(u.path)),
            None => None,
        }),
    ensures
        r is Hls <==> s is Hls,
        r is Dash <==> s is Dash,
        r is File <==> s is File,
        r matches LookPlan::Hls(u) ==> u@ == s->Hls_0@,
        r matches LookPlan::Dash(u) ==> u@ == s->Dash_0@,
{
    assert(r@ == s@);
}

proof fn lemma_sent(a: Seq<(Seq<char>, Seq<char>)>, b: Seq<(Seq<char>, Seq<char>)>, n: int)
    requires
        0 <= n <= a.len() <= b.len(),
        forall|i: int| 0 <= i < a.len() ==> #[trigger] a[i] == b[i],
    ensures
        sent_headers(a, n) == sent_headers(b, n),
    decreases n,
{
    if n > 0 {
        lemma_sent(a, b, n - 1);
        assert(a[n - 1] == b[n - 1]);
    }
}

/// A header more goes with the request, unless it is one that a request sets
/// for itself, or one that cannot be sent.
pub proof fn law_headers_go_with_requests(
    a: &TextMap,
    b: &TextMap,
    name: Seq<char>,
    value: Seq<char>,
    x: TextMap,
    y: TextMap,
)
    requires
        call_ensures(fetch_headers, (a,), x),
        call_ensures(fetch_headers, (b,), y),
        b@ == a@.push((name, value)),
    ensures
        a@.len() == 0 ==> x@.len() == 0,
        ({
            let n = unicode_lower(name);
            let sent = n != "host"@ && n != "accept-encoding"@ && n != "content-length"@ && n != "connection"@
                && is_header_name(name) && is_header_value(value);
            &&& sent ==> y@ == x@.push((name, value))
            &&& !sent ==> y@ == x@
        }),
{
    lemma_sent(a@, b@, a@.len() as int);
    assert(b@[a@.len() as int] == (name, value));
}

/// A redirection is followed up to ten times; what succeeds is read, and what
/// fails is told. Nothing else moves the request on.
pub proof fn law_requests_follow_redirections(f: &mut Fetch, status: u16, location: &Location, r: FetchStep)
    requires
        call_ensures(Fetch::step, (f, status, location), r),
    ensures
        200 <= status < 300 ==> r is Body,
        status < 200 || status >= 400 ==> r is BadStatus,
        300 <= status < 400 && old(f).followed >= 10 ==> r is TooManyRedirects,
        300 <= status < 400 && old(f).followed < 10 && location is Absent ==> r is BadStatus,
        300 <= status < 400 && old(f).followed < 10 && location is Unreadable ==> r is BadLocation,
        300 <= status < 400 && old(f).followed < 10 ==> (location matches Location::Text(l) ==> match joined_url(
            old(f).url@,
            l@,
        ) {
            Some(u) => r is Follow && final(f).url@ == u && final(f).followed == old(f).followed + 1,
            None => r is BadLocation,
        }),
        !(r is Follow) ==> final(f).url@ == old(f).url@ && final(f).followed == old(f).followed,
{
}

/// What goes wrong with a request is told in words.
pub proof fn law_failed_requests_are_told(url: &str, f: Fetch, step: &FetchStep, status: &str, r: Option<String>)
    requires
        call_ensures(Fetch::new, (url,), f),
        call_ensures(fetch_error, (step, status), r),
    ensures
        f.url@ == url@,
        f.followed == 0,
        step is TooManyRedirects ==> opt_text(r) == Some("too many redirects"@),
        step is BadStatus ==> opt_text(r) == Some("HTTP error status: "@ + status@),
        !(step is TooManyRedirects) && !(step is BadStatus) ==> r is None,
{
}

/// A look at a URL tells what its body says, with its files in the place of
/// the URL, and remembers that place.
pub proof fn law_looks_read_bodies(
    url: &str,
    body: &str,
    place: String,
    base: &str,
    list: Result<HlsPlaylist, String>,
    manifest: Result<DashManifest, String>,
    x: StreamMetadata,
    y: StreamMetadata,
    h: Result<StreamMetadata, String>,
    d: Result<StreamMetadata, String>,
)
    requires
        call_ensures(extract_base_url, (url,), place),
        base@ == place@,
        call_ensures(read_playlist, (body,), list),
        call_ensures(read_manifest, (body,), manifest),
        list matches Ok(p) ==> call_ensures(playlist_metadata, (&p, base), x),
        manifest matches Ok(m) ==> call_ensures(manifest_metadata, (&m, base), y),
        call_ensures(parse_hls, (url, body), h),
        call_ensures(parse_dash, (url, body), d),
    ensures
        h is Ok <==> list is Ok,
        d is Ok <==> manifest is Ok,
        h matches Ok(m) ==> opt_text(m.segment_base_url) == Some(base@) && m@.resolutions == x@.resolutions && m@.keys
            == x@.keys && m.total_segments == x.total_segments && m@.duration == x@.duration && m@.audio_tracks
            == x@.audio_tracks && m@.drm == x@.drm && m.size_bytes == x.size_bytes,
        d matches Ok(m) ==> opt_text(m.segment_base_url) == Some(base@) && m@.resolutions == y@.resolutions && m@.keys
            == y@.keys && m.total_segments == y.total_segments && m@.duration == y@.duration && m@.audio_tracks
            == y@.audio_tracks && m@.drm == y@.drm && m.size_bytes == y.size_bytes,
        h matches Err(e) ==> e@ == "m3u8 parse error: "@ + list->Err_0@,
        d matches Err(e) ==> e@ == "MPD parse error: "@ + manifest->Err_0@,
{
    if let Ok(m) = h {
        assert(m@.segment_base_url == opt_text(m.segment_base_url));
        assert(m@.total_segments == m.total_segments && x@.total_segments == x.total_segments);
        assert(m@.size_bytes == m.size_bytes && x@.size_bytes == x.size_bytes);
    }
    if let Ok(m) = d {
        assert(m@.segment_base_url == opt_text(m.segment_base_url));
        assert(m@.total_segments == m.total_segments && y@.total_segments == y.total_segments);
        assert(m@.size_bytes == m.size_bytes && y@.size_bytes == y.size_bytes);
    }
}

/// A content type, in lower case, tells of a playlist, a manifest or a file;
/// where it tells of none of them, the body is tried as a playlist and then as
/// a manifest.
pub proof fn law_answers_are_read(
    kind: &str,
    answer: Answer,
    url: &str,
    body: &str,
    place: String,
    base: &str,
    list: Result<HlsPlaylist, String>,
    manifest: Result<DashManifest, String>,
    x: StreamMetadata,
    y: StreamMetadata,
    r: Result<(StreamMetadata, StreamFormat), String>,
)
    requires
        call_ensures(read_answer_from, (kind,), answer),
        call_ensures(extract_base_url, (url,), place),
        base@ == place@,
        call_ensures(read_playlist, (body,), list),
        call_ensures(read_manifest, (body,), manifest),
        list matches Ok(p) ==> call_ensures(playlist_metadata, (&p, base), x),
        manifest matches Ok(m) ==> call_ensures(manifest_metadata, (&m, base), y),
        call_ensures(parse_answer, (answer, url, body), r),
    ensures
        answer is Hls <==> contains(kind@, "mpegurl"@),
        answer is Dash <==> !contains(kind@, "mpegurl"@) && contains(kind@, "dash+xml"@),
        answer is File <==> !contains(kind@, "mpegurl"@) && !contains(kind@, "dash+xml"@) && (contains(
            kind@,
            "video/mp4"@,
        ) || contains(kind@, "video/"@) || contains(kind@, "audio/"@)),
        r matches Ok((m, f)) ==> (f == StreamFormat::Hls && list is Ok && m@ == x@) || (f == StreamFormat::Dash
            && manifest is Ok && m@ == y@),
        answer is Hls ==> (r is Ok <==> list is Ok) && (r matches Ok((m, f)) ==> f == StreamFormat::Hls),
        answer is Dash ==> (r is Ok <==> manifest is Ok) && (r matches Ok((m, f)) ==> f == StreamFormat::Dash),
        answer is Unclear && list is Ok ==> (r matches Ok((m, f)) && f == StreamFormat::Hls),
        answer is Unclear && list is Err && manifest is Ok ==> (r matches Ok((m, f)) && f == StreamFormat::Dash),
        answer is Unclear && list is Err && manifest is Err ==> (r matches Err(e) && e@
            == "unknown format or unsupported media"@),
        answer is Hls ==> (r matches Err(e) ==> e@ == "m3u8 parse error: "@ + list->Err_0@),
        answer is Dash ==> (r matches Err(e) ==> e@ == "MPD parse error: "@ + manifest->Err_0@),
{
}

/// A look that ends tells its stream, and no other, what was found: with the
/// keys of its page, or with the reason why nothing was. Only a failure is
/// noted.
pub proof fn law_looks_end_at_their_stream(
    app: &mut AppState,
    id: u64,
    result: Result<(StreamMetadata, StreamFormat), String>,
    at: Option<(usize, usize)>,
    page: &str,
    keys: Vec<String>,
    k: int,
    i: int,
)
    requires
        old(app).wf(),
        call_ensures(AppState::find_stream, (&*old(app), id), at),
        call_ensures(AppState::finish_look, (app, id, result), ()),
        at matches Some((t, j)) ==> page@ == old(app).tabs@[t as int].page_url@,
        call_ensures(matching_keys, (&old(app).intercepted_keys, page), keys),
        0 <= k < old(app).tabs@.len(),
    ensures
        at matches Some((t, j)) ==> {
            let was = old(app).tabs@[t as int].streams@[j as int];
            let now = final(app).tabs@[t as int].streams@[j as int];
            &&& was.stream_id == id
            &&& now.stream_id == id
            &&& now.url == was.url
            &&& now.request_headers == was.request_headers
            &&& k != t ==> final(app).tabs@[k] == old(app).tabs@[k]
            &&& final(app).tabs@[t as int].streams@.len() == old(app).tabs@[t as int].streams@.len()
            &&& 0 <= i < old(app).tabs@[t as int].streams@.len() && i != j
                ==> final(app).tabs@[t as int].streams@[i] == old(app).tabs@[t as int].streams@[i]
            &&& result matches Err(e) ==> now.format == was.format && now.probe_state == ProbeState::Failed(e)
            &&& result matches Ok((m, f)) ==> {
                let n = now.probe_state->Done_0;
                &&& now.probe_state is Done
                &&& now.format == f
                &&& n.resolutions == m.resolutions
                &&& n.duration == m.duration
                &&& n.total_segments == m.total_segments
                &&& n.keys@.len() == m.keys@.len()
                &&& 0 <= i < m.keys@.len() ==> n.keys@[i].uri == m.keys@[i].uri
                &&& 0 <= i < m.keys@.len() && i < keys@.len() ==> opt_text(n.keys@[i].key_hex) == Some(keys@[i]@)
                &&& 0 <= i < m.keys@.len() && keys@.len() == 0 ==> n.keys@[i] == m.keys@[i]
            }
        },
        at is None ==> final(app).tabs == old(app).tabs,
        result is Ok ==> final(app).tui_logs == old(app).tui_logs,
        result matches Err(e) ==> texts(final(app).tui_logs@) == texts(old(app).tui_logs@).push(
            "Analyzer error for stream "@ + decimal(id as nat) + ": "@ + e@,
        ),
        final(app).intercepted_keys == old(app).intercepted_keys,
        final(app).downloads == old(app).downloads,
{
    if let Some((t, j)) = at {
        assert(old(app).is_stream(id, t as int, j as int));
        if let Ok((found, f)) = result {
            let all = crate::spectur::ws::page_keys(old(app).intercepted_keys@, old(app).tabs@[t as int].page_url@);
            let m = choose|m: StreamMetadata|
                #[trigger] with_keys(found, m, all) && crate::spectur::types::tab_streams_changed(
                    old(app).tabs@,
                    final(app).tabs@,
                    t as int,
                    old(app).tabs@[t as int].streams@.update(
                        j as int,
                        CapturedStream {
                            probe_state: ProbeState::Done(m),
                            format: f,
                            ..old(app).tabs@[t as int].streams@[j as int]
                        },
                    ),
                );
            assert(with_keys(found, m, all));
            assert(texts(keys@) == all);
            assert(all.len() == keys@.len());
            if 0 <= i < found.keys@.len() {
                assert(crate::spectur::ws::key_set(found.keys@[i], m.keys@[i], all, i));
                if i < keys@.len() {
                    assert(all[i] == keys@[i]@);
                }
            }
        }
    }
}

/// On the pane of what is known, a page with formats has one of them
/// downloaded; else the selected stream is downloaded if it has been looked
/// at, and looked at if it has not. A test never looks.
pub proof fn law_selections_are_acted_on(app: &AppState, is_test: bool, c: Choice, stream: Option<&CapturedStream>)
    requires
        app.wf(),
        call_ensures(AppState::choice, (app, is_test), c),
        call_ensures(AppState::selected_stream, (app,), stream),
    ensures
        ({
            let tab = app.tabs@[app.selected_tab_index as int];
            let formats = app.tabs@.len() > 0 && app.focused_panel == Panel::Metadata && tab.yt_formats@.len() > 0;
            &&& formats && app.selected_yt_format_index < tab.yt_formats@.len() ==> (c matches Choice::Video {
                page_url,
                format,
            } && page_url@ == tab.page_url@ && format == app.selected_yt_format_index)
            &&& formats && app.selected_yt_format_index >= tab.yt_formats@.len() ==> c is Nothing
            &&& !formats && stream is None ==> c is Nothing
            &&& !formats ==> !(c is Video)
            &&& !formats ==> (stream matches Some(s) ==> {
                &&& s.probe_state matches ProbeState::Done(m) ==> (c matches Choice::Download { url, resolution }
                    && url@ == s.url@ && (app.selected_resolution_index < m.resolutions@.len() ==> opt_text(resolution)
                    == Some(m.resolutions@[app.selected_resolution_index as int].label@)) && (
                app.selected_resolution_index >= m.resolutions@.len() ==> resolution is None))
                &&& !(s.probe_state is Done) && is_test ==> c is Nothing
                &&& !(s.probe_state is Done) && !is_test ==> (c matches Choice::Look {
                    stream_id,
                    url,
                    headers,
                    manifest_content,
                } && stream_id == s.stream_id && url@ == s.url@ && headers@ == s.request_headers@ && opt_text(
                    manifest_content,
                ) == opt_text(s.manifest_content))
            })
        }),
{
}

/// What is copied: on the pane of what is known, the text on the selected
/// stream; on that of the downloads, the lines of the selected one, or else
/// the notes; on that of the streams, nothing.
pub proof fn law_selections_are_copied(
    app: &AppState,
    duration: &str,
    r: Option<String>,
    stream: Option<&CapturedStream>,
    s: String,
    logs: &Vec<String>,
    lines: String,
)
    requires
        app.wf(),
        call_ensures(AppState::text_to_copy, (app, duration), r),
        call_ensures(AppState::selected_stream, (app,), stream),
        stream matches Some(x) ==> call_ensures(
            format_metadata_for_copy,
            (x, duration, app.selected_resolution_index),
            s,
        ),
        call_ensures(format_logs_for_copy, (logs,), lines),
    ensures
        app.focused_panel == Panel::Streams ==> r is None,
        app.focused_panel == Panel::Metadata ==> (r is Some <==> stream is Some) && (r matches Some(t) ==> t@ == s@),
        app.focused_panel == Panel::Downloads ==> r is Some,
        (app.focused_panel == Panel::Downloads && app.selected_download_index < app.downloads@.len()
            && app.downloads@[app.selected_download_index as int].log_lines@ == logs@) ==> r->0@ == lines@,
        (app.focused_panel == Panel::Downloads && app.selected_download_index >= app.downloads@.len()
            && app.tui_logs@ == logs@) ==> r->0@ == lines@,
        lines@ == join(texts(logs@), "\n"@),
{
}

/// Whether a copy succeeded is noted, and nothing else changes. To show or
/// hide pieces starts again at the first stream of the page.
pub proof fn law_notes_are_made(a: &mut AppState, b: &mut AppState, result: Result<(), String>, t: int)
    requires
        call_ensures(AppState::note_copy, (a, result), ()),
        old(b).wf(),
        call_ensures(AppState::toggle_noise, (b,), ()),
        t == old(b).selected_tab_index,
    ensures
        texts(final(a).tui_logs@).last() == (match result {
            Ok(_) => "Copied selection to system clipboard successfully!"@,
            Err(e) => "Failed to copy to clipboard: "@ + e@,
        }),
        final(a).tabs == old(a).tabs,
        final(a).downloads == old(a).downloads,
        old(b).tabs@.len() == 0 ==> *final(b) == *old(b),
        old(b).tabs@.len() > 0 ==> {
            &&& final(b).tabs@.len() == old(b).tabs@.len()
            &&& final(b).tabs@[t].show_noise == !old(b).tabs@[t].show_noise
            &&& final(b).tabs@[t].streams == old(b).tabs@[t].streams
            &&& final(b).selected_stream_index == 0
            &&& final(b).selected_resolution_index == 0
            &&& final(b).selected_tab_index == t
            &&& texts(final(b).tui_logs@).last() == (if final(b).tabs@[t].show_noise {
                "Noise: showing segments"@
            } else {
                "Noise: hiding segments"@
            })
        },
{
    assert(final(b).selection().stream == final(b).selected_stream_index);
    assert(final(b).selection().resolution == final(b).selected_resolution_index);
    assert(final(b).selection().tab == final(b).selected_tab_index);
    assert(old(b).selection().tab == old(b).selected_tab_index);
}

/// The text on a stream that has not been looked at: its URL, its method, its
/// kind, its server, a line for each header, and how the look stands.
pub proof fn law_streams_are_written_out(
    s: &CapturedStream,
    duration: &str,
    n: usize,
    r: String,
)
    requires
        call_ensures(format_metadata_for_copy, (s, duration, n), r),
        s.request_headers@.len() == 0,
        !(s.probe_state is Done),
    ensures
        r@ == "URL: "@ + s.url@ + "\n"@ + ("Method: "@ + s.method@ + "\n"@) + ("Format: "@ + (match s.format {
            StreamFormat::Hls => "Hls"@,
            StreamFormat::Dash => "Dash"@,
            StreamFormat::Mp4 => "Mp4"@,
            StreamFormat::Ts => "Ts"@,
            StreamFormat::Youtube => "Youtube"@,
            StreamFormat::Unknown => "Unknown"@,
        }) + "\n"@) + ("Server IP: "@ + s.server_ip@ + "\n"@) + "Headers:\n"@ + "Probe State: "@ + (
        match s.probe_state {
            ProbeState::Failed(e) => "Failed: "@ + e@ + "\n"@,
            _ => "Probing...\n"@,
        }),
{
    let e = header_text(s.request_headers@, 0);
    assert(e =~= Seq::<char>::empty());
    let front = "URL: "@ + s.url@ + "\n"@ + ("Method: "@ + s.method@ + "\n"@) + ("Format: "@ + (match s.format {
        StreamFormat::Hls => "Hls"@,
        StreamFormat::Dash => "Dash"@,
        StreamFormat::Mp4 => "Mp4"@,
        StreamFormat::Ts => "Ts"@,
        StreamFormat::Youtube => "Youtube"@,
        StreamFormat::Unknown => "Unknown"@,
    }) + "\n"@) + ("Server IP: "@ + s.server_ip@ + "\n"@) + "Headers:\n"@;
    assert(front + e =~= front);
}

/// The text on a stream that has been looked at ends with what is known: how
/// long it is, its size where it has one, its segments, its resolutions, its
/// sound tracks, and its keys and protections where it has any.
pub proof fn law_known_streams_are_written_out(s: &CapturedStream, duration: &str, n: usize, r: String, m: StreamMetadata)
    requires
        call_ensures(format_metadata_for_copy, (s, duration, n), r),
        s.probe_state == ProbeState::Done(m),
    ensures
        r@ == "URL: "@ + s.url@ + "\n"@ + ("Method: "@ + s.method@ + "\n"@) + ("Format: "@ + (match s.format {
            StreamFormat::Hls => "Hls"@,
            StreamFormat::Dash => "Dash"@,
            StreamFormat::Mp4 => "Mp4"@,
            StreamFormat::Ts => "Ts"@,
            StreamFormat::Youtube => "Youtube"@,
            StreamFormat::Unknown => "Unknown"@,
        }) + "\n"@) + ("Server IP: "@ + s.server_ip@ + "\n"@) + "Headers:\n"@ + header_text(
            s.request_headers@,
            s.request_headers@.len() as int,
        ) + "Probe State: "@ + ("Done\n"@ + ("  Duration: "@ + (duration@ + "s"@) + "\n"@ + (match m.size_bytes {
            Some(b) => "  File Size: "@ + (decimal(b as nat) + " bytes"@) + "\n"@,
            None => Seq::empty(),
        }) + ("  Total Segments: "@ + decimal(m.total_segments as nat) + "\n"@) + "  Resolutions:\n"@ + resolution_text(
            m@.resolutions,
            n as int,
            m.resolutions@.len() as int,
        ) + "  Audio Tracks:\n"@ + track_text(texts(m.audio_tracks@), m.audio_tracks@.len() as int) + (
        if m.keys@.len() > 0 {
            "  Encryption Keys:\n"@ + keys_text(m@.keys, m.keys@.len() as int)
        } else {
            Seq::empty()
        }) + (if m.drm@.len() > 0 {
            "  DRM Protection:\n"@ + drms_text(m@.drm, m.drm@.len() as int)
        } else {
            Seq::empty()
        }))),
{
    assert(m@.resolutions.len() == m.resolutions@.len());
    assert(m@.audio_tracks.len() == m.audio_tracks@.len());
    assert(m@.keys.len() == m.keys@.len());
    assert(m@.drm.len() == m.drm@.len());
}

/// The lines on a header, a resolution, a sound track, a key and a protection
/// come after those on what stands before it.
pub proof fn law_lists_are_written_out(
    headers: Seq<(Seq<char>, Seq<char>)>,
    rows: Seq<ResolutionView>,
    tracks: Seq<Seq<char>>,
    keys: Seq<KeyView>,
    drm: Seq<DrmView>,
    selected: int,
    n: int,
)
    requires
        0 < n,
    ensures
        header_text(headers, 0).len() == 0,
        resolution_text(rows, selected, 0).len() == 0,
        track_text(tracks, 0).len() == 0,
        keys_text(keys, 0).len() == 0,
        drms_text(drm, 0).len() == 0,
        n <= headers.len() ==> header_text(headers, n) == header_text(headers, n - 1) + ("  "@ + headers[n - 1].0
            + ": "@ + headers[n - 1].1 + "\n"@),
        n <= rows.len() ==> resolution_text(rows, selected, n) == resolution_text(rows, selected, n - 1) + ((if selected
            == n - 1 {
            " => "@
        } else {
            "    "@
        }) + rows[n - 1].label + " (bandwidth: "@ + (decimal(rows[n - 1].bandwidth as nat) + ")"@) + "\n"@),
        n <= tracks.len() ==> track_text(tracks, n) == track_text(tracks, n - 1) + ("    "@ + tracks[n - 1] + "\n"@),
        n <= keys.len() ==> keys_text(keys, n) == keys_text(keys, n - 1) + ("    Method: "@ + keys[n - 1].method
            + "\n"@ + (match keys[n - 1].uri {
            Some(u) => "    Key URI: "@ + u + "\n"@,
            None => Seq::empty(),
        }) + (match keys[n - 1].iv {
            Some(u) => "    IV: "@ + u + "\n"@,
            None => Seq::empty(),
        }) + (match keys[n - 1].keyformat {
            Some(u) => "    Key Format: "@ + u + "\n"@,
            None => Seq::empty(),
        }) + (match keys[n - 1].key_hex {
            Some(u) => "    Key Hex: "@ + u + "\n"@,
            None => Seq::empty(),
        })),
        n <= drm.len() ==> drms_text(drm, n) == drms_text(drm, n - 1) + ("    System: "@ + drm[n - 1].system + "\n"@
            + ("    Scheme: "@ + drm[n - 1].scheme_id_uri + "\n"@) + (match drm[n - 1].default_kid {
            Some(u) => "    KID: "@ + u + "\n"@,
            None => Seq::empty(),
        }) + (match drm[n - 1].license_url {
            Some(u) => "    License: "@ + u + "\n"@,
            None => Seq::empty(),
        })),
{
    assert(n <= keys.len() ==> keys_text(keys, n) == keys_text(keys, n - 1) + key_text(keys[n - 1]));
    assert(n <= drm.len() ==> drms_text(drm, n) == drms_text(drm, n - 1) + drm_text(drm[n - 1]));
}

/// What is told of a URL, of a content type, of a report and of a protection
/// is told of what they are in lower case, or of what they hold.
pub proof fn law_whole_texts_are_read_by_their_parts(
    url: &str,
    headers: &TextMap,
    low: &TextMap,
    path: &Option<String>,
    parts: &Option<UrlParts>,
    a: StreamFormat,
    b: StreamFormat,
    c: String,
    d: String,
    kind: &str,
    lowered: &str,
    e: Answer,
    f: Answer,
    cp: &DashProtection,
    scheme: &str,
    value: &Option<String>,
    g: String,
    h: String,
)
    requires
        opt_url(*parts) == url_parts(url@),
        opt_text(*path) == (match url_parts(url@) {
            Some(u) => Some(unicode_lower(u.path)),
            None => None,
        }),
        low@.len() == headers@.len(),
        forall|i: int|
            0 <= i < headers@.len() ==> #[trigger] low@[i] == (unicode_lower(headers@[i].0), unicode_lower(headers@[i].1)),
        call_ensures(detect_format, (url, headers), a),
        call_ensures(detect_format_from, (path, low), b),
        call_ensures(path_dedup, (url,), c),
        call_ensures(path_dedup_from, (url, parts), d),
        lowered@ == unicode_lower(kind@),
        call_ensures(read_answer, (kind,), e),
        call_ensures(read_answer_from, (lowered,), f),
        scheme@ == unicode_lower(cp.scheme_id_uri@),
        opt_text(*value) == (match cp.value {
            Some(v) => Some(unicode_lower(v@)),
            None => None,
        }),
        call_ensures(classify_drm, (cp,), g),
        call_ensures(classify_drm_from, (scheme, value), h),
    ensures
        a == b,
        c@ == d@,
        e == f,
        g@ == h@,
{
    assert(crate::spectur::types::lowered(headers@) =~= low@);
    assert(cp@.scheme_id_uri == cp.scheme_id_uri@);
    assert(cp@.value == opt_text(cp.value));
}

/// A page lists its streams as they are shown; a request takes the place that
/// is found for it.
pub proof fn law_requests_take_their_place(
    t: &TabSession,
    list: Vec<&CapturedStream>,
    positions: Vec<usize>,
    i: int,
    a: &mut AppState,
    b: &mut AppState,
    p: StreamPayload,
    format: StreamFormat,
    place: Place,
    x: (usize, u64, bool),
    y: (usize, u64, bool),
)
    requires
        call_ensures(TabSession::filtered_streams, (t,), list),
        call_ensures(TabSession::visible_positions, (t,), positions),
        0 <= i < positions@.len(),
        *old(a) == *old(b),
        old(a).wf(),
        old(a).next_stream_id < u64::MAX,
        format == crate::spectur::types::stream_format(p.url@, p.response_headers@),
        call_ensures(AppState::find_place, (&*old(a), &p, format), place),
        call_ensures(AppState::add_stream, (a, p), x),
        call_ensures(AppState::add_stream_at, (b, p, format, place), y),
    ensures
        list@.len() == positions@.len(),
        *list@[i] == t.streams@[positions@[i] as int],
        x == y,
        final(a).next_stream_id == final(b).next_stream_id,
        final(a).tabs@.len() == final(b).tabs@.len(),
        final(a).tui_logs == old(a).tui_logs,
        final(a).downloads == old(a).downloads,
{
    let m = positions@.map_values(|x: usize| x as int);
    assert(m == t.visible());
    assert(m[i] == positions@[i] as int);
    assert(old(a).is_place(p, format, place));
    assert(crate::spectur::types::taken_in(*old(a), *final(a), p, format, place, x));
}

/// The report of the program is read if it can be.
pub proof fn law_outputs_are_read(output: &Vec<u8>, report: &serde_json::Value, r: Option<Mp4Probe>, p: Mp4Probe)
    requires
        call_ensures(read_probe, (output,), r),
        call_ensures(probe_from, (report,), p),
        json_of(output@) == Some(json_view(*report)),
    ensures
        r matches Some(q) && q@ == p@,
{
}

} // verus!
