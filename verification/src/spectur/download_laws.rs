//! What holds of downloads: which stream is meant, what goes with it, and what
//! a program is told.

use vstd::prelude::*;
use crate::numerals::{decimal, signed_decimal};
use crate::spectur::downloads::{
    all_lack_url, complete_headers, find_url, is_at_url, is_chosen, is_first_percent, is_labelled, is_percent,
    lacks_url, mentions_header, percent_text, with_agent, with_origin, with_referer, DownloadSource,
};
use crate::spectur::spawner::{
    build_args, candidate_name, clean_filename, header_args, headers_args, keys_args, output_parts, output_path,
    select_downloader, url_name, yt_download_args, yt_format_args, Downloader,
};
use crate::spectur::types::{is_tab, AppState, DownloadStatus, KeyInfo, ProbeState, StreamFormat, TabSession, YtFormat};
use crate::text::{contains, ends_with, index_of_char, last_index_of, texts, unicode_lower};
use crate::text_map::{is_named, with_entry, TextMap};
use crate::web_url::{opt_text, opt_url, url_parts, UrlParts};

verus! {

/// A URL stands for the first stream that has it: no earlier page, and no
/// earlier stream of the page, has it; and none is found only where none is.
pub proof fn law_urls_stand_for_their_first_stream(
    tabs: &Vec<TabSession>,
    url: &str,
    r: Option<(usize, usize)>,
    a: int,
    b: int,
)
    requires
        call_ensures(find_url, (tabs, url), r),
        0 <= a < tabs@.len(),
        0 <= b < tabs@[a].streams@.len(),
    ensures
        tabs@[a].streams@[b].url@ == url@ ==> (r matches Some((t, j)) && (t < a || t == a && j <= b)),
        r matches Some((t, j)) ==> t < tabs@.len() && j < tabs@[t as int].streams@.len()
            && tabs@[t as int].streams@[j as int].url@ == url@,
{
    assert(!lacks_url(tabs@[a], url@) || tabs@[a].streams@[b].url@ != url@);
    if let Some((t, j)) = r {
        assert(is_at_url(tabs@, url@, t as int, j as int));
    }
}

/// A header with the name, in lower case, is told.
pub open spec fn is_told(headers: Seq<(Seq<char>, Seq<char>)>, name: Seq<char>) -> bool {
    exists|i: int| 0 <= i < headers.len() && unicode_lower((#[trigger] headers[i]).0) == name
}

/// The header stands among the others.
pub open spec fn is_sent(headers: Seq<(Seq<char>, Seq<char>)>, name: Seq<char>, value: Seq<char>) -> bool {
    exists|i: int| 0 <= i < headers.len() && #[trigger] headers[i] == (name, value)
}

/// A name stands where it stood, and a name that is not `k` keeps its value.
pub open spec fn is_kept_but(a: Seq<(Seq<char>, Seq<char>)>, b: Seq<(Seq<char>, Seq<char>)>, k: Seq<char>) -> bool {
    a.len() <= b.len() && forall|i: int| 0 <= i < a.len() ==> (#[trigger] b[i]).0 == a[i].0 && (a[i].0 != k ==> b[i] == a[i])
}

proof fn lemma_entry(s: Seq<(Seq<char>, Seq<char>)>, k: Seq<char>, v: Seq<char>)
    ensures
        is_kept_but(s, with_entry(s, k, v), k),
        is_sent(with_entry(s, k, v), k, v),
        forall|i: int| s.len() <= i < with_entry(s, k, v).len() ==> #[trigger] with_entry(s, k, v)[i] == (k, v),
{
    let after = with_entry(s, k, v);
    if exists|i: int| is_named(s, k, i) {
        let c = choose|i: int| is_named(s, k, i);
        assert(after[c] == (k, v));
    } else {
        assert(after[s.len() as int] == (k, v));
    }
}

/// A download goes with the headers of its stream, with the name of a browser
/// where none was told, and with the page that it was seen on where that was
/// not told. What was told stays as it was.
pub proof fn law_headers_are_completed(
    headers: TextMap,
    page: &Option<String>,
    parts: &Option<UrlParts>,
    r: TextMap,
)
    requires
        call_ensures(complete_headers, (headers, page, parts), r),
    ensures
        !is_told(headers@, "user-agent"@) && page is None ==> is_sent(
            r@,
            "User-Agent"@,
            "Mozilla/5.0 (Windows NT 10.0; Win64; x64) AppleWebKit/537.36 (KHTML, like Gecko) Chrome/120.0.0.0 Safari/537.36"@,
        ) && is_kept_but(headers@, r@, "User-Agent"@) && r@.len() <= headers@.len() + 1,
        is_told(headers@, "user-agent"@) && page is None ==> r@ == headers@,
        is_told(headers@, "user-agent"@) && is_told(headers@, "referer"@) && is_told(headers@, "origin"@) ==> r@
            == headers@,
        (is_told(headers@, "user-agent"@) && !is_told(headers@, "referer"@) && is_told(headers@, "origin"@)) ==> (
        page matches Some(p) ==> p@.len() > 0 ==> is_sent(r@, "Referer"@, p@)),
        (is_told(headers@, "user-agent"@) && is_told(headers@, "referer"@) && !is_told(headers@, "origin"@)) ==> (
        page matches Some(p) ==> p@.len() > 0 ==> (parts matches Some(u) ==> is_sent(
            r@,
            "Origin"@,
            u.scheme@ + "://"@ + (match u.host {
                Some(h) => h@,
                None => Seq::empty(),
            }),
        ) && is_kept_but(headers@, r@, "Origin"@))),
        page matches Some(p) ==> p@.len() == 0 ==> is_told(headers@, "user-agent"@) ==> r@ == headers@,
{
    reveal_strlit("User-Agent");
    assert(mentions_header(headers@, "user-agent"@) == is_told(headers@, "user-agent"@));
    assert(mentions_header(headers@, "referer"@) == is_told(headers@, "referer"@));
    assert(mentions_header(headers@, "origin"@) == is_told(headers@, "origin"@));
    lemma_entry(
        headers@,
        "User-Agent"@,
        "Mozilla/5.0 (Windows NT 10.0; Win64; x64) AppleWebKit/537.36 (KHTML, like Gecko) Chrome/120.0.0.0 Safari/537.36"@,
    );
    if let Some(p) = page {
        let a = with_agent(headers@);
        let b = with_referer(a, p@);
        lemma_entry(a, "Referer"@, p@);
        if let Some(u) = parts {
            let v = u.scheme@ + "://"@ + (match u.host {
                Some(h) => h@,
                None => Seq::empty(),
            });
            lemma_entry(b, "Origin"@, v);
            assert(r@ == with_origin(b, p@, opt_url(*parts)));
            if is_told(headers@, "user-agent"@) && !is_told(headers@, "referer"@) && is_told(headers@, "origin"@) {
                let o = choose|i: int| 0 <= i < headers@.len() && unicode_lower((#[trigger] headers@[i]).0) == "origin"@;
                if p@.len() > 0 {
                    assert(b[o].0 == headers@[o].0);
                    assert(mentions_header(b, "origin"@));
                }
            }
        }
    }
}

/// The headers that are added come one after the other: what is added for the
/// browser is there when the page is looked at, and what is added for the page
/// when its origin is.
pub proof fn law_headers_come_in_turn(
    headers: TextMap,
    page: &Option<String>,
    parts: &Option<UrlParts>,
    none: &Option<UrlParts>,
    nowhere: &Option<String>,
    a: TextMap,
    b: TextMap,
    c: TextMap,
)
    requires
        nowhere is None,
        none is None,
        page is Some,
        call_ensures(complete_headers, (headers, nowhere, none), a),
        call_ensures(complete_headers, (headers, page, none), b),
        call_ensures(complete_headers, (headers, page, parts), c),
    ensures
        b@ == a@ || !is_told(a@, "referer"@) && page->0@.len() > 0,
        !is_told(a@, "referer"@) && page->0@.len() > 0 ==> is_sent(b@, "Referer"@, page->0@) && is_kept_but(
            a@,
            b@,
            "Referer"@,
        ),
        c@ == b@ || !is_told(b@, "origin"@) && page->0@.len() > 0 && parts is Some,
        (!is_told(b@, "origin"@) && page->0@.len() > 0) ==> (parts matches Some(u) ==> is_kept_but(b@, c@, "Origin"@)
            && is_sent(
            c@,
            "Origin"@,
            u.scheme@ + "://"@ + (match u.host {
                Some(h) => h@,
                None => Seq::empty(),
            }),
        )),
{
    let p = page->0@;
    assert(mentions_header(a@, "referer"@) == is_told(a@, "referer"@));
    assert(mentions_header(b@, "origin"@) == is_told(b@, "origin"@));
    lemma_entry(a@, "Referer"@, p);
    if let Some(u) = parts {
        let v = u.scheme@ + "://"@ + (match u.host {
            Some(h) => h@,
            None => Seq::empty(),
        });
        lemma_entry(b@, "Origin"@, v);
        assert(c@ == with_origin(b@, p, opt_url(*parts)));
    }
}

/// A download is made with what its stream came with: its headers, completed
/// by its page, its keys and its kind. The page of a video is known by its URL.
pub proof fn law_downloads_go_as_their_stream(
    app: &AppState,
    url: &str,
    resolution: &Option<String>,
    r: DownloadSource,
    at: Option<(usize, usize)>,
    headers: TextMap,
    page: &Option<String>,
    parts: &Option<UrlParts>,
    completed: TextMap,
)
    requires
        call_ensures(AppState::download_source, (app, url, resolution), r),
        call_ensures(find_url, (&app.tabs, url), at),
        call_ensures(complete_headers, (headers, page, parts), completed),
    ensures
        r.is_video <==> contains(url@, "youtube.com"@) || contains(url@, "youtu.be"@),
        at matches Some((t, j)) ==> {
            let s = app.tabs@[t as int].streams@[j as int];
            &&& r.format == s.format
            &&& (headers@ == s.request_headers@ && opt_text(*page) == Some(app.tabs@[t as int].page_url@) && opt_url(
                *parts,
            ) == url_parts(app.tabs@[t as int].page_url@)) ==> r.headers@ == completed@
            &&& s.probe_state matches ProbeState::Done(meta) ==> r.keys@.len() == meta.keys@.len() && forall|i: int|
                0 <= i < r.keys@.len() ==> (#[trigger] r.keys@[i])@ == meta.keys@[i]@
            &&& s.probe_state !is Done ==> r.keys@.len() == 0
        },
        at is None ==> r.format == StreamFormat::Unknown && r.keys@.len() == 0 && (headers@ == Seq::<
            (Seq<char>, Seq<char>),
        >::empty() && page is None ==> r.headers@ == completed@),
{
    if let Some((t, j)) = at {
        assert(is_at_url(app.tabs@, url@, t as int, j as int));
    } else {
        assert(all_lack_url(app.tabs@, url@));
    }
}

/// A resolution of a video stands for the first format of its page that bears
/// the resolution as its label.
pub proof fn law_resolutions_stand_for_formats(
    app: &AppState,
    url: &str,
    resolution: &Option<String>,
    r: DownloadSource,
    t: int,
    i: int,
)
    requires
        call_ensures(AppState::download_source, (app, url, resolution), r),
        0 <= t < app.tabs@.len(),
        app.tabs@[t].page_url@ == url@,
        forall|k: int| 0 <= k < t ==> (#[trigger] app.tabs@[k]).page_url@ != url@,
        0 <= i < app.tabs@[t].yt_formats@.len(),
        resolution matches Some(label) && app.tabs@[t].yt_formats@[i].short_text() == label@,
        forall|k: int|
            0 <= k < i ==> (#[trigger] app.tabs@[t].yt_formats@[k]).short_text() != resolution->0@,
        contains(url@, "youtube.com"@) || contains(url@, "youtu.be"@),
    ensures
        r.itag == Some(app.tabs@[t].yt_formats@[i].itag),
{
    assert(is_tab(app.tabs@, url@, t));
    let label = resolution->0@;
    assert(is_labelled(app.tabs@[t].yt_formats@, label, i));
    assert(opt_text(*resolution)->0 == label);
    assert(is_chosen(*app, url@, opt_text(*resolution), r.itag));
    if r.itag is None {
        assert(!is_labelled(app.tabs@[t].yt_formats@, opt_text(*resolution)->0, i));
    }
    if let Some(n) = r.itag {
        let (a, b) = choose|a: int, b: int|
            is_tab(app.tabs@, url@, a) && #[trigger] is_labelled(app.tabs@[a].yt_formats@, label, b)
                && app.tabs@[a].yt_formats@[b].itag == n;
        assert(a == t) by {
            if a < t {
                assert(app.tabs@[a].page_url@ != url@);
            } else if t < a {
                assert(app.tabs@[t].page_url@ != url@);
            }
        }
        assert(b == i) by {
            if b < i {
                assert(app.tabs@[t].yt_formats@[b].short_text() != label);
            } else if i < b {
                assert(app.tabs@[t].yt_formats@[i].short_text() != label);
            }
        }
    }
}

/// A percentage in a line is a run of digits and dots before the percent sign:
/// as long as it can be, and the first in the line.
pub proof fn law_percentages_are_found(line: &str, r: Option<String>, k: int)
    requires
        call_ensures(percent_text, (line,), r),
        0 < k < line@.len(),
        line@[k] == '%',
        '0' <= line@[k - 1] <= '9' || line@[k - 1] == '.',
        forall|i: int| 0 <= i < k ==> #[trigger] line@[i] != '%',
    ensures
        r matches Some(t) && 0 < t@.len() <= k && t@ == line@.subrange(k - t@.len(), k) && (forall|i: int|
            0 <= i < t@.len() ==> '0' <= #[trigger] t@[i] <= '9' || t@[i] == '.') && (t@.len() < k ==> !('0'
            <= line@[k - t@.len() - 1] <= '9') && line@[k - t@.len() - 1] != '.'),
{
    lemma_run(line@, k);
    let a = choose|a: int| #[trigger] is_percent(line@, a, k);
    let (i, j) = choose|i: int, j: int| #[trigger]
        is_first_percent(line@, i, j) && r->0@ == line@.subrange(i, j);
    assert(i <= a);
    assert(is_percent(line@, i, j));
    assert(j >= k) by {
        if j < k {
            assert(line@[j] != '%');
        }
    }
    assert(j == k) by {
        if j > k {
            assert(crate::spectur::downloads::is_figure(line@[k]));
        }
    }
    assert forall|x: int| 0 <= x < r->0@.len() implies '0' <= #[trigger] r->0@[x] <= '9' || r->0@[x] == '.' by {
        assert(crate::spectur::downloads::is_figure(line@[i + x]));
    }
}

proof fn lemma_run(s: Seq<char>, k: int)
    requires
        0 < k < s.len(),
        s[k] == '%',
        '0' <= s[k - 1] <= '9' || s[k - 1] == '.',
    ensures
        exists|a: int| #[trigger] is_percent(s, a, k),
{
    lemma_run_from(s, k - 1, k);
}

proof fn lemma_run_from(s: Seq<char>, a: int, k: int)
    requires
        0 <= a < k < s.len(),
        s[k] == '%',
        forall|i: int| a <= i < k ==> crate::spectur::downloads::is_figure(#[trigger] s[i]),
    ensures
        exists|b: int| #[trigger] is_percent(s, b, k),
    decreases a,
{
    if a > 0 && crate::spectur::downloads::is_figure(s[a - 1]) {
        lemma_run_from(s, a - 1, k);
    } else {
        assert(is_percent(s, a, k));
    }
}

/// Nothing but digits and dots is a percentage, and nothing without its sign.
pub proof fn law_no_percentage_without_its_sign(line: &str, r: Option<String>)
    requires
        call_ensures(percent_text, (line,), r),
        forall|i: int|
            0 <= i < line@.len() && #[trigger] line@[i] == '%' ==> i == 0 || !('0' <= line@[i - 1] <= '9') && line@[i
                - 1] != '.',
    ensures
        r is None,
{
    if r is Some {
        let (i, j) = choose|i: int, j: int| #[trigger]
            is_first_percent(line@, i, j) && r->0@ == line@.subrange(i, j);
        assert(is_percent(line@, i, j));
        assert(crate::spectur::downloads::is_figure(line@[j - 1]));
    }
}

/// A download that starts is the last, runs, and has done nothing yet. It is
/// noted; all else stays as it was.
pub proof fn law_downloads_start_with_nothing(app: &mut AppState, url: &str, path: &str, is_test: bool, id: usize, k: int)
    requires
        call_ensures(AppState::start_download, (app, url, path, is_test), id),
        0 <= k < old(app).downloads@.len(),
    ensures
        id == old(app).downloads@.len(),
        final(app).downloads@.len() == id + 1,
        final(app).downloads@[k] == old(app).downloads@[k],
        final(app).downloads@[id as int].id == id,
        final(app).downloads@[id as int].stream_url@ == url@,
        final(app).downloads@[id as int].output_path@ == path@,
        final(app).downloads@[id as int].progress == 0,
        final(app).downloads@[id as int].log_lines@.len() == 0,
        final(app).downloads@[id as int].status is Running,
        texts(final(app).tui_logs@).last() == (if is_test {
            "Starting test download: "@
        } else {
            "Starting download: "@
        }) + url@,
        texts(final(app).tui_logs@).drop_last() == texts(old(app).tui_logs@),
        final(app).tabs == old(app).tabs,
        final(app).intercepted_keys == old(app).intercepted_keys,
        final(app).selected_tab_index == old(app).selected_tab_index,
        final(app).selected_stream_index == old(app).selected_stream_index,
        final(app).selected_download_index == old(app).selected_download_index,
        final(app).focused_panel == old(app).focused_panel,
{
    assert(old(app).downloads.len() == old(app).downloads@.len());
    assert(final(app).downloads@.drop_last()[k] == old(app).downloads@[k]);
    assert(final(app).selection() == old(app).selection());
}

/// The download of a video starts as any other, without a path of its own.
pub proof fn law_videos_start_with_nothing(app: &mut AppState, url: &str, f: &YtFormat, is_test: bool, id: usize, label: String)
    requires
        call_ensures(AppState::start_yt_download, (app, url, f, is_test), id),
        call_ensures(YtFormat::resolution_label, (f,), label),
    ensures
        id == old(app).downloads@.len(),
        final(app).downloads@.len() == id + 1,
        final(app).downloads@[id as int].id == id,
        final(app).downloads@[id as int].stream_url@ == url@,
        final(app).downloads@[id as int].output_path@.len() == 0,
        final(app).downloads@[id as int].progress == 0,
        final(app).downloads@[id as int].status is Running,
        texts(final(app).tui_logs@).last() == (if is_test {
            "Starting YT test download: "@
        } else {
            "Starting YT download: "@
        }) + label@ + " (itag "@ + signed_decimal(f.itag as int) + ")"@,
        final(app).tabs == old(app).tabs,
{
    assert(old(app).downloads.len() == old(app).downloads@.len());
}

/// A download that ends well is at its end; one that fails stays where it was
/// and tells why. No other download is touched.
pub proof fn law_downloads_end(app: &mut AppState, id: usize, result: Result<(), String>, video: bool, k: int)
    requires
        video ==> call_ensures(AppState::finish_yt_download, (app, id, result), ()),
        !video ==> call_ensures(AppState::finish_download, (app, id, result), ()),
        0 <= k < old(app).downloads@.len(),
    ensures
        final(app).downloads@.len() == old(app).downloads@.len(),
        k != id ==> final(app).downloads@[k] == old(app).downloads@[k],
        final(app).downloads@[k].log_lines == old(app).downloads@[k].log_lines,
        final(app).downloads@[k].stream_url == old(app).downloads@[k].stream_url,
        k == id && result is Ok ==> final(app).downloads@[k].progress == 100 && final(app).downloads@[k].status
            is Finished,
        (k == id && result is Err) ==> final(app).downloads@[k].progress == old(app).downloads@[k].progress && (
        final(app).downloads@[k].status matches DownloadStatus::Failed(e) && e@ == result->Err_0@),
        k == id ==> texts(final(app).tui_logs@).last() == (match result {
            Ok(_) => if video {
                "YT download complete"@
            } else {
                "Download complete: "@ + old(app).downloads@[k].output_path@
            },
            Err(e) => if video {
                "YT download failed: "@ + e@
            } else {
                "Download failed: "@ + e@
            },
        }),
        final(app).tabs == old(app).tabs,
        id >= old(app).downloads@.len() ==> *final(app) == *old(app),
{
}

/// The lines of a download are kept in order, two hundred of them: a line more
/// drives out the first.
pub proof fn law_lines_are_kept(app: &mut AppState, id: usize, line: String, percent: Option<u8>, k: int)
    requires
        call_ensures(AppState::note_line, (app, id, line, percent), ()),
        id < old(app).downloads@.len(),
        0 <= k < old(app).downloads@[id as int].log_lines@.len(),
    ensures
        texts(final(app).downloads@[id as int].log_lines@).last() == line@,
        old(app).downloads@[id as int].log_lines@.len() < 200 ==> final(app).downloads@[id as int].log_lines@.len()
            == old(app).downloads@[id as int].log_lines@.len() + 1 && final(app).downloads@[id as int].log_lines@[k]@
            == old(app).downloads@[id as int].log_lines@[k]@,
        old(app).downloads@[id as int].log_lines@.len() >= 200 ==> final(app).downloads@[id as int].log_lines@.len()
            == old(app).downloads@[id as int].log_lines@.len() && (k > 0 ==> final(app).downloads@[id as int].log_lines@[k - 1]@ == old(app).downloads@[id as int].log_lines@[k]@),
        percent matches Some(p) ==> final(app).downloads@[id as int].progress == p,
        percent is None ==> final(app).downloads@[id as int].progress == old(app).downloads@[id as int].progress,
        final(app).downloads@[id as int].status == old(app).downloads@[id as int].status,
        final(app).downloads@[id as int].id == old(app).downloads@[id as int].id,
        final(app).tui_logs == old(app).tui_logs,
{
    let was = old(app).downloads@[id as int].log_lines@;
    let now = final(app).downloads@[id as int].log_lines@;
    let all = texts(was).push(line@);
    assert(all[k] == was[k]@);
    if was.len() < 200 {
        assert(texts(now) == all);
        assert(texts(now).len() == now.len());
        assert(texts(now)[k] == now[k]@);
    } else {
        assert(texts(now) == all.skip(1));
        assert(texts(now).len() == now.len());
        if k > 0 {
            assert(texts(now)[k - 1] == now[k - 1]@);
            assert(all.skip(1)[k - 1] == all[k]);
        }
    }
}

/// A medium keeps its name. The name of a page loses its ending, and what is
/// no list of segments gets the ending of its kind.
pub proof fn law_names_fit_the_kind(s: &str, format: StreamFormat, r: String, plain: bool, page: bool, last: int)
    requires
        call_ensures(clean_filename, (s, format), r),
        plain <==> ends_with(s@, ".mp4"@) || ends_with(s@, ".mkv"@) || ends_with(s@, ".webm"@) || ends_with(
            s@,
            ".ts"@,
        ) || ends_with(s@, ".mov"@) || ends_with(s@, ".avi"@) || ends_with(s@, ".mp3"@) || ends_with(s@, ".m4a"@)
            || ends_with(s@, ".aac"@),
        page <==> ends_with(s@, ".html"@) || ends_with(s@, ".htm"@) || ends_with(s@, ".js"@) || ends_with(s@, ".css"@)
            || ends_with(s@, ".txt"@),
        page ==> 0 <= last < s@.len() && s@[last] == '.' && forall|i: int| last < i < s@.len() ==> #[trigger] s@[i]
            != '.',
    ensures
        plain ==> r@ == s@,
        !plain && !page ==> r@ == s@ + (match format {
            StreamFormat::Hls | StreamFormat::Dash => Seq::empty(),
            StreamFormat::Ts => ".ts"@,
            _ => ".mp4"@,
        }),
        !plain && page ==> r@ == s@.take(last) + (match format {
            StreamFormat::Hls | StreamFormat::Dash => Seq::empty(),
            StreamFormat::Ts => ".ts"@,
            _ => ".mp4"@,
        }),
{
    if page {
        lemma_last_dot(s@, '.', last);
    }
}

proof fn lemma_last_dot(s: Seq<char>, c: char, last: int)
    requires
        0 <= last < s.len(),
        s[last] == c,
        forall|i: int| last < i < s.len() ==> #[trigger] s[i] != c,
    ensures
        last_index_of(s, c) == last,
    decreases s.len(),
{
    if last < s.len() - 1 {
        assert(s.drop_last()[last] == c);
        assert(s.last() != c);
        lemma_last_dot(s.drop_last(), c, last);
    }
}

proof fn lemma_no_dot(s: Seq<char>, c: char)
    requires
        forall|i: int| 0 <= i < s.len() ==> #[trigger] s[i] != c,
    ensures
        last_index_of(s, c) == -1,
    decreases s.len(),
{
    if s.len() > 0 {
        assert(s.last() != c);
        lemma_no_dot(s.drop_last(), c);
    }
}

/// A URL names what stands behind its last slash, up to its question mark.
pub proof fn law_urls_end_in_names(url: &str, r: String, name: Seq<char>, front: Seq<char>, query: Seq<char>)
    requires
        call_ensures(url_name, (url,), r),
        url@ == front + "/"@ + name + query,
        forall|i: int| 0 <= i < name.len() ==> #[trigger] name[i] != '/' && name[i] != '?',
        forall|i: int| 0 <= i < query.len() ==> #[trigger] query[i] != '/',
        query.len() > 0 ==> query[0] == '?',
    ensures
        r@ == name,
{
    reveal_strlit("/");
    let u = url@;
    let n = front.len() as int;
    assert(u[n] == '/');
    assert forall|i: int| n < i < u.len() implies #[trigger] u[i] != '/' by {
        if i < n + 1 + name.len() {
            assert(u[i] == name[i - n - 1]);
        } else {
            assert(u[i] == query[i - n - 1 - name.len()]);
        }
    }
    lemma_last_dot(u, '/', n);
    let last = u.skip(n + 1);
    assert(last =~= name + query);
    lemma_first_char(last, '?', name.len() as int);
    assert(last.take(name.len() as int) =~= name);
}

proof fn lemma_first_char(s: Seq<char>, c: char, k: int)
    requires
        0 <= k <= s.len(),
        forall|i: int| 0 <= i < k ==> #[trigger] s[i] != c,
        k < s.len() ==> s[k] == c,
    ensures
        index_of_char(s, c) == k,
    decreases s.len(),
{
    if k > 0 {
        assert(s[0] != c);
        assert forall|i: int| 0 <= i < k - 1 implies #[trigger] s.skip(1)[i] != c by {
            assert(s[i + 1] != c);
        }
        lemma_first_char(s.skip(1), c, k - 1);
    }
}

/// The parts of a name are the name again when put together; the second begins
/// with the last dot of the name. A test download says so before it.
pub proof fn law_names_have_parts(
    url: &str,
    format: StreamFormat,
    is_test: bool,
    r: (String, String),
    whole: (String, String),
    name: &str,
    found: String,
    cleaned: String,
)
    requires
        call_ensures(url_name, (url,), found),
        name@ == found@,
        call_ensures(clean_filename, (name, format), cleaned),
        call_ensures(output_parts, (url, format, is_test), r),
        call_ensures(output_parts, (url, format, false), whole),
    ensures
        whole.0@ + whole.1@ == cleaned@,
        whole.1@.len() > 0 ==> whole.1@[0] == '.',
        r.1@ == whole.1@,
        r.0@ == whole.0@ + (if is_test {
            "_test"@
        } else {
            Seq::empty()
        }),
{
    let c = cleaned@;
    lemma_last_found(c, '.');
    let i = last_index_of(c, '.');
    if i >= 0 {
        assert(c.take(i) + c.skip(i) =~= c);
        assert(c.skip(i)[0] == c[i]);
    } else {
        assert(c + Seq::<char>::empty() =~= c);
    }
    assert(whole.0@ + Seq::<char>::empty() =~= whole.0@);
}

proof fn lemma_last_found(s: Seq<char>, c: char)
    ensures
        -1 <= last_index_of(s, c) < s.len(),
        last_index_of(s, c) >= 0 ==> s[last_index_of(s, c)] == c,
    decreases s.len(),
{
    if s.len() > 0 && s.last() != c {
        lemma_last_found(s.drop_last(), c);
    }
}

/// The names that are tried for a download: first the plain one, then those
/// with a number in brackets before the ending. Paths lie in one folder.
pub proof fn law_names_are_numbered(base: &str, ext: &str, n: u64, r: String, name: &str, path: String)
    requires
        call_ensures(candidate_name, (base, ext, n), r),
        call_ensures(output_path, (name,), path),
    ensures
        n == 0 ==> r@ == base@ + ext@,
        n > 0 ==> r@ == base@ + "("@ + decimal(n as nat) + ")"@ + ext@,
        path@ == "/tmp/spectur-downloads"@ + "/"@ + name@,
{
}

/// Lists of segments are left to one program and files to the other. Where the
/// kind is not known, the URL decides.
pub proof fn law_programs_fit_the_kind(url: &str, format: StreamFormat, r: Downloader, name: &'static str)
    requires
        call_ensures(select_downloader, (url, format), r),
        call_ensures(Downloader::binary, (&r,), name),
    ensures
        format == StreamFormat::Hls || format == StreamFormat::Dash ==> name@ == "N_m3u8DL-RE"@,
        format == StreamFormat::Mp4 || format == StreamFormat::Ts ==> name@ == "aria2c"@,
        format == StreamFormat::Unknown || format == StreamFormat::Youtube ==> name@ == (if contains(
            unicode_lower(url@),
            ".m3u8"@,
        ) || contains(unicode_lower(url@), ".mpd"@) {
            "N_m3u8DL-RE"@
        } else {
            "aria2c"@
        }),
{
}

/// `after` is `before` with `added` at place `k`, where `mark` stood.
pub open spec fn is_put_at(
    before: Seq<Seq<char>>,
    after: Seq<Seq<char>>,
    added: Seq<Seq<char>>,
    mark: Seq<char>,
    k: int,
) -> bool {
    0 <= k < before.len() && before[k] == mark && after == before.take(k) + added + before.skip(k)
}

/// `after` is `before` with `added` somewhere before `mark`.
pub open spec fn is_put_before(
    before: Seq<Seq<char>>,
    after: Seq<Seq<char>>,
    added: Seq<Seq<char>>,
    mark: Seq<char>,
) -> bool {
    exists|k: int| is_put_at(before, after, added, mark, k)
}

/// A header more is an argument more, before those that tell what to do; the
/// headers that a program sets for itself are none.
pub proof fn law_headers_become_arguments(
    tool: Downloader,
    url: &str,
    name: &str,
    resolution: &Option<String>,
    a: &TextMap,
    b: &TextMap,
    keys: &Vec<KeyInfo>,
    is_test: bool,
    x: Vec<String>,
    y: Vec<String>,
    h: (Seq<char>, Seq<char>),
)
    requires
        call_ensures(build_args, (tool, url, name, resolution, a, keys, is_test), x),
        call_ensures(build_args, (tool, url, name, resolution, b, keys, is_test), y),
        b@ == a@.push(h),
    ensures
        ({
            let n = unicode_lower(h.0);
            n == "host"@ || n == "accept-encoding"@ || n == "content-length"@ || n == "connection"@
        }) ==> texts(y@) == texts(x@),
        ({
            let n = unicode_lower(h.0);
            !(n == "host"@ || n == "accept-encoding"@ || n == "content-length"@ || n == "connection"@)
        }) ==> {
            let added = match tool {
                Downloader::FileTool => seq!["--header="@ + h.0 + ": "@ + h.1],
                Downloader::StreamTool => seq![
                    "-H"@,
                    (if unicode_lower(h.0) == "cookie"@ {
                        "Cookie"@
                    } else {
                        h.0
                    }) + ": "@ + h.1,
                ],
            };
            is_put_before(texts(x@), texts(y@), added, url@)
        },
{
    reveal_strlit("Cookie: ");
    reveal_strlit("Cookie");
    reveal_strlit(": ");
    assert("Cookie: "@ =~= "Cookie"@ + ": "@);
    assert("Cookie: "@ + h.1 =~= "Cookie"@ + ": "@ + h.1);
    assert(b@.take(a@.len() as int) =~= a@);
    lemma_headers_prefix(tool, a@, b@, a@.len() as int);
    let front = headers_args(tool, a@, a@.len() as int);
    let k = front.len() as int;
    let rest = texts(x@).skip(k);
    assert(texts(x@).take(k) =~= front);
    assert(texts(x@) =~= front + rest);
    assert(headers_args(tool, b@, b@.len() as int) == front + header_args(tool, h));
    assert(texts(y@) =~= front + header_args(tool, h) + rest);
    assert(is_put_at(texts(x@), texts(y@), header_args(tool, h), url@, k));
}

proof fn lemma_headers_prefix(tool: Downloader, a: Seq<(Seq<char>, Seq<char>)>, b: Seq<(Seq<char>, Seq<char>)>, n: int)
    requires
        0 <= n <= a.len() <= b.len(),
        b.take(a.len() as int) == a,
    ensures
        headers_args(tool, a, n) == headers_args(tool, b, n),
    decreases n,
{
    if n > 0 {
        lemma_headers_prefix(tool, a, b, n - 1);
        assert(b.take(a.len() as int)[n - 1] == b[n - 1]);
    }
}

/// Without headers, a program for files is told the URL, the folder and the
/// name, and to go on where it was.
pub proof fn law_files_are_fetched(
    url: &str,
    name: &str,
    resolution: &Option<String>,
    headers: &TextMap,
    keys: &Vec<KeyInfo>,
    is_test: bool,
    r: Vec<String>,
)
    requires
        headers@.len() == 0,
        call_ensures(build_args, (Downloader::FileTool, url, name, resolution, headers, keys, is_test), r),
        name@.len() > 0,
        name@ != "."@,
        name@ != ".."@,
    ensures
        texts(r@) == seq![
            url@,
            "-d"@,
            "/tmp/spectur-downloads"@,
            "-o"@,
            name@,
            "--continue=true"@,
            "-x16"@,
            "-s16"@,
        ],
{
    assert(texts(r@) =~= seq![
        url@,
        "-d"@,
        "/tmp/spectur-downloads"@,
        "-o"@,
        name@,
        "--continue=true"@,
        "-x16"@,
        "-s16"@,
    ]);
}

/// A name that is empty or a dot is that of the folder itself; two dots are no
/// name, and a plain one stands in.
pub proof fn law_names_that_are_none(
    url: &str,
    name: &str,
    resolution: &Option<String>,
    headers: &TextMap,
    keys: &Vec<KeyInfo>,
    is_test: bool,
    r: Vec<String>,
    s: Vec<String>,
    v: Vec<String>,
    itag: Option<i64>,
)
    requires
        headers@.len() == 0,
        call_ensures(build_args, (Downloader::FileTool, url, name, resolution, headers, keys, is_test), r),
        call_ensures(build_args, (Downloader::StreamTool, url, name, resolution, headers, keys, is_test), s),
        call_ensures(yt_download_args, (url, name, itag, is_test), v),
    ensures
        name@.len() == 0 || name@ == "."@ ==> {
            &&& texts(r@)[2] == "/tmp"@
            &&& texts(r@)[4] == "spectur-downloads"@
            &&& texts(s@)[2] == "/tmp"@
            &&& texts(s@)[4] == "spectur-downloads"@
            &&& texts(v@)[2] == "/tmp"@ + (if is_test {
                "/%(title)s_test.%(ext)s"@
            } else {
                "/%(title)s.%(ext)s"@
            })
        },
        name@ == ".."@ ==> {
            &&& texts(r@)[2] == "/tmp/spectur-downloads"@
            &&& texts(r@)[4] == "download.mp4"@
            &&& texts(s@)[4] == "download"@
        },
{
    reveal_strlit(".");
    reveal_strlit("..");
    reveal_strlit("spectur-downloads");
    lemma_no_dot("spectur-downloads"@, '.');
}

/// A program for lists of segments is told the URL, the folder and the name
/// without its ending; then, where asked for, the first part only, the
/// resolution, and the key of each entry that has one.
pub proof fn law_lists_are_fetched(
    url: &str,
    name: &str,
    resolution: &Option<String>,
    headers: &TextMap,
    keys: &Vec<KeyInfo>,
    is_test: bool,
    r: Vec<String>,
    stem: Seq<char>,
    ending: Seq<char>,
)
    requires
        headers@.len() == 0,
        keys@.len() == 0,
        call_ensures(build_args, (Downloader::StreamTool, url, name, resolution, headers, keys, is_test), r),
        name@ == stem + ending,
        stem.len() > 0,
        name@ != ".."@,
        ending.len() > 0 ==> ending[0] == '.',
        forall|i: int| 0 < i < ending.len() ==> #[trigger] ending[i] != '.',
        ending.len() == 0 ==> forall|i: int| 0 < i < stem.len() ==> #[trigger] stem[i] != '.',
        ending.len() == 0 ==> stem != "."@,
    ensures
        texts(r@) == seq![
            url@,
            "--save-dir"@,
            "/tmp/spectur-downloads"@,
            "--save-name"@,
            stem,
            "--tmp-dir"@,
            "/tmp/spectur-downloads"@ + "/tmp-"@ + stem,
            "--auto-select"@,
            "--check-segments-count=false"@,
        ] + (if is_test {
            seq!["--custom-range"@, "0-5"@]
        } else {
            Seq::empty()
        }) + (match *resolution {
            Some(res) => seq!["-sv"@, "res="@ + res@],
            None => Seq::empty(),
        }),
{
    reveal_strlit(".");
    let n = name@;
    if ending.len() > 0 {
        assert(n[stem.len() as int] == '.');
        assert forall|i: int| stem.len() < i < n.len() implies #[trigger] n[i] != '.' by {
            assert(n[i] == ending[i - stem.len()]);
        }
        lemma_last_dot(n, '.', stem.len() as int);
        assert(n.take(stem.len() as int) =~= stem);
        assert(n != "."@);
    } else {
        assert(n =~= stem);
        lemma_last_found(n, '.');
        assert(last_index_of(n, '.') <= 0);
    }
    assert(keys_args(keys@, 0) =~= Seq::empty());
    let r0 = texts(r@);
    assert(r0 =~= seq![
        url@,
        "--save-dir"@,
        "/tmp/spectur-downloads"@,
        "--save-name"@,
        stem,
        "--tmp-dir"@,
        "/tmp/spectur-downloads"@ + "/tmp-"@ + stem,
        "--auto-select"@,
        "--check-segments-count=false"@,
    ] + (if is_test {
        seq!["--custom-range"@, "0-5"@]
    } else {
        Seq::empty()
    }) + (match *resolution {
        Some(res) => seq!["-sv"@, "res="@ + res@],
        None => Seq::empty(),
    }));
}

/// An entry more is a key more for a program for lists of segments, if it has
/// one; a program for files takes none.
pub proof fn law_keys_become_arguments(
    tool: Downloader,
    url: &str,
    name: &str,
    resolution: &Option<String>,
    headers: &TextMap,
    a: &Vec<KeyInfo>,
    b: &Vec<KeyInfo>,
    is_test: bool,
    x: Vec<String>,
    y: Vec<String>,
    last: KeyInfo,
)
    requires
        call_ensures(build_args, (tool, url, name, resolution, headers, a, is_test), x),
        call_ensures(build_args, (tool, url, name, resolution, headers, b, is_test), y),
        b@ == a@.push(last),
    ensures
        tool == Downloader::FileTool ==> texts(y@) == texts(x@),
        tool == Downloader::StreamTool && last.key_hex is None ==> texts(y@) == texts(x@),
        tool == Downloader::StreamTool ==> (last.key_hex matches Some(h) ==> texts(y@) == texts(x@) + seq!["--key"@, h@]),
{
    assert(b@.take(a@.len() as int) =~= a@);
    lemma_keys_prefix(a@, b@, a@.len() as int);
    if tool == Downloader::StreamTool {
        if let Some(h) = last.key_hex {
            assert(keys_args(b@, b@.len() as int) == keys_args(a@, a@.len() as int) + seq!["--key"@, h@]);
            assert(texts(y@) =~= texts(x@) + seq!["--key"@, h@]);
        }
    }
}

proof fn lemma_keys_prefix(a: Seq<KeyInfo>, b: Seq<KeyInfo>, n: int)
    requires
        0 <= n <= a.len() <= b.len(),
        b.take(a.len() as int) == a,
    ensures
        keys_args(a, n) == keys_args(b, n),
    decreases n,
{
    if n > 0 {
        lemma_keys_prefix(a, b, n - 1);
        assert(b.take(a.len() as int)[n - 1] == b[n - 1]);
    }
}

/// The program for videos is told the URL, where to, and which format: that
/// with the number, or else the best. A test takes the first ten seconds.
pub proof fn law_videos_are_fetched(
    url: &str,
    number: i64,
    is_test: bool,
    r: Vec<String>,
    name: &str,
    itag: Option<i64>,
    s: Vec<String>,
)
    requires
        call_ensures(yt_format_args, (url, number, is_test), r),
        call_ensures(yt_download_args, (url, name, itag, is_test), s),
        name@.len() > 0,
        name@ != "."@,
    ensures
        texts(r@).len() == (if is_test {
            7int
        } else {
            5
        }),
        texts(r@)[0] == url@,
        texts(r@)[1] == "-o"@,
        texts(r@)[2] == "/tmp/spectur-downloads"@ + (if is_test {
            "/%(title)s_test.%(ext)s"@
        } else {
            "/%(title)s.%(ext)s"@
        }),
        texts(r@)[3] == "-f"@,
        texts(r@)[4] == signed_decimal(number as int),
        is_test ==> texts(r@)[5] == "--download-sections"@ && texts(r@)[6] == "*0:00-0:10"@,
        itag == Some(number) ==> texts(s@) == texts(r@),
        itag is None ==> texts(s@) == texts(r@).update(4, "bestvideo+bestaudio/best"@),
{
    if itag is None {
        assert(texts(s@) =~= texts(r@).update(4, "bestvideo+bestaudio/best"@));
    }
}

} // verus!
