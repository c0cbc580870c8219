//! Downloads: what is known when one starts, and how it goes on.

use vstd::prelude::*;
use crate::numerals::{signed_decimal, signed_decimal_string};
use crate::request::copy_text;
use crate::spectur::types::{
    is_tab, AppState, CapturedStream, DownloadStatus, DownloadTask, KeyInfo, ProbeState, StreamFormat, TabSession,
    YtFormat,
};
use crate::text::{contains, lower_unicode, mentions, owned, same, texts, unicode_lower};
use crate::text_map::{with_entry, TextMap};
use crate::web_url::{opt_text, opt_url, url_parts, UrlParts, UrlView};

verus! {

/// Stream `j` of tab `t` is the first with the URL.
pub open spec fn is_at_url(tabs: Seq<TabSession>, url: Seq<char>, t: int, j: int) -> bool {
    &&& 0 <= t < tabs.len()
    &&& 0 <= j < tabs[t].streams@.len()
    &&& tabs[t].streams@[j].url@ == url
    &&& forall|b: int| 0 <= b < j ==> (#[trigger] tabs[t].streams@[b]).url@ != url
    &&& forall|a: int| 0 <= a < t ==> lacks_url(#[trigger] tabs[a], url)
}

/// No stream of the tab has the URL.
pub open spec fn lacks_url(tab: TabSession, url: Seq<char>) -> bool {
    forall|b: int| 0 <= b < tab.streams@.len() ==> (#[trigger] tab.streams@[b]).url@ != url
}

/// The stream with the URL: its tab and its position.
pub fn find_url(tabs: &Vec<TabSession>, url: &str) -> (r: Option<(usize, usize)>)
    ensures
        match r {
            Some((t, j)) => is_at_url(tabs@, url@, t as int, j as int),
            None => all_lack_url(tabs@, url@),
        },
{
    let mut t: usize = 0;
    while t < tabs.len()
        invariant
            t <= tabs@.len(),
            forall|a: int| 0 <= a < t ==> lacks_url(#[trigger] tabs@[a], url@),
        decreases tabs@.len() - t,
    {
        let streams: &Vec<CapturedStream> = &tabs[t].streams;
        let mut j: usize = 0;
        while j < streams.len()
            invariant
                t < tabs@.len(),
                streams@ == tabs@[t as int].streams@,
                j <= streams@.len(),
                forall|a: int| 0 <= a < t ==> lacks_url(#[trigger] tabs@[a], url@),
                forall|b: int| 0 <= b < j ==> (#[trigger] streams@[b]).url@ != url@,
            decreases streams@.len() - j,
        {
            if same(streams[j].url.as_str(), url) {
                return Some((t, j));
            }
            j = j + 1;
        }
        t = t + 1;
    }
    None
}

/// A header with the name, in whatever case, is there.
pub open spec fn mentions_header(headers: Seq<(Seq<char>, Seq<char>)>, name: Seq<char>) -> bool {
    exists|i: int| 0 <= i < headers.len() && unicode_lower((#[trigger] headers[i]).0) == name
}

fn header_there(headers: &TextMap, name: &str) -> (r: bool)
    ensures
        r == mentions_header(headers@, name@),
{
    let mut i: usize = 0;
    while i < headers.entries.len()
        invariant
            i <= headers.entries@.len(),
            forall|k: int| 0 <= k < i ==> unicode_lower((#[trigger] headers@[k]).0) != name@,
        decreases headers.entries@.len() - i,
    {
        assert(headers@[i as int].0 == headers.entries@[i as int].0@);
        let lowered: String = lower_unicode(headers.entries[i].0.as_str());
        if same(lowered.as_str(), name) {
            return true;
        }
        i = i + 1;
    }
    false
}

/// The browser that a download passes for.
pub open spec fn default_agent() -> Seq<char> {
    "Mozilla/5.0 (Windows NT 10.0; Win64; x64) AppleWebKit/537.36 (KHTML, like Gecko) Chrome/120.0.0.0 Safari/537.36"@
}

/// The headers with a name for the browser, if there was none.
pub open spec fn with_agent(headers: Seq<(Seq<char>, Seq<char>)>) -> Seq<(Seq<char>, Seq<char>)> {
    if mentions_header(headers, "user-agent"@) {
        headers
    } else {
        with_entry(headers, "User-Agent"@, default_agent())
    }
}

/// The headers with the page that the stream was seen on, if there was none.
pub open spec fn with_referer(headers: Seq<(Seq<char>, Seq<char>)>, page: Seq<char>) -> Seq<(Seq<char>, Seq<char>)> {
    if !mentions_header(headers, "referer"@) && page.len() > 0 {
        with_entry(headers, "Referer"@, page)
    } else {
        headers
    }
}

/// The headers with the origin of the page, if there was none and the page
/// has one.
pub open spec fn with_origin(
    headers: Seq<(Seq<char>, Seq<char>)>,
    page: Seq<char>,
    parts: Option<UrlView>,
) -> Seq<(Seq<char>, Seq<char>)> {
    match parts {
        Some(u) => if !mentions_header(headers, "origin"@) && page.len() > 0 {
            with_entry(
                headers,
                "Origin"@,
                u.scheme + "://"@ + match u.host {
                    Some(h) => h,
                    None => Seq::empty(),
                },
            )
        } else {
            headers
        },
        None => headers,
    }
}

/// The headers that go with a download.
pub open spec fn final_headers(
    headers: Seq<(Seq<char>, Seq<char>)>,
    page: Option<Seq<char>>,
    parts: Option<UrlView>,
) -> Seq<(Seq<char>, Seq<char>)> {
    match page {
        Some(p) => with_origin(with_referer(with_agent(headers), p), p, parts),
        None => with_agent(headers),
    }
}

/// Adds to the headers of a stream what a browser would send along. `page`
/// is the page that the stream was seen on, `parts` are those of its URL.
pub fn complete_headers(headers: TextMap, page: &Option<String>, parts: &Option<UrlParts>) -> (r: TextMap)
    ensures
        r@ == final_headers(headers@, opt_text(*page), opt_url(*parts)),
{
    let mut headers: TextMap = headers;
    if !header_there(&headers, "user-agent") {
        headers.insert(
            owned("User-Agent"),
            owned(
                "Mozilla/5.0 (Windows NT 10.0; Win64; x64) AppleWebKit/537.36 (KHTML, like Gecko) Chrome/120.0.0.0 Safari/537.36",
            ),
        );
    }
    match page {
        Some(p) => {
            let empty: bool = p.as_str().unicode_len() == 0;
            if !header_there(&headers, "referer") && !empty {
                headers.insert(owned("Referer"), owned(p.as_str()));
            }
            if !header_there(&headers, "origin") && !empty {
                match parts {
                    Some(u) => {
                        let mut value: String = owned(u.scheme.as_str());
                        value.append("://");
                        match &u.host {
                            Some(h) => {
                                value.append(h.as_str());
                            },
                            None => {
                                assert(value@ + Seq::<char>::empty() =~= value@);
                            },
                        }
                        headers.insert(owned("Origin"), value);
                    },
                    None => {},
                }
            }
        },
        None => {},
    }
    headers
}

/// The URL is that of a video.
pub open spec fn is_video_url(url: Seq<char>) -> bool {
    contains(url, "youtube.com"@) || contains(url, "youtu.be"@)
}

/// Format `i` of a page is the first with the short label.
pub open spec fn is_labelled(formats: Seq<YtFormat>, label: Seq<char>, i: int) -> bool {
    0 <= i < formats.len() && formats[i].short_text() == label && forall|k: int|
        0 <= k < i ==> (#[trigger] formats[k]).short_text() != label
}

/// `itag` is the number of the format that a resolution of a video stands for.
pub open spec fn is_chosen(app: AppState, url: Seq<char>, resolution: Option<Seq<char>>, itag: Option<i64>) -> bool {
    match itag {
        Some(n) => is_video_url(url) && exists|t: int, i: int|
            is_tab(app.tabs@, url, t) && #[trigger] is_labelled(app.tabs@[t].yt_formats@, resolution->0, i)
                && resolution is Some && app.tabs@[t].yt_formats@[i].itag == n,
        None => is_video_url(url) && resolution is Some ==> forall|t: int, i: int|
            is_tab(app.tabs@, url, t) ==> !#[trigger] is_labelled(app.tabs@[t].yt_formats@, resolution->0, i),
    }
}

fn find_label(formats: &Vec<YtFormat>, label: &str) -> (r: Option<usize>)
    ensures
        match r {
            Some(i) => is_labelled(formats@, label@, i as int),
            None => forall|i: int| !#[trigger] is_labelled(formats@, label@, i),
        },
{
    let mut i: usize = 0;
    while i < formats.len()
        invariant
            i <= formats@.len(),
            forall|k: int| 0 <= k < i ==> (#[trigger] formats@[k]).short_text() != label@,
        decreases formats@.len() - i,
    {
        let l: String = formats[i].short_label();
        if same(l.as_str(), label) {
            return Some(i);
        }
        i = i + 1;
    }
    assert forall|j: int| !#[trigger] is_labelled(formats@, label@, j) by {
        if 0 <= j < formats@.len() {
            assert(formats@[j].short_text() != label@);
        }
    }
    None
}

/// What is known when a download starts.
#[derive(Debug)]
pub struct DownloadSource {
    pub headers: TextMap,
    pub keys: Vec<KeyInfo>,
    pub is_video: bool,
    pub itag: Option<i64>,
    pub format: StreamFormat,
}

/// `r` is what the first stream with the URL came with.
pub open spec fn goes_as_its_stream(app: AppState, url: Seq<char>, r: DownloadSource) -> bool {
    forall|t: int, j: int| #[trigger]
        is_at_url(app.tabs@, url, t, j) ==> {
            let s = app.tabs@[t].streams@[j];
            let page = app.tabs@[t].page_url@;
            &&& r.headers@ == final_headers(s.request_headers@, Some(page), url_parts(page))
            &&& keys_copied(done_keys(s), r.keys@)
            &&& r.format == s.format
        }
}

/// No stream of any tab has the URL.
pub open spec fn all_lack_url(tabs: Seq<TabSession>, url: Seq<char>) -> bool {
    forall|t: int| 0 <= t < tabs.len() ==> lacks_url(#[trigger] tabs[t], url)
}

/// `after` holds the values of `before`.
pub open spec fn keys_copied(before: Seq<KeyInfo>, after: Seq<KeyInfo>) -> bool {
    after.len() == before.len() && forall|i: int| 0 <= i < before.len() ==> (#[trigger] after[i])@ == before[i]@
}

fn copy_keys(keys: &Vec<KeyInfo>) -> (r: Vec<KeyInfo>)
    ensures
        keys_copied(keys@, r@),
{
    let mut r: Vec<KeyInfo> = Vec::new();
    let mut i: usize = 0;
    while i < keys.len()
        invariant
            i <= keys@.len(),
            r@.len() == i,
            forall|k: int| 0 <= k < i ==> (#[trigger] r@[k])@ == keys@[k]@,
        decreases keys@.len() - i,
    {
        let k: &KeyInfo = &keys[i];
        r.push(
            KeyInfo {
                method: owned(k.method.as_str()),
                uri: copy_text(&k.uri),
                iv: copy_text(&k.iv),
                keyformat: copy_text(&k.keyformat),
                key_hex: copy_text(&k.key_hex),
            },
        );
        i = i + 1;
    }
    r
}

/// The keys that a stream is known to use.
pub open spec fn done_keys(s: CapturedStream) -> Seq<KeyInfo> {
    match s.probe_state {
        ProbeState::Done(meta) => meta.keys@,
        _ => Seq::empty(),
    }
}

impl AppState {
    /// What is known of the stream with the URL when its download starts.
    pub fn download_source(&self, url: &str, resolution: &Option<String>) -> (r: DownloadSource)
        ensures
            r.is_video == is_video_url(url@),
            is_chosen(*self, url@, opt_text(*resolution), r.itag),
            goes_as_its_stream(*self, url@, r),
            all_lack_url(self.tabs@, url@) ==> {
                &&& r.headers@ == final_headers(Seq::empty(), None, None)
                &&& r.keys@.len() == 0
                &&& r.format == StreamFormat::Unknown
            },
    {
        let is_video: bool = mentions(url, "youtube.com") || mentions(url, "youtu.be");
        let itag: Option<i64> = self.choose_itag(url, resolution, is_video);
        match find_url(&self.tabs, url) {
            Some((t, j)) => {
                let tab: &TabSession = &self.tabs[t];
                let s: &CapturedStream = &tab.streams[j];
                let page: Option<String> = Some(owned(tab.page_url.as_str()));
                let parts: Option<UrlParts> = UrlParts::parse(tab.page_url.as_str());
                let keys: Vec<KeyInfo> = match &s.probe_state {
                    ProbeState::Done(meta) => copy_keys(&meta.keys),
                    _ => Vec::new(),
                };
                proof {
                    assert forall|a: int, b: int| #[trigger] is_at_url(self.tabs@, url@, a, b) implies a == t && b
                        == j by {
                        lemma_url_unique(self.tabs@, url@, t as int, j as int, a, b);
                    }
                    assert(!lacks_url(self.tabs@[t as int], url@)) by {
                        assert(self.tabs@[t as int].streams@[j as int].url@ == url@);
                    }
                }
                DownloadSource {
                    headers: complete_headers(s.request_headers.clone(), &page, &parts),
                    keys,
                    is_video,
                    itag,
                    format: s.format,
                }
            },
            None => {
                assert forall|a: int, b: int| !#[trigger] is_at_url(self.tabs@, url@, a, b) by {
                    if is_at_url(self.tabs@, url@, a, b) {
                        assert(lacks_url(self.tabs@[a], url@));
                        assert(self.tabs@[a].streams@[b].url@ == url@);
                    }
                }
                DownloadSource {
                    headers: complete_headers(TextMap::new(), &None, &None),
                    keys: Vec::new(),
                    is_video,
                    itag,
                    format: StreamFormat::Unknown,
                }
            },
        }
    }

    fn choose_itag(&self, url: &str, resolution: &Option<String>, is_video: bool) -> (r: Option<i64>)
        requires
            is_video == is_video_url(url@),
        ensures
            is_chosen(*self, url@, opt_text(*resolution), r),
    {
        if !is_video {
            return None;
        }
        match resolution {
            Some(label) => match self.find_tab(url) {
                Some(t) => {
                    let ghost res = opt_text(*resolution);
                    assert(res->0 == label@);
                    match find_label(&self.tabs[t].yt_formats, label.as_str()) {
                        Some(i) => {
                            assert(is_tab(self.tabs@, url@, t as int) && is_labelled(
                                self.tabs@[t as int].yt_formats@,
                                res->0,
                                i as int,
                            ));
                            Some(self.tabs[t].yt_formats[i].itag)
                        },
                        None => {
                            assert forall|u: int, i: int| is_tab(self.tabs@, url@, u) implies !#[trigger] is_labelled(
                                self.tabs@[u].yt_formats@,
                                label@,
                                i,
                            ) by {
                                if u < t {
                                    assert(self.tabs@[u].page_url@ != url@);
                                } else if t < u {
                                    assert(self.tabs@[t as int].page_url@ != url@);
                                }
                            }
                            None
                        },
                    }
                },
                None => {
                    assert forall|u: int, i: int| is_tab(self.tabs@, url@, u) implies !#[trigger] is_labelled(
                        self.tabs@[u].yt_formats@,
                        label@,
                        i,
                    ) by {
                        assert(self.tabs@[u].page_url@ != url@);
                    }
                    None
                },
            },
            None => None,
        }
    }
}

proof fn lemma_url_unique(tabs: Seq<TabSession>, url: Seq<char>, t: int, j: int, a: int, b: int)
    requires
        is_at_url(tabs, url, t, j),
        is_at_url(tabs, url, a, b),
    ensures
        a == t,
        b == j,
{
    assert(tabs[t].streams@[j].url@ == url);
    assert(tabs[a].streams@[b].url@ == url);
    if a < t {
        assert(lacks_url(tabs[a], url));
    } else if t < a {
        assert(lacks_url(tabs[t], url));
    }
}

/// A download that has just started.
pub open spec fn fresh_task(t: DownloadTask, id: usize, url: Seq<char>, path: Seq<char>) -> bool {
    &&& t.id == id
    &&& t.stream_url@ == url
    &&& t.output_path@ == path
    &&& t.progress == 0
    &&& t.speed_bits == 0
    &&& t.log_lines@.len() == 0
    &&& t.status is Running
}

/// `after` is `before` but for the downloads and the notes.
pub open spec fn same_streams(before: AppState, after: AppState) -> bool {
    &&& after.selection() == before.selection()
    &&& after.next_stream_id == before.next_stream_id
    &&& after.tabs == before.tabs
    &&& after.intercepted_keys == before.intercepted_keys
}

/// `after` is `before` with one more download, and a note of it.
pub open spec fn started(before: AppState, after: AppState, url: Seq<char>, path: Seq<char>, note: Seq<char>) -> bool {
    &&& same_streams(before, after)
    &&& after.downloads@.len() == before.downloads@.len() + 1
    &&& after.downloads@.drop_last() == before.downloads@
    &&& fresh_task(after.downloads@.last(), before.downloads@.len() as usize, url, path)
    &&& texts(after.tui_logs@) == texts(before.tui_logs@).push(note)
}

/// How a download ended.
pub open spec fn ended(before: DownloadTask, after: DownloadTask, result: Result<(), String>) -> bool {
    match result {
        Ok(_) => after == (DownloadTask { status: DownloadStatus::Finished, progress: 100, ..before }),
        Err(e) => after.status matches DownloadStatus::Failed(text) && text@ == e@ && (DownloadTask {
            status: before.status,
            ..after
        }) == before,
    }
}

/// `after` is `before` with download `id` ended, and a note of it.
pub open spec fn task_ended(
    before: AppState,
    after: AppState,
    id: int,
    result: Result<(), String>,
    note: Seq<char>,
) -> bool {
    if id < before.downloads@.len() {
        &&& same_streams(before, after)
        &&& after.downloads@.len() == before.downloads@.len()
        &&& ended(before.downloads@[id], after.downloads@[id], result)
        &&& forall|k: int|
            0 <= k < before.downloads@.len() && k != id ==> #[trigger] after.downloads@[k] == before.downloads@[k]
        &&& texts(after.tui_logs@) == texts(before.tui_logs@).push(note)
    } else {
        after == before
    }
}

/// What `regex` finds of `([0-9.]+)%` in a text: the first run of digits and
/// dots that a percent sign follows.
pub open spec fn is_percent(s: Seq<char>, i: int, j: int) -> bool {
    &&& 0 <= i < j < s.len()
    &&& s[j] == '%'
    &&& forall|k: int| i <= k < j ==> is_figure(#[trigger] s[k])
    &&& i > 0 ==> !is_figure(s[i - 1])
}

pub open spec fn is_figure(c: char) -> bool {
    '0' <= c && c <= '9' || c == '.'
}

/// There is no percentage in a text.
pub open spec fn no_percent(s: Seq<char>) -> bool {
    forall|i: int, j: int| !#[trigger] is_percent(s, i, j)
}

/// The first percentage in a text stands from `i` to `j`.
pub open spec fn is_first_percent(s: Seq<char>, i: int, j: int) -> bool {
    is_percent(s, i, j) && forall|a: int, b: int| #[trigger] is_percent(s, a, b) ==> i <= a
}

/// `regex::Regex::captures` with the pattern `([0-9.]+)%`: its first group,
/// which is the first run of digits and dots before a percent sign.
#[verifier::external_body]
fn capture_percent(line: &str) -> (r: Option<String>)
    ensures
        match r {
            Some(t) => exists|i: int, j: int| #[trigger]
                is_first_percent(line@, i, j) && t@ == line@.subrange(i, j),
            None => no_percent(line@),
        },
{
    regex::Regex::new("([0-9.]+)%").unwrap().captures(line).map(|c| c[1].to_string())
}

/// The text of the first percentage in a line.
pub fn percent_text(line: &str) -> (r: Option<String>)
    ensures
        match r {
            Some(t) => exists|i: int, j: int| #[trigger]
                is_first_percent(line@, i, j) && t@ == line@.subrange(i, j),
            None => no_percent(line@),
        },
{
    capture_percent(line)
}

/// How many lines of a program's output are kept.
pub const MAX_LOG_LINES: usize = 200;

/// The lines that are kept when one more comes: without the first, once there
/// are too many.
pub open spec fn lines_kept(lines: Seq<Seq<char>>, line: Seq<char>) -> Seq<Seq<char>> {
    if lines.len() >= MAX_LOG_LINES {
        lines.push(line).skip(1)
    } else {
        lines.push(line)
    }
}

impl AppState {
    fn push_task(&mut self, url: &str, path: &str, note: String) -> (id: usize)
        ensures
            started(*old(self), *final(self), url@, path@, note@),
            id == old(self).downloads@.len(),
    {
        let id: usize = self.downloads.len();
        self.downloads.push(
            DownloadTask {
                id,
                stream_url: owned(url),
                output_path: owned(path),
                progress: 0,
                speed_bits: 0,
                log_lines: Vec::new(),
                status: DownloadStatus::Running,
            },
        );
        self.tui_logs.push(note);
        assert(self.downloads@.drop_last() =~= old(self).downloads@);
        assert(texts(self.tui_logs@) =~= texts(old(self).tui_logs@).push(note@));
        id
    }

    /// Notes that a download has started, and returns its number.
    pub fn start_download(&mut self, url: &str, path: &str, is_test: bool) -> (id: usize)
        ensures
            started(
                *old(self),
                *final(self),
                url@,
                path@,
                if is_test {
                    "Starting test download: "@ + url@
                } else {
                    "Starting download: "@ + url@
                },
            ),
            id == old(self).downloads@.len(),
            old(self).wf() ==> final(self).wf(),
    {
        let mut note: String = if is_test {
            owned("Starting test download: ")
        } else {
            owned("Starting download: ")
        };
        note.append(url);
        self.push_task(url, path, note)
    }

    /// Notes that the download of a format of a video has started, and
    /// returns its number.
    pub fn start_yt_download(&mut self, url: &str, format: &YtFormat, is_test: bool) -> (id: usize)
        ensures
            exists|label: Seq<char>| #[trigger]
                format.is_label(label) && started(
                    *old(self),
                    *final(self),
                    url@,
                    Seq::empty(),
                    (if is_test {
                        "Starting YT test download: "@
                    } else {
                        "Starting YT download: "@
                    }) + label + " (itag "@ + signed_decimal(format.itag as int) + ")"@,
                ),
            id == old(self).downloads@.len(),
            old(self).wf() ==> final(self).wf(),
    {
        let mut note: String = if is_test {
            owned("Starting YT test download: ")
        } else {
            owned("Starting YT download: ")
        };
        let label: String = format.resolution_label();
        let tag: String = signed_decimal_string(format.itag);
        note.append(label.as_str());
        note.append(" (itag ");
        note.append(tag.as_str());
        note.append(")");
        let empty: String = String::new();
        assert(empty@ =~= Seq::empty());
        self.push_task(url, empty.as_str(), note)
    }

    fn end_task(&mut self, id: usize, result: Result<(), String>, note: String)
        ensures
            task_ended(*old(self), *final(self), id as int, result, note@),
    {
        if id < self.downloads.len() {
            let task: &mut DownloadTask = &mut self.downloads[id];
            match result {
                Ok(_) => {
                    task.status = DownloadStatus::Finished;
                    task.progress = 100;
                },
                Err(e) => {
                    task.status = DownloadStatus::Failed(e);
                },
            }
            self.tui_logs.push(note);
            assert(texts(self.tui_logs@) =~= texts(old(self).tui_logs@).push(note@));
        }
    }

    /// Notes how a download ended.
    pub fn finish_download(&mut self, id: usize, result: Result<(), String>)
        ensures
            task_ended(
                *old(self),
                *final(self),
                id as int,
                result,
                match result {
                    Ok(_) => "Download complete: "@ + old(self).downloads@[id as int].output_path@,
                    Err(e) => "Download failed: "@ + e@,
                },
            ),
            old(self).wf() ==> final(self).wf(),
    {
        if id >= self.downloads.len() {
            return ;
        }
        let note: String = match &result {
            Ok(_) => {
                let mut t: String = owned("Download complete: ");
                t.append(self.downloads[id].output_path.as_str());
                t
            },
            Err(e) => {
                let mut t: String = owned("Download failed: ");
                t.append(e.as_str());
                t
            },
        };
        self.end_task(id, result, note);
    }

    /// Notes how the download of a format of a video ended.
    pub fn finish_yt_download(&mut self, id: usize, result: Result<(), String>)
        ensures
            task_ended(
                *old(self),
                *final(self),
                id as int,
                result,
                match result {
                    Ok(_) => "YT download complete"@,
                    Err(e) => "YT download failed: "@ + e@,
                },
            ),
            old(self).wf() ==> final(self).wf(),
    {
        let note: String = match &result {
            Ok(_) => owned("YT download complete"),
            Err(e) => {
                let mut t: String = owned("YT download failed: ");
                t.append(e.as_str());
                t
            },
        };
        self.end_task(id, result, note);
    }

    /// Takes in a line of a program's output. `percent` is the progress that
    /// the line tells of.
    pub fn note_line(&mut self, id: usize, line: String, percent: Option<u8>)
        ensures
            if id < old(self).downloads@.len() {
                let was = old(self).downloads@[id as int];
                let now = final(self).downloads@[id as int];
                &&& same_streams(*old(self), *final(self))
                &&& final(self).tui_logs == old(self).tui_logs
                &&& final(self).downloads@.len() == old(self).downloads@.len()
                &&& forall|k: int|
                    0 <= k < old(self).downloads@.len() && k != id ==> #[trigger] final(self).downloads@[k] == old(
                        self).downloads@[k]
                &&& texts(now.log_lines@) == lines_kept(texts(was.log_lines@), line@)
                &&& now.progress == match percent {
                    Some(p) => p,
                    None => was.progress,
                }
                &&& now == (DownloadTask { log_lines: now.log_lines, progress: now.progress, ..was })
            } else {
                *final(self) == *old(self)
            },
            old(self).wf() ==> final(self).wf(),
    {
        if id < self.downloads.len() {
            let task: &mut DownloadTask = &mut self.downloads[id];
            let ghost before = task.log_lines@;
            task.log_lines.push(line);
            if task.log_lines.len() > MAX_LOG_LINES {
                let _ = task.log_lines.remove(0);
            }
            assert(texts(task.log_lines@) =~= lines_kept(texts(before), line@));
            match percent {
                Some(p) => {
                    task.progress = p;
                },
                None => {},
            }
        }
    }
}

/// The lines of a download never become more than `MAX_LOG_LINES`, and the
/// last one is the newest.
pub proof fn law_lines_are_capped(lines: Seq<Seq<char>>, line: Seq<char>)
    requires
        lines.len() <= MAX_LOG_LINES,
    ensures
        0 < lines_kept(lines, line).len() <= MAX_LOG_LINES,
        lines_kept(lines, line).last() == line,
{
}

} // verus!
