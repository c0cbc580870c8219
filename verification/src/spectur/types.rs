//! What is known of the streams that were seen.

use vstd::prelude::*;
use crate::numerals::{signed_decimal, signed_decimal_string};
use crate::text::{
    begins, chars_of, contains, last_char_index, last_index_of, lower_unicode, mentions, owned, same,
    starts_with, string_between, texts, unicode_lower,
};
use crate::text_map::TextMap;
use crate::web_url::{opt_text, opt_url, url_parts, UrlParts, UrlView};

verus! {

/// A request that a browser made.
#[derive(Debug)]
pub struct StreamPayload {
    pub request_id: String,
    pub url: String,
    pub method: String,
    pub request_headers: TextMap,
    pub response_headers: TextMap,
    pub server_ip: String,
    pub page_url: String,
    pub page_title: String,
    pub timestamp: u64,
    pub manifest_content: Option<String>,
}

/// A key that a page was seen to use.
#[derive(Debug)]
pub struct KeyPayload {
    pub key: Vec<u8>,
    pub href: String,
    pub page_url: String,
    pub page_title: String,
    pub timestamp: u64,
}

/// The kind of a stream.
#[derive(Debug, Clone, Copy, PartialEq, Eq, Structural)]
pub enum StreamFormat {
    Hls,
    Dash,
    Mp4,
    Ts,
    Youtube,
    Unknown,
}

/// Where the duration of a stream is taken from.
#[derive(Debug)]
pub enum DurationSource {
    /// Whole seconds.
    Seconds(u64),
    /// A number in a text.
    Text(String),
    /// The durations of the segments, as bit patterns of binary32 numbers.
    Segments(Vec<u32>),
}

/// What a stream holds.
#[derive(Debug)]
pub struct StreamMetadata {
    pub duration: DurationSource,
    pub total_segments: usize,
    pub resolutions: Vec<ResolutionInfo>,
    pub audio_tracks: Vec<String>,
    pub keys: Vec<KeyInfo>,
    pub drm: Vec<DrmInfo>,
    pub segment_base_url: Option<String>,
    pub size_bytes: Option<u64>,
}

#[derive(Debug)]
pub struct ResolutionInfo {
    pub label: String,
    pub bandwidth: u64,
    pub codecs: Option<String>,
    pub frame_rate: Option<String>,
    pub mime_type: Option<String>,
    pub url: Option<String>,
}

#[derive(Debug)]
pub struct KeyInfo {
    pub method: String,
    pub uri: Option<String>,
    pub iv: Option<String>,
    pub keyformat: Option<String>,
    pub key_hex: Option<String>,
}

#[derive(Debug)]
pub struct DrmInfo {
    pub system: String,
    pub scheme_id_uri: String,
    pub pssh_data: Option<String>,
    pub default_kid: Option<String>,
    pub license_url: Option<String>,
}

/// Where a duration is taken from.
pub enum DurationView {
    Seconds(u64),
    Text(Seq<char>),
    Segments(Seq<u32>),
}

#[verifier::ext_equal]
pub struct ResolutionView {
    pub label: Seq<char>,
    pub bandwidth: u64,
    pub codecs: Option<Seq<char>>,
    pub frame_rate: Option<Seq<char>>,
    pub mime_type: Option<Seq<char>>,
    pub url: Option<Seq<char>>,
}

#[verifier::ext_equal]
pub struct KeyView {
    pub method: Seq<char>,
    pub uri: Option<Seq<char>>,
    pub iv: Option<Seq<char>>,
    pub keyformat: Option<Seq<char>>,
    pub key_hex: Option<Seq<char>>,
}

#[verifier::ext_equal]
pub struct DrmView {
    pub system: Seq<char>,
    pub scheme_id_uri: Seq<char>,
    pub pssh_data: Option<Seq<char>>,
    pub default_kid: Option<Seq<char>>,
    pub license_url: Option<Seq<char>>,
}

#[verifier::ext_equal]
pub struct MetadataView {
    pub duration: DurationView,
    pub total_segments: usize,
    pub resolutions: Seq<ResolutionView>,
    pub audio_tracks: Seq<Seq<char>>,
    pub keys: Seq<KeyView>,
    pub drm: Seq<DrmView>,
    pub segment_base_url: Option<Seq<char>>,
    pub size_bytes: Option<u64>,
}

impl DurationSource {
    pub open spec fn view(&self) -> DurationView {
        match *self {
            DurationSource::Seconds(n) => DurationView::Seconds(n),
            DurationSource::Text(t) => DurationView::Text(t@),
            DurationSource::Segments(v) => DurationView::Segments(v@),
        }
    }
}

impl ResolutionInfo {
    pub open spec fn view(&self) -> ResolutionView {
        ResolutionView {
            label: self.label@,
            bandwidth: self.bandwidth,
            codecs: opt_text(self.codecs),
            frame_rate: opt_text(self.frame_rate),
            mime_type: opt_text(self.mime_type),
            url: opt_text(self.url),
        }
    }
}

impl KeyInfo {
    pub open spec fn view(&self) -> KeyView {
        KeyView {
            method: self.method@,
            uri: opt_text(self.uri),
            iv: opt_text(self.iv),
            keyformat: opt_text(self.keyformat),
            key_hex: opt_text(self.key_hex),
        }
    }
}

impl DrmInfo {
    pub open spec fn view(&self) -> DrmView {
        DrmView {
            system: self.system@,
            scheme_id_uri: self.scheme_id_uri@,
            pssh_data: opt_text(self.pssh_data),
            default_kid: opt_text(self.default_kid),
            license_url: opt_text(self.license_url),
        }
    }
}

pub open spec fn resolution_views(v: Seq<ResolutionInfo>) -> Seq<ResolutionView> {
    v.map_values(|r: ResolutionInfo| r@)
}

pub open spec fn key_views(v: Seq<KeyInfo>) -> Seq<KeyView> {
    v.map_values(|k: KeyInfo| k@)
}

pub open spec fn drm_views(v: Seq<DrmInfo>) -> Seq<DrmView> {
    v.map_values(|d: DrmInfo| d@)
}

impl StreamMetadata {
    pub open spec fn view(&self) -> MetadataView {
        MetadataView {
            duration: self.duration@,
            total_segments: self.total_segments,
            resolutions: resolution_views(self.resolutions@),
            audio_tracks: texts(self.audio_tracks@),
            keys: key_views(self.keys@),
            drm: drm_views(self.drm@),
            segment_base_url: opt_text(self.segment_base_url),
            size_bytes: self.size_bytes,
        }
    }
}

/// One of the formats that a video is offered in.
#[derive(Debug)]
pub struct YtFormat {
    pub itag: i64,
    pub mime_type: String,
    pub bitrate: Option<i64>,
    pub width: Option<i64>,
    pub height: Option<i64>,
    pub fps: Option<i64>,
    pub quality_label: Option<String>,
    pub content_length: Option<String>,
    pub approx_duration_ms: Option<String>,
    pub audio_channels: Option<i64>,
    pub audio_sample_rate: Option<String>,
}

impl YtFormat {
    pub open spec fn audio_only(&self) -> bool {
        starts_with(self.mime_type@, "audio/"@)
    }

    pub fn is_video(&self) -> (r: bool)
        ensures
            r == (self.width is Some && self.height is Some),
    {
        self.width.is_some() && self.height.is_some()
    }

    pub fn is_audio_only(&self) -> (r: bool)
        ensures
            r == self.audio_only(),
    {
        begins(self.mime_type.as_str(), "audio/")
    }

    /// `label` is that of the format: its size and quality, or what is known of it.
    pub open spec fn is_label(&self, label: Seq<char>) -> bool {
        label == match (self.width, self.height, opt_text(self.quality_label)) {
            (Some(w), Some(h), Some(q)) => signed_decimal(w as int) + "x"@ + signed_decimal(h as int) + " ("@ + q
                + ")"@,
            (Some(w), Some(h), None) => signed_decimal(w as int) + "x"@ + signed_decimal(h as int),
            (_, _, Some(q)) => q,
            _ => if self.audio_only() {
                "Audio (itag "@ + signed_decimal(self.itag as int) + ")"@
            } else {
                "itag "@ + signed_decimal(self.itag as int)
            },
        }
    }

    /// The label of the format: its size and quality, or what is known of it.
    pub fn resolution_label(&self) -> (r: String)
        ensures
            self.is_label(r@),
    {
        match (self.width, self.height) {
            (Some(w), Some(h)) => {
                let mut r: String = signed_decimal_string(w);
                let high: String = signed_decimal_string(h);
                r.append("x");
                r.append(high.as_str());
                match &self.quality_label {
                    Some(q) => {
                        r.append(" (");
                        r.append(q.as_str());
                        r.append(")");
                    },
                    None => {},
                }
                r
            },
            _ => match &self.quality_label {
                Some(q) => owned(q.as_str()),
                None => {
                    let tag: String = signed_decimal_string(self.itag);
                    if self.is_audio_only() {
                        let mut r: String = owned("Audio (itag ");
                        r.append(tag.as_str());
                        r.append(")");
                        r
                    } else {
                        let mut r: String = owned("itag ");
                        r.append(tag.as_str());
                        r
                    }
                },
            },
        }
    }

    /// The short label of the format.
    pub open spec fn short_text(&self) -> Seq<char> {
        match opt_text(self.quality_label) {
            Some(q) => q,
            None => if self.audio_only() {
                "Audio"@
            } else {
                "itag "@ + signed_decimal(self.itag as int)
            },
        }
    }

    pub fn short_label(&self) -> (r: String)
        ensures
            r@ == self.short_text(),
    {
        match &self.quality_label {
            Some(q) => owned(q.as_str()),
            None => {
                if self.is_audio_only() {
                    owned("Audio")
                } else {
                    let mut r: String = owned("itag ");
                    let tag: String = signed_decimal_string(self.itag);
                    r.append(tag.as_str());
                    r
                }
            },
        }
    }
}

/// How far the look at a stream has come.
#[derive(Debug)]
pub enum ProbeState {
    Probing,
    Done(StreamMetadata),
    Failed(String),
}

/// A stream that was seen.
#[derive(Debug)]
pub struct CapturedStream {
    pub stream_id: u64,
    pub url: String,
    pub method: String,
    pub request_headers: TextMap,
    pub server_ip: String,
    pub format: StreamFormat,
    pub probe_state: ProbeState,
    pub manifest_content: Option<String>,
}

/// The lower-case URL is that of a piece of a stream.
pub open spec fn is_piece_url(u: Seq<char>) -> bool {
    ||| contains(u, ".m4s"@)
    ||| contains(u, "/segment"@)
    ||| contains(u, "/fragment"@)
    ||| contains(u, "/chunk"@)
    ||| contains(u, "/init-"@)
    ||| contains(u, "seg-"@)
    ||| contains(u, "/range/"@)
    ||| contains(u, "/bytes/"@)
}

/// Whether a URL in lower case is that of a piece of a stream.
pub fn names_piece(lowered: &str) -> (r: bool)
    ensures
        r == is_piece_url(lowered@),
{
    mentions(lowered, ".m4s") || mentions(lowered, "/segment") || mentions(lowered, "/fragment") || mentions(
        lowered,
        "/chunk",
    ) || mentions(lowered, "/init-") || mentions(lowered, "seg-") || mentions(lowered, "/range/") || mentions(
        lowered,
        "/bytes/",
    )
}

impl CapturedStream {
    /// The stream is a piece of another one.
    pub open spec fn noise(&self) -> bool {
        self.format == StreamFormat::Ts || is_piece_url(unicode_lower(self.url@))
    }

    pub fn is_noise(&self) -> (r: bool)
        ensures
            r == self.noise(),
    {
        match self.format {
            StreamFormat::Ts => true,
            _ => {
                let lowered: String = lower_unicode(self.url.as_str());
                names_piece(lowered.as_str())
            },
        }
    }
}

/// The streams of one page.
#[derive(Debug)]
pub struct TabSession {
    pub page_url: String,
    pub page_title: String,
    pub streams: Vec<CapturedStream>,
    pub show_noise: bool,
    pub yt_formats: Vec<YtFormat>,
}

/// The positions of those of the first `n` streams that are shown.
pub open spec fn shown(streams: Seq<CapturedStream>, show_noise: bool, n: int) -> Seq<int>
    decreases n,
{
    if n <= 0 {
        Seq::empty()
    } else {
        let before = shown(streams, show_noise, n - 1);
        if show_noise || !streams[n - 1].noise() {
            before.push(n - 1)
        } else {
            before
        }
    }
}

impl TabSession {
    /// The positions of the streams that are shown.
    pub open spec fn visible(&self) -> Seq<int> {
        shown(self.streams@, self.show_noise, self.streams@.len() as int)
    }

    /// The positions of the streams that are shown: all of them, or those
    /// that are not pieces.
    pub fn visible_positions(&self) -> (r: Vec<usize>)
        ensures
            r@.map_values(|i: usize| i as int) == self.visible(),
            r@.len() == self.visible().len(),
            forall|i: int| 0 <= i < r@.len() ==> (#[trigger] r@[i]) < self.streams@.len(),
    {
        let mut r: Vec<usize> = Vec::new();
        let mut i: usize = 0;
        assert(r@.map_values(|i: usize| i as int) =~= Seq::empty());
        while i < self.streams.len()
            invariant
                i <= self.streams@.len(),
                r@.map_values(|i: usize| i as int) == shown(self.streams@, self.show_noise, i as int),
                forall|k: int| 0 <= k < r@.len() ==> (#[trigger] r@[k]) < self.streams@.len(),
            decreases self.streams@.len() - i,
        {
            let ghost before = r@;
            if self.show_noise || !self.streams[i].is_noise() {
                r.push(i);
                assert(r@.map_values(|i: usize| i as int) =~= before.map_values(|i: usize| i as int).push(i as int));
            }
            i = i + 1;
        }
        assert(r@.map_values(|i: usize| i as int).len() == r@.len());
        r
    }

    /// The streams that are shown.
    pub fn filtered_streams(&self) -> (r: Vec<&CapturedStream>)
        ensures
            r@.len() == self.visible().len(),
            forall|i: int| 0 <= i < r@.len() ==> *(#[trigger] r@[i]) == self.streams@[self.visible()[i]],
    {
        let positions: Vec<usize> = self.visible_positions();
        let mut r: Vec<&CapturedStream> = Vec::new();
        let mut i: usize = 0;
        while i < positions.len()
            invariant
                i <= positions@.len(),
                positions@.len() == self.visible().len(),
                positions@.map_values(|i: usize| i as int) == self.visible(),
                forall|k: int| 0 <= k < positions@.len() ==> (#[trigger] positions@[k]) < self.streams@.len(),
                r@.len() == i,
                forall|k: int| 0 <= k < i ==> *(#[trigger] r@[k]) == self.streams@[self.visible()[k]],
            decreases positions@.len() - i,
        {
            assert(positions@.map_values(|i: usize| i as int)[i as int] == positions@[i as int]);
            r.push(&self.streams[positions[i]]);
            i = i + 1;
        }
        r
    }
}

/// How a download of a stream stands.
#[derive(Debug)]
pub enum DownloadStatus {
    Queued,
    Running,
    Finished,
    Failed(String),
}

/// A download of a stream. The speed is the bit pattern of a binary32 number.
#[derive(Debug)]
pub struct DownloadTask {
    pub id: usize,
    pub stream_url: String,
    pub output_path: String,
    pub progress: u8,
    pub speed_bits: u32,
    pub log_lines: Vec<String>,
    pub status: DownloadStatus,
}

/// A pane of the interface.
#[derive(Debug, Clone, Copy, PartialEq, Eq, Structural)]
pub enum Panel {
    Streams,
    Metadata,
    Downloads,
}

/// Everything that is known.
#[derive(Debug)]
pub struct AppState {
    pub next_stream_id: u64,
    pub intercepted_keys: Vec<KeyPayload>,
    pub selected_yt_format_index: usize,
    pub selected_tab_index: usize,
    pub selected_stream_index: usize,
    pub selected_resolution_index: usize,
    pub selected_download_index: usize,
    pub tabs: Vec<TabSession>,
    pub downloads: Vec<DownloadTask>,
    pub tui_logs: Vec<String>,
    pub focused_panel: Panel,
}

/// The place after `i` of `n` in a ring.
pub open spec fn next_of(i: int, n: int) -> int {
    (i + 1) % n
}

/// The place before `i` of `n` in a ring.
pub open spec fn prev_of(i: int, n: int) -> int {
    if i == 0 {
        n - 1
    } else {
        i - 1
    }
}

/// The selections.
#[verifier::ext_equal]
pub struct SelectionView {
    pub yt_format: usize,
    pub tab: usize,
    pub stream: usize,
    pub resolution: usize,
    pub download: usize,
    pub panel: Panel,
}

/// The kind of a stream by the path of its URL, in lower case.
pub open spec fn format_by_path(path: Seq<char>) -> Option<StreamFormat> {
    if contains(path, ".m3u8"@) {
        Some(StreamFormat::Hls)
    } else if contains(path, ".mpd"@) {
        Some(StreamFormat::Dash)
    } else if contains(path, ".mp4"@) {
        Some(StreamFormat::Mp4)
    } else if contains(path, ".ts"@) {
        Some(StreamFormat::Ts)
    } else {
        None
    }
}

/// The kind of a stream by its content type, in lower case.
pub open spec fn format_by_type(t: Seq<char>) -> Option<StreamFormat> {
    if contains(t, "mpegurl"@) {
        Some(StreamFormat::Hls)
    } else if contains(t, "dash+xml"@) {
        Some(StreamFormat::Dash)
    } else if contains(t, "video/mp4"@) {
        Some(StreamFormat::Mp4)
    } else if contains(t, "video/mp2t"@) {
        Some(StreamFormat::Ts)
    } else {
        None
    }
}

/// The kind of a stream by the content types among its headers, whose names
/// and values are in lower case.
pub open spec fn format_by_headers(headers: Seq<(Seq<char>, Seq<char>)>) -> StreamFormat
    decreases headers.len(),
{
    if headers.len() == 0 {
        StreamFormat::Unknown
    } else if headers[0].0 == "content-type"@ && format_by_type(headers[0].1) is Some {
        format_by_type(headers[0].1)->0
    } else {
        format_by_headers(headers.skip(1))
    }
}

/// Names and values in lower case.
pub open spec fn lowered(headers: Seq<(Seq<char>, Seq<char>)>) -> Seq<(Seq<char>, Seq<char>)> {
    headers.map_values(|h: (Seq<char>, Seq<char>)| (unicode_lower(h.0), unicode_lower(h.1)))
}

/// The kind of a stream: by the path of its URL, else by its content type.
pub open spec fn format_of(path: Option<Seq<char>>, headers: Seq<(Seq<char>, Seq<char>)>) -> StreamFormat {
    match path {
        Some(p) => match format_by_path(p) {
            Some(f) => f,
            None => format_by_headers(headers),
        },
        None => format_by_headers(headers),
    }
}

fn path_format(path: &str) -> (r: Option<StreamFormat>)
    ensures
        r == format_by_path(path@),
{
    if mentions(path, ".m3u8") {
        Some(StreamFormat::Hls)
    } else if mentions(path, ".mpd") {
        Some(StreamFormat::Dash)
    } else if mentions(path, ".mp4") {
        Some(StreamFormat::Mp4)
    } else if mentions(path, ".ts") {
        Some(StreamFormat::Ts)
    } else {
        None
    }
}

fn type_format(t: &str) -> (r: Option<StreamFormat>)
    ensures
        r == format_by_type(t@),
{
    if mentions(t, "mpegurl") {
        Some(StreamFormat::Hls)
    } else if mentions(t, "dash+xml") {
        Some(StreamFormat::Dash)
    } else if mentions(t, "video/mp4") {
        Some(StreamFormat::Mp4)
    } else if mentions(t, "video/mp2t") {
        Some(StreamFormat::Ts)
    } else {
        None
    }
}

/// The kind of a stream, given the path of its URL and its response headers,
/// all in lower case.
pub fn detect_format_from(path: &Option<String>, headers: &TextMap) -> (r: StreamFormat)
    ensures
        r == format_of(opt_text(*path), headers@),
{
    match path {
        Some(p) => match path_format(p.as_str()) {
            Some(f) => {
                return f;
            },
            None => {},
        },
        None => {},
    }
    let ghost all = headers@;
    let mut i: usize = 0;
    assert(all.skip(0) =~= all);
    while i < headers.entries.len()
        invariant
            all == headers@,
            i <= headers.entries@.len(),
            format_of(opt_text(*path), all) == format_by_headers(all.skip(i as int)),
        decreases headers.entries@.len() - i,
    {
        assert(all.skip(i as int)[0] == (headers.entries@[i as int].0@, headers.entries@[i as int].1@));
        assert(all.skip(i as int).skip(1) =~= all.skip(i + 1));
        if same(headers.entries[i].0.as_str(), "content-type") {
            match type_format(headers.entries[i].1.as_str()) {
                Some(f) => {
                    return f;
                },
                None => {},
            }
        }
        i = i + 1;
    }
    assert(all.skip(all.len() as int).len() == 0);
    StreamFormat::Unknown
}

/// The kind of a stream with the given URL and response headers.
pub open spec fn stream_format(url: Seq<char>, headers: Seq<(Seq<char>, Seq<char>)>) -> StreamFormat {
    format_of(
        match url_parts(url) {
            Some(u) => Some(unicode_lower(u.path)),
            None => None,
        },
        lowered(headers),
    )
}

pub fn detect_format(url: &str, response_headers: &TextMap) -> (r: StreamFormat)
    ensures
        r == stream_format(url@, response_headers@),
{
    let path: Option<String> = match UrlParts::parse(url) {
        Some(u) => Some(lower_unicode(u.path.as_str())),
        None => None,
    };
    let mut entries: Vec<(String, String)> = Vec::new();
    let mut i: usize = 0;
    while i < response_headers.entries.len()
        invariant
            i <= response_headers.entries@.len(),
            entries@.len() == i,
            forall|k: int|
                0 <= k < i ==> (#[trigger] entries@[k]).0@ == unicode_lower(response_headers.entries@[k].0@)
                    && entries@[k].1@ == unicode_lower(response_headers.entries@[k].1@),
        decreases response_headers.entries@.len() - i,
    {
        entries.push(
            (
                lower_unicode(response_headers.entries[i].0.as_str()),
                lower_unicode(response_headers.entries[i].1.as_str()),
            ),
        );
        i = i + 1;
    }
    let headers = TextMap { entries };
    assert(headers@ =~= lowered(response_headers@));
    detect_format_from(&path, &headers)
}

/// What two URLs of one stream have in common: the host, and the path up to
/// its last slash; the URL itself where it is none.
pub open spec fn dedup_key(url: Seq<char>, parts: Option<UrlView>) -> Seq<char> {
    match parts {
        Some(u) => if last_index_of(u.path, '/') >= 0 {
            (match u.host {
                Some(h) => h,
                None => Seq::empty(),
            }) + "|"@ + u.path.take(last_index_of(u.path, '/') + 1)
        } else {
            url
        },
        None => url,
    }
}

/// `path_dedup` for a URL whose parts are known.
pub fn path_dedup_from(url: &str, parts: &Option<UrlParts>) -> (r: String)
    ensures
        r@ == dedup_key(url@, opt_url(*parts)),
{
    match parts {
        Some(u) => {
            let v: Vec<char> = chars_of(u.path.as_str());
            match last_char_index(&v, '/') {
                Some(i) => {
                    let n: usize = v.len();
                    assert(i < n);
                    let mut r: String = match &u.host {
                        Some(h) => owned(h.as_str()),
                        None => String::new(),
                    };
                    assert(u.host is None ==> r@ =~= Seq::empty());
                    r.append("|");
                    let base: String = string_between(&v, 0, i + 1);
                    assert(base@ =~= u.path@.take(i + 1));
                    r.append(base.as_str());
                    r
                },
                None => owned(url),
            }
        },
        None => owned(url),
    }
}

pub fn path_dedup(url: &str) -> (r: String)
    ensures
        r@ == dedup_key(url@, url_parts(url@)),
{
    path_dedup_from(url, &UrlParts::parse(url))
}

/// `s` is the stream that `url` of the given kind belongs to.
pub open spec fn same_stream(s: CapturedStream, url: Seq<char>, format: StreamFormat) -> bool {
    s.url@ == url || (format != StreamFormat::Mp4 && s.format == format && dedup_key(s.url@, url_parts(s.url@))
        == dedup_key(url, url_parts(url)))
}

/// `i` is the first tab of the page.
pub open spec fn is_tab(tabs: Seq<TabSession>, page: Seq<char>, i: int) -> bool {
    0 <= i < tabs.len() && tabs[i].page_url@ == page && forall|k: int|
        0 <= k < i ==> (#[trigger] tabs[k]).page_url@ != page
}

/// `j` is the first stream that `url` belongs to.
pub open spec fn is_same(streams: Seq<CapturedStream>, url: Seq<char>, format: StreamFormat, j: int) -> bool {
    0 <= j < streams.len() && same_stream(streams[j], url, format) && forall|k: int|
        0 <= k < j ==> !same_stream(#[trigger] streams[k], url, format)
}

/// Where a request belongs.
#[derive(Debug, Clone, Copy, PartialEq, Eq, Structural)]
pub enum Place {
    NewTab,
    NewStream(usize),
    Known(usize, usize),
}

/// A stream that was just seen.
pub open spec fn new_stream(p: StreamPayload, id: u64, format: StreamFormat) -> CapturedStream {
    CapturedStream {
        stream_id: id,
        url: p.url,
        method: p.method,
        request_headers: p.request_headers,
        server_ip: p.server_ip,
        format,
        probe_state: ProbeState::Probing,
        manifest_content: p.manifest_content,
    }
}

/// A manifest that came along is to be looked at: the stream was not yet
/// looked at with success.
pub open spec fn reopens(s: CapturedStream, p: StreamPayload) -> bool {
    p.manifest_content is Some && !(s.probe_state is Done)
}

/// A known stream that was seen again.
pub open spec fn seen_again(s: CapturedStream, p: StreamPayload) -> CapturedStream {
    if reopens(s, p) {
        CapturedStream {
            url: p.url,
            request_headers: p.request_headers,
            manifest_content: p.manifest_content,
            probe_state: ProbeState::Probing,
            ..s
        }
    } else {
        CapturedStream { url: p.url, request_headers: p.request_headers, ..s }
    }
}

impl AppState {
    pub open spec fn selection(&self) -> SelectionView {
        SelectionView {
            yt_format: self.selected_yt_format_index,
            tab: self.selected_tab_index,
            stream: self.selected_stream_index,
            resolution: self.selected_resolution_index,
            download: self.selected_download_index,
            panel: self.focused_panel,
        }
    }

    /// All but the selections.
    pub open spec fn data(&self) -> (u64, Vec<TabSession>, Vec<DownloadTask>, Vec<String>, Vec<KeyPayload>) {
        (self.next_stream_id, self.tabs, self.downloads, self.tui_logs, self.intercepted_keys)
    }

    /// The tab that is selected exists, or is the first to come.
    pub open spec fn wf(&self) -> bool {
        self.selected_tab_index < self.tabs@.len() || self.selected_tab_index == 0
    }

    pub fn new() -> (r: AppState)
        ensures
            r.wf(),
            fresh_ids(r),
            r.next_stream_id == 1,
            r.tabs@.len() == 0,
            r.downloads@.len() == 0,
            r.tui_logs@.len() == 0,
            r.intercepted_keys@.len() == 0,
            r.selection() == (SelectionView {
                yt_format: 0,
                tab: 0,
                stream: 0,
                resolution: 0,
                download: 0,
                panel: Panel::Streams,
            }),
    {
        AppState {
            next_stream_id: 1,
            intercepted_keys: Vec::new(),
            selected_yt_format_index: 0,
            selected_tab_index: 0,
            selected_stream_index: 0,
            selected_resolution_index: 0,
            selected_download_index: 0,
            tabs: Vec::new(),
            downloads: Vec::new(),
            tui_logs: Vec::new(),
            focused_panel: Panel::Streams,
        }
    }

    /// The position of the first tab of a page.
    pub fn find_tab(&self, page_url: &str) -> (r: Option<usize>)
        ensures
            match r {
                Some(i) => is_tab(self.tabs@, page_url@, i as int),
                None => forall|k: int| 0 <= k < self.tabs@.len() ==> (#[trigger] self.tabs@[k]).page_url@ != page_url@,
            },
    {
        let mut i: usize = 0;
        while i < self.tabs.len()
            invariant
                i <= self.tabs@.len(),
                forall|k: int| 0 <= k < i ==> (#[trigger] self.tabs@[k]).page_url@ != page_url@,
            decreases self.tabs@.len() - i,
        {
            if same(self.tabs[i].page_url.as_str(), page_url) {
                return Some(i);
            }
            i = i + 1;
        }
        None
    }

    /// Where a request of the given kind belongs.
    pub open spec fn is_place(&self, p: StreamPayload, format: StreamFormat, place: Place) -> bool {
        match place {
            Place::NewTab => forall|k: int|
                0 <= k < self.tabs@.len() ==> (#[trigger] self.tabs@[k]).page_url@ != p.page_url@,
            Place::NewStream(i) => is_tab(self.tabs@, p.page_url@, i as int) && forall|k: int|
                0 <= k < self.tabs@[i as int].streams@.len() ==> !same_stream(
                    #[trigger] self.tabs@[i as int].streams@[k],
                    p.url@,
                    format,
                ),
            Place::Known(i, j) => is_tab(self.tabs@, p.page_url@, i as int) && is_same(
                self.tabs@[i as int].streams@,
                p.url@,
                format,
                j as int,
            ),
        }
    }

    /// Where a request belongs: to a known stream of its page, to its page,
    /// or to a page of its own.
    pub fn find_place(&self, payload: &StreamPayload, format: StreamFormat) -> (place: Place)
        ensures
            self.is_place(*payload, format, place),
    {
        let i: usize = match self.find_tab(payload.page_url.as_str()) {
            Some(i) => i,
            None => {
                return Place::NewTab;
            },
        };
        let key: String = path_dedup(payload.url.as_str());
        let streams: &Vec<CapturedStream> = &self.tabs[i].streams;
        let mut j: usize = 0;
        while j < streams.len()
            invariant
                j <= streams@.len(),
                is_tab(self.tabs@, payload.page_url@, i as int),
                streams@ == self.tabs@[i as int].streams@,
                key@ == dedup_key(payload.url@, url_parts(payload.url@)),
                forall|k: int| 0 <= k < j ==> !same_stream(#[trigger] streams@[k], payload.url@, format),
            decreases streams@.len() - j,
        {
            let s: &CapturedStream = &streams[j];
            let mut found: bool = same(s.url.as_str(), payload.url.as_str());
            if !found && format != StreamFormat::Mp4 && s.format == format {
                let other: String = path_dedup(s.url.as_str());
                found = same(other.as_str(), key.as_str());
            }
            assert(found == same_stream(*s, payload.url@, format));
            if found {
                return Place::Known(i, j);
            }
            j = j + 1;
        }
        Place::NewStream(i)
    }

    /// Takes a request in at `place`. The results are the tab, the number of
    /// the stream, and whether it needs no look.
    pub fn add_stream_at(&mut self, payload: StreamPayload, format: StreamFormat, place: Place) -> (r: (
        usize,
        u64,
        bool,
    ))
        requires
            old(self).wf(),
            old(self).next_stream_id < u64::MAX,
            old(self).is_place(payload, format, place),
        ensures
            final(self).wf(),
            fresh_ids(*old(self)) ==> fresh_ids(*final(self)),
            final(self).selection() == old(self).selection(),
            final(self).downloads == old(self).downloads,
            final(self).tui_logs == old(self).tui_logs,
            final(self).intercepted_keys == old(self).intercepted_keys,
            taken_in(*old(self), *final(self), payload, format, place, r),
    {
        match place {
            Place::NewTab => {
                let id: u64 = self.next_stream_id;
                self.next_stream_id = id + 1;
                let page_title: String = if payload.page_title.as_str().unicode_len() == 0 {
                    owned("Unknown Page")
                } else {
                    payload.page_title
                };
                let mut streams: Vec<CapturedStream> = Vec::new();
                streams.push(
                    CapturedStream {
                        stream_id: id,
                        url: payload.url,
                        method: payload.method,
                        request_headers: payload.request_headers,
                        server_ip: payload.server_ip,
                        format,
                        probe_state: ProbeState::Probing,
                        manifest_content: payload.manifest_content,
                    },
                );
                let idx: usize = self.tabs.len();
                assert(streams@ =~= seq![new_stream(payload, id, format)]);
                self.tabs.push(
                    TabSession {
                        page_url: payload.page_url,
                        page_title,
                        streams,
                        show_noise: false,
                        yt_formats: Vec::new(),
                    },
                );
                (idx, id, false)
            },
            Place::NewStream(i) => {
                let id: u64 = self.next_stream_id;
                self.next_stream_id = id + 1;
                self.tabs[i].streams.push(
                    CapturedStream {
                        stream_id: id,
                        url: payload.url,
                        method: payload.method,
                        request_headers: payload.request_headers,
                        server_ip: payload.server_ip,
                        format,
                        probe_state: ProbeState::Probing,
                        manifest_content: payload.manifest_content,
                    },
                );
                (i, id, false)
            },
            Place::Known(i, j) => {
                let s: &mut CapturedStream = &mut self.tabs[i].streams[j];
                let id: u64 = s.stream_id;
                let done: bool = match &s.probe_state {
                    ProbeState::Done(_) => true,
                    _ => false,
                };
                let reopen: bool = payload.manifest_content.is_some() && !done;
                if reopen {
                    s.manifest_content = payload.manifest_content;
                    s.probe_state = ProbeState::Probing;
                }
                s.url = payload.url;
                s.request_headers = payload.request_headers;
                assert(self.tabs@[i as int].streams@ =~= old(self).tabs@[i as int].streams@.update(
                    j as int,
                    seen_again(old(self).tabs@[i as int].streams@[j as int], payload),
                ));
                (i, id, !reopen)
            },
        }
    }

    /// Takes a request in. The results are the tab, the number of the stream,
    /// and whether it needs no look.
    pub fn add_stream(&mut self, payload: StreamPayload) -> (r: (usize, u64, bool))
        requires
            old(self).wf(),
            old(self).next_stream_id < u64::MAX,
        ensures
            final(self).wf(),
            fresh_ids(*old(self)) ==> fresh_ids(*final(self)),
            final(self).selection() == old(self).selection(),
            final(self).downloads == old(self).downloads,
            final(self).tui_logs == old(self).tui_logs,
            final(self).intercepted_keys == old(self).intercepted_keys,
            exists|place: Place| #[trigger]
                old(self).is_place(payload, stream_format(payload.url@, payload.response_headers@), place),
            forall|place: Place| #[trigger]
                old(self).is_place(payload, stream_format(payload.url@, payload.response_headers@), place)
                    ==> taken_in(
                    *old(self),
                    *final(self),
                    payload,
                    stream_format(payload.url@, payload.response_headers@),
                    place,
                    r,
                ),
    {
        let format: StreamFormat = detect_format(payload.url.as_str(), &payload.response_headers);
        let place: Place = self.find_place(&payload, format);
        proof {
            assert forall|other: Place| #[trigger] self.is_place(payload, format, other) implies other == place by {
                lemma_place_unique(*self, payload, format, place, other);
            }
        }
        self.add_stream_at(payload, format, place)
    }

    /// The selected stream: its tab and its position in it.
    pub open spec fn selected(&self) -> Option<(int, int)> {
        if self.tabs@.len() == 0 {
            None
        } else {
            let t = self.selected_tab_index as int;
            let v = self.tabs@[t].visible();
            if self.selected_stream_index < v.len() {
                Some((t, v[self.selected_stream_index as int]))
            } else {
                None
            }
        }
    }

    pub fn selected_stream(&self) -> (r: Option<&CapturedStream>)
        requires
            self.wf(),
        ensures
            match r {
                Some(s) => self.selected() matches Some((t, j)) && *s == self.tabs@[t].streams@[j],
                None => self.selected() is None,
            },
    {
        if self.tabs.len() == 0 {
            return None;
        }
        let tab: &TabSession = &self.tabs[self.selected_tab_index];
        let positions: Vec<usize> = tab.visible_positions();
        if self.selected_stream_index >= positions.len() {
            return None;
        }
        assert(positions@.map_values(|i: usize| i as int)[self.selected_stream_index as int]
            == positions@[self.selected_stream_index as int]);
        Some(&tab.streams[positions[self.selected_stream_index]])
    }

    pub fn next_tab(&mut self)
        requires
            old(self).wf(),
        ensures
            final(self).wf(),
            final(self).data() == old(self).data(),
            final(self).selection() == if old(self).tabs@.len() > 1 {
                SelectionView {
                    tab: next_of(old(self).selected_tab_index as int, old(self).tabs@.len() as int) as usize,
                    stream: 0,
                    resolution: 0,
                    ..old(self).selection()
                }
            } else {
                old(self).selection()
            },
    {
        if self.tabs.len() > 1 {
            let n: usize = self.tabs.len();
            self.selected_tab_index = (self.selected_tab_index + 1) % n;
            self.selected_stream_index = 0;
            self.selected_resolution_index = 0;
        }
    }

    pub fn prev_tab(&mut self)
        requires
            old(self).wf(),
        ensures
            final(self).wf(),
            final(self).data() == old(self).data(),
            final(self).selection() == if old(self).tabs@.len() > 0 {
                SelectionView {
                    tab: prev_of(old(self).selected_tab_index as int, old(self).tabs@.len() as int) as usize,
                    stream: 0,
                    resolution: 0,
                    ..old(self).selection()
                }
            } else {
                old(self).selection()
            },
    {
        if self.tabs.len() > 0 {
            self.selected_tab_index = if self.selected_tab_index == 0 {
                self.tabs.len() - 1
            } else {
                self.selected_tab_index - 1
            };
            self.selected_stream_index = 0;
            self.selected_resolution_index = 0;
        }
    }

    pub fn next_stream(&mut self)
        requires
            old(self).wf(),
            old(self).selected_stream_index < usize::MAX,
        ensures
            final(self).wf(),
            final(self).data() == old(self).data(),
            final(self).selection() == ({
                let n = if old(self).tabs@.len() > 0 {
                    old(self).tabs@[old(self).selected_tab_index as int].visible().len() as int
                } else {
                    0
                };
                if n > 1 {
                    SelectionView {
                        stream: next_of(old(self).selected_stream_index as int, n) as usize,
                        resolution: 0,
                        ..old(self).selection()
                    }
                } else {
                    old(self).selection()
                }
            }),
    {
        if self.tabs.len() > 0 {
            let n: usize = self.tabs[self.selected_tab_index].visible_positions().len();
            if n > 1 {
                self.selected_stream_index = (self.selected_stream_index + 1) % n;
                self.selected_resolution_index = 0;
            }
        }
    }

    pub fn prev_stream(&mut self)
        requires
            old(self).wf(),
        ensures
            final(self).wf(),
            final(self).data() == old(self).data(),
            final(self).selection() == ({
                let n = if old(self).tabs@.len() > 0 {
                    old(self).tabs@[old(self).selected_tab_index as int].visible().len() as int
                } else {
                    0
                };
                if n > 0 {
                    SelectionView {
                        stream: prev_of(old(self).selected_stream_index as int, n) as usize,
                        resolution: 0,
                        ..old(self).selection()
                    }
                } else {
                    old(self).selection()
                }
            }),
    {
        if self.tabs.len() > 0 {
            let n: usize = self.tabs[self.selected_tab_index].visible_positions().len();
            if n > 0 {
                self.selected_stream_index = if self.selected_stream_index == 0 {
                    n - 1
                } else {
                    self.selected_stream_index - 1
                };
                self.selected_resolution_index = 0;
            }
        }
    }

    /// How many resolutions the selected stream is known to have.
    pub open spec fn resolution_count(&self) -> int {
        match self.selected() {
            Some((t, j)) => match self.tabs@[t].streams@[j].probe_state {
                ProbeState::Done(meta) => meta.resolutions@.len() as int,
                _ => 0,
            },
            None => 0,
        }
    }

    fn count_resolutions(&self) -> (r: usize)
        requires
            self.wf(),
        ensures
            r == self.resolution_count(),
    {
        match self.selected_stream() {
            Some(s) => match &s.probe_state {
                ProbeState::Done(meta) => meta.resolutions.len(),
                _ => 0,
            },
            None => 0,
        }
    }

    pub fn next_resolution(&mut self)
        requires
            old(self).wf(),
            old(self).selected_resolution_index < usize::MAX,
        ensures
            final(self).wf(),
            final(self).data() == old(self).data(),
            final(self).selection() == if old(self).resolution_count() > 0 {
                SelectionView {
                    resolution: next_of(
                        old(self).selected_resolution_index as int,
                        old(self).resolution_count(),
                    ) as usize,
                    ..old(self).selection()
                }
            } else {
                old(self).selection()
            },
    {
        let n: usize = self.count_resolutions();
        if n > 0 {
            self.selected_resolution_index = (self.selected_resolution_index + 1) % n;
        }
    }

    pub fn prev_resolution(&mut self)
        requires
            old(self).wf(),
        ensures
            final(self).wf(),
            final(self).data() == old(self).data(),
            final(self).selection() == if old(self).resolution_count() > 0 {
                SelectionView {
                    resolution: prev_of(
                        old(self).selected_resolution_index as int,
                        old(self).resolution_count(),
                    ) as usize,
                    ..old(self).selection()
                }
            } else {
                old(self).selection()
            },
    {
        let n: usize = self.count_resolutions();
        if n > 0 {
            self.selected_resolution_index = if self.selected_resolution_index == 0 {
                n - 1
            } else {
                self.selected_resolution_index - 1
            };
        }
    }

    /// The stream with the given number, first by tab, then by position.
    pub open spec fn is_stream(&self, id: u64, t: int, j: int) -> bool {
        &&& 0 <= t < self.tabs@.len()
        &&& 0 <= j < self.tabs@[t].streams@.len()
        &&& self.tabs@[t].streams@[j].stream_id == id
        &&& forall|b: int| 0 <= b < j ==> (#[trigger] self.tabs@[t].streams@[b]).stream_id != id
        &&& forall|a: int| 0 <= a < t ==> no_stream(#[trigger] self.tabs@[a], id)
    }

    /// The tab and the position of the stream with the given number.
    pub fn find_stream(&self, id: u64) -> (r: Option<(usize, usize)>)
        ensures
            match r {
                Some((t, j)) => self.is_stream(id, t as int, j as int),
                None => forall|a: int| 0 <= a < self.tabs@.len() ==> no_stream(#[trigger] self.tabs@[a], id),
            },
    {
        let mut t: usize = 0;
        while t < self.tabs.len()
            invariant
                t <= self.tabs@.len(),
                forall|a: int| 0 <= a < t ==> no_stream(#[trigger] self.tabs@[a], id),
            decreases self.tabs@.len() - t,
        {
            let streams: &Vec<CapturedStream> = &self.tabs[t].streams;
            let mut j: usize = 0;
            while j < streams.len()
                invariant
                    t < self.tabs@.len(),
                    streams@ == self.tabs@[t as int].streams@,
                    j <= streams@.len(),
                    forall|a: int| 0 <= a < t ==> no_stream(#[trigger] self.tabs@[a], id),
                    forall|b: int| 0 <= b < j ==> (#[trigger] streams@[b]).stream_id != id,
                decreases streams@.len() - j,
            {
                if streams[j].stream_id == id {
                    return Some((t, j));
                }
                j = j + 1;
            }
            t = t + 1;
        }
        None
    }

    fn set_probe(&mut self, t: usize, j: usize, probe: ProbeState, format: Option<StreamFormat>)
        requires
            old(self).wf(),
            t < old(self).tabs@.len(),
            j < old(self).tabs@[t as int].streams@.len(),
        ensures
            final(self).wf(),
            final(self).selection() == old(self).selection(),
            final(self).next_stream_id == old(self).next_stream_id,
            final(self).downloads == old(self).downloads,
            final(self).tui_logs == old(self).tui_logs,
            final(self).intercepted_keys == old(self).intercepted_keys,
            ({
                let s = old(self).tabs@[t as int].streams@[j as int];
                tab_streams_changed(
                    old(self).tabs@,
                    final(self).tabs@,
                    t as int,
                    old(self).tabs@[t as int].streams@.update(
                        j as int,
                        CapturedStream {
                            probe_state: probe,
                            format: match format {
                                Some(f) => f,
                                None => s.format,
                            },
                            ..s
                        },
                    ),
                )
            }),
    {
        let s: &mut CapturedStream = &mut self.tabs[t].streams[j];
        s.probe_state = probe;
        match format {
            Some(f) => {
                s.format = f;
            },
            None => {},
        }
        assert(self.tabs@[t as int].streams@ =~= old(self).tabs@[t as int].streams@.update(
            j as int,
            self.tabs@[t as int].streams@[j as int],
        ));
    }

    /// Notes what a stream was found to hold.
    pub fn set_stream_probe_done(&mut self, stream_id: u64, metadata: StreamMetadata, format: StreamFormat)
        requires
            old(self).wf(),
        ensures
            final(self).wf(),
            fresh_ids(*old(self)) ==> fresh_ids(*final(self)),
            final(self).selection() == old(self).selection(),
            final(self).next_stream_id == old(self).next_stream_id,
            final(self).downloads == old(self).downloads,
            final(self).tui_logs == old(self).tui_logs,
            final(self).intercepted_keys == old(self).intercepted_keys,
            forall|t: int, j: int| #[trigger]
                old(self).is_stream(stream_id, t, j) ==> tab_streams_changed(
                    old(self).tabs@,
                    final(self).tabs@,
                    t,
                    old(self).tabs@[t].streams@.update(
                        j,
                        CapturedStream {
                            probe_state: ProbeState::Done(metadata),
                            format,
                            ..old(self).tabs@[t].streams@[j]
                        },
                    ),
                ),
            (forall|a: int| 0 <= a < old(self).tabs@.len() ==> no_stream(#[trigger] old(self).tabs@[a], stream_id))
                ==> final(self).tabs == old(self).tabs,
    {
        match self.find_stream(stream_id) {
            Some((t, j)) => {
                proof {
                    self.lemma_stream_unique(stream_id, t as int, j as int);
                }
                self.set_probe(t, j, ProbeState::Done(metadata), Some(format));
            },
            None => {
                proof {
                    self.lemma_no_stream(stream_id);
                }
            },
        }
    }

    /// Notes why a stream could not be looked at.
    pub fn set_stream_probe_failed(&mut self, stream_id: u64, error: String)
        requires
            old(self).wf(),
        ensures
            final(self).wf(),
            fresh_ids(*old(self)) ==> fresh_ids(*final(self)),
            final(self).selection() == old(self).selection(),
            final(self).next_stream_id == old(self).next_stream_id,
            final(self).downloads == old(self).downloads,
            final(self).tui_logs == old(self).tui_logs,
            final(self).intercepted_keys == old(self).intercepted_keys,
            forall|t: int, j: int| #[trigger]
                old(self).is_stream(stream_id, t, j) ==> tab_streams_changed(
                    old(self).tabs@,
                    final(self).tabs@,
                    t,
                    old(self).tabs@[t].streams@.update(
                        j,
                        CapturedStream {
                            probe_state: ProbeState::Failed(error),
                            ..old(self).tabs@[t].streams@[j]
                        },
                    ),
                ),
            (forall|a: int| 0 <= a < old(self).tabs@.len() ==> no_stream(#[trigger] old(self).tabs@[a], stream_id))
                ==> final(self).tabs == old(self).tabs,
    {
        match self.find_stream(stream_id) {
            Some((t, j)) => {
                proof {
                    self.lemma_stream_unique(stream_id, t as int, j as int);
                }
                self.set_probe(t, j, ProbeState::Failed(error), None);
            },
            None => {
                proof {
                    self.lemma_no_stream(stream_id);
                }
            },
        }
    }
}

impl AppState {
    /// A number stands for one stream at most: the first that has it.
    pub proof fn lemma_stream_unique(self, id: u64, t: int, j: int)
        requires
            self.is_stream(id, t, j),
        ensures
            forall|a: int, b: int| #[trigger] self.is_stream(id, a, b) ==> a == t && b == j,
            !(forall|a: int| 0 <= a < self.tabs@.len() ==> no_stream(#[trigger] self.tabs@[a], id)),
    {
        assert(self.tabs@[t].streams@[j].stream_id == id);
        assert(!no_stream(self.tabs@[t], id));
        assert forall|a: int, b: int| #[trigger] self.is_stream(id, a, b) implies a == t && b == j by {
            assert(self.tabs@[a].streams@[b].stream_id == id);
            assert(!no_stream(self.tabs@[a], id));
            if a < t {
                assert(no_stream(self.tabs@[a], id));
            } else if t < a {
                assert(no_stream(self.tabs@[t], id));
            }
        }
    }

    /// A number that no tab has names no stream.
    pub proof fn lemma_no_stream(self, id: u64)
        requires
            forall|a: int| 0 <= a < self.tabs@.len() ==> no_stream(#[trigger] self.tabs@[a], id),
        ensures
            forall|a: int, b: int| !#[trigger] self.is_stream(id, a, b),
    {
        assert forall|a: int, b: int| !#[trigger] self.is_stream(id, a, b) by {
            if self.is_stream(id, a, b) {
                assert(no_stream(self.tabs@[a], id));
                assert(self.tabs@[a].streams@[b].stream_id == id);
            }
        }
    }
}

/// `after` is `before` with a request taken in at `place`; `r` tells the tab,
/// the number of the stream, and whether it needs no look.
pub open spec fn taken_in(
    before: AppState,
    after: AppState,
    payload: StreamPayload,
    format: StreamFormat,
    place: Place,
    r: (usize, u64, bool),
) -> bool {
    match place {
        Place::NewTab => {
            &&& r == (before.tabs@.len() as usize, before.next_stream_id, false)
            &&& after.next_stream_id == before.next_stream_id + 1
            &&& after.tabs@.len() == before.tabs@.len() + 1
            &&& forall|k: int|
                0 <= k < before.tabs@.len() ==> #[trigger] after.tabs@[k] == before.tabs@[k]
            &&& ({
                let t = after.tabs@.last();
                &&& t.page_url == payload.page_url
                &&& t.page_title@ == if payload.page_title@.len() == 0 {
                    "Unknown Page"@
                } else {
                    payload.page_title@
                }
                &&& t.streams@ == seq![new_stream(payload, before.next_stream_id, format)]
                &&& !t.show_noise
                &&& t.yt_formats@.len() == 0
            })
        },
        Place::NewStream(i) => {
            &&& r == (i, before.next_stream_id, false)
            &&& after.next_stream_id == before.next_stream_id + 1
            &&& tab_streams_changed(
                before.tabs@,
                after.tabs@,
                i as int,
                before.tabs@[i as int].streams@.push(
                    new_stream(payload, before.next_stream_id, format),
                ),
            )
        },
        Place::Known(i, j) => {
            let s = before.tabs@[i as int].streams@[j as int];
            &&& r == (i, s.stream_id, !reopens(s, payload))
            &&& after.next_stream_id == before.next_stream_id
            &&& tab_streams_changed(
                before.tabs@,
                after.tabs@,
                i as int,
                before.tabs@[i as int].streams@.update(j as int, seen_again(s, payload)),
            )
        },
    }
}

/// No stream of the tab has the number.
pub open spec fn no_stream(tab: TabSession, id: u64) -> bool {
    forall|b: int| 0 <= b < tab.streams@.len() ==> (#[trigger] tab.streams@[b]).stream_id != id
}

/// `after` is `before` with the streams of tab `i` replaced by `streams`.
pub open spec fn tab_streams_changed(
    before: Seq<TabSession>,
    after: Seq<TabSession>,
    i: int,
    streams: Seq<CapturedStream>,
) -> bool {
    &&& after.len() == before.len()
    &&& forall|k: int| 0 <= k < before.len() && k != i ==> #[trigger] after[k] == before[k]
    &&& after[i].streams@ == streams
    &&& after[i].page_url == before[i].page_url
    &&& after[i].page_title == before[i].page_title
    &&& after[i].show_noise == before[i].show_noise
    &&& after[i].yt_formats == before[i].yt_formats
}

proof fn lemma_place_unique(app: AppState, p: StreamPayload, format: StreamFormat, a: Place, b: Place)
    requires
        app.is_place(p, format, a),
        app.is_place(p, format, b),
    ensures
        a == b,
{
    let tab_of = |x: Place|
        match x {
            Place::NewTab => -1int,
            Place::NewStream(i) => i as int,
            Place::Known(i, _) => i as int,
        };
    let s = tab_of(a);
    let t = tab_of(b);
    if s >= 0 && t >= 0 {
        if s < t {
            assert(app.tabs@[s].page_url@ != p.page_url@);
        } else if t < s {
            assert(app.tabs@[t].page_url@ != p.page_url@);
        }
        match (a, b) {
            (Place::Known(_, j), Place::Known(_, k)) => {
                if j < k {
                    assert(!same_stream(app.tabs@[s].streams@[j as int], p.url@, format));
                } else if k < j {
                    assert(!same_stream(app.tabs@[s].streams@[k as int], p.url@, format));
                }
            },
            (Place::Known(_, j), Place::NewStream(_)) => {
                assert(!same_stream(app.tabs@[s].streams@[j as int], p.url@, format));
            },
            (Place::NewStream(_), Place::Known(_, j)) => {
                assert(!same_stream(app.tabs@[s].streams@[j as int], p.url@, format));
            },
            _ => {},
        }
    } else if s >= 0 {
        assert(app.tabs@[s].page_url@ != p.page_url@);
    } else if t >= 0 {
        assert(app.tabs@[t].page_url@ != p.page_url@);
    }
}

/// Every stream has a number of its own, below the next one to give.
pub open spec fn fresh_ids(app: AppState) -> bool {
    &&& forall|t: int, j: int|
        0 <= t < app.tabs@.len() && 0 <= j < app.tabs@[t].streams@.len() ==> (
        #[trigger] app.tabs@[t].streams@[j]).stream_id < app.next_stream_id
    &&& forall|t: int, j: int, u: int, k: int|
        0 <= t < app.tabs@.len() && 0 <= j < app.tabs@[t].streams@.len() && 0 <= u < app.tabs@.len() && 0 <= k
            < app.tabs@[u].streams@.len() && (#[trigger] app.tabs@[t].streams@[j]).stream_id == (
        #[trigger] app.tabs@[u].streams@[k]).stream_id ==> t == u && j == k
}

/// Going on and going back undo each other, wherever one stands.
pub proof fn law_next_and_prev_undo(i: int, n: int)
    requires
        0 <= i < n,
    ensures
        prev_of(next_of(i, n), n) == i,
        next_of(prev_of(i, n), n) == i,
        0 <= next_of(i, n) < n,
        0 <= prev_of(i, n) < n,
{
    if i == n - 1 {
        assert(next_of(i, n) == 0) by (nonlinear_arith)
            requires
                i == n - 1,
                n > 0,
        ;
    } else {
        assert(next_of(i, n) == i + 1) by (nonlinear_arith)
            requires
                0 <= i < n - 1,
        ;
    }
    if i == 0 {
        assert(next_of(n - 1, n) == 0) by (nonlinear_arith)
            requires
                n > 0,
        ;
    } else {
        assert(next_of(i - 1, n) == i) by (nonlinear_arith)
            requires
                0 < i < n,
        ;
    }
}

/// A request that was taken in is known when it comes again, as the same
/// stream of the same page.
pub proof fn law_request_is_known_again(
    before: AppState,
    after: AppState,
    payload: StreamPayload,
    format: StreamFormat,
    place: Place,
    r: (usize, u64, bool),
)
    requires
        before.is_place(payload, format, place),
        taken_in(before, after, payload, format, place, r),
        before.tabs@.len() < usize::MAX,
        forall|t: int| 0 <= t < after.tabs@.len() ==> (#[trigger] after.tabs@[t]).streams@.len() < usize::MAX,
    ensures
        exists|j: usize| #[trigger]
            after.is_place(payload, format, Place::Known(r.0, j)) && after.tabs@[r.0 as int].streams@[j as int].stream_id
                == r.1,
{
    match place {
        Place::NewTab => {
            let t = before.tabs@.len() as int;
            assert(after.tabs@[t] == after.tabs@.last());
            assert(is_tab(after.tabs@, payload.page_url@, t)) by {
                assert forall|k: int| 0 <= k < t implies (#[trigger] after.tabs@[k]).page_url@ != payload.page_url@ by {
                    assert(after.tabs@[k] == before.tabs@[k]);
                }
            }
            let first: usize = 0;
            assert(r.0 == t);
            assert(after.tabs@[t].streams@[0] == new_stream(payload, before.next_stream_id, format));
            assert(after.is_place(payload, format, Place::Known(r.0, first)));
        },
        Place::NewStream(i) => {
            let was = before.tabs@[i as int].streams@;
            let got = after.tabs@[i as int].streams@;
            let j = was.len() as usize;
            assert(got.len() < usize::MAX);
            assert forall|k: int| 0 <= k < j implies !same_stream(#[trigger] got[k], payload.url@, format) by {
                assert(got[k] == was[k]);
            }
            lemma_tab_stays(before.tabs@, after.tabs@, payload.page_url@, i as int, got);
            assert(got[j as int] == new_stream(payload, before.next_stream_id, format));
            assert(after.is_place(payload, format, Place::Known(r.0, j)));
        },
        Place::Known(i, j) => {
            let was = before.tabs@[i as int].streams@;
            let got = after.tabs@[i as int].streams@;
            assert forall|k: int| 0 <= k < j implies !same_stream(#[trigger] got[k], payload.url@, format) by {
                assert(got[k] == was[k]);
            }
            lemma_tab_stays(before.tabs@, after.tabs@, payload.page_url@, i as int, got);
            assert(got[j as int] == seen_again(was[j as int], payload));
            assert(after.is_place(payload, format, Place::Known(r.0, j)));
        },
    }
}

proof fn lemma_tab_stays(
    before: Seq<TabSession>,
    after: Seq<TabSession>,
    page: Seq<char>,
    i: int,
    streams: Seq<CapturedStream>,
)
    requires
        is_tab(before, page, i),
        tab_streams_changed(before, after, i, streams),
    ensures
        is_tab(after, page, i),
{
    assert forall|k: int| 0 <= k < i implies (#[trigger] after[k]).page_url@ != page by {
        assert(after[k] == before[k]);
    }
}

} // verus!
