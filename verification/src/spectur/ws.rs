//! What a browser reports, and what becomes of it.

use vstd::prelude::*;
use crate::numerals::{hex, hex_string};
use crate::request::copy_text;
use crate::spectur::json::{all_described, described_formats, json_view, parse_yt_formats};
use crate::spectur::types::{
    fresh_ids, is_tab, stream_format, tab_streams_changed, taken_in, AppState, CapturedStream, DurationSource,
    KeyInfo, KeyPayload, Place, ProbeState, StreamFormat, StreamMetadata, StreamPayload, TabSession, YtFormat,
};
use crate::text::{owned, same, texts};
use crate::text_map::TextMap;
use crate::web_url::opt_text;

verus! {

/// A message of the browser.
#[derive(Debug)]
pub struct WsMessage {
    pub msg_type: Option<String>,
    pub request_id: Option<String>,
    pub url: Option<String>,
    pub method: Option<String>,
    pub request_headers: Option<TextMap>,
    pub response_headers: Option<TextMap>,
    pub server_ip: Option<String>,
    pub page_url: Option<String>,
    pub page_title: Option<String>,
    pub timestamp: Option<u64>,
    pub manifest_content: Option<String>,
    pub key: Option<Vec<u8>>,
    pub href: Option<String>,
    pub streaming_data: Option<serde_json::Value>,
}

/// The text that is there, or else `other`.
pub open spec fn text_or(o: Option<String>, other: Seq<char>) -> Seq<char> {
    match o {
        Some(s) => s@,
        None => other,
    }
}

/// The entries that are there, if any.
pub open spec fn map_or_empty(o: Option<TextMap>) -> Seq<(Seq<char>, Seq<char>)> {
    match o {
        Some(m) => m@,
        None => Seq::empty(),
    }
}

fn copy_or(o: &Option<String>, other: &str) -> (r: String)
    ensures
        r@ == text_or(*o, other@),
{
    match o {
        Some(s) => owned(s.as_str()),
        None => owned(other),
    }
}

fn copy_or_empty(o: &Option<String>) -> (r: String)
    ensures
        r@ == text_or(*o, Seq::empty()),
{
    match o {
        Some(s) => owned(s.as_str()),
        None => {
            let r: String = String::new();
            assert(r@ =~= Seq::empty());
            r
        },
    }
}

fn copy_map(o: &Option<TextMap>) -> (r: TextMap)
    ensures
        r@ == map_or_empty(*o),
{
    match o {
        Some(m) => m.clone(),
        None => TextMap::new(),
    }
}

fn copy_bytes(v: &Vec<u8>) -> (r: Vec<u8>)
    ensures
        r@ == v@,
{
    let mut r: Vec<u8> = Vec::new();
    let mut i: usize = 0;
    while i < v.len()
        invariant
            i <= v@.len(),
            r@ == v@.take(i as int),
        decreases v@.len() - i,
    {
        r.push(v[i]);
        assert(v@.take(i + 1) =~= v@.take(i as int).push(v@[i as int]));
        i = i + 1;
    }
    assert(v@.take(v@.len() as int) =~= v@);
    r
}

impl WsMessage {
    /// The message has the given kind.
    pub open spec fn has_type(&self, kind: Seq<char>) -> bool {
        opt_text(self.msg_type) == Some(kind)
    }

    fn kind_is(&self, kind: &str) -> (r: bool)
        ensures
            r == self.has_type(kind@),
    {
        match &self.msg_type {
            Some(t) => same(t.as_str(), kind),
            None => false,
        }
    }

    pub fn is_stream_payload(&self) -> (r: bool)
        ensures
            r == (self.msg_type is None && self.url is Some),
    {
        self.msg_type.is_none() && self.url.is_some()
    }

    pub fn is_key_intercepted(&self) -> (r: bool)
        ensures
            r == self.has_type("keyIntercepted"@),
    {
        self.kind_is("keyIntercepted")
    }

    pub fn is_youtube_formats(&self) -> (r: bool)
        ensures
            r == self.has_type("youtubeFormats"@),
    {
        self.kind_is("youtubeFormats")
    }

    /// `p` is the request that the message tells of.
    pub open spec fn tells(&self, p: StreamPayload) -> bool {
        &&& opt_text(self.request_id) == Some(p.request_id@)
        &&& opt_text(self.url) == Some(p.url@)
        &&& p.method@ == text_or(self.method, Seq::empty())
        &&& p.request_headers@ == map_or_empty(self.request_headers)
        &&& p.response_headers@ == map_or_empty(self.response_headers)
        &&& p.server_ip@ == text_or(self.server_ip, Seq::empty())
        &&& p.page_url@ == text_or(self.page_url, Seq::empty())
        &&& p.page_title@ == text_or(self.page_title, Seq::empty())
        &&& p.timestamp == match self.timestamp {
            Some(t) => t,
            None => 0,
        }
        &&& opt_text(p.manifest_content) == opt_text(self.manifest_content)
    }

    /// The request that the message tells of: none where its number or its
    /// URL is missing.
    pub fn to_stream_payload(&self) -> (r: Option<StreamPayload>)
        ensures
            r is Some <==> self.request_id is Some && self.url is Some,
            r matches Some(p) ==> self.tells(p),
    {
        match (&self.request_id, &self.url) {
            (Some(id), Some(url)) => Some(
                StreamPayload {
                    request_id: owned(id.as_str()),
                    url: owned(url.as_str()),
                    method: copy_or_empty(&self.method),
                    request_headers: copy_map(&self.request_headers),
                    response_headers: copy_map(&self.response_headers),
                    server_ip: copy_or_empty(&self.server_ip),
                    page_url: copy_or_empty(&self.page_url),
                    page_title: copy_or_empty(&self.page_title),
                    timestamp: match self.timestamp {
                        Some(t) => t,
                        None => 0,
                    },
                    manifest_content: copy_text(&self.manifest_content),
                },
            ),
            _ => None,
        }
    }

    /// `p` is the key that the message tells of.
    pub open spec fn tells_key(&self, p: KeyPayload) -> bool {
        &&& self.key matches Some(k) && p.key@ == k@
        &&& p.href@ == text_or(self.href, Seq::empty())
        &&& p.page_url@ == text_or(self.page_url, Seq::empty())
        &&& p.page_title@ == text_or(self.page_title, Seq::empty())
        &&& p.timestamp == match self.timestamp {
            Some(t) => t,
            None => 0,
        }
    }

    pub fn to_key_payload(&self) -> (r: Option<KeyPayload>)
        ensures
            r is Some <==> self.key is Some,
            r matches Some(p) ==> self.tells_key(p),
    {
        match &self.key {
            Some(k) => Some(
                KeyPayload {
                    key: copy_bytes(k),
                    href: copy_or_empty(&self.href),
                    page_url: copy_or_empty(&self.page_url),
                    page_title: copy_or_empty(&self.page_title),
                    timestamp: match self.timestamp {
                        Some(t) => t,
                        None => 0,
                    },
                },
            ),
            None => None,
        }
    }
}

/// The keys of a page, in hexadecimal digits, in the order in which they came.
pub open spec fn page_keys(keys: Seq<KeyPayload>, page: Seq<char>) -> Seq<Seq<char>>
    decreases keys.len(),
{
    if keys.len() == 0 {
        Seq::empty()
    } else {
        let before = page_keys(keys.drop_last(), page);
        if keys.last().page_url@ == page {
            before.push(hex(keys.last().key@))
        } else {
            before
        }
    }
}

/// The keys of a page, in hexadecimal digits, in the order in which they came.
pub fn matching_keys(keys: &Vec<KeyPayload>, page_url: &str) -> (r: Vec<String>)
    ensures
        texts(r@) == page_keys(keys@, page_url@),
{
    let mut r: Vec<String> = Vec::new();
    let mut i: usize = 0;
    assert(texts(r@) =~= Seq::empty());
    while i < keys.len()
        invariant
            i <= keys@.len(),
            texts(r@) == page_keys(keys@.take(i as int), page_url@),
        decreases keys@.len() - i,
    {
        assert(keys@.take(i + 1).drop_last() =~= keys@.take(i as int));
        if same(keys[i].page_url.as_str(), page_url) {
            let ghost before = r@;
            let h: String = hex_string(&keys[i].key);
            r.push(h);
            assert(texts(r@) =~= texts(before).push(hex(keys@[i as int].key@)));
        }
        i = i + 1;
    }
    assert(keys@.take(keys@.len() as int) =~= keys@);
    r
}

/// The key for the key entry `i` of a stream: the one at its place, or else
/// the first.
pub open spec fn key_for(keys: Seq<Seq<char>>, i: int) -> Option<Seq<char>> {
    if i < keys.len() {
        Some(keys[i])
    } else if keys.len() > 0 {
        Some(keys[0])
    } else {
        None
    }
}

/// `after` is `before` with the key that entry `i` gets.
pub open spec fn key_set(before: KeyInfo, after: KeyInfo, keys: Seq<Seq<char>>, i: int) -> bool {
    &&& after.method == before.method
    &&& after.uri == before.uri
    &&& after.iv == before.iv
    &&& after.keyformat == before.keyformat
    &&& match key_for(keys, i) {
        Some(k) => opt_text(after.key_hex) == Some(k),
        None => after.key_hex == before.key_hex,
    }
}

/// All entries got their keys.
pub open spec fn keys_set(before: Seq<KeyInfo>, after: Seq<KeyInfo>, keys: Seq<Seq<char>>) -> bool {
    &&& after.len() == before.len()
    &&& forall|i: int| 0 <= i < before.len() ==> key_set(before[i], #[trigger] after[i], keys, i)
}

/// The note that a key went to a stream.
pub open spec fn association_line(key: Seq<char>, url: Seq<char>) -> Seq<char> {
    "Associated key "@ + key + " with stream "@ + url
}

/// The notes for those of the first `n` entries that get another key.
pub open spec fn entry_lines(infos: Seq<KeyInfo>, url: Seq<char>, keys: Seq<Seq<char>>, n: int) -> Seq<Seq<char>>
    decreases n,
{
    if n <= 0 {
        Seq::empty()
    } else {
        let before = entry_lines(infos, url, keys, n - 1);
        match key_for(keys, n - 1) {
            Some(k) => if opt_text(infos[n - 1].key_hex) != Some(k) {
                before.push(association_line(k, url))
            } else {
                before
            },
            None => before,
        }
    }
}

/// The keys that a stream is known to use.
pub open spec fn known_keys(s: CapturedStream) -> Seq<KeyInfo> {
    match s.probe_state {
        ProbeState::Done(meta) => meta.keys@,
        _ => Seq::empty(),
    }
}

/// The notes for the first `n` streams.
pub open spec fn stream_lines(streams: Seq<CapturedStream>, keys: Seq<Seq<char>>, n: int) -> Seq<Seq<char>>
    decreases n,
{
    if n <= 0 {
        Seq::empty()
    } else {
        let s = streams[n - 1];
        stream_lines(streams, keys, n - 1) + entry_lines(known_keys(s), s.url@, keys, known_keys(s).len() as int)
    }
}

/// `after` is the stream `before` with its keys set.
pub open spec fn stream_keyed(before: CapturedStream, after: CapturedStream, keys: Seq<Seq<char>>) -> bool {
    &&& CapturedStream { probe_state: before.probe_state, ..after } == before
    &&& match (before.probe_state, after.probe_state) {
        (ProbeState::Done(a), ProbeState::Done(b)) => StreamMetadata { keys: a.keys, ..b } == a && keys_set(
            a.keys@,
            b.keys@,
            keys,
        ),
        (ProbeState::Done(_), _) => false,
        (a, b) => a == b,
    }
}

pub open spec fn streams_keyed(
    before: Seq<CapturedStream>,
    after: Seq<CapturedStream>,
    keys: Seq<Seq<char>>,
) -> bool {
    &&& after.len() == before.len()
    &&& forall|j: int| 0 <= j < before.len() ==> stream_keyed(before[j], #[trigger] after[j], keys)
}

/// Sets the keys of a stream, and returns the notes on those that changed.
pub fn set_keys(infos: &mut Vec<KeyInfo>, url: &str, keys: &Vec<String>) -> (r: Vec<String>)
    ensures
        keys_set(old(infos)@, final(infos)@, texts(keys@)),
        texts(r@) == entry_lines(old(infos)@, url@, texts(keys@), old(infos)@.len() as int),
{
    let mut r: Vec<String> = Vec::new();
    assert(texts(r@) =~= Seq::empty());
    let ghost start = infos@;
    let n: usize = infos.len();
    let mut i: usize = 0;
    while i < n
        invariant
            i <= n,
            n == start.len(),
            infos@.len() == n,
            forall|k: int| 0 <= k < i ==> key_set(start[k], #[trigger] infos@[k], texts(keys@), k),
            forall|k: int| i <= k < n ==> #[trigger] infos@[k] == start[k],
            texts(r@) == entry_lines(start, url@, texts(keys@), i as int),
        decreases n - i,
    {
        let ghost before = r@;
        if keys.len() > 0 {
            let k: &String = if i < keys.len() {
                &keys[i]
            } else {
                &keys[0]
            };
            assert(key_for(texts(keys@), i as int) == Some(k@));
            let known: bool = match &infos[i].key_hex {
                Some(h) => same(h.as_str(), k.as_str()),
                None => false,
            };
            assert(known == (opt_text(start[i as int].key_hex) == Some(k@)));
            if !known {
                let info: &mut KeyInfo = &mut infos[i];
                info.key_hex = Some(owned(k.as_str()));
                let mut line: String = owned("Associated key ");
                line.append(k.as_str());
                line.append(" with stream ");
                line.append(url);
                r.push(line);
                assert(texts(r@) =~= texts(before).push(association_line(k@, url@)));
            }
        }
        i = i + 1;
    }
    r
}

/// Appends notes.
fn add_lines(logs: &mut Vec<String>, more: Vec<String>)
    ensures
        texts(final(logs)@) == texts(old(logs)@) + texts(more@),
        final(logs)@.len() == old(logs)@.len() + more@.len(),
{
    let ghost added = more@;
    let ghost start = logs@;
    let mut more: Vec<String> = more;
    logs.append(&mut more);
    assert(texts(logs@) =~= texts(start) + texts(added));
}

/// Sets the keys of all streams, and returns the notes on those that changed.
pub fn key_streams(streams: &mut Vec<CapturedStream>, keys: &Vec<String>) -> (r: Vec<String>)
    ensures
        streams_keyed(old(streams)@, final(streams)@, texts(keys@)),
        texts(r@) == stream_lines(old(streams)@, texts(keys@), old(streams)@.len() as int),
{
    let mut r: Vec<String> = Vec::new();
    assert(texts(r@) =~= Seq::empty());
    let ghost start = streams@;
    let n: usize = streams.len();
    let mut j: usize = 0;
    while j < n
        invariant
            j <= n,
            n == start.len(),
            streams@.len() == n,
            forall|k: int| 0 <= k < j ==> stream_keyed(start[k], #[trigger] streams@[k], texts(keys@)),
            forall|k: int| j <= k < n ==> #[trigger] streams@[k] == start[k],
            texts(r@) == stream_lines(start, texts(keys@), j as int),
        decreases n - j,
    {
        let s: &mut CapturedStream = &mut streams[j];
        let lines: Vec<String> = match &mut s.probe_state {
            ProbeState::Done(meta) => set_keys(&mut meta.keys, s.url.as_str(), keys),
            _ => Vec::new(),
        };
        let ghost more = texts(lines@);
        assert(more =~= entry_lines(
            known_keys(start[j as int]),
            start[j as int].url@,
            texts(keys@),
            known_keys(start[j as int]).len() as int,
        ));
        add_lines(&mut r, lines);
        j = j + 1;
    }
    r
}

/// The note that a key came.
pub open spec fn key_line(p: KeyPayload) -> Seq<char> {
    "AES-128 key intercepted: "@ + hex(p.key@) + " from "@ + p.href@
}

/// `after` is the state with a key taken in.
pub open spec fn key_taken(before: AppState, after: AppState, p: KeyPayload) -> bool {
    let keys = page_keys(after.intercepted_keys@, p.page_url@);
    &&& after.intercepted_keys@ == before.intercepted_keys@.push(p)
    &&& after.selection() == before.selection()
    &&& after.next_stream_id == before.next_stream_id
    &&& after.downloads == before.downloads
    &&& forall|t: int| #[trigger]
        is_tab(before.tabs@, p.page_url@, t) ==> {
            &&& tab_streams_changed(before.tabs@, after.tabs@, t, after.tabs@[t].streams@)
            &&& streams_keyed(before.tabs@[t].streams@, after.tabs@[t].streams@, keys)
            &&& texts(after.tui_logs@) == texts(before.tui_logs@).push(key_line(p)) + stream_lines(
                before.tabs@[t].streams@,
                keys,
                before.tabs@[t].streams@.len() as int,
            )
        }
    &&& (forall|t: int| 0 <= t < before.tabs@.len() ==> (#[trigger] before.tabs@[t]).page_url@ != p.page_url@) ==> {
        &&& after.tabs == before.tabs
        &&& texts(after.tui_logs@) == texts(before.tui_logs@).push(key_line(p))
    }
}

/// The stream that stands for a video.
pub open spec fn is_video_stream(s: CapturedStream, id: u64, url: Seq<char>) -> bool {
    &&& s.stream_id == id
    &&& s.url@ == url
    &&& s.method@ == "GET"@
    &&& s.request_headers@.len() == 0
    &&& s.server_ip@.len() == 0
    &&& s.format == StreamFormat::Youtube
    &&& s.manifest_content is None
    &&& s.probe_state matches ProbeState::Done(meta) && {
        &&& meta.duration == DurationSource::Seconds(0)
        &&& meta.total_segments == 0
        &&& meta.resolutions@.len() == 0
        &&& meta.audio_tracks@.len() == 0
        &&& meta.keys@.len() == 0
        &&& meta.drm@.len() == 0
        &&& meta.segment_base_url is None
        &&& meta.size_bytes is None
    }
}

/// A stream that stands for a video is there.
pub open spec fn has_video(streams: Seq<CapturedStream>) -> bool {
    exists|j: int| 0 <= j < streams.len() && (#[trigger] streams[j]).format == StreamFormat::Youtube
}

/// `after` is the state with the formats of a video taken in.
pub open spec fn formats_taken(
    before: AppState,
    after: AppState,
    url: Seq<char>,
    title: Seq<char>,
    formats: Vec<YtFormat>,
) -> bool {
    &&& after.selection() == before.selection()
    &&& after.downloads == before.downloads
    &&& after.intercepted_keys == before.intercepted_keys
    &&& texts(after.tui_logs@) == texts(before.tui_logs@).push("YouTube formats parsed for "@ + title)
    &&& forall|t: int| #[trigger]
        is_tab(before.tabs@, url, t) ==> {
            let was = before.tabs@[t];
            let got = after.tabs@[t];
            &&& after.tabs@.len() == before.tabs@.len()
            &&& forall|k: int| 0 <= k < before.tabs@.len() && k != t ==> #[trigger] after.tabs@[k] == before.tabs@[k]
            &&& got.page_url == was.page_url
            &&& got.page_title == was.page_title
            &&& got.show_noise == was.show_noise
            &&& got.yt_formats == formats
            &&& if has_video(was.streams@) {
                got.streams == was.streams && after.next_stream_id == before.next_stream_id
            } else {
                &&& got.streams@.len() == was.streams@.len() + 1
                &&& got.streams@.drop_last() == was.streams@
                &&& is_video_stream(got.streams@.last(), before.next_stream_id, url)
                &&& after.next_stream_id == before.next_stream_id + 1
            }
        }
    &&& (forall|t: int| 0 <= t < before.tabs@.len() ==> (#[trigger] before.tabs@[t]).page_url@ != url) ==> {
        let got = after.tabs@.last();
        &&& after.tabs@.len() == before.tabs@.len() + 1
        &&& after.tabs@.drop_last() == before.tabs@
        &&& got.page_url@ == url
        &&& got.page_title@ == title
        &&& !got.show_noise
        &&& got.yt_formats == formats
        &&& got.streams@.len() == 1
        &&& is_video_stream(got.streams@[0], before.next_stream_id, url)
        &&& after.next_stream_id == before.next_stream_id + 1
    }
}

fn video_stream(id: u64, url: &str) -> (r: CapturedStream)
    ensures
        is_video_stream(r, id, url@),
{
    CapturedStream {
        stream_id: id,
        url: owned(url),
        method: owned("GET"),
        request_headers: TextMap::new(),
        server_ip: String::new(),
        format: StreamFormat::Youtube,
        probe_state: ProbeState::Done(
            StreamMetadata {
                duration: DurationSource::Seconds(0),
                total_segments: 0,
                resolutions: Vec::new(),
                audio_tracks: Vec::new(),
                keys: Vec::new(),
                drm: Vec::new(),
                segment_base_url: None,
                size_bytes: None,
            },
        ),
        manifest_content: None,
    }
}

/// A stream whose look is due: what is to be looked at.
#[derive(Debug)]
pub struct LookRequest {
    pub stream_id: u64,
    pub url: String,
    pub headers: TextMap,
    pub manifest_content: Option<String>,
}

/// `after` is the state with a request taken in, and `r` the look that is due.
pub open spec fn request_taken(before: AppState, after: AppState, msg: WsMessage, r: Option<LookRequest>) -> bool {
    exists|p: StreamPayload, place: Place, out: (usize, u64, bool)| #[trigger]
        request_taken_as(before, after, msg, r, p, place, out)
}

pub open spec fn request_taken_as(
    before: AppState,
    after: AppState,
    msg: WsMessage,
    r: Option<LookRequest>,
    p: StreamPayload,
    place: Place,
    out: (usize, u64, bool),
) -> bool {
    let format = stream_format(p.url@, p.response_headers@);
    &&& msg.tells(p)
    &&& before.is_place(p, format, place)
    &&& taken_in(before, after, p, format, place, out)
    &&& after.selection() == before.selection()
    &&& after.downloads == before.downloads
    &&& after.tui_logs == before.tui_logs
    &&& after.intercepted_keys == before.intercepted_keys
    &&& r is None <==> out.2
    &&& r matches Some(look) ==> look.stream_id == out.1 && look.url@ == p.url@ && look.headers@
        == p.request_headers@ && opt_text(look.manifest_content) == opt_text(p.manifest_content)
}

impl AppState {
    /// Takes in a key: the streams of its page that were looked at get it.
    pub fn take_key(&mut self, payload: KeyPayload)
        requires
            old(self).wf(),
        ensures
            final(self).wf(),
            key_taken(*old(self), *final(self), payload),
            fresh_ids(*old(self)) ==> fresh_ids(*final(self)),
    {
        let mut line: String = owned("AES-128 key intercepted: ");
        let h: String = hex_string(&payload.key);
        line.append(h.as_str());
        line.append(" from ");
        line.append(payload.href.as_str());
        let page_url: String = owned(payload.page_url.as_str());
        self.intercepted_keys.push(payload);
        self.tui_logs.push(line);
        assert(texts(self.tui_logs@) =~= texts(old(self).tui_logs@).push(key_line(payload)));
        let keys: Vec<String> = matching_keys(&self.intercepted_keys, page_url.as_str());
        match self.find_tab(page_url.as_str()) {
            Some(t) => {
                let lines: Vec<String> = key_streams(&mut self.tabs[t].streams, &keys);
                add_lines(&mut self.tui_logs, lines);
                assert forall|u: int| #[trigger] is_tab(old(self).tabs@, payload.page_url@, u) implies u == t by {
                    lemma_tab_unique(old(self).tabs@, payload.page_url@, t as int, u);
                }
                assert(old(self).tabs@[t as int].page_url@ == payload.page_url@);
            },
            None => {},
        }
    }

    /// Takes in the formats of a video. The page gets a stream that stands
    /// for the video, if it has none.
    pub fn take_formats(&mut self, page_url: String, page_title: String, formats: Vec<YtFormat>)
        requires
            old(self).wf(),
            old(self).next_stream_id < u64::MAX,
        ensures
            final(self).wf(),
            formats_taken(*old(self), *final(self), page_url@, page_title@, formats),
            fresh_ids(*old(self)) ==> fresh_ids(*final(self)),
    {
        let mut line: String = owned("YouTube formats parsed for ");
        line.append(page_title.as_str());
        let id: u64 = self.next_stream_id;
        match self.find_tab(page_url.as_str()) {
            Some(t) => {
                proof {
                    assert forall|u: int| #[trigger] is_tab(old(self).tabs@, page_url@, u) implies u == t by {
                        lemma_tab_unique(old(self).tabs@, page_url@, t as int, u);
                    }
                }
                self.tabs[t].yt_formats = formats;
                let mut found: bool = false;
                let mut j: usize = 0;
                let streams: &Vec<CapturedStream> = &self.tabs[t].streams;
                while j < streams.len()
                    invariant
                        j <= streams@.len(),
                        found == exists|k: int|
                            0 <= k < j && (#[trigger] streams@[k]).format == StreamFormat::Youtube,
                    decreases streams@.len() - j,
                {
                    if streams[j].format == StreamFormat::Youtube {
                        found = true;
                    }
                    j = j + 1;
                }
                assert(found == has_video(streams@));
                if !found {
                    self.next_stream_id = id + 1;
                    self.tabs[t].streams.push(video_stream(id, page_url.as_str()));
                    assert(self.tabs@[t as int].streams@.drop_last() =~= old(self).tabs@[t as int].streams@);
                }
                assert(old(self).tabs@[t as int].page_url@ == page_url@);
            },
            None => {
                let mut streams: Vec<CapturedStream> = Vec::new();
                streams.push(video_stream(id, page_url.as_str()));
                self.next_stream_id = id + 1;
                self.tabs.push(
                    TabSession { page_url, page_title, streams, show_noise: false, yt_formats: formats },
                );
                assert(self.tabs@.drop_last() =~= old(self).tabs@);
            },
        }
        self.tui_logs.push(line);
        assert(texts(self.tui_logs@) =~= texts(old(self).tui_logs@).push("YouTube formats parsed for "@ + page_title@));
    }

    /// Takes in a message. The result is the look that is due.
    pub fn handle_message(&mut self, msg: &WsMessage) -> (r: Option<LookRequest>)
        requires
            old(self).wf(),
            old(self).next_stream_id < u64::MAX,
        ensures
            final(self).wf(),
            if msg.has_type("keyIntercepted"@) {
                &&& r is None
                &&& msg.key is None ==> *final(self) == *old(self)
                &&& msg.key is Some ==> exists|p: KeyPayload|
                    msg.tells_key(p) && #[trigger] key_taken(*old(self), *final(self), p)
            } else if msg.has_type("youtubeFormats"@) {
                &&& r is None
                &&& msg.streaming_data is None ==> *final(self) == *old(self)
                &&& msg.streaming_data matches Some(data) ==> exists|formats: Vec<YtFormat>|
                    all_described(described_formats(json_view(data)), formats@) && #[trigger] formats_taken(
                        *old(self),
                        *final(self),
                        text_or(msg.page_url, "https://youtube.com/"@),
                        text_or(msg.page_title, "YouTube Video"@),
                        formats,
                    )
            } else if msg.request_id is Some && msg.url is Some {
                request_taken(*old(self), *final(self), *msg, r)
            } else {
                r is None && *final(self) == *old(self)
            },
            fresh_ids(*old(self)) ==> fresh_ids(*final(self)),
    {
        if msg.is_key_intercepted() {
            match msg.to_key_payload() {
                Some(p) => {
                    self.take_key(p);
                },
                None => {},
            }
            None
        } else if msg.is_youtube_formats() {
            match &msg.streaming_data {
                Some(data) => {
                    let formats: Vec<YtFormat> = parse_yt_formats(data);
                    let page_url: String = copy_or(&msg.page_url, "https://youtube.com/");
                    let page_title: String = copy_or(&msg.page_title, "YouTube Video");
                    self.take_formats(page_url, page_title, formats);
                },
                None => {},
            }
            None
        } else {
            match msg.to_stream_payload() {
                Some(p) => {
                    let url: String = owned(p.url.as_str());
                    let headers: TextMap = p.request_headers.clone();
                    let manifest_content: Option<String> = copy_text(&p.manifest_content);
                    let ghost payload = p;
                    let ghost place = choose|place: Place| #[trigger]
                        old(self).is_place(p, stream_format(p.url@, p.response_headers@), place);
                    let out: (usize, u64, bool) = self.add_stream(p);
                    let r: Option<LookRequest> = if out.2 {
                        None
                    } else {
                        Some(LookRequest { stream_id: out.1, url, headers, manifest_content })
                    };
                    assert(request_taken_as(*old(self), *self, *msg, r, payload, place, out));
                    r
                },
                None => None,
            }
        }
    }
}

proof fn lemma_tab_unique(tabs: Seq<TabSession>, page: Seq<char>, a: int, b: int)
    requires
        is_tab(tabs, page, a),
        is_tab(tabs, page, b),
    ensures
        a == b,
{
    if a < b {
        assert(tabs[a].page_url@ != page);
    } else if b < a {
        assert(tabs[b].page_url@ != page);
    }
}

} // verus!
