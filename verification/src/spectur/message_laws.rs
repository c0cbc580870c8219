//! What holds of the messages of a browser, of the keys that come with them,
//! and of what is told of a file.

use vstd::prelude::*;
use crate::numerals::signed_decimal;
use crate::spectur::json::{as_integer, as_text, field, json_view, parse_yt_formats, text, JsonView};
use crate::spectur::probe::{
    header_lines, picture_rows, probe_args, probe_from, probe_headers, probe_metadata, sound_rows, untold_file,
    Mp4Probe, Mp4Stream,
};
use crate::spectur::types::{
    is_tab, AppState, CapturedStream, DrmInfo, DurationSource, KeyInfo, KeyPayload, ProbeState, ResolutionInfo,
    StreamFormat, StreamMetadata, StreamPayload, YtFormat,
};
use crate::spectur::ws::{
    entry_lines, has_video, key_set, key_streams, matching_keys, set_keys, LookRequest, WsMessage,
};
use crate::text::{texts, unicode_lower};
use crate::text_map::TextMap;
use crate::web_url::opt_text;

verus! {

/// The text that is there, or else the empty one.
pub open spec fn told_text(o: Option<String>) -> Seq<char> {
    match o {
        Some(s) => s@,
        None => Seq::empty(),
    }
}

/// A message tells of a request where it has a number and a URL; what else it
/// leaves out is empty.
pub proof fn law_messages_tell_of_requests(m: &WsMessage, bare: bool, r: Option<StreamPayload>)
    requires
        call_ensures(WsMessage::is_stream_payload, (m,), bare),
        call_ensures(WsMessage::to_stream_payload, (m,), r),
    ensures
        bare <==> m.msg_type is None && m.url is Some,
        r is Some <==> m.request_id is Some && m.url is Some,
        r matches Some(p) ==> {
            &&& p.request_id@ == m.request_id->0@
            &&& p.url@ == m.url->0@
            &&& p.method@ == told_text(m.method)
            &&& p.server_ip@ == told_text(m.server_ip)
            &&& p.page_url@ == told_text(m.page_url)
            &&& p.page_title@ == told_text(m.page_title)
            &&& m.request_headers matches Some(h) ==> p.request_headers@ == h@
            &&& m.request_headers is None ==> p.request_headers@.len() == 0
            &&& m.response_headers matches Some(h) ==> p.response_headers@ == h@
            &&& m.response_headers is None ==> p.response_headers@.len() == 0
            &&& m.timestamp matches Some(t) ==> p.timestamp == t
            &&& m.timestamp is None ==> p.timestamp == 0
            &&& opt_text(p.manifest_content) == opt_text(m.manifest_content)
        },
{
}

/// A message tells of a key where it holds one.
pub proof fn law_messages_tell_of_keys(m: &WsMessage, key: bool, video: bool, r: Option<KeyPayload>)
    requires
        call_ensures(WsMessage::is_key_intercepted, (m,), key),
        call_ensures(WsMessage::is_youtube_formats, (m,), video),
        call_ensures(WsMessage::to_key_payload, (m,), r),
    ensures
        key <==> (m.msg_type matches Some(t) && t@ == "keyIntercepted"@),
        video <==> (m.msg_type matches Some(t) && t@ == "youtubeFormats"@),
        r is Some <==> m.key is Some,
        r matches Some(p) ==> {
            &&& p.key@ == m.key->0@
            &&& p.href@ == told_text(m.href)
            &&& p.page_url@ == told_text(m.page_url)
            &&& p.page_title@ == told_text(m.page_title)
            &&& m.timestamp matches Some(t) ==> p.timestamp == t
            &&& m.timestamp is None ==> p.timestamp == 0
        },
{
}

/// A key belongs to the page that it came from: the keys of a page are those
/// that came from it, in their order.
pub proof fn law_keys_belong_to_their_page(
    a: &Vec<KeyPayload>,
    b: &Vec<KeyPayload>,
    last: KeyPayload,
    page: &str,
    x: Vec<String>,
    y: Vec<String>,
    hexed: String,
)
    requires
        call_ensures(matching_keys, (a, page), x),
        call_ensures(matching_keys, (b, page), y),
        b@ == a@.push(last),
        call_ensures(crate::numerals::hex_string, (&last.key,), hexed),
    ensures
        a@.len() == 0 ==> x@.len() == 0,
        last.page_url@ == page@ ==> texts(y@) == texts(x@).push(hexed@),
        last.page_url@ != page@ ==> texts(y@) == texts(x@),
{
    assert(b@.drop_last() =~= a@);
    assert(texts(x@).len() == x@.len());
}

/// An entry gets the key at its place, or else the first; without keys it
/// keeps what it has. Nothing else of it changes.
pub proof fn law_entries_get_their_keys(infos: &mut Vec<KeyInfo>, url: &str, keys: &Vec<String>, r: Vec<String>, i: int)
    requires
        call_ensures(set_keys, (infos, url, keys), r),
        0 <= i < old(infos)@.len(),
    ensures
        final(infos)@.len() == old(infos)@.len(),
        i < keys@.len() ==> (final(infos)@[i].key_hex matches Some(k) && k@ == keys@[i]@),
        i >= keys@.len() && keys@.len() > 0 ==> (final(infos)@[i].key_hex matches Some(k) && k@ == keys@[0]@),
        keys@.len() == 0 ==> final(infos)@[i] == old(infos)@[i],
        final(infos)@[i].method == old(infos)@[i].method,
        final(infos)@[i].uri == old(infos)@[i].uri,
        final(infos)@[i].iv == old(infos)@[i].iv,
        final(infos)@[i].keyformat == old(infos)@[i].keyformat,
{
    let k = texts(keys@);
    assert(k.len() == keys@.len());
    assert(key_set(old(infos)@[i], final(infos)@[i], k, i));
    if i < keys@.len() {
        assert(k[i] == keys@[i]@);
    } else if keys@.len() > 0 {
        assert(k[0] == keys@[0]@);
    }
}

proof fn lemma_entry_lines(a: Seq<KeyInfo>, b: Seq<KeyInfo>, url: Seq<char>, keys: Seq<Seq<char>>, n: int)
    requires
        0 <= n <= a.len() <= b.len(),
        forall|i: int| 0 <= i < a.len() ==> #[trigger] a[i] == b[i],
    ensures
        entry_lines(a, url, keys, n) == entry_lines(b, url, keys, n),
    decreases n,
{
    if n > 0 {
        lemma_entry_lines(a, b, url, keys, n - 1);
        assert(a[n - 1] == b[n - 1]);
    }
}

/// An entry more is noted where it gets a key that it did not have.
pub proof fn law_new_keys_are_noted(
    a: &mut Vec<KeyInfo>,
    b: &mut Vec<KeyInfo>,
    last: KeyInfo,
    url: &str,
    keys: &Vec<String>,
    x: Vec<String>,
    y: Vec<String>,
)
    requires
        call_ensures(set_keys, (a, url, keys), x),
        call_ensures(set_keys, (b, url, keys), y),
        old(b)@ == old(a)@.push(last),
    ensures
        old(a)@.len() == 0 ==> x@.len() == 0,
        keys@.len() == 0 ==> texts(y@) == texts(x@),
        keys@.len() > 0 ==> {
            let k = final(b)@[old(a)@.len() as int].key_hex;
            &&& k is Some
            &&& opt_text(last.key_hex) == opt_text(k) ==> texts(y@) == texts(x@)
            &&& opt_text(last.key_hex) != opt_text(k) ==> texts(y@) == texts(x@).push(
                "Associated key "@ + k->0@ + " with stream "@ + url@,
            )
        },
{
    let k = texts(keys@);
    let n = old(a)@.len() as int;
    assert(k.len() == keys@.len());
    lemma_entry_lines(old(a)@, old(b)@, url@, k, n);
    assert(key_set(old(b)@[n], final(b)@[n], k, n));
    assert(texts(x@).len() == x@.len());
    assert(old(b)@[n] == last);
}

/// The keys of a page go to those of its streams that have been looked at; no
/// other stream changes.
pub proof fn law_streams_get_their_keys(
    streams: &mut Vec<CapturedStream>,
    keys: &Vec<String>,
    r: Vec<String>,
    j: int,
    i: int,
)
    requires
        call_ensures(key_streams, (streams, keys), r),
        0 <= j < old(streams)@.len(),
    ensures
        final(streams)@.len() == old(streams)@.len(),
        !(old(streams)@[j].probe_state is Done) ==> final(streams)@[j] == old(streams)@[j],
        final(streams)@[j].stream_id == old(streams)@[j].stream_id,
        final(streams)@[j].url == old(streams)@[j].url,
        final(streams)@[j].format == old(streams)@[j].format,
        (old(streams)@[j].probe_state matches ProbeState::Done(m) && 0 <= i < m.keys@.len()) ==> {
            let m = old(streams)@[j].probe_state->Done_0;
            let n = final(streams)@[j].probe_state->Done_0;
            &&& final(streams)@[j].probe_state is Done
            &&& n.keys@.len() == m.keys@.len()
            &&& n.resolutions == m.resolutions
            &&& n.duration == m.duration
            &&& n.keys@[i].method == m.keys@[i].method
            &&& i < keys@.len() ==> opt_text(n.keys@[i].key_hex) == Some(keys@[i]@)
            &&& i >= keys@.len() && keys@.len() > 0 ==> opt_text(n.keys@[i].key_hex) == Some(keys@[0]@)
            &&& keys@.len() == 0 ==> n.keys@[i] == m.keys@[i]
        },
{
    let k = texts(keys@);
    assert(k.len() == keys@.len());
    let a = old(streams)@[j];
    let b = final(streams)@[j];
    assert(crate::spectur::ws::stream_keyed(a, b, k));
    if let ProbeState::Done(m) = a.probe_state {
        let n = b.probe_state->Done_0;
        if 0 <= i < m.keys@.len() {
            assert(key_set(m.keys@[i], n.keys@[i], k, i));
        }
        if 0 <= i < keys@.len() {
            assert(k[i] == keys@[i]@);
        } else if keys@.len() > 0 {
            assert(k[0] == keys@[0]@);
        }
    }
}

/// A key that comes is kept as the last and noted. It goes to the page that it
/// came from, and to no other.
pub proof fn law_keys_are_kept(
    app: &mut AppState,
    p: KeyPayload,
    t: int,
    k: int,
    streams: &mut Vec<CapturedStream>,
    page: &str,
    keys: Vec<String>,
    notes: Vec<String>,
    hexed: String,
)
    requires
        call_ensures(AppState::take_key, (app, p), ()),
        0 <= t < old(app).tabs@.len(),
        old(app).tabs@[t].page_url@ == p.page_url@,
        forall|k: int| 0 <= k < t ==> (#[trigger] old(app).tabs@[k]).page_url@ != p.page_url@,
        0 <= k < old(app).tabs@.len(),
        k != t,
        page@ == p.page_url@,
        call_ensures(matching_keys, (&final(app).intercepted_keys, page), keys),
        *old(streams) == old(app).tabs@[t].streams,
        call_ensures(key_streams, (streams, &keys), notes),
        call_ensures(crate::numerals::hex_string, (&p.key,), hexed),
    ensures
        final(app).intercepted_keys@ == old(app).intercepted_keys@.push(p),
        final(app).tabs@.len() == old(app).tabs@.len(),
        final(app).tabs@[k] == old(app).tabs@[k],
        final(app).tabs@[t].page_url == old(app).tabs@[t].page_url,
        final(app).tabs@[t].streams@.len() == old(app).tabs@[t].streams@.len(),
        texts(final(app).tui_logs@) == texts(old(app).tui_logs@).push(
            "AES-128 key intercepted: "@ + hexed@ + " from "@ + p.href@,
        ) + texts(notes@),
        final(app).downloads == old(app).downloads,
        final(app).selected_stream_index == old(app).selected_stream_index,
{
    assert(is_tab(old(app).tabs@, p.page_url@, t));
    assert(final(app).selection() == old(app).selection());
}

/// A key of a page that is not there is kept and noted, and changes no stream.
pub proof fn law_keys_wait_for_their_page(app: &mut AppState, p: KeyPayload, hexed: String)
    requires
        call_ensures(AppState::take_key, (app, p), ()),
        forall|k: int| 0 <= k < old(app).tabs@.len() ==> (#[trigger] old(app).tabs@[k]).page_url@ != p.page_url@,
        call_ensures(crate::numerals::hex_string, (&p.key,), hexed),
    ensures
        final(app).intercepted_keys@ == old(app).intercepted_keys@.push(p),
        final(app).tabs == old(app).tabs,
        texts(final(app).tui_logs@) == texts(old(app).tui_logs@).push(
            "AES-128 key intercepted: "@ + hexed@ + " from "@ + p.href@,
        ),
{
}

/// The formats of a video go to its page, which gets one stream that stands
/// for the video.
pub proof fn law_formats_go_to_their_page(
    app: &mut AppState,
    url: String,
    title: String,
    formats: Vec<YtFormat>,
    t: int,
    j: int,
)
    requires
        call_ensures(AppState::take_formats, (app, url, title, formats), ()),
        0 <= t < old(app).tabs@.len(),
        old(app).tabs@[t].page_url@ == url@,
        forall|k: int| 0 <= k < t ==> (#[trigger] old(app).tabs@[k]).page_url@ != url@,
    ensures
        final(app).tabs@.len() == old(app).tabs@.len(),
        final(app).tabs@[t].yt_formats == formats,
        final(app).tabs@[t].page_url == old(app).tabs@[t].page_url,
        0 <= j < old(app).tabs@[t].streams@.len() ==> final(app).tabs@[t].streams@[j] == old(app).tabs@[t].streams@[j],
        (0 <= j < old(app).tabs@[t].streams@.len() && old(app).tabs@[t].streams@[j].format == StreamFormat::Youtube)
            ==> final(app).tabs@[t].streams == old(app).tabs@[t].streams,
        final(app).tabs@[t].streams == old(app).tabs@[t].streams || {
            let s = final(app).tabs@[t].streams@.last();
            &&& final(app).tabs@[t].streams@.len() == old(app).tabs@[t].streams@.len() + 1
            &&& s.stream_id == old(app).next_stream_id
            &&& s.url@ == url@
            &&& s.format == StreamFormat::Youtube
            &&& s.method@ == "GET"@
            &&& s.probe_state is Done
            &&& final(app).next_stream_id == old(app).next_stream_id + 1
        },
        final(app).tabs@[t].streams@.len() > 0,
        texts(final(app).tui_logs@) == texts(old(app).tui_logs@).push("YouTube formats parsed for "@ + title@),
{
    assert(is_tab(old(app).tabs@, url@, t));
    let was = old(app).tabs@[t];
    let got = final(app).tabs@[t];
    if has_video(was.streams@) {
        let v = choose|v: int| 0 <= v < was.streams@.len() && (#[trigger] was.streams@[v]).format
            == StreamFormat::Youtube;
        assert(got.streams@.len() > 0);
    } else if 0 <= j < was.streams@.len() {
        assert(got.streams@.drop_last()[j] == was.streams@[j]);
    }
}

/// A video whose page is not there makes a page of its own.
pub proof fn law_videos_make_a_page(app: &mut AppState, url: String, title: String, formats: Vec<YtFormat>)
    requires
        call_ensures(AppState::take_formats, (app, url, title, formats), ()),
        forall|k: int| 0 <= k < old(app).tabs@.len() ==> (#[trigger] old(app).tabs@[k]).page_url@ != url@,
    ensures
        final(app).tabs@.len() == old(app).tabs@.len() + 1,
        final(app).tabs@.drop_last() == old(app).tabs@,
        final(app).tabs@.last().page_url@ == url@,
        final(app).tabs@.last().page_title@ == title@,
        final(app).tabs@.last().yt_formats == formats,
        final(app).tabs@.last().streams@.len() == 1,
        final(app).tabs@.last().streams@[0].format == StreamFormat::Youtube,
        final(app).tabs@.last().streams@[0].url@ == url@,
        final(app).tabs@.last().streams@[0].stream_id == old(app).next_stream_id,
        final(app).next_stream_id == old(app).next_stream_id + 1,
        final(app).selected_tab_index == old(app).selected_tab_index,
{
    assert(final(app).selection() == old(app).selection());
}

/// A message about a key brings one key more, a message about a video none,
/// and a message that tells of nothing changes nothing. A look is due only for
/// a request, and it is a look at the URL of the request.
pub proof fn law_messages_are_taken_in(app: &mut AppState, m: &WsMessage, r: Option<LookRequest>)
    requires
        call_ensures(AppState::handle_message, (app, m), r),
    ensures
        opt_text(m.msg_type) == Some("keyIntercepted"@) || opt_text(m.msg_type) == Some("youtubeFormats"@) ==> r is None,
        opt_text(m.msg_type) == Some("keyIntercepted"@) && m.key is Some ==> final(app).intercepted_keys@.len() == old(app).intercepted_keys@.len() + 1 && final(app).intercepted_keys@.last().key@ == m.key->0@
            && final(app).intercepted_keys@.last().page_url@ == told_text(m.page_url) && final(app).intercepted_keys@.last().href@ == told_text(m.href),
        opt_text(m.msg_type) == Some("keyIntercepted"@) && m.key is None ==> *final(app) == *old(app),
        opt_text(m.msg_type) != Some("keyIntercepted"@) ==> final(app).intercepted_keys == old(app).intercepted_keys,
        r is Some || opt_text(m.msg_type) == Some("youtubeFormats"@) || opt_text(m.msg_type) == Some("keyIntercepted"@)
            || final(app).tui_logs == old(app).tui_logs,
        r matches Some(look) ==> m.url is Some && m.request_id is Some && look.url@ == m.url->0@ && opt_text(
            look.manifest_content,
        ) == opt_text(m.manifest_content) && (m.request_headers matches Some(h) ==> look.headers@ == h@),
        m.request_id is None && opt_text(m.msg_type) != Some("keyIntercepted"@) && opt_text(m.msg_type) != Some(
            "youtubeFormats"@,
        ) ==> *final(app) == *old(app) && r is None,
        m.url is None && opt_text(m.msg_type) != Some("keyIntercepted"@) && opt_text(m.msg_type) != Some(
            "youtubeFormats"@,
        ) ==> *final(app) == *old(app) && r is None,
        final(app).downloads == old(app).downloads,
        final(app).selected_tab_index == old(app).selected_tab_index,
        final(app).selected_stream_index == old(app).selected_stream_index,
{
    lemma_types();
    assert(final(app).selection() == old(app).selection());
}

proof fn lemma_types()
    ensures
        "keyIntercepted"@ != "youtubeFormats"@,
{
    reveal_strlit("keyIntercepted");
    reveal_strlit("youtubeFormats");
    assert("keyIntercepted"@[0] == 'k');
    assert("youtubeFormats"@[0] == 'y');
}

/// A request of a page that is not there makes one, and a look at it is due.
pub proof fn law_requests_are_looked_at(app: &mut AppState, m: &WsMessage, r: Option<LookRequest>)
    requires
        call_ensures(AppState::handle_message, (app, m), r),
        m.msg_type is None,
        m.url is Some,
        m.request_id is Some,
        forall|k: int|
            0 <= k < old(app).tabs@.len() ==> (#[trigger] old(app).tabs@[k]).page_url@ != told_text(m.page_url),
    ensures
        r matches Some(look) && look.stream_id == old(app).next_stream_id && look.url@ == m.url->0@,
        final(app).tabs@.len() == old(app).tabs@.len() + 1,
        final(app).tabs@.last().page_url@ == told_text(m.page_url),
        final(app).tabs@.last().streams@.len() == 1,
        final(app).tabs@.last().streams@[0].url@ == m.url->0@,
        final(app).tabs@.last().streams@[0].stream_id == old(app).next_stream_id,
        final(app).next_stream_id == old(app).next_stream_id + 1,
{
    assert(old(app).tabs.len() == old(app).tabs@.len());
}

/// A number is read as such, a text as such, and nothing else as either.
pub proof fn law_values_are_what_they_are(v: &serde_json::Value, n: Option<i64>, s: Option<String>, none: Option<i64>)
    requires
        call_ensures(as_integer, (Some(v),), n),
        call_ensures(as_text, (Some(v),), s),
        call_ensures(as_integer, (None,), none),
    ensures
        none is None,
        match json_view(*v) {
            JsonView::Integer(k) => n == Some(k) && s is None,
            JsonView::Text(t) => n is None && opt_text(s) == Some(t),
            _ => n is None && s is None,
        },
{
}

/// What an object holds under a name.
pub open spec fn held(j: JsonView, key: Seq<char>) -> Option<JsonView> {
    match j {
        JsonView::Object(m) => if m.contains_key(key) {
            Some(m[key])
        } else {
            None
        },
        _ => None,
    }
}

/// The number under a name.
pub open spec fn held_number(j: JsonView, key: Seq<char>) -> Option<i64> {
    match held(j, key) {
        Some(JsonView::Integer(n)) => Some(n),
        _ => None,
    }
}

/// The text under the first of two names that is there.
pub open spec fn held_text(j: JsonView, key: Seq<char>, other: Seq<char>) -> Option<Seq<char>> {
    match held(j, key) {
        Some(JsonView::Text(t)) => Some(t),
        Some(_) => None,
        None => match held(j, other) {
            Some(JsonView::Text(t)) => Some(t),
            _ => None,
        },
    }
}

/// The formats of a video are those with sound and picture, then the others,
/// each as it is described.
pub proof fn law_formats_are_described(
    data: &serde_json::Value,
    r: Vec<YtFormat>,
    fields: Map<Seq<char>, JsonView>,
    a: Seq<JsonView>,
    b: Seq<JsonView>,
    i: int,
)
    requires
        call_ensures(parse_yt_formats, (data,), r),
        json_view(*data) == JsonView::Object(fields),
        fields.contains_key("formats"@),
        fields["formats"@] == JsonView::Array(a),
        fields.contains_key("adaptiveFormats"@),
        fields["adaptiveFormats"@] == JsonView::Array(b),
        0 <= i < a.len() + b.len(),
    ensures
        r@.len() == a.len() + b.len(),
        ({
            let item = if i < a.len() {
                a[i]
            } else {
                b[i - a.len()]
            };
            let f = r@[i];
            &&& f.itag == (match held_number(item, "itag"@) {
                Some(n) => n,
                None => 0,
            })
            &&& f.mime_type@ == (match held_text(item, "mimeType"@, "mime_type"@) {
                Some(t) => t,
                None => "unknown"@,
            })
            &&& f.bitrate == held_number(item, "bitrate"@)
            &&& f.width == held_number(item, "width"@)
            &&& f.height == held_number(item, "height"@)
            &&& f.fps == held_number(item, "fps"@)
            &&& held(item, "qualityLabel"@) is Some || held(item, "quality_label"@) is Some ==> opt_text(
                f.quality_label,
            ) == held_text(item, "qualityLabel"@, "quality_label"@)
            &&& held(item, "qualityLabel"@) is None && held(item, "quality_label"@) is None ==> opt_text(
                f.quality_label,
            ) == held_text(item, "quality"@, "quality"@)
            &&& opt_text(f.content_length) == held_text(item, "contentLength"@, "content_length"@)
            &&& opt_text(f.approx_duration_ms) == held_text(item, "approxDurationMs"@, "approx_duration_ms"@)
            &&& opt_text(f.audio_sample_rate) == held_text(item, "audioSampleRate"@, "audio_sample_rate"@)
            &&& held(item, "audioChannels"@) is Some ==> f.audio_channels == held_number(item, "audioChannels"@)
            &&& held(item, "audioChannels"@) is None ==> f.audio_channels == held_number(item, "audio_channels"@)
        }),
{
    let item = if i < a.len() {
        a[i]
    } else {
        b[i - a.len()]
    };
    let found = crate::spectur::json::described_formats(json_view(*data));
    assert(found == a + b);
    assert(found[i] == item);
    assert(crate::spectur::json::describes(found[i], r@[i]));
}

/// Data without formats describes none.
pub proof fn law_no_formats_without_data(data: &serde_json::Value, r: Vec<YtFormat>)
    requires
        call_ensures(parse_yt_formats, (data,), r),
        !(held(json_view(*data), "formats"@) matches Some(JsonView::Array(_))),
        !(held(json_view(*data), "adaptiveFormats"@) matches Some(JsonView::Array(_))),
    ensures
        r@.len() == 0,
{
    assert(field(json_view(*data), "formats"@) == held(json_view(*data), "formats"@));
    assert(field(json_view(*data), "adaptiveFormats"@) == held(json_view(*data), "adaptiveFormats"@));
    assert(crate::spectur::json::described_formats(json_view(*data)).len() == 0);
}

proof fn lemma_header_lines(a: Seq<(Seq<char>, Seq<char>)>, b: Seq<(Seq<char>, Seq<char>)>, n: int)
    requires
        0 <= n <= a.len() <= b.len(),
        forall|i: int| 0 <= i < a.len() ==> #[trigger] a[i] == b[i],
    ensures
        header_lines(a, n) == header_lines(b, n),
    decreases n,
{
    if n > 0 {
        lemma_header_lines(a, b, n - 1);
        assert(a[n - 1] == b[n - 1]);
    }
}

/// A header more is a line more for the program, unless it is one of those
/// that are not its to send.
pub proof fn law_headers_become_lines(a: &TextMap, b: &TextMap, name: Seq<char>, value: Seq<char>, x: String, y: String)
    requires
        call_ensures(probe_headers, (a,), x),
        call_ensures(probe_headers, (b,), y),
        b@ == a@.push((name, value)),
    ensures
        a@.len() == 0 ==> x@.len() == 0,
        ({
            let n = unicode_lower(name);
            let back = n == "host"@ || n == "accept-encoding"@ || n == "content-length"@ || n == "connection"@ || n
                == "range"@;
            &&& back ==> y@ == x@
            &&& !back ==> y@ == x@ + (name + ": "@ + value + "\r\n"@)
        }),
{
    lemma_header_lines(a@, b@, a@.len() as int);
    assert(b@[a@.len() as int] == (name, value));
}

/// The program is asked for the length, the size and the streams of a URL,
/// with the headers before it where there are any.
pub proof fn law_programs_are_asked(url: &str, headers: &str, r: Vec<String>)
    requires
        call_ensures(probe_args, (url, headers), r),
    ensures
        texts(r@).len() == (if headers@.len() == 0 {
            7int
        } else {
            9
        }),
        texts(r@)[0] == "-v"@,
        texts(r@)[1] == "error"@,
        texts(r@)[2] == "-show_entries"@,
        texts(r@)[3]
            == "format=duration,size,bit_rate:stream=codec_name,codec_type,width,height,r_frame_rate"@,
        texts(r@)[4] == "-of"@,
        texts(r@)[5] == "json"@,
        texts(r@).last() == url@,
        headers@.len() > 0 ==> texts(r@)[6] == "-headers"@ && texts(r@)[7] == headers@,
{
}

/// A report tells of the length, the size and the rate of a file, and of its
/// streams in their order.
pub proof fn law_reports_are_read(
    report: &serde_json::Value,
    r: Mp4Probe,
    fields: Map<Seq<char>, JsonView>,
    inner: JsonView,
    streams: Seq<JsonView>,
    i: int,
)
    requires
        call_ensures(probe_from, (report,), r),
        json_view(*report) == JsonView::Object(fields),
        fields.contains_key("format"@),
        fields["format"@] == inner,
        fields.contains_key("streams"@),
        fields["streams"@] == JsonView::Array(streams),
        0 <= i < streams.len(),
    ensures
        opt_text(r.duration) == held_text(inner, "duration"@, "duration"@),
        opt_text(r.size) == held_text(inner, "size"@, "size"@),
        opt_text(r.bit_rate) == held_text(inner, "bit_rate"@, "bit_rate"@),
        r.streams@.len() == streams.len(),
        r.streams@[i].codec_type@ == (match held_text(streams[i], "codec_type"@, "codec_type"@) {
            Some(t) => t,
            None => Seq::empty(),
        }),
        r.streams@[i].frame_rate@ == (match held_text(streams[i], "r_frame_rate"@, "r_frame_rate"@) {
            Some(t) => t,
            None => Seq::empty(),
        }),
        opt_text(r.streams@[i].codec_name) == held_text(streams[i], "codec_name"@, "codec_name"@),
        r.streams@[i].width == (match held_number(streams[i], "width"@) {
            Some(n) => n,
            None => 0,
        }),
        r.streams@[i].height == (match held_number(streams[i], "height"@) {
            Some(n) => n,
            None => 0,
        }),
{
    let j = json_view(*report);
    let views = r@.streams;
    assert(views.len() == r.streams@.len());
    assert(views[i] == r.streams@[i]@);
    assert(crate::spectur::json::items(field(j, "streams"@)) == streams);
    assert(views[i] == crate::spectur::probe::stream_of(streams[i]));
    assert(r@.duration == opt_text(r.duration));
    assert(r@.size == opt_text(r.size));
    assert(r@.bit_rate == opt_text(r.bit_rate));
}

proof fn lemma_rows(a: Mp4Probe, b: Mp4Probe, x: Seq<Seq<char>>, y: Seq<Seq<char>>, url: Seq<char>, n: int)
    requires
        0 <= n <= a.streams@.len() <= b.streams@.len(),
        a.streams@.len() == x.len(),
        b.streams@.len() == y.len(),
        forall|i: int| 0 <= i < a.streams@.len() ==> #[trigger] a.streams@[i] == b.streams@[i],
        forall|i: int| 0 <= i < x.len() ==> #[trigger] x[i] == y[i],
        a.bit_rate == b.bit_rate,
    ensures
        picture_rows(a@, x, url, n) == picture_rows(b@, y, url, n),
        sound_rows(a@, n) == sound_rows(b@, n),
    decreases n,
{
    if n > 0 {
        lemma_rows(a, b, x, y, url, n - 1);
        assert(a.streams@[n - 1] == b.streams@[n - 1]);
        assert(a@.streams[n - 1] == b@.streams[n - 1]);
        assert(x[n - 1] == y[n - 1]);
    }
}

/// A stream more of a file is a resolution more, if it is a picture with a
/// size, or a sound track more, if it is sound.
pub proof fn law_streams_of_a_file_are_told(
    a: &Mp4Probe,
    b: &Mp4Probe,
    s: Mp4Stream,
    rates: &Vec<String>,
    more: &Vec<String>,
    rate: String,
    url: &str,
    x: StreamMetadata,
    y: StreamMetadata,
    bits: &str,
    number: Option<u64>,
)
    requires
        call_ensures(probe_metadata, (a, rates, url), x),
        call_ensures(probe_metadata, (b, more, url), y),
        a.streams@.len() == rates@.len(),
        b.streams@ == a.streams@.push(s),
        more@ == rates@.push(rate),
        b.bit_rate == a.bit_rate,
        call_ensures(crate::numerals::parse_up_to, (bits, u64::MAX), number),
    ensures
        a.streams@.len() == 0 ==> x.resolutions@.len() == 0 && x.audio_tracks@.len() == 0,
        ({
            let picture = s.codec_type@ == "video"@ && s.width > 0 && s.height > 0;
            &&& !picture ==> y@.resolutions == x@.resolutions
            &&& picture ==> {
                let n = x.resolutions@.len() as int;
                let row = y.resolutions@[n];
                &&& y.resolutions@.len() == n + 1
                &&& y@.resolutions.take(n) == x@.resolutions
                &&& row.label@ == signed_decimal(s.width as int) + "x"@ + signed_decimal(s.height as int)
                &&& opt_text(row.codecs) == opt_text(s.codec_name)
                &&& opt_text(row.mime_type) == Some("video/mp4"@)
                &&& opt_text(row.url) == Some(url@)
                &&& opt_text(row.frame_rate) == (if s.frame_rate@.len() > 0 && rate@ != "0"@ {
                    Some(rate@)
                } else {
                    None
                })
                &&& a.bit_rate is None ==> row.bandwidth == 0
                &&& opt_text(a.bit_rate) == Some(bits@) ==> row.bandwidth == (match number {
                    Some(v) => v,
                    None => 0,
                })
            }
        }),
        s.codec_type@ != "audio"@ ==> texts(y.audio_tracks@) == texts(x.audio_tracks@),
        s.codec_type@ == "audio"@ ==> texts(y.audio_tracks@) == texts(x.audio_tracks@).push(
            "Audio Track ("@ + (match s.codec_name {
                Some(c) => c@,
                None => "unknown"@,
            }) + ")"@,
        ),
{
    let n = a.streams@.len() as int;
    let p = texts(rates@);
    let q = texts(more@);
    assert(p.len() == rates@.len());
    assert(q.len() == more@.len());
    assert forall|i: int| 0 <= i < p.len() implies #[trigger] p[i] == q[i] by {
        assert(more@[i] == rates@[i]);
    }
    lemma_rows(*a, *b, p, q, url@, n);
    assert(a@.streams.len() == n);
    assert(b@.streams.len() == n + 1);
    assert(b@.streams[n] == s@);
    assert(q[n] == rate@);
    assert(x@.resolutions.len() == x.resolutions@.len());
    assert(y@.resolutions.len() == y.resolutions@.len());
    assert(x@.audio_tracks.len() == x.audio_tracks@.len());
    if s.codec_type@ == "video"@ && s.width > 0 && s.height > 0 {
        let m = x.resolutions@.len() as int;
        assert(y@.resolutions[m] == y.resolutions@[m]@);
        assert(y@.resolutions.take(m) =~= x@.resolutions);
    }
    lemma_kinds();
}

proof fn lemma_kinds()
    ensures
        "video"@ != "audio"@,
{
    reveal_strlit("video");
    reveal_strlit("audio");
    assert("video"@[0] == 'v');
    assert("audio"@[0] == 'a');
}

/// What else is known of a file: its length as it was told, one segment, and
/// its size and rate where they are numbers. It has no keys and no protection.
pub proof fn law_files_are_told_of(
    p: &Mp4Probe,
    rates: &Vec<String>,
    url: &str,
    r: StreamMetadata,
    size: &str,
    number: Option<u64>,
    u: StreamMetadata,
)
    requires
        call_ensures(probe_metadata, (p, rates, url), r),
        call_ensures(crate::numerals::parse_up_to, (size, u64::MAX), number),
        call_ensures(untold_file, (url,), u),
    ensures
        r.total_segments == 1,
        r.keys@.len() == 0,
        r.drm@.len() == 0,
        r.segment_base_url is None,
        p.duration matches Some(t) ==> (r.duration matches DurationSource::Text(s) && s@ == t@),
        p.duration is None ==> r.duration == DurationSource::Seconds(0),
        opt_text(p.size) == Some(size@) ==> r.size_bytes == number,
        p.size is None ==> r.size_bytes is None,
        u.total_segments == 1,
        u.duration == DurationSource::Seconds(0),
        u.resolutions@.len() == 1,
        u.resolutions@[0].label@ == "Unknown Resolution"@,
        u.resolutions@[0].bandwidth == 0,
        u.resolutions@[0].codecs is None,
        u.resolutions@[0].frame_rate is None,
        opt_text(u.resolutions@[0].mime_type) == Some("video/mp4"@),
        opt_text(u.resolutions@[0].url) == Some(url@),
        u.audio_tracks@.len() == 0,
        u.keys@.len() == 0,
        u.drm@.len() == 0,
        u.size_bytes is None,
        u.segment_base_url is None,
{
    assert(r@.keys.len() == r.keys@.len());
    assert(r@.drm.len() == r.drm@.len());
    assert(u@.keys.len() == u.keys@.len());
    assert(u@.drm.len() == u.drm@.len());
    assert(u@.audio_tracks.len() == u.audio_tracks@.len());
    assert(u@.resolutions.len() == u.resolutions@.len());
    assert(u@.resolutions[0] == u.resolutions@[0]@);
    assert(r@.duration == r.duration@);
    assert(u@.duration == u.duration@);
    assert(r@.segment_base_url == opt_text(r.segment_base_url));
    assert(u@.segment_base_url == opt_text(u.segment_base_url));
    assert(r@.size_bytes == r.size_bytes);
}

/// What is known of a stream shows each of its fields: two that show the same
/// hold the same.
pub proof fn law_what_is_known_is_shown(
    a: &ResolutionInfo,
    b: &ResolutionInfo,
    k: &KeyInfo,
    l: &KeyInfo,
    d: &DrmInfo,
    e: &DrmInfo,
    m: &StreamMetadata,
    n: &StreamMetadata,
    i: int,
)
    ensures
        a@ == b@ ==> a.label@ == b.label@ && a.bandwidth == b.bandwidth && opt_text(a.codecs) == opt_text(b.codecs)
            && opt_text(a.frame_rate) == opt_text(b.frame_rate) && opt_text(a.mime_type) == opt_text(b.mime_type)
            && opt_text(a.url) == opt_text(b.url),
        k@ == l@ ==> k.method@ == l.method@ && opt_text(k.uri) == opt_text(l.uri) && opt_text(k.iv) == opt_text(l.iv)
            && opt_text(k.keyformat) == opt_text(l.keyformat) && opt_text(k.key_hex) == opt_text(l.key_hex),
        d@ == e@ ==> d.system@ == e.system@ && d.scheme_id_uri@ == e.scheme_id_uri@ && opt_text(d.pssh_data)
            == opt_text(e.pssh_data) && opt_text(d.default_kid) == opt_text(e.default_kid) && opt_text(d.license_url)
            == opt_text(e.license_url),
        m@ == n@ ==> m.total_segments == n.total_segments && m.size_bytes == n.size_bytes && opt_text(
            m.segment_base_url,
        ) == opt_text(n.segment_base_url) && m.resolutions@.len() == n.resolutions@.len() && m.keys@.len()
            == n.keys@.len() && m.drm@.len() == n.drm@.len() && m.audio_tracks@.len() == n.audio_tracks@.len(),
        m@ == n@ && 0 <= i < m.resolutions@.len() ==> m.resolutions@[i]@ == n.resolutions@[i]@,
        m@ == n@ && 0 <= i < m.keys@.len() ==> m.keys@[i]@ == n.keys@[i]@,
        m@ == n@ && 0 <= i < m.drm@.len() ==> m.drm@[i]@ == n.drm@[i]@,
        m@ == n@ && 0 <= i < m.audio_tracks@.len() ==> m.audio_tracks@[i]@ == n.audio_tracks@[i]@,
{
    assert(a@.label == a.label@ && b@.label == b.label@);
    assert(a@.codecs == opt_text(a.codecs) && b@.codecs == opt_text(b.codecs));
    assert(k@.method == k.method@ && l@.method == l.method@);
    assert(d@.system == d.system@ && e@.system == e.system@);
    assert(m@.resolutions.len() == m.resolutions@.len() && n@.resolutions.len() == n.resolutions@.len());
    assert(m@.keys.len() == m.keys@.len() && n@.keys.len() == n.keys@.len());
    assert(m@.drm.len() == m.drm@.len() && n@.drm.len() == n.drm@.len());
    assert(m@.audio_tracks.len() == m.audio_tracks@.len() && n@.audio_tracks.len() == n.audio_tracks@.len());
    if m@ == n@ {
        if 0 <= i < m.resolutions@.len() {
            assert(m@.resolutions[i] == m.resolutions@[i]@ && n@.resolutions[i] == n.resolutions@[i]@);
        }
        if 0 <= i < m.keys@.len() {
            assert(m@.keys[i] == m.keys@[i]@ && n@.keys[i] == n.keys@[i]@);
        }
        if 0 <= i < m.drm@.len() {
            assert(m@.drm[i] == m.drm@[i]@ && n@.drm[i] == n.drm@[i]@);
        }
        if 0 <= i < m.audio_tracks@.len() {
            assert(m@.audio_tracks[i] == m.audio_tracks@[i]@ && n@.audio_tracks[i] == n.audio_tracks@[i]@);
        }
    }
}

} // verus!
