//! What a file holds, as the program that looks at files reports it.

use vstd::prelude::*;
use crate::numerals::{parse_up_to, parsed, signed_decimal, signed_decimal_string};
use crate::request::copy_text;
use crate::spectur::json::{
    as_integer, as_text, field, get_field, integer, items, json_of, json_view, json_views, read_json, text, JsonView,
};
use crate::spectur::types::{
    resolution_views, DurationSource, DurationView, MetadataView, ResolutionInfo, ResolutionView, StreamMetadata,
};
use crate::text::{lower_unicode, owned, same, texts, unicode_lower};
use crate::text_map::TextMap;
use crate::web_url::opt_text;

verus! {

/// A header that is not handed on to the program.
pub open spec fn is_kept_back(name: Seq<char>) -> bool {
    let n = unicode_lower(name);
    n == "host"@ || n == "accept-encoding"@ || n == "content-length"@ || n == "connection"@ || n == "range"@
}

/// The first `n` headers, as the program takes them.
pub open spec fn header_lines(headers: Seq<(Seq<char>, Seq<char>)>, n: int) -> Seq<char>
    decreases n,
{
    if n <= 0 {
        Seq::empty()
    } else {
        let before = header_lines(headers, n - 1);
        if is_kept_back(headers[n - 1].0) {
            before
        } else {
            before + (headers[n - 1].0 + ": "@ + headers[n - 1].1 + "\r\n"@)
        }
    }
}

/// The headers, as the program takes them.
pub fn probe_headers(headers: &TextMap) -> (r: String)
    ensures
        r@ == header_lines(headers@, headers@.len() as int),
{
    let mut r: String = String::new();
    let mut i: usize = 0;
    assert(r@ =~= Seq::empty());
    while i < headers.entries.len()
        invariant
            i <= headers.entries@.len(),
            r@ == header_lines(headers@, i as int),
        decreases headers.entries@.len() - i,
    {
        assert(headers@[i as int] == (headers.entries@[i as int].0@, headers.entries@[i as int].1@));
        let name: String = lower_unicode(headers.entries[i].0.as_str());
        let kept: bool = same(name.as_str(), "host") || same(name.as_str(), "accept-encoding") || same(
            name.as_str(),
            "content-length",
        ) || same(name.as_str(), "connection") || same(name.as_str(), "range");
        if !kept {
            let ghost before = r@;
            r.append(headers.entries[i].0.as_str());
            r.append(": ");
            r.append(headers.entries[i].1.as_str());
            r.append("\r\n");
            assert(r@ =~= before + (headers@[i as int].0 + ": "@ + headers@[i as int].1 + "\r\n"@));
        }
        i = i + 1;
    }
    r
}

/// What the program is asked for.
pub open spec fn probe_fields() -> Seq<char> {
    "format=duration,size,bit_rate:stream=codec_name,codec_type,width,height,r_frame_rate"@
}

/// The arguments of the program.
pub open spec fn probe_arguments(url: Seq<char>, headers: Seq<char>) -> Seq<Seq<char>> {
    let front = seq!["-v"@, "error"@, "-show_entries"@, probe_fields(), "-of"@, "json"@];
    if headers.len() == 0 {
        front.push(url)
    } else {
        front + seq!["-headers"@, headers, url]
    }
}

/// The arguments of the program that looks at the file at `url`.
pub fn probe_args(url: &str, headers: &str) -> (r: Vec<String>)
    ensures
        texts(r@) == probe_arguments(url@, headers@),
{
    let mut r: Vec<String> = Vec::new();
    r.push(owned("-v"));
    r.push(owned("error"));
    r.push(owned("-show_entries"));
    r.push(owned("format=duration,size,bit_rate:stream=codec_name,codec_type,width,height,r_frame_rate"));
    r.push(owned("-of"));
    r.push(owned("json"));
    if headers.unicode_len() > 0 {
        r.push(owned("-headers"));
        r.push(owned(headers));
    }
    r.push(owned(url));
    assert(texts(r@) =~= probe_arguments(url@, headers@));
    r
}

/// A stream of a file. Sizes that are not told are zero, texts empty.
#[derive(Debug)]
pub struct Mp4Stream {
    pub codec_type: String,
    pub width: i64,
    pub height: i64,
    pub codec_name: Option<String>,
    pub frame_rate: String,
}

/// What the program tells of a file.
#[derive(Debug)]
pub struct Mp4Probe {
    pub duration: Option<String>,
    pub size: Option<String>,
    pub bit_rate: Option<String>,
    pub streams: Vec<Mp4Stream>,
}

#[verifier::ext_equal]
pub struct Mp4StreamView {
    pub codec_type: Seq<char>,
    pub width: i64,
    pub height: i64,
    pub codec_name: Option<Seq<char>>,
    pub frame_rate: Seq<char>,
}

#[verifier::ext_equal]
pub struct Mp4View {
    pub duration: Option<Seq<char>>,
    pub size: Option<Seq<char>>,
    pub bit_rate: Option<Seq<char>>,
    pub streams: Seq<Mp4StreamView>,
}

impl Mp4Stream {
    pub open spec fn view(&self) -> Mp4StreamView {
        Mp4StreamView {
            codec_type: self.codec_type@,
            width: self.width,
            height: self.height,
            codec_name: opt_text(self.codec_name),
            frame_rate: self.frame_rate@,
        }
    }
}

pub open spec fn stream_views(v: Seq<Mp4Stream>) -> Seq<Mp4StreamView> {
    v.map_values(|s: Mp4Stream| s@)
}

impl Mp4Probe {
    pub open spec fn view(&self) -> Mp4View {
        Mp4View {
            duration: opt_text(self.duration),
            size: opt_text(self.size),
            bit_rate: opt_text(self.bit_rate),
            streams: stream_views(self.streams@),
        }
    }
}

/// The text of a field, or else the empty one.
pub open spec fn text_or_empty(t: Option<Seq<char>>) -> Seq<char> {
    match t {
        Some(s) => s,
        None => Seq::empty(),
    }
}

pub open spec fn or_zero(n: Option<i64>) -> i64 {
    match n {
        Some(v) => v,
        None => 0,
    }
}

/// What a report tells of a stream.
pub open spec fn stream_of(j: JsonView) -> Mp4StreamView {
    Mp4StreamView {
        codec_type: text_or_empty(text(field(j, "codec_type"@))),
        width: or_zero(integer(field(j, "width"@))),
        height: or_zero(integer(field(j, "height"@))),
        codec_name: text(field(j, "codec_name"@)),
        frame_rate: text_or_empty(text(field(j, "r_frame_rate"@))),
    }
}

/// A field of a field.
pub open spec fn inner_text(j: JsonView, outer: Seq<char>, key: Seq<char>) -> Option<Seq<char>> {
    match field(j, outer) {
        Some(f) => text(field(f, key)),
        None => None,
    }
}

/// What a report tells of a file.
pub open spec fn probe_of(j: JsonView) -> Mp4View {
    Mp4View {
        duration: inner_text(j, "format"@, "duration"@),
        size: inner_text(j, "format"@, "size"@),
        bit_rate: inner_text(j, "format"@, "bit_rate"@),
        streams: items(field(j, "streams"@)).map_values(|s: JsonView| stream_of(s)),
    }
}

fn text_of_field(v: &serde_json::Value, key: &str) -> (r: String)
    ensures
        r@ == text_or_empty(text(field(json_view(*v), key@))),
{
    match as_text(get_field(v, key)) {
        Some(s) => s,
        None => {
            let r: String = String::new();
            assert(r@ =~= Seq::empty());
            r
        },
    }
}

fn number_of_field(v: &serde_json::Value, key: &str) -> (r: i64)
    ensures
        r == or_zero(integer(field(json_view(*v), key@))),
{
    match as_integer(get_field(v, key)) {
        Some(n) => n,
        None => 0,
    }
}

fn text_within(v: &serde_json::Value, outer: &str, key: &str) -> (r: Option<String>)
    ensures
        opt_text(r) == inner_text(json_view(*v), outer@, key@),
{
    match get_field(v, outer) {
        Some(f) => as_text(get_field(f, key)),
        None => None,
    }
}

/// What a report tells of a file.
pub fn probe_from(report: &serde_json::Value) -> (r: Mp4Probe)
    ensures
        r@ == probe_of(json_view(*report)),
{
    let mut streams: Vec<Mp4Stream> = Vec::new();
    let ghost found = items(field(json_view(*report), "streams"@));
    let list: Option<&Vec<serde_json::Value>> = match get_field(report, "streams") {
        Some(v) => v.as_array(),
        None => None,
    };
    match list {
        Some(v) => {
            assert(found == json_views(v@));
            let mut i: usize = 0;
            while i < v.len()
                invariant
                    i <= v@.len(),
                    streams@.len() == i,
                    forall|k: int| 0 <= k < i ==> (#[trigger] streams@[k])@ == stream_of(json_view(v@[k])),
                decreases v@.len() - i,
            {
                let s = Mp4Stream {
                    codec_type: text_of_field(&v[i], "codec_type"),
                    width: number_of_field(&v[i], "width"),
                    height: number_of_field(&v[i], "height"),
                    codec_name: as_text(get_field(&v[i], "codec_name")),
                    frame_rate: text_of_field(&v[i], "r_frame_rate"),
                };
                assert(s@ =~= stream_of(json_view(v@[i as int])));
                streams.push(s);
                i = i + 1;
            }
        },
        None => {},
    }
    assert(stream_views(streams@) =~= found.map_values(|s: JsonView| stream_of(s)));
    let r = Mp4Probe {
        duration: text_within(report, "format", "duration"),
        size: text_within(report, "format", "size"),
        bit_rate: text_within(report, "format", "bit_rate"),
        streams,
    };
    assert(r@ =~= probe_of(json_view(*report)));
    r
}

/// What the output of the program tells of a file; nothing where it is no report.
pub fn read_probe(output: &Vec<u8>) -> (r: Option<Mp4Probe>)
    ensures
        match json_of(output@) {
            Some(j) => r matches Some(p) && p@ == probe_of(j),
            None => r is None,
        },
{
    match read_json(output) {
        Some(v) => Some(probe_from(&v)),
        None => None,
    }
}

/// The number in a text.
pub open spec fn number_in(t: Option<Seq<char>>) -> Option<u64> {
    match t {
        Some(s) => match parsed(s, u64::MAX as int) {
            Some(n) => Some(n as u64),
            None => None,
        },
        None => None,
    }
}

fn read_number(t: &Option<String>) -> (r: Option<u64>)
    ensures
        r == number_in(opt_text(*t)),
{
    match t {
        Some(s) => parse_up_to(s.as_str(), u64::MAX),
        None => None,
    }
}

/// The resolution of a stream with a picture. `rate` is its frame rate, in
/// short form.
pub open spec fn picture_row(s: Mp4StreamView, bandwidth: u64, rate: Seq<char>, url: Seq<char>) -> ResolutionView {
    ResolutionView {
        label: signed_decimal(s.width as int) + "x"@ + signed_decimal(s.height as int),
        bandwidth,
        codecs: s.codec_name,
        frame_rate: if s.frame_rate.len() > 0 && rate != "0"@ {
            Some(rate)
        } else {
            None
        },
        mime_type: Some("video/mp4"@),
        url: Some(url),
    }
}

/// The resolutions of the first `n` streams.
pub open spec fn picture_rows(p: Mp4View, rates: Seq<Seq<char>>, url: Seq<char>, n: int) -> Seq<ResolutionView>
    decreases n,
{
    if n <= 0 {
        Seq::empty()
    } else {
        let rows = picture_rows(p, rates, url, n - 1);
        let s = p.streams[n - 1];
        if s.codec_type == "video"@ && s.width > 0 && s.height > 0 {
            rows.push(
                picture_row(
                    s,
                    match number_in(p.bit_rate) {
                        Some(b) => b,
                        None => 0,
                    },
                    rates[n - 1],
                    url,
                ),
            )
        } else {
            rows
        }
    }
}

/// The sound tracks among the first `n` streams.
pub open spec fn sound_rows(p: Mp4View, n: int) -> Seq<Seq<char>>
    decreases n,
{
    if n <= 0 {
        Seq::empty()
    } else {
        let rows = sound_rows(p, n - 1);
        let s = p.streams[n - 1];
        if s.codec_type == "audio"@ {
            rows.push(
                "Audio Track ("@ + (match s.codec_name {
                    Some(c) => c,
                    None => "unknown"@,
                }) + ")"@,
            )
        } else {
            rows
        }
    }
}

/// What is known of a file of which the program told.
pub open spec fn told_metadata(p: Mp4View, rates: Seq<Seq<char>>, url: Seq<char>) -> MetadataView {
    MetadataView {
        duration: match p.duration {
            Some(t) => DurationView::Text(t),
            None => DurationView::Seconds(0),
        },
        total_segments: 1,
        resolutions: picture_rows(p, rates, url, p.streams.len() as int),
        audio_tracks: sound_rows(p, p.streams.len() as int),
        keys: Seq::empty(),
        drm: Seq::empty(),
        segment_base_url: None,
        size_bytes: number_in(p.size),
    }
}

/// What is known of a file of which the program told nothing.
pub open spec fn untold_metadata(url: Seq<char>) -> MetadataView {
    MetadataView {
        duration: DurationView::Seconds(0),
        total_segments: 1,
        resolutions: seq![
            ResolutionView {
                label: "Unknown Resolution"@,
                bandwidth: 0,
                codecs: None,
                frame_rate: None,
                mime_type: Some("video/mp4"@),
                url: Some(url),
            },
        ],
        audio_tracks: Seq::empty(),
        keys: Seq::empty(),
        drm: Seq::empty(),
        segment_base_url: None,
        size_bytes: None,
    }
}

/// What is known of a file of which the program told. `rates` are the frame
/// rates of its streams, in short form.
pub fn probe_metadata(probe: &Mp4Probe, rates: &Vec<String>, url: &str) -> (r: StreamMetadata)
    requires
        rates@.len() == probe.streams@.len(),
    ensures
        r@ == told_metadata(probe@, texts(rates@), url@),
{
    let bandwidth: u64 = match read_number(&probe.bit_rate) {
        Some(b) => b,
        None => 0,
    };
    let mut resolutions: Vec<ResolutionInfo> = Vec::new();
    let mut audio_tracks: Vec<String> = Vec::new();
    let ghost p = probe@;
    let ghost short = texts(rates@);
    assert(resolution_views(resolutions@) =~= Seq::empty());
    assert(texts(audio_tracks@) =~= Seq::empty());
    let mut i: usize = 0;
    while i < probe.streams.len()
        invariant
            i <= probe.streams@.len(),
            rates@.len() == probe.streams@.len(),
            p == probe@,
            short == texts(rates@),
            bandwidth == match number_in(p.bit_rate) {
                Some(b) => b,
                None => 0,
            },
            resolution_views(resolutions@) == picture_rows(p, short, url@, i as int),
            texts(audio_tracks@) == sound_rows(p, i as int),
        decreases probe.streams@.len() - i,
    {
        let s: &Mp4Stream = &probe.streams[i];
        assert(p.streams[i as int] == s@);
        assert(short[i as int] == rates@[i as int]@);
        proof {
            reveal_strlit("video");
            reveal_strlit("audio");
            assert("video"@[0] != "audio"@[0]);
        }
        if same(s.codec_type.as_str(), "video") {
            if s.width > 0 && s.height > 0 {
                let mut label: String = signed_decimal_string(s.width);
                let h: String = signed_decimal_string(s.height);
                label.append("x");
                label.append(h.as_str());
                let frame_rate: Option<String> = if s.frame_rate.as_str().unicode_len() > 0 && !same(
                    rates[i].as_str(),
                    "0",
                ) {
                    Some(owned(rates[i].as_str()))
                } else {
                    None
                };
                let row = ResolutionInfo {
                    label,
                    bandwidth,
                    codecs: copy_text(&s.codec_name),
                    frame_rate,
                    mime_type: Some(owned("video/mp4")),
                    url: Some(owned(url)),
                };
                assert(row@ =~= picture_row(s@, bandwidth, short[i as int], url@));
                let ghost before = resolutions@;
                resolutions.push(row);
                assert(resolution_views(resolutions@) =~= resolution_views(before).push(row@));
            }
        } else if same(s.codec_type.as_str(), "audio") {
            let mut track: String = owned("Audio Track (");
            match &s.codec_name {
                Some(c) => {
                    track.append(c.as_str());
                },
                None => {
                    track.append("unknown");
                },
            }
            track.append(")");
            let ghost before = audio_tracks@;
            let ghost added = track@;
            audio_tracks.push(track);
            assert(texts(audio_tracks@) =~= texts(before).push(added));
        }
        i = i + 1;
    }
    let r = StreamMetadata {
        duration: match &probe.duration {
            Some(t) => DurationSource::Text(owned(t.as_str())),
            None => DurationSource::Seconds(0),
        },
        total_segments: 1,
        resolutions,
        audio_tracks,
        keys: Vec::new(),
        drm: Vec::new(),
        segment_base_url: None,
        size_bytes: read_number(&probe.size),
    };
    assert(r@ =~= told_metadata(p, short, url@));
    r
}

/// What is known of a file of which the program told nothing.
pub fn untold_file(url: &str) -> (r: StreamMetadata)
    ensures
        r@ == untold_metadata(url@),
{
    let mut resolutions: Vec<ResolutionInfo> = Vec::new();
    resolutions.push(
        ResolutionInfo {
            label: owned("Unknown Resolution"),
            bandwidth: 0,
            codecs: None,
            frame_rate: None,
            mime_type: Some(owned("video/mp4")),
            url: Some(owned(url)),
        },
    );
    let r = StreamMetadata {
        duration: DurationSource::Seconds(0),
        total_segments: 1,
        resolutions,
        audio_tracks: Vec::new(),
        keys: Vec::new(),
        drm: Vec::new(),
        segment_base_url: None,
        size_bytes: None,
    };
    assert(r@ =~= untold_metadata(url@));
    r
}

} // verus!
