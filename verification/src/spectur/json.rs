//! JSON values, and the video formats that one describes.

use vstd::prelude::*;
use crate::spectur::types::YtFormat;
use crate::text::owned;
use crate::web_url::opt_text;

verus! {

/// `serde_json::Value`.
#[verifier::external_type_specification]
#[verifier::external_body]
pub struct ExValue(serde_json::Value);

/// What a JSON value holds. `Other` stands for null, for the two truth values
/// and for a number that no `i64` is.
pub enum JsonView {
    Other,
    Integer(i64),
    Text(Seq<char>),
    Array(Seq<JsonView>),
    Object(Map<Seq<char>, JsonView>),
}

/// What a value holds.
pub uninterp spec fn json_view(v: serde_json::Value) -> JsonView;

/// The views of a list.
pub open spec fn json_views(v: Seq<serde_json::Value>) -> Seq<JsonView> {
    v.map_values(|x: serde_json::Value| json_view(x))
}

/// The view of what a reference points at.
pub open spec fn opt_json(r: Option<&serde_json::Value>) -> Option<JsonView> {
    match r {
        Some(v) => Some(json_view(*v)),
        None => None,
    }
}

/// What an object holds under a name; nothing holds of anything else.
pub open spec fn field(j: JsonView, key: Seq<char>) -> Option<JsonView> {
    match j {
        JsonView::Object(m) => if m.contains_key(key) {
            Some(m[key])
        } else {
            None
        },
        _ => None,
    }
}

/// The integer that is there.
pub open spec fn integer(j: Option<JsonView>) -> Option<i64> {
    match j {
        Some(JsonView::Integer(n)) => Some(n),
        _ => None,
    }
}

/// The text that is there.
pub open spec fn text(j: Option<JsonView>) -> Option<Seq<char>> {
    match j {
        Some(JsonView::Text(s)) => Some(s),
        _ => None,
    }
}

/// The items of the array that is there; none of anything else.
pub open spec fn items(j: Option<JsonView>) -> Seq<JsonView> {
    match j {
        Some(JsonView::Array(v)) => v,
        _ => Seq::empty(),
    }
}

/// `serde_json::Value::as_i64` gives the integer that the value is.
pub assume_specification[ serde_json::Value::as_i64 ](v: &serde_json::Value) -> (r: Option<i64>)
    ensures
        r == integer(Some(json_view(*v))),
;

/// `serde_json::Value::as_str` gives the text that the value is.
pub assume_specification[ serde_json::Value::as_str ](v: &serde_json::Value) -> (r: Option<&str>)
    ensures
        r is Some <==> json_view(*v) is Text,
        r matches Some(s) ==> json_view(*v) == JsonView::Text(s@),
;

/// `serde_json::Value::as_array` gives the list that the value is.
pub assume_specification[ serde_json::Value::as_array ](v: &serde_json::Value) -> (r: Option<&Vec<serde_json::Value>>)
    ensures
        r is Some <==> json_view(*v) is Array,
        r matches Some(list) ==> json_view(*v) == JsonView::Array(json_views(list@)),
;

/// `serde_json::Value::get` with a name gives what an object holds under it,
/// and nothing of what is no object.
#[verifier::external_body]
pub(crate) fn get_field<'a>(v: &'a serde_json::Value, key: &str) -> (r: Option<&'a serde_json::Value>)
    ensures
        opt_json(r) == field(json_view(*v), key@),
{
    v.get(key)
}

/// What `serde_json::from_slice` reads from bytes; nothing where they are no
/// JSON text.
pub uninterp spec fn json_of(bytes: Seq<u8>) -> Option<JsonView>;

/// `serde_json::from_slice`.
#[verifier::external_body]
pub(crate) fn read_json(bytes: &Vec<u8>) -> (r: Option<serde_json::Value>)
    ensures
        match r {
            Some(v) => json_of(bytes@) == Some(json_view(v)),
            None => json_of(bytes@) is None,
        },
{
    serde_json::from_slice(bytes.as_slice()).ok()
}

/// The first of two that is there.
pub open spec fn or_else(a: Option<JsonView>, b: Option<JsonView>) -> Option<JsonView> {
    if a is Some {
        a
    } else {
        b
    }
}

fn get_either<'a>(v: &'a serde_json::Value, key: &str, other: &str) -> (r: Option<&'a serde_json::Value>)
    ensures
        opt_json(r) == or_else(field(json_view(*v), key@), field(json_view(*v), other@)),
{
    match get_field(v, key) {
        Some(x) => Some(x),
        None => get_field(v, other),
    }
}

/// The integer that is there.
pub fn as_integer(v: Option<&serde_json::Value>) -> (r: Option<i64>)
    ensures
        r == integer(opt_json(v)),
{
    match v {
        Some(x) => x.as_i64(),
        None => None,
    }
}

/// The text that is there.
pub fn as_text(v: Option<&serde_json::Value>) -> (r: Option<String>)
    ensures
        opt_text(r) == text(opt_json(v)),
{
    match v {
        Some(x) => match x.as_str() {
            Some(s) => Some(owned(s)),
            None => None,
        },
        None => None,
    }
}

/// `f` is the format that `item` describes.
pub open spec fn describes(item: JsonView, f: YtFormat) -> bool {
    &&& f.itag == match integer(field(item, "itag"@)) {
        Some(n) => n,
        None => 0,
    }
    &&& f.mime_type@ == match text(or_else(field(item, "mimeType"@), field(item, "mime_type"@))) {
        Some(t) => t,
        None => "unknown"@,
    }
    &&& f.bitrate == integer(field(item, "bitrate"@))
    &&& f.width == integer(field(item, "width"@))
    &&& f.height == integer(field(item, "height"@))
    &&& f.fps == integer(field(item, "fps"@))
    &&& opt_text(f.quality_label) == text(
        or_else(
            or_else(field(item, "qualityLabel"@), field(item, "quality_label"@)),
            field(item, "quality"@),
        ),
    )
    &&& opt_text(f.content_length) == text(or_else(field(item, "contentLength"@), field(item, "content_length"@)))
    &&& opt_text(f.approx_duration_ms) == text(
        or_else(field(item, "approxDurationMs"@), field(item, "approx_duration_ms"@)),
    )
    &&& f.audio_channels == integer(or_else(field(item, "audioChannels"@), field(item, "audio_channels"@)))
    &&& opt_text(f.audio_sample_rate) == text(
        or_else(field(item, "audioSampleRate"@), field(item, "audio_sample_rate"@)),
    )
}

fn yt_format(item: &serde_json::Value) -> (r: YtFormat)
    ensures
        describes(json_view(*item), r),
{
    let itag: i64 = match as_integer(get_field(item, "itag")) {
        Some(n) => n,
        None => 0,
    };
    let mime_type: String = match as_text(get_either(item, "mimeType", "mime_type")) {
        Some(t) => t,
        None => owned("unknown"),
    };
    let label: Option<&serde_json::Value> = match get_either(item, "qualityLabel", "quality_label") {
        Some(l) => Some(l),
        None => get_field(item, "quality"),
    };
    YtFormat {
        itag,
        mime_type,
        bitrate: as_integer(get_field(item, "bitrate")),
        width: as_integer(get_field(item, "width")),
        height: as_integer(get_field(item, "height")),
        fps: as_integer(get_field(item, "fps")),
        quality_label: as_text(label),
        content_length: as_text(get_either(item, "contentLength", "content_length")),
        approx_duration_ms: as_text(get_either(item, "approxDurationMs", "approx_duration_ms")),
        audio_channels: as_integer(get_either(item, "audioChannels", "audio_channels")),
        audio_sample_rate: as_text(get_either(item, "audioSampleRate", "audio_sample_rate")),
    }
}

/// `formats` are those that `found` describe, in order.
pub open spec fn all_described(found: Seq<JsonView>, formats: Seq<YtFormat>) -> bool {
    &&& formats.len() == found.len()
    &&& forall|i: int| 0 <= i < found.len() ==> describes(found[i], #[trigger] formats[i])
}

fn add_formats(list: Option<&serde_json::Value>, formats: &mut Vec<YtFormat>, Ghost(found): Ghost<Seq<JsonView>>)
    requires
        all_described(found, old(formats)@),
    ensures
        all_described(found + items(opt_json(list)), final(formats)@),
{
    let found_items: Option<&Vec<serde_json::Value>> = match list {
        Some(v) => v.as_array(),
        None => None,
    };
    match found_items {
        Some(v) => {
            let ghost all = json_views(v@);
            let mut i: usize = 0;
            assert(found + all.take(0) =~= found);
            while i < v.len()
                invariant
                    i <= v@.len(),
                    all == json_views(v@),
                    all_described(found + all.take(i as int), formats@),
                decreases v@.len() - i,
            {
                formats.push(yt_format(&v[i]));
                assert(found + all.take(i + 1) =~= (found + all.take(i as int)).push(all[i as int]));
                i = i + 1;
            }
            assert(all.take(v@.len() as int) =~= all);
        },
        None => {
            assert(found + items(opt_json(list)) =~= found);
        },
    }
}

/// The descriptions of formats in the data of a video: those of the formats
/// with sound and picture, then the others.
pub open spec fn described_formats(data: JsonView) -> Seq<JsonView> {
    items(field(data, "formats"@)) + items(field(data, "adaptiveFormats"@))
}

/// The formats that the data of a video describes.
pub fn parse_yt_formats(data: &serde_json::Value) -> (r: Vec<YtFormat>)
    ensures
        all_described(described_formats(json_view(*data)), r@),
{
    let mut formats: Vec<YtFormat> = Vec::new();
    let ghost none = Seq::<JsonView>::empty();
    let ghost first = items(field(json_view(*data), "formats"@));
    add_formats(get_field(data, "formats"), &mut formats, Ghost(none));
    assert(none + first =~= first);
    add_formats(get_field(data, "adaptiveFormats"), &mut formats, Ghost(first));
    formats
}

} // verus!
