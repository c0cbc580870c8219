//! What an HLS playlist holds.

use vstd::prelude::*;
use crate::numerals::{decimal, decimal_string};
use crate::request::copy_text;
use crate::spectur::types::{
    key_views, resolution_views, DurationSource, DurationView, KeyInfo, KeyView, MetadataView, ResolutionInfo,
    ResolutionView, StreamMetadata,
};
use crate::spectur::urls::{locate, located};
use crate::text::{owned, same, texts};
use crate::web_url::opt_text;

verus! {

/// `m3u8_rs::MasterPlaylist`.
#[verifier::external_type_specification]
#[verifier::external_body]
pub struct ExMasterPlaylist(m3u8_rs::MasterPlaylist);

/// `m3u8_rs::MediaPlaylist`.
#[verifier::external_type_specification]
#[verifier::external_body]
pub struct ExMediaPlaylist(m3u8_rs::MediaPlaylist);

/// A variant of a stream.
#[derive(Debug)]
pub struct HlsVariant {
    pub uri: String,
    pub bandwidth: u64,
    /// Width and height.
    pub resolution: Option<(u64, u64)>,
    pub codecs: Option<String>,
    /// Frames a second, with three decimals.
    pub frame_rate: Option<String>,
}

/// The kind of an alternative rendition.
#[derive(Debug)]
pub enum HlsMediaKind {
    Audio,
    Video,
    Subtitles,
    ClosedCaptions,
    Other(String),
}

/// An alternative rendition.
#[derive(Debug)]
pub struct HlsAlternative {
    pub kind: HlsMediaKind,
    pub name: String,
}

/// How segments are encrypted.
#[derive(Debug)]
pub struct HlsKey {
    pub method: String,
    pub uri: Option<String>,
    pub iv: Option<String>,
    pub keyformat: Option<String>,
}

/// A segment. The duration is the bit pattern of a binary32 number.
#[derive(Debug)]
pub struct HlsSegment {
    pub duration_bits: u32,
    pub key: Option<HlsKey>,
}

/// A playlist.
#[derive(Debug)]
pub enum HlsPlaylist {
    Master { variants: Vec<HlsVariant>, alternatives: Vec<HlsAlternative>, session_keys: Vec<HlsKey> },
    Media { segments: Vec<HlsSegment> },
}

#[verifier::ext_equal]
pub struct HlsVariantView {
    pub uri: Seq<char>,
    pub bandwidth: u64,
    pub resolution: Option<(u64, u64)>,
    pub codecs: Option<Seq<char>>,
    pub frame_rate: Option<Seq<char>>,
}

#[verifier::ext_equal]
pub struct HlsAlternativeView {
    pub is_audio: bool,
    pub name: Seq<char>,
}

#[verifier::ext_equal]
pub struct HlsKeyView {
    pub method: Seq<char>,
    pub uri: Option<Seq<char>>,
    pub iv: Option<Seq<char>>,
    pub keyformat: Option<Seq<char>>,
}

#[verifier::ext_equal]
pub struct HlsSegmentView {
    pub duration_bits: u32,
    pub key: Option<HlsKeyView>,
}

#[verifier::ext_equal]
pub struct MasterView {
    pub variants: Seq<HlsVariantView>,
    pub alternatives: Seq<HlsAlternativeView>,
    pub session_keys: Seq<HlsKeyView>,
}

pub enum HlsView {
    Master(MasterView),
    Media(Seq<HlsSegmentView>),
}

impl HlsVariant {
    pub open spec fn view(&self) -> HlsVariantView {
        HlsVariantView {
            uri: self.uri@,
            bandwidth: self.bandwidth,
            resolution: self.resolution,
            codecs: opt_text(self.codecs),
            frame_rate: opt_text(self.frame_rate),
        }
    }
}

impl HlsAlternative {
    pub open spec fn view(&self) -> HlsAlternativeView {
        HlsAlternativeView { is_audio: self.kind is Audio, name: self.name@ }
    }
}

impl HlsKey {
    pub open spec fn view(&self) -> HlsKeyView {
        HlsKeyView {
            method: self.method@,
            uri: opt_text(self.uri),
            iv: opt_text(self.iv),
            keyformat: opt_text(self.keyformat),
        }
    }
}

impl HlsSegment {
    pub open spec fn view(&self) -> HlsSegmentView {
        HlsSegmentView {
            duration_bits: self.duration_bits,
            key: match self.key {
                Some(k) => Some(k@),
                None => None,
            },
        }
    }
}

pub open spec fn variant_views(v: Seq<HlsVariant>) -> Seq<HlsVariantView> {
    v.map_values(|x: HlsVariant| x@)
}

pub open spec fn alternative_views(v: Seq<HlsAlternative>) -> Seq<HlsAlternativeView> {
    v.map_values(|x: HlsAlternative| x@)
}

pub open spec fn hls_key_views(v: Seq<HlsKey>) -> Seq<HlsKeyView> {
    v.map_values(|x: HlsKey| x@)
}

pub open spec fn segment_views(v: Seq<HlsSegment>) -> Seq<HlsSegmentView> {
    v.map_values(|x: HlsSegment| x@)
}

impl HlsPlaylist {
    pub open spec fn view(&self) -> HlsView {
        match *self {
            HlsPlaylist::Master { variants, alternatives, session_keys } => HlsView::Master(
                MasterView {
                    variants: variant_views(variants@),
                    alternatives: alternative_views(alternatives@),
                    session_keys: hls_key_views(session_keys@),
                },
            ),
            HlsPlaylist::Media { segments } => HlsView::Media(segment_views(segments@)),
        }
    }
}

/// What `m3u8_rs::parse_playlist` reads from a text, or how it says what is
/// wrong with it.
pub uninterp spec fn hls_playlist(body: Seq<char>) -> Result<HlsView, Seq<char>>;

/// The variants, renditions and session keys that a playlist holds.
pub uninterp spec fn master_view(p: m3u8_rs::MasterPlaylist) -> MasterView;

/// The segments that a playlist holds.
pub uninterp spec fn media_view(p: m3u8_rs::MediaPlaylist) -> Seq<HlsSegmentView>;

/// One of the two kinds of playlists.
pub enum ParsedPlaylist {
    Master(m3u8_rs::MasterPlaylist),
    Media(m3u8_rs::MediaPlaylist),
}

/// `m3u8_rs::parse_playlist` of the bytes of a text. An error is given as its
/// debugging text.
#[verifier::external_body]
fn parse_playlist(body: &str) -> (r: Result<ParsedPlaylist, String>)
    ensures
        match r {
            Ok(ParsedPlaylist::Master(m)) => hls_playlist(body@) == Ok::<HlsView, Seq<char>>(HlsView::Master(master_view(m))),
            Ok(ParsedPlaylist::Media(m)) => hls_playlist(body@) == Ok::<HlsView, Seq<char>>(HlsView::Media(media_view(m))),
            Err(e) => hls_playlist(body@) == Err::<HlsView, Seq<char>>(e@),
        },
{
    match m3u8_rs::parse_playlist(body.as_bytes()) {
        Ok((_, m3u8_rs::Playlist::MasterPlaylist(m))) => Ok(ParsedPlaylist::Master(m)),
        Ok((_, m3u8_rs::Playlist::MediaPlaylist(m))) => Ok(ParsedPlaylist::Media(m)),
        Err(e) => Err(format!("{:?}", e)),
    }
}

/// The field `variants` of `m3u8_rs::MasterPlaylist`, with the frame rate
/// written with three decimals.
#[verifier::external_body]
fn master_variants(p: &m3u8_rs::MasterPlaylist) -> (r: Vec<HlsVariant>)
    ensures
        variant_views(r@) == master_view(*p).variants,
{
    p.variants.iter().map(|v| HlsVariant {
        uri: v.uri.clone(),
        bandwidth: v.bandwidth,
        resolution: v.resolution.map(|size| (size.width, size.height)),
        codecs: v.codecs.clone(),
        frame_rate: v.frame_rate.map(|f| format!("{:.3}", f)),
    }).collect()
}

/// The field `alternatives` of `m3u8_rs::MasterPlaylist`.
#[verifier::external_body]
fn master_alternatives(p: &m3u8_rs::MasterPlaylist) -> (r: Vec<HlsAlternative>)
    ensures
        alternative_views(r@) == master_view(*p).alternatives,
{
    p.alternatives.iter().map(|a| HlsAlternative {
        kind: match &a.media_type {
            m3u8_rs::AlternativeMediaType::Audio => HlsMediaKind::Audio,
            m3u8_rs::AlternativeMediaType::Video => HlsMediaKind::Video,
            m3u8_rs::AlternativeMediaType::Subtitles => HlsMediaKind::Subtitles,
            m3u8_rs::AlternativeMediaType::ClosedCaptions => HlsMediaKind::ClosedCaptions,
            m3u8_rs::AlternativeMediaType::Other(s) => HlsMediaKind::Other(s.clone()),
        },
        name: a.name.clone(),
    }).collect()
}

/// The field `session_key` of `m3u8_rs::MasterPlaylist`, with the method as
/// its debugging text.
#[verifier::external_body]
fn master_keys(p: &m3u8_rs::MasterPlaylist) -> (r: Vec<HlsKey>)
    ensures
        hls_key_views(r@) == master_view(*p).session_keys,
{
    p.session_key.iter().map(|k| HlsKey {
        method: format!("{:?}", k.0.method),
        uri: k.0.uri.clone(),
        iv: k.0.iv.clone(),
        keyformat: k.0.keyformat.clone(),
    }).collect()
}

/// The field `segments` of `m3u8_rs::MediaPlaylist`: the durations as bit
/// patterns, the methods of the keys as their debugging texts.
#[verifier::external_body]
fn media_segments(p: &m3u8_rs::MediaPlaylist) -> (r: Vec<HlsSegment>)
    ensures
        segment_views(r@) == media_view(*p),
{
    p.segments.iter().map(|s| HlsSegment {
        duration_bits: s.duration.to_bits(),
        key: s.key.as_ref().map(|k| HlsKey {
            method: format!("{:?}", k.method),
            uri: k.uri.clone(),
            iv: k.iv.clone(),
            keyformat: k.keyformat.clone(),
        }),
    }).collect()
}

/// Reads a playlist.
pub fn read_playlist(body: &str) -> (r: Result<HlsPlaylist, String>)
    ensures
        match r {
            Ok(p) => hls_playlist(body@) == Ok::<HlsView, Seq<char>>(p@),
            Err(e) => hls_playlist(body@) == Err::<HlsView, Seq<char>>(e@),
        },
{
    match parse_playlist(body) {
        Ok(ParsedPlaylist::Master(m)) => Ok(
            HlsPlaylist::Master {
                variants: master_variants(&m),
                alternatives: master_alternatives(&m),
                session_keys: master_keys(&m),
            },
        ),
        Ok(ParsedPlaylist::Media(m)) => Ok(HlsPlaylist::Media { segments: media_segments(&m) }),
        Err(e) => Err(e),
    }
}

/// The label of a picture's size.
pub open spec fn size_label(width: u64, height: u64) -> Seq<char> {
    decimal(width as nat) + "x"@ + decimal(height as nat)
}

pub(crate) fn label_of(width: u64, height: u64) -> (r: String)
    ensures
        r@ == size_label(width, height),
{
    let mut r: String = decimal_string(width);
    let h: String = decimal_string(height);
    r.append("x");
    r.append(h.as_str());
    r
}

/// A resolution has the label.
pub open spec fn has_label(rows: Seq<ResolutionView>, label: Seq<char>) -> bool {
    exists|i: int| 0 <= i < rows.len() && (#[trigger] rows[i]).label == label
}

pub(crate) fn label_known(rows: &Vec<ResolutionInfo>, label: &str) -> (r: bool)
    ensures
        r == has_label(resolution_views(rows@), label@),
{
    let mut i: usize = 0;
    while i < rows.len()
        invariant
            i <= rows@.len(),
            forall|k: int| 0 <= k < i ==> (#[trigger] rows@[k]).label@ != label@,
        decreases rows@.len() - i,
    {
        if same(rows[i].label.as_str(), label) {
            assert(resolution_views(rows@)[i as int].label == label@);
            return true;
        }
        i = i + 1;
    }
    assert forall|k: int| 0 <= k < resolution_views(rows@).len() implies (
    #[trigger] resolution_views(rows@)[k]).label != label@ by {
        assert(rows@[k].label@ != label@);
    }
    false
}

/// The resolutions of the first `n` variants: the first of each size.
pub open spec fn variant_rows(variants: Seq<HlsVariantView>, base: Seq<char>, n: int) -> Seq<ResolutionView>
    decreases n,
{
    if n <= 0 {
        Seq::empty()
    } else {
        let rows = variant_rows(variants, base, n - 1);
        let v = variants[n - 1];
        match v.resolution {
            Some((w, h)) => if has_label(rows, size_label(w, h)) {
                rows
            } else {
                rows.push(
                    ResolutionView {
                        label: size_label(w, h),
                        bandwidth: v.bandwidth,
                        codecs: v.codecs,
                        frame_rate: v.frame_rate,
                        mime_type: None,
                        url: Some(located(base, v.uri)),
                    },
                )
            },
            None => rows,
        }
    }
}

/// The names of those of the first `n` renditions that are sound.
pub open spec fn audio_names(alternatives: Seq<HlsAlternativeView>, n: int) -> Seq<Seq<char>>
    decreases n,
{
    if n <= 0 {
        Seq::empty()
    } else {
        let names = audio_names(alternatives, n - 1);
        if alternatives[n - 1].is_audio {
            names.push(alternatives[n - 1].name)
        } else {
            names
        }
    }
}

/// A key, with its URI at `base`.
pub open spec fn key_row(k: HlsKeyView, base: Seq<char>) -> KeyView {
    KeyView {
        method: k.method,
        uri: match k.uri {
            Some(u) => Some(located(base, u)),
            None => None,
        },
        iv: k.iv,
        keyformat: k.keyformat,
        key_hex: None,
    }
}

/// What tells keys apart: method and URI.
pub open spec fn key_id(k: HlsKeyView) -> Seq<char> {
    k.method + ":"@ + match k.uri {
        Some(u) => u,
        None => Seq::empty(),
    }
}

/// A segment has a key with the given method and URI.
pub open spec fn id_used(segments: Seq<HlsSegmentView>, id: Seq<char>) -> bool {
    exists|i: int| 0 <= i < segments.len() && ((#[trigger] segments[i]).key matches Some(k) && key_id(k) == id)
}

/// The keys of the first `n` segments, each once.
pub open spec fn segment_keys(segments: Seq<HlsSegmentView>, base: Seq<char>, n: int) -> Seq<KeyView>
    decreases n,
{
    if n <= 0 {
        Seq::empty()
    } else {
        let keys = segment_keys(segments, base, n - 1);
        match segments[n - 1].key {
            Some(k) => if id_used(segments.take(n - 1), key_id(k)) {
                keys
            } else {
                keys.push(key_row(k, base))
            },
            None => keys,
        }
    }
}

/// What is known of a stream by its playlist.
pub open spec fn hls_metadata(p: HlsView, base: Seq<char>) -> MetadataView {
    match p {
        HlsView::Master(m) => MetadataView {
            duration: DurationView::Seconds(0),
            total_segments: 0,
            resolutions: variant_rows(m.variants, base, m.variants.len() as int),
            audio_tracks: audio_names(m.alternatives, m.alternatives.len() as int),
            keys: m.session_keys.map_values(|k: HlsKeyView| key_row(k, base)),
            drm: Seq::empty(),
            segment_base_url: None,
            size_bytes: None,
        },
        HlsView::Media(segments) => MetadataView {
            duration: DurationView::Segments(segments.map_values(|s: HlsSegmentView| s.duration_bits)),
            total_segments: segments.len() as usize,
            resolutions: Seq::empty(),
            audio_tracks: Seq::empty(),
            keys: segment_keys(segments, base, segments.len() as int),
            drm: Seq::empty(),
            segment_base_url: None,
            size_bytes: None,
        },
    }
}

fn key_info(k: &HlsKey, base: &str) -> (r: KeyInfo)
    ensures
        r@ == key_row(k@, base@),
{
    KeyInfo {
        method: owned(k.method.as_str()),
        uri: match &k.uri {
            Some(u) => Some(locate(base, u.as_str())),
            None => None,
        },
        iv: copy_text(&k.iv),
        keyformat: copy_text(&k.keyformat),
        key_hex: None,
    }
}

fn variant_resolutions(variants: &Vec<HlsVariant>, base: &str) -> (r: Vec<ResolutionInfo>)
    ensures
        resolution_views(r@) == variant_rows(variant_views(variants@), base@, variants@.len() as int),
{
    let ghost views = variant_views(variants@);
    let mut r: Vec<ResolutionInfo> = Vec::new();
    assert(resolution_views(r@) =~= Seq::empty());
    let mut i: usize = 0;
    while i < variants.len()
        invariant
            i <= variants@.len(),
            views == variant_views(variants@),
            resolution_views(r@) == variant_rows(views, base@, i as int),
        decreases variants@.len() - i,
    {
        let v: &HlsVariant = &variants[i];
        assert(views[i as int] == v@);
        match v.resolution {
            Some((w, h)) => {
                let label: String = label_of(w, h);
                if !label_known(&r, label.as_str()) {
                    let ghost before = r@;
                    let row = ResolutionInfo {
                        label,
                        bandwidth: v.bandwidth,
                        codecs: copy_text(&v.codecs),
                        frame_rate: copy_text(&v.frame_rate),
                        mime_type: None,
                        url: Some(locate(base, v.uri.as_str())),
                    };
                    r.push(row);
                    assert(resolution_views(r@) =~= resolution_views(before).push(row@));
                }
            },
            None => {},
        }
        i = i + 1;
    }
    r
}

fn audio_tracks(alternatives: &Vec<HlsAlternative>) -> (r: Vec<String>)
    ensures
        texts(r@) == audio_names(alternative_views(alternatives@), alternatives@.len() as int),
{
    let ghost views = alternative_views(alternatives@);
    let mut r: Vec<String> = Vec::new();
    assert(texts(r@) =~= Seq::empty());
    let mut i: usize = 0;
    while i < alternatives.len()
        invariant
            i <= alternatives@.len(),
            views == alternative_views(alternatives@),
            texts(r@) == audio_names(views, i as int),
        decreases alternatives@.len() - i,
    {
        assert(views[i as int] == alternatives@[i as int]@);
        match &alternatives[i].kind {
            HlsMediaKind::Audio => {
                let ghost before = r@;
                r.push(owned(alternatives[i].name.as_str()));
                assert(texts(r@) =~= texts(before).push(alternatives@[i as int].name@));
            },
            _ => {},
        }
        i = i + 1;
    }
    r
}

fn session_key_infos(keys: &Vec<HlsKey>, base: &str) -> (r: Vec<KeyInfo>)
    ensures
        key_views(r@) == hls_key_views(keys@).map_values(|k: HlsKeyView| key_row(k, base@)),
{
    let mut r: Vec<KeyInfo> = Vec::new();
    let mut i: usize = 0;
    while i < keys.len()
        invariant
            i <= keys@.len(),
            r@.len() == i,
            forall|k: int| 0 <= k < i ==> (#[trigger] r@[k])@ == key_row(keys@[k]@, base@),
        decreases keys@.len() - i,
    {
        r.push(key_info(&keys[i], base));
        i = i + 1;
    }
    assert(key_views(r@) =~= hls_key_views(keys@).map_values(|k: HlsKeyView| key_row(k, base@)));
    r
}

fn id_of(k: &HlsKey) -> (r: String)
    ensures
        r@ == key_id(k@),
{
    let mut r: String = owned(k.method.as_str());
    r.append(":");
    match &k.uri {
        Some(u) => {
            r.append(u.as_str());
        },
        None => {
            assert(r@ + Seq::<char>::empty() =~= r@);
        },
    }
    r
}

/// Whether one of the first `n` segments has a key with the given method and URI.
fn id_seen(segments: &Vec<HlsSegment>, n: usize, id: &str) -> (r: bool)
    requires
        n <= segments@.len(),
    ensures
        r == id_used(segment_views(segments@).take(n as int), id@),
{
    let ghost views = segment_views(segments@).take(n as int);
    let mut i: usize = 0;
    while i < n
        invariant
            i <= n <= segments@.len(),
            views == segment_views(segments@).take(n as int),
            forall|k: int| 0 <= k < i ==> !((#[trigger] views[k]).key matches Some(x) && key_id(x) == id@),
        decreases n - i,
    {
        assert(views[i as int] == segments@[i as int]@);
        match &segments[i].key {
            Some(k) => {
                let other: String = id_of(k);
                if same(other.as_str(), id) {
                    return true;
                }
            },
            None => {},
        }
        i = i + 1;
    }
    false
}

fn segment_key_infos(segments: &Vec<HlsSegment>, base: &str) -> (r: Vec<KeyInfo>)
    ensures
        key_views(r@) == segment_keys(segment_views(segments@), base@, segments@.len() as int),
{
    let ghost views = segment_views(segments@);
    let mut r: Vec<KeyInfo> = Vec::new();
    assert(key_views(r@) =~= Seq::empty());
    let mut i: usize = 0;
    while i < segments.len()
        invariant
            i <= segments@.len(),
            views == segment_views(segments@),
            key_views(r@) == segment_keys(views, base@, i as int),
        decreases segments@.len() - i,
    {
        assert(views[i as int] == segments@[i as int]@);
        match &segments[i].key {
            Some(k) => {
                let id: String = id_of(k);
                if !id_seen(segments, i, id.as_str()) {
                    let ghost before = r@;
                    let info: KeyInfo = key_info(k, base);
                    r.push(info);
                    assert(key_views(r@) =~= key_views(before).push(info@));
                }
            },
            None => {},
        }
        i = i + 1;
    }
    r
}

fn segment_durations(segments: &Vec<HlsSegment>) -> (r: Vec<u32>)
    ensures
        r@ == segment_views(segments@).map_values(|s: HlsSegmentView| s.duration_bits),
{
    let mut r: Vec<u32> = Vec::new();
    let mut i: usize = 0;
    while i < segments.len()
        invariant
            i <= segments@.len(),
            r@.len() == i,
            forall|k: int| 0 <= k < i ==> #[trigger] r@[k] == segments@[k].duration_bits,
        decreases segments@.len() - i,
    {
        r.push(segments[i].duration_bits);
        i = i + 1;
    }
    assert(r@ =~= segment_views(segments@).map_values(|s: HlsSegmentView| s.duration_bits));
    r
}

/// What is known of a stream by its playlist: of a master playlist the sizes,
/// the sound tracks and the session keys, of a media playlist the segments
/// and their keys.
pub fn playlist_metadata(playlist: &HlsPlaylist, base_url: &str) -> (r: StreamMetadata)
    ensures
        r@ == hls_metadata(playlist@, base_url@),
{
    let r: StreamMetadata = match playlist {
        HlsPlaylist::Master { variants, alternatives, session_keys } => StreamMetadata {
            duration: DurationSource::Seconds(0),
            total_segments: 0,
            resolutions: variant_resolutions(variants, base_url),
            audio_tracks: audio_tracks(alternatives),
            keys: session_key_infos(session_keys, base_url),
            drm: Vec::new(),
            segment_base_url: None,
            size_bytes: None,
        },
        HlsPlaylist::Media { segments } => StreamMetadata {
            duration: DurationSource::Segments(segment_durations(segments)),
            total_segments: segments.len(),
            resolutions: Vec::new(),
            audio_tracks: Vec::new(),
            keys: segment_key_infos(segments, base_url),
            drm: Vec::new(),
            segment_base_url: None,
            size_bytes: None,
        },
    };
    assert(r@ =~= hls_metadata(playlist@, base_url@));
    r
}

/// What is known of a stream by the text of its playlist.
pub fn parse_hls_content(body: &str, base_url: &str) -> (r: Result<StreamMetadata, String>)
    ensures
        match hls_playlist(body@) {
            Ok(p) => r matches Ok(m) && m@ == hls_metadata(p, base_url@),
            Err(e) => r matches Err(text) && text@ == "m3u8 parse error: "@ + e,
        },
{
    match read_playlist(body) {
        Ok(p) => Ok(playlist_metadata(&p, base_url)),
        Err(e) => {
            let mut text: String = owned("m3u8 parse error: ");
            text.append(e.as_str());
            Err(text)
        },
    }
}

/// The label of a variant that tells its size.
pub open spec fn variant_label(v: HlsVariantView) -> Seq<char> {
    match v.resolution {
        Some((w, h)) => size_label(w, h),
        None => Seq::empty(),
    }
}

/// No two resolutions have the same label.
pub open spec fn labels_differ(rows: Seq<ResolutionView>) -> bool {
    forall|i: int, j: int| 0 <= i < j < rows.len() ==> (#[trigger] rows[i]).label != (#[trigger] rows[j]).label
}

/// Every size of a master playlist is listed once.
pub proof fn law_sizes_are_listed_once(variants: Seq<HlsVariantView>, base: Seq<char>, n: int)
    requires
        n <= variants.len(),
    ensures
        labels_differ(variant_rows(variants, base, n)),
        forall|i: int|
            0 <= i < n && (#[trigger] variants[i]).resolution is Some ==> has_label(
                variant_rows(variants, base, n),
                variant_label(variants[i]),
            ),
    decreases n,
{
    if n > 0 {
        law_sizes_are_listed_once(variants, base, n - 1);
        let rows = variant_rows(variants, base, n - 1);
        let all = variant_rows(variants, base, n);
        assert forall|i: int| 0 <= i < n && (#[trigger] variants[i]).resolution is Some implies has_label(
            all,
            variant_label(variants[i]),
        ) by {
            let label = variant_label(variants[i]);
            if i < n - 1 {
                assert(has_label(rows, label));
                let k = choose|k: int| 0 <= k < rows.len() && (#[trigger] rows[k]).label == label;
                assert(all[k].label == label);
            } else if has_label(rows, label) {
            } else {
                assert(all.last().label == label);
            }
        }
    }
}

/// Every key of a media playlist is listed once, by its method and its URI:
/// a segment whose key was used before adds none.
pub proof fn law_repeated_key_adds_nothing(segments: Seq<HlsSegmentView>, base: Seq<char>, i: int, n: int)
    requires
        0 <= i < n < segments.len(),
        segments[i].key is Some,
        segments[n].key is Some,
        key_id(segments[i].key->0) == key_id(segments[n].key->0),
    ensures
        segment_keys(segments, base, n + 1) == segment_keys(segments, base, n),
{
    assert(segments.take(n)[i] == segments[i]);
}

} // verus!
