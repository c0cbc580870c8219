//! What a DASH manifest holds.

use vstd::prelude::*;
use crate::request::copy_text;
use crate::spectur::durations::{check_durations, durations_fit};
use crate::spectur::hls::{has_label, label_known, label_of, labels_differ, size_label};
use crate::spectur::types::{
    drm_views, resolution_views, DrmInfo, DrmView, DurationSource, DurationView, MetadataView, ResolutionInfo,
    ResolutionView, StreamMetadata,
};
use crate::spectur::urls::{dash_url, resolve_dash_url};
use crate::text::{contains, lower_unicode, mentions, owned, same, texts, unicode_lower};
use crate::web_url::opt_text;

verus! {

/// `dash_mpd::MPD`.
#[verifier::external_type_specification]
#[verifier::external_body]
pub struct ExMpd(dash_mpd::MPD);

/// `dash_mpd::Period`.
#[verifier::external_type_specification]
#[verifier::external_body]
pub struct ExPeriod(dash_mpd::Period);

/// `dash_mpd::AdaptationSet`.
#[verifier::external_type_specification]
#[verifier::external_body]
pub struct ExAdaptationSet(dash_mpd::AdaptationSet);

/// `dash_mpd::Representation`.
#[verifier::external_type_specification]
#[verifier::external_body]
pub struct ExRepresentation(dash_mpd::Representation);

/// `dash_mpd::ContentProtection`.
#[verifier::external_type_specification]
#[verifier::external_body]
pub struct ExContentProtection(dash_mpd::ContentProtection);

/// How content is protected.
#[derive(Debug)]
pub struct DashProtection {
    pub scheme_id_uri: String,
    pub value: Option<String>,
    /// The initialization data, entry by entry.
    pub pssh: Vec<Option<String>>,
    pub default_kid: Option<String>,
    pub laurl: Option<String>,
    pub clearkey_laurl: Option<String>,
}

/// One form of a content.
#[derive(Debug)]
pub struct DashRepresentation {
    pub id: Option<String>,
    pub bandwidth: Option<u64>,
    pub width: Option<u64>,
    pub height: Option<u64>,
    pub codecs: Option<String>,
    pub frame_rate: Option<String>,
    pub mime_type: Option<String>,
    pub base_urls: Vec<String>,
    /// How many entries its timeline has.
    pub timeline: Option<usize>,
    /// How many entries its list of segments has.
    pub segment_list: Option<usize>,
    pub protections: Vec<DashProtection>,
}

/// Forms of one content.
#[derive(Debug)]
pub struct DashAdaptation {
    pub content_type: Option<String>,
    pub codecs: Option<String>,
    pub frame_rate: Option<String>,
    pub mime_type: Option<String>,
    pub base_urls: Vec<String>,
    pub protections: Vec<DashProtection>,
    pub representations: Vec<DashRepresentation>,
}

#[derive(Debug)]
pub struct DashPeriod {
    pub base_urls: Vec<String>,
    pub protections: Vec<DashProtection>,
    pub adaptations: Vec<DashAdaptation>,
}

/// A manifest.
#[derive(Debug)]
pub struct DashManifest {
    /// The whole seconds that the presentation lasts.
    pub seconds: Option<u64>,
    pub base_urls: Vec<String>,
    pub protections: Vec<DashProtection>,
    pub periods: Vec<DashPeriod>,
}

#[verifier::ext_equal]
pub struct ProtectionView {
    pub scheme_id_uri: Seq<char>,
    pub value: Option<Seq<char>>,
    pub pssh: Seq<Option<Seq<char>>>,
    pub default_kid: Option<Seq<char>>,
    pub laurl: Option<Seq<char>>,
    pub clearkey_laurl: Option<Seq<char>>,
}

#[verifier::ext_equal]
pub struct RepresentationView {
    pub id: Option<Seq<char>>,
    pub bandwidth: Option<u64>,
    pub width: Option<u64>,
    pub height: Option<u64>,
    pub codecs: Option<Seq<char>>,
    pub frame_rate: Option<Seq<char>>,
    pub mime_type: Option<Seq<char>>,
    pub base_urls: Seq<Seq<char>>,
    pub timeline: Option<usize>,
    pub segment_list: Option<usize>,
    pub protections: Seq<ProtectionView>,
}

#[verifier::ext_equal]
pub struct AdaptationView {
    pub content_type: Option<Seq<char>>,
    pub codecs: Option<Seq<char>>,
    pub frame_rate: Option<Seq<char>>,
    pub mime_type: Option<Seq<char>>,
    pub base_urls: Seq<Seq<char>>,
    pub protections: Seq<ProtectionView>,
    pub representations: Seq<RepresentationView>,
}

#[verifier::ext_equal]
pub struct PeriodView {
    pub base_urls: Seq<Seq<char>>,
    pub protections: Seq<ProtectionView>,
    pub adaptations: Seq<AdaptationView>,
}

#[verifier::ext_equal]
pub struct DashView {
    pub seconds: Option<u64>,
    pub base_urls: Seq<Seq<char>>,
    pub protections: Seq<ProtectionView>,
    pub periods: Seq<PeriodView>,
}

pub open spec fn opt_texts(v: Seq<Option<String>>) -> Seq<Option<Seq<char>>> {
    v.map_values(|o: Option<String>| opt_text(o))
}

impl DashProtection {
    pub open spec fn view(&self) -> ProtectionView {
        ProtectionView {
            scheme_id_uri: self.scheme_id_uri@,
            value: opt_text(self.value),
            pssh: opt_texts(self.pssh@),
            default_kid: opt_text(self.default_kid),
            laurl: opt_text(self.laurl),
            clearkey_laurl: opt_text(self.clearkey_laurl),
        }
    }
}

pub open spec fn protection_list(v: Seq<DashProtection>) -> Seq<ProtectionView> {
    v.map_values(|p: DashProtection| p@)
}

impl DashRepresentation {
    pub open spec fn view(&self) -> RepresentationView {
        RepresentationView {
            id: opt_text(self.id),
            bandwidth: self.bandwidth,
            width: self.width,
            height: self.height,
            codecs: opt_text(self.codecs),
            frame_rate: opt_text(self.frame_rate),
            mime_type: opt_text(self.mime_type),
            base_urls: texts(self.base_urls@),
            timeline: self.timeline,
            segment_list: self.segment_list,
            protections: protection_list(self.protections@),
        }
    }
}

pub open spec fn representation_list(v: Seq<DashRepresentation>) -> Seq<RepresentationView> {
    v.map_values(|r: DashRepresentation| r@)
}

impl DashAdaptation {
    pub open spec fn view(&self) -> AdaptationView {
        AdaptationView {
            content_type: opt_text(self.content_type),
            codecs: opt_text(self.codecs),
            frame_rate: opt_text(self.frame_rate),
            mime_type: opt_text(self.mime_type),
            base_urls: texts(self.base_urls@),
            protections: protection_list(self.protections@),
            representations: representation_list(self.representations@),
        }
    }
}

pub open spec fn adaptation_list(v: Seq<DashAdaptation>) -> Seq<AdaptationView> {
    v.map_values(|a: DashAdaptation| a@)
}

impl DashPeriod {
    pub open spec fn view(&self) -> PeriodView {
        PeriodView {
            base_urls: texts(self.base_urls@),
            protections: protection_list(self.protections@),
            adaptations: adaptation_list(self.adaptations@),
        }
    }
}

pub open spec fn period_list(v: Seq<DashPeriod>) -> Seq<PeriodView> {
    v.map_values(|p: DashPeriod| p@)
}

impl DashManifest {
    pub open spec fn view(&self) -> DashView {
        DashView {
            seconds: self.seconds,
            base_urls: texts(self.base_urls@),
            protections: protection_list(self.protections@),
            periods: period_list(self.periods@),
        }
    }
}

/// What `dash_mpd::parse` reads from a text, or how it says what is wrong
/// with it.
pub uninterp spec fn dash_manifest(body: Seq<char>) -> Result<DashView, Seq<char>>;

/// What a manifest holds.
pub uninterp spec fn mpd_view(m: dash_mpd::MPD) -> DashView;

/// What a period holds.
pub uninterp spec fn period_view(p: dash_mpd::Period) -> PeriodView;

/// What an adaptation set holds.
pub uninterp spec fn adaptation_view(a: dash_mpd::AdaptationSet) -> AdaptationView;

/// What a representation holds.
pub uninterp spec fn representation_view(r: dash_mpd::Representation) -> RepresentationView;

/// What an element on content protection holds.
pub uninterp spec fn protection_view(c: dash_mpd::ContentProtection) -> ProtectionView;

pub open spec fn protection_views(v: Seq<dash_mpd::ContentProtection>) -> Seq<ProtectionView> {
    v.map_values(|c: dash_mpd::ContentProtection| protection_view(c))
}

pub open spec fn representation_views(v: Seq<dash_mpd::Representation>) -> Seq<RepresentationView> {
    v.map_values(|r: dash_mpd::Representation| representation_view(r))
}

pub open spec fn adaptation_views(v: Seq<dash_mpd::AdaptationSet>) -> Seq<AdaptationView> {
    v.map_values(|a: dash_mpd::AdaptationSet| adaptation_view(a))
}

pub open spec fn period_views(v: Seq<dash_mpd::Period>) -> Seq<PeriodView> {
    v.map_values(|p: dash_mpd::Period| period_view(p))
}

/// `dash_mpd::parse`. An error is given as its debugging text. The seconds of a
/// duration are summed up in it without a check, so there is to be none of more
/// seconds than 64 bits hold.
#[verifier::external_body]
fn parse_mpd(body: &str) -> (r: Result<dash_mpd::MPD, String>)
    requires
        durations_fit(body@),
    ensures
        match r {
            Ok(m) => dash_manifest(body@) == Ok::<DashView, Seq<char>>(mpd_view(m)),
            Err(e) => dash_manifest(body@) == Err::<DashView, Seq<char>>(e@),
        },
{
    dash_mpd::parse(body).map_err(|e| format!("{:?}", e))
}

/// Fields of `dash_mpd::MPD`: the presentation's duration in whole seconds,
/// the base URLs, the elements on content protection and the periods.
#[verifier::external_body]
fn mpd_parts(m: &dash_mpd::MPD) -> (r: (
    Option<u64>,
    Vec<String>,
    &Vec<dash_mpd::ContentProtection>,
    &Vec<dash_mpd::Period>,
))
    ensures
        mpd_view(*m) == (DashView {
            seconds: r.0,
            base_urls: texts(r.1@),
            protections: protection_views(r.2@),
            periods: period_views(r.3@),
        }),
{
    let seconds = m.mediaPresentationDuration.as_ref().map(|d| d.as_secs());
    let base_urls = m.base_url.iter().map(|b| b.base.clone()).collect();
    (seconds, base_urls, &m.ContentProtection, &m.periods)
}

/// Fields of `dash_mpd::Period`: the base URLs, the elements on content
/// protection and the adaptation sets.
#[verifier::external_body]
fn period_parts(p: &dash_mpd::Period) -> (r: (
    Vec<String>,
    &Vec<dash_mpd::ContentProtection>,
    &Vec<dash_mpd::AdaptationSet>,
))
    ensures
        period_view(*p) == (PeriodView {
            base_urls: texts(r.0@),
            protections: protection_views(r.1@),
            adaptations: adaptation_views(r.2@),
        }),
{
    let base_urls = p.BaseURL.iter().map(|b| b.base.clone()).collect();
    (base_urls, &p.ContentProtection, &p.adaptations)
}

/// Fields of `dash_mpd::AdaptationSet`: those of a `DashAdaptation`, the
/// elements on content protection and the representations.
#[verifier::external_body]
fn adaptation_parts(a: &dash_mpd::AdaptationSet) -> (r: (
    DashAdaptation,
    &Vec<dash_mpd::ContentProtection>,
    &Vec<dash_mpd::Representation>,
))
    ensures
        adaptation_view(*a) == (AdaptationView {
            protections: protection_views(r.1@),
            representations: representation_views(r.2@),
            ..r.0@
        }),
        r.0.protections@.len() == 0,
        r.0.representations@.len() == 0,
{
    let head = DashAdaptation {
        content_type: a.contentType.clone(),
        codecs: a.codecs.clone(),
        frame_rate: a.frameRate.clone(),
        mime_type: a.mimeType.clone(),
        base_urls: a.BaseURL.iter().map(|b| b.base.clone()).collect(),
        protections: Vec::new(),
        representations: Vec::new(),
    };
    (head, &a.ContentProtection, &a.representations)
}

/// Fields of `dash_mpd::Representation`: those of a `DashRepresentation`, and
/// the elements on content protection.
#[verifier::external_body]
fn representation_parts(r: &dash_mpd::Representation) -> (out: (DashRepresentation, &Vec<dash_mpd::ContentProtection>))
    ensures
        representation_view(*r) == (RepresentationView { protections: protection_views(out.1@), ..out.0@ }),
        out.0.protections@.len() == 0,
{
    let timeline = r.SegmentTemplate.as_ref().and_then(|t| t.SegmentTimeline.as_ref());
    (DashRepresentation {
        id: r.id.clone(), bandwidth: r.bandwidth, width: r.width, height: r.height,
        codecs: r.codecs.clone(),
        frame_rate: r.frameRate.clone(),
        mime_type: r.mimeType.clone(),
        base_urls: r.BaseURL.iter().map(|b| b.base.clone()).collect(),
        timeline: timeline.map(|t| t.segments.len()),
        segment_list: r.SegmentList.as_ref().map(|l| l.segment_urls.len()),
        protections: Vec::new(),
    }, &r.ContentProtection)
}

/// Fields of `dash_mpd::ContentProtection`.
#[verifier::external_body]
fn protection_parts(c: &dash_mpd::ContentProtection) -> (r: DashProtection)
    ensures
        r@ == protection_view(*c),
{
    DashProtection {
        scheme_id_uri: c.schemeIdUri.clone(),
        value: c.value.clone(),
        pssh: c.cenc_pssh.iter().map(|p| p.content.clone()).collect(),
        default_kid: c.default_KID.clone(),
        laurl: c.laurl.as_ref().and_then(|l| l.content.clone()),
        clearkey_laurl: c.clearkey_laurl.as_ref().and_then(|l| l.content.clone()),
    }
}

fn read_protections(v: &Vec<dash_mpd::ContentProtection>) -> (r: Vec<DashProtection>)
    ensures
        protection_list(r@) == protection_views(v@),
{
    let mut r: Vec<DashProtection> = Vec::new();
    let mut i: usize = 0;
    while i < v.len()
        invariant
            i <= v@.len(),
            r@.len() == i,
            forall|k: int| 0 <= k < i ==> (#[trigger] r@[k])@ == protection_view(v@[k]),
        decreases v@.len() - i,
    {
        r.push(protection_parts(&v[i]));
        i = i + 1;
    }
    assert(protection_list(r@) =~= protection_views(v@));
    r
}

fn read_representations(v: &Vec<dash_mpd::Representation>) -> (r: Vec<DashRepresentation>)
    ensures
        representation_list(r@) == representation_views(v@),
{
    let mut r: Vec<DashRepresentation> = Vec::new();
    let mut i: usize = 0;
    while i < v.len()
        invariant
            i <= v@.len(),
            r@.len() == i,
            forall|k: int| 0 <= k < i ==> (#[trigger] r@[k])@ == representation_view(v@[k]),
        decreases v@.len() - i,
    {
        let (head, protections) = representation_parts(&v[i]);
        let mut head: DashRepresentation = head;
        head.protections = read_protections(protections);
        r.push(head);
        i = i + 1;
    }
    assert(representation_list(r@) =~= representation_views(v@));
    r
}

fn read_adaptations(v: &Vec<dash_mpd::AdaptationSet>) -> (r: Vec<DashAdaptation>)
    ensures
        adaptation_list(r@) == adaptation_views(v@),
{
    let mut r: Vec<DashAdaptation> = Vec::new();
    let mut i: usize = 0;
    while i < v.len()
        invariant
            i <= v@.len(),
            r@.len() == i,
            forall|k: int| 0 <= k < i ==> (#[trigger] r@[k])@ == adaptation_view(v@[k]),
        decreases v@.len() - i,
    {
        let (head, protections, representations) = adaptation_parts(&v[i]);
        let mut head: DashAdaptation = head;
        head.protections = read_protections(protections);
        head.representations = read_representations(representations);
        r.push(head);
        i = i + 1;
    }
    assert(adaptation_list(r@) =~= adaptation_views(v@));
    r
}

fn read_periods(v: &Vec<dash_mpd::Period>) -> (r: Vec<DashPeriod>)
    ensures
        period_list(r@) == period_views(v@),
{
    let mut r: Vec<DashPeriod> = Vec::new();
    let mut i: usize = 0;
    while i < v.len()
        invariant
            i <= v@.len(),
            r@.len() == i,
            forall|k: int| 0 <= k < i ==> (#[trigger] r@[k])@ == period_view(v@[k]),
        decreases v@.len() - i,
    {
        let (base_urls, protections, adaptations) = period_parts(&v[i]);
        r.push(
            DashPeriod {
                base_urls,
                protections: read_protections(protections),
                adaptations: read_adaptations(adaptations),
            },
        );
        i = i + 1;
    }
    assert(period_list(r@) =~= period_views(v@));
    r
}

/// What a text reads as, or what is wrong with it: a duration that 64 bits of
/// seconds do not hold is not read.
pub open spec fn manifest_of(body: Seq<char>) -> Result<DashView, Seq<char>> {
    if durations_fit(body) {
        dash_manifest(body)
    } else {
        Err("duration out of bounds"@)
    }
}

/// Reads a manifest.
pub fn read_manifest(body: &str) -> (r: Result<DashManifest, String>)
    ensures
        match r {
            Ok(m) => manifest_of(body@) == Ok::<DashView, Seq<char>>(m@),
            Err(e) => manifest_of(body@) == Err::<DashView, Seq<char>>(e@),
        },
{
    if !check_durations(body) {
        return Err(owned("duration out of bounds"));
    }
    match parse_mpd(body) {
        Ok(m) => {
            let (seconds, base_urls, protections, periods) = mpd_parts(&m);
            Ok(
                DashManifest {
                    seconds,
                    base_urls,
                    protections: read_protections(protections),
                    periods: read_periods(periods),
                },
            )
        },
        Err(e) => Err(e),
    }
}

/// Where the representations of a manifest stand: period, adaptation set and
/// place in it, for the first `n` of an adaptation set ...
pub open spec fn places_in_set(p: int, a: int, n: int) -> Seq<(int, int, int)>
    decreases n,
{
    if n <= 0 {
        Seq::empty()
    } else {
        places_in_set(p, a, n - 1).push((p, a, n - 1))
    }
}

/// ... for the first `n` adaptation sets of a period ...
pub open spec fn places_in_period(v: DashView, p: int, n: int) -> Seq<(int, int, int)>
    decreases n,
{
    if n <= 0 {
        Seq::empty()
    } else {
        places_in_period(v, p, n - 1) + places_in_set(
            p,
            n - 1,
            v.periods[p].adaptations[n - 1].representations.len() as int,
        )
    }
}

/// ... and for the first `n` periods.
pub open spec fn places(v: DashView, n: int) -> Seq<(int, int, int)>
    decreases n,
{
    if n <= 0 {
        Seq::empty()
    } else {
        places(v, n - 1) + places_in_period(v, n - 1, v.periods[n - 1].adaptations.len() as int)
    }
}

/// Where all the representations of a manifest stand, in order.
pub open spec fn all_places(v: DashView) -> Seq<(int, int, int)> {
    places(v, v.periods.len() as int)
}

pub open spec fn set_at(v: DashView, t: (int, int, int)) -> AdaptationView {
    v.periods[t.0].adaptations[t.1]
}

pub open spec fn representation_at(v: DashView, t: (int, int, int)) -> RepresentationView {
    set_at(v, t).representations[t.2]
}

/// The first of several.
pub open spec fn first_of(v: Seq<Seq<char>>) -> Option<Seq<char>> {
    if v.len() > 0 {
        Some(v[0])
    } else {
        None
    }
}

/// The first of two texts that is there.
pub open spec fn text_or_else(a: Option<Seq<char>>, b: Option<Seq<char>>) -> Option<Seq<char>> {
    if a is Some {
        a
    } else {
        b
    }
}

/// The resolution of a representation with a picture.
pub open spec fn place_row(v: DashView, base: Seq<char>, t: (int, int, int)) -> Option<ResolutionView> {
    let set = set_at(v, t);
    let rep = representation_at(v, t);
    match (rep.width, rep.height) {
        (Some(w), Some(h)) => if set.content_type == Some("video"@) {
            Some(
                ResolutionView {
                    label: size_label(w, h),
                    bandwidth: match rep.bandwidth {
                        Some(b) => b,
                        None => 0,
                    },
                    codecs: text_or_else(rep.codecs, set.codecs),
                    frame_rate: text_or_else(rep.frame_rate, set.frame_rate),
                    mime_type: text_or_else(rep.mime_type, set.mime_type),
                    url: Some(
                        dash_url(
                            base,
                            first_of(v.base_urls),
                            first_of(v.periods[t.0].base_urls),
                            first_of(set.base_urls),
                            first_of(rep.base_urls),
                        ),
                    ),
                },
            )
        } else {
            None
        },
        _ => None,
    }
}

/// The resolutions at some places: the first of each size.
pub open spec fn place_rows(v: DashView, base: Seq<char>, ts: Seq<(int, int, int)>) -> Seq<ResolutionView>
    decreases ts.len(),
{
    if ts.len() == 0 {
        Seq::empty()
    } else {
        let rows = place_rows(v, base, ts.drop_last());
        match place_row(v, base, ts.last()) {
            Some(row) => if has_label(rows, row.label) {
                rows
            } else {
                rows.push(row)
            },
            None => rows,
        }
    }
}

/// The names of the representations with sound at some places.
pub open spec fn place_tracks(v: DashView, ts: Seq<(int, int, int)>) -> Seq<Seq<char>>
    decreases ts.len(),
{
    if ts.len() == 0 {
        Seq::empty()
    } else {
        let names = place_tracks(v, ts.drop_last());
        if set_at(v, ts.last()).content_type == Some("audio"@) && representation_at(v, ts.last()).id is Some {
            names.push(representation_at(v, ts.last()).id->0)
        } else {
            names
        }
    }
}

/// How many segments are listed at some places.
pub open spec fn place_segments(v: DashView, ts: Seq<(int, int, int)>) -> int
    decreases ts.len(),
{
    if ts.len() == 0 {
        0
    } else {
        let rep = representation_at(v, ts.last());
        place_segments(v, ts.drop_last()) + (match rep.timeline {
            Some(n) => n as int,
            None => 0,
        }) + (match rep.segment_list {
            Some(n) => n as int,
            None => 0,
        })
    }
}

/// The elements on content protection of the first `n` representations of a set ...
pub open spec fn set_protections(a: AdaptationView, n: int) -> Seq<ProtectionView>
    decreases n,
{
    if n <= 0 {
        a.protections
    } else {
        set_protections(a, n - 1) + a.representations[n - 1].protections
    }
}

/// ... of the first `n` adaptation sets of a period ...
pub open spec fn period_protections(p: PeriodView, n: int) -> Seq<ProtectionView>
    decreases n,
{
    if n <= 0 {
        p.protections
    } else {
        period_protections(p, n - 1) + set_protections(
            p.adaptations[n - 1],
            p.adaptations[n - 1].representations.len() as int,
        )
    }
}

/// ... and of the first `n` periods, each after those of what it stands in.
pub open spec fn manifest_protections(v: DashView, n: int) -> Seq<ProtectionView>
    decreases n,
{
    if n <= 0 {
        v.protections
    } else {
        manifest_protections(v, n - 1) + period_protections(
            v.periods[n - 1],
            v.periods[n - 1].adaptations.len() as int,
        )
    }
}

/// The name of a protection system, by its identifier and its description,
/// both in lower case.
pub open spec fn drm_system(uri: Seq<char>, value: Option<Seq<char>>) -> Seq<char> {
    if contains(uri, "edef8ba9-79d6-4ace-a3c8-27dcd51d21ed"@) {
        "Widevine"@
    } else if contains(uri, "9a04f079-9840-4286-ab92-e65be0885f95"@) {
        "PlayReady"@
    } else if contains(uri, "94ce86fb-07ff-4f43-adb8-93d2fa968ca2"@) {
        "FairPlay"@
    } else if contains(uri, "1077efec-c0b2-4d02-ace3-3c1e52e2fb4b"@) {
        "ClearKey"@
    } else if contains(uri, "mp4protection"@) {
        "CENC"@
    } else {
        match value {
            Some(v) => if contains(v, "widevine"@) {
                "Widevine"@
            } else if contains(v, "playready"@) {
                "PlayReady"@
            } else if contains(v, "cenc"@) {
                "CENC"@
            } else {
                "Unknown"@
            },
            None => "Unknown"@,
        }
    }
}

/// What is told of a protection.
pub open spec fn drm_row(p: ProtectionView) -> DrmView {
    DrmView {
        system: drm_system(
            unicode_lower(p.scheme_id_uri),
            match p.value {
                Some(v) => Some(unicode_lower(v)),
                None => None,
            },
        ),
        scheme_id_uri: p.scheme_id_uri,
        pssh_data: if p.pssh.len() > 0 {
            p.pssh[0]
        } else {
            None
        },
        default_kid: p.default_kid,
        license_url: text_or_else(p.laurl, p.clearkey_laurl),
    }
}

/// A protection with the identifier and the key is told of.
pub open spec fn drm_known(rows: Seq<DrmView>, uri: Seq<char>, kid: Option<Seq<char>>) -> bool {
    exists|i: int| 0 <= i < rows.len() && (#[trigger] rows[i]).scheme_id_uri == uri && rows[i].default_kid == kid
}

/// The protections that are told of: the first with each identifier and key.
pub open spec fn drm_rows(ps: Seq<ProtectionView>) -> Seq<DrmView>
    decreases ps.len(),
{
    if ps.len() == 0 {
        Seq::empty()
    } else {
        let rows = drm_rows(ps.drop_last());
        if drm_known(rows, ps.last().scheme_id_uri, ps.last().default_kid) {
            rows
        } else {
            rows.push(drm_row(ps.last()))
        }
    }
}

/// What is known of a stream by its manifest.
pub open spec fn dash_metadata(v: DashView, base: Seq<char>) -> MetadataView {
    MetadataView {
        duration: match v.seconds {
            Some(n) => DurationView::Seconds(n),
            None => DurationView::Seconds(0),
        },
        total_segments: if place_segments(v, all_places(v)) > usize::MAX {
            usize::MAX
        } else {
            place_segments(v, all_places(v)) as usize
        },
        resolutions: place_rows(v, base, all_places(v)),
        audio_tracks: place_tracks(v, all_places(v)),
        keys: Seq::empty(),
        drm: drm_rows(manifest_protections(v, v.periods.len() as int)),
        segment_base_url: None,
        size_bytes: None,
    }
}

/// The name of a protection system, by its identifier and its description,
/// both in lower case.
pub fn classify_drm_from(uri: &str, value: &Option<String>) -> (r: String)
    ensures
        r@ == drm_system(uri@, opt_text(*value)),
{
    if mentions(uri, "edef8ba9-79d6-4ace-a3c8-27dcd51d21ed") {
        return owned("Widevine");
    }
    if mentions(uri, "9a04f079-9840-4286-ab92-e65be0885f95") {
        return owned("PlayReady");
    }
    if mentions(uri, "94ce86fb-07ff-4f43-adb8-93d2fa968ca2") {
        return owned("FairPlay");
    }
    if mentions(uri, "1077efec-c0b2-4d02-ace3-3c1e52e2fb4b") {
        return owned("ClearKey");
    }
    if mentions(uri, "mp4protection") {
        return owned("CENC");
    }
    match value {
        Some(v) => {
            if mentions(v.as_str(), "widevine") {
                owned("Widevine")
            } else if mentions(v.as_str(), "playready") {
                owned("PlayReady")
            } else if mentions(v.as_str(), "cenc") {
                owned("CENC")
            } else {
                owned("Unknown")
            }
        },
        None => owned("Unknown"),
    }
}

/// The name of a protection system.
pub fn classify_drm(cp: &DashProtection) -> (r: String)
    ensures
        r@ == drm_row(cp@).system,
{
    let uri: String = lower_unicode(cp.scheme_id_uri.as_str());
    let value: Option<String> = match &cp.value {
        Some(v) => Some(lower_unicode(v.as_str())),
        None => None,
    };
    classify_drm_from(uri.as_str(), &value)
}

fn copy_either(a: &Option<String>, b: &Option<String>) -> (r: Option<String>)
    ensures
        opt_text(r) == text_or_else(opt_text(*a), opt_text(*b)),
{
    match a {
        Some(s) => Some(owned(s.as_str())),
        None => copy_text(b),
    }
}

fn copy_first(v: &Vec<String>) -> (r: Option<String>)
    ensures
        opt_text(r) == first_of(texts(v@)),
{
    if v.len() > 0 {
        Some(owned(v[0].as_str()))
    } else {
        None
    }
}

fn same_opt(a: &Option<String>, b: &Option<String>) -> (r: bool)
    ensures
        r == (opt_text(*a) == opt_text(*b)),
{
    match (a, b) {
        (Some(s), Some(t)) => same(s.as_str(), t.as_str()),
        (None, None) => true,
        _ => false,
    }
}

fn drm_told(rows: &Vec<DrmInfo>, cp: &DashProtection) -> (r: bool)
    ensures
        r == drm_known(drm_views(rows@), cp@.scheme_id_uri, cp@.default_kid),
{
    let mut i: usize = 0;
    while i < rows.len()
        invariant
            i <= rows@.len(),
            forall|k: int|
                0 <= k < i ==> !((#[trigger] rows@[k]).scheme_id_uri@ == cp@.scheme_id_uri && opt_text(
                    rows@[k].default_kid,
                ) == cp@.default_kid),
        decreases rows@.len() - i,
    {
        if same(rows[i].scheme_id_uri.as_str(), cp.scheme_id_uri.as_str()) && same_opt(
            &rows[i].default_kid,
            &cp.default_kid,
        ) {
            assert(drm_views(rows@)[i as int].scheme_id_uri == cp@.scheme_id_uri);
            return true;
        }
        i = i + 1;
    }
    assert forall|k: int| 0 <= k < drm_views(rows@).len() implies !((
    #[trigger] drm_views(rows@)[k]).scheme_id_uri == cp@.scheme_id_uri && drm_views(rows@)[k].default_kid
        == cp@.default_kid) by {
        assert(drm_views(rows@)[k] == rows@[k]@);
    }
    false
}

/// Adds the protections of a list that are not told of yet.
fn add_drm(list: &Vec<DashProtection>, rows: &mut Vec<DrmInfo>, Ghost(seen): Ghost<Seq<ProtectionView>>)
    requires
        drm_views(old(rows)@) == drm_rows(seen),
    ensures
        drm_views(final(rows)@) == drm_rows(seen + protection_list(list@)),
{
    let ghost all = protection_list(list@);
    let mut i: usize = 0;
    assert(seen + all.take(0) =~= seen);
    while i < list.len()
        invariant
            i <= list@.len(),
            all == protection_list(list@),
            drm_views(rows@) == drm_rows(seen + all.take(i as int)),
        decreases list@.len() - i,
    {
        let cp: &DashProtection = &list[i];
        let ghost next = seen + all.take(i + 1);
        assert(next.drop_last() =~= seen + all.take(i as int));
        assert(next.last() == cp@);
        if !drm_told(rows, cp) {
            let ghost before = rows@;
            let row = DrmInfo {
                system: classify_drm(cp),
                scheme_id_uri: owned(cp.scheme_id_uri.as_str()),
                pssh_data: if cp.pssh.len() > 0 {
                    copy_text(&cp.pssh[0])
                } else {
                    None
                },
                default_kid: copy_text(&cp.default_kid),
                license_url: copy_either(&cp.laurl, &cp.clearkey_laurl),
            };
            assert(row@ =~= drm_row(cp@));
            rows.push(row);
            assert(drm_views(rows@) =~= drm_views(before).push(row@));
        }
        i = i + 1;
    }
    assert(all.take(list@.len() as int) =~= all);
}

fn manifest_drm(m: &DashManifest) -> (r: Vec<DrmInfo>)
    ensures
        drm_views(r@) == drm_rows(manifest_protections(m@, m@.periods.len() as int)),
{
    let ghost v = m@;
    let mut rows: Vec<DrmInfo> = Vec::new();
    assert(drm_views(rows@) =~= Seq::empty());
    let ghost mut seen = Seq::<ProtectionView>::empty();
    add_drm(&m.protections, &mut rows, Ghost(seen));
    proof {
        assert(seen + v.protections =~= v.protections);
        seen = v.protections;
    }
    let mut p: usize = 0;
    while p < m.periods.len()
        invariant
            p <= m.periods@.len(),
            v == m@,
            seen == manifest_protections(v, p as int),
            drm_views(rows@) == drm_rows(seen),
        decreases m.periods@.len() - p,
    {
        let period: &DashPeriod = &m.periods[p];
        let ghost pv = period@;
        let ghost outer = seen;
        assert(v.periods[p as int] == pv);
        add_drm(&period.protections, &mut rows, Ghost(seen));
        proof {
            seen = seen + pv.protections;
        }
        let mut a: usize = 0;
        while a < period.adaptations.len()
            invariant
                a <= period.adaptations@.len(),
                pv == period@,
                seen == outer + period_protections(pv, a as int),
                drm_views(rows@) == drm_rows(seen),
            decreases period.adaptations@.len() - a,
        {
            let set: &DashAdaptation = &period.adaptations[a];
            let ghost av = set@;
            let ghost middle = seen;
            assert(pv.adaptations[a as int] == av);
            add_drm(&set.protections, &mut rows, Ghost(seen));
            proof {
                seen = seen + av.protections;
            }
            let mut k: usize = 0;
            while k < set.representations.len()
                invariant
                    k <= set.representations@.len(),
                    av == set@,
                    seen == middle + set_protections(av, k as int),
                    drm_views(rows@) == drm_rows(seen),
                decreases set.representations@.len() - k,
            {
                let rep: &DashRepresentation = &set.representations[k];
                assert(av.representations[k as int] == rep@);
                add_drm(&rep.protections, &mut rows, Ghost(seen));
                proof {
                    assert(seen + rep@.protections =~= middle + set_protections(av, k + 1));
                    seen = seen + rep@.protections;
                }
                k = k + 1;
            }
            assert(seen =~= outer + period_protections(pv, a + 1));
            a = a + 1;
        }
        assert(seen =~= manifest_protections(v, p + 1));
        p = p + 1;
    }
    rows
}

/// What has been gathered from representations.
struct Gathered {
    resolutions: Vec<ResolutionInfo>,
    tracks: Vec<String>,
    segments: usize,
}

spec fn gathered(g: Gathered, v: DashView, base: Seq<char>, ts: Seq<(int, int, int)>) -> bool {
    &&& resolution_views(g.resolutions@) == place_rows(v, base, ts)
    &&& texts(g.tracks@) == place_tracks(v, ts)
    &&& g.segments == if place_segments(v, ts) > usize::MAX {
        usize::MAX as int
    } else {
        place_segments(v, ts)
    }
}

fn is_type(set: &DashAdaptation, kind: &str) -> (r: bool)
    ensures
        r == (set@.content_type == Some(kind@)),
{
    match &set.content_type {
        Some(t) => same(t.as_str(), kind),
        None => false,
    }
}

fn add_count(total: usize, n: Option<usize>) -> (r: usize)
    ensures
        r == ({
            let sum = total + match n {
                Some(k) => k as int,
                None => 0,
            };
            if sum > usize::MAX {
                usize::MAX as int
            } else {
                sum
            }
        }),
{
    match n {
        Some(k) => if k > usize::MAX - total {
            usize::MAX
        } else {
            total + k
        },
        None => total,
    }
}

proof fn lemma_segments_not_negative(v: DashView, ts: Seq<(int, int, int)>)
    ensures
        place_segments(v, ts) >= 0,
    decreases ts.len(),
{
    if ts.len() > 0 {
        lemma_segments_not_negative(v, ts.drop_last());
    }
}

/// Takes in the representation at one place.
fn gather(g: &mut Gathered, m: &DashManifest, base: &str, p: usize, a: usize, k: usize, Ghost(ts): Ghost<
    Seq<(int, int, int)>,
>)
    requires
        p < m.periods@.len(),
        a < m.periods@[p as int].adaptations@.len(),
        k < m.periods@[p as int].adaptations@[a as int].representations@.len(),
        gathered(*old(g), m@, base@, ts),
    ensures
        gathered(*final(g), m@, base@, ts.push((p as int, a as int, k as int))),
{
    let ghost t = (p as int, a as int, k as int);
    let ghost next = ts.push(t);
    let ghost v = m@;
    assert(next.drop_last() =~= ts);
    let period: &DashPeriod = &m.periods[p];
    let set: &DashAdaptation = &period.adaptations[a];
    let rep: &DashRepresentation = &set.representations[k];
    assert(v.periods[p as int] == period@);
    assert(set_at(v, t) == set@);
    assert(representation_at(v, t) == rep@);
    if is_type(set, "video") {
        match (rep.width, rep.height) {
            (Some(w), Some(h)) => {
                let label: String = label_of(w, h);
                if !label_known(&g.resolutions, label.as_str()) {
                    let ghost before = g.resolutions@;
                    let url: String = resolve_dash_url(
                        base,
                        &copy_first(&m.base_urls),
                        &copy_first(&period.base_urls),
                        &copy_first(&set.base_urls),
                        &copy_first(&rep.base_urls),
                    );
                    let row = ResolutionInfo {
                        label,
                        bandwidth: match rep.bandwidth {
                            Some(b) => b,
                            None => 0,
                        },
                        codecs: copy_either(&rep.codecs, &set.codecs),
                        frame_rate: copy_either(&rep.frame_rate, &set.frame_rate),
                        mime_type: copy_either(&rep.mime_type, &set.mime_type),
                        url: Some(url),
                    };
                    assert(Some(row@) == place_row(v, base@, t));
                    g.resolutions.push(row);
                    assert(resolution_views(g.resolutions@) =~= resolution_views(before).push(row@));
                }
            },
            _ => {},
        }
    }
    if is_type(set, "audio") {
        match &rep.id {
            Some(id) => {
                let ghost before = g.tracks@;
                g.tracks.push(owned(id.as_str()));
                assert(texts(g.tracks@) =~= texts(before).push(id@));
            },
            None => {},
        }
    }
    proof {
        lemma_segments_not_negative(v, ts);
    }
    g.segments = add_count(add_count(g.segments, rep.timeline), rep.segment_list);
}

fn gather_all(m: &DashManifest, base: &str) -> (g: Gathered)
    ensures
        gathered(g, m@, base@, all_places(m@)),
{
    let ghost v = m@;
    let mut g = Gathered { resolutions: Vec::new(), tracks: Vec::new(), segments: 0 };
    let ghost mut ts = Seq::<(int, int, int)>::empty();
    assert(resolution_views(g.resolutions@) =~= Seq::empty());
    assert(texts(g.tracks@) =~= Seq::empty());
    let mut p: usize = 0;
    while p < m.periods.len()
        invariant
            p <= m.periods@.len(),
            v == m@,
            ts == places(v, p as int),
            gathered(g, v, base@, ts),
        decreases m.periods@.len() - p,
    {
        let period: &DashPeriod = &m.periods[p];
        let ghost outer = ts;
        let mut a: usize = 0;
        assert(ts =~= outer + places_in_period(v, p as int, 0));
        while a < period.adaptations.len()
            invariant
                p < m.periods@.len(),
                *period == m.periods@[p as int],
                a <= period.adaptations@.len(),
                v == m@,
                ts == outer + places_in_period(v, p as int, a as int),
                gathered(g, v, base@, ts),
            decreases period.adaptations@.len() - a,
        {
            let set: &DashAdaptation = &period.adaptations[a];
            let ghost middle = ts;
            let mut k: usize = 0;
            assert(ts =~= middle + places_in_set(p as int, a as int, 0));
            while k < set.representations.len()
                invariant
                    p < m.periods@.len(),
                    *period == m.periods@[p as int],
                    a < period.adaptations@.len(),
                    *set == period.adaptations@[a as int],
                    k <= set.representations@.len(),
                    v == m@,
                    ts == middle + places_in_set(p as int, a as int, k as int),
                    gathered(g, v, base@, ts),
                decreases set.representations@.len() - k,
            {
                gather(&mut g, m, base, p, a, k, Ghost(ts));
                proof {
                    let next = ts.push((p as int, a as int, k as int));
                    assert(next =~= middle + places_in_set(p as int, a as int, k + 1));
                    ts = next;
                }
                k = k + 1;
            }
            proof {
                assert(v.periods[p as int] == period@);
                assert(period@.adaptations[a as int] == set@);
                assert(ts =~= outer + places_in_period(v, p as int, a + 1));
            }
            a = a + 1;
        }
        assert(v.periods[p as int] == period@);
        p = p + 1;
    }
    g
}

/// What is known of a stream by its manifest: the sizes, the sound tracks,
/// the protections and how many segments are listed.
pub fn manifest_metadata(manifest: &DashManifest, base_url: &str) -> (r: StreamMetadata)
    ensures
        r@ == dash_metadata(manifest@, base_url@),
{
    let g: Gathered = gather_all(manifest, base_url);
    let r = StreamMetadata {
        duration: match manifest.seconds {
            Some(n) => DurationSource::Seconds(n),
            None => DurationSource::Seconds(0),
        },
        total_segments: g.segments,
        resolutions: g.resolutions,
        audio_tracks: g.tracks,
        keys: Vec::new(),
        drm: manifest_drm(manifest),
        segment_base_url: None,
        size_bytes: None,
    };
    proof {
        lemma_segments_not_negative(manifest@, all_places(manifest@));
        assert(r@ =~= dash_metadata(manifest@, base_url@));
    }
    r
}

/// What is known of a stream by the text of its manifest.
pub fn parse_dash_content(body: &str, base_url: &str) -> (r: Result<StreamMetadata, String>)
    ensures
        match manifest_of(body@) {
            Ok(v) => r matches Ok(m) && m@ == dash_metadata(v, base_url@),
            Err(e) => r matches Err(text) && text@ == "MPD parse error: "@ + e,
        },
{
    match read_manifest(body) {
        Ok(m) => Ok(manifest_metadata(&m, base_url)),
        Err(e) => {
            let mut text: String = owned("MPD parse error: ");
            text.append(e.as_str());
            Err(text)
        },
    }
}

/// Every size of a manifest is listed once.
pub proof fn law_sizes_are_listed_once(v: DashView, base: Seq<char>, ts: Seq<(int, int, int)>)
    ensures
        labels_differ(place_rows(v, base, ts)),
    decreases ts.len(),
{
    if ts.len() > 0 {
        law_sizes_are_listed_once(v, base, ts.drop_last());
    }
}

/// Every protection of a manifest is listed once, by its identifier and its key.
pub proof fn law_protections_are_listed_once(ps: Seq<ProtectionView>)
    ensures
        forall|i: int, j: int|
            0 <= i < j < drm_rows(ps).len() ==> (#[trigger] drm_rows(ps)[i]).scheme_id_uri != (
            #[trigger] drm_rows(ps)[j]).scheme_id_uri || drm_rows(ps)[i].default_kid != drm_rows(ps)[j].default_kid,
        forall|i: int|
            0 <= i < ps.len() ==> drm_known(
                drm_rows(ps),
                (#[trigger] ps[i]).scheme_id_uri,
                ps[i].default_kid,
            ),
    decreases ps.len(),
{
    if ps.len() > 0 {
        let front = ps.drop_last();
        law_protections_are_listed_once(front);
        let rows = drm_rows(front);
        let all = drm_rows(ps);
        assert forall|i: int| 0 <= i < ps.len() implies drm_known(
            all,
            (#[trigger] ps[i]).scheme_id_uri,
            ps[i].default_kid,
        ) by {
            if i < front.len() {
                assert(ps[i] == front[i]);
                let k = choose|k: int|
                    0 <= k < rows.len() && (#[trigger] rows[k]).scheme_id_uri == front[i].scheme_id_uri
                        && rows[k].default_kid == front[i].default_kid;
                assert(all[k] == rows[k]);
            } else if drm_known(rows, ps.last().scheme_id_uri, ps.last().default_kid) {
            } else {
                assert(all.last() == drm_row(ps.last()));
            }
        }
    }
}

} // verus!
