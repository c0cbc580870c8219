//! What holds of the sounds, segments, keys and protections of a stream.

use vstd::prelude::*;
use crate::spectur::dash::{
    classify_drm_from, drm_row, drm_rows, law_protections_are_listed_once, manifest_metadata, manifest_protections,
    parse_dash_content, period_protections, place_segments, place_tracks, places, places_in_period, places_in_set,
    read_manifest, set_protections, AdaptationView, DashManifest, DashView, PeriodView, ProtectionView,
    RepresentationView,
};
use crate::spectur::durations::check_durations;
use crate::spectur::hls::{
    audio_names, has_label, id_used, key_id, parse_hls_content, playlist_metadata, read_playlist, segment_keys,
    variant_rows, HlsAlternativeView, HlsKeyView, HlsPlaylist, HlsSegmentView, HlsVariantView,
};
use crate::spectur::manifest_laws::{is_sized, is_whole};
use crate::spectur::types::{DrmView, DurationView, KeyView, StreamMetadata};
use crate::text::contains;
use crate::web_url::{joined_url, opt_text};

verus! {

/// Where a URI of a playlist leads: to itself where it is whole or cannot be
/// joined, else to where it joins.
pub open spec fn is_at(base: Seq<char>, uri: Seq<char>, to: Seq<char>) -> bool {
    if is_whole(uri) {
        to == uri
    } else {
        match joined_url(base, uri) {
            Some(j) => to == j,
            None => to == uri,
        }
    }
}

proof fn lemma_at(base: Seq<char>, uri: Seq<char>)
    ensures
        is_at(base, uri, crate::spectur::urls::located(base, uri)),
{
    reveal_strlit("http://");
    reveal_strlit("https://");
}

proof fn lemma_variant_prefix(a: Seq<HlsVariantView>, b: Seq<HlsVariantView>, base: Seq<char>, n: int)
    requires
        0 <= n <= a.len() <= b.len(),
        forall|i: int| 0 <= i < a.len() ==> a[i] == b[i],
    ensures
        variant_rows(a, base, n) == variant_rows(b, base, n),
    decreases n,
{
    if n > 0 {
        lemma_variant_prefix(a, b, base, n - 1);
    }
}

/// A variant of a size that no variant before it has adds a row, which tells
/// what the variant says of itself and where it is; any other adds nothing.
pub proof fn law_variants_add_their_size(
    p: &HlsPlaylist,
    q: &HlsPlaylist,
    base: &str,
    v: HlsVariantView,
    a: StreamMetadata,
    b: StreamMetadata,
)
    requires
        p@ is Master,
        q@ is Master,
        q@->Master_0.variants == p@->Master_0.variants.push(v),
        call_ensures(playlist_metadata, (p, base), a),
        call_ensures(playlist_metadata, (q, base), b),
    ensures
        p@->Master_0.variants.len() == 0 ==> a@.resolutions.len() == 0,
        v.resolution is None ==> b@.resolutions == a@.resolutions,
        v.resolution matches Some(size) ==> {
            let known = exists|i: int| 0 <= i < a@.resolutions.len() && is_sized((#[trigger] a@.resolutions[i]).label, size.0, size.1);
            &&& known ==> b@.resolutions == a@.resolutions
            &&& !known ==> {
                let n = a@.resolutions.len() as int;
                let row = b@.resolutions[n];
                &&& b@.resolutions.len() == n + 1
                &&& b@.resolutions.take(n) == a@.resolutions
                &&& is_sized(row.label, size.0, size.1)
                &&& row.bandwidth == v.bandwidth
                &&& row.codecs == v.codecs
                &&& row.frame_rate == v.frame_rate
                &&& row.mime_type is None
                &&& row.url matches Some(to) && is_at(base@, v.uri, to)
            }
        },
{
    let x = p@->Master_0.variants;
    let y = q@->Master_0.variants;
    lemma_variant_prefix(x, y, base@, x.len() as int);
    lemma_at(base@, v.uri);
    if let Some(size) = v.resolution {
        let label = crate::spectur::hls::size_label(size.0, size.1);
        assert(is_sized(label, size.0, size.1));
        if has_label(a@.resolutions, label) {
            let i = choose|i: int| 0 <= i < a@.resolutions.len() && (#[trigger] a@.resolutions[i]).label == label;
            assert(is_sized(a@.resolutions[i].label, size.0, size.1));
        } else {
            assert(b@.resolutions.take(a@.resolutions.len() as int) =~= a@.resolutions);
        }
    }
}

proof fn lemma_audio_prefix(a: Seq<HlsAlternativeView>, b: Seq<HlsAlternativeView>, n: int)
    requires
        0 <= n <= a.len() <= b.len(),
        forall|i: int| 0 <= i < a.len() ==> a[i] == b[i],
    ensures
        audio_names(a, n) == audio_names(b, n),
    decreases n,
{
    if n > 0 {
        lemma_audio_prefix(a, b, n - 1);
    }
}

/// A rendition with sound is told by its name, in its place; others are not.
pub proof fn law_sounds_are_told_by_name(
    p: &HlsPlaylist,
    q: &HlsPlaylist,
    base: &str,
    v: HlsAlternativeView,
    a: StreamMetadata,
    b: StreamMetadata,
)
    requires
        p@ is Master,
        q@ is Master,
        q@->Master_0.alternatives == p@->Master_0.alternatives.push(v),
        call_ensures(playlist_metadata, (p, base), a),
        call_ensures(playlist_metadata, (q, base), b),
    ensures
        p@->Master_0.alternatives.len() == 0 ==> a@.audio_tracks.len() == 0,
        v.is_audio ==> b@.audio_tracks == a@.audio_tracks.push(v.name),
        !v.is_audio ==> b@.audio_tracks == a@.audio_tracks,
{
    let x = p@->Master_0.alternatives;
    lemma_audio_prefix(x, q@->Master_0.alternatives, x.len() as int);
}

/// What is told of a key: what the playlist says, and where its URI leads.
pub open spec fn tells_key(k: HlsKeyView, base: Seq<char>, row: KeyView) -> bool {
    &&& row.method == k.method
    &&& row.iv == k.iv
    &&& row.keyformat == k.keyformat
    &&& row.key_hex is None
    &&& k.uri is None ==> row.uri is None
    &&& k.uri matches Some(u) ==> row.uri matches Some(to) && is_at(base, u, to)
}

/// Every session key of a master playlist is told, in its place, and a master
/// playlist has no segments.
pub proof fn law_session_keys_are_told(p: &HlsPlaylist, base: &str, r: StreamMetadata, i: int)
    requires
        p@ is Master,
        call_ensures(playlist_metadata, (p, base), r),
        0 <= i < p@->Master_0.session_keys.len(),
    ensures
        r@.keys.len() == p@->Master_0.session_keys.len(),
        tells_key(p@->Master_0.session_keys[i], base@, r@.keys[i]),
        r@.total_segments == 0,
        r@.duration == DurationView::Seconds(0),
        r@.drm.len() == 0,
{
    let k = p@->Master_0.session_keys[i];
    if let Some(u) = k.uri {
        lemma_at(base@, u);
    }
}

proof fn lemma_keys_prefix(a: Seq<HlsSegmentView>, b: Seq<HlsSegmentView>, base: Seq<char>, n: int)
    requires
        0 <= n <= a.len() <= b.len(),
        forall|i: int| 0 <= i < a.len() ==> a[i] == b[i],
    ensures
        segment_keys(a, base, n) == segment_keys(b, base, n),
    decreases n,
{
    if n > 0 {
        lemma_keys_prefix(a, b, base, n - 1);
        assert(a.take(n - 1) =~= b.take(n - 1));
    }
}

/// Every segment counts, in its place; its key is told unless a segment before
/// it has one of the same method and URI.
pub proof fn law_segments_count_and_keys_are_told_once(
    p: &HlsPlaylist,
    q: &HlsPlaylist,
    base: &str,
    s: HlsSegmentView,
    a: StreamMetadata,
    b: StreamMetadata,
)
    requires
        p@ is Media,
        q@ is Media,
        q@->Media_0 == p@->Media_0.push(s),
        p@->Media_0.len() < usize::MAX,
        call_ensures(playlist_metadata, (p, base), a),
        call_ensures(playlist_metadata, (q, base), b),
    ensures
        a@.total_segments == p@->Media_0.len(),
        b@.total_segments == a@.total_segments + 1,
        a@.resolutions.len() == 0 && a@.audio_tracks.len() == 0,
        (a@.duration matches DurationView::Segments(x) && (b@.duration matches DurationView::Segments(y) && y == x.push(
            s.duration_bits,
        ))),
        s.key is None ==> b@.keys == a@.keys,
        s.key matches Some(k) ==> {
            let known = exists|i: int|
                0 <= i < p@->Media_0.len() && ((#[trigger] p@->Media_0[i]).key matches Some(o) && is_same_key(o, k));
            &&& known ==> b@.keys == a@.keys
            &&& !known ==> b@.keys.len() == a@.keys.len() + 1 && b@.keys.take(a@.keys.len() as int) == a@.keys
                && tells_key(k, base@, b@.keys[a@.keys.len() as int])
        },
{
    let x = p@->Media_0;
    let y = q@->Media_0;
    let n = x.len() as int;
    lemma_keys_prefix(x, y, base@, n);
    assert(y.take(n) =~= x);
    assert(y.map_values(|g: HlsSegmentView| g.duration_bits) =~= x.map_values(
        |g: HlsSegmentView| g.duration_bits,
    ).push(s.duration_bits));
    if let Some(k) = s.key {
        if let Some(u) = k.uri {
            lemma_at(base@, u);
        }
        if id_used(x, key_id(k)) {
            let i = choose|i: int| 0 <= i < x.len() && ((#[trigger] x[i]).key matches Some(o) && key_id(o) == key_id(k));
            assert(is_same_key(x[i].key->0, k));
        } else {
            assert(b@.keys.take(a@.keys.len() as int) =~= a@.keys);
        }
    }
}

/// Two keys are told apart by their method and their URI, with a colon between.
pub open spec fn is_same_key(a: HlsKeyView, b: HlsKeyView) -> bool {
    let x = match a.uri {
        Some(u) => a.method + ":"@ + u,
        None => a.method + ":"@,
    };
    let y = match b.uri {
        Some(u) => b.method + ":"@ + u,
        None => b.method + ":"@,
    };
    x =~= y
}

/// What a body says of a stream is what its playlist or its manifest says; what
/// cannot be read is told with its reason.
pub proof fn law_bodies_are_read(
    body: &str,
    base: &str,
    list: Result<HlsPlaylist, String>,
    h: Result<StreamMetadata, String>,
    manifest: Result<DashManifest, String>,
    d: Result<StreamMetadata, String>,
    x: StreamMetadata,
    y: StreamMetadata,
)
    requires
        call_ensures(read_playlist, (body,), list),
        call_ensures(parse_hls_content, (body, base), h),
        call_ensures(read_manifest, (body,), manifest),
        call_ensures(parse_dash_content, (body, base), d),
        list matches Ok(p) ==> call_ensures(playlist_metadata, (&p, base), x),
        manifest matches Ok(m) ==> call_ensures(manifest_metadata, (&m, base), y),
    ensures
        h is Ok <==> list is Ok,
        h matches Ok(m) ==> m@ == x@,
        h matches Err(e) ==> e@ == "m3u8 parse error: "@ + (list->Err_0)@,
        d is Ok <==> manifest is Ok,
        d matches Ok(m) ==> m@ == y@,
        d matches Err(e) ==> e@ == "MPD parse error: "@ + (manifest->Err_0)@,
{
}

/// A manifest with a duration that does not fit is not read.
pub proof fn law_durations_are_checked_first(body: &str, fits: bool, r: Result<DashManifest, String>)
    requires
        call_ensures(check_durations, (body,), fits),
        call_ensures(read_manifest, (body,), r),
    ensures
        !fits ==> (r matches Err(e) && e@ == "duration out of bounds"@),
{
}

/// The segments that a representation lists.
pub open spec fn listed(rep: RepresentationView) -> int {
    (if rep.timeline is Some {
        rep.timeline->0 as int
    } else {
        0
    }) + (if rep.segment_list is Some {
        rep.segment_list->0 as int
    } else {
        0
    })
}

/// The segments of several representations.
pub open spec fn listed_in_set(reps: Seq<RepresentationView>) -> int
    decreases reps.len(),
{
    if reps.len() == 0 {
        0
    } else {
        listed_in_set(reps.drop_last()) + listed(reps[reps.len() - 1])
    }
}

/// The segments of several sets.
pub open spec fn listed_in_period(sets: Seq<AdaptationView>) -> int
    decreases sets.len(),
{
    if sets.len() == 0 {
        0
    } else {
        listed_in_period(sets.drop_last()) + listed_in_set(sets[sets.len() - 1].representations)
    }
}

/// The segments of several periods.
pub open spec fn listed_in_all(periods: Seq<PeriodView>) -> int
    decreases periods.len(),
{
    if periods.len() == 0 {
        0
    } else {
        listed_in_all(periods.drop_last()) + listed_in_period(periods[periods.len() - 1].adaptations)
    }
}

proof fn lemma_segments_add(v: DashView, a: Seq<(int, int, int)>, b: Seq<(int, int, int)>)
    ensures
        place_segments(v, a + b) == place_segments(v, a) + place_segments(v, b),
        place_tracks(v, a + b) == place_tracks(v, a) + place_tracks(v, b),
    decreases b.len(),
{
    if b.len() == 0 {
        assert(a + b =~= a);
        assert(place_tracks(v, a) + place_tracks(v, b) =~= place_tracks(v, a));
    } else {
        lemma_segments_add(v, a, b.drop_last());
        assert((a + b).drop_last() =~= a + b.drop_last());
        assert((a + b).last() == b.last());
        assert(place_tracks(v, a + b) =~= place_tracks(v, a) + place_tracks(v, b));
    }
}

proof fn lemma_set_segments(v: DashView, p: int, a: int, n: int)
    requires
        0 <= p < v.periods.len(),
        0 <= a < v.periods[p].adaptations.len(),
        0 <= n <= v.periods[p].adaptations[a].representations.len(),
    ensures
        place_segments(v, places_in_set(p, a, n)) == listed_in_set(v.periods[p].adaptations[a].representations.take(n)),
        place_tracks(v, places_in_set(p, a, n)) == names_in_set(
            v.periods[p].adaptations[a].content_type,
            v.periods[p].adaptations[a].representations.take(n),
        ),
    decreases n,
{
    let reps = v.periods[p].adaptations[a].representations;
    if n > 0 {
        lemma_set_segments(v, p, a, n - 1);
        assert(reps.take(n).drop_last() =~= reps.take(n - 1));
        assert(places_in_set(p, a, n).drop_last() =~= places_in_set(p, a, n - 1));
        assert(places_in_set(p, a, n).last() == (p, a, n - 1));
    }
}

proof fn lemma_period_segments(v: DashView, p: int, n: int)
    requires
        0 <= p < v.periods.len(),
        0 <= n <= v.periods[p].adaptations.len(),
    ensures
        place_segments(v, places_in_period(v, p, n)) == listed_in_period(v.periods[p].adaptations.take(n)),
        place_tracks(v, places_in_period(v, p, n)) == names_in_period(v.periods[p].adaptations.take(n)),
    decreases n,
{
    let sets = v.periods[p].adaptations;
    if n > 0 {
        lemma_period_segments(v, p, n - 1);
        let m = sets[n - 1].representations.len() as int;
        lemma_set_segments(v, p, n - 1, m);
        assert(sets.take(n).drop_last() =~= sets.take(n - 1));
        assert(sets[n - 1].representations.take(m) =~= sets[n - 1].representations);
        lemma_segments_add(v, places_in_period(v, p, n - 1), places_in_set(p, n - 1, m));
    }
}

proof fn lemma_all_segments(v: DashView, n: int)
    requires
        0 <= n <= v.periods.len(),
    ensures
        place_segments(v, places(v, n)) == listed_in_all(v.periods.take(n)),
        place_tracks(v, places(v, n)) == names_in_all(v.periods.take(n)),
    decreases n,
{
    if n > 0 {
        lemma_all_segments(v, n - 1);
        let m = v.periods[n - 1].adaptations.len() as int;
        lemma_period_segments(v, n - 1, m);
        assert(v.periods.take(n).drop_last() =~= v.periods.take(n - 1));
        assert(v.periods[n - 1].adaptations.take(m) =~= v.periods[n - 1].adaptations);
        lemma_segments_add(v, places(v, n - 1), places_in_period(v, n - 1, m));
    }
}

/// The names of the representations of a set with sound.
pub open spec fn names_in_set(kind: Option<Seq<char>>, reps: Seq<RepresentationView>) -> Seq<Seq<char>>
    decreases reps.len(),
{
    if reps.len() == 0 {
        Seq::empty()
    } else {
        let id = reps[reps.len() - 1].id;
        if kind == Some("audio"@) && id is Some {
            names_in_set(kind, reps.drop_last()).push(id->0)
        } else {
            names_in_set(kind, reps.drop_last())
        }
    }
}

/// The names of the sounds of several sets.
pub open spec fn names_in_period(sets: Seq<AdaptationView>) -> Seq<Seq<char>>
    decreases sets.len(),
{
    if sets.len() == 0 {
        Seq::empty()
    } else {
        let last = sets[sets.len() - 1];
        names_in_period(sets.drop_last()) + names_in_set(last.content_type, last.representations)
    }
}

/// The names of the sounds of several periods.
pub open spec fn names_in_all(periods: Seq<PeriodView>) -> Seq<Seq<char>>
    decreases periods.len(),
{
    if periods.len() == 0 {
        Seq::empty()
    } else {
        names_in_all(periods.drop_last()) + names_in_period(periods[periods.len() - 1].adaptations)
    }
}

proof fn lemma_listed_in_set(reps: Seq<RepresentationView>)
    ensures
        listed_in_set(reps) >= 0,
    decreases reps.len(),
{
    if reps.len() > 0 {
        lemma_listed_in_set(reps.drop_last());
    }
}

proof fn lemma_listed_in_period(sets: Seq<AdaptationView>)
    ensures
        listed_in_period(sets) >= 0,
    decreases sets.len(),
{
    if sets.len() > 0 {
        lemma_listed_in_period(sets.drop_last());
        lemma_listed_in_set(sets[sets.len() - 1].representations);
    }
}

proof fn lemma_listed(periods: Seq<PeriodView>)
    ensures
        listed_in_all(periods) >= 0,
    decreases periods.len(),
{
    if periods.len() > 0 {
        lemma_listed(periods.drop_last());
        lemma_listed_in_period(periods[periods.len() - 1].adaptations);
    }
}

/// A manifest has the segments that all its representations list together, the
/// sounds of its sets with sound in their order, and lasts as long as it says.
pub proof fn law_manifests_add_up(m: &DashManifest, url: &str, r: StreamMetadata)
    requires
        call_ensures(manifest_metadata, (m, url), r),
    ensures
        listed_in_all(m@.periods) <= usize::MAX ==> r@.total_segments == listed_in_all(m@.periods),
        listed_in_all(m@.periods) > usize::MAX ==> r@.total_segments == usize::MAX,
        r@.audio_tracks == names_in_all(m@.periods),
        m@.seconds matches Some(n) ==> r@.duration == DurationView::Seconds(n),
        m@.seconds is None ==> r@.duration == DurationView::Seconds(0),
        r@.keys.len() == 0,
{
    let v = m@;
    let n = v.periods.len() as int;
    lemma_all_segments(v, n);
    assert(v.periods.take(n) =~= v.periods);
    lemma_listed(v.periods);
}

/// A manifest has a protection, on itself or on any part of it.
pub open spec fn has_protection(v: DashView, p: ProtectionView) -> bool {
    ||| v.protections.contains(p)
    ||| exists|i: int| 0 <= i < v.periods.len() && #[trigger] period_has(v.periods[i], p)
}

/// A period has a protection, on itself or on any part of it.
pub open spec fn period_has(d: PeriodView, p: ProtectionView) -> bool {
    ||| d.protections.contains(p)
    ||| exists|i: int| 0 <= i < d.adaptations.len() && #[trigger] set_has(d.adaptations[i], p)
}

/// A set has a protection, on itself or on a representation.
pub open spec fn set_has(s: AdaptationView, p: ProtectionView) -> bool {
    ||| s.protections.contains(p)
    ||| exists|i: int| 0 <= i < s.representations.len() && (#[trigger] s.representations[i]).protections.contains(p)
}

proof fn lemma_add_contains(a: Seq<ProtectionView>, b: Seq<ProtectionView>, p: ProtectionView)
    ensures
        (a + b).contains(p) <==> a.contains(p) || b.contains(p),
{
    let s = a + b;
    if s.contains(p) {
        let i = choose|i: int| 0 <= i < s.len() && s[i] == p;
        if i < a.len() {
            assert(a[i] == p);
        } else {
            assert(b[i - a.len()] == p);
        }
    }
    if a.contains(p) {
        let i = choose|i: int| 0 <= i < a.len() && a[i] == p;
        assert(s[i] == p);
    }
    if b.contains(p) {
        let i = choose|i: int| 0 <= i < b.len() && b[i] == p;
        assert(s[a.len() + i] == p);
    }
}

proof fn lemma_set_has(s: AdaptationView, n: int, p: ProtectionView)
    requires
        0 <= n <= s.representations.len(),
    ensures
        set_protections(s, n).contains(p) <==> s.protections.contains(p) || exists|i: int|
            0 <= i < n && (#[trigger] s.representations[i]).protections.contains(p),
    decreases n,
{
    if n > 0 {
        lemma_set_has(s, n - 1, p);
        lemma_add_contains(set_protections(s, n - 1), s.representations[n - 1].protections, p);
    }
}

proof fn lemma_period_has(d: PeriodView, n: int, p: ProtectionView)
    requires
        0 <= n <= d.adaptations.len(),
    ensures
        period_protections(d, n).contains(p) <==> d.protections.contains(p) || exists|i: int|
            0 <= i < n && #[trigger] set_has(d.adaptations[i], p),
    decreases n,
{
    if n > 0 {
        lemma_period_has(d, n - 1, p);
        let s = d.adaptations[n - 1];
        lemma_set_has(s, s.representations.len() as int, p);
        lemma_add_contains(period_protections(d, n - 1), set_protections(s, s.representations.len() as int), p);
        assert(set_has(d.adaptations[n - 1], p) <==> set_protections(s, s.representations.len() as int).contains(p));
    }
}

proof fn lemma_manifest_has(v: DashView, n: int, p: ProtectionView)
    requires
        0 <= n <= v.periods.len(),
    ensures
        manifest_protections(v, n).contains(p) <==> v.protections.contains(p) || exists|i: int|
            0 <= i < n && #[trigger] period_has(v.periods[i], p),
    decreases n,
{
    if n > 0 {
        lemma_manifest_has(v, n - 1, p);
        let d = v.periods[n - 1];
        lemma_period_has(d, d.adaptations.len() as int, p);
        lemma_add_contains(
            manifest_protections(v, n - 1),
            period_protections(d, d.adaptations.len() as int),
            p,
        );
        assert(period_has(v.periods[n - 1], p) <==> period_protections(d, d.adaptations.len() as int).contains(p));
    }
}

/// What is told of a protection: its first initial data, its key and where its
/// licence is.
pub open spec fn tells_protection(p: ProtectionView, row: DrmView) -> bool {
    &&& row.scheme_id_uri == p.scheme_id_uri
    &&& row.default_kid == p.default_kid
    &&& p.pssh.len() > 0 ==> row.pssh_data == p.pssh[0]
    &&& p.pssh.len() == 0 ==> row.pssh_data is None
    &&& p.laurl is Some ==> row.license_url == p.laurl
    &&& p.laurl is None ==> row.license_url == p.clearkey_laurl
}

proof fn lemma_drm_from(ps: Seq<ProtectionView>, i: int) -> (j: int)
    requires
        0 <= i < drm_rows(ps).len(),
    ensures
        0 <= j < ps.len(),
        drm_rows(ps)[i] == drm_row(ps[j]),
    decreases ps.len(),
{
    let front = ps.drop_last();
    if i < drm_rows(front).len() {
        let j = lemma_drm_from(front, i);
        assert(front[j] == ps[j]);
        j
    } else {
        ps.len() - 1
    }
}

/// Every protection of a manifest is told of, wherever it stands, and nothing
/// is told but of a protection.
pub proof fn law_protections_are_told_of(m: &DashManifest, url: &str, r: StreamMetadata, p: ProtectionView, i: int)
    requires
        call_ensures(manifest_metadata, (m, url), r),
    ensures
        has_protection(m@, p) ==> exists|k: int|
            0 <= k < r@.drm.len() && (#[trigger] r@.drm[k]).scheme_id_uri == p.scheme_id_uri && r@.drm[k].default_kid
                == p.default_kid,
        0 <= i < r@.drm.len() ==> exists|q: ProtectionView| #[trigger]
            has_protection(m@, q) && tells_protection(q, r@.drm[i]),
{
    let v = m@;
    let n = v.periods.len() as int;
    let ps = manifest_protections(v, n);
    law_protections_are_listed_once(ps);
    lemma_manifest_has(v, n, p);
    if has_protection(v, p) {
        assert(ps.contains(p));
        let k = choose|k: int| 0 <= k < ps.len() && ps[k] == p;
        assert(crate::spectur::dash::drm_known(drm_rows(ps), ps[k].scheme_id_uri, ps[k].default_kid));
    }
    if 0 <= i < r@.drm.len() {
        let j = lemma_drm_from(ps, i);
        let q = ps[j];
        assert(ps.contains(q));
        lemma_manifest_has(v, n, q);
        assert(has_protection(v, q) && tells_protection(q, r@.drm[i]));
    }
}

/// A protection system is known by its identifier, else by its description.
pub proof fn law_systems_are_known(uri: &str, value: &Option<String>, r: String)
    requires
        call_ensures(classify_drm_from, (uri, value), r),
    ensures
        ({
            let u = uri@;
            let widevine = contains(u, "edef8ba9-79d6-4ace-a3c8-27dcd51d21ed"@);
            let playready = contains(u, "9a04f079-9840-4286-ab92-e65be0885f95"@);
            let fairplay = contains(u, "94ce86fb-07ff-4f43-adb8-93d2fa968ca2"@);
            let clearkey = contains(u, "1077efec-c0b2-4d02-ace3-3c1e52e2fb4b"@);
            let cenc = contains(u, "mp4protection"@);
            let known = widevine || playready || fairplay || clearkey || cenc;
            &&& widevine ==> r@ == "Widevine"@
            &&& playready && !widevine ==> r@ == "PlayReady"@
            &&& fairplay && !widevine && !playready ==> r@ == "FairPlay"@
            &&& clearkey && !widevine && !playready && !fairplay ==> r@ == "ClearKey"@
            &&& cenc && !widevine && !playready && !fairplay && !clearkey ==> r@ == "CENC"@
            &&& !known && value is None ==> r@ == "Unknown"@
            &&& !known ==> (opt_text(*value) matches Some(t) ==> {
                &&& contains(t, "widevine"@) ==> r@ == "Widevine"@
                &&& !contains(t, "widevine"@) && contains(t, "playready"@) ==> r@ == "PlayReady"@
                &&& !contains(t, "widevine"@) && !contains(t, "playready"@) && contains(t, "cenc"@) ==> r@ == "CENC"@
                &&& !contains(t, "widevine"@) && !contains(t, "playready"@) && !contains(t, "cenc"@) ==> r@ == "Unknown"@
            })
        }),
{
}

} // verus!
