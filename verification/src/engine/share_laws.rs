//! What holds of shared work, of what has been done of it, and of the names of
//! things.

use vstd::prelude::*;
use crate::engine::coordinator::{BorrowKind, Coordinator};
use crate::engine::index_state::IndexStateMap;
use crate::engine::origin_memory::{rated, OriginMemoryStore, OriginPhiRatioStore, PersistedOriginProfile};
use crate::engine::ranges::{adds_up, is_tail_phase_bytes, snapshot_downloaded, total_done, ActiveRange};
use crate::engine::transport::{
    http_version_label, resolve_redirect_url, H2TuningSource, HttpVersion, RedirectError, RedirectFollower,
    RedirectStep,
};
use crate::engine::types::{HttpMode, ProtocolFamily, ScheduleMode};
use crate::engine::worker::LiveWorker;
use crate::lru::LruEntry;
use crate::web_url::{joined_url, opt_text, origin_of, url_parts};

verus! {

/// A connection without work of its own takes a part of the range that was
/// selected for it, and nothing where none was.
pub proof fn law_selected_ranges_are_shared(
    a: &mut Coordinator,
    b: &mut Coordinator,
    id: u32,
    chosen: Option<(usize, BorrowKind)>,
    work: Option<usize>,
    part: Option<usize>,
)
    requires
        *old(a) == *old(b),
        old(a)@.schedulable(),
        call_ensures(Coordinator::select_borrow_candidate, (&*old(a), id), chosen),
        call_ensures(Coordinator::borrow_work, (a, id), work),
        chosen matches Some((idx, kind)) ==> call_ensures(Coordinator::split_active_range, (b, idx, id, kind), part),
    ensures
        chosen is None ==> work is None && final(a)@ == old(a)@,
        chosen is Some ==> work == part && final(a)@ == final(b)@,
{
    if let Some((idx, kind)) = chosen {
        assert(old(a)@.selects(id, idx as int, kind));
        assert(old(a)@.split_outcome(idx as int, id, kind, final(a)@, work));
    }
}

/// What has been done of a range: the bytes from its start to where it stands,
/// no more than it has.
pub open spec fn is_done_of(r: ActiveRange) -> int {
    if r.cursor <= r.byte_start || r.end <= r.byte_start {
        0
    } else if r.cursor <= r.end {
        r.cursor - r.byte_start
    } else {
        r.end - r.byte_start
    }
}

/// What has been done of the ranges adds up, to no more than the file has.
pub proof fn law_bytes_done_add_up(
    a: &Vec<ActiveRange>,
    b: &Vec<ActiveRange>,
    last: ActiveRange,
    total: u64,
    x: u64,
    y: u64,
    fits: bool,
)
    requires
        total_done(a@) <= u64::MAX,
        total_done(b@) <= u64::MAX,
        b@ == a@.push(last),
        call_ensures(snapshot_downloaded, (a, total), x),
        call_ensures(snapshot_downloaded, (b, total), y),
        call_ensures(adds_up, (a,), fits),
    ensures
        a@.len() == 0 ==> x == 0,
        x <= total && y <= total,
        x + is_done_of(last) <= total ==> y == x + is_done_of(last),
        x + is_done_of(last) > total ==> y == total,
        fits,
{
    assert(b@.drop_last() =~= a@);
    assert(b@.last() == last);
    lemma_done(a@);
}

proof fn lemma_done(s: Seq<ActiveRange>)
    ensures
        0 <= total_done(s),
    decreases s.len(),
{
    if s.len() > 0 {
        lemma_done(s.drop_last());
    }
}

/// Whether what has been done can be added up is told: a range more can only
/// break it, and no range does not.
pub proof fn law_sums_can_be_too_large(a: &Vec<ActiveRange>, b: &Vec<ActiveRange>, last: ActiveRange, x: bool, y: bool)
    requires
        b@ == a@.push(last),
        call_ensures(adds_up, (a,), x),
        call_ensures(adds_up, (b,), y),
    ensures
        a@.len() == 0 ==> x,
        y ==> x,
        x && is_done_of(last) == 0 ==> y,
{
    assert(b@.drop_last() =~= a@);
    assert(b@.last() == last);
}

/// A download is near its end when all but a twentieth of it is there.
pub proof fn law_the_end_is_near(downloaded: u64, total: u64, r: bool, more: u64, s: bool)
    requires
        call_ensures(is_tail_phase_bytes, (downloaded, total), r),
        call_ensures(is_tail_phase_bytes, (more, total), s),
        downloaded <= more,
    ensures
        total == 0 ==> !r,
        r ==> s,
        total > 0 && downloaded >= total ==> r,
        total <= 0x00ff_ffff_ffff_ffff && downloaded <= total ==> (r <==> total > 0 && (total - downloaded) * 20 <= total),
{
}

/// The bits of a map are handed out as they are kept.
pub proof fn law_bits_are_handed_out(m: &IndexStateMap, bits: Vec<u8>, count: usize, bytes: usize)
    requires
        call_ensures(IndexStateMap::snapshot_bits, (m,), bits),
        call_ensures(IndexStateMap::bucket_count, (m,), count),
        call_ensures(IndexStateMap::storage_bytes, (m,), bytes),
    ensures
        bits@ == m.buckets@,
        count == bits@.len(),
        bytes == bits@.len(),
{
}

/// What was kept of the servers is there again, and what is used next is newer
/// than any of it.
pub proof fn law_kept_servers_are_known_again(kept: Vec<LruEntry<PersistedOriginProfile>>, r: OriginMemoryStore, i: int)
    requires
        crate::lru::distinct(kept@),
        call_ensures(OriginMemoryStore::load_enabled, (kept,), r),
        0 <= i < kept@.len(),
    ensures
        r.enabled,
        r@.dom().contains(kept@[i].key@),
        r@[kept@[i].key@] == (kept@[i].value, kept@[i].last_used_tick),
{
    let k = kept@[i].key@;
    assert(crate::lru::names(kept@, k, i)) by {
        assert forall|j: int| 0 <= j < i implies (#[trigger] kept@[j]).key@ != k by {}
    }
    let p = crate::lru::position(kept@, k);
    assert(crate::lru::names(kept@, k, p));
    assert(p == i) by {
        if p < i {
            assert(kept@[p].key@ != kept@[i].key@);
        } else if i < p {
            assert(kept@[i].key@ != kept@[p].key@);
        }
    }
}

/// The ratios that are known of the servers are those that were kept, and all
/// of them where there are no more than two hundred and fifty-six.
pub proof fn law_kept_ratios_are_known_again(m: &OriginMemoryStore, r: OriginPhiRatioStore, k: Seq<char>)
    requires
        m.wf(),
        call_ensures(OriginMemoryStore::hydrate_phi_ratios, (m,), r),
    ensures
        r@.dom().contains(k) ==> m@.dom().contains(k) && m@[k].0.phi_ratio_bits == Some(r@[k].0),
        rated(m@).len() <= 256 && m@.dom().contains(k) && m@[k].0.phi_ratio_bits is Some ==> r@.dom().contains(k),
{
}

/// A request is followed to where it leads, eight times at most. It has left
/// its server once it has led to another, and stays so.
pub proof fn law_redirections_lead_on(
    f: &mut RedirectFollower,
    status: u16,
    location: &Option<String>,
    target: Option<String>,
    step: RedirectStep,
    url: &str,
    new: RedirectFollower,
    base: &str,
    reference: &str,
    joined: Option<String>,
)
    requires
        old(f).followed <= 8,
        call_ensures(RedirectFollower::follow, (f, status, location, target), step),
        call_ensures(RedirectFollower::new, (url,), new),
        call_ensures(resolve_redirect_url, (base, reference), joined),
    ensures
        status < 300 || status >= 400 ==> step == RedirectStep::Answer,
        300 <= status < 400 && location is None ==> step == RedirectStep::Stop(
            RedirectError::MissingLocation,
        ),
        step == RedirectStep::Follow ==> 300 <= status < 400 && location is Some && target is Some && old(f).followed < 8
            && final(f).current_url@ == target->0@ && final(f).followed == old(f).followed + 1,
        step == RedirectStep::Follow && old(f).left_origin ==> final(f).left_origin,
        step == RedirectStep::Follow && !old(f).left_origin ==> (final(f).left_origin <==> origin_of(
            url_parts(old(f).current_url@),
        ) != origin_of(url_parts(final(f).current_url@))),
        step != RedirectStep::Follow ==> *final(f) == *old(f),
        300 <= status < 400 && location is Some
            && target is Some && old(f).followed < 8 ==> step == RedirectStep::Follow,
        step == RedirectStep::Stop(RedirectError::TooManyRedirects) ==> old(f).followed == 8,
        step == RedirectStep::Stop(RedirectError::InvalidLocation) ==> target is None && location is Some,
        new.current_url@ == url@ && new.followed == 0 && !new.left_origin,
        opt_text(joined) == joined_url(base@, reference@),
{
}

/// A worker begins with nothing: no range, nothing to write, no failure.
pub proof fn law_workers_begin_with_nothing(id: u32, r: LiveWorker)
    requires
        call_ensures(LiveWorker::new, (id,), r),
    ensures
        r.connection_id == id,
        r.current is None && r.prefetched is None,
        !r.prefetch_pending && !r.no_more_work && !r.made_progress,
        r.consecutive_failures == 0,
        r.pending.data@.len() == 0,
{
    assert(r@.connection_id == r.connection_id);
    assert(r@.current == r.current);
    assert(r@.prefetched == r.prefetched);
    assert(r@.failures == r.consecutive_failures);
}

/// Things go by their names.
pub proof fn law_things_have_names(
    kind: BorrowKind,
    a: &'static str,
    source: H2TuningSource,
    b: &'static str,
    version: HttpVersion,
    c: &'static str,
    schedule: ScheduleMode,
    d: &'static str,
    http: HttpMode,
    e: &'static str,
    protocol: ProtocolFamily,
    f: &'static str,
)
    requires
        call_ensures(BorrowKind::as_str, (kind,), a),
        call_ensures(H2TuningSource::as_str, (source,), b),
        call_ensures(http_version_label, (version,), c),
        call_ensures(ScheduleMode::as_str, (schedule,), d),
        call_ensures(HttpMode::as_str, (http,), e),
        call_ensures(ProtocolFamily::as_str, (protocol,), f),
    ensures
        kind == BorrowKind::Standard ==> a@ == "standard"@,
        kind == BorrowKind::Straggler ==> a@ == "straggler"@,
        kind == BorrowKind::Tail ==> a@ == "tail"@,
        source == H2TuningSource::Default ==> b@ == "default"@,
        source == H2TuningSource::LearnedOrigin ==> b@ == "learned-origin"@,
        source == H2TuningSource::OriginMemoryHint ==> b@ == "origin-memory-hint"@,
        version == HttpVersion::Http09 ==> c@ == "HTTP/0.9"@,
        version == HttpVersion::Http10 ==> c@ == "HTTP/1.0"@,
        version == HttpVersion::Http11 ==> c@ == "HTTP/1.1"@,
        version == HttpVersion::Http2 ==> c@ == "HTTP/2"@,
        version == HttpVersion::Http3 ==> c@ == "HTTP/3"@,
        version == HttpVersion::Unknown ==> c@ == "HTTP/?"@,
        schedule == ScheduleMode::Fib ==> d@ == "fib"@,
        schedule == ScheduleMode::FibAdaptive ==> d@ == "fib-adaptive"@,
        schedule == ScheduleMode::Equal ==> d@ == "equal"@,
        http == HttpMode::Auto ==> e@ == "auto"@,
        http == HttpMode::Http1 ==> e@ == "http1"@,
        http == HttpMode::Http2 ==> e@ == "http2"@,
        http == HttpMode::Http3 ==> e@ == "http3"@,
        protocol == ProtocolFamily::Http1 ==> f@ == "http1"@,
        protocol == ProtocolFamily::Http2 ==> f@ == "http2"@,
        protocol == ProtocolFamily::Http3 ==> f@ == "http3"@,
        protocol == ProtocolFamily::Other ==> f@ == "other"@,
{
}

} // verus!
