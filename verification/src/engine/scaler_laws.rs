//! What holds of scaling and of the limits on bandwidth.

use vstd::prelude::*;
use crate::engine::metrics::SchedulerMetrics;
use crate::engine::runtime::{DownloadEngine, DownloadSlot};
use crate::engine::scaler::{
    advances_of, history_after, is_weakest, known, review_workers, score, GainSignal, HeartbeatPlan, HeartbeatSignals,
    RequestKind, ScaleDecision, Scaler, TokenBucket, WorkerHistory, WorkerReview, WorkerSample,
};
use crate::engine::scaling::{GrowthSignals, Scaled};
use crate::engine::types::{ProtocolFamily, ScalerAction, WorkerState};

verus! {

/// A growth is judged by what it brought: only a loss costs a worker, a gain
/// keeps them all, and either settles it; until then nothing is added.
pub proof fn law_only_a_loss_undoes_a_growth(s: &mut Scaler, signals: HeartbeatSignals, d: ScaleDecision)
    requires
        old(s).n_active > 0,
        old(s).last_action == ScalerAction::Grow,
        call_ensures(Scaler::decide, (s, signals), d),
    ensures
        d == ScaleDecision::Drop <==> signals.gain == GainSignal::Loss && old(s).n_active > old(
            s).config.min_connections,
        d != ScaleDecision::Drop ==> d == ScaleDecision::Hold,
        signals.gain == GainSignal::Loss || signals.gain == GainSignal::Gain ==> final(s).last_action
            == ScalerAction::Hold,
        signals.gain == GainSignal::Unknown || signals.gain == GainSignal::Unclear ==> *final(s) == *old(s),
        final(s).n_active == old(s).n_active,
        final(s).config == old(s).config,
{
}

/// Where no growth is being judged, an inefficient download loses a worker as
/// long as it has more than its least number; else it gains one as long as it
/// has fewer than its largest number and its streams are not saturated. One
/// without any worker is to be given its least number, and one at least.
pub proof fn law_decisions_follow_efficiency(s: &mut Scaler, signals: HeartbeatSignals, d: ScaleDecision)
    requires
        call_ensures(Scaler::decide, (s, signals), d),
    ensures
        ({
            let n = old(s).n_active;
            let low = old(s).config.min_connections;
            let high = old(s).config.max_connections;
            &&& n == 0 <==> d is Recover
            &&& d matches ScaleDecision::Recover(k) ==> k >= 1 && k >= low && (k == low || k == 1)
            &&& n > 0 && old(s).last_action != ScalerAction::Grow ==> {
                &&& d == ScaleDecision::Drop <==> signals.inefficient && n > low
                &&& d == ScaleDecision::Add <==> !(signals.inefficient && n > low) && n < high && !old(
                    s).h2_stream_saturated
                &&& *final(s) == *old(s)
            }
        }),
{
}

/// A growth that brought a gain is followed by the next one, while there is room.
pub proof fn law_gains_go_on(
    s: &mut Scaler,
    first: HeartbeatSignals,
    d: ScaleDecision,
    t: &mut Scaler,
    second: HeartbeatSignals,
    e: ScaleDecision,
)
    requires
        0 < old(s).n_active < old(s).config.max_connections,
        !old(s).h2_stream_saturated,
        old(s).last_action == ScalerAction::Grow,
        first.gain == GainSignal::Gain,
        call_ensures(Scaler::decide, (s, first), d),
        *old(t) == *final(s),
        !second.inefficient,
        call_ensures(Scaler::decide, (t, second), e),
    ensures
        d == ScaleDecision::Hold,
        e == ScaleDecision::Add,
{
}

/// During the slow start nothing is done, and it gets shorter by one; after it
/// there is a worker to drop only where the decision is to drop one, and it is
/// the weakest.
pub proof fn law_slow_starts_are_waited_out(
    s: &mut Scaler,
    signals: HeartbeatSignals,
    history: &Vec<WorkerHistory>,
    samples: &Vec<WorkerSample>,
    r: (HeartbeatPlan, Option<WorkerReview>),
    t: &mut Scaler,
    d: ScaleDecision,
)
    requires
        call_ensures(Scaler::heartbeat, (s, signals, history, samples), r),
        *old(t) == *old(s),
        call_ensures(Scaler::decide, (t, signals), d),
    ensures
        old(s).slow_start_remaining > 0 ==> r.0 == HeartbeatPlan::Wait && final(s).slow_start_remaining + 1 == old(
            s).slow_start_remaining && final(s).n_active == old(s).n_active && final(s).last_action == old(
            s).last_action,
        old(s).slow_start_remaining == 0 ==> {
            &&& *final(s) == *final(t)
            &&& r.1 is Some
            &&& r.0 != HeartbeatPlan::Wait
            &&& r.0 matches HeartbeatPlan::Drop(id) ==> d == ScaleDecision::Drop && r.1->0.weakest == Some(id)
            &&& d == ScaleDecision::Drop && r.1->0.weakest is Some ==> r.0 is Drop
            &&& r.0 == HeartbeatPlan::Add <==> d == ScaleDecision::Add
            &&& r.0 matches HeartbeatPlan::Recover(k) ==> d == ScaleDecision::Recover(k)
            &&& d matches ScaleDecision::Recover(k) ==> r.0 == HeartbeatPlan::Recover(k)
        },
{
}

proof fn lemma_known(history: Seq<WorkerHistory>, k: int, now: u64)
    requires
        0 <= k < history.len(),
        forall|a: int, b: int|
            0 <= a < b < history.len() ==> (#[trigger] history[a]).connection_id != (#[trigger] history[b]).connection_id,
    ensures
        known(history, history[k].connection_id, now) == (history[k].total, history[k].delta),
    decreases history.len(),
{
    if k < history.len() - 1 {
        assert(history[k].connection_id != history[history.len() - 1].connection_id);
        let front = history.drop_last();
        assert(front[k] == history[k]);
        assert forall|a: int, b: int| 0 <= a < b < front.len() implies (#[trigger] front[a]).connection_id != (
        #[trigger] front[b]).connection_id by {
            assert(history[a].connection_id != history[b].connection_id);
        }
        lemma_known(front, k, now);
    }
}

/// The worker to drop is downloading and has not been told to end, and none
/// of those advanced less over the last two heartbeats.
pub proof fn law_the_weakest_worker_goes(history: &Vec<WorkerHistory>, samples: &Vec<WorkerSample>, r: WorkerReview)
    requires
        call_ensures(review_workers, (history, samples), r),
        history@.len() == samples@.len(),
        forall|k: int|
            0 <= k < samples@.len() ==> (#[trigger] samples@[k]).connection_id == history@[k].connection_id
                && history@[k].total <= samples@[k].transferred_bytes && samples@[k].transferred_bytes
                - history@[k].total + history@[k].delta <= u64::MAX,
        forall|a: int, b: int|
            0 <= a < b < history@.len() ==> (#[trigger] history@[a]).connection_id != (
            #[trigger] history@[b]).connection_id,
    ensures
        match r.weakest {
            Some(id) => exists|i: int|
                {
                    &&& 0 <= i < samples@.len()
                    &&& (#[trigger] samples@[i]).connection_id == id
                    &&& !samples@[i].stop_requested
                    &&& samples@[i].state == WorkerState::Downloading
                    &&& forall|k: int|
                        0 <= k < samples@.len() && !(#[trigger] samples@[k]).stop_requested && samples@[k].state
                            == WorkerState::Downloading ==> samples@[i].transferred_bytes - history@[i].total
                            + history@[i].delta <= samples@[k].transferred_bytes - history@[k].total
                            + history@[k].delta
                },
            None => forall|k: int|
                0 <= k < samples@.len() && !(#[trigger] samples@[k]).stop_requested ==> samples@[k].state
                    != WorkerState::Downloading,
        },
{
    let h = history@;
    let s = samples@;
    assert forall|k: int| 0 <= k < s.len() implies #[trigger] score(h, s[k]) == s[k].transferred_bytes - h[k].total
        + h[k].delta by {
        lemma_known(h, k, s[k].transferred_bytes);
        assert(s[k].connection_id == h[k].connection_id);
    }
    match r.weakest {
        Some(id) => {
            let i = choose|i: int| #[trigger] is_weakest(h, s, s.len() as int, i) && id == s[i].connection_id;
            assert(s[i].connection_id == id);
            assert forall|k: int|
                0 <= k < s.len() && !(#[trigger] s[k]).stop_requested && s[k].state
                    == WorkerState::Downloading implies s[i].transferred_bytes - h[i].total + h[i].delta
                <= s[k].transferred_bytes - h[k].total + h[k].delta by {
                assert(score(h, s[i]) <= score(h, s[k]));
            }
        },
        None => {},
    }
}

/// Of the workers that advanced least the first goes: one before it advanced
/// more.
pub proof fn law_the_first_of_the_weakest_goes(
    history: &Vec<WorkerHistory>,
    samples: &Vec<WorkerSample>,
    r: WorkerReview,
    i: int,
    k: int,
)
    requires
        call_ensures(review_workers, (history, samples), r),
        history@.len() == samples@.len(),
        0 <= k < i < samples@.len(),
        r.weakest == Some(samples@[i].connection_id),
        forall|j: int|
            0 <= j < samples@.len() ==> (#[trigger] samples@[j]).connection_id == history@[j].connection_id,
        forall|a: int, b: int|
            0 <= a < b < history@.len() ==> (#[trigger] history@[a]).connection_id != (
            #[trigger] history@[b]).connection_id,
        history@[i].total <= samples@[i].transferred_bytes,
        history@[k].total <= samples@[k].transferred_bytes,
        samples@[i].transferred_bytes - history@[i].total + history@[i].delta <= u64::MAX,
        samples@[k].transferred_bytes - history@[k].total + history@[k].delta <= u64::MAX,
        !samples@[k].stop_requested,
        samples@[k].state == WorkerState::Downloading,
    ensures
        samples@[i].transferred_bytes - history@[i].total + history@[i].delta < samples@[k].transferred_bytes
            - history@[k].total + history@[k].delta,
{
    let h = history@;
    let s = samples@;
    let w = choose|w: int| #[trigger] is_weakest(h, s, s.len() as int, w) && r.weakest == Some(s[w].connection_id);
    assert(w == i) by {
        assert(s[w].connection_id == h[w].connection_id);
        assert(s[i].connection_id == h[i].connection_id);
        if w < i {
            assert(h[w].connection_id != h[i].connection_id);
        } else if i < w {
            assert(h[i].connection_id != h[w].connection_id);
        }
    }
    lemma_known(h, i, s[i].transferred_bytes);
    lemma_known(h, k, s[k].transferred_bytes);
    assert(s[i].connection_id == h[i].connection_id && s[k].connection_id == h[k].connection_id);
    assert(score(h, s[i]) < score(h, s[k]));
}

proof fn lemma_advances(history: Seq<WorkerHistory>, a: Seq<WorkerSample>, b: Seq<WorkerSample>, n: int)
    requires
        0 <= n <= a.len() <= b.len(),
        forall|i: int| 0 <= i < a.len() ==> a[i] == b[i],
    ensures
        advances_of(history, a, n) == advances_of(history, b, n),
        history_after(history, a, n) == history_after(history, b, n),
    decreases n,
{
    if n > 0 {
        lemma_advances(history, a, b, n - 1);
    }
}

/// A worker that goes on adds what it advanced since the heartbeat before, if
/// it did; one that ends adds nothing. What it has by now is kept for the next
/// heartbeat.
pub proof fn law_advances_are_measured(
    history: &Vec<WorkerHistory>,
    a: &Vec<WorkerSample>,
    b: &Vec<WorkerSample>,
    s: WorkerSample,
    x: WorkerReview,
    y: WorkerReview,
    k: int,
)
    requires
        call_ensures(review_workers, (history, a), x),
        call_ensures(review_workers, (history, b), y),
        b@ == a@.push(s),
        0 <= k < history@.len(),
        history@[k].connection_id == s.connection_id,
        forall|i: int, j: int|
            0 <= i < j < history@.len() ==> (#[trigger] history@[i]).connection_id != (
            #[trigger] history@[j]).connection_id,
    ensures
        a@.len() == 0 ==> x.advances@.len() == 0 && x.history@.len() == 0,
        s.stop_requested || s.transferred_bytes <= history@[k].total ==> y.advances@ == x.advances@,
        !s.stop_requested && s.transferred_bytes > history@[k].total ==> y.advances@.len() == x.advances@.len() + 1
            && y.advances@.drop_last() == x.advances@ && y.advances@.last() == s.transferred_bytes - history@[k].total,
        s.stop_requested ==> y.history@ == x.history@,
        !s.stop_requested ==> {
            let last = y.history@.last();
            &&& y.history@.len() == x.history@.len() + 1
            &&& last.connection_id == s.connection_id
            &&& last.total == s.transferred_bytes
            &&& last.delta == (if s.transferred_bytes > history@[k].total {
                s.transferred_bytes - history@[k].total
            } else {
                0
            })
        },
{
    lemma_known(history@, k, s.transferred_bytes);
    lemma_advances(history@, a@, b@, a@.len() as int);
    assert(b@[a@.len() as int] == s);
    if !s.stop_requested && s.transferred_bytes > history@[k].total {
        assert(y.advances@.drop_last() =~= x.advances@);
    }
}

/// Starting a worker takes a connection and counts it, and waits at least one
/// heartbeat; ending one gives its connection back; nothing is started where
/// there is no connection.
pub proof fn law_scaling_counts_workers(
    s: &mut Scaler,
    plan: HeartbeatPlan,
    workers: &Vec<WorkerSample>,
    engine: &mut DownloadEngine,
    leased: &mut usize,
    protocol: ProtocolFamily,
    g: GrowthSignals,
    metrics: &mut SchedulerMetrics,
    r: Scaled,
)
    requires
        plan is Drop ==> old(s).n_active > 0,
        plan is Add ==> old(s).n_active < usize::MAX && old(s).h2_stream_count < usize::MAX,
        *old(leased) + old(engine).connection_budget <= usize::MAX,
        call_ensures(Scaler::carry_out, (s, plan, workers, engine, leased, protocol, g, metrics), r),
    ensures
        plan == HeartbeatPlan::Add ==> r.started == if old(engine).connection_budget > 0 {
            1int
        } else {
            0
        },
        plan matches HeartbeatPlan::Recover(k) ==> r.started <= k && r.started <= old(engine).connection_budget && (
        r.started == k || r.started == old(engine).connection_budget),
        plan is Wait || plan is Hold || plan is Drop ==> r.started == 0,
        r.started > 0 ==> {
            &&& final(engine).connection_budget + r.started == old(engine).connection_budget
            &&& *final(leased) == *old(leased) + r.started
            &&& final(s).last_action == ScalerAction::Grow
            &&& 1 <= final(s).slow_start_remaining <= 4
            &&& plan == HeartbeatPlan::Add ==> final(s).n_active == old(s).n_active + 1
            &&& plan is Recover ==> final(s).n_active == r.started
        },
        r.stopped matches Some(id) ==> {
            &&& plan == HeartbeatPlan::Drop(id)
            &&& final(s).n_active + 1 == old(s).n_active
            &&& final(s).last_action == ScalerAction::Shrink
            &&& old(engine).connection_budget < old(engine).effective_connection_budget ==> final(
                engine).connection_budget == old(engine).connection_budget + 1
        },
        r.started == 0 && r.stopped is None ==> *final(s) == *old(s) && *final(leased) == *old(leased)
            && final(engine).connection_budget == old(engine).connection_budget,
        plan matches HeartbeatPlan::Drop(id) ==> (r.stopped is Some <==> exists|k: int|
            0 <= k < workers@.len() && (#[trigger] workers@[k]).connection_id == id && !workers@[k].stop_requested),
{
    assert(old(engine).budget().available == old(engine).connection_budget);
    assert(final(engine).budget().available == final(engine).connection_budget);
    assert(old(engine).budget().effective == old(engine).effective_connection_budget);
}

/// How long a growth is waited for: between one and four heartbeats; a stream
/// takes one; it is never longer where connections are used again well, nor
/// shorter where they are not.
pub proof fn law_slow_start_lengths(
    s: &Scaler,
    base: u32,
    protocol: ProtocolFamily,
    stream: bool,
    low: bool,
    high: bool,
    r: u32,
)
    requires
        call_ensures(Scaler::compute_slow_start_heartbeats, (s, base, protocol, stream, low, high), r),
    ensures
        1 <= r <= 4,
        stream ==> r == 1,
        !stream && 1 <= base <= 4 ==> {
            &&& protocol == ProtocolFamily::Other ==> r == base
            &&& protocol == ProtocolFamily::Http3 ==> r <= 2 && (r == base || r == 2)
            &&& protocol == ProtocolFamily::Http1 ==> (if low && base < 4 {
                r == base + 1
            } else {
                r == base
            })
            &&& protocol == ProtocolFamily::Http2 ==> (if high && s.reused_rtt_samples >= 2 && base > 1 {
                r == base - 1
            } else {
                r == base
            })
        },
{
}

/// A worker is one more stream where connections carry several, where they are
/// reused, and where that has been measured twice.
pub proof fn law_streams_are_told_from_connections(s: &Scaler, protocol: ProtocolFamily, high: bool, r: bool)
    requires
        call_ensures(Scaler::is_stream_add, (s, protocol, high), r),
    ensures
        r <==> protocol == ProtocolFamily::Http2 && high && s.reused_rtt_samples > 1,
{
}

/// Every request counts; one over an open connection counts as reused, one over
/// a new one does not. The handshake of a probe after a growth is not held
/// against the growth.
pub proof fn law_requests_are_counted(
    s: &mut Scaler,
    kind: RequestKind,
    protocol: ProtocolFamily,
    probe: bool,
    cost: u64,
    adjusted: u64,
    m: &mut SchedulerMetrics,
)
    requires
        old(s).total_request_count < u64::MAX && old(s).reused_count < u64::MAX && old(s).reused_rtt_samples < u64::MAX,
        call_ensures(Scaler::record_request_classification, (s, kind, protocol, probe, cost, adjusted, m), ()),
    ensures
        final(s).total_request_count == old(s).total_request_count + 1,
        final(s).reused_count == old(s).reused_count + if kind == RequestKind::Reused {
            1int
        } else {
            0
        },
        final(s).last_protocol == protocol,
        final(s).n_active == old(s).n_active,
        kind == RequestKind::Reused || !probe || old(s).last_action != ScalerAction::Grow ==> final(
            s).skip_growth_sample == old(s).skip_growth_sample && final(s).slow_start_remaining == old(
            s).slow_start_remaining,
        final(s).slow_start_remaining >= old(s).slow_start_remaining,
        final(s).slow_start_remaining > old(s).slow_start_remaining ==> final(s).skip_growth_sample,
{
}

/// The mark to skip a sample is taken once.
pub proof fn law_a_sample_is_skipped_once(
    s: &mut Scaler,
    m: &mut SchedulerMetrics,
    first: bool,
    t: &mut Scaler,
    n: &mut SchedulerMetrics,
    second: bool,
)
    requires
        call_ensures(Scaler::take_skip, (s, m), first),
        *old(t) == *final(s),
        call_ensures(Scaler::take_skip, (t, n), second),
    ensures
        first == old(s).skip_growth_sample,
        !second,
        first && old(m).skipped_growth_samples < u64::MAX ==> final(m).skipped_growth_samples == old(
            m).skipped_growth_samples + 1,
        !first ==> *final(m) == *old(m),
{
}

/// Reuse is in poor health from when it falls below the lower mark until it
/// rises above the upper one; in between nothing changes.
pub proof fn law_reuse_health_lags(s: &mut Scaler, below: bool, above: bool, changed: Option<bool>)
    requires
        call_ensures(Scaler::update_reuse_health, (s, below, above), changed),
    ensures
        !below && !above ==> changed is None && final(s).reuse_health_low == old(s).reuse_health_low,
        below && !above ==> final(s).reuse_health_low,
        above && !below ==> !final(s).reuse_health_low,
        changed is Some <==> final(s).reuse_health_low != old(s).reuse_health_low,
        changed matches Some(low) ==> low == final(s).reuse_health_low,
        final(s).n_active == old(s).n_active,
{
}

/// What is granted under a quota is what there is: two grants in a row come to
/// no more than the tokens, and what is refused is more than there are.
pub proof fn law_tokens_are_not_overdrawn(
    b: &mut TokenBucket,
    x: usize,
    first: bool,
    c: &mut TokenBucket,
    y: usize,
    second: bool,
)
    requires
        old(b).quota_bytes_per_sec > 0,
        call_ensures(TokenBucket::consume, (b, x), first),
        *old(c) == *final(b),
        call_ensures(TokenBucket::consume, (c, y), second),
    ensures
        first <==> x <= old(b).tokens,
        first ==> final(b).tokens + x == old(b).tokens,
        first && second ==> x + y <= old(b).tokens,
        final(b).quota_bytes_per_sec == old(b).quota_bytes_per_sec,
{
}

/// Without a quota everything is granted.
pub proof fn law_no_quota_no_limit(b: &mut TokenBucket, x: usize, r: bool)
    requires
        old(b).quota_bytes_per_sec == 0,
        call_ensures(TokenBucket::consume, (b, x), r),
    ensures
        r,
        *final(b) == *old(b),
{
}

/// A refill grants what the quota gives in the time, and saves up no more than
/// two seconds of it.
pub proof fn law_refills_follow_the_quota(b: &mut TokenBucket, ms: u64)
    requires
        old(b).quota_bytes_per_sec > 0,
        old(b).quota_bytes_per_sec * 2 <= i64::MAX,
        call_ensures(TokenBucket::refill, (b, ms), ()),
    ensures
        final(b).tokens <= 2 * old(b).quota_bytes_per_sec,
        (final(b).tokens - old(b).tokens) * 1000 <= old(b).quota_bytes_per_sec * ms,
        final(b).tokens < 2 * old(b).quota_bytes_per_sec ==> (final(b).tokens - old(b).tokens + 1) * 1000 > old(
            b).quota_bytes_per_sec * ms,
        final(b).quota_bytes_per_sec == old(b).quota_bytes_per_sec,
{
    let q = old(b).quota_bytes_per_sec as int;
    assert(q * ms >= 0) by (nonlinear_arith)
        requires
            q >= 0,
            ms >= 0,
    ;
}

/// What the running downloads may receive together.
pub open spec fn quota_sum(slots: Seq<DownloadSlot>) -> int
    decreases slots.len(),
{
    if slots.len() == 0 {
        0
    } else {
        quota_sum(slots.drop_last()) + slots.last().bucket.quota_bytes_per_sec
    }
}

proof fn lemma_quota_sum(slots: Seq<DownloadSlot>, share: int)
    requires
        share >= 0,
        forall|i: int| 0 <= i < slots.len() ==> (#[trigger] slots[i]).bucket.quota_bytes_per_sec <= share,
    ensures
        0 <= quota_sum(slots) <= slots.len() * share,
    decreases slots.len(),
{
    if slots.len() > 0 {
        let front = slots.drop_last();
        assert forall|i: int| 0 <= i < front.len() implies (#[trigger] front[i]).bucket.quota_bytes_per_sec <= share by {
            assert(front[i] == slots[i]);
        }
        lemma_quota_sum(front, share);
        assert(slots[slots.len() - 1].bucket.quota_bytes_per_sec <= share);
        assert(front.len() * share + share == slots.len() * share) by (nonlinear_arith)
            requires
                front.len() + 1 == slots.len(),
        ;
    }
}

/// A refill keeps every limit: no download has a quota above its own limit;
/// under a global limit that gives each at least a byte, none has more than
/// its equal share, so together they have no more than the limit; and a quota
/// is no smaller than the limits ask for.
pub proof fn law_refills_keep_the_limits(e: &mut DownloadEngine, recompute: bool)
    requires
        call_ensures(DownloadEngine::refill, (e, recompute), ()),
    ensures
        ({
            let limit = old(e).global_bandwidth_limit;
            let before = old(e).downloads@;
            let after = final(e).downloads@;
            let n = before.len();
            &&& after.len() == n
            &&& forall|i: int|
                0 <= i < n ==> {
                    let own = before[i].per_download_limit_bps;
                    let q = (#[trigger] after[i]).bucket.quota_bytes_per_sec;
                    &&& after[i].id == before[i].id
                    &&& after[i].per_download_limit_bps == own
                    &&& own > 0 ==> 0 < q <= own
                    &&& limit >= n ==> 0 < q && q * n <= limit
                    &&& limit >= n && (own == 0 || own * n > limit) ==> (q + 1) * n > limit
                    &&& own > 0 && (limit == 0 || own * n <= limit) ==> q == own
                    &&& own == 0 && limit == 0 ==> q == 0
                }
            &&& limit >= n && n > 0 ==> quota_sum(after) <= limit
        }),
        final(e).global_bandwidth_limit == old(e).global_bandwidth_limit,
{
    let limit = old(e).global_bandwidth_limit as int;
    let before = old(e).downloads@;
    let after = final(e).downloads@;
    let n = before.len() as int;
    assert(old(e).budget().limit == limit);
    assert(final(e).budget().limit == final(e).global_bandwidth_limit);
    assert(old(e)@.downloads == before && final(e)@.downloads == after);
    assert(old(e).downloads.len() == n);
    if n > 0 {
        let share = limit / n;
        assert(share * n <= limit < (share + 1) * n && (limit >= n ==> share >= 1) && (limit < n ==> share == 0)) by (
        nonlinear_arith)
            requires
                n > 0,
                limit >= 0,
                share == limit / n,
        ;
        assert forall|i: int| 0 <= i < n implies {
            let own = before[i].per_download_limit_bps;
            let q = (#[trigger] after[i]).bucket.quota_bytes_per_sec;
            &&& after[i].id == before[i].id
            &&& after[i].per_download_limit_bps == own
            &&& own > 0 ==> 0 < q <= own
            &&& limit >= n ==> 0 < q <= share
            &&& limit >= n ==> 0 < q && q * n <= limit
            &&& limit >= n && (own == 0 || own * n > limit) ==> (q + 1) * n > limit
            &&& own > 0 && (limit == 0 || own * n <= limit) ==> q == own
            &&& own == 0 && limit == 0 ==> q == 0
        } by {
            let own = before[i].per_download_limit_bps as int;
            let q = after[i].bucket.quota_bytes_per_sec as int;
            assert(q <= share ==> q * n <= share * n) by (nonlinear_arith)
                requires
                    n > 0,
            ;
            assert(own * n > limit ==> own > share) by (nonlinear_arith)
                requires
                    n > 0,
                    share * n <= limit,
            ;
            assert(own * n <= limit ==> own <= share) by (nonlinear_arith)
                requires
                    n > 0,
                    limit < (share + 1) * n,
            ;
        }
        if limit >= n {
            lemma_quota_sum(after, share);
            assert(n * share == share * n) by (nonlinear_arith);
        }
    }
}

} // verus!
