//! What holds of responses, of what is measured, and of the names of modes.

use vstd::prelude::*;
use crate::engine::challenge::{classify_response_body, ChallengeKind};
use crate::engine::coordinator::Coordinator;
use crate::engine::metrics::SchedulerMetrics;
use crate::engine::runtime::{WorkerControl, WorkerDiagnosticsState};
use crate::engine::scaler::{clamp_heartbeat_ms, Scaler, TokenBucket};
use crate::engine::transfer_laws::ticked;
use crate::engine::types::{
    HttpMode, ProtocolFamily, ProtocolInfo, ScalerAction, ScalerConfig, ScheduleMode, UnsupportedMode, WorkerState,
};
use crate::engine::worker::{
    challenge_message, judge_first_chunk, range_value, read_response, ChallengeVerdict, LiveWorker, PendingWrite,
    ResponseFacts, StartupProbe,
};
use crate::numerals::decimal;
use crate::service::WorkerSnapshot;
use crate::text::{contains, lower, trim};

verus! {

/// A server can send parts if it did, or said which, or says so; a page may
/// stand in the way only of a whole answer that is not to be saved and whose
/// type leaves it open.
pub proof fn law_responses_are_read(
    status: u16,
    parts: bool,
    accept: &Option<String>,
    kind: &Option<String>,
    disposition: &Option<String>,
    r: ResponseFacts,
)
    requires
        call_ensures(read_response, (status, parts, accept, kind, disposition), r),
    ensures
        status == 206 ==> r.supports_ranges && !r.may_be_challenge,
        parts ==> r.supports_ranges,
        status != 206 && !parts ==> (r.supports_ranges <==> (accept matches Some(t) && lower(t@) == "bytes"@)),
        (disposition matches Some(d) && (contains(lower(d@), "attachment"@) || contains(lower(d@), "filename="@)))
            ==> !r.may_be_challenge,
        status != 206 && disposition is None ==> (r.may_be_challenge <==> match *kind {
            None => true,
            Some(t) => t@.len() == 0 || contains(t@, "text/html"@) || contains(t@, "application/xhtml"@) || contains(
                t@,
                "text/plain"@,
            ),
        }),
{
}

/// A chunk is judged by what its page is: one that only a browser gets past
/// blocks, any other is suspicious; what cannot be a page is the file.
pub proof fn law_first_chunks_are_judged(
    may: bool,
    chunk: &[u8],
    r: ChallengeVerdict,
    page: Option<ChallengeKind>,
)
    requires
        call_ensures(judge_first_chunk, (may, chunk), r),
        call_ensures(classify_response_body, (chunk,), page),
    ensures
        !may || page is None ==> r == ChallengeVerdict::File,
        may && (page matches Some(k) && (k == ChallengeKind::CloudflareChallenge || k == ChallengeKind::CaptchaChallenge
            || k == ChallengeKind::BrowserCheck)) ==> r == ChallengeVerdict::Blocked(page->0),
        may && (page matches Some(k) && (k == ChallengeKind::AuthInterstitial || k == ChallengeKind::UnexpectedHtml))
            ==> r == ChallengeVerdict::Suspicious(page->0),
{
}

/// A request for a part names its first and its last byte.
pub proof fn law_parts_are_asked_for_by_name(first: u64, last: u64, r: String, kind: ChallengeKind, name: &str, m: String)
    requires
        call_ensures(range_value, (first, last), r),
        call_ensures(ChallengeKind::as_str, (kind,), name),
        call_ensures(challenge_message, (kind,), m),
    ensures
        r@ == "bytes="@ + decimal(first as nat) + "-"@ + decimal(last as nat),
        m@ == "download aborted: server returned challenge/interstitial page ("@ + name@ + ")"@,
{
}

/// What is measured at the start is measured once.
pub proof fn law_starts_are_measured_once(
    fresh: StartupProbe,
    a: &mut StartupProbe,
    waited: u64,
    m: &mut SchedulerMetrics,
    b: &mut StartupProbe,
    setup: u64,
    n: &mut SchedulerMetrics,
    c: &mut StartupProbe,
    byte: u64,
    total: u64,
    o: &mut SchedulerMetrics,
    first: bool,
)
    requires
        call_ensures(StartupProbe::new, (), fresh),
        call_ensures(StartupProbe::note_first_assignment, (a, waited, m), ()),
        call_ensures(StartupProbe::note_first_request_setup, (b, setup, n), ()),
        call_ensures(StartupProbe::note_first_byte, (c, byte, total, o), first),
    ensures
        fresh.first_assignment_wait_ms is None,
        fresh.first_request_setup_ms is None,
        fresh.first_byte_ms is None,
        fresh.total_to_first_byte_ms is None,
        old(a).first_assignment_wait_ms is Some ==> *final(a) == *old(a) && *final(m) == *old(m),
        old(a).first_assignment_wait_ms is None ==> final(a).first_assignment_wait_ms == Some(waited) && (old(m).startup_first_assignment_wait_ms + waited <= u64::MAX ==> final(m).startup_first_assignment_wait_ms
            == old(m).startup_first_assignment_wait_ms + waited),
        final(a).first_byte_ms == old(a).first_byte_ms,
        old(b).first_request_setup_ms is Some ==> *final(b) == *old(b) && *final(n) == *old(n),
        old(b).first_request_setup_ms is None ==> final(b).first_request_setup_ms == Some(setup) && (old(n).startup_first_request_setup_ms + setup <= u64::MAX ==> final(n).startup_first_request_setup_ms == old(n).startup_first_request_setup_ms + setup),
        first <==> old(c).first_byte_ms is None,
        !first ==> *final(c) == *old(c) && *final(o) == *old(o),
        first ==> {
            &&& final(c).first_byte_ms == Some(byte)
            &&& final(c).total_to_first_byte_ms == Some(total)
            &&& old(o).startup_first_byte_ms + byte <= u64::MAX ==> final(o).startup_first_byte_ms == old(o).startup_first_byte_ms + byte
            &&& old(o).startup_total_to_first_byte_ms + total <= u64::MAX ==> final(o).startup_total_to_first_byte_ms
                == old(o).startup_total_to_first_byte_ms + total
        },
{
}

/// A dry run advances by a quarter of a megabyte at a time, to the end of the
/// range and not beyond, and counts what it passes.
pub proof fn law_dry_runs_advance(
    w: &mut LiveWorker,
    c: &mut Coordinator,
    control: &mut WorkerControl,
    downloaded: &mut u64,
    range: usize,
    now: u64,
    r: (u64, u64),
)
    requires
        range < old(c).dl_ranges@.len(),
        old(w).local_cursor < old(c).dl_ranges@[range as int].end,
        call_ensures(LiveWorker::dry_step, (w, c, control, downloaded, range, now), r),
    ensures
        ({
            let end = old(c).dl_ranges@[range as int].end;
            &&& 0 < r.0 <= 262144
            &&& r.0 < 262144 ==> r.1 == 0
            &&& old(w).local_cursor + r.0 + r.1 == end
            &&& final(w).local_cursor == old(w).local_cursor + r.0
            &&& final(c).dl_ranges@[range as int].cursor == old(w).local_cursor + r.0
            &&& final(c).dl_ranges@[range as int].end == end
            &&& *old(downloaded) + r.0 <= u64::MAX ==> *final(downloaded) == *old(downloaded) + r.0
            &&& old(control).transferred_bytes + r.0 <= u64::MAX ==> final(control).transferred_bytes == old(control).transferred_bytes + r.0
            &&& final(control).stop_requested == old(control).stop_requested
        }),
{
    assert(final(c)@.ranges == final(c).dl_ranges@);
    assert(old(c)@.ranges == old(c).dl_ranges@);
    assert(final(w)@.local_cursor == final(w).local_cursor);
}

/// A stream that broke is opened again where something arrived, and then it
/// counts as no failure; a range that is let go leaves no failure either.
pub proof fn law_broken_streams_are_opened_again(
    w: &mut LiveWorker,
    reopen: bool,
    v: &mut LiveWorker,
)
    requires
        call_ensures(LiveWorker::stream_broke, (w,), reopen),
        call_ensures(LiveWorker::let_go, (v,), ()),
    ensures
        reopen <==> old(w).made_progress,
        reopen ==> final(w).consecutive_failures == 0 && final(w).pending.target_bytes == 131072,
        !reopen ==> final(w).consecutive_failures == old(w).consecutive_failures && final(w).pending == old(w).pending,
        final(w).local_cursor == old(w).local_cursor,
        final(w).pending.data@ == old(w).pending.data@,
        final(v)@.current is None,
        final(v).consecutive_failures == 0,
        final(v).local_cursor == old(v).local_cursor,
        final(v).pending.data@ == old(v).pending.data@,
        final(v).pending.target_bytes == 131072,
{
    assert(final(w)@.failures == final(w).consecutive_failures);
    assert(final(v)@.failures == final(v).consecutive_failures);
    assert(final(w)@.local_cursor == final(w).local_cursor);
    assert(final(v)@.local_cursor == final(v).local_cursor);
}

/// Bytes are written once there are enough of them; an empty buffer that is
/// more than twice as large as it needs to be is cut down.
pub proof fn law_buffers_are_bounded(
    fresh: PendingWrite,
    p: &PendingWrite,
    due: bool,
    a: &mut PendingWrite,
    target: usize,
    m: &mut SchedulerMetrics,
    b: &mut PendingWrite,
    capacity: usize,
    cut: Option<usize>,
)
    requires
        call_ensures(PendingWrite::new, (), fresh),
        call_ensures(PendingWrite::is_due, (p,), due),
        call_ensures(PendingWrite::update_pending_write_target, (a, target, m), ()),
        call_ensures(PendingWrite::reset_pending_write_target, (b,), ()),
        call_ensures(PendingWrite::trimmed_capacity, (p, capacity), cut),
        p.target_bytes <= 0x4000_0000,
    ensures
        fresh.data@.len() == 0,
        fresh.target_bytes == 131072,
        due <==> p.data@.len() >= p.target_bytes,
        final(a).target_bytes == target,
        final(a).data@ == old(a).data@,
        final(a).start_offset == old(a).start_offset,
        final(m).max_write_buffer_target_bytes >= target,
        final(m).max_write_buffer_target_bytes >= old(m).max_write_buffer_target_bytes,
        final(m).max_write_buffer_target_bytes == target || final(m).max_write_buffer_target_bytes == old(m).max_write_buffer_target_bytes,
        final(b).target_bytes == 131072,
        final(b).data@ == old(b).data@,
        p.data@.len() > 0 ==> cut is None,
        p.data@.len() == 0 && p.target_bytes >= 131072 ==> (cut is Some <==> capacity > 2 * p.target_bytes),
        p.data@.len() == 0 && p.target_bytes < 131072 ==> (cut is Some <==> capacity > 262144),
        cut matches Some(n) ==> n < capacity && n >= p.target_bytes && n >= 131072 && (n == p.target_bytes || n == 131072),
{
}

/// A scaler begins with one worker that is waited for; a heartbeat of waiting
/// is used up at a time.
pub proof fn law_scalers_begin_small(
    config: ScalerConfig,
    r: Scaler,
    s: &mut Scaler,
    slow: bool,
    raw: u64,
    beat: u64,
    bucket: TokenBucket,
    w: &mut Scaler,
)
    requires
        call_ensures(Scaler::from_config, (config,), r),
        call_ensures(Scaler::take_slow_start, (s,), slow),
        call_ensures(clamp_heartbeat_ms, (raw,), beat),
        call_ensures(TokenBucket::new, (), bucket),
        call_ensures(Scaler::reset_reuse_window, (w,), ()),
    ensures
        r.n_active == 1,
        r.slow_start_remaining == 3,
        r.config == config,
        r.last_action == ScalerAction::Hold,
        !r.skip_growth_sample && !r.reuse_health_low && !r.h2_stream_saturated && !r.last_add_was_stream,
        r.h2_stream_count == 0 && r.reused_count == 0 && r.total_request_count == 0 && r.reused_rtt_samples == 0,
        r.last_protocol == ProtocolFamily::Other,
        slow <==> old(s).slow_start_remaining > 0,
        slow ==> final(s).slow_start_remaining + 1 == old(s).slow_start_remaining,
        !slow ==> final(s).slow_start_remaining == 0,
        final(s).n_active == old(s).n_active,
        500 <= beat <= 3000,
        500 <= raw <= 3000 ==> beat == raw,
        raw < 500 ==> beat == 500,
        raw > 3000 ==> beat == 3000,
        bucket.quota_bytes_per_sec == 0 && bucket.tokens == 0 && bucket.refill_interval_ms == 100,
        final(w).reused_count == 0 && final(w).total_request_count == 0,
        final(w).reused_rtt_samples == old(w).reused_rtt_samples && final(w).n_active == old(w).n_active,
{
}

/// Adding and dropping a worker count it, in the scaler and in the counters;
/// streams are told apart from connections, and three that bring nothing are
/// enough.
pub proof fn law_workers_are_counted(
    s: &mut Scaler,
    protocol: ProtocolFamily,
    stream: bool,
    flat: bool,
    wait: u32,
    m: &mut SchedulerMetrics,
    d: &mut Scaler,
    n: &mut SchedulerMetrics,
    q: &Scaler,
    high: bool,
    adds: bool,
)
    requires
        old(s).h2_stream_count < usize::MAX,
        old(s).n_active < usize::MAX,
        old(d).n_active > 0,
        call_ensures(Scaler::record_add, (s, protocol, stream, flat, wait, m), ()),
        call_ensures(Scaler::record_drop, (d, protocol, n), ()),
        call_ensures(Scaler::is_stream_add, (q, protocol, high), adds),
    ensures
        final(s).n_active == old(s).n_active + 1,
        final(s).last_action == ScalerAction::Grow,
        final(s).slow_start_remaining == wait,
        final(s).last_add_was_stream == stream,
        stream ==> final(s).h2_stream_count == old(s).h2_stream_count + 1,
        !stream ==> final(s).h2_stream_count == old(s).h2_stream_count,
        stream && old(s).h2_stream_count >= 2 ==> final(s).h2_stream_saturated == flat,
        !stream || old(s).h2_stream_count < 2 ==> final(s).h2_stream_saturated == old(s).h2_stream_saturated,
        final(s).config == old(s).config,
        final(m).max_active_connections_observed >= old(s).n_active + 1,
        final(m).max_active_connections_observed >= old(m).max_active_connections_observed,
        protocol == ProtocolFamily::Http2 ==> ticked(old(m).http2_scale_adds, final(m).http2_scale_adds),
        protocol == ProtocolFamily::Http1 ==> ticked(old(m).http1_scale_adds, final(m).http1_scale_adds),
        stream && flat && old(s).h2_stream_count >= 2 && !old(s).h2_stream_saturated ==> ticked(
            old(m).h2_stream_saturated_count,
            final(m).h2_stream_saturated_count,
        ),
        !(stream && flat && old(s).h2_stream_count >= 2 && !old(s).h2_stream_saturated) ==> final(m).h2_stream_saturated_count == old(m).h2_stream_saturated_count,
        final(d).n_active + 1 == old(d).n_active,
        final(d).last_action == ScalerAction::Shrink,
        final(d).slow_start_remaining == old(d).slow_start_remaining,
        protocol == ProtocolFamily::Http2 ==> ticked(old(n).http2_scale_drops, final(n).http2_scale_drops),
        protocol == ProtocolFamily::Http1 ==> ticked(old(n).http1_scale_drops, final(n).http1_scale_drops),
        protocol == ProtocolFamily::Http3 ==> ticked(old(n).http3_scale_drops, final(n).http3_scale_drops),
        adds <==> protocol == ProtocolFamily::Http2 && high && q.reused_rtt_samples >= 2,
{
}

/// A recovery starts over with the workers that it got; where it got none,
/// nothing changes.
pub proof fn law_recoveries_start_over(
    s: &mut Scaler,
    n: usize,
    protocol: ProtocolFamily,
    wait: u32,
    m: &mut SchedulerMetrics,
)
    requires
        call_ensures(Scaler::record_recovery, (s, n, protocol, wait, m), ()),
    ensures
        n == 0 ==> *final(s) == *old(s) && *final(m) == *old(m),
        n > 0 ==> {
            &&& final(s).n_active == n
            &&& final(s).last_action == ScalerAction::Grow
            &&& final(s).slow_start_remaining == wait
            &&& final(s).config == old(s).config
            &&& final(s).h2_stream_count == old(s).h2_stream_count
            &&& final(m).max_active_connections_observed >= n
        },
{
}

/// A counter adds up until it is full, and a maximum never falls.
pub proof fn law_counters_add_up(c: &mut u64, v: u64, d: &mut u64, w: u64)
    requires
        call_ensures(SchedulerMetrics::add, (c, v), ()),
        call_ensures(SchedulerMetrics::update_max, (d, w), ()),
    ensures
        *old(c) + v <= u64::MAX ==> *final(c) == *old(c) + v,
        *old(c) + v > u64::MAX ==> *final(c) == u64::MAX,
        *final(d) >= *old(d),
        *final(d) >= w,
        *final(d) == *old(d) || *final(d) == w,
{
}

/// A mode goes by its names, whatever their case and the space around them;
/// anything else is refused, and told.
pub proof fn law_modes_go_by_their_names(
    input: &str,
    r: Result<ScheduleMode, UnsupportedMode>,
    h: Result<HttpMode, UnsupportedMode>,
    e: &UnsupportedMode,
    text: String,
)
    requires
        call_ensures(ScheduleMode::parse, (input,), r),
        call_ensures(HttpMode::parse, (input,), h),
        call_ensures(UnsupportedMode::message, (e,), text),
    ensures
        ({
            let t = lower(trim(input@));
            &&& r == Ok::<ScheduleMode, UnsupportedMode>(ScheduleMode::Fib) <==> t == "fib"@
            &&& r == Ok::<ScheduleMode, UnsupportedMode>(ScheduleMode::Equal) <==> t == "equal"@
            &&& r == Ok::<ScheduleMode, UnsupportedMode>(ScheduleMode::FibAdaptive) <==> t == "fib-adaptive"@ || t
                == "fib_adaptive"@ || t == "adaptive-fib"@ || t == "adaptive_fib"@
            &&& r matches Err(x) ==> x.what@ == "schedule mode"@ && x.input@ == t
            &&& h == Ok::<HttpMode, UnsupportedMode>(HttpMode::Auto) <==> t == "auto"@
            &&& h == Ok::<HttpMode, UnsupportedMode>(HttpMode::Http1) <==> t == "http1"@ || t == "http/1.1"@ || t
                == "h1"@
            &&& h == Ok::<HttpMode, UnsupportedMode>(HttpMode::Http2) <==> t == "http2"@ || t == "http/2"@ || t
                == "h2"@
            &&& h == Ok::<HttpMode, UnsupportedMode>(HttpMode::Http3) <==> t == "http3"@ || t == "http/3"@ || t
                == "h3"@ || t == "quic"@
            &&& h matches Err(x) ==> x.what@ == "http mode"@ && x.input@ == t
        }),
        text@ == "unsupported "@ + e.what@ + ": "@ + e.input@,
{
    reveal_strlit("fib");
    reveal_strlit("equal");
    reveal_strlit("fib-adaptive");
    reveal_strlit("fib_adaptive");
    reveal_strlit("adaptive-fib");
    reveal_strlit("adaptive_fib");
    reveal_strlit("auto");
    reveal_strlit("http1");
    reveal_strlit("http/1.1");
    reveal_strlit("h1");
    reveal_strlit("http2");
    reveal_strlit("http/2");
    reveal_strlit("h2");
    reveal_strlit("http3");
    reveal_strlit("http/3");
    reveal_strlit("h3");
    reveal_strlit("quic");
    assert("fib"@.len() == 3);
    assert("equal"@.len() == 5);
    assert("fib-adaptive"@.len() == 12);
    assert("fib_adaptive"@.len() == 12);
    assert("adaptive-fib"@.len() == 12);
    assert("adaptive_fib"@.len() == 12);
    assert("auto"@.len() == 4 && "auto"@[0] == 'a');
    assert("quic"@.len() == 4 && "quic"@[0] == 'q');
    assert("http1"@.len() == 5 && "http1"@[4] == '1');
    assert("http2"@.len() == 5 && "http2"@[4] == '2');
    assert("http3"@.len() == 5 && "http3"@[4] == '3');
    assert("http/1.1"@.len() == 8);
    assert("http/2"@.len() == 6 && "http/2"@[5] == '2');
    assert("http/3"@.len() == 6 && "http/3"@[5] == '3');
    assert("h1"@.len() == 2 && "h1"@[1] == '1');
    assert("h2"@.len() == 2 && "h2"@[1] == '2');
    assert("h3"@.len() == 2 && "h3"@[1] == '3');
}

/// A label tells what was asked for, and what came of it where that is another
/// thing.
pub proof fn law_labels_tell_both(p: &ProtocolInfo, r: String)
    requires
        call_ensures(ProtocolInfo::display_label, (p,), r),
    ensures
        ({
            let asked = match p.requested {
                HttpMode::Auto => "auto"@,
                HttpMode::Http1 => "h1"@,
                HttpMode::Http2 => "h2"@,
                HttpMode::Http3 => "h3"@,
            };
            let kept = p.negotiated == ProtocolFamily::Other || (p.requested == HttpMode::Http1 && p.negotiated
                == ProtocolFamily::Http1) || (p.requested == HttpMode::Http2 && p.negotiated == ProtocolFamily::Http2)
                || (p.requested == HttpMode::Http3 && p.negotiated == ProtocolFamily::Http3);
            &&& kept ==> r@ == asked
            &&& !kept && p.negotiated == ProtocolFamily::Http1 ==> r@ == asked + "→"@ + "h1"@
            &&& !kept && p.negotiated == ProtocolFamily::Http2 ==> r@ == asked + "→"@ + "h2"@
            &&& !kept && p.negotiated == ProtocolFamily::Http3 ==> r@ == asked + "→"@ + "h3"@
        }),
{
}

/// A worker tells where it is; only one that downloads has a speed.
pub proof fn law_workers_tell_where_they_are(
    d: &mut WorkerDiagnosticsState,
    state: WorkerState,
    a: &mut WorkerDiagnosticsState,
    start: u64,
    end: u64,
    cursor: u64,
    b: &mut WorkerDiagnosticsState,
    x: &WorkerDiagnosticsState,
    bytes: u64,
    r: WorkerSnapshot,
    id: u32,
    probe: bool,
    c: WorkerControl,
)
    requires
        call_ensures(WorkerDiagnosticsState::set_state, (d, state), ()),
        call_ensures(WorkerDiagnosticsState::set_range, (a, start, end, cursor), ()),
        call_ensures(WorkerDiagnosticsState::clear_range, (b,), ()),
        call_ensures(WorkerDiagnosticsState::snapshot, (x, bytes), r),
        call_ensures(WorkerControl::new, (id, probe), c),
    ensures
        final(d).state == state,
        state == WorkerState::Downloading ==> final(d).speed_bits == old(d).speed_bits,
        state != WorkerState::Downloading ==> final(d).speed_bits == 0,
        final(d).range == old(d).range,
        final(a).range == Some((start, end, cursor)),
        final(a).state == old(a).state,
        final(b).range is None,
        final(b).state == old(b).state,
        r.connection_id == x.connection_id,
        r.state == x.state,
        r.transferred_bytes == bytes,
        r.speed_bits == x.speed_bits,
        x.range matches Some(t) ==> r.range_start == Some(t.0) && r.range_end == Some(t.1) && r.range_cursor == Some(t.2),
        x.range is None ==> r.range_start is None && r.range_end is None && r.range_cursor is None,
        c.connection_id == id,
        !c.stop_requested,
        c.transferred_bytes == 0,
        c.pending_growth_probe == probe,
{
}

} // verus!
