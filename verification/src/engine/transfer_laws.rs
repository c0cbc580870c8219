//! What holds of protocols, of redirects, and of how a download begins and
//! ends.

use vstd::prelude::*;
use crate::engine::coordinator::Coordinator;
use crate::engine::h3_worker::{h3_accepts, H3Attempt, H3Outcome, H3Step, H3Worker};
use crate::engine::metrics::SchedulerMetrics;
use crate::engine::origin_memory::{OriginNote, SessionRequirementField};
use crate::engine::runtime::{DownloadEngine, WorkerControl};
use crate::engine::task::{
    close_metrics, closing_notes, connection_bounds, excess_leases, heartbeats_over, initial_borrow_limit_mb,
    initial_connections, initial_steal_floor, protocol_to_note, reports_over, session_notes, should_try_h3,
    size_from_header, size_notes, size_source, task_outcome, ConnectionBounds, Measured, SizeSource, TaskOutcome,
};
use crate::engine::transport::{
    compute_http2_client_tuning, dominant_protocol_from_metrics, learn_http2_client_tuning,
    protocol_family_for_version, protocol_growth_shield_min_samples, protocol_prefetch_handshake_ms,
    record_max_active_connections, record_protocol_request_metric, record_protocol_scale_metric, steal_floor_bytes,
    ClientTuning, H2TuningSource, HttpVersion, RedirectError, RedirectFollower, RedirectStep,
};
use crate::engine::types::{HaltMode, HttpMode, ProtocolFamily, ScalerAction};
use crate::request::RequestContext;
use crate::web_url::{joined_url, opt_text, origin_of, url_parts};

verus! {

/// A window lies within its bounds, and is what was asked for wherever that
/// lies within them too.
pub open spec fn is_within(window: int, wanted: int, low: int, high: int) -> bool {
    &&& low <= window <= high
    &&& low <= wanted <= high ==> window == wanted
    &&& wanted < low ==> window == low
    &&& wanted > high ==> window == high
}

/// Before anything is known of a server, each request gets a megabyte of the
/// stream's window and half of one for sending, within bounds, and the
/// connection has room for all streams, within bounds.
pub proof fn law_windows_fit_the_requests(n: usize, r: ClientTuning)
    requires
        call_ensures(compute_http2_client_tuning, (n,), r),
        1 <= n <= 0xFFFF,
    ensures
        r.expected_concurrency == n,
        is_within(r.http2_stream_window_bytes as int, n * 1048576, 4194304, 16777216),
        is_within(
            r.http2_connection_window_bytes as int,
            n * r.http2_stream_window_bytes,
            16777216,
            67108864,
        ),
        is_within(r.http2_max_send_buffer_bytes as int, n * 524288, 2097152, 8388608),
        r.source == H2TuningSource::Default,
{
    let m = n as int;
    assert(m % 0x1_0000_0000 == m);
    assert(r.http2_stream_window_bytes * m == m * r.http2_stream_window_bytes) by (nonlinear_arith);
}

/// Once something is known of a server, a stream's window is four times what
/// is on its way at a time, within bounds.
pub proof fn law_windows_fit_the_server(expected: usize, observed: usize, bdp: u32, r: ClientTuning)
    requires
        call_ensures(learn_http2_client_tuning, (expected, observed, bdp), r),
        expected <= 0xFFFF,
        observed <= 0xFFFF,
    ensures
        r.expected_concurrency >= expected,
        r.expected_concurrency >= observed,
        r.expected_concurrency >= 1,
        r.expected_concurrency == expected || r.expected_concurrency == observed || r.expected_concurrency == 1,
        is_within(r.http2_stream_window_bytes as int, 4 * bdp, 1048576, 16777216),
        is_within(
            r.http2_connection_window_bytes as int,
            r.expected_concurrency * r.http2_stream_window_bytes,
            16777216,
            67108864,
        ),
        r.expected_concurrency <= 200 ==> is_within(
            r.http2_max_send_buffer_bytes as int,
            r.expected_concurrency * r.http2_stream_window_bytes / 2,
            2097152,
            8388608,
        ),
        r.source == H2TuningSource::LearnedOrigin,
{
    let m = r.expected_concurrency as int;
    let w = r.http2_stream_window_bytes as int;
    assert(m % 0x1_0000_0000 == m);
    assert(w * m == m * w) by (nonlinear_arith);
    if m <= 200 {
        assert(w * m <= 16777216 * 200) by (nonlinear_arith)
            requires
                0 <= w <= 16777216,
                0 <= m <= 200,
        ;
    }
}

/// The protocol that prevailed carried at least as many requests as any other
/// known one; where none did, the fallback stands.
pub proof fn law_the_prevailing_protocol(m: &SchedulerMetrics, fallback: ProtocolFamily, r: ProtocolFamily)
    requires
        call_ensures(dominant_protocol_from_metrics, (m, fallback), r),
    ensures
        m.http1_requests == 0 && m.http2_requests == 0 && m.http3_requests == 0 ==> r == fallback,
        m.http1_requests > 0 || m.http2_requests > 0 || m.http3_requests > 0 ==> {
            &&& r == ProtocolFamily::Http1 ==> m.http1_requests >= m.http2_requests && (m.http3_requests
                <= m.http1_requests || m.http3_requests <= m.http2_requests)
            &&& r == ProtocolFamily::Http2 ==> m.http2_requests > m.http1_requests && m.http2_requests
                >= m.http3_requests
            &&& r == ProtocolFamily::Http3 ==> m.http3_requests > m.http1_requests && m.http3_requests
                > m.http2_requests
            &&& r != ProtocolFamily::Other
        },
{
}

/// The protocol of a response goes by its version; versions before two are one
/// family.
pub proof fn law_versions_have_families(v: HttpVersion, r: ProtocolFamily)
    requires
        call_ensures(protocol_family_for_version, (v,), r),
    ensures
        r == ProtocolFamily::Http2 <==> v == HttpVersion::Http2,
        r == ProtocolFamily::Http3 <==> v == HttpVersion::Http3,
        r == ProtocolFamily::Other <==> v == HttpVersion::Unknown,
{
}

/// A counter went up by one, unless it was full.
pub open spec fn ticked(before: u64, after: u64) -> bool {
    after == before + 1 || (before == 0xFFFF_FFFF_FFFF_FFFF && after == before)
}

/// A request is counted once, by its protocol.
pub proof fn law_requests_count_by_protocol(m: &mut SchedulerMetrics, protocol: ProtocolFamily)
    requires
        call_ensures(record_protocol_request_metric, (m, protocol), ()),
    ensures
        protocol == ProtocolFamily::Http1 ==> ticked(old(m).http1_requests, final(m).http1_requests),
        protocol != ProtocolFamily::Http1 ==> final(m).http1_requests == old(m).http1_requests,
        protocol == ProtocolFamily::Http2 ==> ticked(old(m).http2_requests, final(m).http2_requests),
        protocol != ProtocolFamily::Http2 ==> final(m).http2_requests == old(m).http2_requests,
        protocol == ProtocolFamily::Http3 ==> ticked(old(m).http3_requests, final(m).http3_requests),
        protocol != ProtocolFamily::Http3 ==> final(m).http3_requests == old(m).http3_requests,
        protocol == ProtocolFamily::Other ==> ticked(old(m).http_other_requests, final(m).http_other_requests),
        protocol != ProtocolFamily::Other ==> final(m).http_other_requests == old(m).http_other_requests,
        final(m).http_requests == old(m).http_requests,
        final(m).reused_requests == old(m).reused_requests,
        final(m).fresh_requests == old(m).fresh_requests,
{
}

/// A change of the number of connections is counted once, by its protocol and
/// its direction; with HTTP/2 also by whether it was a stream.
pub proof fn law_changes_count_by_protocol(
    m: &mut SchedulerMetrics,
    protocol: ProtocolFamily,
    action: ScalerAction,
    stream: bool,
)
    requires
        call_ensures(record_protocol_scale_metric, (m, protocol, action, stream), ()),
    ensures
        ({
            let grew = action == ScalerAction::Grow;
            let shrank = action == ScalerAction::Shrink;
            let h1 = protocol == ProtocolFamily::Http1;
            let h2 = protocol == ProtocolFamily::Http2;
            let h3 = protocol == ProtocolFamily::Http3;
            &&& if h1 && grew { ticked(old(m).http1_scale_adds, final(m).http1_scale_adds) } else {
                final(m).http1_scale_adds == old(m).http1_scale_adds
            }
            &&& if h1 && shrank { ticked(old(m).http1_scale_drops, final(m).http1_scale_drops) } else {
                final(m).http1_scale_drops == old(m).http1_scale_drops
            }
            &&& if h2 && grew { ticked(old(m).http2_scale_adds, final(m).http2_scale_adds) } else {
                final(m).http2_scale_adds == old(m).http2_scale_adds
            }
            &&& if h2 && shrank { ticked(old(m).http2_scale_drops, final(m).http2_scale_drops) } else {
                final(m).http2_scale_drops == old(m).http2_scale_drops
            }
            &&& if h3 && grew { ticked(old(m).http3_scale_adds, final(m).http3_scale_adds) } else {
                final(m).http3_scale_adds == old(m).http3_scale_adds
            }
            &&& if h3 && shrank { ticked(old(m).http3_scale_drops, final(m).http3_scale_drops) } else {
                final(m).http3_scale_drops == old(m).http3_scale_drops
            }
            &&& if h2 && grew && stream { ticked(old(m).http2_stream_adds, final(m).http2_stream_adds) } else {
                final(m).http2_stream_adds == old(m).http2_stream_adds
            }
            &&& if h2 && grew && !stream { ticked(old(m).http2_conn_adds, final(m).http2_conn_adds) } else {
                final(m).http2_conn_adds == old(m).http2_conn_adds
            }
        }),
{
}

/// The most connections that were active is never forgotten.
pub proof fn law_the_most_connections_are_kept(m: &mut SchedulerMetrics, n: usize)
    requires
        call_ensures(record_max_active_connections, (m, n), ()),
    ensures
        final(m).max_active_connections_observed >= n,
        final(m).max_active_connections_observed >= old(m).max_active_connections_observed,
        final(m).max_active_connections_observed == n || final(m).max_active_connections_observed == old(m).max_active_connections_observed,
{
}

/// The later the protocol, the less is waited for and the less is taken over.
pub proof fn law_later_protocols_need_less(
    a: ProtocolFamily,
    scaled: u64,
    handshake: u64,
    samples: u64,
    floor: u64,
)
    requires
        call_ensures(protocol_prefetch_handshake_ms, (a,), handshake),
        call_ensures(protocol_growth_shield_min_samples, (a,), samples),
        call_ensures(steal_floor_bytes, (a, scaled), floor),
    ensures
        a == ProtocolFamily::Http3 ==> handshake == 200 && samples == 0,
        a == ProtocolFamily::Http2 ==> handshake == 250 && samples == 2,
        a == ProtocolFamily::Http1 ==> handshake == 700 && samples == 1,
        a == ProtocolFamily::Other ==> handshake == 700 && samples == 2,
        floor >= scaled,
        floor >= 4194304,
        a == ProtocolFamily::Http1 || a == ProtocolFamily::Other ==> floor >= 8388608,
        floor > scaled ==> floor == if a == ProtocolFamily::Http2 || a == ProtocolFamily::Http3 {
            4194304int
        } else {
            8388608int
        },
{
}

/// A request follows a redirect to where it leads, eight times at most, and
/// never forgets that it left its origin; anything else ends it where it is.
pub proof fn law_redirects_are_followed(
    f: &mut RedirectFollower,
    status: u16,
    location: &Option<String>,
    step: RedirectStep,
)
    requires
        old(f).followed <= 8,
        call_ensures(RedirectFollower::step, (f, status, location), step),
    ensures
        final(f).followed <= 8,
        step == RedirectStep::Answer <==> status < 300 || status >= 400,
        300 <= status < 400 && location is None ==> step == RedirectStep::Stop(RedirectError::MissingLocation),
        300 <= status < 400 && location is Some && joined_url(old(f).current_url@, opt_text(*location)->0) is None
            ==> step == RedirectStep::Stop(RedirectError::InvalidLocation),
        300 <= status < 400 && location is Some && joined_url(old(f).current_url@, opt_text(*location)->0) is Some
            ==> (step == RedirectStep::Follow <==> old(f).followed < 8) && (step == RedirectStep::Stop(
            RedirectError::TooManyRedirects,
        ) <==> old(f).followed == 8),
        step == RedirectStep::Follow ==> {
            &&& joined_url(old(f).current_url@, opt_text(*location)->0) == Some(final(f).current_url@)
            &&& final(f).followed == old(f).followed + 1
            &&& old(f).left_origin ==> final(f).left_origin
            &&& origin_of(url_parts(old(f).current_url@)) != origin_of(url_parts(final(f).current_url@))
                ==> final(f).left_origin
            &&& final(f).left_origin && !old(f).left_origin ==> origin_of(url_parts(old(f).current_url@)) != origin_of(
                url_parts(final(f).current_url@),
            )
        },
        step != RedirectStep::Follow ==> final(f).current_url@ == old(f).current_url@ && final(f).followed == old(f).followed && final(f).left_origin == old(f).left_origin,
{
}

/// The bounds of a download are in order, never below one, and follow what was
/// asked for wherever that is possible.
pub proof fn law_bounds_are_in_order(min: usize, max: usize, connections: usize, r: ConnectionBounds)
    requires
        call_ensures(connection_bounds, (min, max, connections), r),
    ensures
        1 <= r.min <= r.initial <= r.max,
        1 <= min <= max ==> r.min == min && r.max == max,
        1 <= max < min ==> r.min == max && r.max == max,
        r.min <= connections <= r.max ==> r.initial == connections,
        connections < r.min ==> r.initial == r.min,
        connections > r.max ==> r.initial == r.max,
        max == 0 ==> r.min == 1 && r.max == 1,
        min == 0 && max >= 1 ==> r.min == 1 && r.max == max,
{
}

/// What is not given takes its default.
pub proof fn law_defaults_stand_in(
    n: usize,
    default_n: usize,
    a: usize,
    limit: u64,
    b: u64,
    c: u64,
)
    requires
        limit * 1048576 <= u64::MAX,
        call_ensures(initial_connections, (n, default_n), a),
        call_ensures(initial_borrow_limit_mb, (limit,), b),
        call_ensures(initial_steal_floor, (limit,), c),
    ensures
        n > 0 ==> a == n,
        n == 0 && default_n > 0 ==> a == default_n,
        n == 0 && default_n == 0 ==> a == 1,
        limit > 0 ==> b == limit,
        limit == 0 ==> b == 2,
        limit >= 8 ==> c == limit * 1048576,
        limit <= 8 ==> c == 8388608,
{
}

/// A saved size is believed; only a dry run makes up its own; a server is
/// asked otherwise.
pub proof fn law_sizes_are_known_or_asked_for(saved: Option<u64>, dry: bool, mb: Option<u64>, r: SizeSource)
    requires
        mb matches Some(n) ==> n * 1048576 <= u64::MAX,
        call_ensures(size_source, (saved, dry, mb), r),
    ensures
        saved is Some ==> r == SizeSource::Known(saved->0),
        saved is None && dry && mb is Some ==> (r matches SizeSource::Known(n) && n == mb->0 * 1048576),
        saved is None && !(dry && mb is Some) ==> r == SizeSource::AskServer,
{
}

/// HTTP/3 is tried where it was asked for, or where the server is known for it
/// and the choice is free; to remember another protocol never forgets it.
pub proof fn law_http3_is_tried(
    mode: HttpMode,
    hint: ProtocolFamily,
    r: bool,
    known: Option<ProtocolFamily>,
    used: ProtocolFamily,
    note: Option<ProtocolFamily>,
)
    requires
        call_ensures(should_try_h3, (mode, hint), r),
        call_ensures(protocol_to_note, (known, used), note),
    ensures
        mode == HttpMode::Http3 ==> r,
        mode == HttpMode::Auto ==> (r <==> hint == ProtocolFamily::Http3),
        mode != HttpMode::Auto && mode != HttpMode::Http3 ==> !r,
        known == Some(ProtocolFamily::Http3) ==> note is None,
        known != Some(ProtocolFamily::Http3) ==> note == Some(used),
{
}

/// A download is done with its heartbeats when it halts or is complete, and
/// with its reports when there is nothing more to tell; what it holds beyond
/// its workers goes back.
pub proof fn law_downloads_wind_up(
    halted: bool,
    downloaded: u64,
    total: u64,
    reported: bool,
    over: bool,
    silent: bool,
    held: usize,
    live: usize,
    excess: usize,
)
    requires
        call_ensures(heartbeats_over, (halted, downloaded, total), over),
        call_ensures(reports_over, (reported, halted, downloaded, total), silent),
        call_ensures(excess_leases, (held, live), excess),
    ensures
        halted ==> over,
        downloaded >= total ==> over,
        !halted && downloaded < total ==> !over,
        reported ==> (silent <==> downloaded >= total),
        !reported ==> (silent <==> halted && downloaded < total),
        held >= live ==> live + excess == held,
        held <= live ==> excess == 0,
{
}

/// A page in the way is the end; a complete file is complete whatever was
/// asked for; a halt is told as it was asked for.
pub proof fn law_ends_are_told(blocked: bool, downloaded: u64, total: u64, mode: HaltMode, r: TaskOutcome)
    requires
        call_ensures(task_outcome, (blocked, downloaded, total, mode), r),
    ensures
        r == TaskOutcome::Blocked <==> blocked,
        !blocked && total > 0 && downloaded >= total ==> r == TaskOutcome::Completed,
        !blocked && mode == HaltMode::Running ==> r == TaskOutcome::Completed,
        !blocked && mode != HaltMode::Running && (total == 0 || downloaded < total) ==> r == TaskOutcome::Halted(mode),
{
}

/// A size is what a header says, if it says a number other than zero.
pub proof fn law_sizes_are_read(h: &Option<String>, r: Option<u64>)
    requires
        call_ensures(size_from_header, (h,), r),
    ensures
        h is None ==> r is None,
        r != Some(0u64),
        h is Some ==> match crate::numerals::parsed(h->0@, u64::MAX as int) {
            Some(n) => n > 0 ==> r == Some(n as u64),
            None => r is None,
        },
{
}

/// What a server was sent of a session is remembered, each kind once and
/// nothing else.
pub proof fn law_sessions_are_remembered(ctx: &RequestContext, r: Vec<OriginNote>)
    requires
        call_ensures(session_notes, (ctx,), r),
    ensures
        r@.contains(OriginNote::SessionRequirement(SessionRequirementField::Cookies, true)) <==> (ctx@.cookies matches Some(
            c,
        ) && c.len() > 0),
        r@.contains(OriginNote::SessionRequirement(SessionRequirementField::Auth, true)) <==> ctx@.auth is Some,
        r@.contains(OriginNote::SessionRequirement(SessionRequirementField::Referer, true)) <==> ctx@.referer is Some,
        r@.no_duplicates(),
        forall|i: int|
            0 <= i < r@.len() ==> (#[trigger] r@[i] matches OriginNote::SessionRequirement(field, needed) && needed),
{
    let cookies = ctx@.cookies matches Some(c) && c.len() > 0;
    let auth = ctx@.auth is Some;
    let a: int = if cookies {
        1
    } else {
        0
    };
    let b: int = if auth {
        a + 1
    } else {
        a
    };
    if cookies {
        assert(r@[0] == OriginNote::SessionRequirement(SessionRequirementField::Cookies, true));
    }
    if auth {
        assert(r@[a] == OriginNote::SessionRequirement(SessionRequirementField::Auth, true));
    }
    if ctx@.referer is Some {
        assert(r@[b] == OriginNote::SessionRequirement(SessionRequirementField::Referer, true));
    }
}

/// A server that told the size is remembered for it, unless nothing was really
/// fetched.
pub proof fn law_told_sizes_are_remembered(dry: bool, h3: bool, r: Vec<OriginNote>)
    requires
        call_ensures(size_notes, (dry, h3), r),
    ensures
        dry ==> r@.len() == 0,
        r@.contains(OriginNote::ContentLengthReliable(true)) <==> !dry,
        r@.contains(OriginNote::Protocol(ProtocolFamily::Http3)) <==> !dry && h3,
        r@.len() <= 2,
{
    if !dry {
        assert(r@[0] == OriginNote::ContentLengthReliable(true));
        if h3 {
            assert(r@[1] == OriginNote::Protocol(ProtocolFamily::Http3));
        }
    }
}

/// The intervals that a download ended with are kept, with what they are at
/// least.
pub proof fn law_intervals_are_kept(m: &mut SchedulerMetrics, heartbeat: u64, refill: u64)
    requires
        call_ensures(close_metrics, (m, heartbeat, refill), ()),
    ensures
        heartbeat >= 500 ==> final(m).adaptive_heartbeat_ms_final == heartbeat,
        heartbeat < 500 ==> final(m).adaptive_heartbeat_ms_final == 500,
        refill >= 10 ==> final(m).adaptive_refill_interval_ms_final == refill,
        refill < 10 ==> final(m).adaptive_refill_interval_ms_final == 10,
        final(m).adaptive_min_steal_bytes_final == old(m).adaptive_min_steal_bytes_final,
        final(m).http_requests == old(m).http_requests,
{
}

/// Connections are handed out as long as there are any, and not one more than
/// was asked for.
pub proof fn law_connections_are_handed_out(e: &mut DownloadEngine, n: usize, granted: usize)
    requires
        call_ensures(DownloadEngine::request_connections, (e, n), granted),
    ensures
        granted <= n,
        granted + final(e).connection_budget == old(e).connection_budget,
        granted < n ==> final(e).connection_budget == 0,
        final(e).effective_connection_budget == old(e).effective_connection_budget,
        final(e).configured_connection_budget == old(e).configured_connection_budget,
        final(e).global_bandwidth_limit == old(e).global_bandwidth_limit,
{
}

/// A download that does not halt waits for its first connection and goes on
/// with as many as there are; one that halts does not wait.
pub proof fn law_first_connections_are_waited_for(
    e: &mut DownloadEngine,
    desired: usize,
    halted: bool,
    held: Option<usize>,
)
    requires
        call_ensures(DownloadEngine::gather_connections, (e, desired, halted), held),
    ensures
        held is None <==> !halted && old(e).connection_budget == 0,
        held is None ==> final(e).connection_budget == old(e).connection_budget,
        held matches Some(n) ==> {
            &&& n + final(e).connection_budget == old(e).connection_budget
            &&& n <= desired || n == 1
            &&& !halted ==> n >= 1
            &&& halted ==> n <= desired
            &&& n < desired ==> final(e).connection_budget == 0
        },
{
}

/// One connection goes out or comes back at a time, and never more come back
/// than may be open.
pub proof fn law_connections_come_back(a: &mut DownloadEngine, granted: bool, b: &mut DownloadEngine)
    requires
        call_ensures(DownloadEngine::request_connection, (a,), granted),
        call_ensures(DownloadEngine::release_connection, (b,), ()),
    ensures
        granted <==> old(a).connection_budget > 0,
        granted ==> final(a).connection_budget + 1 == old(a).connection_budget,
        !granted ==> final(a).connection_budget == 0,
        final(a).effective_connection_budget == old(a).effective_connection_budget,
        old(b).connection_budget < old(b).effective_connection_budget ==> final(b).connection_budget == old(b).connection_budget + 1,
        old(b).connection_budget >= old(b).effective_connection_budget ==> final(b).connection_budget == old(b).effective_connection_budget,
        final(b).effective_connection_budget == old(b).effective_connection_budget,
{
}

/// What is remembered at the end of a download: the windows only where HTTP/2
/// prevailed, the protocol unless HTTP/3 is known, how connections were used
/// again always, and the session only where no page stood in the way.
pub proof fn law_endings_are_remembered(
    m: &SchedulerMetrics,
    last: ProtocolFamily,
    hint: Option<ProtocolFamily>,
    of: Measured,
    blocked: bool,
    ctx: &Option<RequestContext>,
    r: Vec<OriginNote>,
    prevailing: ProtocolFamily,
    tuning: ClientTuning,
)
    requires
        1 <= m.max_active_connections_observed <= usize::MAX,
        call_ensures(closing_notes, (m, last, hint, of, blocked, ctx), r),
        call_ensures(dominant_protocol_from_metrics, (m, last), prevailing),
        call_ensures(
            learn_http2_client_tuning,
            (of.max_connections, m.max_active_connections_observed as usize, of.bdp_bytes),
            tuning,
        ),
    ensures
        r@.contains(
            OriginNote::ReuseMetrics {
                reuse_rate_bits: of.reuse_rate_bits,
                handshake_ms_bits: of.handshake_ms_bits,
            },
        ),
        prevailing == ProtocolFamily::Http2 && m.http2_requests > 0 <==> r@.contains(OriginNote::H2Tuning(tuning)),
        hint == Some(ProtocolFamily::Http3) ==> forall|i: int|
            0 <= i < r@.len() ==> !(#[trigger] r@[i] is Protocol),
        hint != Some(ProtocolFamily::Http3) ==> r@.contains(OriginNote::Protocol(prevailing)),
        blocked || ctx is None ==> forall|i: int|
            0 <= i < r@.len() ==> !(#[trigger] r@[i] is SessionRequirement),
        !blocked && (ctx matches Some(c) && c@.auth is Some) ==> r@.contains(
            OriginNote::SessionRequirement(SessionRequirementField::Auth, true),
        ),
        !blocked && (ctx matches Some(c) && c@.referer is Some) ==> r@.contains(
            OriginNote::SessionRequirement(SessionRequirementField::Referer, true),
        ),
        !blocked && (ctx matches Some(c) && (c@.cookies matches Some(k) && k.len() > 0)) ==> r@.contains(
            OriginNote::SessionRequirement(SessionRequirementField::Cookies, true),
        ),
{
    let windows = prevailing == ProtocolFamily::Http2 && m.http2_requests > 0;
    let a: int = if windows {
        1
    } else {
        0
    };
    let b: int = if hint == Some(ProtocolFamily::Http3) {
        a
    } else {
        a + 1
    };
    if windows {
        assert(r@[0] == OriginNote::H2Tuning(tuning));
    }
    if hint != Some(ProtocolFamily::Http3) {
        assert(r@[a] == OriginNote::Protocol(prevailing));
    }
    assert(r@[b] == (OriginNote::ReuseMetrics {
        reuse_rate_bits: of.reuse_rate_bits,
        handshake_ms_bits: of.handshake_ms_bits,
    }));
    if !blocked && ctx is Some {
        let c = (ctx->0)@;
        let x: int = if c.cookies matches Some(k) && k.len() > 0 {
            1
        } else {
            0
        };
        let y: int = if c.auth is Some {
            x + 1
        } else {
            x
        };
        if x == 1 {
            assert(r@[b + 1] == OriginNote::SessionRequirement(SessionRequirementField::Cookies, true));
        }
        if c.auth is Some {
            assert(r@[b + 1 + x] == OriginNote::SessionRequirement(SessionRequirementField::Auth, true));
        }
        if c.referer is Some {
            assert(r@[b + 1 + y] == OriginNote::SessionRequirement(SessionRequirementField::Referer, true));
        }
    }
}

/// A connection over HTTP/3 sends for what is missing of the range in hand, up
/// to its last byte; it ends when the download halts, and asks for work when it
/// has none; once its range is fetched it marks it as finished.
pub proof fn law_http3_asks_for_what_is_missing(
    w: &mut H3Worker,
    c: &mut Coordinator,
    halted: bool,
    step: H3Step,
)
    requires
        old(w).wf(old(c)@),
        call_ensures(H3Worker::next_step, (w, c, halted), step),
    ensures
        step == H3Step::Stop <==> halted,
        step == H3Step::AskForWork <==> !halted && old(w).current is None,
        step == H3Step::Again <==> !halted && old(w).current is Some && old(w).local_cursor >= old(w).max_end,
        step is Send <==> !halted && old(w).current is Some && old(w).local_cursor < old(w).max_end,
        step matches H3Step::Send { range, first, last } ==> {
            &&& old(w).current == Some(range)
            &&& first == old(w).local_cursor
            &&& last + 1 == old(w).max_end
            &&& final(c)@.ranges == old(c)@.ranges
            &&& ticked(old(c)@.metrics.http_requests, final(c)@.metrics.http_requests)
        },
        step == H3Step::Again ==> final(w).current is None,
        step != H3Step::Again ==> final(w).current == old(w).current,
        step == H3Step::Stop || step == H3Step::AskForWork ==> final(c)@ == old(c)@,
        final(w).local_cursor == old(w).local_cursor,
        final(w).max_end == old(w).max_end,
        final(w).connection_id == old(w).connection_id,
        final(w).has_file == old(w).has_file,
{
}

/// A connection over HTTP/3 takes a range up where it was left, and a request
/// begins there; a dry run writes nothing, and nor does a connection that
/// broke.
pub proof fn law_http3_goes_on_at_the_cursor(
    w: &mut H3Worker,
    c: &Coordinator,
    work: Option<usize>,
    go_on: bool,
    v: &H3Worker,
    a: H3Attempt,
    b: &mut H3Worker,
    id: u32,
    dry: bool,
    fresh: H3Worker,
)
    requires
        call_ensures(H3Worker::work_received, (w, c, work), go_on),
        call_ensures(H3Worker::begin, (v,), a),
        call_ensures(H3Worker::request_broke, (b,), ()),
        call_ensures(H3Worker::new, (id, dry), fresh),
    ensures
        go_on <==> work is Some,
        work is None ==> *final(w) == *old(w),
        work matches Some(i) ==> {
            &&& final(w).current == Some(i)
            &&& final(w).local_cursor == c.dl_ranges@[i as int].cursor
            &&& final(w).max_end == c.dl_ranges@[i as int].end
            &&& final(w).connection_id == old(w).connection_id
            &&& final(w).has_file == old(w).has_file
        },
        a.cursor == v.local_cursor,
        a.received == 0,
        a.first_byte_ms is None,
        !final(b).has_file,
        final(b).current == old(b).current,
        final(b).local_cursor == old(b).local_cursor,
        final(b).max_end == old(b).max_end,
        fresh.connection_id == id,
        fresh.current is None,
        fresh.has_file <==> !dry,
{
}

/// A response over HTTP/3 is the file or a refusal by its status, and the
/// connection goes on after the last byte that arrived.
pub proof fn law_http3_answers_are_judged(
    w: &mut H3Worker,
    c: &mut Coordinator,
    a: H3Attempt,
    status: u16,
    elapsed: u64,
    r: H3Outcome,
    ok: bool,
)
    requires
        call_ensures(H3Worker::request_ended, (w, c, a, status, elapsed), r),
        call_ensures(h3_accepts, (status,), ok),
    ensures
        ok <==> status == 200 || status == 206,
        r is Accepted <==> ok,
        r == (H3Outcome::Refused { rate_limited: true }) <==> status == 429,
        r matches H3Outcome::Accepted(ms) ==> ms == match a.first_byte_ms {
            Some(first) => first,
            None => elapsed,
        },
        final(w).local_cursor == a.cursor,
        final(w).current == old(w).current,
        final(w).max_end == old(w).max_end,
        final(w).has_file == old(w).has_file,
        final(c)@.ranges == old(c)@.ranges,
        ticked(old(c)@.metrics.http3_requests, final(c)@.metrics.http3_requests),
        !ok || a.received == 0 ==> final(c)@.metrics.http_stream_ms == old(c)@.metrics.http_stream_ms,
        ok && a.received > 0 && (a.first_byte_ms matches Some(first) && first <= elapsed) && old(c)@.metrics.http_stream_ms + elapsed <= u64::MAX ==> final(c)@.metrics.http_stream_ms == old(c)@.metrics.http_stream_ms + elapsed - a.first_byte_ms->0,
        old(c)@.metrics.http_setup_ms + elapsed <= u64::MAX && a.first_byte_ms is None
            ==> final(c)@.metrics.http_setup_ms == old(c)@.metrics.http_setup_ms + elapsed,
{
}

/// Bytes over HTTP/3 belong one after the other; each chunk counts once, and an
/// empty one not at all; the first byte is timed once.
pub proof fn law_http3_bytes_are_in_order(
    a: &mut H3Attempt,
    x: &mut WorkerControl,
    d: &mut u64,
    n: u64,
    first: Option<u64>,
    b: &mut H3Attempt,
    y: &mut WorkerControl,
    e: &mut u64,
    m: u64,
    second: Option<u64>,
    t: &mut H3Attempt,
    elapsed: u64,
    metrics: &mut SchedulerMetrics,
)
    requires
        call_ensures(H3Attempt::take_chunk, (a, x, d, n), first),
        *old(b) == *final(a),
        call_ensures(H3Attempt::take_chunk, (b, y, e, m), second),
        call_ensures(H3Attempt::note_first_byte, (t, elapsed, metrics), ()),
    ensures
        first is Some <==> n > 0,
        n > 0 ==> first == Some(old(a).cursor),
        n > 0 && m > 0 && old(a).cursor + n <= u64::MAX ==> second == Some((old(a).cursor + n) as u64),
        old(a).received + n <= u64::MAX ==> final(a).received == old(a).received + n,
        old(a).cursor + n <= u64::MAX ==> final(a).cursor == old(a).cursor + n,
        *old(d) + n <= u64::MAX ==> *final(d) == *old(d) + n,
        old(x).transferred_bytes + n <= u64::MAX ==> final(x).transferred_bytes == old(x).transferred_bytes + n,
        final(a).first_byte_ms == old(a).first_byte_ms,
        old(t).first_byte_ms is Some ==> final(t).first_byte_ms == old(t).first_byte_ms && final(metrics).http_ttfb_ms == old(metrics).http_ttfb_ms,
        old(t).first_byte_ms is None ==> final(t).first_byte_ms == Some(elapsed),
        old(t).first_byte_ms is None && old(metrics).http_ttfb_ms + elapsed <= u64::MAX ==> final(metrics).http_ttfb_ms == old(metrics).http_ttfb_ms + elapsed,
        final(t).cursor == old(t).cursor,
        final(t).received == old(t).received,
{
}

} // verus!
