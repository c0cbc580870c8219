//! How one download is set up and how it ends.

use vstd::prelude::*;
use crate::engine::coordinator::STORAGE_BLOCK_SIZE;
use crate::engine::metrics::SchedulerMetrics;
use crate::engine::origin_memory::{OriginNote, SessionRequirementField};
use crate::engine::transport::{
    dominant, dominant_protocol_from_metrics, learn_http2_client_tuning, learned_tuning,
};
use crate::engine::types::{HaltMode, HttpMode, ProtocolFamily};
use crate::numerals::{parse_up_to, parsed};
use crate::request::{ContextView, RequestContext};
use crate::units::{clamp_int, max_int, max_u64, max_usize, min_int, min_usize, MB};
use crate::web_url::opt_text;

verus! {

pub const DEFAULT_BORROW_LIMIT_MB: u64 = 2;

/// How long an initial connection is waited for before it is asked for again.
pub const LEASE_RETRY_MS: u64 = 100;

/// The number of connections to start with; the default where none is given.
pub fn initial_connections(connections: usize, default_connections: usize) -> (r: usize)
    ensures
        r == if connections == 0 {
            max_int(default_connections as int, 1)
        } else {
            connections as int
        },
        r >= 1,
{
    if connections == 0 {
        max_usize(default_connections, 1)
    } else {
        connections
    }
}

/// The limit on borrowing; the default where none is given.
pub fn initial_borrow_limit_mb(borrow_limit_mb: u64) -> (r: u64)
    ensures
        r == if borrow_limit_mb == 0 {
            DEFAULT_BORROW_LIMIT_MB
        } else {
            borrow_limit_mb
        },
        r >= 1,
{
    if borrow_limit_mb == 0 {
        DEFAULT_BORROW_LIMIT_MB
    } else {
        borrow_limit_mb
    }
}

/// The least that is taken over before anything is measured: the limit on
/// borrowing, or two blocks, whichever is more.
pub fn initial_steal_floor(borrow_limit_mb: u64) -> (r: u64)
    requires
        borrow_limit_mb * MB <= u64::MAX,
    ensures
        r == max_int(max_int(borrow_limit_mb as int, 1) * MB, 2 * STORAGE_BLOCK_SIZE),
{
    max_u64(max_u64(borrow_limit_mb, 1) * MB, 2 * STORAGE_BLOCK_SIZE)
}

/// Where the size of a file is taken from.
#[derive(Debug, Clone, Copy, PartialEq, Eq, Structural)]
pub enum SizeSource {
    Known(u64),
    AskServer,
}

/// The size of the file, as far as it is known: that of the saved state, or
/// that of a dry run. Else the server is asked.
pub fn size_source(saved_total: Option<u64>, dry_run: bool, dry_run_size_mb: Option<u64>) -> (r: SizeSource)
    requires
        dry_run_size_mb matches Some(mb) ==> mb * MB <= u64::MAX,
    ensures
        r == match saved_total {
            Some(total) => SizeSource::Known(total),
            None => match dry_run_size_mb {
                Some(mb) => if dry_run {
                    SizeSource::Known((mb * MB) as u64)
                } else {
                    SizeSource::AskServer
                },
                None => SizeSource::AskServer,
            },
        },
{
    match saved_total {
        Some(total) => SizeSource::Known(total),
        None => match dry_run_size_mb {
            Some(mb) => {
                if dry_run {
                    SizeSource::Known(mb * MB)
                } else {
                    SizeSource::AskServer
                }
            },
            None => SizeSource::AskServer,
        },
    }
}

/// The size that a `Content-Length` header gives; none where it is missing,
/// is no number, or is zero.
pub open spec fn header_size(content_length: Option<Seq<char>>) -> Option<int> {
    match content_length {
        Some(t) => match parsed(t, u64::MAX as int) {
            Some(n) => if n == 0 {
                None
            } else {
                Some(n)
            },
            None => None,
        },
        None => None,
    }
}

pub fn size_from_header(content_length: &Option<String>) -> (r: Option<u64>)
    ensures
        match r {
            Some(n) => header_size(opt_text(*content_length)) == Some(n as int),
            None => header_size(opt_text(*content_length)) is None,
        },
{
    match content_length {
        Some(t) => match parse_up_to(t.as_str(), u64::MAX) {
            Some(n) => {
                if n == 0 {
                    None
                } else {
                    Some(n)
                }
            },
            None => None,
        },
        None => None,
    }
}

/// The bounds that a download scales within, and what it starts with.
#[derive(Debug, Clone, Copy, PartialEq, Eq, Structural)]
pub struct ConnectionBounds {
    pub min: usize,
    pub max: usize,
    pub initial: usize,
}

/// Brings the bounds in order: both are at least one, the lower one is at
/// most the upper one, and the start lies between them.
pub fn connection_bounds(min: usize, max: usize, connections: usize) -> (r: ConnectionBounds)
    ensures
        r.min == min_int(max_int(min as int, 1), max_int(max as int, 1)),
        r.max == max_int(max as int, r.min as int),
        r.initial == clamp_int(connections as int, r.min as int, r.max as int),
        1 <= r.min <= r.initial <= r.max,
{
    let low: usize = min_usize(max_usize(min, 1), max_usize(max, 1));
    let high: usize = max_usize(max, low);
    let initial: usize = if connections < low {
        low
    } else if connections > high {
        high
    } else {
        connections
    };
    ConnectionBounds { min: low, max: high, initial }
}

/// Whether HTTP/3 is to be tried: it was asked for, or the server is known
/// to speak it and nothing else was asked for.
pub fn should_try_h3(mode: HttpMode, hint: ProtocolFamily) -> (r: bool)
    ensures
        r == (mode == HttpMode::Http3 || (mode == HttpMode::Auto && hint == ProtocolFamily::Http3)),
{
    match mode {
        HttpMode::Http3 => true,
        HttpMode::Auto => hint == ProtocolFamily::Http3,
        _ => false,
    }
}

/// How many connections are held beyond the workers that are left.
pub fn excess_leases(held: usize, live_workers: usize) -> (r: usize)
    ensures
        r == max_int(held - live_workers, 0),
{
    held.saturating_sub(live_workers)
}

/// Whether the heartbeats of a download are over.
pub fn heartbeats_over(halted: bool, downloaded: u64, total_size: u64) -> (r: bool)
    ensures
        r == (halted || downloaded >= total_size),
{
    halted || downloaded >= total_size
}

/// Whether progress is reported no longer: before a report, a download that
/// halted short of its end; after one, a download that is complete.
pub fn reports_over(reported: bool, halted: bool, downloaded: u64, total_size: u64) -> (r: bool)
    ensures
        r == if reported {
            downloaded >= total_size
        } else {
            halted && downloaded < total_size
        },
{
    if reported {
        downloaded >= total_size
    } else {
        halted && downloaded < total_size
    }
}

/// The protocol to remember of a server: that it offers HTTP/3 is not
/// forgotten for having used another.
pub fn protocol_to_note(hint: Option<ProtocolFamily>, dominant: ProtocolFamily) -> (r: Option<ProtocolFamily>)
    ensures
        r == if hint == Some(ProtocolFamily::Http3) {
            None
        } else {
            Some(dominant)
        },
{
    match hint {
        Some(ProtocolFamily::Http3) => None,
        _ => Some(dominant),
    }
}

/// What a server was sent of a session.
pub open spec fn session_notes_of(ctx: ContextView) -> Seq<OriginNote> {
    let cookies = if ctx.cookies matches Some(c) && c.len() > 0 {
        seq![OriginNote::SessionRequirement(SessionRequirementField::Cookies, true)]
    } else {
        Seq::empty()
    };
    let auth = if ctx.auth is Some {
        seq![OriginNote::SessionRequirement(SessionRequirementField::Auth, true)]
    } else {
        Seq::empty()
    };
    let referer = if ctx.referer is Some {
        seq![OriginNote::SessionRequirement(SessionRequirementField::Referer, true)]
    } else {
        Seq::empty()
    };
    cookies + auth + referer
}

/// What to remember of the session that a download used.
pub fn session_notes(ctx: &RequestContext) -> (r: Vec<OriginNote>)
    ensures
        r@ == session_notes_of(ctx@),
{
    let mut r: Vec<OriginNote> = Vec::new();
    match &ctx.cookies {
        Some(c) => {
            assert(crate::cookies::cookie_views(c@).len() == c@.len());
            if c.len() > 0 {
                r.push(OriginNote::SessionRequirement(SessionRequirementField::Cookies, true));
            }
        },
        None => {},
    }
    if ctx.auth.is_some() {
        r.push(OriginNote::SessionRequirement(SessionRequirementField::Auth, true));
    }
    if ctx.referer.is_some() {
        r.push(OriginNote::SessionRequirement(SessionRequirementField::Referer, true));
    }
    assert(r@ =~= session_notes_of(ctx@));
    r
}

/// What a server told when it was asked for the size.
pub open spec fn size_notes_of(dry_run: bool, offers_h3: bool) -> Seq<OriginNote> {
    if dry_run {
        Seq::empty()
    } else if offers_h3 {
        seq![OriginNote::ContentLengthReliable(true), OriginNote::Protocol(ProtocolFamily::Http3)]
    } else {
        seq![OriginNote::ContentLengthReliable(true)]
    }
}

/// What to remember of a server that told the size of the file; of a dry run
/// nothing is remembered.
pub fn size_notes(dry_run: bool, offers_h3: bool) -> (r: Vec<OriginNote>)
    ensures
        r@ == size_notes_of(dry_run, offers_h3),
{
    let mut r: Vec<OriginNote> = Vec::new();
    if !dry_run {
        r.push(OriginNote::ContentLengthReliable(true));
        if offers_h3 {
            r.push(OriginNote::Protocol(ProtocolFamily::Http3));
        }
    }
    assert(r@ =~= size_notes_of(dry_run, offers_h3));
    r
}

/// What was measured of a server by the end of a download.
#[derive(Debug, Clone, Copy, PartialEq, Eq, Structural)]
pub struct Measured {
    /// How many connections the download could have had.
    pub max_connections: usize,
    /// How many bytes are on their way on one connection at a time.
    pub bdp_bytes: u32,
    pub reuse_rate_bits: u64,
    pub handshake_ms_bits: u64,
}

/// How many connections were active at a time, at least one.
pub open spec fn observed_connections(m: SchedulerMetrics) -> usize {
    max_int(m.max_active_connections_observed as int, 1) as usize
}

/// What is learned of a server where HTTP/2 prevailed.
pub open spec fn tuning_notes(m: SchedulerMetrics, prevailing: ProtocolFamily, of: Measured) -> Seq<OriginNote> {
    if prevailing == ProtocolFamily::Http2 && m.http2_requests > 0 {
        seq![OriginNote::H2Tuning(learned_tuning(of.max_connections, observed_connections(m), of.bdp_bytes))]
    } else {
        Seq::empty()
    }
}

/// Everything that is learned of a server.
pub open spec fn closing_notes_of(
    m: SchedulerMetrics,
    last_protocol: ProtocolFamily,
    hint: Option<ProtocolFamily>,
    of: Measured,
    blocked: bool,
    ctx: Option<ContextView>,
) -> Seq<OriginNote> {
    let prevailing = dominant(m, last_protocol);
    let protocol = if hint == Some(ProtocolFamily::Http3) {
        Seq::empty()
    } else {
        seq![OriginNote::Protocol(prevailing)]
    };
    let reuse = seq![
        OriginNote::ReuseMetrics {
            reuse_rate_bits: of.reuse_rate_bits,
            handshake_ms_bits: of.handshake_ms_bits,
        },
    ];
    let session = match ctx {
        Some(c) => if blocked {
            Seq::empty()
        } else {
            session_notes_of(c)
        },
        None => Seq::empty(),
    };
    tuning_notes(m, prevailing, of) + protocol + reuse + session
}

/// What to remember of a server at the end of a download: how to tune HTTP/2
/// where it prevailed, the protocol, how connections were used again, and,
/// unless a page stood in the way, what was sent of a session.
pub fn closing_notes(
    metrics: &SchedulerMetrics,
    last_protocol: ProtocolFamily,
    hint: Option<ProtocolFamily>,
    of: Measured,
    blocked: bool,
    ctx: &Option<RequestContext>,
) -> (r: Vec<OriginNote>)
    requires
        metrics.max_active_connections_observed <= usize::MAX,
    ensures
        r@ == closing_notes_of(
            *metrics,
            last_protocol,
            hint,
            of,
            blocked,
            match *ctx {
                Some(c) => Some(c@),
                None => None,
            },
        ),
{
    let prevailing: ProtocolFamily = dominant_protocol_from_metrics(metrics, last_protocol);
    let mut r: Vec<OriginNote> = Vec::new();
    if prevailing == ProtocolFamily::Http2 && metrics.http2_requests > 0 {
        let observed: usize = max_u64(metrics.max_active_connections_observed, 1) as usize;
        r.push(OriginNote::H2Tuning(learn_http2_client_tuning(of.max_connections, observed, of.bdp_bytes)));
    }
    match protocol_to_note(hint, prevailing) {
        Some(p) => r.push(OriginNote::Protocol(p)),
        None => {},
    }
    r.push(
        OriginNote::ReuseMetrics {
            reuse_rate_bits: of.reuse_rate_bits,
            handshake_ms_bits: of.handshake_ms_bits,
        },
    );
    match ctx {
        Some(c) => {
            if !blocked {
                let mut session: Vec<OriginNote> = session_notes(c);
                r.append(&mut session);
            }
        },
        None => {},
    }
    assert(r@ =~= closing_notes_of(
        *metrics,
        last_protocol,
        hint,
        of,
        blocked,
        match *ctx {
            Some(c) => Some(c@),
            None => None,
        },
    ));
    r
}

/// Keeps the intervals that a download ended with.
pub fn close_metrics(metrics: &mut SchedulerMetrics, heartbeat_ms: u64, refill_interval_ms: u64)
    ensures
        *final(metrics) == (SchedulerMetrics {
            adaptive_heartbeat_ms_final: max_int(heartbeat_ms as int, 500) as u64,
            adaptive_refill_interval_ms_final: max_int(refill_interval_ms as int, 10) as u64,
            ..*old(metrics)
        }),
{
    metrics.adaptive_heartbeat_ms_final = max_u64(heartbeat_ms, 500);
    metrics.adaptive_refill_interval_ms_final = max_u64(refill_interval_ms, 10);
}

/// How a download ended.
#[derive(Debug, Clone, Copy, PartialEq, Eq, Structural)]
pub enum TaskOutcome {
    /// A page stood in its way.
    Blocked,
    /// It is complete: its saved state is removed.
    Completed,
    /// It halted: its state is handed to the engine.
    Halted(HaltMode),
}

/// How a download ended, given whether a page stood in its way.
pub fn task_outcome(blocked: bool, downloaded: u64, total_size: u64, halt_mode: HaltMode) -> (r: TaskOutcome)
    ensures
        r == if blocked {
            TaskOutcome::Blocked
        } else if (total_size > 0 && downloaded >= total_size) || halt_mode == HaltMode::Running {
            TaskOutcome::Completed
        } else {
            TaskOutcome::Halted(halt_mode)
        },
{
    if blocked {
        return TaskOutcome::Blocked;
    }
    if total_size > 0 && downloaded >= total_size {
        return TaskOutcome::Completed;
    }
    match halt_mode {
        HaltMode::Running => TaskOutcome::Completed,
        _ => TaskOutcome::Halted(halt_mode),
    }
}

} // verus!
