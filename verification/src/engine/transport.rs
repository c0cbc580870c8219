//! What is known of the protocols that a download is carried by.

use vstd::prelude::*;
use crate::engine::metrics::SchedulerMetrics;
use crate::engine::types::{ProtocolFamily, ScalerAction};
use crate::engine::coordinator::STORAGE_BLOCK_SIZE;
use crate::text::{owned, same};
use crate::units::{clamp_int, max_int, max_u64, max_usize, min_int, saturated, MB};
use crate::web_url::{extract_origin, join_url, joined_url, opt_text, origin_of, url_parts};

verus! {

pub const LIVE_PREFETCH_HANDSHAKE_MS: u64 = 700;

pub const MIN_REUSED_RTT_SAMPLES_FOR_GROWTH_SHIELD: u64 = 2;

/// How often a request is redirected at most.
pub const MAX_REDIRECTS: u32 = 8;

/// Where the windows of an HTTP/2 client come from.
#[derive(Debug, Clone, Copy, PartialEq, Eq, Structural)]
pub enum H2TuningSource {
    Default,
    LearnedOrigin,
    OriginMemoryHint,
}

impl H2TuningSource {
    pub fn as_str(self) -> (r: &'static str)
        ensures
            r@ == match self {
                H2TuningSource::Default => "default"@,
                H2TuningSource::LearnedOrigin => "learned-origin"@,
                H2TuningSource::OriginMemoryHint => "origin-memory-hint"@,
            },
    {
        match self {
            H2TuningSource::Default => "default",
            H2TuningSource::LearnedOrigin => "learned-origin",
            H2TuningSource::OriginMemoryHint => "origin-memory-hint",
        }
    }
}

/// The windows of an HTTP/2 client.
#[derive(Debug, Clone, Copy, PartialEq, Eq, Structural)]
pub struct ClientTuning {
    pub expected_concurrency: usize,
    pub http2_stream_window_bytes: u32,
    pub http2_connection_window_bytes: u32,
    pub http2_max_send_buffer_bytes: usize,
    pub source: H2TuningSource,
}

/// `n` reduced to 32 bits.
pub open spec fn low32(n: int) -> int {
    n % 0x1_0000_0000
}

/// `a * b`, cut off at the largest `u32`.
pub open spec fn product32(a: int, b: int) -> int {
    min_int(a * b, u32::MAX as int)
}

fn saturating_mul_u32(a: u32, b: u32) -> (r: u32)
    ensures
        r == product32(a as int, b as int),
{
    match a.checked_mul(b) {
        Some(v) => v,
        None => u32::MAX,
    }
}

fn clamp_u32(value: u32, low: u32, high: u32) -> (r: u32)
    requires
        low <= high,
    ensures
        r == clamp_int(value as int, low as int, high as int),
{
    if value < low {
        low
    } else if value > high {
        high
    } else {
        value
    }
}

fn clamp_usize(value: usize, low: usize, high: usize) -> (r: usize)
    requires
        low <= high,
    ensures
        r == clamp_int(value as int, low as int, high as int),
{
    if value < low {
        low
    } else if value > high {
        high
    } else {
        value
    }
}

fn saturating_mul_usize(a: usize, b: usize) -> (r: usize)
    ensures
        r == min_int(a * b, usize::MAX as int),
{
    match a.checked_mul(b) {
        Some(v) => v,
        None => usize::MAX,
    }
}

fn truncate_u32(n: usize) -> (r: u32)
    ensures
        r == low32(n as int),
{
    let wide: u64 = n as u64;
    assert(#[verifier::truncate] (wide as u32) == wide % 0x1_0000_0000) by (bit_vector);
    #[verifier::truncate]
    (wide as u32)
}

/// The windows for `concurrency` requests at a time, before anything is known
/// of the server: one megabyte for each request within 4 to 16 megabytes for a
/// stream, all of them within 16 to 64 for the connection, and half a megabyte
/// for each within 2 to 8 for sending.
pub open spec fn default_tuning(expected_concurrency: usize) -> ClientTuning {
    let n = max_int(expected_concurrency as int, 1);
    let stream = clamp_int(product32(low32(n), MB as int), 4 * MB, 16 * MB);
    ClientTuning {
        expected_concurrency: n as usize,
        http2_stream_window_bytes: stream as u32,
        http2_connection_window_bytes: clamp_int(product32(stream, low32(n)), 16 * MB, 64 * MB) as u32,
        http2_max_send_buffer_bytes: clamp_int(
            min_int(n * 524288, usize::MAX as int),
            2 * MB,
            8 * MB,
        ) as usize,
        source: H2TuningSource::Default,
    }
}

pub fn compute_http2_client_tuning(expected_concurrency: usize) -> (r: ClientTuning)
    ensures
        r == default_tuning(expected_concurrency),
{
    let concurrency: usize = max_usize(expected_concurrency, 1);
    let lanes: u32 = truncate_u32(concurrency);
    let stream: u32 = clamp_u32(saturating_mul_u32(lanes, 1048576), 4194304, 16777216);
    let connection: u32 = clamp_u32(saturating_mul_u32(stream, lanes), 16777216, 67108864);
    let send: usize = clamp_usize(saturating_mul_usize(concurrency, 524288), 2097152, 8388608);
    ClientTuning {
        expected_concurrency: concurrency,
        http2_stream_window_bytes: stream,
        http2_connection_window_bytes: connection,
        http2_max_send_buffer_bytes: send,
        source: H2TuningSource::Default,
    }
}

/// The windows that follow from a bandwidth-delay product of `bdp_bytes` per
/// request.
pub open spec fn learned_tuning(expected: usize, observed: usize, bdp_bytes: u32) -> ClientTuning {
    let n = max_int(expected as int, max_int(observed as int, 1));
    let stream = clamp_int(product32(bdp_bytes as int, 4), MB as int, 16 * MB);
    ClientTuning {
        expected_concurrency: n as usize,
        http2_stream_window_bytes: stream as u32,
        http2_connection_window_bytes: clamp_int(product32(stream, low32(n)), 16 * MB, 64 * MB) as u32,
        http2_max_send_buffer_bytes: clamp_int(
            min_int(stream * n, usize::MAX as int) / 2,
            2 * MB,
            8 * MB,
        ) as usize,
        source: H2TuningSource::LearnedOrigin,
    }
}

pub fn learn_http2_client_tuning(
    expected_concurrency: usize,
    max_active_connections_observed: usize,
    bdp_bytes: u32,
) -> (r: ClientTuning)
    ensures
        r == learned_tuning(expected_concurrency, max_active_connections_observed, bdp_bytes),
{
    let observed: usize = max_usize(max_active_connections_observed, 1);
    let concurrency: usize = max_usize(expected_concurrency, observed);
    let stream: u32 = clamp_u32(saturating_mul_u32(bdp_bytes, 4), 1048576, 16777216);
    let connection: u32 = clamp_u32(saturating_mul_u32(stream, truncate_u32(concurrency)), 16777216, 67108864);
    let send: usize = clamp_usize(saturating_mul_usize(stream as usize, concurrency) / 2, 2097152, 8388608);
    ClientTuning {
        expected_concurrency: concurrency,
        http2_stream_window_bytes: stream,
        http2_connection_window_bytes: connection,
        http2_max_send_buffer_bytes: send,
        source: H2TuningSource::LearnedOrigin,
    }
}

/// More requests at a time never get smaller windows.
pub proof fn law_tuning_grows(a: usize, b: usize)
    requires
        a <= b <= u32::MAX,
    ensures
        default_tuning(a).http2_stream_window_bytes <= default_tuning(b).http2_stream_window_bytes,
        default_tuning(a).http2_connection_window_bytes <= default_tuning(b).http2_connection_window_bytes,
        default_tuning(a).http2_max_send_buffer_bytes <= default_tuning(b).http2_max_send_buffer_bytes,
{
    let x = max_int(a as int, 1);
    let y = max_int(b as int, 1);
    let s = clamp_int(product32(x, MB as int), 4 * MB, 16 * MB);
    let t = clamp_int(product32(y, MB as int), 4 * MB, 16 * MB);
    assert(s * x <= t * y) by (nonlinear_arith)
        requires
            0 <= s <= t,
            0 <= x <= y,
    ;
}

/// The HTTP version of a response.
#[derive(Debug, Clone, Copy, PartialEq, Eq, Structural)]
pub enum HttpVersion {
    Http09,
    Http10,
    Http11,
    Http2,
    Http3,
    Unknown,
}

pub fn http_version_label(version: HttpVersion) -> (r: &'static str)
    ensures
        r@ == match version {
            HttpVersion::Http09 => "HTTP/0.9"@,
            HttpVersion::Http10 => "HTTP/1.0"@,
            HttpVersion::Http11 => "HTTP/1.1"@,
            HttpVersion::Http2 => "HTTP/2"@,
            HttpVersion::Http3 => "HTTP/3"@,
            HttpVersion::Unknown => "HTTP/?"@,
        },
{
    match version {
        HttpVersion::Http09 => "HTTP/0.9",
        HttpVersion::Http10 => "HTTP/1.0",
        HttpVersion::Http11 => "HTTP/1.1",
        HttpVersion::Http2 => "HTTP/2",
        HttpVersion::Http3 => "HTTP/3",
        HttpVersion::Unknown => "HTTP/?",
    }
}

pub fn protocol_family_for_version(version: HttpVersion) -> (r: ProtocolFamily)
    ensures
        r == match version {
            HttpVersion::Http2 => ProtocolFamily::Http2,
            HttpVersion::Http3 => ProtocolFamily::Http3,
            HttpVersion::Unknown => ProtocolFamily::Other,
            _ => ProtocolFamily::Http1,
        },
{
    match version {
        HttpVersion::Http09 => ProtocolFamily::Http1,
        HttpVersion::Http10 => ProtocolFamily::Http1,
        HttpVersion::Http11 => ProtocolFamily::Http1,
        HttpVersion::Http2 => ProtocolFamily::Http2,
        HttpVersion::Http3 => ProtocolFamily::Http3,
        HttpVersion::Unknown => ProtocolFamily::Other,
    }
}

/// The protocol that carried most requests; `fallback` where none was
/// carried by a known one.
pub open spec fn dominant(m: SchedulerMetrics, fallback: ProtocolFamily) -> ProtocolFamily {
    if m.http1_requests == 0 && m.http2_requests == 0 && m.http3_requests == 0 {
        fallback
    } else if m.http3_requests > m.http2_requests && m.http3_requests > m.http1_requests {
        ProtocolFamily::Http3
    } else if m.http2_requests > m.http1_requests {
        ProtocolFamily::Http2
    } else {
        ProtocolFamily::Http1
    }
}

pub fn dominant_protocol_from_metrics(metrics: &SchedulerMetrics, fallback: ProtocolFamily) -> (r: ProtocolFamily)
    ensures
        r == dominant(*metrics, fallback),
{
    let http1: u64 = metrics.http1_requests;
    let http2: u64 = metrics.http2_requests;
    let http3: u64 = metrics.http3_requests;
    if http1 == 0 && http2 == 0 && http3 == 0 {
        fallback
    } else if http3 > http2 && http3 > http1 {
        ProtocolFamily::Http3
    } else if http2 > http1 {
        ProtocolFamily::Http2
    } else {
        ProtocolFamily::Http1
    }
}

/// `n + 1`, cut off at the largest `u64`.
pub open spec fn counted(n: u64) -> u64 {
    saturated(n + 1) as u64
}

/// Counts a request by its protocol.
pub fn record_protocol_request_metric(metrics: &mut SchedulerMetrics, protocol: ProtocolFamily)
    ensures
        *final(metrics) == match protocol {
            ProtocolFamily::Http1 => SchedulerMetrics {
                http1_requests: counted(old(metrics).http1_requests),
                ..*old(metrics)
            },
            ProtocolFamily::Http2 => SchedulerMetrics {
                http2_requests: counted(old(metrics).http2_requests),
                ..*old(metrics)
            },
            ProtocolFamily::Http3 => SchedulerMetrics {
                http3_requests: counted(old(metrics).http3_requests),
                ..*old(metrics)
            },
            ProtocolFamily::Other => SchedulerMetrics {
                http_other_requests: counted(old(metrics).http_other_requests),
                ..*old(metrics)
            },
        },
{
    match protocol {
        ProtocolFamily::Http1 => SchedulerMetrics::add(&mut metrics.http1_requests, 1),
        ProtocolFamily::Http2 => SchedulerMetrics::add(&mut metrics.http2_requests, 1),
        ProtocolFamily::Http3 => SchedulerMetrics::add(&mut metrics.http3_requests, 1),
        ProtocolFamily::Other => SchedulerMetrics::add(&mut metrics.http_other_requests, 1),
    }
}

/// The counters after a change of the number of connections.
pub open spec fn scale_counted(
    m: SchedulerMetrics,
    protocol: ProtocolFamily,
    action: ScalerAction,
    is_stream_add: bool,
) -> SchedulerMetrics {
    match (protocol, action) {
        (ProtocolFamily::Http1, ScalerAction::Grow) => SchedulerMetrics {
            http1_scale_adds: counted(m.http1_scale_adds),
            ..m
        },
        (ProtocolFamily::Http1, ScalerAction::Shrink) => SchedulerMetrics {
            http1_scale_drops: counted(m.http1_scale_drops),
            ..m
        },
        (ProtocolFamily::Http2, ScalerAction::Grow) => if is_stream_add {
            SchedulerMetrics {
                http2_stream_adds: counted(m.http2_stream_adds),
                http2_scale_adds: counted(m.http2_scale_adds),
                ..m
            }
        } else {
            SchedulerMetrics {
                http2_conn_adds: counted(m.http2_conn_adds),
                http2_scale_adds: counted(m.http2_scale_adds),
                ..m
            }
        },
        (ProtocolFamily::Http2, ScalerAction::Shrink) => SchedulerMetrics {
            http2_scale_drops: counted(m.http2_scale_drops),
            ..m
        },
        (ProtocolFamily::Http3, ScalerAction::Grow) => SchedulerMetrics {
            http3_scale_adds: counted(m.http3_scale_adds),
            ..m
        },
        (ProtocolFamily::Http3, ScalerAction::Shrink) => SchedulerMetrics {
            http3_scale_drops: counted(m.http3_scale_drops),
            ..m
        },
        _ => m,
    }
}

/// Counts a change of the number of connections.
pub fn record_protocol_scale_metric(
    metrics: &mut SchedulerMetrics,
    protocol: ProtocolFamily,
    action: ScalerAction,
    is_stream_add: bool,
)
    ensures
        *final(metrics) == scale_counted(*old(metrics), protocol, action, is_stream_add),
{
    match (protocol, action) {
        (ProtocolFamily::Http1, ScalerAction::Grow) => SchedulerMetrics::add(&mut metrics.http1_scale_adds, 1),
        (ProtocolFamily::Http1, ScalerAction::Shrink) => SchedulerMetrics::add(&mut metrics.http1_scale_drops, 1),
        (ProtocolFamily::Http2, ScalerAction::Grow) => {
            if is_stream_add {
                SchedulerMetrics::add(&mut metrics.http2_stream_adds, 1);
            } else {
                SchedulerMetrics::add(&mut metrics.http2_conn_adds, 1);
            }
            SchedulerMetrics::add(&mut metrics.http2_scale_adds, 1)
        },
        (ProtocolFamily::Http2, ScalerAction::Shrink) => SchedulerMetrics::add(&mut metrics.http2_scale_drops, 1),
        (ProtocolFamily::Http3, ScalerAction::Grow) => SchedulerMetrics::add(&mut metrics.http3_scale_adds, 1),
        (ProtocolFamily::Http3, ScalerAction::Shrink) => SchedulerMetrics::add(&mut metrics.http3_scale_drops, 1),
        _ => {},
    }
}

/// Notes how many connections were active.
pub fn record_max_active_connections(metrics: &mut SchedulerMetrics, n_active: usize)
    ensures
        *final(metrics) == (SchedulerMetrics {
            max_active_connections_observed: max_int(
                old(metrics).max_active_connections_observed as int,
                n_active as int,
            ) as u64,
            ..*old(metrics)
        }),
{
    SchedulerMetrics::update_max(&mut metrics.max_active_connections_observed, n_active as u64);
}

/// How long before the end of a range the next one is asked for.
pub fn protocol_prefetch_handshake_ms(protocol: ProtocolFamily) -> (r: u64)
    ensures
        r == match protocol {
            ProtocolFamily::Http2 => 250u64,
            ProtocolFamily::Http3 => 200u64,
            _ => LIVE_PREFETCH_HANDSHAKE_MS,
        },
{
    match protocol {
        ProtocolFamily::Http2 => 250,
        ProtocolFamily::Http3 => 200,
        ProtocolFamily::Http1 => LIVE_PREFETCH_HANDSHAKE_MS,
        ProtocolFamily::Other => LIVE_PREFETCH_HANDSHAKE_MS,
    }
}

/// How many round trips must have been measured before a slow first request
/// of a new connection is held against it.
pub fn protocol_growth_shield_min_samples(protocol: ProtocolFamily) -> (r: u64)
    ensures
        r == growth_shield_samples(protocol),
{
    match protocol {
        ProtocolFamily::Http1 => 1,
        ProtocolFamily::Http2 => MIN_REUSED_RTT_SAMPLES_FOR_GROWTH_SHIELD,
        ProtocolFamily::Http3 => 0,
        ProtocolFamily::Other => MIN_REUSED_RTT_SAMPLES_FOR_GROWTH_SHIELD,
    }
}

pub open spec fn growth_shield_samples(protocol: ProtocolFamily) -> u64 {
    match protocol {
        ProtocolFamily::Http1 => 1,
        ProtocolFamily::Http3 => 0,
        _ => MIN_REUSED_RTT_SAMPLES_FOR_GROWTH_SHIELD,
    }
}

/// The least that is taken over from another connection: `scaled` bytes, but
/// no less than one block, or two with HTTP/1 or an unknown protocol.
pub fn steal_floor_bytes(protocol: ProtocolFamily, scaled: u64) -> (r: u64)
    ensures
        r == max_int(
            scaled as int,
            match protocol {
                ProtocolFamily::Http2 => STORAGE_BLOCK_SIZE as int,
                ProtocolFamily::Http3 => STORAGE_BLOCK_SIZE as int,
                _ => 2 * STORAGE_BLOCK_SIZE,
            },
        ),
{
    let floor: u64 = match protocol {
        ProtocolFamily::Http2 => STORAGE_BLOCK_SIZE,
        ProtocolFamily::Http3 => STORAGE_BLOCK_SIZE,
        _ => 2 * STORAGE_BLOCK_SIZE,
    };
    max_u64(scaled, floor)
}

/// The URL that a redirect from `base` to `location` leads to.
pub fn resolve_redirect_url(base: &str, location: &str) -> (r: Option<String>)
    ensures
        opt_text(r) == joined_url(base@, location@),
{
    join_url(base, location)
}

/// Why a request cannot be followed any further.
#[derive(Debug, Clone, Copy, PartialEq, Eq, Structural)]
pub enum RedirectError {
    MissingLocation,
    InvalidLocation,
    TooManyRedirects,
}

/// What a response calls for.
#[derive(Debug, Clone, Copy, PartialEq, Eq, Structural)]
pub enum RedirectStep {
    /// It is the answer.
    Answer,
    /// The request is to be sent again, to the new URL.
    Follow,
    /// It cannot be followed.
    Stop(RedirectError),
}

/// A request that follows redirects.
#[derive(Debug)]
pub struct RedirectFollower {
    /// Where the request goes.
    pub current_url: String,
    /// How many redirects were followed.
    pub followed: u32,
    /// Whether the request left the origin that it was meant for.
    pub left_origin: bool,
}

/// The status of a redirect.
pub open spec fn is_redirection(status: u16) -> bool {
    300 <= status < 400
}

impl RedirectFollower {
    pub fn new(url: &str) -> (r: RedirectFollower)
        ensures
            r.current_url@ == url@,
            r.followed == 0,
            !r.left_origin,
    {
        RedirectFollower { current_url: owned(url), followed: 0, left_origin: false }
    }

    /// What a response with `status` and `location` calls for, where `target`
    /// is the URL that the location leads to.
    pub fn follow(&mut self, status: u16, location: &Option<String>, target: Option<String>) -> (step: RedirectStep)
        requires
            old(self).followed <= MAX_REDIRECTS,
        ensures
            final(self).followed <= MAX_REDIRECTS,
            step == if !is_redirection(status) {
                RedirectStep::Answer
            } else if location is None {
                RedirectStep::Stop(RedirectError::MissingLocation)
            } else if target is None {
                RedirectStep::Stop(RedirectError::InvalidLocation)
            } else if old(self).followed == MAX_REDIRECTS {
                RedirectStep::Stop(RedirectError::TooManyRedirects)
            } else {
                RedirectStep::Follow
            },
            step == RedirectStep::Follow ==> {
                &&& target matches Some(t) && final(self).current_url@ == t@
                &&& final(self).followed == old(self).followed + 1
                &&& final(self).left_origin == (old(self).left_origin || origin_of(url_parts(old(self).current_url@))
                    != origin_of(url_parts(target->0@)))
            },
            step != RedirectStep::Follow ==> *final(self) == *old(self),
    {
        if !(300 <= status && status < 400) {
            return RedirectStep::Answer;
        }
        if location.is_none() {
            return RedirectStep::Stop(RedirectError::MissingLocation);
        }
        match target {
            Some(t) => {
                if self.followed == MAX_REDIRECTS {
                    return RedirectStep::Stop(RedirectError::TooManyRedirects);
                }
                let here: String = extract_origin(self.current_url.as_str());
                let there: String = extract_origin(t.as_str());
                if !same(here.as_str(), there.as_str()) {
                    self.left_origin = true;
                }
                self.current_url = t;
                self.followed = self.followed + 1;
                RedirectStep::Follow
            },
            None => RedirectStep::Stop(RedirectError::InvalidLocation),
        }
    }

    /// What a response with `status` and `location` calls for.
    pub fn step(&mut self, status: u16, location: &Option<String>) -> (step: RedirectStep)
        requires
            old(self).followed <= MAX_REDIRECTS,
        ensures
            final(self).followed <= MAX_REDIRECTS,
            ({
                let target = match opt_text(*location) {
                    Some(l) => joined_url(old(self).current_url@, l),
                    None => None,
                };
                &&& step == if !is_redirection(status) {
                    RedirectStep::Answer
                } else if location is None {
                    RedirectStep::Stop(RedirectError::MissingLocation)
                } else if target is None {
                    RedirectStep::Stop(RedirectError::InvalidLocation)
                } else if old(self).followed == MAX_REDIRECTS {
                    RedirectStep::Stop(RedirectError::TooManyRedirects)
                } else {
                    RedirectStep::Follow
                }
                &&& step == RedirectStep::Follow ==> {
                    &&& target == Some(final(self).current_url@)
                    &&& final(self).followed == old(self).followed + 1
                    &&& final(self).left_origin == (old(self).left_origin || origin_of(
                        url_parts(old(self).current_url@),
                    ) != origin_of(url_parts(final(self).current_url@)))
                }
                &&& step != RedirectStep::Follow ==> *final(self) == *old(self)
            }),
    {
        let target: Option<String> = match location {
            Some(l) => resolve_redirect_url(self.current_url.as_str(), l.as_str()),
            None => None,
        };
        self.follow(status, location, target)
    }
}

} // verus!
