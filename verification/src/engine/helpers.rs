//! Small decisions of the engine.

use vstd::prelude::*;
use crate::engine::ranges::{effective_limit, in_tail_phase, is_tail_phase_bytes};
use crate::engine::transport::protocol_prefetch_handshake_ms;
use crate::engine::types::ProtocolFamily;
use crate::text::{contains, lower, mentions, to_lower};
use crate::units::{clamp_int, max_int, max_u64, max_usize, min_int, MB};

verus! {

pub const RETRY_BASE_DELAY_MS: u64 = 250;

pub const RETRY_MAX_DELAY_MS: u64 = 2000;

/// How often in a row a range may fail.
pub const MAX_RANGE_RETRIES: u32 = 8;

pub const LIVE_PREFETCH_MIN_MB: u64 = 2;

pub const WRITE_BUFFER_MIN_BYTES: usize = 131072;

pub const WRITE_BUFFER_MEDIUM_BYTES: usize = 262144;

pub const WRITE_BUFFER_LARGE_BYTES: usize = 524288;

pub const WRITE_BUFFER_MAX_BYTES: usize = 1048576;

pub const WRITE_BUFFER_MEDIUM_SPEED_BPS: u64 = 1048576;

pub const WRITE_BUFFER_LARGE_SPEED_BPS: u64 = 3145728;

pub const WRITE_BUFFER_MAX_SPEED_BPS: u64 = 6291456;

/// How often the token buckets are refilled: the time that 256 kilobytes take
/// at the global limit, within 10 to 100 ms; every 50 ms without a limit.
pub fn compute_refill_interval_ms(global_bandwidth_limit_bps: u64) -> (r: u64)
    ensures
        r == refill_interval(global_bandwidth_limit_bps as int),
        10 <= r <= 100,
{
    if global_bandwidth_limit_bps == 0 {
        return 50;
    }
    let raw: u64 = 262144000 / global_bandwidth_limit_bps;
    if raw < 10 {
        10
    } else if raw > 100 {
        100
    } else {
        raw
    }
}

pub open spec fn refill_interval(limit: int) -> int {
    if limit == 0 {
        50
    } else {
        clamp_int(262144000int / limit, 10, 100)
    }
}

/// How many of `configured` connections may be open with `available_mb` of
/// memory available: a quarter below 256 MB, half below 512, three quarters
/// below 1024, but never less than two, or one where only one is configured.
pub open spec fn budget_for_memory(configured: int, available_mb: int) -> int {
    let least = max_int(min_int(configured, 2), 1);
    if available_mb < 256 {
        max_int(least, configured / 4)
    } else if available_mb < 512 {
        max_int(least, configured / 2)
    } else if available_mb < 1024 {
        max_int(least, min_int(configured * 3, usize::MAX as int) / 4)
    } else {
        configured
    }
}

pub fn compute_effective_connection_budget(configured_budget: usize, available_mb: u64) -> (r: usize)
    ensures
        r == budget_for_memory(configured_budget as int, available_mb as int),
{
    let least: usize = if configured_budget >= 2 {
        2
    } else {
        1
    };
    if available_mb < 256 {
        max_usize(least, configured_budget / 4)
    } else if available_mb < 512 {
        max_usize(least, configured_budget / 2)
    } else if available_mb < 1024 {
        let tripled: usize = match configured_budget.checked_mul(3) {
            Some(v) => v,
            None => usize::MAX,
        };
        max_usize(least, tripled / 4)
    } else {
        configured_budget
    }
}

/// The budget is at least one and at most what is configured, and more memory
/// never makes it smaller.
pub proof fn law_budget_follows_memory(configured: int, a: int, b: int)
    requires
        1 <= configured <= usize::MAX,
        a <= b,
        configured * 3 <= usize::MAX,
    ensures
        1 <= budget_for_memory(configured, a) <= configured,
        budget_for_memory(configured, a) <= budget_for_memory(configured, b),
{
}

/// What to do about a request that failed.
#[derive(Debug, Clone, Copy, PartialEq, Eq, Structural)]
pub enum RetryHint {
    /// Try again at once.
    Immediate,
    /// Try again after so many milliseconds.
    Backoff(u64),
    /// Give the range back, end this worker, after so many milliseconds.
    ReduceWorkers(u64),
    /// Try the rest of the range after so many milliseconds.
    ShrinkRange(u64),
    /// Give up.
    Abort,
}

/// What to do about a response with the status `status`.
pub fn classify_http_status_retry(status: u16) -> (r: RetryHint)
    ensures
        r == status_retry(status),
{
    if status == 429 {
        RetryHint::ReduceWorkers(RETRY_MAX_DELAY_MS)
    } else if status == 503 {
        RetryHint::Immediate
    } else if 500 <= status && status <= 599 {
        RetryHint::Backoff(RETRY_BASE_DELAY_MS * 2)
    } else if status == 416 {
        RetryHint::Abort
    } else {
        RetryHint::Backoff(RETRY_BASE_DELAY_MS)
    }
}

pub open spec fn status_retry(status: u16) -> RetryHint {
    if status == 429 {
        RetryHint::ReduceWorkers(2000)
    } else if status == 503 {
        RetryHint::Immediate
    } else if 500 <= status <= 599 {
        RetryHint::Backoff(500)
    } else if status == 416 {
        RetryHint::Abort
    } else {
        RetryHint::Backoff(250)
    }
}

/// What to do about an error with the message `reason`, in lower case.
pub open spec fn error_retry(reason: Seq<char>, made_progress: bool) -> RetryHint {
    if contains(reason, "tls"@) || contains(reason, "ssl"@) || contains(reason, "handshake"@) {
        RetryHint::ReduceWorkers(2000)
    } else if contains(reason, "connection reset"@) || contains(reason, "broken pipe"@) {
        if made_progress {
            RetryHint::ShrinkRange(250)
        } else {
            RetryHint::ReduceWorkers(1000)
        }
    } else if contains(reason, "timed out"@) || contains(reason, "timeout"@) {
        if made_progress {
            RetryHint::ShrinkRange(250)
        } else {
            RetryHint::Backoff(750)
        }
    } else {
        RetryHint::Backoff(250)
    }
}

pub fn classify_error_retry(reason: &str, made_progress: bool) -> (r: RetryHint)
    ensures
        r == error_retry(lower(reason@), made_progress),
{
    let lowered: String = to_lower(reason);
    let t: &str = lowered.as_str();
    if mentions(t, "tls") || mentions(t, "ssl") || mentions(t, "handshake") {
        return RetryHint::ReduceWorkers(RETRY_MAX_DELAY_MS);
    }
    if mentions(t, "connection reset") || mentions(t, "broken pipe") {
        return if made_progress {
            RetryHint::ShrinkRange(RETRY_BASE_DELAY_MS)
        } else {
            RetryHint::ReduceWorkers(RETRY_BASE_DELAY_MS * 4)
        };
    }
    if mentions(t, "timed out") || mentions(t, "timeout") {
        return if made_progress {
            RetryHint::ShrinkRange(RETRY_BASE_DELAY_MS)
        } else {
            RetryHint::Backoff(RETRY_BASE_DELAY_MS * 3)
        };
    }
    RetryHint::Backoff(RETRY_BASE_DELAY_MS)
}

/// How old what was learned before a pause may be.
#[derive(Debug, Clone, Copy, PartialEq, Eq, Structural)]
pub enum ResumePriorKind {
    Fresh,
    Decayed,
    Stale,
}

/// How far what was learned before a pause is relied on.
#[derive(Debug, Clone, Copy, PartialEq, Eq, Structural)]
pub struct ResumePriorPolicy {
    pub kind: ResumePriorKind,
    pub weight_percent: u64,
}

/// What was learned within the last minute is relied on fully, what was
/// learned within five minutes by half, and anything older not at all.
pub fn compute_resume_prior_policy(saved_at_ms: u64, now_ms: u64) -> (r: ResumePriorPolicy)
    ensures
        r == ({
            let age = max_int(now_ms - saved_at_ms, 0);
            if age <= 60000 {
                ResumePriorPolicy { kind: ResumePriorKind::Fresh, weight_percent: 100 }
            } else if age <= 300000 {
                ResumePriorPolicy { kind: ResumePriorKind::Decayed, weight_percent: 50 }
            } else {
                ResumePriorPolicy { kind: ResumePriorKind::Stale, weight_percent: 0 }
            }
        }),
{
    let age_ms: u64 = now_ms.saturating_sub(saved_at_ms);
    if age_ms <= 60_000 {
        ResumePriorPolicy { kind: ResumePriorKind::Fresh, weight_percent: 100 }
    } else if age_ms <= 300_000 {
        ResumePriorPolicy { kind: ResumePriorKind::Decayed, weight_percent: 50 }
    } else {
        ResumePriorPolicy { kind: ResumePriorKind::Stale, weight_percent: 0 }
    }
}

/// `base` moved towards `prior` by `weight_percent` of the way.
pub fn blend_resume_prior(base: u64, prior: u64, weight_percent: u64) -> (r: u64)
    requires
        weight_percent <= 100,
    ensures
        r == (base * (100 - weight_percent) + prior * weight_percent) / 100,
        weight_percent == 0 ==> r == base,
        weight_percent == 100 ==> r == prior,
{
    let keep: u64 = 100 - weight_percent;
    proof {
        let (b, p, w, k) = (base as int, prior as int, weight_percent as int, keep as int);
        assert(0 <= b * k <= u64::MAX * 100 && 0 <= p * w <= u64::MAX * 100 && b * k + p * w <= u64::MAX * 100) by (nonlinear_arith)
            requires
                0 <= b <= u64::MAX,
                0 <= p <= u64::MAX,
                0 <= w <= 100,
                k == 100 - w,
        ;
        if w == 0 {
            assert(b * k + p * w == b * 100) by (nonlinear_arith)
                requires
                    w == 0,
                    k == 100,
            ;
        }
        if w == 100 {
            assert(b * k + p * w == p * 100) by (nonlinear_arith)
                requires
                    w == 100,
                    k == 0,
            ;
        }
    }
    let mix: u128 = (base as u128) * (keep as u128) + (prior as u128) * (weight_percent as u128);
    (mix / 100) as u64
}

/// How many bytes before the end of a range the next one is asked for:
/// `handshake_bytes`, which is what arrives during a handshake, but no less
/// than two megabytes or the limit on borrowing.
pub fn prefetch_trigger_bytes(handshake_bytes: u64, limit_bytes: u64) -> (r: u64)
    ensures
        r == max_int(max_int(handshake_bytes as int, LIVE_PREFETCH_MIN_MB * MB), limit_bytes as int),
{
    max_u64(max_u64(handshake_bytes, LIVE_PREFETCH_MIN_MB * MB), limit_bytes)
}

/// How long a handshake is reckoned with: what the protocol usually takes, or
/// the round trip that was measured, whichever is longer.
pub fn prefetch_handshake_ms(protocol: ProtocolFamily, worker_rtt_ms: u64) -> (r: u64)
    ensures
        r == max_int(
            match protocol {
                ProtocolFamily::Http2 => 250int,
                ProtocolFamily::Http3 => 200int,
                _ => 700int,
            },
            worker_rtt_ms as int,
        ),
{
    max_u64(protocol_prefetch_handshake_ms(protocol), worker_rtt_ms)
}

/// The least that a worker asks for ahead of time.
pub fn effective_prefetch_limit_bytes(
    downloaded: u64,
    total_size: u64,
    borrow_limit_bytes: u64,
    adaptive_minimum_steal_bytes: u64,
) -> (r: u64)
    ensures
        r == effective_limit(
            in_tail_phase(downloaded as int, total_size as int),
            borrow_limit_bytes as int,
            adaptive_minimum_steal_bytes as int,
        ),
{
    if is_tail_phase_bytes(downloaded, total_size) {
        MB
    } else {
        max_u64(borrow_limit_bytes, adaptive_minimum_steal_bytes)
    }
}

/// The size of the write buffer: the step for the speed, or `latency_target`
/// where that is more, within the smallest step and the cap.
pub fn target_write_buffer_bytes(speed_bps: u64, latency_target: usize, cap_bytes: usize) -> (r: usize)
    ensures
        r == clamp_int(
            max_int(speed_step(speed_bps), latency_target as int),
            WRITE_BUFFER_MIN_BYTES as int,
            max_int(cap_bytes as int, WRITE_BUFFER_LARGE_BYTES as int),
        ),
{
    let step: usize = if speed_bps >= WRITE_BUFFER_MAX_SPEED_BPS {
        WRITE_BUFFER_MAX_BYTES
    } else if speed_bps >= WRITE_BUFFER_LARGE_SPEED_BPS {
        WRITE_BUFFER_LARGE_BYTES
    } else if speed_bps >= WRITE_BUFFER_MEDIUM_SPEED_BPS {
        WRITE_BUFFER_MEDIUM_BYTES
    } else {
        WRITE_BUFFER_MIN_BYTES
    };
    let cap: usize = max_usize(cap_bytes, WRITE_BUFFER_LARGE_BYTES);
    let wanted: usize = max_usize(step, latency_target);
    if wanted > cap {
        cap
    } else if wanted < WRITE_BUFFER_MIN_BYTES {
        WRITE_BUFFER_MIN_BYTES
    } else {
        wanted
    }
}

pub open spec fn speed_step(speed_bps: u64) -> int {
    if speed_bps >= WRITE_BUFFER_MAX_SPEED_BPS {
        WRITE_BUFFER_MAX_BYTES as int
    } else if speed_bps >= WRITE_BUFFER_LARGE_SPEED_BPS {
        WRITE_BUFFER_LARGE_BYTES as int
    } else if speed_bps >= WRITE_BUFFER_MEDIUM_SPEED_BPS {
        WRITE_BUFFER_MEDIUM_BYTES as int
    } else {
        WRITE_BUFFER_MIN_BYTES as int
    }
}

} // verus!
