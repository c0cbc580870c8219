//! Counters of one download.

use vstd::prelude::*;
use crate::units::{max_int, saturated};

verus! {

/// Counters that the scheduler, the workers and the scaler keep.
#[derive(Debug, Clone, Copy, PartialEq, Eq, Structural)]
pub struct SchedulerMetrics {
    pub direct_assignments: u64,
    pub borrow_assignments: u64,
    pub bytes_borrowed: u64,
    pub straggler_splits: u64,
    pub tail_splits: u64,
    pub completed_ranges: u64,
    pub work_requests: u64,
    pub request_wait_ms: u64,
    pub prefetch_requests: u64,
    pub prefetch_ready: u64,
    pub prefetch_hits: u64,
    pub max_prefetch_trigger_bytes: u64,
    pub retry_attempts: u64,
    pub retry_wait_ms: u64,
    pub http_requests: u64,
    pub http_setup_ms: u64,
    pub http_ttfb_ms: u64,
    pub http_stream_ms: u64,
    pub file_write_ms: u64,
    pub http1_requests: u64,
    pub http2_requests: u64,
    pub http3_requests: u64,
    pub http_other_requests: u64,
    pub reused_requests: u64,
    pub fresh_requests: u64,
    pub fresh_handshake_ms: u64,
    pub http1_reused_requests: u64,
    pub http1_fresh_requests: u64,
    pub http1_fresh_handshake_ms: u64,
    pub http2_reused_requests: u64,
    pub http2_fresh_requests: u64,
    pub http2_fresh_handshake_ms: u64,
    pub http1_scale_adds: u64,
    pub http1_scale_drops: u64,
    pub http2_scale_adds: u64,
    pub http2_scale_drops: u64,
    pub http3_scale_adds: u64,
    pub http3_scale_drops: u64,
    pub http2_stream_adds: u64,
    pub http2_conn_adds: u64,
    pub h2_stream_saturated_count: u64,
    pub skipped_growth_samples: u64,
    pub startup_open_file_ms: u64,
    pub startup_first_assignment_wait_ms: u64,
    pub startup_first_request_setup_ms: u64,
    pub startup_first_byte_ms: u64,
    pub startup_total_to_first_byte_ms: u64,
    pub max_active_connections_observed: u64,
    pub max_write_buffer_target_bytes: u64,
    pub max_ewma_write_latency_x10: u64,
    pub adaptive_heartbeat_ms_final: u64,
    pub adaptive_refill_interval_ms_final: u64,
    pub adaptive_min_steal_bytes_final: u64,
}

impl SchedulerMetrics {
    /// Counters that have counted nothing.
    pub open spec fn zero() -> SchedulerMetrics {
        SchedulerMetrics {
            direct_assignments: 0,
            borrow_assignments: 0,
            bytes_borrowed: 0,
            straggler_splits: 0,
            tail_splits: 0,
            completed_ranges: 0,
            work_requests: 0,
            request_wait_ms: 0,
            prefetch_requests: 0,
            prefetch_ready: 0,
            prefetch_hits: 0,
            max_prefetch_trigger_bytes: 0,
            retry_attempts: 0,
            retry_wait_ms: 0,
            http_requests: 0,
            http_setup_ms: 0,
            http_ttfb_ms: 0,
            http_stream_ms: 0,
            file_write_ms: 0,
            http1_requests: 0,
            http2_requests: 0,
            http3_requests: 0,
            http_other_requests: 0,
            reused_requests: 0,
            fresh_requests: 0,
            fresh_handshake_ms: 0,
            http1_reused_requests: 0,
            http1_fresh_requests: 0,
            http1_fresh_handshake_ms: 0,
            http2_reused_requests: 0,
            http2_fresh_requests: 0,
            http2_fresh_handshake_ms: 0,
            http1_scale_adds: 0,
            http1_scale_drops: 0,
            http2_scale_adds: 0,
            http2_scale_drops: 0,
            http3_scale_adds: 0,
            http3_scale_drops: 0,
            http2_stream_adds: 0,
            http2_conn_adds: 0,
            h2_stream_saturated_count: 0,
            skipped_growth_samples: 0,
            startup_open_file_ms: 0,
            startup_first_assignment_wait_ms: 0,
            startup_first_request_setup_ms: 0,
            startup_first_byte_ms: 0,
            startup_total_to_first_byte_ms: 0,
            max_active_connections_observed: 0,
            max_write_buffer_target_bytes: 0,
            max_ewma_write_latency_x10: 0,
            adaptive_heartbeat_ms_final: 0,
            adaptive_refill_interval_ms_final: 0,
            adaptive_min_steal_bytes_final: 0,
        }
    }

    /// Adds `value` to `counter`, which stops at the largest `u64`.
    pub fn add(counter: &mut u64, value: u64)
        ensures
            *final(counter) == saturated(*old(counter) + value),
    {
        *counter = counter.saturating_add(value);
    }

    /// Raises `counter` to `value` where that is more.
    pub fn update_max(counter: &mut u64, value: u64)
        ensures
            *final(counter) == max_int(*old(counter) as int, value as int),
    {
        if value > *counter {
            *counter = value;
        }
    }
}

impl Default for SchedulerMetrics {
    fn default() -> (r: SchedulerMetrics)
        ensures
            r == SchedulerMetrics::zero(),
    {
        SchedulerMetrics {
            direct_assignments: 0,
            borrow_assignments: 0,
            bytes_borrowed: 0,
            straggler_splits: 0,
            tail_splits: 0,
            completed_ranges: 0,
            work_requests: 0,
            request_wait_ms: 0,
            prefetch_requests: 0,
            prefetch_ready: 0,
            prefetch_hits: 0,
            max_prefetch_trigger_bytes: 0,
            retry_attempts: 0,
            retry_wait_ms: 0,
            http_requests: 0,
            http_setup_ms: 0,
            http_ttfb_ms: 0,
            http_stream_ms: 0,
            file_write_ms: 0,
            http1_requests: 0,
            http2_requests: 0,
            http3_requests: 0,
            http_other_requests: 0,
            reused_requests: 0,
            fresh_requests: 0,
            fresh_handshake_ms: 0,
            http1_reused_requests: 0,
            http1_fresh_requests: 0,
            http1_fresh_handshake_ms: 0,
            http2_reused_requests: 0,
            http2_fresh_requests: 0,
            http2_fresh_handshake_ms: 0,
            http1_scale_adds: 0,
            http1_scale_drops: 0,
            http2_scale_adds: 0,
            http2_scale_drops: 0,
            http3_scale_adds: 0,
            http3_scale_drops: 0,
            http2_stream_adds: 0,
            http2_conn_adds: 0,
            h2_stream_saturated_count: 0,
            skipped_growth_samples: 0,
            startup_open_file_ms: 0,
            startup_first_assignment_wait_ms: 0,
            startup_first_request_setup_ms: 0,
            startup_first_byte_ms: 0,
            startup_total_to_first_byte_ms: 0,
            max_active_connections_observed: 0,
            max_write_buffer_target_bytes: 0,
            max_ewma_write_latency_x10: 0,
            adaptive_heartbeat_ms_final: 0,
            adaptive_refill_interval_ms_final: 0,
            adaptive_min_steal_bytes_final: 0,
        }
    }
}

} // verus!
