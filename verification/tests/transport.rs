use tur_rs::engine::helpers::{
    blend_resume_prior, classify_error_retry, classify_http_status_retry, compute_effective_connection_budget,
    compute_refill_interval_ms, compute_resume_prior_policy, effective_prefetch_limit_bytes, prefetch_handshake_ms,
    prefetch_trigger_bytes, target_write_buffer_bytes, ResumePriorKind, RetryHint,
};
use tur_rs::engine::metrics::SchedulerMetrics;
use tur_rs::engine::transport::{
    compute_http2_client_tuning, dominant_protocol_from_metrics, http_version_label, learn_http2_client_tuning,
    protocol_family_for_version, protocol_growth_shield_min_samples, protocol_prefetch_handshake_ms,
    record_max_active_connections, record_protocol_request_metric, record_protocol_scale_metric,
    resolve_redirect_url, steal_floor_bytes, H2TuningSource, HttpVersion, RedirectError, RedirectFollower,
    RedirectStep,
};
use tur_rs::engine::types::{ProtocolFamily, ScalerAction};
use tur_rs::quic::{server_name, server_name_from};
use tur_rs::units::{align_down, bytes_to_ceiling_mb, bytes_to_floor_mb, mbps_to_bps, MB};

#[test]
fn refill_interval_follows_the_bandwidth() {
    assert_eq!(compute_refill_interval_ms(0), 50);
    assert_eq!(compute_refill_interval_ms(1), 100);
    assert_eq!(compute_refill_interval_ms(262_144 * 1000 / 20), 20);
    assert_eq!(compute_refill_interval_ms(u64::MAX), 10);
}

#[test]
fn budget_has_a_floor() {
    assert_eq!(compute_effective_connection_budget(0, 100), 1);
    assert_eq!(compute_effective_connection_budget(4, 100), 2);
    assert_eq!(compute_effective_connection_budget(3, 600), 2);
    assert_eq!(compute_effective_connection_budget(0, 4096), 0);
}

#[test]
fn more_memory_never_lowers_the_budget() {
    let mut last = 0;
    for mb in [0, 255, 256, 511, 512, 1023, 1024, 5000] {
        let budget = compute_effective_connection_budget(20, mb);
        assert!(budget >= last);
        last = budget;
    }
    assert_eq!(last, 20);
}

#[test]
fn retry_hints_follow_the_status() {
    assert_eq!(classify_http_status_retry(429), RetryHint::ReduceWorkers(2000));
    assert_eq!(classify_http_status_retry(503), RetryHint::Immediate);
    assert_eq!(classify_http_status_retry(500), RetryHint::Backoff(500));
    assert_eq!(classify_http_status_retry(599), RetryHint::Backoff(500));
    assert_eq!(classify_http_status_retry(416), RetryHint::Abort);
    assert_eq!(classify_http_status_retry(404), RetryHint::Backoff(250));
}

#[test]
fn retry_hints_follow_the_error() {
    assert_eq!(classify_error_retry("bad TLS record", true), RetryHint::ReduceWorkers(2000));
    assert_eq!(classify_error_retry("Connection Reset by peer", true), RetryHint::ShrinkRange(250));
    assert_eq!(classify_error_retry("broken pipe", false), RetryHint::ReduceWorkers(1000));
    assert_eq!(classify_error_retry("operation timed out", true), RetryHint::ShrinkRange(250));
    assert_eq!(classify_error_retry("read timeout", false), RetryHint::Backoff(750));
    assert_eq!(classify_error_retry("unexpected end of file", true), RetryHint::Backoff(250));
}

#[test]
fn resume_prior_ages_at_its_limits() {
    assert_eq!(compute_resume_prior_policy(0, 60_000).kind, ResumePriorKind::Fresh);
    assert_eq!(compute_resume_prior_policy(0, 60_001).kind, ResumePriorKind::Decayed);
    assert_eq!(compute_resume_prior_policy(0, 300_000).kind, ResumePriorKind::Decayed);
    assert_eq!(compute_resume_prior_policy(0, 300_001).kind, ResumePriorKind::Stale);
    assert_eq!(compute_resume_prior_policy(5_000, 1_000).kind, ResumePriorKind::Fresh);
    assert_eq!(blend_resume_prior(100, 10, 50), 55);
}

#[test]
fn http2_windows_have_exact_sizes() {
    let small = compute_http2_client_tuning(0);
    assert_eq!(small.expected_concurrency, 1);
    assert_eq!(small.http2_stream_window_bytes, 4 * MB as u32);
    assert_eq!(small.http2_connection_window_bytes, 16 * MB as u32);
    assert_eq!(small.http2_max_send_buffer_bytes, 2 * MB as usize);
    let middle = compute_http2_client_tuning(6);
    assert_eq!(middle.http2_stream_window_bytes, 6 * MB as u32);
    assert_eq!(middle.http2_connection_window_bytes, 36 * MB as u32);
    assert_eq!(middle.http2_max_send_buffer_bytes, 3 * MB as usize);
    let large = compute_http2_client_tuning(100);
    assert_eq!(large.http2_stream_window_bytes, 16 * MB as u32);
    assert_eq!(large.http2_connection_window_bytes, 64 * MB as u32);
    assert_eq!(large.http2_max_send_buffer_bytes, 8 * MB as usize);
    assert_eq!(large.source, H2TuningSource::Default);
}

#[test]
fn learned_windows_follow_the_bandwidth_delay_product() {
    let t = learn_http2_client_tuning(2, 5, 1_000_000);
    assert_eq!(t.expected_concurrency, 5);
    assert_eq!(t.http2_stream_window_bytes, 4_000_000);
    assert_eq!(t.http2_connection_window_bytes, 20_000_000);
    assert_eq!(t.http2_max_send_buffer_bytes, 8 * MB as usize);
    let least = learn_http2_client_tuning(1, 0, 0);
    assert_eq!(least.http2_stream_window_bytes, MB as u32);
    assert_eq!(least.http2_connection_window_bytes, 16 * MB as u32);
    assert_eq!(least.http2_max_send_buffer_bytes, 2 * MB as usize);
    assert_eq!(H2TuningSource::LearnedOrigin.as_str(), "learned-origin");
}

#[test]
fn versions_have_labels_and_families() {
    assert_eq!(http_version_label(HttpVersion::Http09), "HTTP/0.9");
    assert_eq!(http_version_label(HttpVersion::Http10), "HTTP/1.0");
    assert_eq!(http_version_label(HttpVersion::Http11), "HTTP/1.1");
    assert_eq!(http_version_label(HttpVersion::Http2), "HTTP/2");
    assert_eq!(http_version_label(HttpVersion::Http3), "HTTP/3");
    assert_eq!(http_version_label(HttpVersion::Unknown), "HTTP/?");
    assert_eq!(protocol_family_for_version(HttpVersion::Http10), ProtocolFamily::Http1);
    assert_eq!(protocol_family_for_version(HttpVersion::Http2), ProtocolFamily::Http2);
    assert_eq!(protocol_family_for_version(HttpVersion::Http3), ProtocolFamily::Http3);
    assert_eq!(protocol_family_for_version(HttpVersion::Unknown), ProtocolFamily::Other);
}

#[test]
fn dominant_protocol_counts_requests() {
    let mut m = SchedulerMetrics::default();
    assert_eq!(dominant_protocol_from_metrics(&m, ProtocolFamily::Other), ProtocolFamily::Other);
    record_protocol_request_metric(&mut m, ProtocolFamily::Http1);
    record_protocol_request_metric(&mut m, ProtocolFamily::Http2);
    assert_eq!(dominant_protocol_from_metrics(&m, ProtocolFamily::Other), ProtocolFamily::Http1);
    record_protocol_request_metric(&mut m, ProtocolFamily::Http2);
    assert_eq!(dominant_protocol_from_metrics(&m, ProtocolFamily::Other), ProtocolFamily::Http2);
    for _ in 0..3 {
        record_protocol_request_metric(&mut m, ProtocolFamily::Http3);
    }
    assert_eq!(dominant_protocol_from_metrics(&m, ProtocolFamily::Other), ProtocolFamily::Http3);
    record_protocol_request_metric(&mut m, ProtocolFamily::Other);
    assert_eq!(m.http_other_requests, 1);
}

#[test]
fn scale_metrics_tell_streams_from_connections() {
    let mut m = SchedulerMetrics::default();
    record_protocol_scale_metric(&mut m, ProtocolFamily::Http2, ScalerAction::Grow, true);
    record_protocol_scale_metric(&mut m, ProtocolFamily::Http2, ScalerAction::Grow, false);
    record_protocol_scale_metric(&mut m, ProtocolFamily::Http2, ScalerAction::Shrink, false);
    record_protocol_scale_metric(&mut m, ProtocolFamily::Http1, ScalerAction::Grow, true);
    record_protocol_scale_metric(&mut m, ProtocolFamily::Http3, ScalerAction::Shrink, true);
    record_protocol_scale_metric(&mut m, ProtocolFamily::Other, ScalerAction::Grow, true);
    assert_eq!(m.http2_stream_adds, 1);
    assert_eq!(m.http2_conn_adds, 1);
    assert_eq!(m.http2_scale_adds, 2);
    assert_eq!(m.http2_scale_drops, 1);
    assert_eq!(m.http1_scale_adds, 1);
    assert_eq!(m.http3_scale_drops, 1);
    record_max_active_connections(&mut m, 7);
    record_max_active_connections(&mut m, 3);
    assert_eq!(m.max_active_connections_observed, 7);
}

#[test]
fn protocol_constants() {
    assert_eq!(protocol_prefetch_handshake_ms(ProtocolFamily::Http3), 200);
    assert_eq!(protocol_prefetch_handshake_ms(ProtocolFamily::Other), 700);
    assert_eq!(protocol_growth_shield_min_samples(ProtocolFamily::Http1), 1);
    assert_eq!(protocol_growth_shield_min_samples(ProtocolFamily::Http2), 2);
    assert_eq!(protocol_growth_shield_min_samples(ProtocolFamily::Http3), 0);
    assert_eq!(protocol_growth_shield_min_samples(ProtocolFamily::Other), 2);
}

#[test]
fn steal_floor_depends_on_the_protocol() {
    assert_eq!(steal_floor_bytes(ProtocolFamily::Http2, 0), 4 * MB);
    assert_eq!(steal_floor_bytes(ProtocolFamily::Http1, 0), 8 * MB);
    assert_eq!(steal_floor_bytes(ProtocolFamily::Http1, 9 * MB), 9 * MB);
}

#[test]
fn prefetch_trigger_is_the_larger_of_two() {
    assert_eq!(prefetch_trigger_bytes(10, 5 * MB), 5 * MB);
    assert_eq!(prefetch_trigger_bytes(7 * MB, 5 * MB), 7 * MB);
    assert_eq!(prefetch_trigger_bytes(10, 0), 2 * MB);
    assert_eq!(prefetch_handshake_ms(ProtocolFamily::Http2, 10), 250);
    assert_eq!(prefetch_handshake_ms(ProtocolFamily::Http2, 900), 900);
}

#[test]
fn prefetch_limit_shrinks_in_the_tail() {
    assert_eq!(effective_prefetch_limit_bytes(0, 1000 * MB, 2 * MB, 4 * MB), 4 * MB);
    assert_eq!(effective_prefetch_limit_bytes(999 * MB, 1000 * MB, 2 * MB, 4 * MB), MB);
}

#[test]
fn write_buffer_grows_with_speed() {
    let cap = 4 * MB as usize;
    assert_eq!(target_write_buffer_bytes(0, 0, cap), 131_072);
    assert_eq!(target_write_buffer_bytes(MB, 0, cap), 262_144);
    assert_eq!(target_write_buffer_bytes(3 * MB, 0, cap), 524_288);
    assert_eq!(target_write_buffer_bytes(100 * MB, 0, cap), MB as usize);
    assert_eq!(target_write_buffer_bytes(0, 700_000, cap), 700_000);
    assert_eq!(target_write_buffer_bytes(100 * MB, 0, 0), 524_288);
}

#[test]
fn redirects_are_resolved_against_the_current_url() {
    assert_eq!(
        resolve_redirect_url("https://a.example/x/y", "../z"),
        Some("https://a.example/z".to_string())
    );
    assert_eq!(
        resolve_redirect_url("https://a.example/x", "https://b.example/q"),
        Some("https://b.example/q".to_string())
    );
    assert_eq!(resolve_redirect_url("not a url", "/z"), None);
}

#[test]
fn redirect_follower_notices_another_origin() {
    let mut f = RedirectFollower::new("https://a.example/x");
    assert_eq!(f.step(200, &None), RedirectStep::Answer);
    assert_eq!(f.step(302, &Some("/y".to_string())), RedirectStep::Follow);
    assert_eq!(f.current_url, "https://a.example/y");
    assert!(!f.left_origin);
    assert_eq!(f.step(301, &Some("https://b.example/".to_string())), RedirectStep::Follow);
    assert!(f.left_origin);
    assert_eq!(f.step(301, &None), RedirectStep::Stop(RedirectError::MissingLocation));
    assert_eq!(f.step(301, &Some("http://[".to_string())), RedirectStep::Stop(RedirectError::InvalidLocation));
}

#[test]
fn redirect_follower_gives_up() {
    let mut f = RedirectFollower::new("https://a.example/x");
    let mut last = RedirectStep::Answer;
    let mut steps = 0;
    while steps < 20 {
        last = f.step(302, &Some("/y".to_string()));
        if last != RedirectStep::Follow {
            break;
        }
        steps += 1;
    }
    assert_eq!(last, RedirectStep::Stop(RedirectError::TooManyRedirects));
    assert_eq!(steps, 8);
}

#[test]
fn units_round_as_stated() {
    assert_eq!(bytes_to_ceiling_mb(0), 0);
    assert_eq!(bytes_to_ceiling_mb(1), 1);
    assert_eq!(bytes_to_ceiling_mb(MB), 1);
    assert_eq!(bytes_to_ceiling_mb(u64::MAX), 17_592_186_044_416);
    assert_eq!(bytes_to_floor_mb(2 * MB - 1), 1);
    assert_eq!(align_down(10_000, 4096), 8192);
    assert_eq!(align_down(10_000, 0), 10_000);
    assert_eq!(mbps_to_bps(8), 1_000_000);
}

#[test]
fn a_server_is_addressed_by_its_host() {
    assert_eq!(server_name("https://files.example.com:8443/a.bin", "https://x"), "files.example.com");
    assert_eq!(server_name("no url", "https://x"), "https://x");
    assert_eq!(server_name_from(&None, "origin"), "origin");
}
