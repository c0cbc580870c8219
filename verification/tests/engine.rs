use tur_rs::cookies::{CookieEntry, CookieJar};
use tur_rs::engine::challenge::{classify_response_body, ChallengeKind};
use tur_rs::engine::coordinator::{Coordinator, CoordinatorSnapshot, DlRangeSnapshot, STORAGE_BLOCK_SIZE};
use tur_rs::engine::helpers::{
    blend_resume_prior, compute_effective_connection_budget, compute_resume_prior_policy, ResumePriorKind,
};
use tur_rs::engine::metrics::SchedulerMetrics;
use tur_rs::engine::origin_memory::{
    OriginH2TuningStore, OriginMemoryStore, OriginNote, OriginPhiRatioStore, ORIGIN_PHI_RATIO_CAPACITY,
};
use tur_rs::engine::ranges::{
    RANGE_STATUS_ACTIVE, RANGE_STATUS_FINISHED, RANGE_STATUS_PENDING, UNASSIGNED_CONNECTION,
};
use tur_rs::engine::transport::{
    compute_http2_client_tuning, learn_http2_client_tuning, protocol_prefetch_handshake_ms, ClientTuning,
    H2TuningSource,
};
use tur_rs::engine::types::ProtocolFamily;
use tur_rs::headers::{parse_alt_svc_h3_port, strip_sensitive_headers};
use tur_rs::request::RequestContext;
use tur_rs::service::merge_cookies;
use tur_rs::units::MB;
use tur_rs::web_url::{extract_origin, origin_key, UrlParts};

#[test]
fn memory_budget_scales_by_available_memory() {
    assert_eq!(compute_effective_connection_budget(32, 2048), 32);
    assert_eq!(compute_effective_connection_budget(32, 900), 24);
    assert_eq!(compute_effective_connection_budget(32, 400), 16);
    assert_eq!(compute_effective_connection_budget(32, 200), 8);
    assert_eq!(compute_effective_connection_budget(1, 200), 1);
}

#[test]
fn origin_key_normalizes_scheme_host_and_port() {
    assert_eq!(origin_key("https://example.com/path"), "https://example.com:443");
    assert_eq!(origin_key("http://example.com/test"), "http://example.com:80");
    assert_eq!(origin_key("not a url"), "not a url");
}

#[test]
fn origin_phi_ratio_store_prunes_least_recently_used_entries() {
    let ratio = 1.1f64;
    let newer = 1.9f64;
    let mut store = OriginPhiRatioStore::new();
    for idx in 0..ORIGIN_PHI_RATIO_CAPACITY {
        store.update_origin_ratio(format!("https://host{idx}.example:443"), ratio.to_bits());
    }
    assert_eq!(store.len(), ORIGIN_PHI_RATIO_CAPACITY);

    let keep_key = "https://host0.example:443";
    assert_eq!(f64::from_bits(store.ratio_for_origin(keep_key)), 1.1);

    store.update_origin_ratio("https://new.example:443".to_string(), newer.to_bits());
    assert_eq!(store.len(), ORIGIN_PHI_RATIO_CAPACITY);
    assert_eq!(store.current_ratio(keep_key).map(f64::from_bits), Some(1.1));
    assert_eq!(store.current_ratio("https://new.example:443").map(f64::from_bits), Some(1.9));
    // The one that was used longest ago is gone.
    assert_eq!(store.current_ratio("https://host1.example:443"), None);
}

#[test]
fn http2_prefetch_handshake_takes_250_ms() {
    assert_eq!(protocol_prefetch_handshake_ms(ProtocolFamily::Http2), 250);
    assert_eq!(protocol_prefetch_handshake_ms(ProtocolFamily::Http1), 700);
}

#[test]
fn resume_prior_policy_uses_age_buckets() {
    let fresh = compute_resume_prior_policy(1_000, 31_000);
    assert_eq!(fresh.kind, ResumePriorKind::Fresh);
    assert_eq!(fresh.weight_percent as f64 / 100.0, 1.0);

    let decayed = compute_resume_prior_policy(1_000, 91_000);
    assert_eq!(decayed.kind, ResumePriorKind::Decayed);
    assert_eq!(decayed.weight_percent as f64 / 100.0, 0.5);

    let stale = compute_resume_prior_policy(1_000, 400_001);
    assert_eq!(stale.kind, ResumePriorKind::Stale);
    assert_eq!(stale.weight_percent as f64 / 100.0, 0.0);
}

#[test]
fn blend_resume_prior_respects_weight() {
    assert_eq!(blend_resume_prior(10, 100, 0), 10);
    assert_eq!(blend_resume_prior(10, 100, 100), 100);
    assert_eq!(blend_resume_prior(10, 100, 50), 55);
}

#[test]
fn http2_client_tuning_scales_with_expected_concurrency() {
    let small = compute_http2_client_tuning(2);
    let large = compute_http2_client_tuning(16);
    assert!(large.http2_stream_window_bytes >= small.http2_stream_window_bytes);
    assert!(large.http2_connection_window_bytes >= small.http2_connection_window_bytes);
    assert!(large.http2_max_send_buffer_bytes >= small.http2_max_send_buffer_bytes);
}

#[test]
fn learned_http2_tuning_is_origin_scoped_and_pruned() {
    let per_stream = 12.0 * MB as f64 / 3.0;
    let bdp_bytes = (per_stream * (120.0f64 / 1000.0)).round() as u32;
    let mut store = OriginH2TuningStore::new();
    let tuning = learn_http2_client_tuning(4, 3, bdp_bytes);
    store.update_origin_tuning("https://example.com:443".to_string(), tuning);
    assert_eq!(
        store.current_tuning("https://example.com:443").unwrap().source,
        H2TuningSource::LearnedOrigin
    );

    for idx in 0..ORIGIN_PHI_RATIO_CAPACITY {
        store.update_origin_tuning(format!("https://host{idx}.example:443"), compute_http2_client_tuning(2));
    }
    assert!(store.len() <= ORIGIN_PHI_RATIO_CAPACITY);
}

#[test]
fn extract_origin_parses_scheme_host_port() {
    assert_eq!(extract_origin("https://example.com/file.zip"), "https://example.com:443");
    assert_eq!(extract_origin("http://example.com:8080/file.zip"), "http://example.com:8080");
    assert_eq!(extract_origin("https://cdn.example.com/path?a=1"), "https://cdn.example.com:443");
    assert_eq!(extract_origin("not a url"), "");
    assert_eq!(
        extract_origin("https://example.com:443/foo"),
        extract_origin("https://example.com/bar"),
    );
    assert_ne!(
        extract_origin("https://example.com/page"),
        extract_origin("https://other.example.com/page"),
    );
}

#[test]
fn strip_sensitive_headers_removes_auth_cookie_referer() {
    let mut headers = http::HeaderMap::new();
    headers.insert("x-custom", "keep".parse().unwrap());
    headers.insert(http::header::AUTHORIZATION, "Bearer token".parse().unwrap());
    headers.insert(http::header::COOKIE, "session=abc".parse().unwrap());
    headers.insert(http::header::REFERER, "https://origin.com".parse().unwrap());
    headers.insert(http::header::ACCEPT, "text/html".parse().unwrap());

    let safe = strip_sensitive_headers(&headers);

    assert!(safe.get("x-custom").is_some());
    assert!(safe.get(http::header::ACCEPT).is_some());
    assert!(safe.get(http::header::AUTHORIZATION).is_none());
    assert!(safe.get(http::header::COOKIE).is_none());
    assert!(safe.get(http::header::REFERER).is_none());
    assert_eq!(safe.len(), 2);
}

#[test]
fn classify_response_body_returns_none_for_binary_data() {
    assert!(classify_response_body(&[0u8; 100]).is_none());
    assert!(classify_response_body(b"{\"key\": \"value\"}").is_none());
}

#[test]
fn classify_response_body_returns_none_for_short_data() {
    assert!(classify_response_body(b"<html>").is_none());
}

#[test]
fn classify_response_body_detects_cloudflare_challenge() {
    let body = b"<html><body>Checking your browser before accessing... <title>Attention Required! | Cloudflare</title></body></html>";
    let result = classify_response_body(body);
    assert!(matches!(result, Some(ChallengeKind::CloudflareChallenge)));
}

#[test]
fn classify_response_body_detects_captcha() {
    let body = b"<html><body><div class=\"g-recaptcha\">Please complete the CAPTCHA challenge</div></body></html>";
    let result = classify_response_body(body);
    assert!(matches!(result, Some(ChallengeKind::CaptchaChallenge)));
}

#[test]
fn classify_response_body_returns_unexpected_html_for_unknown_html() {
    let body = b"<html><body><h1>Welcome</h1><p>Some content here</p></body></html>";
    let result = classify_response_body(body);
    assert!(matches!(result, Some(ChallengeKind::UnexpectedHtml)));
}

#[test]
fn cookie_jar_match_url_filters_by_domain_path_and_secure() {
    let mut jar = CookieJar::new();
    jar.insert(CookieEntry::new("session", "abc", "example.com"));
    jar.insert(CookieEntry::new("tracking", "xyz", "ads.com"));

    let url = UrlParts::parse("https://example.com/page").unwrap();
    let matched = jar.match_url(&url);
    assert_eq!(matched.len(), 1);
    assert_eq!(matched[0].name, "session");

    let header_val = jar.header_value_for_url(&url);
    assert_eq!(header_val, Some("session=abc".to_string()));

    let other_url = UrlParts::parse("https://other.com/page").unwrap();
    assert!(jar.match_url(&other_url).is_empty());
}

#[test]
fn cookie_jar_header_value_for_url_returns_none_when_empty() {
    let jar = CookieJar::new();
    let url = UrlParts::parse("https://example.com").unwrap();
    assert!(jar.header_value_for_url(&url).is_none());
}

#[test]
fn challenge_requires_browser_session_returns_false_for_non_aborting_types() {
    assert!(!ChallengeKind::UnexpectedHtml.requires_browser_session());
    assert!(!ChallengeKind::AuthInterstitial.requires_browser_session());

    assert!(ChallengeKind::CloudflareChallenge.requires_browser_session());
    assert!(ChallengeKind::CaptchaChallenge.requires_browser_session());
    assert!(ChallengeKind::BrowserCheck.requires_browser_session());
}

#[test]
fn service_cookie_jar_merges_into_request_context_with_dedup() {
    let mut jar = CookieJar::new();
    jar.insert(CookieEntry::new("session", "abc", "example.com"));
    jar.insert(CookieEntry::new("tracking", "xyz", "example.com"));

    let mut ctx = RequestContext::new();
    ctx.cookies = Some(vec![
        CookieEntry::new("session", "override", "example.com"),
        CookieEntry::new("custom", "val", "example.com"),
    ]);

    let url = UrlParts::parse("https://example.com/page").unwrap();
    let existing = ctx.cookies.take().unwrap_or_default();
    ctx.cookies = Some(merge_cookies(existing, jar.match_url(&url)));

    let cookies = ctx.cookies.as_ref().unwrap();
    assert_eq!(cookies.len(), 3, "should have custom + session(override) + tracking");

    let session = cookies.iter().find(|c| c.name == "session").unwrap();
    assert_eq!(
        session.value, "override",
        "per-request session cookie should take priority over jar session cookie"
    );
    assert!(cookies.iter().any(|c| c.name == "tracking"), "jar tracking cookie should be present");
    assert!(cookies.iter().any(|c| c.name == "custom"), "per-request custom cookie should be present");
}

#[test]
fn coordinator_resume_clears_dead_assignments_and_active_status() {
    let snapshot = CoordinatorSnapshot {
        dl_ranges: vec![
            DlRangeSnapshot {
                id: 1,
                label_start_mb: 0,
                label_end_mb: 64,
                byte_start: 0,
                assigned_to: 3,
                cursor: 8 * MB,
                end: 16 * MB,
                parent_range_id: None,
                status: RANGE_STATUS_ACTIVE,
            },
            DlRangeSnapshot {
                id: 2,
                label_start_mb: 64,
                label_end_mb: 128,
                byte_start: 64 * MB,
                assigned_to: 7,
                cursor: 72 * MB,
                end: 80 * MB,
                parent_range_id: Some(1),
                status: RANGE_STATUS_PENDING,
            },
            DlRangeSnapshot {
                id: 3,
                label_start_mb: 128,
                label_end_mb: 192,
                byte_start: 128 * MB,
                assigned_to: 11,
                cursor: 160 * MB,
                end: 160 * MB,
                parent_range_id: None,
                status: RANGE_STATUS_FINISHED,
            },
        ],
        next_unassigned_idx: 2,
        borrow_limit_bytes: 2 * MB,
        borrow_cursor: 0,
        next_range_id: 4,
        index_state_bits: vec![0],
    };

    let coordinator =
        Coordinator::from_snapshot(snapshot, 192 * MB, SchedulerMetrics::default(), 2 * STORAGE_BLOCK_SIZE);

    let first = coordinator.dl_ranges[0];
    assert_eq!(first.assigned_to, UNASSIGNED_CONNECTION);
    assert_eq!(first.status, RANGE_STATUS_PENDING);

    let second = coordinator.dl_ranges[1];
    assert_eq!(second.assigned_to, UNASSIGNED_CONNECTION);
    assert_eq!(second.status, RANGE_STATUS_PENDING);

    let third = coordinator.dl_ranges[2];
    assert_eq!(third.status, RANGE_STATUS_FINISHED);
    assert_eq!(third.assigned_to, 11);
}

#[test]
fn origin_memory_persists_across_reload() {
    let origin = "https://example.com:443";
    let ratio = 1.7f64;
    let tuning = ClientTuning {
        expected_concurrency: 4,
        http2_stream_window_bytes: 4 * MB as u32,
        http2_connection_window_bytes: 16 * MB as u32,
        http2_max_send_buffer_bytes: 2 * MB as usize,
        source: H2TuningSource::LearnedOrigin,
    };

    let mut store = OriginMemoryStore::empty(true);
    store.note(origin, OriginNote::Protocol(ProtocolFamily::Http2));
    store.note(origin, OriginNote::PhiRatio(ratio.to_bits()));
    store.note(origin, OriginNote::H2Tuning(tuning));

    let mut reloaded = OriginMemoryStore::load_enabled(store.table.entries.clone());
    assert_eq!(reloaded.protocol_hint_for_origin(origin), Some(ProtocolFamily::Http2));
    assert_eq!(reloaded.hydrate_phi_ratios().current_ratio(origin).map(f64::from_bits), Some(1.7));
    assert_eq!(
        reloaded.hydrate_h2_tunings().current_tuning(origin).unwrap().source,
        H2TuningSource::OriginMemoryHint
    );
}

#[test]
fn test_parse_alt_svc_h3_port() {
    let mut headers = http::HeaderMap::new();
    headers.insert(
        http::header::ALT_SVC,
        "h3=\":443\"; ma=86400, h3-29=\":443\"; ma=86400".parse().unwrap(),
    );
    assert_eq!(parse_alt_svc_h3_port(&headers), Some(443));

    let mut headers = http::HeaderMap::new();
    headers.insert(http::header::ALT_SVC, "h3=\":8443\"; ma=3600".parse().unwrap());
    assert_eq!(parse_alt_svc_h3_port(&headers), Some(8443));

    let mut headers = http::HeaderMap::new();
    headers.insert(http::header::ALT_SVC, "h2=\":443\"; ma=86400".parse().unwrap());
    assert_eq!(parse_alt_svc_h3_port(&headers), None);
}
