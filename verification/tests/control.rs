use tur_rs::cookies::{CookieEntry, CookieJar};
use tur_rs::engine::coordinator::{Coordinator, STORAGE_BLOCK_SIZE};
use tur_rs::engine::metrics::SchedulerMetrics;
use tur_rs::engine::origin_memory::{OriginMemoryStore, OriginNote, SessionRequirementField, ORIGIN_MEMORY_CAPACITY};
use tur_rs::engine::runtime::{
    DownloadEngine, EngineAction, PendingLaunch, ResumeBootstrap, RuntimeControl, TaskSnapshot, WorkerControl,
    WorkerDiagnosticsState,
};
use tur_rs::engine::scaler::{
    clamp_heartbeat_ms, review_workers, GainSignal, HeartbeatPlan, HeartbeatSignals, RequestKind, ScaleDecision,
    Scaler, TokenBucket, WorkerHistory, WorkerSample,
};
use tur_rs::engine::scaling::{GrowthSignals, Scaled};
use tur_rs::engine::task::{
    close_metrics, closing_notes, connection_bounds, excess_leases, heartbeats_over, initial_borrow_limit_mb,
    initial_connections, initial_steal_floor, protocol_to_note, reports_over, session_notes,
    should_try_h3, size_from_header, size_notes, size_source, task_outcome, Measured, SizeSource,
    TaskOutcome,
};
use tur_rs::engine::types::{
    DownloadStatus, HaltMode, HttpMode, ProtocolFamily, ScalerAction, ScalerConfig, ScheduleMode, WorkerState,
};
use tur_rs::request::{DownloadRequest, RequestContext};
use tur_rs::service::{add_download, DownloadTask};
use tur_rs::units::MB;

fn task(id: u128) -> DownloadTask {
    let mut jar = CookieJar::new();
    add_download(DownloadRequest::new("https://example.com/archive.bin"), id, 4, &mut jar)
}

fn snapshot(id: u128) -> TaskSnapshot {
    let c = Coordinator::new(
        64 * MB,
        2,
        2,
        true,
        ScheduleMode::Equal,
        SchedulerMetrics::default(),
        2 * STORAGE_BLOCK_SIZE,
        &[],
    )
    .unwrap();
    TaskSnapshot {
        task: task(id),
        coordinator: c.snapshot(),
        resume_state: ResumeBootstrap {
            target_connections: 2,
            protocol_hint: ProtocolFamily::Http1,
            ewma_throughput_bits: 0,
            peak_efficiency_bits: 0,
            reuse_rate_bits: 0,
            heartbeat_ms: 100,
            saved_at_ms: 0,
        },
    }
}

fn config(min: usize, max: usize) -> ScalerConfig {
    ScalerConfig { min_connections: min, max_connections: max, heartbeat_ms: 2000 }
}

#[test]
fn a_lease_that_is_given_back_can_be_taken_again() {
    let mut e = DownloadEngine::new(4, 2, 2, 0);
    assert!(e.request_connection());
    assert!(e.request_connection());
    assert!(!e.request_connection());
    e.release_connection();
    assert_eq!(e.connection_budget, 1);
    assert!(e.request_connection());
    e.release_connection();
    e.release_connection();
    e.release_connection();
    assert_eq!(e.connection_budget, 2);
}

#[test]
fn little_memory_lowers_the_budget_but_keeps_the_leases() {
    let mut e = DownloadEngine::new(4, 2, 32, 0);
    for _ in 0..10 {
        assert!(e.request_connection());
    }
    e.check_memory(400);
    assert_eq!((e.effective_connection_budget, e.connection_budget), (16, 6));
    e.check_memory(200);
    assert_eq!((e.effective_connection_budget, e.connection_budget), (8, 0));
    assert_eq!(e.write_buffer_cap_bytes, 524_288);
    e.check_memory(4096);
    assert_eq!(e.effective_connection_budget, 32);
}

#[test]
fn no_more_tasks_run_than_may() {
    let mut e = DownloadEngine::new(4, 1, 8, 0);
    e.add_task(task(1));
    e.add_task(task(2));
    assert!(matches!(e.next_launch(), Some(PendingLaunch::Fresh(t)) if t.id == 1));
    assert!(e.next_launch().is_none());
    e.task_finished(1);
    assert!(matches!(e.next_launch(), Some(PendingLaunch::Fresh(t)) if t.id == 2));
}

#[test]
fn a_paused_download_resumes() {
    let mut e = DownloadEngine::new(4, 1, 8, 0);
    e.add_task(task(1));
    let _ = e.next_launch();
    e.stop_task(1);
    assert_eq!(e.active[&1].halt_mode, HaltMode::Draining);
    let action = e.runtime_stopped(snapshot(1), HaltMode::Draining);
    assert!(matches!(action, EngineAction::Report { id: 1, status: DownloadStatus::Paused }));
    assert!(e.active.is_empty());
    assert!(matches!(e.resume_task(1), EngineAction::Nothing));
    assert!(matches!(e.next_launch(), Some(PendingLaunch::Resume(s)) if s.task.id == 1));
    assert_eq!(e.active[&1].scaler_config.heartbeat_ms, 500);
}

#[test]
fn a_resume_during_a_pause_waits_for_it() {
    let mut e = DownloadEngine::new(4, 1, 8, 0);
    e.add_task(task(1));
    let _ = e.next_launch();
    e.stop_task(1);
    assert!(matches!(e.resume_task(1), EngineAction::Nothing));
    let _ = e.runtime_stopped(snapshot(1), HaltMode::Draining);
    assert!(matches!(e.next_launch(), Some(PendingLaunch::Resume(s)) if s.task.id == 1));
}

#[test]
fn a_canceled_download_is_saved() {
    let mut e = DownloadEngine::new(4, 1, 8, 0);
    e.add_task(task(1));
    let _ = e.next_launch();
    assert!(matches!(e.cancel_task(1), EngineAction::Nothing));
    assert_eq!(e.active[&1].halt_mode, HaltMode::PersistToDisk);
    match e.runtime_stopped(snapshot(1), HaltMode::PersistToDisk) {
        EngineAction::Persist { snapshot, path, status } => {
            assert!(matches!(status, DownloadStatus::Stopped));
            assert_eq!(snapshot.task.id, 1);
            assert_eq!(path, tur_rs::engine::persistence::metadata_path(&snapshot.task));
            assert!(path.ends_with("archive.bin.tur.meta"));
        }
        _ => panic!("a canceled download is saved"),
    }
    assert!(matches!(e.resume_task(1), EngineAction::Load { .. }));
    e.resume_loaded(snapshot(1));
    assert!(matches!(e.next_launch(), Some(PendingLaunch::Resume(s)) if s.task.id == 1));
    assert!(matches!(e.resume_task(9), EngineAction::Unknown { id: 9 }));
}

#[test]
fn bounds_the_wrong_way_round_are_refused() {
    let mut e = DownloadEngine::new(4, 1, 8, 0);
    match e.update_scaling(1, config(5, 3)) {
        EngineAction::Report { id: 1, status: DownloadStatus::Error(text) } => {
            assert_eq!(text, "invalid scaling update: min_connections 5 exceeds max_connections 3");
        }
        _ => panic!("bounds the wrong way round"),
    }
    e.add_task(task(1));
    let _ = e.next_launch();
    assert!(matches!(e.update_scaling(1, config(2, 3)), EngineAction::Nothing));
    assert_eq!(e.active[&1].scaler_config, config(2, 3));
    assert!(matches!(e.update_scaling(7, config(2, 3)), EngineAction::Nothing));
}

#[test]
fn the_bandwidth_is_shared() {
    let mut e = DownloadEngine::new(4, 2, 8, 1_000_000);
    e.add_task(task(1));
    e.add_task(task(2));
    let _ = e.next_launch();
    let _ = e.next_launch();
    e.refill(true);
    assert_eq!(e.downloads[0].bucket.quota_bytes_per_sec, 500_000);
    assert_eq!(e.downloads[1].bucket.quota_bytes_per_sec, 500_000);
    assert!(e.downloads[0].bucket.tokens > 0);
}

#[test]
fn a_bucket_saves_up_two_seconds() {
    let mut b = TokenBucket::new();
    assert!(b.consume(1_000_000));
    b.quota_bytes_per_sec = 1000;
    b.refill(500);
    assert_eq!(b.tokens, 500);
    b.refill(60_000);
    assert_eq!(b.tokens, 2000);
    assert!(b.consume(1500));
    assert!(!b.consume(1000));
    assert_eq!(b.tokens, -500);
}

#[test]
fn controls_halt() {
    let mut c = RuntimeControl::new(config(1, 4));
    assert!(!c.is_halted());
    c.request_pause();
    assert_eq!(c.halt_mode, HaltMode::Hibernating);
    assert!(c.is_halted());
    c.request_drain();
    assert_eq!(c.halt_mode, HaltMode::Draining);
    c.request_persist();
    assert_eq!(c.halt_mode, HaltMode::PersistToDisk);
    c.abort_for_challenge("blocked".to_string());
    assert_eq!(c.challenge_reason, Some("blocked".to_string()));
}

#[test]
fn diagnostics_tell_of_the_range() {
    let mut d = WorkerDiagnosticsState::new(3);
    d.set_state(WorkerState::Downloading);
    d.set_range(10, 20, 15);
    let s = d.snapshot(77);
    assert_eq!((s.connection_id, s.state, s.transferred_bytes), (3, WorkerState::Downloading, 77));
    assert_eq!((s.range_start, s.range_end, s.range_cursor), (Some(10), Some(20), Some(15)));
    d.clear_range();
    assert_eq!(d.snapshot(0).range_start, None);
    assert!(!WorkerControl::new(1, false).stop_requested);
}

#[test]
fn decisions_keep_to_the_bounds() {
    let still = HeartbeatSignals { gain: GainSignal::Unknown, inefficient: false };
    let waste = HeartbeatSignals { gain: GainSignal::Unknown, inefficient: true };
    let mut s = Scaler::from_config(config(1, 2));
    assert_eq!(s.slow_start_remaining, 3);
    assert!(s.take_slow_start());
    assert_eq!(s.decide(still), ScaleDecision::Add);
    s.n_active = 2;
    assert_eq!(s.decide(still), ScaleDecision::Hold);
    assert_eq!(s.decide(waste), ScaleDecision::Drop);
    s.n_active = 1;
    assert_eq!(s.decide(waste), ScaleDecision::Add);
    s.n_active = 0;
    assert_eq!(s.decide(still), ScaleDecision::Recover(1));
}

#[test]
fn a_growth_that_lost_is_taken_back() {
    let mut s = Scaler::from_config(config(1, 8));
    s.n_active = 3;
    s.last_action = ScalerAction::Grow;
    let loss = HeartbeatSignals { gain: GainSignal::Loss, inefficient: false };
    assert_eq!(s.decide(loss), ScaleDecision::Drop);
    assert_eq!(s.last_action, ScalerAction::Hold);
    s.last_action = ScalerAction::Grow;
    let unclear = HeartbeatSignals { gain: GainSignal::Unclear, inefficient: true };
    assert_eq!(s.decide(unclear), ScaleDecision::Hold);
    assert_eq!(s.last_action, ScalerAction::Grow);
}

#[test]
fn added_and_dropped_workers_are_counted() {
    let mut m = SchedulerMetrics::default();
    let mut s = Scaler::from_config(config(1, 8));
    s.record_add(ProtocolFamily::Http2, true, false, 2, &mut m);
    assert_eq!((s.n_active, s.last_action, s.slow_start_remaining), (2, ScalerAction::Grow, 2));
    assert_eq!(m.http2_stream_adds, 1);
    s.record_add(ProtocolFamily::Http2, true, true, 2, &mut m);
    s.record_add(ProtocolFamily::Http2, true, true, 2, &mut m);
    assert!(s.h2_stream_saturated);
    assert_eq!(m.h2_stream_saturated_count, 1);
    s.record_drop(ProtocolFamily::Http2, &mut m);
    assert_eq!((s.n_active, s.last_action), (3, ScalerAction::Shrink));
    s.record_recovery(2, ProtocolFamily::Http1, 1, &mut m);
    assert_eq!((s.n_active, m.http1_scale_adds), (2, 2));
    assert_eq!(m.max_active_connections_observed, 4);
}

#[test]
fn slow_starts_follow_the_protocol() {
    let mut s = Scaler::from_config(config(1, 8));
    assert_eq!(s.compute_slow_start_heartbeats(9, ProtocolFamily::Http1, true, false, false), 1);
    assert_eq!(s.compute_slow_start_heartbeats(9, ProtocolFamily::Http1, false, false, false), 4);
    assert_eq!(s.compute_slow_start_heartbeats(2, ProtocolFamily::Http1, false, true, false), 3);
    assert_eq!(s.compute_slow_start_heartbeats(3, ProtocolFamily::Http2, false, false, true), 3);
    s.reused_rtt_samples = 2;
    assert_eq!(s.compute_slow_start_heartbeats(3, ProtocolFamily::Http2, false, false, true), 2);
    assert_eq!(s.compute_slow_start_heartbeats(4, ProtocolFamily::Http3, false, false, false), 2);
    assert_eq!(s.compute_slow_start_heartbeats(0, ProtocolFamily::Other, false, false, false), 1);
}

#[test]
fn reuse_health_has_two_marks() {
    let mut s = Scaler::from_config(config(1, 8));
    assert_eq!(s.update_reuse_health(false, false), None);
    assert_eq!(s.update_reuse_health(true, false), Some(true));
    assert_eq!(s.update_reuse_health(false, false), None);
    assert_eq!(s.update_reuse_health(false, true), Some(false));
    s.reused_count = 4;
    s.total_request_count = 9;
    s.reset_reuse_window();
    assert_eq!((s.reused_count, s.total_request_count), (0, 0));
}

#[test]
fn requests_are_told_apart() {
    let mut m = SchedulerMetrics::default();
    let mut s = Scaler::from_config(config(1, 8));
    s.record_request_classification(RequestKind::Fresh, ProtocolFamily::Http1, false, 40, 40, &mut m);
    s.record_request_classification(RequestKind::Reused, ProtocolFamily::Http2, false, 0, 0, &mut m);
    assert_eq!((s.total_request_count, s.reused_count, s.reused_rtt_samples), (2, 1, 1));
    assert_eq!((m.fresh_requests, m.reused_requests), (1, 1));
    assert_eq!((m.http1_fresh_requests, m.http2_reused_requests), (1, 1));
    assert_eq!(s.last_protocol, ProtocolFamily::Http2);
}

#[test]
fn a_slow_handshake_after_a_growth_is_not_held_against_it() {
    let mut m = SchedulerMetrics::default();
    let mut s = Scaler::from_config(config(1, 8));
    s.last_action = ScalerAction::Grow;
    s.reused_rtt_samples = 2;
    s.record_request_classification(RequestKind::Fresh, ProtocolFamily::Http2, true, 900, 900, &mut m);
    assert!(s.skip_growth_sample);
    assert!(s.take_skip(&mut m));
    assert!(!s.take_skip(&mut m));
    assert_eq!(m.skipped_growth_samples, 1);
}

#[test]
fn heartbeats_have_bounds() {
    assert_eq!(clamp_heartbeat_ms(0), 500);
    assert_eq!(clamp_heartbeat_ms(1700), 1700);
    assert_eq!(clamp_heartbeat_ms(9999), 3000);
}

#[test]
fn a_heartbeat_drops_the_weakest() {
    let sample = |id: u32, bytes: u64, state: WorkerState| WorkerSample {
        connection_id: id,
        stop_requested: false,
        transferred_bytes: bytes,
        state,
    };
    let waste = HeartbeatSignals { gain: GainSignal::Unknown, inefficient: true };
    let mut s = Scaler::from_config(config(1, 8));
    s.n_active = 2;
    let samples = vec![sample(1, 50, WorkerState::Downloading), sample(2, 10, WorkerState::Downloading)];
    let (plan, review) = s.heartbeat(waste, &Vec::new(), &samples);
    assert_eq!(plan, HeartbeatPlan::Wait);
    assert!(review.is_none());
    s.slow_start_remaining = 0;
    let history = vec![
        WorkerHistory { connection_id: 1, total: 0, delta: 0 },
        WorkerHistory { connection_id: 2, total: 0, delta: 0 },
    ];
    let (plan, review) = s.heartbeat(waste, &history, &samples);
    assert_eq!(plan, HeartbeatPlan::Drop(2));
    assert_eq!(review.unwrap().history.len(), 2);
    let idle = vec![sample(1, 50, WorkerState::Retrying)];
    assert_eq!(s.heartbeat(waste, &history, &idle).0, HeartbeatPlan::Hold);
    assert!(!s.is_stream_add(ProtocolFamily::Http2, true));
    s.reused_rtt_samples = 2;
    assert!(s.is_stream_add(ProtocolFamily::Http2, true));
}

#[test]
fn the_weakest_worker_is_found() {
    let sample = |id: u32, bytes: u64| WorkerSample {
        connection_id: id,
        stop_requested: false,
        transferred_bytes: bytes,
        state: WorkerState::Downloading,
    };
    let history = vec![
        WorkerHistory { connection_id: 1, total: 100, delta: 0 },
        WorkerHistory { connection_id: 2, total: 100, delta: 0 },
    ];
    let r = review_workers(&history, &vec![sample(1, 150), sample(2, 110)]);
    assert_eq!(r.weakest, Some(2));
    assert_eq!(r.advances, vec![50, 10]);
}

#[test]
fn tasks_start_with_their_own_numbers() {
    assert_eq!(initial_connections(0, 8), 8);
    assert_eq!(initial_connections(3, 8), 3);
    assert_eq!(initial_borrow_limit_mb(0), 2);
    assert_eq!(initial_borrow_limit_mb(7), 7);
    assert_eq!(initial_steal_floor(16), 16 * MB);
}

#[test]
fn sizes_come_from_where_they_are_known() {
    assert_eq!(size_source(Some(5), false, None), SizeSource::Known(5));
    assert_eq!(size_source(None, true, Some(2)), SizeSource::Known(2 * MB));
    assert_eq!(size_source(None, false, None), SizeSource::AskServer);
    assert_eq!(size_from_header(&Some("1234".to_string())), Some(1234));
    assert_eq!(size_from_header(&Some("x".to_string())), None);
    assert_eq!(size_from_header(&None), None);
}

#[test]
fn http3_is_tried_where_it_was_seen() {
    assert!(should_try_h3(HttpMode::Http3, ProtocolFamily::Http1));
    assert!(should_try_h3(HttpMode::Auto, ProtocolFamily::Http3));
    assert!(!should_try_h3(HttpMode::Auto, ProtocolFamily::Http2));
    assert!(!should_try_h3(HttpMode::Http1, ProtocolFamily::Http3));
}

#[test]
fn leases_are_asked_for_until_one_is_held() {
    let mut e = DownloadEngine::new(4, 2, 6, 0);
    assert_eq!(e.gather_connections(4, false), Some(4));
    assert_eq!(e.gather_connections(4, false), Some(2));
    assert_eq!(e.gather_connections(4, false), None);
    // One that halts does not wait, but takes what there is.
    assert_eq!(e.gather_connections(4, true), Some(0));
    e.release_connection();
    assert_eq!(e.gather_connections(4, true), Some(1));
    e.release_connection();
    assert_eq!(e.gather_connections(0, false), Some(1));
    assert_eq!(excess_leases(5, 3), 2);
    assert_eq!(excess_leases(3, 5), 0);
}

#[test]
fn a_task_ends_in_one_of_three_ways() {
    assert_eq!(task_outcome(true, 10, 10, HaltMode::Running), TaskOutcome::Blocked);
    assert_eq!(task_outcome(false, 10, 10, HaltMode::Running), TaskOutcome::Completed);
    assert_eq!(task_outcome(false, 5, 10, HaltMode::Draining), TaskOutcome::Halted(HaltMode::Draining));
    assert!(heartbeats_over(true, 0, 10));
    assert!(heartbeats_over(false, 10, 10));
    assert!(!heartbeats_over(false, 9, 10));
    assert!(!reports_over(false, false, 5, 10));
    assert!(reports_over(true, false, 10, 10));
    assert!(reports_over(false, true, 5, 10));
}

#[test]
fn bounds_hold_the_initial_number() {
    let b = connection_bounds(2, 6, 4);
    assert_eq!((b.min, b.max, b.initial), (2, 6, 4));
    let c = connection_bounds(5, 3, 4);
    assert!(c.min <= c.max);
    assert!(c.min <= c.initial && c.initial <= c.max);
}

#[test]
fn sessions_leave_notes() {
    let ctx = RequestContext::new().auth("Bearer x").cookies(vec![CookieEntry::new("a", "b", "c.example")]);
    let notes = session_notes(&ctx);
    assert!(notes.contains(&OriginNote::SessionRequirement(SessionRequirementField::Auth, true)));
    assert!(notes.contains(&OriginNote::SessionRequirement(SessionRequirementField::Cookies, true)));
    assert_eq!(protocol_to_note(Some(ProtocolFamily::Http3), ProtocolFamily::Http2), None);
    assert_eq!(protocol_to_note(None, ProtocolFamily::Http2), Some(ProtocolFamily::Http2));
}

#[test]
fn no_more_ratios_are_taken_over_than_fit() {
    let mut m = OriginMemoryStore::empty(true);
    for i in 0..300u64 {
        m.note(&format!("https://h{i}.example:443"), OriginNote::PhiRatio(i));
    }
    m.note("https://none.example:443", OriginNote::RateLimit);
    let store = m.hydrate_phi_ratios();
    assert_eq!(store.len(), 256);
    assert_eq!(store.current_ratio("https://none.example:443"), None);
    let kept = (0..300u64).filter(|i| store.current_ratio(&format!("https://h{i}.example:443")) == Some(*i));
    assert_eq!(kept.count(), 256);
}

#[test]
fn origins_are_remembered() {
    let mut m = OriginMemoryStore::empty(true);
    let origin = "https://example.com:443";
    assert!(!m.memory_hit_for_origin(origin));
    m.note(origin, OriginNote::RateLimit);
    m.note(origin, OriginNote::SessionRequirement(SessionRequirementField::Referer, true));
    let info = m.session_info_for_origin(origin).unwrap();
    assert!(info.saw_rate_limit);
    assert_eq!(info.referer_used, Some(true));
    assert_eq!(info.auth_used, None);
    for i in 0..ORIGIN_MEMORY_CAPACITY {
        m.note(&format!("https://h{i}.example:443"), OriginNote::RangeSupport(true));
    }
    assert_eq!(m.table.len(), ORIGIN_MEMORY_CAPACITY);
    assert!(!m.memory_hit_for_origin(origin));
    let mut off = OriginMemoryStore::empty(false);
    off.note(origin, OriginNote::RateLimit);
    assert!(!off.memory_hit_for_origin(origin));
}

fn growth() -> GrowthSignals {
    GrowthSignals { base_heartbeats: 3, reuse_low: false, reuse_high: false, flat: false }
}

fn sample(connection_id: u32, stop_requested: bool) -> WorkerSample {
    WorkerSample { connection_id, stop_requested, transferred_bytes: 10, state: WorkerState::Downloading }
}

#[test]
fn a_recovery_starts_as_many_workers_as_there_are_connections_for() {
    let mut e = DownloadEngine::new(4, 2, 2, 0);
    let mut s = Scaler::from_config(config(3, 8));
    let mut m = SchedulerMetrics::default();
    let mut leased = 0;
    let done = s.carry_out(
        HeartbeatPlan::Recover(3),
        &vec![],
        &mut e,
        &mut leased,
        ProtocolFamily::Http1,
        growth(),
        &mut m,
    );
    assert_eq!(done, Scaled { started: 2, stopped: None });
    assert_eq!((s.n_active, s.slow_start_remaining, leased), (2, 3, 2));
    assert_eq!((m.http1_scale_adds, m.max_active_connections_observed), (2, 2));
    assert!(!e.request_connection());
}

#[test]
fn a_worker_that_ends_gives_its_connection_back() {
    let mut e = DownloadEngine::new(4, 2, 2, 0);
    let mut s = Scaler::from_config(config(1, 8));
    let mut m = SchedulerMetrics::default();
    s.n_active = 2;
    let mut leased = e.request_connections(5);
    assert_eq!(leased, 2);
    let workers = vec![sample(3, true), sample(4, false)];
    let plan = HeartbeatPlan::Drop(3);
    let done = s.carry_out(plan, &workers, &mut e, &mut leased, ProtocolFamily::Http2, growth(), &mut m);
    assert_eq!(done, Scaled { started: 0, stopped: None });
    assert_eq!((s.n_active, leased), (2, 2));
    let plan = HeartbeatPlan::Drop(4);
    let done = s.carry_out(plan, &workers, &mut e, &mut leased, ProtocolFamily::Http2, growth(), &mut m);
    assert_eq!(done, Scaled { started: 0, stopped: Some(4) });
    assert_eq!((s.n_active, leased, m.http2_scale_drops), (1, 1, 1));
    let plan = HeartbeatPlan::Add;
    let done = s.carry_out(plan, &workers, &mut e, &mut leased, ProtocolFamily::Http2, growth(), &mut m);
    assert_eq!(done, Scaled { started: 1, stopped: None });
    let done = s.carry_out(plan, &workers, &mut e, &mut leased, ProtocolFamily::Http2, growth(), &mut m);
    assert_eq!(done, Scaled { started: 0, stopped: None });
    assert_eq!((s.n_active, leased, m.http2_scale_adds), (2, 2, 1));
}

#[test]
fn what_is_learned_of_a_server_is_noted_at_the_end() {
    assert_eq!(size_notes(true, true), vec![]);
    assert_eq!(
        size_notes(false, true),
        vec![OriginNote::ContentLengthReliable(true), OriginNote::Protocol(ProtocolFamily::Http3)]
    );
    let mut m = SchedulerMetrics::default();
    m.http2_requests = 5;
    m.max_active_connections_observed = 3;
    let of = Measured { max_connections: 8, bdp_bytes: 1, reuse_rate_bits: 7, handshake_ms_bits: 9 };
    let reuse = OriginNote::ReuseMetrics { reuse_rate_bits: 7, handshake_ms_bits: 9 };
    let ctx = RequestContext { referer: Some("https://a".to_string()), ..Default::default() };
    let notes = closing_notes(&m, ProtocolFamily::Other, None, of, false, &Some(ctx.clone()));
    assert_eq!(
        notes,
        vec![
            OriginNote::H2Tuning(tur_rs::engine::transport::learn_http2_client_tuning(8, 3, 1)),
            OriginNote::Protocol(ProtocolFamily::Http2),
            reuse,
            OriginNote::SessionRequirement(SessionRequirementField::Referer, true),
        ]
    );
    let m = SchedulerMetrics::default();
    let notes =
        closing_notes(&m, ProtocolFamily::Http2, Some(ProtocolFamily::Http3), of, true, &Some(ctx.clone()));
    assert_eq!(notes, vec![reuse]);
    let mut m = SchedulerMetrics::default();
    close_metrics(&mut m, 100, 20);
    assert_eq!((m.adaptive_heartbeat_ms_final, m.adaptive_refill_interval_ms_final), (500, 20));
}

#[test]
fn a_damaged_state_is_noticed() {
    let mut saved = snapshot(1).coordinator;
    let c = Coordinator::from_snapshot(saved.clone(), 4 * MB, SchedulerMetrics::default(), 2 * STORAGE_BLOCK_SIZE);
    assert!(c.is_schedulable());
    saved.next_range_id = u64::MAX;
    let c = Coordinator::from_snapshot(saved, 4 * MB, SchedulerMetrics::default(), 2 * STORAGE_BLOCK_SIZE);
    assert!(!c.is_schedulable());
}

#[test]
fn a_snapshot_survives_a_round_trip() {
    let mut c = Coordinator::new(
        12 * MB,
        2,
        3,
        false,
        ScheduleMode::Equal,
        SchedulerMetrics::default(),
        2 * STORAGE_BLOCK_SIZE,
        &[],
    )
    .unwrap();
    let first = c.get_work(0).unwrap();
    c.dl_ranges[first].cursor = MB;
    c.index_state.mark_completed_span(0, MB);
    let kept = c.snapshot();
    let again = Coordinator::from_snapshot(kept.clone(), 12 * MB, SchedulerMetrics::default(), 0).snapshot();
    assert_eq!(again.index_state_bits, kept.index_state_bits);
    assert_eq!(again.index_state_bits[0], 1);
    assert_eq!((again.next_range_id, again.next_unassigned_idx), (kept.next_range_id, kept.next_unassigned_idx));
    assert_eq!((again.borrow_limit_bytes, again.borrow_cursor), (kept.borrow_limit_bytes, kept.borrow_cursor));
    assert_eq!(again.dl_ranges.len(), kept.dl_ranges.len());
    assert_eq!(again.dl_ranges[first].cursor, MB);
    assert_ne!(again.dl_ranges[first].assigned_to, kept.dl_ranges[first].assigned_to);
}

#[test]
fn a_noted_tuning_becomes_a_hint() {
    let learned = tur_rs::engine::transport::learn_http2_client_tuning(8, 3, 500_000);
    let mut store = OriginMemoryStore::empty(true);
    store.note("https://a:443", OriginNote::RateLimit);
    store.note("https://b:443", OriginNote::H2Tuning(learned));
    let reloaded = OriginMemoryStore::load_enabled(store.table.entries.clone());
    let tunings = reloaded.hydrate_h2_tunings();
    let hint = tunings.current_tuning("https://b:443").unwrap();
    assert_eq!(hint.source, tur_rs::engine::transport::H2TuningSource::OriginMemoryHint);
    assert_eq!(hint, tur_rs::engine::transport::ClientTuning { source: hint.source, ..learned });
    assert_eq!(tunings.current_tuning("https://a:443"), None);
}
