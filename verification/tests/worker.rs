use tur_rs::engine::challenge::ChallengeKind;
use tur_rs::engine::coordinator::{Coordinator, STORAGE_BLOCK_SIZE};
use tur_rs::engine::h3_worker::{h3_accepts, H3Outcome, H3Step, H3Worker};
use tur_rs::engine::helpers::RetryHint;
use tur_rs::engine::metrics::SchedulerMetrics;
use tur_rs::engine::ranges::{RANGE_STATUS_FINISHED, RANGE_STATUS_PENDING, UNASSIGNED_CONNECTION};
use tur_rs::engine::runtime::WorkerControl;
use tur_rs::engine::scaler::Scaler;
use tur_rs::engine::types::{ScalerConfig, ScheduleMode};
use tur_rs::engine::worker::{
    after_chunk, challenge_message, judge_first_chunk, range_value, read_response, AfterChunk, RangeStep, ChallengeVerdict, ChunkOutcome, LiveWorker,
    PendingWrite, RetryOutcome, StartupProbe, StreamEnd, WorkerStep,
};
use tur_rs::units::MB;

fn coordinator(total: u64) -> Coordinator {
    Coordinator::new(
        total,
        2,
        1,
        true,
        ScheduleMode::Equal,
        SchedulerMetrics::default(),
        2 * STORAGE_BLOCK_SIZE,
        &[],
    )
    .unwrap()
}

fn scaler() -> Scaler {
    Scaler::from_config(ScalerConfig { min_connections: 1, max_connections: 4, heartbeat_ms: 2000 })
}

#[test]
fn a_worker_downloads_a_range() {
    let mut c = coordinator(3 * MB);
    let mut w = LiveWorker::new(0);
    let mut control = WorkerControl::new(0, false);
    let mut downloaded = 0u64;
    assert_eq!(w.next_step(&mut c, false), WorkerStep::AskForWork);
    let work = c.get_work(0);
    assert!(w.work_received(&c, work));
    assert_eq!(w.next_step(&mut c, false), WorkerStep::Send { range: 0, first: 0, last: 3 * MB - 1 });
    let chunk = vec![7u8; 2 * MB as usize];
    assert_eq!(w.take_chunk(&mut c, &mut control, &mut downloaded, 0, &chunk, 10), ChunkOutcome::Taken(chunk.len()));
    assert_eq!(w.pending.take(), Some((0, chunk.clone())));
    // No more than belongs to the range is taken.
    assert_eq!(
        w.take_chunk(&mut c, &mut control, &mut downloaded, 0, &chunk, 20),
        ChunkOutcome::Taken(MB as usize)
    );
    let (at, data) = w.pending.take().unwrap();
    assert_eq!((at, data.len()), (2 * MB, MB as usize));
    assert_eq!((downloaded, control.transferred_bytes), (3 * MB, 3 * MB));
    assert_eq!(c.index_state.completed_slices(), 3);
    assert_eq!(w.take_chunk(&mut c, &mut control, &mut downloaded, 0, &chunk, 30), ChunkOutcome::PastEnd);
    assert_eq!(w.stream_ended(&mut c, 0), StreamEnd::Complete);
    assert_eq!(c.dl_ranges[0].status, RANGE_STATUS_FINISHED);
}

#[test]
fn a_halted_worker_stops() {
    let mut c = coordinator(3 * MB);
    let mut w = LiveWorker::new(0);
    assert_eq!(w.next_step(&mut c, true), WorkerStep::Stop);
}

#[test]
fn a_range_that_is_given_back_keeps_its_progress() {
    let mut c = coordinator(3 * MB);
    let mut w = LiveWorker::new(0);
    let mut control = WorkerControl::new(0, false);
    let mut downloaded = 0u64;
    let work = c.get_work(0);
    assert!(w.work_received(&c, work));
    let _ = w.next_step(&mut c, false);
    let _ = w.take_chunk(&mut c, &mut control, &mut downloaded, 0, &[1u8; 100], 10);
    let _ = w.pending.take();
    w.give_back(&mut c, 0);
    assert_eq!(c.dl_ranges[0].cursor, 100);
    assert_eq!(c.dl_ranges[0].status, RANGE_STATUS_PENDING);
    assert_eq!(c.dl_ranges[0].assigned_to, UNASSIGNED_CONNECTION);
}

#[test]
fn too_many_failures_end_a_worker() {
    let mut c = coordinator(3 * MB);
    let mut w = LiveWorker::new(0);
    let mut control = WorkerControl::new(0, false);
    let mut s = scaler();
    let work = c.get_work(0);
    let _ = w.work_received(&c, work);
    let mut waits = 0;
    loop {
        match w.handle_range_retry(&mut c, &mut s, &mut control, 0, 5, 9, "boom", RetryHint::Backoff(250)) {
            RetryOutcome::Wait(ms) => {
                assert_eq!(ms, 250);
                waits += 1;
            }
            RetryOutcome::Fail(text) => {
                assert_eq!(text, "range#1 failed after 8 retries at bytes 5..9: boom");
                break;
            }
        }
    }
    assert_eq!(waits, 8);
    assert_eq!(c.metrics.retry_attempts, 9);
    assert_eq!(c.metrics.retry_wait_ms, 2000);
}

#[test]
fn a_hint_to_slow_down_gives_the_range_back() {
    let mut c = coordinator(3 * MB);
    let mut w = LiveWorker::new(0);
    let mut control = WorkerControl::new(0, false);
    let mut s = scaler();
    let work = c.get_work(0);
    let _ = w.work_received(&c, work);
    let r = w.handle_range_retry(&mut c, &mut s, &mut control, 0, 77, 99, "429", RetryHint::ReduceWorkers(2000));
    assert!(matches!(r, RetryOutcome::Wait(2000)));
    assert!(control.stop_requested);
    assert!(s.skip_growth_sample);
    assert_eq!(s.slow_start_remaining, 4);
    assert_eq!((c.dl_ranges[0].cursor, c.dl_ranges[0].status), (77, RANGE_STATUS_PENDING));
    let r = w.handle_range_retry(&mut c, &mut s, &mut control, 0, 77, 99, "416", RetryHint::Abort);
    assert!(matches!(r, RetryOutcome::Fail(_)));
}

#[test]
fn the_next_range_is_asked_for_ahead_of_time() {
    let mut c = coordinator(3 * MB);
    let mut w = LiveWorker::new(0);
    let work = c.get_work(0);
    let _ = w.work_received(&c, work);
    assert!(!w.start_prefetch(&mut c, 3 * MB, 2 * MB));
    assert!(w.start_prefetch(&mut c, MB, 2 * MB));
    assert!(!w.start_prefetch(&mut c, MB, 2 * MB));
    assert_eq!((c.metrics.prefetch_requests, c.metrics.max_prefetch_trigger_bytes), (1, 2 * MB));
    w.prefetch_received(&mut c, None);
    assert!(w.no_more_work);
    assert!(!w.start_prefetch(&mut c, MB, 2 * MB));
}

#[test]
fn a_dry_run_steps_through_its_range() {
    let mut c = coordinator(MB);
    let mut w = LiveWorker::new(0);
    let mut control = WorkerControl::new(0, false);
    let mut downloaded = 0u64;
    let work = c.get_work(0);
    let _ = w.work_received(&c, work);
    let mut steps = 0;
    while downloaded < MB {
        let _ = w.next_step(&mut c, false);
        let _ = w.dry_step(&mut c, &mut control, &mut downloaded, 0, steps);
        steps += 1;
    }
    assert_eq!(steps, 4);
    assert_eq!(c.index_state.completed_slices(), 1);
}

#[test]
fn writes_are_gathered() {
    let mut p = PendingWrite::new();
    assert!(p.take().is_none());
    p.append_pending_write(10, b"ab");
    p.append_pending_write(12, b"cd");
    assert_eq!(p.take(), Some((10, b"abcd".to_vec())));
    let mut m = SchedulerMetrics::default();
    p.update_pending_write_target(300_000, &mut m);
    assert_eq!(m.max_write_buffer_target_bytes, 300_000);
    assert!(!p.is_due());
    p.append_pending_write(0, &vec![0u8; 300_000]);
    assert!(p.is_due());
    p.reset_pending_write_target();
    assert_eq!(p.target_bytes, 131_072);
}

#[test]
fn the_first_byte_is_noted_once() {
    let mut m = SchedulerMetrics::default();
    let mut s = StartupProbe::new();
    s.note_first_assignment(5, &mut m);
    s.note_first_assignment(9, &mut m);
    assert_eq!(s.first_assignment_wait_ms, Some(5));
    s.note_first_request_setup(7, &mut m);
    assert!(s.note_first_byte(11, 23, &mut m));
    assert!(!s.note_first_byte(12, 24, &mut m));
    assert_eq!((s.first_byte_ms, s.total_to_first_byte_ms), (Some(11), Some(23)));
}

#[test]
fn responses_are_read() {
    let some = |s: &str| Some(s.to_string());
    let ranged = read_response(206, true, &None, &some("application/zip"), &None);
    assert!(ranged.supports_ranges);
    assert!(!ranged.may_be_challenge);
    let page = read_response(200, false, &None, &some("text/html; charset=utf-8"), &None);
    assert!(page.may_be_challenge);
    let saved = read_response(200, false, &None, &some("text/html"), &some("attachment; filename=x"));
    assert!(!saved.may_be_challenge);
    assert!(h3_accepts(206));
    assert!(!h3_accepts(404));
}

#[test]
fn pages_in_place_of_files_are_noticed() {
    let page = b"<html><body><div class=\"g-recaptcha\">Please complete the CAPTCHA challenge</div></body></html>";
    assert_eq!(judge_first_chunk(false, page), ChallengeVerdict::File);
    assert_eq!(judge_first_chunk(true, page), ChallengeVerdict::Blocked(ChallengeKind::CaptchaChallenge));
    let plain = b"<html><body><h1>Welcome</h1><p>Some content here</p></body></html>";
    assert_eq!(judge_first_chunk(true, plain), ChallengeVerdict::Suspicious(ChallengeKind::UnexpectedHtml));
    assert!(challenge_message(ChallengeKind::CaptchaChallenge).contains(ChallengeKind::CaptchaChallenge.as_str()));
}

#[test]
fn a_range_header_names_the_last_byte() {
    assert_eq!(range_value(0, 1023), "bytes=0-1023");
}

#[test]
fn an_h3_connection_downloads_a_range() {
    let mut c = coordinator(3 * MB);
    let mut w = H3Worker::new(0, false);
    let mut control = WorkerControl::new(0, false);
    let mut downloaded = 0u64;
    assert_eq!(w.next_step(&mut c, false), H3Step::AskForWork);
    let work = c.get_work(0);
    assert!(w.work_received(&c, work));
    assert_eq!(w.next_step(&mut c, false), H3Step::Send { range: 0, first: 0, last: 3 * MB - 1 });
    assert_eq!(c.metrics.http_requests, 1);
    let mut a = w.begin();
    a.note_first_byte(40, &mut c.metrics);
    a.note_first_byte(90, &mut c.metrics);
    assert_eq!(a.take_chunk(&mut control, &mut downloaded, 0), None);
    assert_eq!(a.take_chunk(&mut control, &mut downloaded, 2 * MB), Some(0));
    assert_eq!(a.take_chunk(&mut control, &mut downloaded, MB), Some(2 * MB));
    assert_eq!((downloaded, control.transferred_bytes), (3 * MB, 3 * MB));
    assert_eq!(w.request_ended(&mut c, a, 206, 100), H3Outcome::Accepted(40));
    assert_eq!((c.metrics.http_ttfb_ms, c.metrics.http_setup_ms, c.metrics.http_stream_ms), (40, 40, 60));
    assert_eq!(c.metrics.http3_requests, 1);
    assert_eq!(w.next_step(&mut c, false), H3Step::Again);
    assert_eq!(c.dl_ranges[0].status, RANGE_STATUS_FINISHED);
    assert_eq!(w.next_step(&mut c, true), H3Step::Stop);
}

#[test]
fn an_h3_connection_goes_on_after_a_refusal() {
    let mut c = coordinator(3 * MB);
    let mut w = H3Worker::new(0, false);
    let work = c.get_work(0);
    assert!(w.work_received(&c, work));
    let _ = w.next_step(&mut c, false);
    let a = w.begin();
    assert_eq!(w.request_ended(&mut c, a, 429, 30), H3Outcome::Refused { rate_limited: true });
    assert_eq!((c.metrics.http_setup_ms, c.metrics.http_stream_ms), (30, 0));
    let a = w.begin();
    assert_eq!(w.request_ended(&mut c, a, 503, 30), H3Outcome::Refused { rate_limited: false });
    w.request_broke();
    assert!(!w.has_file);
    assert_eq!(w.next_step(&mut c, false), H3Step::Send { range: 0, first: 0, last: 3 * MB - 1 });
}

#[test]
fn a_chunk_is_followed_by_the_right_step() {
    assert_eq!(after_chunk(false, false, 5, 5), AfterChunk { write_all: false, look_ahead: true, range: RangeStep::GoOn });
    assert_eq!(after_chunk(false, false, 3, 5), AfterChunk { write_all: true, look_ahead: true, range: RangeStep::LetGo });
    assert_eq!(after_chunk(false, true, 5, 5).range, RangeStep::GiveBack);
    assert_eq!(
        after_chunk(true, false, 3, 5),
        AfterChunk { write_all: true, look_ahead: false, range: RangeStep::GiveBack }
    );
}

#[test]
fn a_large_buffer_is_given_up_once_it_is_empty() {
    let mut pending = PendingWrite::new();
    assert_eq!(pending.trimmed_capacity(262_144), None);
    assert_eq!(pending.trimmed_capacity(262_145), Some(131_072));
    pending.append_pending_write(0, b"x");
    assert_eq!(pending.trimmed_capacity(262_145), None);
}

#[test]
fn an_h3_connection_counts_what_comes_before_it_looks_at_the_status() {
    let mut c = coordinator(3 * MB);
    let mut w = H3Worker::new(0, false);
    let mut control = WorkerControl::new(0, false);
    let mut downloaded = 0u64;
    let work = c.get_work(0);
    assert!(w.work_received(&c, work));
    let _ = w.next_step(&mut c, false);
    let mut a = w.begin();
    assert_eq!(a.take_chunk(&mut control, &mut downloaded, 4 * MB), Some(0));
    assert_eq!(w.request_ended(&mut c, a, 404, 10), H3Outcome::Refused { rate_limited: false });
    assert_eq!((w.local_cursor, downloaded), (4 * MB, 4 * MB));
    assert_eq!(c.dl_ranges[0].cursor, 0);
    assert_eq!(w.next_step(&mut c, false), H3Step::Again);
    assert_eq!(w.current, None);
}
