use tur_rs::engine::builders::{
    build_equal_ranges, build_fib_mb, build_phi_geometric_ranges, build_seed_ranges, choose_seed_start_idx,
    first_reaching, RangeSpec,
};
use tur_rs::engine::coordinator::{BorrowKind, Coordinator, CoordinatorError, STORAGE_BLOCK_SIZE};
use tur_rs::engine::index_state::{valid_slice_mask, IndexStateMap, INDEX_STATE_BYTES};
use tur_rs::engine::median::{median_u64, sorted_u64};
use tur_rs::engine::metrics::SchedulerMetrics;
use tur_rs::engine::ranges::{
    is_tail_phase_bytes, snapshot_downloaded, ActiveRange, RANGE_STATUS_ACTIVE, RANGE_STATUS_PENDING, UNASSIGNED_CONNECTION,
};
use tur_rs::engine::types::ScheduleMode;
use tur_rs::units::MB;

fn divides(ranges: &[RangeSpec], total: u64) {
    let mut at = 0;
    for r in ranges {
        assert_eq!(r.byte_start, at);
        assert!(r.byte_end > r.byte_start);
        at = r.byte_end;
    }
    assert_eq!(at, total);
}

fn bounds(c: &Coordinator) -> Vec<(u64, u64)> {
    let mut v: Vec<(u64, u64)> = c.dl_ranges.iter().map(|r| (r.byte_start, r.end)).collect();
    v.sort();
    v
}

fn coordinator(total: u64, connections: usize, mode: ScheduleMode) -> Coordinator {
    Coordinator::new(
        total,
        2,
        connections,
        true,
        mode,
        SchedulerMetrics::default(),
        2 * STORAGE_BLOCK_SIZE,
        &[],
    )
    .unwrap()
}

#[test]
fn support_table_is_that_of_fibonacci() {
    let fib = build_fib_mb();
    assert_eq!(&fib[..8], &[1, 2, 3, 5, 8, 13, 21, 34]);
    let n = fib.len();
    assert_eq!(fib[n - 1], fib[n - 2] + fib[n - 3]);
    assert!(fib[n - 1] <= u64::MAX / MB);
    assert!(fib[n - 1] + fib[n - 2] > u64::MAX / MB);
    assert_eq!(first_reaching(&fib, 13), Some(5));
    assert_eq!(first_reaching(&fib, 14), Some(6));
    assert_eq!(first_reaching(&[1, 2], 3), None);
}

#[test]
fn seeds_start_low_enough_for_all_connections() {
    let fib = build_fib_mb();
    assert_eq!(choose_seed_start_idx(&fib, 10, 4, true), 0);
    assert_eq!(choose_seed_start_idx(&fib, 0, 4, false), 0);
    assert_eq!(choose_seed_start_idx(&fib, 10, 4, false), 5);
    assert_eq!(choose_seed_start_idx(&fib, 10, 8, false), 2);
    assert_eq!(choose_seed_start_idx(&fib, 3, 8, false), 0);
}

#[test]
fn seed_ranges_divide_the_file() {
    let fib = build_fib_mb();
    let ranges = build_seed_ranges(&fib, 0, 5, 10 * MB);
    divides(&ranges, 10 * MB);
    let ends: Vec<u64> = ranges.iter().map(|r| r.byte_end / MB).collect();
    assert_eq!(ends, vec![2, 3, 5, 8, 10]);
    let labels: Vec<(u64, u64)> = ranges.iter().map(|r| (r.label_start_mb, r.label_end_mb)).collect();
    assert_eq!(labels, vec![(1, 2), (2, 3), (3, 5), (5, 8), (8, 13)]);
    assert!(build_seed_ranges(&fib, 0, 0, 10).is_empty());
}

#[test]
fn equal_ranges_divide_the_file() {
    let ranges = build_equal_ranges(10 * MB + 3, 4);
    divides(&ranges, 10 * MB + 3);
    let lens: Vec<u64> = ranges.iter().map(|r| r.byte_end - r.byte_start).collect();
    assert_eq!(lens, vec![2621441, 2621441, 2621441, 2621440]);
    assert_eq!(build_equal_ranges(MB, 8).len(), 1);
    assert!(build_equal_ranges(0, 8).is_empty());
    assert!(build_equal_ranges(5, 0).is_empty());
}

#[test]
fn geometric_ranges_divide_the_file() {
    let ranges = build_phi_geometric_ranges(10 * MB + 1, &[1, 2, 3], MB);
    divides(&ranges, 10 * MB + 1);
    let ends: Vec<u64> = ranges.iter().map(|r| r.byte_end).collect();
    assert_eq!(ends, vec![MB, 2 * MB, 3 * MB, 10 * MB + 1]);
    let whole = build_phi_geometric_ranges(10 * MB, &[], MB);
    assert_eq!((whole.len(), whole[0].byte_end), (1, 10 * MB));
    // A first range that would be empty makes all of them equal.
    assert_eq!(build_phi_geometric_ranges(10 * MB, &[0, 5], MB), build_equal_ranges(10 * MB, 3));
}

#[test]
fn plans_divide_the_file() {
    for mode in [ScheduleMode::Fib, ScheduleMode::Equal] {
        for total in [MB + 1, 10 * MB, 123_456_789] {
            let c = coordinator(total, 8, mode);
            let mut at = 0;
            for (start, end) in bounds(&c) {
                assert_eq!(start, at);
                at = end;
            }
            assert_eq!(at, total);
        }
    }
}

#[test]
fn a_file_beyond_the_table_is_refused() {
    let r = Coordinator::new(
        u64::MAX,
        2,
        8,
        true,
        ScheduleMode::Fib,
        SchedulerMetrics::default(),
        0,
        &[],
    );
    assert!(matches!(r, Err(CoordinatorError::ExceedsRangeTable)));
}

#[test]
fn work_is_handed_out_in_order_and_then_borrowed() {
    let mut c = coordinator(64 * MB, 2, ScheduleMode::Equal);
    assert_eq!(c.dl_ranges.len(), 2);
    let a = c.get_work(0).unwrap();
    let b = c.get_work(1).unwrap();
    assert_eq!((a, b), (0, 1));
    assert_eq!(c.dl_ranges[0].assigned_to, 0);
    assert_eq!(c.dl_ranges[0].status, RANGE_STATUS_ACTIVE);
    assert_eq!(c.metrics.direct_assignments, 2);
    let third = c.get_work(2).unwrap();
    assert_eq!(third, 2);
    assert_eq!(c.metrics.borrow_assignments, 1);
    assert_eq!(c.dl_ranges[2].assigned_to, 2);
    assert!(c.dl_ranges[2].parent_range_id.is_some());
    let mut at = 0;
    for (start, end) in bounds(&c) {
        assert_eq!(start, at);
        at = end;
    }
    assert_eq!(at, 64 * MB);
}

#[test]
fn a_download_that_halts_has_no_work() {
    let mut c = coordinator(64 * MB, 2, ScheduleMode::Equal);
    assert_eq!(c.work_for(0, true), None);
    assert_eq!(c.next_unassigned_idx, 0);
    assert_eq!(c.work_for(0, false), Some(0));
}

#[test]
fn nothing_is_borrowed_from_small_remainders() {
    let mut c = coordinator(4 * MB, 1, ScheduleMode::Equal);
    assert_eq!(c.get_work(0), Some(0));
    assert_eq!(c.get_work(1), None);
    assert_eq!(c.select_borrow_candidate(1), None);
}

#[test]
fn borrow_kinds_have_names() {
    assert_eq!(BorrowKind::Standard.as_str(), "standard");
    assert_eq!(BorrowKind::Straggler.as_str(), "straggler");
    assert_eq!(BorrowKind::Tail.as_str(), "tail");
}

#[test]
fn a_resumed_plan_keeps_its_progress() {
    let mut c = coordinator(64 * MB, 2, ScheduleMode::Equal);
    let a = c.get_work(0).unwrap();
    c.dl_ranges[a].cursor += 5 * MB;
    let before = snapshot_downloaded(&c.dl_ranges, 64 * MB);
    assert_eq!(before, 5 * MB);
    let again = Coordinator::from_snapshot(c.snapshot(), 64 * MB, SchedulerMetrics::default(), 2 * STORAGE_BLOCK_SIZE);
    assert_eq!(snapshot_downloaded(&again.dl_ranges, 64 * MB), before);
    assert_eq!(again.dl_ranges[a].status, RANGE_STATUS_PENDING);
    assert_eq!(again.dl_ranges[a].assigned_to, UNASSIGNED_CONNECTION);
    assert_eq!(bounds(&again), bounds(&c));
}

#[test]
fn the_summary_tells_of_the_plan() {
    let mut c = coordinator(64 * MB, 2, ScheduleMode::Equal);
    let _ = c.get_work(0);
    c.index_state.mark_completed_span(0, 8 * MB);
    let s = c.log_summary(64 * MB);
    assert_eq!(s.total_size, 64 * MB);
    assert_eq!(s.final_ranges, 2);
    assert_eq!(s.vector_consumed, 1);
    assert_eq!(s.index_state_buckets, 8);
    assert_eq!(s.index_state_bytes, 8);
    assert_eq!(s.completed_slices, 8);
    assert_eq!(c.metrics.adaptive_min_steal_bytes_final, 2 * STORAGE_BLOCK_SIZE);
}

#[test]
fn the_last_tenth_is_the_tail() {
    assert!(!is_tail_phase_bytes(0, 0));
    assert!(!is_tail_phase_bytes(89, 100));
    assert!(is_tail_phase_bytes(96, 100));
    let c = coordinator(64 * MB, 2, ScheduleMode::Equal);
    assert!(!c.is_tail_phase());
    assert_eq!(c.effective_borrow_limit_bytes(), 8 * MB);
}

#[test]
fn slices_are_marked_when_they_are_whole() {
    let mut m = IndexStateMap::new(3 * MB + 1);
    assert_eq!(m.bucket_count(), 1);
    assert_eq!(m.completed_slices(), 0);
    m.mark_completed_span(0, MB - 1);
    assert_eq!(m.completed_slices(), 0);
    m.mark_completed_span(0, 2 * MB + 5);
    assert_eq!(m.completed_slices(), 2);
    m.mark_completed_span(2 * MB, 3 * MB + 1);
    assert_eq!(m.completed_slices(), 4);
    assert_eq!(m.snapshot_bits(), vec![0b1111]);
    let again = IndexStateMap::from_snapshot(3 * MB + 1, vec![0xff]);
    assert_eq!(again.completed_slices(), 4);
    assert_eq!(IndexStateMap::new(INDEX_STATE_BYTES + 1).bucket_count(), 2);
    assert_eq!(valid_slice_mask(3 * MB, 0), 0b111);
    assert_eq!(valid_slice_mask(9 * MB, 0), 0xff);
    assert_eq!(valid_slice_mask(9 * MB, 1), 1);
    assert_eq!(valid_slice_mask(9 * MB, 2), 0);
}

#[test]
fn the_median_is_the_middle() {
    assert_eq!(sorted_u64(&vec![3, 1, 2]), vec![1, 2, 3]);
    assert_eq!(median_u64(&vec![]), 0);
    assert_eq!(median_u64(&vec![9, 1, 5]), 5);
    assert_eq!(median_u64(&vec![4, 1, 3, 2]), 3);
}

#[test]
fn a_range_is_given_back_where_it_stands() {
    let mut r = ActiveRange {
        id: 1,
        label_start_mb: 0,
        label_end_mb: 1,
        byte_start: 0,
        assigned_to: UNASSIGNED_CONNECTION,
        cursor: 0,
        end: 100,
        parent_range_id: None,
        status: RANGE_STATUS_PENDING,
        last_sample_cursor: 0,
        last_sample_at_ms: 0,
        recent_speed_bps: 0,
    };
    r.assign(4);
    assert_eq!((r.assigned_to, r.status), (4, RANGE_STATUS_ACTIVE));
    assert_eq!(r.remaining_bytes(), 100);
    r.relinquish_range(40);
    assert_eq!((r.cursor, r.assigned_to, r.status), (40, UNASSIGNED_CONNECTION, RANGE_STATUS_PENDING));
    assert_eq!(r.remaining_bytes(), 60);
}

#[test]
fn the_support_table_does_not_cut_a_small_file() {
    for total in [1, 1000, MB] {
        assert_eq!(coordinator(total, 4, ScheduleMode::Fib).dl_ranges.len(), 0);
        assert_eq!(coordinator(total, 4, ScheduleMode::Equal).dl_ranges.len(), 1);
    }
    assert_eq!(coordinator(MB + 1, 4, ScheduleMode::Fib).dl_ranges.len(), 1);
}

#[test]
fn any_table_can_be_cut_at() {
    let ranges = build_seed_ranges(&[9, 3, 2, 5, 5, 20], 0, 5, 10 * MB);
    let ends: Vec<u64> = ranges.iter().map(|r| r.byte_end / MB).collect();
    assert_eq!(ends, vec![3, 5, 10]);
    let labels: Vec<(u64, u64)> = ranges.iter().map(|r| (r.label_start_mb, r.label_end_mb)).collect();
    assert_eq!(labels, vec![(9, 3), (2, 5), (5, 20)]);
}
