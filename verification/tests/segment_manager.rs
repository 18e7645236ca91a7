use starfish::commitlog::{ConfigBuilder, ConfigError, SyncMode};
use starfish::descriptor::Descriptor;
use starfish::segment::{Allocation, CommitlogError, Segment};
use starfish::segment_manager::{SegmentManager, Stats};

fn config(segment_mb: u64, total_mb: u64, flushes: usize) -> starfish::commitlog::Config {
    let mut b = ConfigBuilder::new();
    b.commit_log_location("/tmp/commitlog".to_string());
    b.commitlog_segment_size_in_mb(segment_mb);
    b.commitlog_total_space_in_mb(total_mb);
    b.max_active_flushes(flushes);
    b.build().unwrap()
}

#[test]
fn config_defaults() {
    let mut b = ConfigBuilder::new();
    assert_eq!(b.build().err(), Some(ConfigError::MissingCommitLogLocation));
    b.commit_log_location("/data".to_string());
    let c = b.build().unwrap();
    assert_eq!(c.commit_log_location, "/data");
    assert_eq!(c.commitlog_total_space_in_mb, 100);
    assert_eq!(c.commitlog_segment_size_in_mb, 32);
    assert_eq!(c.commitlog_sync_period_in_ms, 10_000);
    assert_eq!(c.max_reserve_segments, 12);
    assert_eq!(c.max_active_flushes, 0);
    assert_eq!(c.sync_mode, SyncMode::Batch);
    b.sync_mode(SyncMode::Periodic);
    b.commitlog_sync_period_in_ms(5);
    b.max_reserve_segments(1);
    let c = b.build().unwrap();
    assert_eq!(c.sync_mode, SyncMode::Periodic);
    assert_eq!(c.commitlog_sync_period_in_ms, 5);
    assert_eq!(c.max_reserve_segments, 1);
}

#[test]
fn segment_sizes() {
    let mut m = SegmentManager::create(config(32, 100, 1));
    assert_eq!(m.max_size(), 32 << 20);
    assert!(m.sanity_check_size(16 << 20).is_ok());
    assert_eq!(
        m.sanity_check_size((16 << 20) + 1),
        Err(CommitlogError::MutationTooLarge { size: (16 << 20) + 1, max_size: 16 << 20 })
    );
    assert_eq!(m.allocate_when_possible(1), Ok(Allocation::NeedsNewSegment));
    // At least one MiB, at most what a 32-bit position addresses.
    assert_eq!(SegmentManager::create(config(0, 100, 1)).max_size(), 1 << 20);
    assert_eq!(SegmentManager::create(config(8192, 100, 1)).max_size(), u32::MAX as u64);
}

#[test]
fn segment_ids_count_up() {
    let mut m = SegmentManager::create(config(32, 100, 1));
    assert_eq!(m.next_segment_id(), 0);
    assert_eq!(m.next_segment_id(), 1);
    assert_eq!(m.next_segment_id(), 2);
}

#[test]
fn current_segment_is_the_newest_open_one() {
    let mut m = SegmentManager::create(config(1, 100, 1));
    assert_eq!(m.current_segment(), None);
    assert_eq!(m.begin_new_segment(), Ok(()));
    m.add_segment(Segment::create(Descriptor::create(0)));
    assert_eq!(m.current_segment(), Some(0));
    let mut s = Segment::create(Descriptor::create(1));
    s.allocate(1, 10, 1 << 19).unwrap();
    m.add_segment(s);
    assert_eq!(m.current_segment(), None);
}

#[test]
fn flushes_over_the_limit_are_counted() {
    let mut m = SegmentManager::create(config(32, 100, 2));
    assert!(!m.begin_flush());
    assert!(m.begin_flush());
    m.end_flush();
    m.record_flush_success();
    m.record_slack(10);
    m.record_cycle_success(4096);
    let _ = Stats::default();
}

#[test]
fn timer_requests_flush_when_disk_is_full() {
    let mut m = SegmentManager::create(config(1, 1, 1));
    // No new segment since the last check: nothing to do.
    assert!(!m.on_timer());
    m.begin_new_segment().unwrap();
    assert!(!m.on_timer());
    m.record_cycle_success(1 << 20);
    assert!(m.on_timer());
    // The counter was reset.
    assert!(!m.on_timer());
}

#[test]
fn mutations_go_to_the_active_segment() {
    let mut m = SegmentManager::create(config(1, 100, 1));
    let half = 1u64 << 19;
    assert_eq!(
        m.allocate_when_possible(half + 1),
        Err(CommitlogError::MutationTooLarge { size: half + 1, max_size: half })
    );
    // No segment yet: one is needed.
    assert_eq!(m.allocate_when_possible(100), Ok(Allocation::NeedsNewSegment));
    m.begin_new_segment().unwrap();
    m.add_segment(Segment::create(Descriptor::create(0)));
    assert_eq!(m.allocate_when_possible(100), Ok(Allocation::Accepted));
    assert_eq!(m.current_segment(), Some(0));
    // With its entry overhead the mutation is over the limit.
    assert_eq!(
        m.allocate_when_possible(half),
        Err(CommitlogError::MutationTooLarge { size: half + 12, max_size: half })
    );
    assert_eq!(m.current_segment(), Some(0));
}
