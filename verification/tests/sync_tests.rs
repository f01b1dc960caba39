use pointeuse::sync::unique_dates;
use pointeuse::sync::sync_status;
use pointeuse::sync::{
    eligible_for_retry, finish_sync, idle_sync, is_permanent_error, retry_backoff_secs, EntryEvent,
    SyncStatusCounts, SyncTally,
};

#[test]
fn permanent_errors_are_recognised_case_insensitively() {
    assert!(is_permanent_error("Odoo: ACCESS DENIED for user"));
    assert!(is_permanent_error("This is a Private Task"));
    assert!(is_permanent_error("ValidationError: Validation Error on field"));
    assert!(!is_permanent_error("connection reset by peer"));
}

#[test]
fn a_pass_counts_each_outcome_once() {
    let mut t = SyncTally::new();
    t.record(EntryEvent::DuplicateMarked);
    t.record(EntryEvent::Accepted { marked: true });
    t.record(EntryEvent::Accepted { marked: false });
    t.record(EntryEvent::Refused { permanent: true });
    t.record(EntryEvent::Refused { permanent: false });
    t.record(EntryEvent::DuplicateMarkFailed);
    let counts = SyncStatusCounts { pending: 2, syncing: 0, synced: 5, failed: 1, duplicate: 1, rejected: 1 };
    let r = finish_sync(t, counts, 4);
    assert_eq!((r.synced, r.failed, r.duplicates, r.rejected), (1, 3, 1, 1));
    assert_eq!(r.remaining, 3);
    assert_eq!(r.needs_review, 4);
    let idle = idle_sync(0, 2);
    assert_eq!((idle.synced, idle.remaining, idle.needs_review), (0, 0, 2));
}

#[test]
fn retries_back_off_from_thirty_seconds_to_an_hour() {
    assert_eq!(retry_backoff_secs(0), 0);
    assert_eq!(retry_backoff_secs(1), 30);
    assert_eq!(retry_backoff_secs(2), 60);
    assert_eq!(retry_backoff_secs(3), 120);
    assert_eq!(retry_backoff_secs(7), 1920);
    assert_eq!(retry_backoff_secs(8), 3600);
    assert_eq!(retry_backoff_secs(500), 3600);
    assert_eq!(retry_backoff_secs(-3), 0);
}

#[test]
fn an_entry_is_retried_once_its_wait_is_over() {
    assert!(eligible_for_retry(0, None));
    assert!(eligible_for_retry(2, Some(60)));
    assert!(!eligible_for_retry(2, Some(59)));
    assert!(eligible_for_retry(9, None));
    assert!(!eligible_for_retry(10, None));
    assert!(!eligible_for_retry(1, Some(-5)));
}

#[test]
fn the_dates_of_a_pass_are_sorted_without_repeats() {
    let ds: Vec<String> = ["2026-03-25", "2026-03-24", "2026-03-25", "2026-01-02"].iter().map(|s| s.to_string()).collect();
    assert_eq!(unique_dates(&ds), vec!["2026-01-02".to_string(), "2026-03-24".to_string(), "2026-03-25".to_string()]);
    assert!(unique_dates(&[]).is_empty());
}

#[test]
fn the_status_counts_everything_not_yet_synced() {
    let counts = SyncStatusCounts { pending: 1, syncing: 2, synced: 50, failed: 3, duplicate: 4, rejected: 5 };
    let s = sync_status(counts, 7);
    assert_eq!(s.pending_count, 15);
    assert_eq!(s.needs_review, 7);
}
