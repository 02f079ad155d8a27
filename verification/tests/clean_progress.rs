use disk_cleaner::cleaner::{CleanOutcome, Cleaner, DeleteMethod};
use disk_cleaner::config::Config;
use disk_cleaner::progress::{ProgressState, ProgressTracker, TaskUpdate};
use disk_cleaner::scanner::Scanner;

#[test]
fn trash_mode_never_selects_permanent_deletion() {
    let trashing = Cleaner::new(true);
    assert_eq!(trashing.delete_method(), DeleteMethod::MoveToTrash);
    let permanent = Cleaner::new(false);
    assert_eq!(permanent.delete_method(), DeleteMethod::DeletePermanently);
}

#[test]
fn cleaned_bytes_sum_only_actual_removals() {
    let cleaner = Cleaner::new(true);
    // A file whose metadata could not be read is skipped, and a failed
    // removal contributes nothing; neither aborts the rest.
    let outcomes = vec![
        CleanOutcome::Removed { size: 10 },
        CleanOutcome::MetadataUnavailable,
        CleanOutcome::Removed { size: 5 },
        CleanOutcome::RemoveFailed,
        CleanOutcome::Removed { size: 1 },
    ];
    assert_eq!(cleaner.clean_files(&outcomes), 16);
    assert_eq!(cleaner.clean_files(&vec![]), 0);
    assert_eq!(cleaner.clean_files(&vec![CleanOutcome::RemoveFailed]), 0);
}

#[test]
fn cleaning_one_temporary_file_reclaims_its_size() {
    let cleaner = Cleaner::new(true);
    assert_eq!(cleaner.delete_method(), DeleteMethod::MoveToTrash);
    let outcomes = vec![CleanOutcome::Removed { size: 10 }];
    assert_eq!(cleaner.clean_files(&outcomes), 10);
}

#[test]
fn estimate_sums_readable_sizes() {
    let cleaner = Cleaner::new(false);
    let sizes = vec![Some(3), None, Some(4)];
    assert_eq!(cleaner.estimate_cleanup_size(&sizes), 7);
    assert_eq!(cleaner.estimate_cleanup_size(&vec![]), 0);
}

#[test]
fn tracker_starts_idle_and_busy_states() {
    let mut t = ProgressTracker::new();
    assert!(!t.is_busy());
    assert!(matches!(t.state, ProgressState::Idle));

    t.set_scanning("root/a".to_string(), 100);
    assert!(t.is_busy());
    t.set_finding_duplicates(3, 9);
    assert!(t.is_busy());
    t.set_cleaning(1, 2);
    assert!(t.is_busy());

    t.reset();
    assert!(!t.is_busy());
    assert!(matches!(t.state, ProgressState::Idle));
}

#[test]
fn completions_are_consumed_back_to_idle() {
    let scanner = Scanner::new(Config::default());
    let result = scanner.scan(&vec![], &vec![], 1);

    let mut t = ProgressTracker::new();
    t.set_scan_complete(result);
    assert!(!t.is_busy());
    match t.take_completion() {
        TaskUpdate::ScanFinished(r) => {
            assert_eq!(r.total_files, 0);
            assert_eq!(r.scan_duration_ms, 1);
        },
        _ => panic!("expected a finished scan"),
    }
    assert!(matches!(t.state, ProgressState::Idle));

    t.set_duplicates_complete(vec![vec!["a".to_string(), "b".to_string()]]);
    match t.take_completion() {
        TaskUpdate::DuplicatesFinished(groups) => {
            assert_eq!(groups, vec![vec!["a".to_string(), "b".to_string()]]);
        },
        _ => panic!("expected finished duplicates"),
    }
    assert!(matches!(t.state, ProgressState::Idle));

    t.set_cleanup_complete(321);
    match t.take_completion() {
        TaskUpdate::CleanupFinished(bytes) => assert_eq!(bytes, 321),
        _ => panic!("expected a finished cleanup"),
    }
    assert!(matches!(t.state, ProgressState::Idle));
}

#[test]
fn errors_are_reported_but_not_consumed() {
    let mut t = ProgressTracker::new();
    t.set_error("scan failed: no such root".to_string());
    assert!(!t.is_busy());
    match t.take_completion() {
        TaskUpdate::Failed(msg) => assert_eq!(msg, "scan failed: no such root"),
        _ => panic!("expected a failure"),
    }
    // The error stays until a reset, as the observer clears it explicitly.
    assert!(matches!(&t.state, ProgressState::Error(m) if m == "scan failed: no such root"));
    t.reset();
    assert!(matches!(t.state, ProgressState::Idle));
}

#[test]
fn idle_and_running_states_yield_no_update() {
    let mut t = ProgressTracker::new();
    assert!(matches!(t.take_completion(), TaskUpdate::Unchanged));
    t.set_scanning("x".to_string(), 1);
    assert!(matches!(t.take_completion(), TaskUpdate::Unchanged));
    assert!(t.is_busy());
    // A completion whose every result slot is empty carries nothing.
    t.state = ProgressState::Complete { scan_result: None, duplicates: None, cleaned_bytes: None };
    assert!(matches!(t.take_completion(), TaskUpdate::Unchanged));
    assert!(matches!(t.state, ProgressState::Complete { .. }));
}
