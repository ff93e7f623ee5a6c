use transjlc::progress::{ProgressAwareOperation, ProgressTracker};

#[test]
fn test_progress_tracker_creation() {
    let enabled_tracker = ProgressTracker::new(true);
    let disabled_tracker = ProgressTracker::new(false);

    assert!(enabled_tracker.enabled);
    assert!(!disabled_tracker.enabled);
}

#[test]
fn progress_bar_is_shown_only_when_enabled_and_needed() {
    assert!(ProgressTracker::new(true).shows_bar(10));
    assert!(!ProgressTracker::new(false).shows_bar(10));
    assert!(!ProgressTracker::new(true).shows_bar(0));
    assert!(ProgressTracker::new(true).shows_spinner());
    assert!(!ProgressTracker::new(false).shows_spinner());
}

#[test]
fn operation_counts_its_steps() {
    let mut op = ProgressAwareOperation::new("test", 3);
    assert_eq!(op.total, 3);
    assert_eq!(op.current, 0);
    assert_eq!(op.data, "test");
    assert!(!op.is_complete());

    op.increment();
    assert_eq!(op.current, 1);
    assert!(!op.is_complete());

    op.increment();
    op.increment();
    assert_eq!(op.current, 3);
    assert!(op.is_complete());

    let empty = ProgressAwareOperation::new((), 0);
    assert!(empty.is_complete());
}

fn progress_fraction<T>(op: &ProgressAwareOperation<T>) -> f64 {
    if op.total == 0 {
        0.0
    } else {
        op.current as f64 / op.total as f64
    }
}

#[test]
fn test_progress_aware_operation() {
    let mut op = ProgressAwareOperation::new("test", 3);

    assert_eq!(progress_fraction(&op), 0.0);
    assert!(!op.is_complete());

    op.increment();
    assert_eq!(op.current, 1);
    assert!((progress_fraction(&op) - 0.333).abs() < 0.01);

    op.increment();
    op.increment();
    assert!(op.is_complete());
    assert_eq!(progress_fraction(&op), 1.0);
}

#[test]
fn test_progress_bar_creation_when_disabled() {
    let tracker = ProgressTracker::new(false);
    assert!(!tracker.shows_bar(10));
}

#[test]
fn test_progress_bar_creation_when_enabled() {
    let tracker = ProgressTracker::new(true);
    assert!(tracker.shows_bar(10));
}

#[test]
fn test_zero_total_progress() {
    let tracker = ProgressTracker::new(true);
    assert!(!tracker.shows_bar(0));
}

#[test]
fn test_spinner_creation() {
    let enabled_tracker = ProgressTracker::new(true);
    let disabled_tracker = ProgressTracker::new(false);

    assert!(enabled_tracker.shows_spinner());
    assert!(!disabled_tracker.shows_spinner());
}
