use fileslink::queue::{remaining_text, FileQueue, FileQueueItem, FileSource, MediaKind, MediaRef};
use fileslink::retry::{RetryPolicy, RetryStep};

fn doc(file_id: &str) -> MediaRef {
    MediaRef {
        kind: MediaKind::Document,
        file_id: file_id.to_string(),
        file_size: 10,
        mime_type: None,
        file_name: None,
    }
}

fn named(name: &str) -> FileQueueItem {
    FileQueueItem::new(1, 2, Some(doc("F1")), Some(name.to_string()), None).unwrap()
}

#[test]
fn job_needs_exactly_one_source() {
    assert!(FileQueueItem::new(1, 2, None, None, None).is_none());
    assert!(FileQueueItem::new(1, 2, Some(doc("F")), None, Some("https://x/y".to_string())).is_none());
    let a = FileQueueItem::new(1, 2, Some(doc("F")), None, None).unwrap();
    assert!(matches!(a.source, FileSource::Media(_)));
    let b = FileQueueItem::new(1, 2, None, None, Some("https://x/y".to_string())).unwrap();
    assert!(matches!(b.source, FileSource::Url(_)));
}

#[test]
fn summaries_by_source() {
    assert_eq!(named("a.pdf").summary(), "a.pdf");
    let f = FileQueueItem::new(1, 2, Some(doc("F77")), None, None).unwrap();
    assert_eq!(f.summary(), "file_id: F77");
    let short = FileQueueItem::new(1, 2, None, None, Some("https://e.com/x".to_string())).unwrap();
    assert_eq!(short.summary(), "URL: https://e.com/x");
    let long_url = format!("https://example.com/{}", "a".repeat(60));
    let long = FileQueueItem::new(1, 2, None, None, Some(long_url.clone())).unwrap();
    assert_eq!(long.summary(), format!("URL: {}\u{2026}", &long_url[..48]));
}

#[test]
fn snapshot_in_arrival_order_and_cleared() {
    let mut q = FileQueue::new();
    q.enqueue(named("first.txt"));
    q.enqueue(named("second.txt"));
    q.enqueue(named("third.txt"));
    let (total, lines) = q.snapshot(2);
    assert_eq!(total, 3);
    assert_eq!(lines, vec!["1. first.txt".to_string(), "2. second.txt".to_string()]);
    assert_eq!(q.clear_all(), 3);
    let (total, lines) = q.snapshot(10);
    assert_eq!(total, 0);
    assert!(lines.is_empty());
}

#[test]
fn one_attempt_at_a_time() {
    let mut q = FileQueue::new();
    assert!(!q.begin_attempt());
    q.enqueue(named("a"));
    q.enqueue(named("b"));
    assert!(q.begin_attempt());
    assert!(!q.begin_attempt());
    assert_eq!(q.head().unwrap().summary(), "a");
    assert_eq!(q.finish_attempt(true), Some(1));
    assert_eq!(q.head().unwrap().summary(), "b");
    assert!(q.begin_attempt());
    assert_eq!(q.finish_attempt(false), None);
    assert_eq!(q.len(), 1);
    assert_eq!(q.head().unwrap().summary(), "b");
}

#[test]
fn clear_during_attempt_keeps_new_jobs() {
    let mut q = FileQueue::new();
    q.enqueue(named("a"));
    assert!(q.begin_attempt());
    assert_eq!(q.clear_all(), 1);
    q.enqueue(named("c"));
    assert!(!q.begin_attempt());
    assert_eq!(q.finish_attempt(true), None);
    assert_eq!(q.len(), 1);
    assert!(q.begin_attempt());
}

#[test]
fn remaining_note() {
    assert_eq!(remaining_text(3), "File processed. Remaining files in queue: 3");
    assert_eq!(remaining_text(0), "File processed. Remaining files in queue: 0");
}

#[test]
fn status_edit_backoff() {
    let p = RetryPolicy::status_edit();
    assert!(matches!(p.after_failure(1), RetryStep::Retry { delay_secs: 1 }));
    assert!(matches!(p.after_failure(2), RetryStep::Retry { delay_secs: 2 }));
    assert!(matches!(p.after_failure(3), RetryStep::GiveUp));
    let wide = RetryPolicy { max_attempts: 5, base_delay_secs: 1, exponential: true };
    assert!(matches!(wide.after_failure(4), RetryStep::Retry { delay_secs: 8 }));
}

#[test]
fn file_lookup_fixed_delay() {
    let p = RetryPolicy::file_lookup();
    assert!(matches!(p.after_failure(1), RetryStep::Retry { delay_secs: 5 }));
    assert!(matches!(p.after_failure(2), RetryStep::Retry { delay_secs: 5 }));
    assert!(matches!(p.after_failure(3), RetryStep::GiveUp));
}

#[test]
fn queue_report_text() {
    let mut q = FileQueue::new();
    assert_eq!(q.report(10), "Queue size: 0\n(empty)");
    q.enqueue(named("a.txt"));
    q.enqueue(named("b.txt"));
    q.enqueue(named("c.txt"));
    assert_eq!(q.report(10), "Queue size: 3\n1. a.txt\n2. b.txt\n3. c.txt");
    assert_eq!(q.report(2), "Queue size: 3\n1. a.txt\n2. b.txt");
    assert_eq!(q.report(0), "Queue size: 3\n(empty)");
}
