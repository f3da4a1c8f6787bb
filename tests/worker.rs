use simple_redis::worker::{
    page_key, pick_page, request_delay_ms, task_delay_ms, task_key, PAGE_END, PAGE_FIRST,
    REQUEST_DELAY_END_MS, REQUEST_DELAY_MIN_MS, TASK_DELAY_END_MS, TASK_DELAY_MIN_MS,
};
use simple_redis::Metrics;

#[test]
fn task_keys_name_the_worker() {
    assert_eq!(task_key(0), "call.thread.worker.0");
    assert_eq!(task_key(7), "call.thread.worker.7");
    assert_eq!(task_key(10), "call.thread.worker.10");
    assert_eq!(task_key(1234), "call.thread.worker.1234");
    assert_eq!(task_key(usize::MAX), format!("call.thread.worker.{}", usize::MAX));
}

#[test]
fn page_keys_name_the_page() {
    assert_eq!(page_key(1), "req.page.1");
    assert_eq!(page_key(4), "req.page.4");
    assert_eq!(page_key(90), "req.page.90");
}

#[test]
fn draws_stay_in_their_ranges() {
    for _ in 0..500 {
        let t = task_delay_ms();
        assert!(TASK_DELAY_MIN_MS <= t && t < TASK_DELAY_END_MS);
        let r = request_delay_ms();
        assert!(REQUEST_DELAY_MIN_MS <= r && r < REQUEST_DELAY_END_MS);
        let p = pick_page();
        assert!(PAGE_FIRST <= p && p < PAGE_END);
    }
    assert_eq!((TASK_DELAY_MIN_MS, TASK_DELAY_END_MS), (100, 5000));
    assert_eq!((REQUEST_DELAY_MIN_MS, REQUEST_DELAY_END_MS), (50, 800));
    assert_eq!((PAGE_FIRST, PAGE_END), (1, 5));
}

#[test]
fn workers_count_under_their_keys() {
    let mut metrics = Metrics::new();
    metrics.inc(&task_key(2));
    metrics.inc(&task_key(2));
    for _ in 0..10 {
        let page = pick_page();
        metrics.inc(&page_key(page));
    }
    assert_eq!(metrics.get("call.thread.worker.2"), Some(2));
    let snap = metrics.snapshot();
    let pages: i64 = (1..5)
        .map(|p| snap.get(&format!("req.page.{}", p)).copied().unwrap_or(0))
        .sum();
    assert_eq!(pages, 10);
    assert_eq!(snap.len() as i64, 1 + (1..5).filter(|p| snap.contains_key(&format!("req.page.{}", p))).count() as i64);
}
