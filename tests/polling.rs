use prometheus_exposition::{
    concat_collections, MetricCollection, MetricDescriptor, MetricType, PollingState,
};

const SECOND: u64 = 1_000_000_000;

fn snapshot(name: &str) -> MetricCollection {
    MetricCollection::new_collection(
        MetricDescriptor::new(name, "", MetricType::Counter).build().unwrap(),
    )
    .freeze()
}

fn names(v: &[MetricCollection]) -> Vec<String> {
    v.iter().map(|c| c.get_descriptor().get_fully_qualified_name().to_string()).collect()
}

#[test]
fn stale_at_start() {
    let s = PollingState::new(SECOND);
    assert!(s.requires_update(0));
    assert!(s.cached().is_empty());
}

#[test]
fn one_refresh_per_window() {
    let mut s = PollingState::new(SECOND);
    let mut refreshes = 0;
    for now in [5 * SECOND, 5 * SECOND + 10, 6 * SECOND - 1] {
        if s.requires_update(now) {
            refreshes += 1;
            s.record_attempt(now, Some(vec![snapshot("a")]));
        }
    }
    assert_eq!(refreshes, 1);
    assert!(s.requires_update(6 * SECOND));
}

#[test]
fn waiting_callers_see_the_refresh() {
    let mut s = PollingState::new(SECOND);
    s.record_attempt(0, Some(vec![snapshot("old")]));
    let now = 2 * SECOND;
    assert!(s.requires_update(now));
    s.record_attempt(now, Some(vec![snapshot("new")]));
    for _ in 0..8 {
        assert!(!s.requires_update(now));
        assert_eq!(names(&s.cached()), vec!["new".to_string()]);
    }
}

#[test]
fn failure_keeps_cache() {
    let mut s = PollingState::new(SECOND);
    s.record_attempt(0, Some(vec![snapshot("kept")]));
    s.record_attempt(SECOND, None);
    assert_eq!(names(&s.cached()), vec!["kept".to_string()]);
    assert!(!s.requires_update(SECOND + SECOND / 2));
    assert_eq!(names(&s.cached()), vec!["kept".to_string()]);
    assert!(s.requires_update(2 * SECOND));
}

#[test]
fn zero_window_always_stale() {
    let mut s = PollingState::new(0);
    s.record_attempt(10, None);
    assert!(s.requires_update(10));
}

#[test]
fn concatenates_in_order() {
    let parts = vec![vec![snapshot("a"), snapshot("b")], vec![], vec![snapshot("c")]];
    let all = concat_collections(&parts);
    assert_eq!(names(&all), vec!["a".to_string(), "b".to_string(), "c".to_string()]);
}
