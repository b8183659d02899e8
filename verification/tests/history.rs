use ica_oracle::history::DEFAULT_CAPACITY;
use ica_oracle::state::{get_price_key, Metadata, Metric, MetricHistory, MetricType};
use ica_oracle::store::is_fresher;

fn metric(value: &str, time: u64) -> Metric {
    Metric {
        key: "k".to_string(),
        value: value.to_string(),
        metric_type: "t".to_string(),
        metadata: Metadata { update_time: time, block_height: 2 * time, attributes: Some(value.to_string()) },
    }
}

fn times(metrics: &[Metric]) -> Vec<u64> {
    metrics.iter().map(|m| m.metadata.update_time).collect()
}

#[test]
fn new_history_is_empty() {
    let history = MetricHistory::new();
    assert_eq!(history.capacity(), 100);
    assert_eq!(DEFAULT_CAPACITY, 100);
    assert_eq!(history.get_latest(), None);
    assert_eq!(history.get_all_metrics(), vec![]);
    assert_eq!(history.get_latest_range(5), vec![]);
}

#[test]
fn add_keeps_ascending_order() {
    let mut history = MetricHistory::new();
    for t in [50u64, 10, 30, 20, 60, 40, 0, u64::MAX] {
        history.add(metric(&t.to_string(), t));
    }
    assert_eq!(times(&history.get_all_metrics()), vec![0, 10, 20, 30, 40, 50, 60, u64::MAX]);
    assert_eq!(history.get_all_metrics()[3], metric("30", 30));
}

#[test]
fn add_drops_a_time_already_present() {
    let mut history = MetricHistory::new();
    history.add(metric("first", 7));
    history.add(metric("second", 7));
    history.add(metric("third", 3));
    history.add(metric("fourth", 3));
    assert_eq!(history.get_all_metrics(), vec![metric("third", 3), metric("first", 7)]);
}

#[test]
fn get_latest_is_the_most_recent() {
    let mut history = MetricHistory::new();
    history.add(metric("b", 20));
    assert_eq!(history.get_latest(), Some(metric("b", 20)));
    history.add(metric("a", 10));
    assert_eq!(history.get_latest(), Some(metric("b", 20)));
    history.add(metric("c", 30));
    assert_eq!(history.get_latest(), Some(metric("c", 30)));
}

#[test]
fn get_latest_range_gives_the_most_recent_in_ascending_order() {
    let mut history = MetricHistory::new();
    for t in [4u64, 2, 5, 1, 3] {
        history.add(metric(&t.to_string(), t));
    }
    assert_eq!(history.get_latest_range(0), vec![]);
    assert_eq!(history.get_latest_range(1), vec![metric("5", 5)]);
    assert_eq!(history.get_latest_range(2), vec![metric("4", 4), metric("5", 5)]);
    assert_eq!(times(&history.get_latest_range(5)), vec![1, 2, 3, 4, 5]);
    assert_eq!(times(&history.get_latest_range(6)), vec![1, 2, 3, 4, 5]);
    assert_eq!(times(&history.get_latest_range(usize::MAX)), vec![1, 2, 3, 4, 5]);
}

#[test]
fn full_history_gives_up_its_oldest() {
    let mut history = MetricHistory::new();
    for t in 0..100u64 {
        history.add(metric("v", 10 * t + 10));
    }
    assert_eq!(history.get_all_metrics().len(), 100);
    assert_eq!(history.get_all_metrics()[0].metadata.update_time, 10);

    // a newer one in the middle: the oldest leaves
    history.add(metric("mid", 555));
    let all = times(&history.get_all_metrics());
    assert_eq!(all.len(), 100);
    assert_eq!(all[0], 20);
    assert!(all.contains(&555));
    assert!(all.windows(2).all(|w| w[0] < w[1]));

    // the newest of all: the oldest leaves
    history.add(metric("top", 5000));
    let all = times(&history.get_all_metrics());
    assert_eq!(all.len(), 100);
    assert_eq!(all[0], 30);
    assert_eq!(all[99], 5000);

    // one older than all: it is the oldest itself, and is not retained
    let before = history.clone();
    history.add(metric("old", 5));
    assert_eq!(history, before);

    // a time that is present: dropped
    history.add(metric("dup", 555));
    assert_eq!(history, before);
}

#[test]
fn clone_is_equal() {
    let mut history = MetricHistory::new();
    history.add(metric("a", 1));
    history.add(metric("b", 2));
    let copy = history.clone();
    assert_eq!(copy, history);
    assert_eq!(copy.get_all_metrics(), vec![metric("a", 1), metric("b", 2)]);
    assert_eq!(metric("a", 1).clone(), metric("a", 1));
}

#[test]
fn price_key_joins_with_a_hyphen() {
    assert_eq!(get_price_key("denom", "ibc/denom"), "denom-ibc/denom");
    assert_eq!(get_price_key("", ""), "-");
    assert_eq!(get_price_key("a-b", "c"), get_price_key("a", "b-c"));
    assert_eq!(get_price_key("st\u{e9}", "b"), "st\u{e9}-b");
}

#[test]
fn metric_type_matches_exactly() {
    assert_eq!(MetricType::from_str("redemption_rate"), Some(MetricType::RedemptionRate));
    for name in ["", "Redemption_rate", "redemption_rate ", "redemption-rate", "REDEMPTION_RATE", "redemption_rat"] {
        assert_eq!(MetricType::from_str(name), None);
    }
}

#[test]
fn freshness_rule() {
    assert!(is_fresher(None, 0));
    assert!(is_fresher(None, u64::MAX));
    assert!(is_fresher(Some(4), 5));
    assert!(!is_fresher(Some(5), 5));
    assert!(!is_fresher(Some(6), 5));
    assert!(!is_fresher(Some(u64::MAX), 0));
}
