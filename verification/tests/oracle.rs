use ica_oracle::contract::{execute, instantiate, query};
use ica_oracle::denom::is_valid_native_denom;
use ica_oracle::error::ContractError;
use ica_oracle::execute::post_metric;
use ica_oracle::msg::{ExecuteMsg, InstantiateMsg, Metrics, PriceResponse, QueryMsg, QueryResponse};
use ica_oracle::query::{
    get_all_latest_metrics, get_config, get_historical_metrics, get_latest_metric, get_price,
};
use ica_oracle::state::{Metadata, Metric, MetricHistory, Price};
use ica_oracle::store::Store;

const ADMIN: &str = "admin";
const ONE: u128 = 1_000_000_000_000_000_000;

fn any_denom(_denom: &str) -> bool {
    true
}

fn no_hyphen(denom: &str) -> bool {
    !denom.contains('-')
}

fn new_store() -> Store {
    instantiate(InstantiateMsg { admin_address: ADMIN.to_string() }).0
}

fn attributes(denom: &str, base_denom: &str) -> Option<String> {
    Some(format!("{{\"denom\":\"{}\",\"base_denom\":\"{}\"}}", denom, base_denom))
}

fn rate(key: &str, value: &str, time: u64, denom: &str, base_denom: &str) -> Metric {
    Metric {
        key: key.to_string(),
        value: value.to_string(),
        metric_type: "redemption_rate".to_string(),
        metadata: Metadata { update_time: time, block_height: time + 1000, attributes: attributes(denom, base_denom) },
    }
}

fn plain(key: &str, value: &str, time: u64) -> Metric {
    Metric {
        key: key.to_string(),
        value: value.to_string(),
        metric_type: "volume".to_string(),
        metadata: Metadata { update_time: time, block_height: time, attributes: None },
    }
}

fn post(store: &mut Store, sender: &str, metric: &Metric) -> Result<(), ContractError> {
    post_metric(
        store,
        any_denom,
        sender,
        metric.key.clone(),
        metric.value.clone(),
        metric.metric_type.clone(),
        metric.metadata.clone(),
    )
    .map(|_| ())
}

fn latest(store: &Store, key: &str) -> Result<Metric, ContractError> {
    get_latest_metric(store, key.to_string())
}

fn history(store: &Store, key: &str) -> Result<Vec<Metric>, ContractError> {
    get_historical_metrics(store, key.to_string()).map(|m| m.metrics)
}

fn price(store: &Store, denom: &str, base_denom: &str) -> Result<PriceResponse, ContractError> {
    get_price(store, denom.to_string(), base_denom.to_string(), None)
}

#[test]
fn config_is_the_admin_given_at_creation() {
    let store = new_store();
    assert_eq!(get_config(&store).unwrap().admin_address, ADMIN);
    assert_eq!(store.config().admin_address, ADMIN);
}

#[test]
fn new_store_holds_nothing() {
    let store = new_store();
    assert_eq!(get_all_latest_metrics(&store), Ok(Metrics { metrics: vec![] }));
    assert_eq!(latest(&store, "k"), Err(ContractError::NotFound { key: "k".to_string() }));
    assert_eq!(history(&store, "k"), Err(ContractError::NotFound { key: "k".to_string() }));
    assert_eq!(price(&store, "d", "b"), Err(ContractError::NotFound { key: "d-b".to_string() }));
}

#[test]
fn latest_has_the_greatest_time_of_a_run() {
    let mut store = new_store();
    let times = [5u64, 3, 9, 9, 1, 7];
    let mut greatest = 0;
    for (i, t) in times.iter().enumerate() {
        post(&mut store, ADMIN, &plain("k", &i.to_string(), *t)).unwrap();
        greatest = greatest.max(*t);
        assert_eq!(latest(&store, "k").unwrap().metadata.update_time, greatest);
    }
    // the first metric of time 9 stays: a tie does not replace
    assert_eq!(latest(&store, "k").unwrap(), plain("k", "2", 9));
}

#[test]
fn out_of_order_delivery() {
    let mut store = new_store();
    for t in [2u64, 1, 3] {
        post(&mut store, ADMIN, &plain("k", &t.to_string(), t)).unwrap();
    }
    assert_eq!(latest(&store, "k").unwrap(), plain("k", "3", 3));
    assert_eq!(history(&store, "k").unwrap(), vec![plain("k", "1", 1), plain("k", "2", 2), plain("k", "3", 3)]);
}

#[test]
fn duplicate_time_keeps_first_value() {
    let mut store = new_store();
    post(&mut store, ADMIN, &plain("k", "2", 2)).unwrap();
    post(&mut store, ADMIN, &plain("k", "3", 2)).unwrap();
    assert_eq!(history(&store, "k").unwrap(), vec![plain("k", "2", 2)]);
    assert_eq!(latest(&store, "k").unwrap(), plain("k", "2", 2));
}

#[test]
fn stale_metric_enters_history_but_not_latest() {
    let mut store = new_store();
    post(&mut store, ADMIN, &plain("k", "new", 10)).unwrap();
    post(&mut store, ADMIN, &plain("k", "old", 4)).unwrap();
    assert_eq!(latest(&store, "k").unwrap(), plain("k", "new", 10));
    assert_eq!(history(&store, "k").unwrap(), vec![plain("k", "old", 4), plain("k", "new", 10)]);
}

#[test]
fn redemption_rate_gives_a_price() {
    let mut store = new_store();
    let metric = rate("k1", "1", 7, "d", "ibc/d");
    post(&mut store, ADMIN, &metric).unwrap();
    assert_eq!(price(&store, "d", "ibc/d"), Ok(PriceResponse { exchange_rate: ONE, last_updated: 7 }));
    assert_eq!(
        store.price("d-ibc/d"),
        Some(&Price { denom: "d".to_string(), base_denom: "ibc/d".to_string(), exchange_rate: ONE, last_updated: 7 })
    );
    assert_eq!(latest(&store, "k1").unwrap(), metric);
}

#[test]
fn price_follows_the_freshness_rule() {
    let mut store = new_store();
    post(&mut store, ADMIN, &rate("k1", "1.5", 5, "denom", "ibc/denom")).unwrap();
    assert_eq!(price(&store, "denom", "ibc/denom").unwrap(), PriceResponse { exchange_rate: ONE + ONE / 2, last_updated: 5 });
    // older: dropped, also when it comes under another key
    post(&mut store, ADMIN, &rate("k2", "9", 4, "denom", "ibc/denom")).unwrap();
    assert_eq!(price(&store, "denom", "ibc/denom").unwrap().last_updated, 5);
    // tie: dropped
    post(&mut store, ADMIN, &rate("k3", "9", 5, "denom", "ibc/denom")).unwrap();
    assert_eq!(price(&store, "denom", "ibc/denom").unwrap(), PriceResponse { exchange_rate: ONE + ONE / 2, last_updated: 5 });
    // newer: taken
    post(&mut store, ADMIN, &rate("k2", "2", 6, "denom", "ibc/denom")).unwrap();
    assert_eq!(price(&store, "denom", "ibc/denom").unwrap(), PriceResponse { exchange_rate: 2 * ONE, last_updated: 6 });
}

#[test]
fn failed_derivation_changes_nothing() {
    let mut store = new_store();
    post(&mut store, ADMIN, &plain("k", "0", 1)).unwrap();
    let untouched = {
        let mut s = new_store();
        post(&mut s, ADMIN, &plain("k", "0", 1)).unwrap();
        s
    };

    // missing attributes, though the metric is newer than the latest
    let mut missing = rate("k", "1", 2, "denom", "ibc/denom");
    missing.metadata.attributes = None;
    assert_eq!(
        post(&mut store, ADMIN, &missing),
        Err(ContractError::InvalidMetricMetadataAttributes { metric_type: "redemption_rate".to_string() })
    );
    assert_eq!(store, untouched);

    // attributes that are no JSON, JSON of another shape, a member of another type
    for text in ["{cantparse}", "[\"denom\",\"ibc/denom\"]", "{\"denom\":\"denom\"}", "{\"denom\":1,\"base_denom\":\"b\"}", ""] {
        let mut bad = rate("k", "1", 2, "denom", "ibc/denom");
        bad.metadata.attributes = Some(text.to_string());
        assert_eq!(
            post(&mut store, ADMIN, &bad),
            Err(ContractError::InvalidMetricMetadataAttributes { metric_type: "redemption_rate".to_string() })
        );
        assert_eq!(store, untouched);
    }

    // a value that is no decimal
    for value in ["", "abc", ".5", "1.2.3", "1.0000000000000000001", "-1"] {
        assert_eq!(
            post(&mut store, ADMIN, &rate("k", value, 2, "denom", "ibc/denom")),
            Err(ContractError::MalformedValue { value: value.to_string() })
        );
        assert_eq!(store, untouched);
    }
}

#[test]
fn invalid_denom_is_refused() {
    let mut store = new_store();
    let untouched = new_store();
    let bad_denom = rate("k", "1", 1, "st-atom", "ibc/atom");
    let r = post_metric(
        &mut store,
        no_hyphen,
        ADMIN,
        bad_denom.key.clone(),
        bad_denom.value.clone(),
        bad_denom.metric_type.clone(),
        bad_denom.metadata.clone(),
    );
    assert_eq!(r, Err(ContractError::InvalidDenom { denom: "st-atom".to_string() }));
    assert_eq!(store, untouched);

    let bad_base = rate("k", "1", 1, "statom", "ibc-atom");
    let r = post_metric(
        &mut store,
        no_hyphen,
        ADMIN,
        bad_base.key.clone(),
        bad_base.value.clone(),
        bad_base.metric_type.clone(),
        bad_base.metadata.clone(),
    );
    assert_eq!(r, Err(ContractError::InvalidDenom { denom: "ibc-atom".to_string() }));
    assert_eq!(store, untouched);

    // the denom is looked at before the value
    let both = rate("k", "abc", 1, "st-atom", "ibc/atom");
    let r = execute(
        &mut store,
        no_hyphen,
        ADMIN,
        ExecuteMsg::PostMetric {
            key: both.key.clone(),
            value: both.value.clone(),
            metric_type: both.metric_type.clone(),
            metadata: both.metadata.clone(),
        },
    );
    assert_eq!(r, Err(ContractError::InvalidDenom { denom: "st-atom".to_string() }));
}

#[test]
fn native_denom_validator_in_a_post() {
    let mut store = new_store();
    let short = rate("k", "1", 1, "d", "ibc/d");
    let r = post_metric(
        &mut store,
        is_valid_native_denom,
        ADMIN,
        short.key.clone(),
        short.value.clone(),
        short.metric_type.clone(),
        short.metadata.clone(),
    );
    assert_eq!(r, Err(ContractError::InvalidDenom { denom: "d".to_string() }));
    let good = rate("k", "1", 1, "stuatom", "ibc/27394FB092D2ECCD56123C74F36E4C1F926001CEADA9CA97EA622B25F41E5EB2");
    let r = post_metric(
        &mut store,
        is_valid_native_denom,
        ADMIN,
        good.key.clone(),
        good.value.clone(),
        good.metric_type.clone(),
        good.metadata.clone(),
    );
    assert!(r.is_ok());
    assert_eq!(
        price(&store, "stuatom", "ibc/27394FB092D2ECCD56123C74F36E4C1F926001CEADA9CA97EA622B25F41E5EB2"),
        Ok(PriceResponse { exchange_rate: ONE, last_updated: 1 })
    );
}

#[test]
fn unknown_category_skips_the_price() {
    let mut store = new_store();
    let mut metric = rate("k", "not a number", 1, "bad denom", "");
    metric.metric_type = "Redemption_Rate".to_string();
    post(&mut store, ADMIN, &metric).unwrap();
    assert_eq!(latest(&store, "k").unwrap(), metric);
    assert_eq!(price(&store, "bad denom", ""), Err(ContractError::NotFound { key: "bad denom-".to_string() }));
}

#[test]
fn unauthorized_post_changes_nothing() {
    let mut store = new_store();
    post(&mut store, ADMIN, &rate("k", "1", 1, "denom", "ibc/denom")).unwrap();
    let untouched = {
        let mut s = new_store();
        post(&mut s, ADMIN, &rate("k", "1", 1, "denom", "ibc/denom")).unwrap();
        s
    };
    for sender in ["not_admin", "", "Admin", "admin "] {
        assert_eq!(post(&mut store, sender, &rate("k", "2", 2, "denom", "ibc/denom")), Err(ContractError::Unauthorized {}));
        assert_eq!(post(&mut store, sender, &plain("other", "2", 2)), Err(ContractError::Unauthorized {}));
        assert_eq!(store, untouched);
    }
}

#[test]
fn repost_changes_nothing() {
    let mut store = new_store();
    post(&mut store, ADMIN, &rate("k", "1", 3, "denom", "ibc/denom")).unwrap();
    post(&mut store, ADMIN, &rate("k", "2", 5, "denom", "ibc/denom")).unwrap();
    let untouched = {
        let mut s = new_store();
        post(&mut s, ADMIN, &rate("k", "1", 3, "denom", "ibc/denom")).unwrap();
        post(&mut s, ADMIN, &rate("k", "2", 5, "denom", "ibc/denom")).unwrap();
        s
    };
    post(&mut store, ADMIN, &rate("k", "2", 5, "denom", "ibc/denom")).unwrap();
    assert_eq!(store, untouched);
    post(&mut store, ADMIN, &rate("k", "1", 3, "denom", "ibc/denom")).unwrap();
    assert_eq!(store, untouched);
    // the same key and time with another value
    post(&mut store, ADMIN, &rate("k", "8", 5, "denom", "ibc/denom")).unwrap();
    assert_eq!(store, untouched);
}

#[test]
fn capacity_plus_one_evicts_the_oldest() {
    let mut store = new_store();
    let capacity = MetricHistory::new().capacity();
    assert_eq!(capacity, 100);
    for t in 1..=capacity + 1 {
        post(&mut store, ADMIN, &plain("k", &t.to_string(), t)).unwrap();
    }
    let kept = history(&store, "k").unwrap();
    assert_eq!(kept.len() as u64, capacity);
    let times: Vec<u64> = kept.iter().map(|m| m.metadata.update_time).collect();
    assert_eq!(times, (2..=capacity + 1).collect::<Vec<u64>>());
    assert_eq!(latest(&store, "k").unwrap().metadata.update_time, capacity + 1);
}

#[test]
fn all_latest_is_listed_in_key_order() {
    let mut store = new_store();
    for key in ["b", "a", "ab", "B", "", "a/b", "\u{e9}", "z"] {
        post(&mut store, ADMIN, &plain(key, "1", 1)).unwrap();
    }
    post(&mut store, ADMIN, &plain("a", "2", 2)).unwrap();
    let listed: Vec<String> = get_all_latest_metrics(&store).unwrap().metrics.into_iter().map(|m| m.key).collect();
    assert_eq!(listed, vec!["", "B", "a", "a/b", "ab", "b", "z", "\u{e9}"]);
    assert_eq!(latest(&store, "a").unwrap().value, "2");
}

#[test]
fn price_query_takes_no_parameters() {
    let mut store = new_store();
    post(&mut store, ADMIN, &rate("k", "1", 1, "denom", "ibc/denom")).unwrap();
    assert_eq!(
        get_price(&store, "denom".to_string(), "ibc/denom".to_string(), Some(vec![1, 2])),
        Err(ContractError::InvalidRequest {})
    );
    assert_eq!(
        get_price(&store, "denom".to_string(), "ibc/denom".to_string(), Some(vec![])),
        Err(ContractError::InvalidRequest {})
    );
    assert_eq!(
        query(
            &store,
            QueryMsg::Price { denom: "nothing".to_string(), base_denom: "here".to_string(), params: Some(vec![]) }
        ),
        Err(ContractError::InvalidRequest {})
    );
}

#[test]
fn price_filed_for_another_base_denom_is_not_given_out() {
    let mut store = new_store();
    post(&mut store, ADMIN, &rate("k", "1", 1, "a-b", "c")).unwrap();
    assert_eq!(price(&store, "a-b", "c"), Ok(PriceResponse { exchange_rate: ONE, last_updated: 1 }));
    assert_eq!(
        price(&store, "a", "b-c"),
        Err(ContractError::InconsistentPriceRecord {
            denom: "a".to_string(),
            base_denom: "b-c".to_string(),
            expected: "c".to_string()
        })
    );
}

#[test]
fn queries_through_the_entry_point() {
    let mut store = new_store();
    let metric = rate("k", "1", 1, "denom", "ibc/denom");
    post(&mut store, ADMIN, &metric).unwrap();
    assert_eq!(
        query(&store, QueryMsg::LatestMetric { key: "missing".to_string() }),
        Err(ContractError::NotFound { key: "missing".to_string() })
    );
    assert_eq!(
        query(&store, QueryMsg::HistoricalMetrics { key: "missing".to_string() }),
        Err(ContractError::NotFound { key: "missing".to_string() })
    );
    assert_eq!(
        query(&store, QueryMsg::Price { denom: "x".to_string(), base_denom: "y".to_string(), params: None }),
        Err(ContractError::NotFound { key: "x-y".to_string() })
    );
    assert_eq!(
        query(&store, QueryMsg::AllLatestMetrics {}),
        Ok(QueryResponse::Metrics(Metrics { metrics: vec![metric] }))
    );
}

#[test]
fn restored_store_equals_the_one_saved() {
    let mut store = new_store();
    post(&mut store, ADMIN, &rate("k", "1", 1, "denom", "ibc/denom")).unwrap();
    post(&mut store, ADMIN, &rate("k", "2", 2, "denom", "ibc/denom")).unwrap();

    let mut restored = Store::new(get_config(&store).unwrap());
    restored.restore_latest(store.latest_metric("k").unwrap().clone());
    restored.restore_history("k".to_string(), store.history("k").unwrap().clone());
    restored.restore_price(store.price("denom-ibc/denom").unwrap().clone());
    assert_eq!(restored, store);
}
