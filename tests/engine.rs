use hermes_core::engine::{
    get_first_after, get_latest, resolve_fallback, BenchmarksResponse, DataOrigin, FallbackError,
    FirstAfterStep, QueryError, QueryMode,
};
use hermes_core::store::PriceStore;
use hermes_core::types::{PriceFeedId, PriceFeedUpdate, PriceUpdate};

fn rec(id: u8, t: i64, prev: Option<i64>) -> PriceFeedUpdate {
    let p = PriceUpdate { price: 42, conf: 1, expo: -5, publish_time: t };
    PriceFeedUpdate::new(PriceFeedId::new([id; 32]), p, p, prev, None, 3)
}

#[test]
fn unknown_feed_is_refused() {
    let st = PriceStore::new();
    let r = get_latest(&st, &vec![PriceFeedId::new([1; 32])], &vec![], QueryMode::BestEffort);
    assert_eq!(r.unwrap_err(), QueryError::UnknownFeedId);
    match get_first_after(&st, &vec![PriceFeedId::new([1; 32])], 5, &vec![], None) {
        FirstAfterStep::Done(Err(e)) => assert_eq!(e, QueryError::UnknownFeedId),
        other => panic!("unexpected {:?}", other),
    }
}

#[test]
fn known_feed_without_data_by_mode() {
    let mut st = PriceStore::new();
    st.insert(rec(1, 10, None));
    let universe = vec![PriceFeedId::new([2; 32])];
    let ids = vec![PriceFeedId::new([1; 32]), PriceFeedId::new([2; 32])];
    assert_eq!(get_latest(&st, &ids, &universe, QueryMode::Strict).unwrap_err(), QueryError::NoFreshUpdate);
    let r = get_latest(&st, &ids, &universe, QueryMode::BestEffort).unwrap();
    assert_eq!(r.len(), 2);
    assert_eq!(r[0].as_ref().unwrap().price.publish_time, 10);
    assert!(r[1].is_none());
}

#[test]
fn ambiguous_fallback_record_fails() {
    let st = PriceStore::new();
    let ids = vec![PriceFeedId::new([1; 32])];
    let resp = BenchmarksResponse { price_feeds: vec![rec(1, 100, Some(100))], update_data: vec![vec![9, 9]] };
    match get_first_after(&st, &ids, 50, &ids, Some(Ok(resp))) {
        FirstAfterStep::Done(Err(e)) => assert_eq!(e, QueryError::AmbiguousHistoricalResult),
        other => panic!("unexpected {:?}", other),
    }
}

#[test]
fn single_feed_fallback_gets_the_blob() {
    let ids = vec![PriceFeedId::new([1; 32])];
    let resp = BenchmarksResponse { price_feeds: vec![rec(1, 100, Some(90))], update_data: vec![vec![1, 2, 3]] };
    let d = resolve_fallback(&ids, Ok(resp)).unwrap();
    assert_eq!(d.origin, DataOrigin::Benchmarks);
    assert_eq!(d.price_feeds[0].raw_update_data, Some(vec![1, 2, 3]));
    assert_eq!(d.update_data, vec![vec![1, 2, 3]]);
}

#[test]
fn multi_feed_fallback_keeps_record_data() {
    let ids = vec![PriceFeedId::new([1; 32]), PriceFeedId::new([2; 32])];
    let resp = BenchmarksResponse { price_feeds: vec![rec(1, 100, None), rec(2, 100, None)], update_data: vec![vec![1]] };
    let d = resolve_fallback(&ids, Ok(resp)).unwrap();
    assert_eq!(d.price_feeds.len(), 2);
    assert_eq!(d.price_feeds[1].raw_update_data, None);
}

#[test]
fn fallback_errors_map_to_query_errors() {
    let ids = vec![PriceFeedId::new([1; 32])];
    assert_eq!(resolve_fallback(&ids, Err(FallbackError::NotFound)).unwrap_err(), QueryError::NoFreshUpdate);
    assert_eq!(resolve_fallback(&ids, Err(FallbackError::Timeout)).unwrap_err(), QueryError::FallbackUnavailable);
    assert_eq!(resolve_fallback(&ids, Err(FallbackError::Transport)).unwrap_err(), QueryError::FallbackUnavailable);
}

#[test]
fn local_answer_is_preferred_over_fallback() {
    let mut st = PriceStore::new();
    st.insert(rec(1, 100, None));
    let ids = vec![PriceFeedId::new([1; 32])];
    let resp = BenchmarksResponse { price_feeds: vec![rec(1, 100, Some(100))], update_data: vec![] };
    match get_first_after(&st, &ids, 100, &ids, Some(Ok(resp))) {
        FirstAfterStep::Done(Ok(d)) => assert_eq!(d.origin, DataOrigin::Local),
        other => panic!("unexpected {:?}", other),
    }
}
