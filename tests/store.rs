use hermes_core::engine::{get_first_after, get_latest, FirstAfterStep, QueryError, QueryMode};
use hermes_core::store::{FeedIndex, InsertOutcome, PriceStore};
use hermes_core::types::{PriceFeedId, PriceFeedUpdate, PriceUpdate};

fn pu(price: i64, expo: i32, t: i64) -> PriceUpdate {
    PriceUpdate { price, conf: 10, expo, publish_time: t }
}

fn upd(id: u8, t: i64, price: i64) -> PriceFeedUpdate {
    PriceFeedUpdate::new(
        PriceFeedId::new([id; 32]),
        pu(price, -2, t),
        pu(price - 1, -2, t),
        None,
        Some(vec![id, t as u8]),
        7,
    )
}

#[test]
fn latest_is_newest_update() {
    let mut idx = FeedIndex::new(PriceFeedId::new([1; 32]));
    assert!(idx.latest().is_none());
    assert_eq!(idx.insert(upd(1, 100, 5)), InsertOutcome::Inserted);
    assert_eq!(idx.insert(upd(1, 300, 6)), InsertOutcome::Superseded);
    assert_eq!(idx.insert(upd(1, 200, 7)), InsertOutcome::Inserted);
    let l = idx.latest().unwrap();
    assert_eq!(l.price.publish_time, 300);
    assert_eq!(l.price.price, 6);
    assert_eq!(l.raw_update_data, Some(vec![1, 44]));
    assert_eq!(idx.len(), 3);
}

#[test]
fn first_at_or_after_finds_smallest_later_time() {
    let mut idx = FeedIndex::new(PriceFeedId::new([1; 32]));
    for t in [50i64, 10, 40, 20, 30] {
        idx.insert(upd(1, t, t));
    }
    assert_eq!(idx.first_at_or_after(25).unwrap().price.publish_time, 30);
    assert_eq!(idx.first_at_or_after(30).unwrap().price.publish_time, 30);
    assert_eq!(idx.first_at_or_after(i64::MIN).unwrap().price.publish_time, 10);
    assert!(idx.first_at_or_after(51).is_none());
}

#[test]
fn first_at_or_after_agrees_with_linear_scan() {
    let times: Vec<i64> = vec![-7, 3, 9, 15, 16, 40, 41, 100, 250, 1000];
    let mut idx = FeedIndex::new(PriceFeedId::new([2; 32]));
    for (i, t) in times.iter().enumerate() {
        let j = (i * 7) % times.len();
        idx.insert(upd(2, times[j], *t));
    }
    for q in -10i64..1010 {
        let scan = times.iter().copied().filter(|t| *t >= q).min();
        assert_eq!(idx.first_at_or_after(q).map(|u| u.price.publish_time), scan);
    }
}

#[test]
fn inserting_twice_is_duplicate() {
    let mut idx = FeedIndex::new(PriceFeedId::new([3; 32]));
    assert_eq!(idx.insert(upd(3, 100, 9)), InsertOutcome::Inserted);
    assert_eq!(idx.insert(upd(3, 100, 9)), InsertOutcome::Duplicate);
    assert_eq!(idx.len(), 1);
    assert_eq!(idx.latest().unwrap().price.price, 9);
}

#[test]
fn different_content_same_time_is_conflict() {
    let mut idx = FeedIndex::new(PriceFeedId::new([3; 32]));
    idx.insert(upd(3, 100, 9));
    assert_eq!(idx.insert(upd(3, 100, 10)), InsertOutcome::Conflict);
    assert_eq!(idx.len(), 1);
    assert_eq!(idx.latest().unwrap().price.price, 9);
}

#[test]
fn eviction_keeps_recent_and_latest() {
    let mut idx = FeedIndex::new(PriceFeedId::new([4; 32]));
    for t in [100i64, 150, 190, 200] {
        idx.insert(upd(4, t, 1));
    }
    idx.evict(50);
    assert_eq!(idx.len(), 3);
    assert_eq!(idx.first_at_or_after(0).unwrap().price.publish_time, 150);
    idx.evict(0);
    assert_eq!(idx.len(), 1);
    assert_eq!(idx.latest().unwrap().price.publish_time, 200);
}

#[test]
fn store_keeps_feeds_apart() {
    let mut st = PriceStore::new();
    assert_eq!(st.insert(upd(1, 10, 1)), InsertOutcome::Inserted);
    assert_eq!(st.insert(upd(2, 20, 2)), InsertOutcome::Inserted);
    assert_eq!(st.insert(upd(1, 30, 3)), InsertOutcome::Superseded);
    assert!(st.contains(&PriceFeedId::new([1; 32])));
    assert!(!st.contains(&PriceFeedId::new([9; 32])));
    assert_eq!(st.latest(&PriceFeedId::new([1; 32])).unwrap().price.price, 3);
    assert_eq!(st.latest(&PriceFeedId::new([2; 32])).unwrap().price.price, 2);
    assert!(st.latest(&PriceFeedId::new([9; 32])).is_none());
    st.evict(&PriceFeedId::new([1; 32]), 0);
    assert!(st.first_at_or_after(&PriceFeedId::new([1; 32]), 0).unwrap().price.publish_time == 30);
    assert_eq!(st.first_at_or_after(&PriceFeedId::new([2; 32]), 0).unwrap().price.publish_time, 20);
}

#[test]
fn example_scenario_latest_first_after_and_miss() {
    let x = PriceFeedId::new([7; 32]);
    let mut st = PriceStore::new();
    let a = PriceFeedUpdate::new(x, pu(50000, -2, 100), pu(50000, -2, 100), None, None, 1);
    let b = PriceFeedUpdate::new(x, pu(50500, -2, 200), pu(50400, -2, 200), Some(100), None, 2);
    st.insert(a);
    st.insert(b);
    let universe = vec![x];
    let latest = get_latest(&st, &vec![x], &universe, QueryMode::Strict).unwrap();
    assert_eq!(latest.len(), 1);
    let l = latest[0].as_ref().unwrap();
    assert_eq!((l.price.price, l.price.publish_time), (50500, 200));
    match get_first_after(&st, &vec![x], 150, &universe, None) {
        FirstAfterStep::Done(Ok(d)) => {
            assert_eq!(d.price_feeds.len(), 1);
            assert_eq!(d.price_feeds[0].price.price, 50500);
            assert_eq!(d.price_feeds[0].price.publish_time, 200);
        }
        other => panic!("unexpected {:?}", other),
    }
    assert!(matches!(get_first_after(&st, &vec![x], 250, &universe, None), FirstAfterStep::AskFallback));
    let _ = QueryError::NoFreshUpdate;
}
