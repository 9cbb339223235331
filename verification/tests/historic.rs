use coincache::HISTORIC_CACHE_CAPACITY;
use coincache::PriceError;
use coincache::historic::{HistoricPriceCache, key_from_historic_price_target};
use coincache::day_bucket::{current_target_day, day_bucket_of_ms, timestamp_from_days_ago};

const DAY_MS: i64 = 86_400_000;

#[test]
fn day_bucket_truncates_to_start_of_utc_day() {
    assert_eq!(day_bucket_of_ms(0), 0);
    assert_eq!(day_bucket_of_ms(3 * DAY_MS + 12_345_678), 3 * 86_400);
    assert_eq!(day_bucket_of_ms(3 * DAY_MS), 3 * 86_400);
    assert_eq!(day_bucket_of_ms(4 * DAY_MS - 1), 3 * 86_400);
    // Instants before the epoch still truncate to the start of their day.
    assert_eq!(day_bucket_of_ms(-1), -86_400);
}

#[test]
fn target_day_counts_whole_days_back_from_start_of_today() {
    let now_ms = 10 * DAY_MS + 5_000;
    assert_eq!(timestamp_from_days_ago(now_ms, 0), 10 * 86_400);
    assert_eq!(timestamp_from_days_ago(now_ms, 7), 3 * 86_400);
}

#[test]
fn current_target_day_is_a_whole_day_counted_back_from_today() {
    let today = current_target_day(0);
    let week_ago = current_target_day(7);
    assert_eq!(today.rem_euclid(86_400), 0);
    assert_eq!(week_ago.rem_euclid(86_400), 0);
    // The two clock reads straddle midnight at most once.
    assert!(today - week_ago == 7 * 86_400 || today - week_ago == 6 * 86_400);
}

#[test]
fn eleven_thousand_and_first_key_evicts_exactly_the_least_recently_used() {
    let mut cache = HistoricPriceCache::new(HISTORIC_CACHE_CAPACITY);
    let total = HISTORIC_CACHE_CAPACITY as i64 + 1;
    for n in 0..total {
        let key = key_from_historic_price_target("bitcoin", "usd", &(n * 86_400));
        cache.put(key, 100 + n as u64);
    }
    assert_eq!(cache.len(), HISTORIC_CACHE_CAPACITY);
    // The very first key was the least recently used and is the one gone.
    let first = key_from_historic_price_target("bitcoin", "usd", &0);
    assert!(!cache.contains(&first));
    for n in 1..total {
        let key = key_from_historic_price_target("bitcoin", "usd", &(n * 86_400));
        assert!(cache.contains(&key));
    }
}

#[test]
fn reading_an_entry_counts_as_a_use_for_eviction_order() {
    let mut cache = HistoricPriceCache::new(2);
    let k1 = key_from_historic_price_target("bitcoin", "usd", &86_400);
    let k2 = key_from_historic_price_target("bitcoin", "usd", &172_800);
    let k3 = key_from_historic_price_target("bitcoin", "usd", &259_200);
    cache.put(k1.clone(), 100);
    cache.put(k2.clone(), 200);
    assert_eq!(cache.get(&k1), Some(100));
    cache.put(k3.clone(), 300);
    // k1 was read after k2 was written, so k2 was the least recently used.
    assert!(cache.contains(&k1));
    assert!(!cache.contains(&k2));
    assert!(cache.contains(&k3));
}

#[test]
fn same_utc_day_points_collapse_to_one_entry_holding_the_later_price() {
    let mut cache = HistoricPriceCache::new(100);
    let day = 3 * 86_400;
    let points = vec![(3 * DAY_MS + 1_000, 100u64), (3 * DAY_MS + 7_200_000, 105u64)];
    let got = cache.store_series_and_read("bitcoin", "usd", day, &points);
    assert_eq!(got, Ok(105));
    assert_eq!(cache.len(), 1);
    let key = key_from_historic_price_target("bitcoin", "usd", &day);
    assert_eq!(cache.get(&key), Some(105));
}

#[test]
fn series_missing_the_target_day_falls_back_to_oldest_point() {
    let mut cache = HistoricPriceCache::new(100);
    let target = 0;
    let points = vec![(5 * DAY_MS, 77u64), (6 * DAY_MS, 88u64)];
    let got = cache.store_series_and_read("bitcoin", "usd", target, &points);
    assert_eq!(got, Ok(77));
}

#[test]
fn empty_series_is_price_not_found() {
    let mut cache = HistoricPriceCache::new(100);
    let got = cache.store_series_and_read("bitcoin", "usd", 0, &Vec::new());
    assert_eq!(got, Err(PriceError::PriceNotFound));
}

#[test]
fn cache_hit_answers_without_series() {
    let mut cache = HistoricPriceCache::new(100);
    let day = 2 * 86_400;
    let key = key_from_historic_price_target("bitcoin", "usd", &day);
    cache.put(key.clone(), 123);
    assert_eq!(cache.get(&key), Some(123));
    // A later series for the same target finds the key present and serves
    // the freshly stored value.
    let points = vec![(2 * DAY_MS + 50, 999u64)];
    assert_eq!(cache.store_series_and_read("bitcoin", "usd", day, &points), Ok(999));
}
