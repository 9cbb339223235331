use coincache::{PriceError, SPOT_PRICE_TTL_MS, SYMBOL_INDEX_TTL_MS};
use coincache::coins::CoinId;
use coincache::symbol_cache::SymbolIndexCache;
use coincache::spot_cache::SpotPriceCache;

fn coin(id: &str, symbol: &str, name: &str) -> CoinId {
    CoinId { id: id.to_string(), symbol: symbol.to_string(), name: name.to_string() }
}

#[test]
fn stale_index_triggers_exactly_one_fetch_across_concurrent_callers() {
    let mut cache = SymbolIndexCache::new();
    let now = 1_000_000;
    // Every caller finds the index absent, so none is served.
    assert!(cache.try_resolve("btc", now).is_none());
    assert!(cache.try_resolve("eth", now).is_none());
    // The first caller to claim the refresh fetches; all later callers,
    // for whatever symbol and at whatever time, wait instead.
    let mut fetches = 0;
    for _ in 0..5 {
        if cache.begin_refresh(now) {
            fetches += 1;
        }
    }
    assert_eq!(fetches, 1);
    assert!(!cache.begin_refresh(now + SYMBOL_INDEX_TTL_MS));
    cache.complete_refresh(&vec![coin("bitcoin", "btc", "Bitcoin")], now);
    // The refreshed index serves everyone without another fetch.
    assert_eq!(cache.try_resolve("btc", now).unwrap().unwrap(), "bitcoin");
    assert!(!cache.begin_refresh(now + 1));
}

#[test]
fn failed_refresh_serves_no_stale_index_and_allows_retry() {
    let mut cache = SymbolIndexCache::new();
    let t0 = 0;
    assert!(cache.begin_refresh(t0));
    cache.complete_refresh(&vec![coin("bitcoin", "btc", "Bitcoin")], t0);
    // Past the TTL the old index is not served, even though it is held.
    let later = t0 + SYMBOL_INDEX_TTL_MS;
    assert!(cache.try_resolve("btc", later).is_none());
    // A refresh that fails leaves the caller to report the error; the
    // stale index is still not served, and a later caller may retry.
    assert!(cache.begin_refresh(later));
    cache.fail_refresh();
    assert!(cache.try_resolve("btc", later).is_none());
    assert!(cache.begin_refresh(later));
}

#[test]
fn spot_price_within_ttl_serves_cached_value_without_fetch() {
    let mut cache = SpotPriceCache::new();
    let t0 = 5_000;
    assert!(cache.try_serve("bitcoin", "usd", t0).is_none());
    assert!(cache.begin_fetch("bitcoin", "usd", t0));
    cache.complete_fetch("bitcoin", "usd", 42_000, t0);
    // A second call within the window is a pure cache hit: it is served
    // and starts no fetch.
    let within = t0 + SPOT_PRICE_TTL_MS - 1;
    assert_eq!(cache.try_serve("bitcoin", "usd", within), Some(42_000));
    assert!(!cache.begin_fetch("bitcoin", "usd", within));
    // Once the TTL has elapsed the next call triggers exactly one fetch.
    let expired = t0 + SPOT_PRICE_TTL_MS;
    assert!(cache.try_serve("bitcoin", "usd", expired).is_none());
    assert!(cache.begin_fetch("bitcoin", "usd", expired));
    assert!(!cache.begin_fetch("bitcoin", "usd", expired));
}

#[test]
fn spot_price_keys_expire_independently() {
    let mut cache = SpotPriceCache::new();
    assert!(cache.begin_fetch("bitcoin", "usd", 0));
    cache.complete_fetch("bitcoin", "usd", 42_000, 0);
    assert!(cache.begin_fetch("bitcoin", "eur", 10));
    cache.complete_fetch("bitcoin", "eur", 39_000, 10);
    let t = SPOT_PRICE_TTL_MS;
    assert!(cache.try_serve("bitcoin", "usd", t).is_none());
    assert_eq!(cache.try_serve("bitcoin", "eur", t), Some(39_000));
}

#[test]
fn spot_fetch_failure_keeps_old_value_and_releases_flight() {
    let mut cache = SpotPriceCache::new();
    assert!(cache.begin_fetch("bitcoin", "usd", 0));
    cache.complete_fetch("bitcoin", "usd", 42_000, 0);
    let stale = SPOT_PRICE_TTL_MS + 5;
    assert!(cache.begin_fetch("bitcoin", "usd", stale));
    cache.fail_fetch("bitcoin", "usd");
    // The stored value survives the failure and a retry may start.
    assert!(cache.try_serve("bitcoin", "usd", stale).is_none());
    assert!(cache.begin_fetch("bitcoin", "usd", stale));
}

#[test]
fn spot_response_lookup_distinguishes_absent_pair_from_value() {
    let mut cache = SpotPriceCache::new();
    let resp = vec![
        ("bitcoin".to_string(), vec![("usd".to_string(), 42_000u64), ("eur".to_string(), 39_000u64)]),
    ];
    assert!(cache.begin_fetch("bitcoin", "usd", 0));
    assert_eq!(cache.complete_fetch_from_response("bitcoin", "usd", &resp, 0), Ok(42_000));
    assert_eq!(cache.try_serve("bitcoin", "usd", 1), Some(42_000));
    // An empty, well-formed answer for an unknown identifier is
    // PriceNotFound and stores nothing.
    let empty: Vec<(String, Vec<(String, u64)>)> = Vec::new();
    assert!(cache.begin_fetch("nope", "usd", 0));
    assert_eq!(
        cache.complete_fetch_from_response("nope", "usd", &empty, 0),
        Err(PriceError::PriceNotFound)
    );
    assert!(cache.try_serve("nope", "usd", 1).is_none());
}
