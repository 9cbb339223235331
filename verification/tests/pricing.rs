use coincache::{PriceError, status_code_of};
use coincache::price_change::{PriceChange, compute_price_change};
use coincache::urls::{decimal_string, make_price_url, make_market_chart_url, market_chart_url_for};

#[test]
fn price_change_of_hundred_to_onetwenty_is_twenty_percent() {
    let change = compute_price_change(120, 100).unwrap();
    assert_eq!(change, PriceChange { numerator: 20, denominator: 100 });
    assert_eq!(change.numerator as f64 / change.denominator as f64, 0.2);
}

#[test]
fn price_change_may_be_negative() {
    let change = compute_price_change(80, 100).unwrap();
    assert_eq!(change.numerator, -20);
    assert_eq!(change.denominator, 100);
    assert_eq!(change.numerator as f64 / change.denominator as f64, -0.2);
}

#[test]
fn zero_historic_price_is_rejected_not_divided() {
    assert_eq!(compute_price_change(120, 0), Err(PriceError::InvalidHistoricPrice));
    assert_eq!(compute_price_change(0, 0), Err(PriceError::InvalidHistoricPrice));
}

#[test]
fn extreme_prices_do_not_overflow_the_ratio() {
    let change = compute_price_change(u64::MAX, 1).unwrap();
    assert_eq!(change.numerator, u64::MAX as i128 - 1);
    assert_eq!(change.denominator, 1);
    let change = compute_price_change(1, u64::MAX).unwrap();
    assert_eq!(change.numerator, 1 - u64::MAX as i128);
    assert_eq!(change.denominator, u64::MAX);
}

#[test]
fn unchanged_price_has_zero_change() {
    let change = compute_price_change(100, 100).unwrap();
    assert_eq!(change.numerator, 0);
    assert_eq!(change.numerator as f64 / change.denominator as f64, 0.0);
}

#[test]
fn error_status_codes_relay_upstream_when_carried() {
    assert_eq!(status_code_of(&PriceError::SymbolNotFound), 404);
    assert_eq!(status_code_of(&PriceError::PriceNotFound), 404);
    assert_eq!(status_code_of(&PriceError::InvalidHistoricPrice), 500);
    assert_eq!(status_code_of(&PriceError::UpstreamError(Some(429))), 429);
    assert_eq!(status_code_of(&PriceError::UpstreamError(None)), 500);
}

#[test]
fn price_url_spells_identifier_and_base() {
    assert_eq!(
        make_price_url("bitcoin", "usd"),
        "https://api.coingecko.com/api/v3/simple/price?ids=bitcoin&vs_currencies=usd"
    );
}

#[test]
fn market_chart_url_spells_day_count_in_decimal() {
    assert_eq!(
        make_market_chart_url("bitcoin", "usd", &8),
        "https://api.coingecko.com/api/v3/coins/bitcoin/market_chart?vs_currency=usd&days=8&interval=daily"
    );
}

#[test]
fn market_chart_request_widens_the_window_by_one_day() {
    assert_eq!(
        market_chart_url_for("bitcoin", "usd", 7),
        "https://api.coingecko.com/api/v3/coins/bitcoin/market_chart?vs_currency=usd&days=8&interval=daily"
    );
}

#[test]
fn decimal_rendering_is_exact() {
    assert_eq!(decimal_string(0), "0");
    assert_eq!(decimal_string(7), "7");
    assert_eq!(decimal_string(10), "10");
    assert_eq!(decimal_string(10_400), "10400");
    assert_eq!(decimal_string(u32::MAX), "4294967295");
}
