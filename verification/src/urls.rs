//! The upstream provider's request URLs, built from plain values with an
//! exact statement of every character.

use vstd::prelude::*;

verus! {

/// The decimal digit character for a value below ten.
pub open spec fn spec_digit_char(d: int) -> char {
    if d == 0 {
        '0'
    } else if d == 1 {
        '1'
    } else if d == 2 {
        '2'
    } else if d == 3 {
        '3'
    } else if d == 4 {
        '4'
    } else if d == 5 {
        '5'
    } else if d == 6 {
        '6'
    } else if d == 7 {
        '7'
    } else if d == 8 {
        '8'
    } else {
        '9'
    }
}

/// The usual decimal rendering of a non-negative integer, most significant
/// digit first and without leading zeros (zero itself is "0").
pub open spec fn spec_decimal(n: int) -> Seq<char>
    decreases n,
{
    if n < 10 {
        seq![spec_digit_char(n)]
    } else {
        spec_decimal(n / 10).push(spec_digit_char(n % 10))
    }
}

fn digit_str(d: u32) -> (r: &'static str)
    requires
        d < 10,
    ensures
        r@ == seq![spec_digit_char(d as int)],
{
    proof {
        reveal_strlit("0");
        reveal_strlit("1");
        reveal_strlit("2");
        reveal_strlit("3");
        reveal_strlit("4");
        reveal_strlit("5");
        reveal_strlit("6");
        reveal_strlit("7");
        reveal_strlit("8");
        reveal_strlit("9");
    }
    match d {
        0 => "0",
        1 => "1",
        2 => "2",
        3 => "3",
        4 => "4",
        5 => "5",
        6 => "6",
        7 => "7",
        8 => "8",
        _ => "9",
    }
}

/// Renders a number in decimal, exactly as `spec_decimal` describes.
pub fn decimal_string(n: u32) -> (r: String)
    ensures
        r@ == spec_decimal(n as int),
    decreases n,
{
    if n < 10 {
        String::from_str(digit_str(n))
    } else {
        let mut prefix = decimal_string(n / 10);
        prefix.append(digit_str(n % 10));
        prefix
    }
}

/// What the spot-price URL for an identifier and base currency spells.
pub open spec fn spec_price_url(id: Seq<char>, base: Seq<char>) -> Seq<char> {
    "https://api.coingecko.com/api/v3/simple/price?ids="@ + id + "&vs_currencies="@ + base
}

/// Builds the upstream spot-price URL for one identifier and base currency.
pub fn make_price_url(id: &str, base: &str) -> (url: String)
    ensures
        url@ == spec_price_url(id@, base@),
{
    let mut url = String::from_str("https://api.coingecko.com/api/v3/simple/price?ids=");
    url.append(id);
    url.append("&vs_currencies=");
    url.append(base);
    url
}

/// What the daily-series URL spells for an identifier, base currency and
/// requested day count.
pub open spec fn spec_market_chart_url(id: Seq<char>, base: Seq<char>, days: int) -> Seq<char> {
    "https://api.coingecko.com/api/v3/coins/"@ + id + "/market_chart?vs_currency="@ + base
        + "&days="@ + spec_decimal(days) + "&interval=daily"@
}

/// Builds the upstream daily-series URL for the given day count as the
/// provider counts days.
pub fn make_market_chart_url(id: &str, base: &str, coingecko_days_ago: &u32) -> (url: String)
    ensures
        url@ == spec_market_chart_url(id@, base@, *coingecko_days_ago as int),
{
    let mut url = String::from_str("https://api.coingecko.com/api/v3/coins/");
    url.append(id);
    url.append("/market_chart?vs_currency=");
    url.append(base);
    url.append("&days=");
    let days = decimal_string(*coingecko_days_ago);
    url.append(days.as_str());
    url.append("&interval=daily");
    url
}

/// Builds the daily-series URL covering at least `days_ago + 1` days: the
/// provider counts its trailing window exclusive of the very start, so the
/// request is widened by one day to guarantee the target day is included.
pub fn market_chart_url_for(id: &str, base: &str, days_ago: u32) -> (url: String)
    requires
        days_ago < u32::MAX,
    ensures
        url@ == spec_market_chart_url(id@, base@, days_ago + 1),
{
    let widened: u32 = days_ago + 1;
    make_market_chart_url(id, base, &widened)
}

} // verus!
