//! Verified core of a cryptocurrency price service: a symbol-to-identifier
//! index with single-flight refresh, a TTL-bounded spot-price cache, a
//! bounded LRU cache of day-bucketed historic prices, and the price-change
//! computation that consumes them.
//!
//! Upstream HTTP calls, JSON handling and the route wiring live outside this
//! library; the library receives plain values (coin lists, parsed price
//! responses, daily series points) and makes every caching and pricing
//! decision over them.

use vstd::prelude::*;

pub mod coins;
pub mod day_bucket;
pub mod historic;
pub mod price_change;
pub mod spot_cache;
pub mod symbol_cache;
pub mod urls;

verus! {

/// Milliseconds in one hour: the freshness window of a spot-price entry.
pub const SPOT_PRICE_TTL_MS: i64 = 3_600_000;

/// Milliseconds in four hours: the freshness window of the symbol index.
pub const SYMBOL_INDEX_TTL_MS: i64 = 14_400_000;

/// Number of entries the historic-price cache may hold at once.
pub const HISTORIC_CACHE_CAPACITY: usize = 10_000;

/// The one error type of the core: every lookup failure is a typed result.
#[derive(Clone, Debug, PartialEq, Eq)]
pub enum PriceError {
    /// The symbol is absent from a freshly built symbol index.
    SymbolNotFound,
    /// The provider answered well-formedly but without the requested
    /// identifier/base pair.
    PriceNotFound,
    /// The historic anchor price was zero, so no finite change ratio exists.
    InvalidHistoricPrice,
    /// Transport failure or non-success status from the upstream provider,
    /// carrying the upstream status code when one was available.
    UpstreamError(Option<u16>),
}

/// The HTTP status that the boundary layer relays for an error: not-found
/// outcomes map to 404, an upstream failure relays its carried status, and
/// everything else is a generic server error.
pub open spec fn spec_status_code_of(e: PriceError) -> u16 {
    match e {
        PriceError::SymbolNotFound => 404,
        PriceError::PriceNotFound => 404,
        PriceError::InvalidHistoricPrice => 500,
        PriceError::UpstreamError(status) => match status {
            Some(s) => s,
            None => 500,
        },
    }
}

/// Maps a core error to the HTTP status code the boundary relays.
pub fn status_code_of(e: &PriceError) -> (code: u16)
    ensures
        code == spec_status_code_of(*e),
{
    match e {
        PriceError::SymbolNotFound => 404,
        PriceError::PriceNotFound => 404,
        PriceError::InvalidHistoricPrice => 500,
        PriceError::UpstreamError(status) => match status {
            Some(s) => *s,
            None => 500,
        },
    }
}

/// Freshness of a cached value: it was produced within the window ending
/// now, so `now - produced_at < ttl`.
pub open spec fn spec_is_fresh(produced_at_ms: int, now_ms: int, ttl_ms: int) -> bool {
    now_ms - produced_at_ms < ttl_ms
}

/// Decides freshness of a cached value, exact for every pair of instants.
pub fn is_fresh(produced_at_ms: i64, now_ms: i64, ttl_ms: i64) -> (fresh: bool)
    ensures
        fresh == spec_is_fresh(produced_at_ms as int, now_ms as int, ttl_ms as int),
{
    (now_ms as i128) - (produced_at_ms as i128) < (ttl_ms as i128)
}

/// Process configuration: the port the boundary layer listens on.
pub struct Config {
    pub port: u32,
}

impl Config {
    /// The port used when the environment names none.
    pub fn default_port() -> (p: u32)
        ensures
            p == 3000,
    {
        3000
    }
}

} // verus!
