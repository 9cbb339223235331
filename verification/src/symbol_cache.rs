//! The symbol-index cache: one shared index with a freshness window and a
//! single-flight refresh protocol. The cache itself decides — serve fresh,
//! start a refresh, or wait for the refresh in flight — while the caller
//! performs the upstream coin-list fetch and hands the result back.

use vstd::prelude::*;
use crate::coins::{
    CoinId, SymbolIndex, get_symbol_id_map, get_id_from_symbol, spec_index_wf,
    spec_entries_lookup, spec_symbol_ids,
};
use crate::{PriceError, SYMBOL_INDEX_TTL_MS, spec_is_fresh, is_fresh};

verus! {

/// The symbol-index cache: the last successfully built index with its build
/// instant, and the single-flight marker for the refresh in flight.
pub struct SymbolIndexCache {
    pub index: Option<SymbolIndex>,
    pub produced_at_ms: i64,
    pub refresh_in_flight: bool,
}

/// Well-formedness: whatever index is held is itself well formed.
pub open spec fn spec_symbol_cache_wf(c: SymbolIndexCache) -> bool {
    c.index matches Some(index) ==> spec_index_wf(index.entries@)
}

/// Whether the cache holds an index that is still fresh at `now_ms`.
pub open spec fn spec_index_fresh(c: SymbolIndexCache, now_ms: i64) -> bool {
    c.index is Some && spec_is_fresh(c.produced_at_ms as int, now_ms as int, SYMBOL_INDEX_TTL_MS as int)
}

/// What the held index associates with a symbol (meaningful when an index
/// is held).
pub open spec fn spec_cache_lookup(c: SymbolIndexCache, sym: Seq<char>) -> Option<Seq<Seq<char>>> {
    spec_entries_lookup(c.index->Some_0.entries@, sym)
}

/// Whether a `begin_refresh` at `now_ms` starts the upstream fetch: only
/// when the index is stale or absent and no refresh is already in flight.
pub open spec fn spec_refresh_starts(c: SymbolIndexCache, now_ms: i64) -> bool {
    !spec_index_fresh(c, now_ms) && !c.refresh_in_flight
}

/// The cache state after a `begin_refresh` at `now_ms`.
pub open spec fn spec_after_begin(c: SymbolIndexCache, now_ms: i64) -> SymbolIndexCache {
    if spec_index_fresh(c, now_ms) {
        c
    } else {
        SymbolIndexCache { refresh_in_flight: true, ..c }
    }
}

impl SymbolIndexCache {
    /// An empty cache: no index yet, nothing in flight.
    pub fn new() -> (c: SymbolIndexCache)
        ensures
            c.index is None,
            !c.refresh_in_flight,
            spec_symbol_cache_wf(c),
    {
        SymbolIndexCache { index: None, produced_at_ms: 0, refresh_in_flight: false }
    }

    /// Serves `resolve(symbol)` from the held index exactly when it is
    /// fresh; `None` says the caller must drive a refresh first. A stale
    /// index is never served.
    pub fn try_resolve(&self, symbol: &str, now_ms: i64) -> (r: Option<
        Result<String, PriceError>,
    >)
        requires
            spec_symbol_cache_wf(*self),
        ensures
            r is Some <==> spec_index_fresh(*self, now_ms),
            r matches Some(res) ==> match res {
                Ok(id) => {
                    &&& spec_cache_lookup(*self, symbol@) is Some
                    &&& spec_cache_lookup(*self, symbol@)->Some_0.len() > 0
                    &&& id@ == spec_cache_lookup(*self, symbol@)->Some_0[0]
                },
                Err(e) => {
                    &&& e == PriceError::SymbolNotFound
                    &&& spec_cache_lookup(*self, symbol@) is None
                },
            },
    {
        match &self.index {
            Some(index) => {
                if is_fresh(self.produced_at_ms, now_ms, SYMBOL_INDEX_TTL_MS) {
                    Some(get_id_from_symbol(index, symbol))
                } else {
                    None
                }
            },
            None => None,
        }
    }

    /// Claims the refresh: returns true exactly when this caller must fetch
    /// the coin list, that is when the index is stale or absent and nobody
    /// else is already fetching. All other callers in that window get false
    /// and wait.
    pub fn begin_refresh(&mut self, now_ms: i64) -> (started: bool)
        ensures
            started == spec_refresh_starts(*old(self), now_ms),
            *final(self) == spec_after_begin(*old(self), now_ms),
    {
        let fresh = self.index.is_some() && is_fresh(
            self.produced_at_ms,
            now_ms,
            SYMBOL_INDEX_TTL_MS,
        );
        if fresh {
            false
        } else {
            let started = !self.refresh_in_flight;
            self.refresh_in_flight = true;
            started
        }
    }

    /// Installs the index rebuilt from a successfully fetched coin list:
    /// the rebuild is atomic from a caller's view — the old index stays
    /// servable until this call, which replaces it whole.
    pub fn complete_refresh(&mut self, coins: &Vec<CoinId>, now_ms: i64)
        ensures
            spec_symbol_cache_wf(*final(self)),
            final(self).index is Some,
            final(self).produced_at_ms == now_ms,
            !final(self).refresh_in_flight,
            forall|sym: Seq<char>|
                spec_cache_lookup(*final(self), sym) == spec_symbol_ids(coins@, sym),
    {
        let index = get_symbol_id_map(coins);
        self.index = Some(index);
        self.produced_at_ms = now_ms;
        self.refresh_in_flight = false;
    }

    /// Records that the coin-list fetch failed: the previous index — fresh
    /// or stale — is left exactly as it was, and the single-flight marker
    /// is released so a later caller may retry. The caller reports the
    /// failure; nothing here serves the stale index in its place.
    pub fn fail_refresh(&mut self)
        ensures
            *final(self) == (SymbolIndexCache { refresh_in_flight: false, ..*old(self) }),
    {
        self.refresh_in_flight = false;
    }
}

/// Single-flight refresh: once one caller's `begin_refresh` has started a
/// fetch, every later `begin_refresh` — at any time, under any staleness —
/// returns false until the fetch completes or fails. So concurrent
/// `resolve` calls over a stale index trigger exactly one upstream fetch.
pub proof fn lemma_refresh_single_flight(c: SymbolIndexCache, now1: i64, now2: i64)
    requires
        spec_refresh_starts(c, now1),
    ensures
        !spec_refresh_starts(spec_after_begin(c, now1), now2),
{
}

} // verus!
