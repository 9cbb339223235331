//! The spot-price cache: one independently expiring price per
//! (identifier, base-currency) pair, each pair with its own freshness
//! window and its own single-flight fetch marker. The cache decides; the
//! caller performs the upstream fetch and hands back the parsed response.

use vstd::prelude::*;
use crate::{PriceError, SPOT_PRICE_TTL_MS, spec_is_fresh, is_fresh};

verus! {

/// One (identifier, base) pair's slot: the last stored price with its
/// instant, and the single-flight marker of a fetch in flight.
pub struct SpotEntry {
    pub id: String,
    pub base: String,
    pub cached: Option<(u64, i64)>,
    pub in_flight: bool,
}

/// The spot-price cache over all (identifier, base) pairs.
pub struct SpotPriceCache {
    pub entries: Vec<SpotEntry>,
}

/// Whether some slot carries this (identifier, base) pair.
pub open spec fn spec_has_pair(entries: Seq<SpotEntry>, id: Seq<char>, base: Seq<char>) -> bool {
    exists|i: int| 0 <= i < entries.len() && entries[i].id@ == id && entries[i].base@ == base
}

/// The position of the slot carrying this pair (meaningful when the pairs
/// are distinct and one of them matches).
pub open spec fn spec_pair_pos(entries: Seq<SpotEntry>, id: Seq<char>, base: Seq<char>) -> int {
    choose|i: int| 0 <= i < entries.len() && entries[i].id@ == id && entries[i].base@ == base
}

/// Well-formedness: every (identifier, base) pair is held at most once.
pub open spec fn spec_spot_wf(entries: Seq<SpotEntry>) -> bool {
    forall|i: int, j: int|
        0 <= i < j < entries.len() ==> !(entries[i].id@ == entries[j].id@ && entries[i].base@
            == entries[j].base@)
}

/// The stored price and instant for a pair, if any.
pub open spec fn spec_pair_cached(c: SpotPriceCache, id: Seq<char>, base: Seq<char>) -> Option<
    (u64, i64),
> {
    if spec_has_pair(c.entries@, id, base) {
        c.entries@[spec_pair_pos(c.entries@, id, base)].cached
    } else {
        None
    }
}

/// Whether a fetch for this pair is in flight.
pub open spec fn spec_pair_in_flight(c: SpotPriceCache, id: Seq<char>, base: Seq<char>) -> bool {
    if spec_has_pair(c.entries@, id, base) {
        c.entries@[spec_pair_pos(c.entries@, id, base)].in_flight
    } else {
        false
    }
}

/// Whether the pair's stored price is fresh at `now_ms`.
pub open spec fn spec_pair_fresh(
    c: SpotPriceCache,
    id: Seq<char>,
    base: Seq<char>,
    now_ms: i64,
) -> bool {
    spec_pair_cached(c, id, base) matches Some(pt) && spec_is_fresh(
        pt.1 as int,
        now_ms as int,
        SPOT_PRICE_TTL_MS as int,
    )
}

/// The price a lookup at `now_ms` serves from the cache, if any: the
/// stored price exactly when it is fresh.
pub open spec fn spec_pair_serves(
    c: SpotPriceCache,
    id: Seq<char>,
    base: Seq<char>,
    now_ms: i64,
) -> Option<u64> {
    if spec_pair_fresh(c, id, base, now_ms) {
        Some(spec_pair_cached(c, id, base)->Some_0.0)
    } else {
        None
    }
}

/// Whether a `begin_fetch` at `now_ms` starts the upstream fetch: only
/// when the pair's price is stale or absent and no fetch for the pair is
/// already in flight.
pub open spec fn spec_pair_fetch_starts(
    c: SpotPriceCache,
    id: Seq<char>,
    base: Seq<char>,
    now_ms: i64,
) -> bool {
    !spec_pair_fresh(c, id, base, now_ms) && !spec_pair_in_flight(c, id, base)
}

/// In a well-formed cache a slot's position is the only one carrying its
/// pair.
pub proof fn lemma_pair_pos_unique(entries: Seq<SpotEntry>, id: Seq<char>, base: Seq<char>, p: int)
    requires
        spec_spot_wf(entries),
        0 <= p < entries.len(),
        entries[p].id@ == id,
        entries[p].base@ == base,
    ensures
        spec_has_pair(entries, id, base),
        spec_pair_pos(entries, id, base) == p,
{
    assert(spec_has_pair(entries, id, base));
    let q = spec_pair_pos(entries, id, base);
    if q < p {
        assert(!(entries[q].id@ == entries[p].id@ && entries[q].base@ == entries[p].base@));
    } else if p < q {
        assert(!(entries[p].id@ == entries[q].id@ && entries[p].base@ == entries[q].base@));
    }
}

/// After replacing the slot at one position by a slot with the same pair,
/// the cache reads the new slot at that pair and is unchanged elsewhere.
proof fn lemma_spot_after_update(s0: Seq<SpotEntry>, s1: Seq<SpotEntry>, p: int)
    requires
        spec_spot_wf(s0),
        0 <= p < s0.len(),
        s1 == s0.update(p, s1[p]),
        s1[p].id@ == s0[p].id@,
        s1[p].base@ == s0[p].base@,
    ensures
        spec_spot_wf(s1),
        spec_pair_pos(s1, s0[p].id@, s0[p].base@) == p,
        spec_has_pair(s1, s0[p].id@, s0[p].base@),
        forall|id: Seq<char>, base: Seq<char>|
            !(id == s0[p].id@ && base == s0[p].base@) ==> spec_pair_view(s1, id, base)
                == spec_pair_view(s0, id, base),
{
    assert(forall|i: int|
        0 <= i < s1.len() ==> s1[i].id@ == s0[i].id@ && s1[i].base@ == s0[i].base@);
    assert(spec_spot_wf(s1));
    lemma_pair_pos_unique(s1, s0[p].id@, s0[p].base@, p);
    assert forall|id: Seq<char>, base: Seq<char>|
        !(id == s0[p].id@ && base == s0[p].base@) implies spec_pair_view(s1, id, base)
        == spec_pair_view(s0, id, base) by {
        if spec_has_pair(s0, id, base) {
            let q = spec_pair_pos(s0, id, base);
            lemma_pair_pos_unique(s0, id, base, q);
            assert(q != p);
            lemma_pair_pos_unique(s1, id, base, q);
            assert(s1[q] == s0[q]);
        } else {
            assert(!spec_has_pair(s1, id, base)) by {
                if spec_has_pair(s1, id, base) {
                    let q = spec_pair_pos(s1, id, base);
                    assert(0 <= q < s1.len() && s1[q].id@ == id && s1[q].base@ == base);
                    assert(s0[q].id@ == id && s0[q].base@ == base);
                }
            }
        }
    }
}

/// What one pair's slot holds, as one value: presence, stored price and
/// single-flight marker together.
pub open spec fn spec_pair_view(entries: Seq<SpotEntry>, id: Seq<char>, base: Seq<char>) -> (
    bool,
    Option<(u64, i64)>,
    bool,
) {
    if spec_has_pair(entries, id, base) {
        let p = spec_pair_pos(entries, id, base);
        (true, entries[p].cached, entries[p].in_flight)
    } else {
        (false, None, false)
    }
}

/// After pushing a slot whose pair was absent, the cache reads the new
/// slot at that pair and is unchanged elsewhere.
proof fn lemma_spot_after_push(s0: Seq<SpotEntry>, s1: Seq<SpotEntry>)
    requires
        spec_spot_wf(s0),
        s1.len() == s0.len() + 1,
        s1 == s0.push(s1.last()),
        !spec_has_pair(s0, s1.last().id@, s1.last().base@),
    ensures
        spec_spot_wf(s1),
        spec_has_pair(s1, s1.last().id@, s1.last().base@),
        spec_pair_pos(s1, s1.last().id@, s1.last().base@) == s0.len(),
        forall|id: Seq<char>, base: Seq<char>|
            !(id == s1.last().id@ && base == s1.last().base@) ==> spec_pair_view(s1, id, base)
                == spec_pair_view(s0, id, base),
{
    let n = s0.len() as int;
    assert(forall|i: int| 0 <= i < n ==> s1[i] == s0[i]);
    assert(spec_spot_wf(s1)) by {
        assert forall|i: int, j: int| 0 <= i < j < s1.len() implies !(s1[i].id@ == s1[j].id@
            && s1[i].base@ == s1[j].base@) by {
            if j < n {
                assert(!(s0[i].id@ == s0[j].id@ && s0[i].base@ == s0[j].base@));
            } else {
                assert(s1[j] == s1.last());
                assert(!(s0[i].id@ == s1.last().id@ && s0[i].base@ == s1.last().base@));
            }
        }
    }
    lemma_pair_pos_unique(s1, s1.last().id@, s1.last().base@, n);
    assert forall|id: Seq<char>, base: Seq<char>|
        !(id == s1.last().id@ && base == s1.last().base@) implies spec_pair_view(s1, id, base)
        == spec_pair_view(s0, id, base) by {
        if spec_has_pair(s0, id, base) {
            let q = spec_pair_pos(s0, id, base);
            lemma_pair_pos_unique(s0, id, base, q);
            lemma_pair_pos_unique(s1, id, base, q);
            assert(s1[q] == s0[q]);
        } else {
            assert(!spec_has_pair(s1, id, base)) by {
                if spec_has_pair(s1, id, base) {
                    let q = spec_pair_pos(s1, id, base);
                    assert(0 <= q < s1.len() && s1[q].id@ == id && s1[q].base@ == base);
                    if q < n {
                        assert(s0[q].id@ == id && s0[q].base@ == base);
                    }
                }
            }
        }
    }
}

/// Finds the position of the slot carrying this pair.
fn find_pair(entries: &Vec<SpotEntry>, id: &str, base: &str) -> (r: Option<usize>)
    ensures
        match r {
            Some(p) => p < entries@.len() && entries@[p as int].id@ == id@
                && entries@[p as int].base@ == base@,
            None => !spec_has_pair(entries@, id@, base@),
        },
{
    let id_key = String::from_str(id);
    let base_key = String::from_str(base);
    let mut i: usize = 0;
    while i < entries.len()
        invariant
            i <= entries@.len(),
            id_key@ == id@,
            base_key@ == base@,
            forall|j: int|
                0 <= j < i ==> !(entries@[j].id@ == id@ && entries@[j].base@ == base@),
        decreases entries@.len() - i,
    {
        if entries[i].id == id_key && entries[i].base == base_key {
            return Some(i);
        }
        i += 1;
    }
    None
}

impl SpotPriceCache {
    /// An empty cache: no pair yet, nothing in flight.
    pub fn new() -> (c: SpotPriceCache)
        ensures
            c.entries@.len() == 0,
            spec_spot_wf(c.entries@),
            forall|id: Seq<char>, base: Seq<char>| !spec_has_pair(c.entries@, id, base),
    {
        SpotPriceCache { entries: Vec::new() }
    }

    /// Serves the stored price for a pair exactly when it is fresh; a
    /// fresh hit is answered with no upstream call. `None` says the caller
    /// must drive a fetch.
    pub fn try_serve(&self, id: &str, base: &str, now_ms: i64) -> (r: Option<u64>)
        requires
            spec_spot_wf(self.entries@),
        ensures
            r == spec_pair_serves(*self, id@, base@, now_ms),
    {
        match find_pair(&self.entries, id, base) {
            Some(p) => {
                proof {
                    lemma_pair_pos_unique(self.entries@, id@, base@, p as int);
                }
                match self.entries[p].cached {
                    Some((price, produced_at_ms)) => {
                        if is_fresh(produced_at_ms, now_ms, SPOT_PRICE_TTL_MS) {
                            Some(price)
                        } else {
                            None
                        }
                    },
                    None => None,
                }
            },
            None => None,
        }
    }

    /// Claims the fetch for a pair: returns true exactly when this caller
    /// must fetch upstream, that is when the pair is stale or absent and
    /// nobody else is already fetching it. The stored price and every
    /// other pair are left untouched.
    pub fn begin_fetch(&mut self, id: &str, base: &str, now_ms: i64) -> (started: bool)
        requires
            spec_spot_wf(old(self).entries@),
        ensures
            spec_spot_wf(final(self).entries@),
            started == spec_pair_fetch_starts(*old(self), id@, base@, now_ms),
            spec_pair_cached(*final(self), id@, base@) == spec_pair_cached(
                *old(self),
                id@,
                base@,
            ),
            spec_pair_in_flight(*final(self), id@, base@) == (spec_pair_in_flight(
                *old(self),
                id@,
                base@,
            ) || started),
            forall|i: Seq<char>, b: Seq<char>|
                !(i == id@ && b == base@) ==> spec_pair_view(final(self).entries@, i, b)
                    == spec_pair_view(old(self).entries@, i, b),
    {
        let ghost s0 = self.entries@;
        match find_pair(&self.entries, id, base) {
            Some(p) => {
                proof {
                    lemma_pair_pos_unique(s0, id@, base@, p as int);
                }
                let entry = &self.entries[p];
                let fresh = match entry.cached {
                    Some((_, produced_at_ms)) => is_fresh(
                        produced_at_ms,
                        now_ms,
                        SPOT_PRICE_TTL_MS,
                    ),
                    None => false,
                };
                if fresh {
                    false
                } else {
                    let started = !self.entries[p].in_flight;
                    let slot = self.entries.remove(p);
                    let updated = SpotEntry {
                        id: slot.id,
                        base: slot.base,
                        cached: slot.cached,
                        in_flight: true,
                    };
                    self.entries.insert(p, updated);
                    proof {
                        assert(self.entries@ =~= s0.update(p as int, self.entries@[p as int]));
                        lemma_spot_after_update(s0, self.entries@, p as int);
                    }
                    started
                }
            },
            None => {
                let entry = SpotEntry {
                    id: String::from_str(id),
                    base: String::from_str(base),
                    cached: None,
                    in_flight: true,
                };
                self.entries.push(entry);
                proof {
                    lemma_spot_after_push(s0, self.entries@);
                }
                true
            },
        }
    }

    /// Stores a freshly fetched price for a pair with its new instant and
    /// releases the pair's single-flight marker. Every other pair is left
    /// untouched.
    pub fn complete_fetch(&mut self, id: &str, base: &str, price: u64, now_ms: i64)
        requires
            spec_spot_wf(old(self).entries@),
        ensures
            spec_spot_wf(final(self).entries@),
            spec_pair_cached(*final(self), id@, base@) == Some((price, now_ms)),
            !spec_pair_in_flight(*final(self), id@, base@),
            forall|i: Seq<char>, b: Seq<char>|
                !(i == id@ && b == base@) ==> spec_pair_view(final(self).entries@, i, b)
                    == spec_pair_view(old(self).entries@, i, b),
    {
        let ghost s0 = self.entries@;
        match find_pair(&self.entries, id, base) {
            Some(p) => {
                proof {
                    lemma_pair_pos_unique(s0, id@, base@, p as int);
                }
                let slot = self.entries.remove(p);
                let updated = SpotEntry {
                    id: slot.id,
                    base: slot.base,
                    cached: Some((price, now_ms)),
                    in_flight: false,
                };
                self.entries.insert(p, updated);
                proof {
                    assert(self.entries@ =~= s0.update(p as int, self.entries@[p as int]));
                    lemma_spot_after_update(s0, self.entries@, p as int);
                }
            },
            None => {
                let entry = SpotEntry {
                    id: String::from_str(id),
                    base: String::from_str(base),
                    cached: Some((price, now_ms)),
                    in_flight: false,
                };
                self.entries.push(entry);
                proof {
                    lemma_spot_after_push(s0, self.entries@);
                }
            },
        }
    }

    /// Finishes a pair's fetch from the provider's parsed response: a
    /// price present for the pair is stored with its new instant and
    /// returned; an absent pair stores nothing and is `PriceNotFound` —
    /// the provider's well-formed empty answer, not a transport failure.
    /// The pair's single-flight marker is released either way.
    pub fn complete_fetch_from_response(
        &mut self,
        id: &str,
        base: &str,
        resp: &Vec<(String, Vec<(String, u64)>)>,
        now_ms: i64,
    ) -> (r: Result<u64, PriceError>)
        requires
            spec_spot_wf(old(self).entries@),
        ensures
            spec_spot_wf(final(self).entries@),
            r == (match spec_response_price(resp@, id@, base@) {
                Some(p) => Ok::<u64, PriceError>(p),
                None => Err::<u64, PriceError>(PriceError::PriceNotFound),
            }),
            spec_pair_cached(*final(self), id@, base@) == (
            match spec_response_price(resp@, id@, base@) {
                Some(p) => Some((p, now_ms)),
                None => spec_pair_cached(*old(self), id@, base@),
            }),
            !spec_pair_in_flight(*final(self), id@, base@),
            forall|i: Seq<char>, b: Seq<char>|
                !(i == id@ && b == base@) ==> spec_pair_view(final(self).entries@, i, b)
                    == spec_pair_view(old(self).entries@, i, b),
    {
        match price_from_response(resp, id, base) {
            Ok(price) => {
                self.complete_fetch(id, base, price, now_ms);
                Ok(price)
            },
            Err(e) => {
                self.fail_fetch(id, base);
                Err(e)
            },
        }
    }

    /// Records that the fetch for a pair failed: the stored price — fresh
    /// or stale — is left exactly as it was, and the pair's single-flight
    /// marker is released so a later caller may retry.
    pub fn fail_fetch(&mut self, id: &str, base: &str)
        requires
            spec_spot_wf(old(self).entries@),
        ensures
            spec_spot_wf(final(self).entries@),
            spec_pair_cached(*final(self), id@, base@) == spec_pair_cached(
                *old(self),
                id@,
                base@,
            ),
            !spec_pair_in_flight(*final(self), id@, base@),
            forall|i: Seq<char>, b: Seq<char>|
                !(i == id@ && b == base@) ==> spec_pair_view(final(self).entries@, i, b)
                    == spec_pair_view(old(self).entries@, i, b),
    {
        let ghost s0 = self.entries@;
        match find_pair(&self.entries, id, base) {
            Some(p) => {
                proof {
                    lemma_pair_pos_unique(s0, id@, base@, p as int);
                }
                let slot = self.entries.remove(p);
                let updated = SpotEntry {
                    id: slot.id,
                    base: slot.base,
                    cached: slot.cached,
                    in_flight: false,
                };
                self.entries.insert(p, updated);
                proof {
                    assert(self.entries@ =~= s0.update(p as int, self.entries@[p as int]));
                    lemma_spot_after_update(s0, self.entries@, p as int);
                }
            },
            None => {},
        }
    }
}

/// The first price a currency list carries for a base key.
pub open spec fn spec_assoc_price(entries: Seq<(String, u64)>, key: Seq<char>) -> Option<u64>
    decreases entries.len(),
{
    if entries.len() == 0 {
        None
    } else if entries[0].0@ == key {
        Some(entries[0].1)
    } else {
        spec_assoc_price(entries.drop_first(), key)
    }
}

/// The price a provider response carries for an (identifier, base) pair:
/// the base's price under the first entry for the identifier, if both are
/// present.
pub open spec fn spec_response_price(
    resp: Seq<(String, Vec<(String, u64)>)>,
    id: Seq<char>,
    base: Seq<char>,
) -> Option<u64>
    decreases resp.len(),
{
    if resp.len() == 0 {
        None
    } else if resp[0].0@ == id {
        spec_assoc_price(resp[0].1@, base)
    } else {
        spec_response_price(resp.drop_first(), id, base)
    }
}

/// Extracts the requested pair's price from a parsed provider response.
///
/// The provider answers an unknown identifier or base with a well-formed
/// but empty mapping rather than an error status, so an absent pair is
/// `PriceNotFound` — distinct from any transport or status failure, which
/// never reaches this function.
pub fn price_from_response(
    resp: &Vec<(String, Vec<(String, u64)>)>,
    id: &str,
    base: &str,
) -> (r: Result<u64, PriceError>)
    ensures
        r == (match spec_response_price(resp@, id@, base@) {
            Some(p) => Ok::<u64, PriceError>(p),
            None => Err::<u64, PriceError>(PriceError::PriceNotFound),
        }),
{
    let id_key = String::from_str(id);
    let base_key = String::from_str(base);
    let mut i: usize = 0;
    proof {
        assert(resp@.skip(0) =~= resp@);
    }
    while i < resp.len()
        invariant
            i <= resp@.len(),
            id_key@ == id@,
            base_key@ == base@,
            spec_response_price(resp@, id@, base@) == spec_response_price(
                resp@.skip(i as int),
                id@,
                base@,
            ),
        decreases resp@.len() - i,
    {
        proof {
            assert(resp@.skip(i as int)[0] == resp@[i as int]);
            assert(resp@.skip(i as int).drop_first() =~= resp@.skip(i + 1));
        }
        if resp[i].0 == id_key {
            let inner = &resp[i].1;
            let mut j: usize = 0;
            proof {
                assert(inner@.skip(0) =~= inner@);
            }
            while j < inner.len()
                invariant
                    j <= inner@.len(),
                    base_key@ == base@,
                    spec_response_price(resp@, id@, base@) == spec_assoc_price(inner@, base@),
                    spec_assoc_price(inner@, base@) == spec_assoc_price(
                        inner@.skip(j as int),
                        base@,
                    ),
                decreases inner@.len() - j,
            {
                proof {
                    assert(inner@.skip(j as int)[0] == inner@[j as int]);
                    assert(inner@.skip(j as int).drop_first() =~= inner@.skip(j + 1));
                }
                if inner[j].0 == base_key {
                    return Ok(inner[j].1);
                }
                j += 1;
            }
            assert(inner@.skip(j as int) =~= Seq::<(String, u64)>::empty());
            return Err(PriceError::PriceNotFound);
        }
        i += 1;
    }
    assert(resp@.skip(i as int) =~= Seq::<(String, Vec<(String, u64)>)>::empty());
    Err(PriceError::PriceNotFound)
}

/// Per-key single-flight: while a fetch for a pair is in flight, no caller
/// starts another fetch for that pair, at any time. Together with
/// `begin_fetch`, concurrent `get_price` calls for one stale pair trigger
/// exactly one upstream fetch.
pub proof fn lemma_spot_single_flight(
    c: SpotPriceCache,
    id: Seq<char>,
    base: Seq<char>,
    now_ms: i64,
)
    requires
        spec_pair_in_flight(c, id, base),
    ensures
        !spec_pair_fetch_starts(c, id, base, now_ms),
{
}

/// The TTL window of a spot price, both ways: a price completed at instant
/// `t` is served for every call strictly within the window — with no new
/// fetch started — and is not served at or past the window's end, where
/// the next call (with no fetch in flight) starts exactly one fetch.
pub proof fn lemma_spot_ttl_window(
    c: SpotPriceCache,
    id: Seq<char>,
    base: Seq<char>,
    price: u64,
    t: i64,
    now_ms: i64,
)
    requires
        spec_pair_cached(c, id, base) == Some((price, t)),
        !spec_pair_in_flight(c, id, base),
    ensures
        now_ms - t < SPOT_PRICE_TTL_MS ==> spec_pair_serves(c, id, base, now_ms) == Some(price)
            && !spec_pair_fetch_starts(c, id, base, now_ms),
        now_ms - t >= SPOT_PRICE_TTL_MS ==> spec_pair_serves(c, id, base, now_ms) is None
            && spec_pair_fetch_starts(c, id, base, now_ms),
{
}

} // verus!
