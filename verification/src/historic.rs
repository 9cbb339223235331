//! The historic-price cache: a bounded least-recently-used store of
//! individual (identifier, base, day-timestamp) prices, populated in bulk
//! from daily-series fetches. The store itself is `lru::LruCache`; its
//! contents are modelled as a recency-ordered sequence — most recently
//! used first — and every operation is stated over that model.

use vstd::prelude::*;
use crate::PriceError;
use crate::day_bucket::{spec_day_bucket_of_ms, day_bucket_of_ms};

verus! {

/// One historic price is keyed by identifier, base currency and the start
/// of its UTC day, so any two points of one day share a key.
#[derive(Clone, Debug, PartialEq, Eq, Hash)]
pub struct HistoricPriceKey {
    pub id: String,
    pub base: String,
    pub timestamp: i64,
}

impl View for HistoricPriceKey {
    type V = (Seq<char>, Seq<char>, i64);

    open spec fn view(&self) -> (Seq<char>, Seq<char>, i64) {
        (self.id@, self.base@, self.timestamp)
    }
}

/// Builds the cache key for a historic-price target.
pub fn key_from_historic_price_target(id: &str, base: &str, timestamp: &i64) -> (key:
    HistoricPriceKey)
    ensures
        key@ == (id@, base@, *timestamp),
{
    HistoricPriceKey {
        id: String::from_str(id),
        base: String::from_str(base),
        timestamp: *timestamp,
    }
}

#[verifier::external_type_specification]
#[verifier::external_body]
#[verifier::reject_recursive_types(K)]
#[verifier::reject_recursive_types(V)]
#[verifier::reject_recursive_types(S)]
pub struct ExLruCache<K, V, S>(lru::LruCache<K, V, S>);

/// The entries an LRU store holds, most recently used first.
pub uninterp spec fn lru_entries(c: lru::LruCache<HistoricPriceKey, u64>) -> Seq<
    ((Seq<char>, Seq<char>, i64), u64),
>;

/// The bound the LRU store was created with.
pub uninterp spec fn lru_capacity(c: lru::LruCache<HistoricPriceKey, u64>) -> nat;

/// Whether some entry carries this key.
pub open spec fn spec_lru_has(
    s: Seq<((Seq<char>, Seq<char>, i64), u64)>,
    k: (Seq<char>, Seq<char>, i64),
) -> bool {
    exists|i: int| 0 <= i < s.len() && s[i].0 == k
}

/// The position of the entry carrying this key (meaningful when the keys
/// are distinct and one of them matches).
pub open spec fn spec_lru_pos(
    s: Seq<((Seq<char>, Seq<char>, i64), u64)>,
    k: (Seq<char>, Seq<char>, i64),
) -> int {
    choose|i: int| 0 <= i < s.len() && s[i].0 == k
}

/// The price stored under a key (meaningful when the key is present).
pub open spec fn spec_lru_value(
    s: Seq<((Seq<char>, Seq<char>, i64), u64)>,
    k: (Seq<char>, Seq<char>, i64),
) -> u64 {
    s[spec_lru_pos(s, k)].1
}

/// Each key is held at most once.
pub open spec fn spec_lru_distinct(s: Seq<((Seq<char>, Seq<char>, i64), u64)>) -> bool {
    forall|i: int, j: int| 0 <= i < j < s.len() ==> s[i].0 != s[j].0
}

/// What a `put` leaves behind: an existing key is re-valued and moved to
/// the most-recent position; a new key enters at the most-recent position,
/// evicting the least-recently-used entry when the store is full.
pub open spec fn spec_lru_put(
    s: Seq<((Seq<char>, Seq<char>, i64), u64)>,
    cap: nat,
    k: (Seq<char>, Seq<char>, i64),
    v: u64,
) -> Seq<((Seq<char>, Seq<char>, i64), u64)> {
    if spec_lru_has(s, k) {
        seq![(k, v)] + s.remove(spec_lru_pos(s, k))
    } else if s.len() < cap {
        seq![(k, v)] + s
    } else {
        seq![(k, v)] + s.drop_last()
    }
}

/// What a read leaves behind: a present key moves to the most-recent
/// position — a read counts as a use — and an absent key changes nothing.
pub open spec fn spec_lru_bump(
    s: Seq<((Seq<char>, Seq<char>, i64), u64)>,
    k: (Seq<char>, Seq<char>, i64),
) -> Seq<((Seq<char>, Seq<char>, i64), u64)> {
    if spec_lru_has(s, k) {
        seq![s[spec_lru_pos(s, k)]] + s.remove(spec_lru_pos(s, k))
    } else {
        s
    }
}

/// Relies on `lru::LruCache::new`: a cache created empty that holds at
/// most `cap` items.
#[verifier::external_body]
fn lru_new(cap: usize) -> (c: lru::LruCache<HistoricPriceKey, u64>)
    requires
        1 <= cap,
    ensures
        lru_entries(c) == Seq::<((Seq<char>, Seq<char>, i64), u64)>::empty(),
        lru_capacity(c) == cap,
{
    lru::LruCache::new(std::num::NonZeroUsize::new(cap).unwrap())
}

/// Relies on `lru::LruCache::put`: an existing key keeps the new value,
/// moves to the most-recent position and yields its old value; a new key
/// enters most-recent, evicting the least-recently-used entry when full.
#[verifier::external_body]
fn lru_put(c: &mut lru::LruCache<HistoricPriceKey, u64>, k: HistoricPriceKey, v: u64) -> (r:
    Option<u64>)
    ensures
        lru_capacity(*final(c)) == lru_capacity(*old(c)),
        lru_entries(*final(c)) == spec_lru_put(
            lru_entries(*old(c)),
            lru_capacity(*old(c)),
            k@,
            v,
        ),
        r == (if spec_lru_has(lru_entries(*old(c)), k@) {
            Some(spec_lru_value(lru_entries(*old(c)), k@))
        } else {
            None::<u64>
        }),
{
    c.put(k, v)
}

/// Relies on `lru::LruCache::get`: a present key's value is returned and
/// the key moved to the most-recent position; reading counts as a use.
#[verifier::external_body]
fn lru_get(c: &mut lru::LruCache<HistoricPriceKey, u64>, k: &HistoricPriceKey) -> (r: Option<
    u64,
>)
    ensures
        lru_capacity(*final(c)) == lru_capacity(*old(c)),
        lru_entries(*final(c)) == spec_lru_bump(lru_entries(*old(c)), k@),
        r == (if spec_lru_has(lru_entries(*old(c)), k@) {
            Some(spec_lru_value(lru_entries(*old(c)), k@))
        } else {
            None::<u64>
        }),
{
    c.get(k).copied()
}

/// Relies on `lru::LruCache::contains`: presence of a key, with no
/// recency change.
#[verifier::external_body]
fn lru_contains(c: &lru::LruCache<HistoricPriceKey, u64>, k: &HistoricPriceKey) -> (r: bool)
    ensures
        r == spec_lru_has(lru_entries(*c), k@),
{
    c.contains(k)
}

/// Relies on `lru::LruCache::len`: the number of entries held.
#[verifier::external_body]
fn lru_len(c: &lru::LruCache<HistoricPriceKey, u64>) -> (n: usize)
    ensures
        n == lru_entries(*c).len(),
{
    c.len()
}

/// In a store with distinct keys an entry's position is the only one
/// carrying its key.
pub proof fn lemma_lru_pos_unique(
    s: Seq<((Seq<char>, Seq<char>, i64), u64)>,
    k: (Seq<char>, Seq<char>, i64),
    p: int,
)
    requires
        spec_lru_distinct(s),
        0 <= p < s.len(),
        s[p].0 == k,
    ensures
        spec_lru_has(s, k),
        spec_lru_pos(s, k) == p,
{
    assert(spec_lru_has(s, k));
    let q = spec_lru_pos(s, k);
    if q < p {
        assert(s[q].0 != s[p].0);
    } else if p < q {
        assert(s[p].0 != s[q].0);
    }
}

/// Removing one entry keeps the remaining keys distinct and drops only
/// the removed position.
proof fn lemma_remove_distinct(s: Seq<((Seq<char>, Seq<char>, i64), u64)>, p: int)
    requires
        spec_lru_distinct(s),
        0 <= p < s.len(),
    ensures
        spec_lru_distinct(s.remove(p)),
        forall|i: int| 0 <= i < p ==> s.remove(p)[i] == s[i],
        forall|i: int| p <= i < s.len() - 1 ==> s.remove(p)[i] == s[i + 1],
        forall|i: int| 0 <= i < s.len() - 1 ==> s.remove(p)[i].0 != s[p].0,
{
    let r = s.remove(p);
    assert(forall|i: int| 0 <= i < p ==> r[i] == s[i]);
    assert(forall|i: int| p <= i < s.len() - 1 ==> r[i] == s[i + 1]);
    assert forall|i: int, j: int| 0 <= i < j < r.len() implies r[i].0 != r[j].0 by {
        let oi: int = if i < p {
            i
        } else {
            i + 1
        };
        let oj: int = if j < p {
            j
        } else {
            j + 1
        };
        assert(r[i] == s[oi] && r[j] == s[oj]);
        assert(s[oi].0 != s[oj].0);
    }
    assert forall|i: int| 0 <= i < s.len() - 1 implies r[i].0 != s[p].0 by {
        let oi: int = if i < p {
            i
        } else {
            i + 1
        };
        assert(r[i] == s[oi] && oi != p);
        if oi < p {
            assert(s[oi].0 != s[p].0);
        } else {
            assert(s[p].0 != s[oi].0);
        }
    }
}

/// A `put` keeps the keys distinct and never pushes the store past its
/// bound: an existing key re-values in place, a new key grows the store
/// only when room is left, and a full store evicts as it admits.
pub proof fn lemma_lru_put_wf(
    s: Seq<((Seq<char>, Seq<char>, i64), u64)>,
    cap: nat,
    k: (Seq<char>, Seq<char>, i64),
    v: u64,
)
    requires
        spec_lru_distinct(s),
        s.len() <= cap,
        1 <= cap,
    ensures
        spec_lru_distinct(spec_lru_put(s, cap, k, v)),
        spec_lru_put(s, cap, k, v).len() <= cap,
        spec_lru_put(s, cap, k, v).len() == (if spec_lru_has(s, k) || s.len() == cap {
            s.len()
        } else {
            s.len() + 1
        }),
        spec_lru_has(spec_lru_put(s, cap, k, v), k),
        spec_lru_value(spec_lru_put(s, cap, k, v), k) == v,
{
    let out = spec_lru_put(s, cap, k, v);
    if spec_lru_has(s, k) {
        let p = spec_lru_pos(s, k);
        lemma_lru_pos_unique(s, k, p);
        lemma_remove_distinct(s, p);
        let r = s.remove(p);
        assert forall|i: int, j: int| 0 <= i < j < out.len() implies out[i].0 != out[j].0 by {
            if i == 0 {
                assert(out[j] == r[j - 1]);
                assert(r[j - 1].0 != s[p].0);
            } else {
                assert(out[i] == r[i - 1] && out[j] == r[j - 1]);
            }
        }
    } else if s.len() < cap {
        assert forall|i: int, j: int| 0 <= i < j < out.len() implies out[i].0 != out[j].0 by {
            if i == 0 {
                assert(out[j] == s[j - 1]);
                assert(s[j - 1].0 != k);
            } else {
                assert(out[i] == s[i - 1] && out[j] == s[j - 1]);
            }
        }
    } else {
        let d = s.drop_last();
        assert(forall|i: int| 0 <= i < d.len() ==> d[i] == s[i]);
        assert forall|i: int, j: int| 0 <= i < j < out.len() implies out[i].0 != out[j].0 by {
            if i == 0 {
                assert(out[j] == s[j - 1]);
                assert(s[j - 1].0 != k);
            } else {
                assert(out[i] == s[i - 1] && out[j] == s[j - 1]);
            }
        }
    }
    lemma_lru_pos_unique(out, k, 0);
}

/// A read keeps the keys distinct, the length, and every key's presence
/// and value; only recency order changes.
pub proof fn lemma_lru_bump_wf(
    s: Seq<((Seq<char>, Seq<char>, i64), u64)>,
    k: (Seq<char>, Seq<char>, i64),
)
    requires
        spec_lru_distinct(s),
    ensures
        spec_lru_distinct(spec_lru_bump(s, k)),
        spec_lru_bump(s, k).len() == s.len(),
        forall|k2: (Seq<char>, Seq<char>, i64)|
            spec_lru_has(spec_lru_bump(s, k), k2) == spec_lru_has(s, k2),
        forall|k2: (Seq<char>, Seq<char>, i64)|
            spec_lru_has(s, k2) ==> spec_lru_value(spec_lru_bump(s, k), k2) == spec_lru_value(
                s,
                k2,
            ),
{
    let out = spec_lru_bump(s, k);
    if spec_lru_has(s, k) {
        let p = spec_lru_pos(s, k);
        lemma_lru_pos_unique(s, k, p);
        lemma_remove_distinct(s, p);
        let r = s.remove(p);
        assert forall|i: int, j: int| 0 <= i < j < out.len() implies out[i].0 != out[j].0 by {
            if i == 0 {
                assert(out[j] == r[j - 1]);
                assert(r[j - 1].0 != s[p].0);
            } else {
                assert(out[i] == r[i - 1] && out[j] == r[j - 1]);
            }
        }
        assert forall|k2: (Seq<char>, Seq<char>, i64)| spec_lru_has(out, k2) == spec_lru_has(
            s,
            k2,
        ) by {
            if spec_lru_has(s, k2) {
                let q = spec_lru_pos(s, k2);
                lemma_lru_pos_unique(s, k2, q);
                if q == p {
                    assert(out[0].0 == k2);
                } else if q < p {
                    assert(out[q + 1] == r[q] && r[q] == s[q]);
                    assert(out[q + 1].0 == k2);
                } else {
                    assert(out[q] == r[q - 1] && r[q - 1] == s[q]);
                    assert(out[q].0 == k2);
                }
            } else {
                if spec_lru_has(out, k2) {
                    let q = spec_lru_pos(out, k2);
                    assert(0 <= q < out.len() && out[q].0 == k2);
                    if q == 0 {
                        assert(s[p].0 == k2);
                    } else {
                        let oi: int = if q - 1 < p {
                            q - 1
                        } else {
                            q
                        };
                        assert(out[q] == r[q - 1] && r[q - 1] == s[oi]);
                        assert(s[oi].0 == k2);
                    }
                    assert(false);
                }
            }
        }
        assert forall|k2: (Seq<char>, Seq<char>, i64)| spec_lru_has(s, k2) implies spec_lru_value(
            out,
            k2,
        ) == spec_lru_value(s, k2) by {
            let q = spec_lru_pos(s, k2);
            lemma_lru_pos_unique(s, k2, q);
            if q == p {
                lemma_lru_pos_unique(out, k2, 0);
            } else if q < p {
                assert(out[q + 1] == r[q] && r[q] == s[q]);
                lemma_lru_pos_unique(out, k2, q + 1);
            } else {
                assert(out[q] == r[q - 1] && r[q - 1] == s[q]);
                lemma_lru_pos_unique(out, k2, q);
            }
        }
    }
}

/// The bounded LRU store of historic prices.
pub struct HistoricPriceCache {
    pub store: lru::LruCache<HistoricPriceKey, u64>,
}

/// Well-formedness: keys are distinct and the store never exceeds its
/// bound, which is at least one.
pub open spec fn spec_historic_wf(c: HistoricPriceCache) -> bool {
    &&& spec_lru_distinct(lru_entries(c.store))
    &&& lru_entries(c.store).len() <= lru_capacity(c.store)
    &&& 1 <= lru_capacity(c.store)
}

/// What one daily-series fetch leaves in the store: every returned point,
/// in order, is put under its day-bucketed key, so two points of one UTC
/// day collapse to one entry holding the later point's price.
pub open spec fn spec_series_inserted(
    s: Seq<((Seq<char>, Seq<char>, i64), u64)>,
    cap: nat,
    id: Seq<char>,
    base: Seq<char>,
    points: Seq<(i64, u64)>,
) -> Seq<((Seq<char>, Seq<char>, i64), u64)>
    decreases points.len(),
{
    if points.len() == 0 {
        s
    } else {
        let prev = spec_series_inserted(s, cap, id, base, points.drop_last());
        let p = points.last();
        spec_lru_put(prev, cap, (id, base, spec_day_bucket_of_ms(p.0 as int) as i64), p.1)
    }
}

/// Two daily-series points whose raw timestamps fall in the same UTC
/// calendar day collapse to the same key: inserting both leaves one entry
/// under that key, holding the later-written price.
pub proof fn lemma_same_day_points_collapse(
    s: Seq<((Seq<char>, Seq<char>, i64), u64)>,
    cap: nat,
    id: Seq<char>,
    base: Seq<char>,
    p1: (i64, u64),
    p2: (i64, u64),
)
    requires
        spec_lru_distinct(s),
        s.len() <= cap,
        1 <= cap,
        spec_day_bucket_of_ms(p1.0 as int) == spec_day_bucket_of_ms(p2.0 as int),
    ensures
        ({
            let day = spec_day_bucket_of_ms(p2.0 as int) as i64;
            let out = spec_series_inserted(s, cap, id, base, seq![p1, p2]);
            &&& spec_lru_has(out, (id, base, day))
            &&& spec_lru_value(out, (id, base, day)) == p2.1
        }),
{
    let day = spec_day_bucket_of_ms(p2.0 as int) as i64;
    let k = (id, base, day);
    let pts = seq![p1, p2];
    let one = pts.drop_last();
    assert(one =~= seq![p1]);
    assert(one.drop_last() =~= Seq::<(i64, u64)>::empty());
    assert(one.last() == p1 && pts.last() == p2);
    let after1 = spec_lru_put(s, cap, k, p1.1);
    lemma_lru_put_wf(s, cap, k, p1.1);
    assert(spec_series_inserted(s, cap, id, base, one.drop_last()) == s);
    assert(spec_series_inserted(s, cap, id, base, one) == after1);
    lemma_lru_put_wf(after1, cap, k, p2.1);
    assert(spec_series_inserted(s, cap, id, base, pts) == spec_lru_put(after1, cap, k, p2.1));
}

impl HistoricPriceCache {
    /// An empty cache bounded by `capacity` entries.
    pub fn new(capacity: usize) -> (c: HistoricPriceCache)
        requires
            1 <= capacity,
        ensures
            spec_historic_wf(c),
            lru_entries(c.store) == Seq::<((Seq<char>, Seq<char>, i64), u64)>::empty(),
            lru_capacity(c.store) == capacity,
    {
        HistoricPriceCache { store: lru_new(capacity) }
    }

    /// Reads the price stored under a key; a hit counts as a use, so the
    /// entry moves to the most-recent position.
    pub fn get(&mut self, key: &HistoricPriceKey) -> (r: Option<u64>)
        requires
            spec_historic_wf(*old(self)),
        ensures
            spec_historic_wf(*final(self)),
            lru_capacity(final(self).store) == lru_capacity(old(self).store),
            lru_entries(final(self).store) == spec_lru_bump(lru_entries(old(self).store), key@),
            r == (if spec_lru_has(lru_entries(old(self).store), key@) {
                Some(spec_lru_value(lru_entries(old(self).store), key@))
            } else {
                None::<u64>
            }),
    {
        let r = lru_get(&mut self.store, key);
        proof {
            lemma_lru_bump_wf(lru_entries(old(self).store), key@);
        }
        r
    }

    /// Stores a price under a key, evicting the least-recently-used entry
    /// when the store is full.
    pub fn put(&mut self, key: HistoricPriceKey, price: u64)
        requires
            spec_historic_wf(*old(self)),
        ensures
            spec_historic_wf(*final(self)),
            lru_capacity(final(self).store) == lru_capacity(old(self).store),
            lru_entries(final(self).store) == spec_lru_put(
                lru_entries(old(self).store),
                lru_capacity(old(self).store),
                key@,
                price,
            ),
    {
        let ghost s0 = lru_entries(self.store);
        let ghost k = key@;
        let _ = lru_put(&mut self.store, key, price);
        proof {
            lemma_lru_put_wf(s0, lru_capacity(old(self).store), k, price);
        }
    }

    /// Whether a key is present, with no recency change.
    pub fn contains(&self, key: &HistoricPriceKey) -> (r: bool)
        ensures
            r == spec_lru_has(lru_entries(self.store), key@),
    {
        lru_contains(&self.store, key)
    }

    /// The number of entries held.
    pub fn len(&self) -> (n: usize)
        ensures
            n == lru_entries(self.store).len(),
    {
        lru_len(&self.store)
    }

    /// Inserts every point of one daily-series fetch, each under its
    /// day-bucketed key, in the order the provider returned them.
    pub fn insert_series(&mut self, id: &str, base: &str, points: &Vec<(i64, u64)>)
        requires
            spec_historic_wf(*old(self)),
        ensures
            spec_historic_wf(*final(self)),
            lru_capacity(final(self).store) == lru_capacity(old(self).store),
            lru_entries(final(self).store) == spec_series_inserted(
                lru_entries(old(self).store),
                lru_capacity(old(self).store),
                id@,
                base@,
                points@,
            ),
    {
        let ghost s0 = lru_entries(self.store);
        let ghost cap = lru_capacity(self.store);
        let mut i: usize = 0;
        proof {
            assert(points@.subrange(0, 0) =~= Seq::<(i64, u64)>::empty());
        }
        while i < points.len()
            invariant
                i <= points@.len(),
                spec_historic_wf(*self),
                lru_capacity(self.store) == cap,
                lru_entries(self.store) == spec_series_inserted(
                    s0,
                    cap,
                    id@,
                    base@,
                    points@.subrange(0, i as int),
                ),
            decreases points@.len() - i,
        {
            let (ms, price) = points[i];
            let day = day_bucket_of_ms(ms);
            let key = key_from_historic_price_target(id, base, &day);
            self.put(key, price);
            proof {
                let prev = points@.subrange(0, i as int);
                let cur = points@.subrange(0, i + 1 as int);
                assert(cur.drop_last() =~= prev);
                assert(cur.last() == points@[i as int]);
            }
            i += 1;
        }
        proof {
            assert(points@.subrange(0, points@.len() as int) =~= points@);
        }
    }

    /// Answers a historic-price request from one daily-series fetch: the
    /// points are stored in bulk — one critical section per fetch — and
    /// the target day is then re-read. When the series does not include
    /// the target day the first (oldest) returned point stands in for the
    /// historic anchor; an empty series answers nothing and is
    /// `PriceNotFound`.
    pub fn store_series_and_read(
        &mut self,
        id: &str,
        base: &str,
        target_day: i64,
        points: &Vec<(i64, u64)>,
    ) -> (r: Result<u64, PriceError>)
        requires
            spec_historic_wf(*old(self)),
        ensures
            spec_historic_wf(*final(self)),
            lru_capacity(final(self).store) == lru_capacity(old(self).store),
            ({
                let mid = spec_series_inserted(
                    lru_entries(old(self).store),
                    lru_capacity(old(self).store),
                    id@,
                    base@,
                    points@,
                );
                let target = (id@, base@, target_day);
                &&& lru_entries(final(self).store) == spec_lru_bump(mid, target)
                &&& r == (if spec_lru_has(mid, target) {
                    Ok::<u64, PriceError>(spec_lru_value(mid, target))
                } else if points@.len() > 0 {
                    Ok::<u64, PriceError>(points@[0].1)
                } else {
                    Err::<u64, PriceError>(PriceError::PriceNotFound)
                })
            }),
    {
        self.insert_series(id, base, points);
        let key = key_from_historic_price_target(id, base, &target_day);
        match self.get(&key) {
            Some(price) => Ok(price),
            None => {
                if points.len() > 0 {
                    Ok(points[0].1)
                } else {
                    Err(PriceError::PriceNotFound)
                }
            },
        }
    }
}

} // verus!
