//! Coins and the symbol index: grouping the provider's coin list by ticker
//! symbol, overriding a fixed set of known-ambiguous symbols, and resolving
//! a symbol to its first identifier.

use vstd::prelude::*;
use crate::PriceError;

verus! {

/// One record of the provider's coin catalog.
#[derive(Clone, Debug)]
pub struct CoinId {
    pub id: String,
    pub symbol: String,
    pub name: String,
}

/// The static override table for known-ambiguous symbols: such a symbol
/// always maps to this single identifier, whatever the coin list holds.
pub open spec fn spec_override_of(sym: Seq<char>) -> Option<Seq<char>> {
    if sym == "boo"@ {
        Some("spookyswap"@)
    } else if sym == "comp"@ {
        Some("compound-governance-token"@)
    } else if sym == "ftt"@ {
        Some("ftx-token"@)
    } else if sym == "time"@ {
        Some("wonderland"@)
    } else if sym == "uni"@ {
        Some("uniswap"@)
    } else {
        None
    }
}

/// Looks a symbol up in the static override table.
pub fn override_for(symbol: &str) -> (r: Option<String>)
    ensures
        match r {
            Some(id) => spec_override_of(symbol@) == Some(id@),
            None => spec_override_of(symbol@) is None,
        },
{
    let s = String::from_str(symbol);
    if s == String::from_str("boo") {
        Some(String::from_str("spookyswap"))
    } else if s == String::from_str("comp") {
        Some(String::from_str("compound-governance-token"))
    } else if s == String::from_str("ftt") {
        Some(String::from_str("ftx-token"))
    } else if s == String::from_str("time") {
        Some(String::from_str("wonderland"))
    } else if s == String::from_str("uni") {
        Some(String::from_str("uniswap"))
    } else {
        None
    }
}

/// One symbol's slot in the index: the symbol and its identifiers, in the
/// order the coin list first showed them.
#[derive(Clone, Debug)]
pub struct SymbolEntry {
    pub symbol: String,
    pub ids: Vec<String>,
}

/// The symbol index: a mapping from ticker symbol to a non-empty list of
/// identifiers, each symbol held at most once.
#[derive(Clone, Debug)]
pub struct SymbolIndex {
    pub entries: Vec<SymbolEntry>,
}

/// Whether some entry carries this symbol.
pub open spec fn spec_has_symbol(entries: Seq<SymbolEntry>, sym: Seq<char>) -> bool {
    exists|i: int| 0 <= i < entries.len() && entries[i].symbol@ == sym
}

/// The position of the entry carrying this symbol (meaningful when the
/// symbols are distinct and one of them matches).
pub open spec fn spec_symbol_pos(entries: Seq<SymbolEntry>, sym: Seq<char>) -> int {
    choose|i: int| 0 <= i < entries.len() && entries[i].symbol@ == sym
}

/// The identifier list the index associates with a symbol, if any.
pub open spec fn spec_entries_lookup(entries: Seq<SymbolEntry>, sym: Seq<char>) -> Option<
    Seq<Seq<char>>,
> {
    if spec_has_symbol(entries, sym) {
        Some(entries[spec_symbol_pos(entries, sym)].ids.deep_view())
    } else {
        None
    }
}

/// Well-formedness of the index: symbols are distinct and every identifier
/// list is non-empty.
pub open spec fn spec_index_wf(entries: Seq<SymbolEntry>) -> bool {
    &&& forall|i: int, j: int|
        0 <= i < j < entries.len() ==> entries[i].symbol@ != entries[j].symbol@
    &&& forall|i: int| 0 <= i < entries.len() ==> entries[i].ids@.len() > 0
}

/// In a well-formed index an entry's position is the only one carrying its
/// symbol, so lookup at that symbol reads exactly that entry.
pub proof fn lemma_symbol_pos_unique(entries: Seq<SymbolEntry>, sym: Seq<char>, p: int)
    requires
        spec_index_wf(entries),
        0 <= p < entries.len(),
        entries[p].symbol@ == sym,
    ensures
        spec_has_symbol(entries, sym),
        spec_symbol_pos(entries, sym) == p,
{
    assert(spec_has_symbol(entries, sym));
    let q = spec_symbol_pos(entries, sym);
    if q < p {
        assert(entries[q].symbol@ != entries[p].symbol@);
    } else if p < q {
        assert(entries[p].symbol@ != entries[q].symbol@);
    }
}

/// Finds the position of the entry carrying this symbol, scanning in order.
fn find_entry(entries: &Vec<SymbolEntry>, symbol: &String) -> (r: Option<usize>)
    ensures
        match r {
            Some(p) => p < entries@.len() && entries@[p as int].symbol@ == symbol@,
            None => !spec_has_symbol(entries@, symbol@),
        },
{
    let mut i: usize = 0;
    while i < entries.len()
        invariant
            i <= entries@.len(),
            forall|j: int| 0 <= j < i ==> entries@[j].symbol@ != symbol@,
        decreases entries@.len() - i,
    {
        if entries[i].symbol == *symbol {
            return Some(i);
        }
        i += 1;
    }
    None
}

/// The identifiers of the coins bearing this symbol, in coin-list order.
pub open spec fn spec_ids_for(coins: Seq<CoinId>, sym: Seq<char>) -> Seq<Seq<char>>
    decreases coins.len(),
{
    if coins.len() == 0 {
        Seq::empty()
    } else {
        let prefix = spec_ids_for(coins.drop_last(), sym);
        if coins.last().symbol@ == sym {
            prefix.push(coins.last().id@)
        } else {
            prefix
        }
    }
}

/// What grouping alone (no overrides) associates with a symbol: the list of
/// its coins' identifiers when any exist.
pub open spec fn spec_grouped(coins: Seq<CoinId>, sym: Seq<char>) -> Option<Seq<Seq<char>>> {
    if spec_ids_for(coins, sym).len() > 0 {
        Some(spec_ids_for(coins, sym))
    } else {
        None
    }
}

/// What the built index associates with a symbol: the override when the
/// symbol has one — overrides always win and reduce to a singleton — and
/// the grouped identifiers otherwise.
pub open spec fn spec_symbol_ids(coins: Seq<CoinId>, sym: Seq<char>) -> Option<Seq<Seq<char>>> {
    match spec_override_of(sym) {
        Some(id) => Some(seq![id]),
        None => spec_grouped(coins, sym),
    }
}

/// Appends one coin's identifier to its symbol's entry, creating the entry
/// when the symbol is new.
fn add_coin(entries: &mut Vec<SymbolEntry>, symbol: &String, id: &String)
    requires
        spec_index_wf(old(entries)@),
    ensures
        spec_index_wf(final(entries)@),
        forall|sym: Seq<char>|
            spec_entries_lookup(final(entries)@, sym) == (if sym == symbol@ {
                match spec_entries_lookup(old(entries)@, sym) {
                    Some(ids) => Some(ids.push(id@)),
                    None => Some(seq![id@]),
                }
            } else {
                spec_entries_lookup(old(entries)@, sym)
            }),
{
    let ghost s0 = entries@;
    match find_entry(entries, symbol) {
        Some(p) => {
            let old_entry = entries.remove(p);
            let mut ids = old_entry.ids;
            ids.push(id.clone());
            let updated = SymbolEntry { symbol: old_entry.symbol, ids };
            entries.insert(p, updated);
            proof {
                let s1 = entries@;
                assert(s1 =~= s0.update(p as int, s1[p as int]));
                assert(s1[p as int].symbol@ == symbol@);
                assert(s1[p as int].ids.deep_view() =~= s0[p as int].ids.deep_view().push(id@));
                lemma_lookup_after_update(s0, s1, p as int);
            }
        },
        None => {
            let entry = SymbolEntry { symbol: symbol.clone(), ids: vec![id.clone()] };
            entries.push(entry);
            proof {
                let s1 = entries@;
                assert(s1[s0.len() as int].ids.deep_view() =~= seq![id@]);
                lemma_lookup_after_push(s0, s1);
            }
        },
    }
}

/// After replacing the entry at one position by an entry with the same
/// symbol, lookup changes at that symbol alone.
proof fn lemma_lookup_after_update(s0: Seq<SymbolEntry>, s1: Seq<SymbolEntry>, p: int)
    requires
        spec_index_wf(s0),
        0 <= p < s0.len(),
        s1 == s0.update(p, s1[p]),
        s1[p].symbol@ == s0[p].symbol@,
        s1[p].ids@.len() > 0,
    ensures
        spec_index_wf(s1),
        spec_entries_lookup(s1, s0[p].symbol@) == Some(s1[p].ids.deep_view()),
        forall|sym: Seq<char>|
            sym != s0[p].symbol@ ==> spec_entries_lookup(s1, sym) == spec_entries_lookup(s0, sym),
{
    assert(forall|i: int| 0 <= i < s1.len() ==> s1[i].symbol@ == s0[i].symbol@);
    assert(spec_index_wf(s1));
    lemma_symbol_pos_unique(s1, s0[p].symbol@, p);
    assert forall|sym: Seq<char>| sym != s0[p].symbol@ implies spec_entries_lookup(s1, sym)
        == spec_entries_lookup(s0, sym) by {
        if spec_has_symbol(s0, sym) {
            let q = spec_symbol_pos(s0, sym);
            lemma_symbol_pos_unique(s0, sym, q);
            assert(q != p);
            lemma_symbol_pos_unique(s1, sym, q);
            assert(s1[q] == s0[q]);
        } else {
            assert(!spec_has_symbol(s1, sym)) by {
                if spec_has_symbol(s1, sym) {
                    let q = spec_symbol_pos(s1, sym);
                    assert(0 <= q < s1.len() && s1[q].symbol@ == sym);
                    assert(s0[q].symbol@ == sym);
                }
            }
        }
    }
}

/// After pushing an entry whose symbol was absent, lookup changes at that
/// symbol alone.
proof fn lemma_lookup_after_push(s0: Seq<SymbolEntry>, s1: Seq<SymbolEntry>)
    requires
        spec_index_wf(s0),
        s1.len() == s0.len() + 1,
        s1 == s0.push(s1.last()),
        !spec_has_symbol(s0, s1.last().symbol@),
        s1.last().ids@.len() > 0,
    ensures
        spec_index_wf(s1),
        spec_entries_lookup(s1, s1.last().symbol@) == Some(s1.last().ids.deep_view()),
        forall|sym: Seq<char>|
            sym != s1.last().symbol@ ==> spec_entries_lookup(s1, sym) == spec_entries_lookup(
                s0,
                sym,
            ),
{
    let n = s0.len() as int;
    assert(forall|i: int| 0 <= i < n ==> s1[i] == s0[i]);
    assert(spec_index_wf(s1)) by {
        assert forall|i: int, j: int| 0 <= i < j < s1.len() implies s1[i].symbol@
            != s1[j].symbol@ by {
            if j < n {
                assert(s0[i].symbol@ != s0[j].symbol@);
            } else {
                assert(s1[j] == s1.last());
                assert(s0[i].symbol@ != s1.last().symbol@);
            }
        }
    }
    lemma_symbol_pos_unique(s1, s1.last().symbol@, n);
    assert forall|sym: Seq<char>| sym != s1.last().symbol@ implies spec_entries_lookup(s1, sym)
        == spec_entries_lookup(s0, sym) by {
        if spec_has_symbol(s0, sym) {
            let q = spec_symbol_pos(s0, sym);
            lemma_symbol_pos_unique(s0, sym, q);
            lemma_symbol_pos_unique(s1, sym, q);
            assert(s1[q] == s0[q]);
        } else {
            assert(!spec_has_symbol(s1, sym)) by {
                if spec_has_symbol(s1, sym) {
                    let q = spec_symbol_pos(s1, sym);
                    assert(0 <= q < s1.len() && s1[q].symbol@ == sym);
                    if q < n {
                        assert(s0[q].symbol@ == sym);
                    }
                }
            }
        }
    }
}

/// Replaces a symbol's identifiers by the single overriding identifier,
/// creating the entry when the symbol is absent.
fn apply_override(entries: &mut Vec<SymbolEntry>, symbol: &str, id: &str)
    requires
        spec_index_wf(old(entries)@),
    ensures
        spec_index_wf(final(entries)@),
        forall|sym: Seq<char>|
            spec_entries_lookup(final(entries)@, sym) == (if sym == symbol@ {
                Some(seq![id@])
            } else {
                spec_entries_lookup(old(entries)@, sym)
            }),
{
    let ghost s0 = entries@;
    let key = String::from_str(symbol);
    let entry = SymbolEntry { symbol: key.clone(), ids: vec![String::from_str(id)] };
    assert(entry.ids.deep_view() =~= seq![id@]);
    match find_entry(entries, &key) {
        Some(p) => {
            let _ = entries.remove(p);
            entries.insert(p, entry);
            proof {
                let s1 = entries@;
                assert(s1 =~= s0.update(p as int, s1[p as int]));
                lemma_lookup_after_update(s0, s1, p as int);
            }
        },
        None => {
            entries.push(entry);
            proof {
                lemma_lookup_after_push(s0, entries@);
            }
        },
    }
}

/// The five override keys name five different symbols.
proof fn lemma_override_keys_distinct()
    ensures
        "boo"@ != "comp"@,
        "boo"@ != "ftt"@,
        "boo"@ != "time"@,
        "boo"@ != "uni"@,
        "comp"@ != "ftt"@,
        "comp"@ != "time"@,
        "comp"@ != "uni"@,
        "ftt"@ != "time"@,
        "ftt"@ != "uni"@,
        "time"@ != "uni"@,
{
    reveal_strlit("boo");
    reveal_strlit("comp");
    reveal_strlit("ftt");
    reveal_strlit("time");
    reveal_strlit("uni");
    assert("boo"@[0] == 'b' && "ftt"@[0] == 'f' && "uni"@[0] == 'u');
    assert("comp"@[0] == 'c' && "time"@[0] == 't');
    assert("boo"@.len() == 3 && "ftt"@.len() == 3 && "uni"@.len() == 3);
    assert("comp"@.len() == 4 && "time"@.len() == 4);
}

/// Builds the symbol index from the provider's coin list: identifiers are
/// grouped by symbol in first-seen order, then every overridden symbol is
/// reduced to its single overriding identifier. No symbol maps to an empty
/// list, and what each symbol resolves to is exactly `spec_symbol_ids`.
pub fn get_symbol_id_map(coins: &Vec<CoinId>) -> (index: SymbolIndex)
    ensures
        spec_index_wf(index.entries@),
        forall|sym: Seq<char>|
            spec_entries_lookup(index.entries@, sym) == spec_symbol_ids(coins@, sym),
{
    let mut entries: Vec<SymbolEntry> = Vec::new();
    let mut i: usize = 0;
    while i < coins.len()
        invariant
            i <= coins@.len(),
            spec_index_wf(entries@),
            forall|sym: Seq<char>|
                spec_entries_lookup(entries@, sym) == spec_grouped(
                    coins@.subrange(0, i as int),
                    sym,
                ),
        decreases coins@.len() - i,
    {
        let ghost before = entries@;
        let coin = &coins[i];
        add_coin(&mut entries, &coin.symbol, &coin.id);
        proof {
            let prev = coins@.subrange(0, i as int);
            let cur = coins@.subrange(0, i + 1 as int);
            assert(cur.drop_last() =~= prev);
            assert(cur.last() == coins@[i as int]);
            assert forall|sym: Seq<char>| spec_entries_lookup(entries@, sym) == spec_grouped(
                cur,
                sym,
            ) by {
                if sym == coin.symbol@ {
                    assert(spec_ids_for(cur, sym) == spec_ids_for(prev, sym).push(coin.id@));
                    if spec_ids_for(prev, sym).len() == 0 {
                        assert(spec_ids_for(cur, sym) =~= seq![coin.id@]);
                    }
                } else {
                    assert(spec_ids_for(cur, sym) == spec_ids_for(prev, sym));
                }
            }
        }
        i += 1;
    }
    assert(coins@.subrange(0, coins@.len() as int) =~= coins@);
    let ghost grouped = entries@;
    apply_override(&mut entries, "boo", "spookyswap");
    apply_override(&mut entries, "comp", "compound-governance-token");
    apply_override(&mut entries, "ftt", "ftx-token");
    apply_override(&mut entries, "time", "wonderland");
    apply_override(&mut entries, "uni", "uniswap");
    proof {
        lemma_override_keys_distinct();
        assert forall|sym: Seq<char>| spec_entries_lookup(entries@, sym) == spec_symbol_ids(
            coins@,
            sym,
        ) by {
            if sym == "boo"@ || sym == "comp"@ || sym == "ftt"@ || sym == "time"@ || sym
                == "uni"@ {
            } else {
                assert(spec_override_of(sym) is None);
            }
        }
    }
    SymbolIndex { entries }
}

/// Resolves a symbol against a built index: the first identifier of the
/// symbol's list, or `SymbolNotFound` exactly when the index has no entry
/// for the symbol.
pub fn get_id_from_symbol(index: &SymbolIndex, symbol: &str) -> (r: Result<String, PriceError>)
    requires
        spec_index_wf(index.entries@),
    ensures
        match r {
            Ok(id) => {
                &&& spec_entries_lookup(index.entries@, symbol@) matches Some(ids)
                &&& spec_entries_lookup(index.entries@, symbol@)->Some_0.len() > 0
                &&& id@ == spec_entries_lookup(index.entries@, symbol@)->Some_0[0]
            },
            Err(e) => {
                &&& e == PriceError::SymbolNotFound
                &&& spec_entries_lookup(index.entries@, symbol@) is None
            },
        },
{
    let key = String::from_str(symbol);
    match find_entry(&index.entries, &key) {
        Some(p) => {
            proof {
                lemma_symbol_pos_unique(index.entries@, symbol@, p as int);
            }
            let entry = &index.entries[p];
            assert(entry.ids@.len() > 0);
            let id = entry.ids[0].clone();
            assert(id@ == entry.ids.deep_view()[0]);
            Ok(id)
        },
        None => Err(PriceError::SymbolNotFound),
    }
}

/// Every identifier grouped under a symbol is the identifier of a coin in
/// the list bearing that symbol.
proof fn lemma_ids_for_membership(coins: Seq<CoinId>, sym: Seq<char>, k: int)
    requires
        0 <= k < spec_ids_for(coins, sym).len(),
    ensures
        exists|j: int|
            0 <= j < coins.len() && coins[j].symbol@ == sym && coins[j].id@ == spec_ids_for(
                coins,
                sym,
            )[k],
    decreases coins.len(),
{
    let prefix = spec_ids_for(coins.drop_last(), sym);
    if coins.last().symbol@ == sym && k == prefix.len() {
        assert(coins[coins.len() - 1].id@ == spec_ids_for(coins, sym)[k]);
    } else {
        lemma_ids_for_membership(coins.drop_last(), sym, k);
        let j = choose|j: int|
            0 <= j < coins.drop_last().len() && coins.drop_last()[j].symbol@ == sym
                && coins.drop_last()[j].id@ == prefix[k];
        assert(coins[j].symbol@ == sym && coins[j].id@ == spec_ids_for(coins, sym)[k]);
    }
}

/// For a symbol with no override entry, whatever the index serves is the
/// identifier of a coin in the list bearing that symbol — in particular the
/// first identifier, which `get_id_from_symbol` returns.
pub proof fn lemma_resolved_id_from_coin_list(coins: Seq<CoinId>, sym: Seq<char>, k: int)
    requires
        spec_override_of(sym) is None,
        spec_symbol_ids(coins, sym) is Some,
        0 <= k < spec_symbol_ids(coins, sym)->Some_0.len(),
    ensures
        exists|j: int|
            0 <= j < coins.len() && coins[j].symbol@ == sym && coins[j].id@ == spec_symbol_ids(
                coins,
                sym,
            )->Some_0[k],
{
    lemma_ids_for_membership(coins, sym, k);
}

/// For any symbol in the static override table, the built index resolves
/// it to the single overriding identifier, however many coins in the list
/// share that symbol.
pub proof fn lemma_override_always_wins(coins: Seq<CoinId>, sym: Seq<char>, id: Seq<char>)
    requires
        spec_override_of(sym) == Some(id),
    ensures
        spec_symbol_ids(coins, sym) == Some(seq![id]),
{
}

} // verus!
