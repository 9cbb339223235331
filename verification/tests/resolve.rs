use coincache::PriceError;
use coincache::coins::{CoinId, get_symbol_id_map, get_id_from_symbol, override_for};

fn coin(id: &str, symbol: &str, name: &str) -> CoinId {
    CoinId { id: id.to_string(), symbol: symbol.to_string(), name: name.to_string() }
}

fn sample_coins() -> Vec<CoinId> {
    vec![
        coin("bitcoin", "btc", "Bitcoin"),
        coin("ethereum", "eth", "Ethereum"),
        coin("unicorn-token", "uni", "Unicorn"),
        coin("universe", "uni", "Universe"),
        coin("dogecoin", "doge", "Dogecoin"),
        coin("batcoin", "bat", "Batcoin"),
        coin("basic-attention-token", "bat", "Basic Attention Token"),
    ]
}

#[test]
fn resolve_returns_identifier_of_coin_bearing_symbol() {
    let index = get_symbol_id_map(&sample_coins());
    assert_eq!(get_id_from_symbol(&index, "btc").unwrap(), "bitcoin");
    assert_eq!(get_id_from_symbol(&index, "eth").unwrap(), "ethereum");
    assert_eq!(get_id_from_symbol(&index, "doge").unwrap(), "dogecoin");
}

#[test]
fn resolve_serves_first_seen_identifier_for_shared_symbol() {
    let index = get_symbol_id_map(&sample_coins());
    assert_eq!(get_id_from_symbol(&index, "bat").unwrap(), "batcoin");
}

#[test]
fn override_uni_always_returns_uniswap() {
    let index = get_symbol_id_map(&sample_coins());
    assert_eq!(get_id_from_symbol(&index, "uni").unwrap(), "uniswap");
}

#[test]
fn overrides_apply_even_with_empty_coin_list() {
    let index = get_symbol_id_map(&Vec::new());
    assert_eq!(get_id_from_symbol(&index, "uni").unwrap(), "uniswap");
    assert_eq!(get_id_from_symbol(&index, "boo").unwrap(), "spookyswap");
    assert_eq!(get_id_from_symbol(&index, "comp").unwrap(), "compound-governance-token");
    assert_eq!(get_id_from_symbol(&index, "ftt").unwrap(), "ftx-token");
    assert_eq!(get_id_from_symbol(&index, "time").unwrap(), "wonderland");
}

#[test]
fn unknown_symbol_fails_with_symbol_not_found() {
    let index = get_symbol_id_map(&sample_coins());
    assert_eq!(get_id_from_symbol(&index, "doesnotexist"), Err(PriceError::SymbolNotFound));
}

#[test]
fn symbols_are_case_sensitive_as_received() {
    let index = get_symbol_id_map(&sample_coins());
    assert_eq!(get_id_from_symbol(&index, "BTC"), Err(PriceError::SymbolNotFound));
}

#[test]
fn override_table_holds_exactly_the_known_symbols() {
    assert_eq!(override_for("uni"), Some("uniswap".to_string()));
    assert_eq!(override_for("boo"), Some("spookyswap".to_string()));
    assert_eq!(override_for("btc"), None);
    assert_eq!(override_for(""), None);
}
