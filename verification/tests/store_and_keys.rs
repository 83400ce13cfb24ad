//! Tests of the ordinal-versioned store disciplines and the key namespace.

use uniswap_pricing::store::Store;
use uniswap_pricing::store_key_manager::StoreKey;
use uniswap_pricing::util::hex_encode;

#[test]
fn pair_key_renders_namespace() {
    assert_eq!(
        StoreKey::pair_key("aabbcc"),
        "Pair:aabbcc".to_owned()
    );
}

#[test]
fn eth_usd_price_key_is_fixed() {
    assert_eq!(StoreKey::eth_usd_price_key(), "UsdPriceByTokenSymbol:ETH".to_owned());
}

#[test]
fn usd_price_keys_render_namespace() {
    assert_eq!(
        StoreKey::usd_price_by_address("00ff"),
        "UsdPriceByTokenAddress:00ff".to_owned()
    );
    assert_eq!(
        StoreKey::usd_price_by_symbol("WETH"),
        "UsdPriceByTokenSymbol:WETH".to_owned()
    );
}

#[test]
fn chainlink_key_is_fixed() {
    assert_eq!(StoreKey::chainlink_eth_price(), "price_by_symbol:ETH:USD".to_owned());
}

#[test]
fn to_key_string_matches_constructors() {
    assert_eq!(
        StoreKey::Pair("0123".to_owned()).to_key_string(),
        StoreKey::pair_key("0123")
    );
    assert_eq!(
        StoreKey::UsdPriceByTokenSymbol("DAI".to_owned()).to_key_string(),
        StoreKey::usd_price_by_symbol("DAI")
    );
}

#[test]
fn hex_encode_lowercase() {
    assert_eq!(hex_encode(&[0x5c, 0x69, 0xbe, 0x00, 0xff]), "5c69be00ff".to_owned());
    assert_eq!(hex_encode(&[]), "".to_owned());
}

#[test]
fn set_if_absent_is_write_once() {
    let mut store: Store<u64> = Store::new();
    store.set_if_absent(3, "Pair:aa".to_owned(), 10);
    store.set_if_absent(9, "Pair:aa".to_owned(), 20);
    // the first writer wins; the duplicate is a no-op
    assert_eq!(store.get_last("Pair:aa"), Some(&10));
}

#[test]
fn set_if_absent_distinct_keys_both_written() {
    let mut store: Store<u64> = Store::new();
    store.set_if_absent(1, "Pair:aa".to_owned(), 10);
    store.set_if_absent(2, "Pair:bb".to_owned(), 20);
    assert_eq!(store.get_last("Pair:aa"), Some(&10));
    assert_eq!(store.get_last("Pair:bb"), Some(&20));
}

#[test]
fn set_is_last_write_wins() {
    let mut store: Store<u64> = Store::new();
    store.set(5, "k".to_owned(), 100);
    store.set(10, "k".to_owned(), 200);
    assert_eq!(store.get_last("k"), Some(&200));
}

#[test]
fn get_at_returns_greatest_ordinal_at_most_position() {
    let mut store: Store<u64> = Store::new();
    store.set(5, "k".to_owned(), 100);
    store.set(10, "k".to_owned(), 200);
    // a read at ordinal N sees the write at the greatest ordinal <= N
    assert_eq!(store.get_at("k", 3), None);
    assert_eq!(store.get_at("k", 5), Some(&100));
    assert_eq!(store.get_at("k", 7), Some(&100));
    assert_eq!(store.get_at("k", 10), Some(&200));
    assert_eq!(store.get_at("k", 12), Some(&200));
}

#[test]
fn get_last_absent_key() {
    let store: Store<u64> = Store::new();
    assert_eq!(store.get_last("missing"), None);
    assert!(!store.has_key("missing"));
}
