//! End-to-end tests of the pricing pipeline: pair discovery, wrapped-native
//! pricing, the unified deriver with its rate fallback chain, and token
//! resolution.

use uniswap_pricing::block::{
    Block, EventPayload, LogRecord, PairCreatedEvent, SyncEvent, TokenMetadataResponses,
};
use uniswap_pricing::constants::PricingConfig;
use uniswap_pricing::decimal::{dec_parse, Decimal};
use uniswap_pricing::erc20::{get_erc20_token, read_string_from_bytes};
use uniswap_pricing::pair_events::{map_pair_created_events, store_pair_created_events};
use uniswap_pricing::store::Store;
use uniswap_pricing::store_key_manager::StoreKey;
use uniswap_pricing::token::{Erc20Price, Erc20Token, PairCreated, PriceSource};
use uniswap_pricing::uniswap_prices::{fetch_eth_price, map_uniswap_prices, store_uniswap_prices};
use uniswap_pricing::util::hex_encode;
use uniswap_pricing::warmup::warmup;
use uniswap_pricing::weth_prices::{map_weth_prices, store_weth_prices};

fn addr(b: u8) -> Vec<u8> {
    vec![b; 20]
}

/// Stablecoins: 0xcc (USDC-like, 6 decimals in tests) and 0xdd (DAI-like);
/// wrapped native: 0xee; tracked factory: 0xfa.
fn test_config() -> PricingConfig {
    PricingConfig {
        factory_address: addr(0xfa),
        wrapped_native_address: hex_encode(&addr(0xee)),
        stable_coins: vec![hex_encode(&addr(0xcc)), hex_encode(&addr(0xdd))],
    }
}

fn responses(name: &str, symbol: &str, decimals: u64) -> Option<TokenMetadataResponses> {
    Some(TokenMetadataResponses {
        name_decoded: Some(name.to_owned()),
        name_raw: vec![],
        symbol_decoded: Some(symbol.to_owned()),
        symbol_raw: vec![],
        decimals_decoded: Some(decimals),
    })
}

fn token(address_byte: u8, symbol: &str, decimals: u64) -> Erc20Token {
    Erc20Token {
        address: hex_encode(&addr(address_byte)),
        name: symbol.to_owned(),
        symbol: symbol.to_owned(),
        decimals,
    }
}

fn pair(pair_byte: u8, t0: Erc20Token, t1: Erc20Token, ordinal: u64) -> PairCreated {
    PairCreated {
        token0: Some(t0),
        token1: Some(t1),
        pair_address: hex_encode(&addr(pair_byte)),
        factory: hex_encode(&addr(0xfa)),
        tx_hash: "00".to_owned(),
        block_index: 0,
        block_number: 1,
        block_time: 0,
        ordinal,
    }
}

fn pairs_store_with(p: PairCreated) -> Store<PairCreated> {
    let mut s = Store::new();
    let key = StoreKey::pair_key(&p.pair_address);
    let ord = p.ordinal;
    s.set_if_absent(ord, key, p);
    s
}

fn sync_block(number: u64, pair_byte: u8, reserve0: u128, reserve1: u128, ordinal: u64) -> Block {
    Block {
        number,
        timestamp: 0,
        logs: vec![LogRecord {
            address: addr(pair_byte),
            tx_hash: "11".to_owned(),
            block_index: 0,
            ordinal,
            event: Some(EventPayload::Sync(SyncEvent { reserve0, reserve1 })),
        }],
    }
}

fn pair_created_block(
    number: u64,
    token0_byte: u8,
    token1_byte: u8,
    pair_byte: u8,
    token0_responses: Option<TokenMetadataResponses>,
    token1_responses: Option<TokenMetadataResponses>,
    ordinal: u64,
) -> Block {
    Block {
        number,
        timestamp: 1700000000,
        logs: vec![LogRecord {
            address: addr(0xfa),
            tx_hash: "22".to_owned(),
            block_index: 0,
            ordinal,
            event: Some(EventPayload::PairCreated(PairCreatedEvent {
                token0: addr(token0_byte),
                token1: addr(token1_byte),
                pair: addr(pair_byte),
                token0_responses,
                token1_responses,
            })),
        }],
    }
}

const WETH_UNIT: u128 = 1_000_000_000_000_000_000;

#[test]
fn resolver_rejects_out_of_range_decimals() {
    // a decimals call answering 300 resolves to absent
    assert!(get_erc20_token(&addr(0x01), &responses("Token", "T", 300)).is_none());
    assert!(get_erc20_token(&addr(0x01), &responses("Token", "T", 0)).is_none());
    assert!(get_erc20_token(&addr(0x01), &responses("Token", "T", 255)).is_none());
    let t = get_erc20_token(&addr(0x01), &responses("Token", "T", 254)).unwrap();
    assert_eq!(t.decimals, 254);
    assert_eq!(t.address, hex_encode(&addr(0x01)));
}

#[test]
fn resolver_raw_bytes_fallback_trims_trailing_zeros() {
    let resp = Some(TokenMetadataResponses {
        name_decoded: None,
        name_raw: b"USD Coin\0\0\0\0".to_vec(),
        symbol_decoded: Some("USDC".to_owned()),
        symbol_raw: vec![],
        decimals_decoded: Some(6),
    });
    let t = get_erc20_token(&addr(0x02), &resp).unwrap();
    assert_eq!(t.name, "USD Coin".to_owned());
    assert_eq!(t.symbol, "USDC".to_owned());
}

#[test]
fn resolver_raw_bytes_fallback_replaces_invalid_utf8() {
    let resp = Some(TokenMetadataResponses {
        name_decoded: None,
        name_raw: vec![0x41, 0xff, 0x42, 0x00],
        symbol_decoded: Some("X".to_owned()),
        symbol_raw: vec![],
        decimals_decoded: Some(18),
    });
    let t = get_erc20_token(&addr(0x05), &resp).unwrap();
    assert_eq!(t.name, "A\u{fffd}B".to_owned());
}

#[test]
fn resolver_all_zero_raw_response_fails() {
    let resp = Some(TokenMetadataResponses {
        name_decoded: None,
        name_raw: vec![0, 0, 0, 0],
        symbol_decoded: Some("X".to_owned()),
        symbol_raw: vec![],
        decimals_decoded: Some(18),
    });
    assert!(get_erc20_token(&addr(0x03), &resp).is_none());
}

#[test]
fn resolver_missing_batch_fails() {
    assert!(get_erc20_token(&addr(0x04), &None).is_none());
}

#[test]
fn read_string_cases() {
    assert_eq!(read_string_from_bytes(b"abc\0\0"), Some("abc".to_owned()));
    assert_eq!(read_string_from_bytes(b"abc"), Some("abc".to_owned()));
    assert_eq!(read_string_from_bytes(&[0, 0]), None);
    assert_eq!(read_string_from_bytes(&[]), None);
}

#[test]
fn pair_registration_is_idempotent() {
    // the same creation event replayed twice leaves exactly one record,
    // the first one
    let cfg = test_config();
    let mut blk = pair_created_block(
        10,
        0xcc,
        0xab,
        0xb1,
        responses("USD Coin", "USDC", 6),
        responses("Token X", "TKX", 18),
        100,
    );
    let mut replay = pair_created_block(
        10,
        0xcc,
        0xab,
        0xb1,
        responses("USD Coin", "USDC", 6),
        responses("Token X", "TKX", 18),
        200,
    );
    blk.logs.append(&mut replay.logs);
    let events = map_pair_created_events(&cfg, &blk);
    assert_eq!(events.pair_createds.len(), 2);
    let mut store: Store<PairCreated> = Store::new();
    store_pair_created_events(&events, &mut store);
    let key = StoreKey::pair_key(&hex_encode(&addr(0xb1)));
    let stored = store.get_last(&key).unwrap();
    // the first write (ordinal 100) won; the replay was a no-op
    assert_eq!(stored.ordinal, 100);
}

#[test]
fn pair_with_unresolved_token_is_dropped() {
    let cfg = test_config();
    let blk = pair_created_block(
        10,
        0xcc,
        0xab,
        0xb1,
        responses("USD Coin", "USDC", 6),
        responses("Bad", "BAD", 300),
        100,
    );
    let events = map_pair_created_events(&cfg, &blk);
    assert!(events.pair_createds.is_empty());
}

#[test]
fn pair_from_other_factory_is_ignored() {
    let cfg = test_config();
    let mut blk = pair_created_block(
        10,
        0xcc,
        0xab,
        0xb1,
        responses("USD Coin", "USDC", 6),
        responses("Token X", "TKX", 18),
        100,
    );
    blk.logs[0].address = addr(0x99);
    let events = map_pair_created_events(&cfg, &blk);
    assert!(events.pair_createds.is_empty());
}

#[test]
fn weth_price_from_stable_pair_both_orientations() {
    // 1800 stable units against 1 wrapped-native unit: price 1800,
    // whichever side the stablecoin occupies
    let cfg = test_config();
    let weth = token(0xee, "WETH", 18);
    let dai = token(0xdd, "DAI", 18);

    let pairs_a = pairs_store_with(pair(0xb1, weth.clone(), dai.clone(), 1));
    let blk_a = sync_block(11, 0xb1, WETH_UNIT, 1800 * WETH_UNIT, 7);
    let prices_a = map_weth_prices(&cfg, &blk_a, &pairs_a);
    assert_eq!(prices_a.items.len(), 1);
    assert_eq!(prices_a.items[0].price_usd, "1800.000000000000000000".to_owned());
    assert_eq!(prices_a.items[0].token.as_ref().unwrap().symbol, "WETH".to_owned());
    assert_eq!(prices_a.items[0].ordinal, 7);
    assert!(matches!(prices_a.items[0].source, PriceSource::Uniswap));

    let pairs_b = pairs_store_with(pair(0xb2, dai.clone(), weth.clone(), 1));
    let blk_b = sync_block(11, 0xb2, 1800 * WETH_UNIT, WETH_UNIT, 7);
    let prices_b = map_weth_prices(&cfg, &blk_b, &pairs_b);
    assert_eq!(prices_b.items.len(), 1);
    // swapping token0/token1 does not change the derived price
    assert_eq!(prices_b.items[0].price_usd, prices_a.items[0].price_usd);
}

#[test]
fn weth_zero_reserve_derives_nothing() {
    let cfg = test_config();
    let weth = token(0xee, "WETH", 18);
    let dai = token(0xdd, "DAI", 18);
    let pairs = pairs_store_with(pair(0xb1, weth, dai, 1));
    let blk = sync_block(11, 0xb1, 0, 1800 * WETH_UNIT, 7);
    let prices = map_weth_prices(&cfg, &blk, &pairs);
    assert!(prices.items.is_empty());
}

#[test]
fn weth_prices_are_stored_under_fixed_key() {
    let cfg = test_config();
    let weth = token(0xee, "WETH", 18);
    let dai = token(0xdd, "DAI", 18);
    let pairs = pairs_store_with(pair(0xb1, weth, dai, 1));
    let blk = sync_block(11, 0xb1, WETH_UNIT, 1800 * WETH_UNIT, 7);
    let prices = map_weth_prices(&cfg, &blk, &pairs);
    let mut store: Store<Erc20Price> = Store::new();
    store_weth_prices(&prices, &mut store);
    let stored = store.get_last("UsdPriceByTokenSymbol:ETH").unwrap();
    assert_eq!(stored.price_usd, "1800.000000000000000000".to_owned());
}

#[test]
fn stable_pair_prices_other_token() {
    // end to end: USDC (6 decimals) paired with TOKEN_X (18 decimals);
    // 1_000_000 raw USDC units against 500 whole TOKEN_X units must price
    // TOKEN_X at (1000000/1e6) / (500e18/1e18) = 0.002
    let cfg = test_config();
    let blk10 = pair_created_block(
        10,
        0xcc,
        0xab,
        0xb1,
        responses("USD Coin", "USDC", 6),
        responses("Token X", "TKX", 18),
        100,
    );
    let events = map_pair_created_events(&cfg, &blk10);
    let mut pairs: Store<PairCreated> = Store::new();
    store_pair_created_events(&events, &mut pairs);

    let weth_store: Store<Erc20Price> = Store::new();
    let chainlink: Store<Decimal> = Store::new();
    let blk11 = sync_block(11, 0xb1, 1_000_000, 500 * WETH_UNIT, 9);
    let prices = map_uniswap_prices(&cfg, &blk11, &pairs, &weth_store, &chainlink);
    assert_eq!(prices.items.len(), 1);
    let record = &prices.items[0];
    assert_eq!(record.price_usd, "0.002".to_owned());
    assert_eq!(record.token.as_ref().unwrap().symbol, "TKX".to_owned());
    assert_eq!(record.block_number, 11);
    assert_eq!(record.ordinal, 9);

    let mut out: Store<Erc20Price> = Store::new();
    store_uniswap_prices(&prices, &mut out);
    let by_address_key = StoreKey::usd_price_by_address(&hex_encode(&addr(0xab)));
    assert_eq!(out.get_last(&by_address_key).unwrap().price_usd, "0.002".to_owned());
    assert_eq!(
        out.get_last("UsdPriceByTokenSymbol:TKX").unwrap().price_usd,
        "0.002".to_owned()
    );
}

#[test]
fn price_writes_are_versioned_by_log_ordinal() {
    // the record comes from block 11, triggering log ordinal 9: a read at
    // a position before the ordinal sees nothing, at the ordinal and
    // beyond it sees the record — the block number is not the tag
    let cfg = test_config();
    let usdc = token(0xcc, "USDC", 6);
    let tkx = token(0xab, "TKX", 18);
    let pairs = pairs_store_with(pair(0xb1, usdc, tkx, 1));
    let blk = sync_block(11, 0xb1, 1_000_000, 500 * WETH_UNIT, 9);
    let prices = map_uniswap_prices(&cfg, &blk, &pairs, &Store::new(), &Store::new());
    let mut out: Store<Erc20Price> = Store::new();
    store_uniswap_prices(&prices, &mut out);
    let key = StoreKey::usd_price_by_address(&hex_encode(&addr(0xab)));
    assert!(out.get_at(&key, 8).is_none());
    assert_eq!(out.get_at(&key, 9).unwrap().price_usd, "0.002".to_owned());
    assert_eq!(out.get_at(&key, 10).unwrap().price_usd, "0.002".to_owned());
}

#[test]
fn zero_divisor_rule_is_skipped() {
    let cfg = test_config();
    let usdc = token(0xcc, "USDC", 6);
    let tkx = token(0xab, "TKX", 18);
    let pairs = pairs_store_with(pair(0xb1, usdc, tkx, 1));
    // the stablecoin rule divides by the TOKEN_X reserve, which is zero
    let blk = sync_block(11, 0xb1, 1_000_000, 0, 9);
    let prices = map_uniswap_prices(
        &cfg,
        &blk,
        &pairs,
        &Store::new(),
        &Store::new(),
    );
    assert!(prices.items.is_empty());
}

#[test]
fn untracked_pair_sync_is_skipped() {
    let cfg = test_config();
    let pairs: Store<PairCreated> = Store::new();
    let blk = sync_block(11, 0xb1, 1_000_000, 500 * WETH_UNIT, 9);
    let prices = map_uniswap_prices(&cfg, &blk, &pairs, &Store::new(), &Store::new());
    assert!(prices.items.is_empty());
}

fn oracle_store(rate: &str) -> Store<Decimal> {
    let mut s = Store::new();
    s.set(1, StoreKey::chainlink_eth_price(), dec_parse(rate).unwrap());
    s
}

fn weth_price_store_with(price_usd: &str) -> Store<Erc20Price> {
    let mut s = Store::new();
    let record = Erc20Price {
        token: Some(token(0xee, "WETH", 18)),
        price_usd: price_usd.to_owned(),
        block_number: 5,
        ordinal: 3,
        source: PriceSource::Uniswap,
    };
    s.set(3, StoreKey::eth_usd_price_key(), record);
    s
}

#[test]
fn rate_fallback_prefers_oracle() {
    // both an oracle rate of 2000.00 and a stale wrapped-native price of
    // 1800.00 exist: the oracle rate is used
    let chainlink = oracle_store("2000.00");
    let weth_store = weth_price_store_with("1800.00");
    let rate = fetch_eth_price(&chainlink, &weth_store);
    let expected = dec_parse("2000.00").unwrap();
    assert_eq!(rate.bytes, expected.bytes);
    assert_eq!(rate.scale, expected.scale);
    assert_eq!(rate.negative, expected.negative);
}

#[test]
fn rate_fallback_uses_stale_weth_price() {
    let chainlink: Store<Decimal> = Store::new();
    let weth_store = weth_price_store_with("1800.00");
    let rate = fetch_eth_price(&chainlink, &weth_store);
    let expected = dec_parse("1800.00").unwrap();
    assert_eq!(rate.bytes, expected.bytes);
    assert_eq!(rate.scale, expected.scale);
}

#[test]
fn rate_fallback_unparsable_degrades_to_zero() {
    let chainlink: Store<Decimal> = Store::new();
    let weth_store = weth_price_store_with("not a decimal");
    let rate = fetch_eth_price(&chainlink, &weth_store);
    assert!(rate.is_zero());
}

#[test]
fn rate_fallback_neither_source_is_zero() {
    let rate = fetch_eth_price(&Store::new(), &Store::new());
    assert!(rate.is_zero());
}

#[test]
fn wrapped_native_rule_uses_oracle_rate() {
    // WETH/TOKEN_Y pair, ratio 0.5, oracle rate 2000.00: price 1000.000
    let cfg = test_config();
    let weth = token(0xee, "WETH", 18);
    let tky = token(0xac, "TKY", 18);
    let pairs = pairs_store_with(pair(0xb3, weth, tky, 1));
    let blk = sync_block(12, 0xb3, 2 * WETH_UNIT, 4 * WETH_UNIT, 9);
    let chainlink = oracle_store("2000.00");
    let weth_store = weth_price_store_with("1800.00");
    let prices = map_uniswap_prices(&cfg, &blk, &pairs, &weth_store, &chainlink);
    assert_eq!(prices.items.len(), 1);
    assert_eq!(prices.items[0].price_usd, "1000.000".to_owned());
    assert_eq!(prices.items[0].token.as_ref().unwrap().symbol, "TKY".to_owned());
}

#[test]
fn wrapped_native_rule_falls_back_to_stale_price() {
    // without an oracle rate the stale wrapped-native price 1800.00 is
    // used: 0.5 * 1800.00 = 900.000
    let cfg = test_config();
    let weth = token(0xee, "WETH", 18);
    let tky = token(0xac, "TKY", 18);
    let pairs = pairs_store_with(pair(0xb3, weth, tky, 1));
    let blk = sync_block(12, 0xb3, 2 * WETH_UNIT, 4 * WETH_UNIT, 9);
    let weth_store = weth_price_store_with("1800.00");
    let prices = map_uniswap_prices(&cfg, &blk, &pairs, &weth_store, &Store::new());
    assert_eq!(prices.items.len(), 1);
    assert_eq!(prices.items[0].price_usd, "900.000".to_owned());
}

#[test]
fn extreme_scale_oracle_rate_still_derives() {
    // a nonzero rate is a nonzero rate, however small: 1e-999999 flows
    // through multiplication and is rendered (exponentially), not dropped
    let cfg = test_config();
    let weth = token(0xee, "WETH", 18);
    let tky = token(0xac, "TKY", 18);
    let pairs = pairs_store_with(pair(0xb3, weth, tky, 1));
    let blk = sync_block(12, 0xb3, 2 * WETH_UNIT, 4 * WETH_UNIT, 9);
    let chainlink = oracle_store("1e-999999");
    let prices = map_uniswap_prices(&cfg, &blk, &pairs, &Store::new(), &chainlink);
    assert_eq!(prices.items.len(), 1);
    let parsed = dec_parse(&prices.items[0].price_usd).unwrap();
    assert!(!parsed.is_zero());
    assert_eq!(parsed.scale, 1000000);
}

#[test]
fn wrapped_native_rules_skipped_without_rate() {
    // with no rate available the wrapped-native rules derive nothing
    let cfg = test_config();
    let weth = token(0xee, "WETH", 18);
    let tky = token(0xac, "TKY", 18);
    let pairs = pairs_store_with(pair(0xb3, weth, tky, 1));
    let blk = sync_block(12, 0xb3, 2 * WETH_UNIT, 4 * WETH_UNIT, 9);
    let prices = map_uniswap_prices(&cfg, &blk, &pairs, &Store::new(), &Store::new());
    assert!(prices.items.is_empty());
}

#[test]
fn zero_oracle_rate_disables_wrapped_native_rules() {
    let cfg = test_config();
    let weth = token(0xee, "WETH", 18);
    let tky = token(0xac, "TKY", 18);
    let pairs = pairs_store_with(pair(0xb3, weth, tky, 1));
    let blk = sync_block(12, 0xb3, 2 * WETH_UNIT, 4 * WETH_UNIT, 9);
    let chainlink = oracle_store("0.00");
    let prices = map_uniswap_prices(&cfg, &blk, &pairs, &Store::new(), &chainlink);
    assert!(prices.items.is_empty());
}

#[test]
fn parse_recognizes_zero_and_garbage() {
    assert!(dec_parse("0.00").unwrap().is_zero());
    assert!(!dec_parse("2000.00").unwrap().is_zero());
    assert!(dec_parse("not a decimal").is_none());
}

#[test]
fn warmup_reports_ready() {
    let store: Store<Erc20Price> = Store::new();
    assert!(warmup(&store).is_warm);
}
