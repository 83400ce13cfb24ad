//! The general pricing engine: for every reserves-synced event of a
//! tracked pair it evaluates up to four independent derivation rules
//! (direct stablecoin pairing on either side, wrapped-native pairing on
//! either side combined with a native/USD rate resolved through a fallback
//! chain) and persists each resulting record under two keys.

use vstd::prelude::*;

use crate::block::{Block, EventPayload, LogRecord, SyncEvent};
use crate::constants::PricingConfig;
use crate::decimal::{
    dec_div, dec_mul, dec_parse, dec_render, div_of, mul_of, parse_of, render_of, scale_reserve,
    spec_scaled, spec_zero_decimal, Decimal, DecimalModel,
};
use crate::store::{
    lemma_get_last_in_store, spec_get_last, spec_set, Store, StoreEntry,
};
use crate::store_key_manager::{
    spec_chainlink_eth_price_key, spec_eth_usd_price_key, spec_pair_key,
    spec_usd_price_by_address, spec_usd_price_by_symbol, StoreKey,
};
use crate::token::{Erc20Price, Erc20Prices, PairCreated, PriceModel, PriceSource, TokenModel};
use crate::util::{hex_encode, hex_of};

verus! {

/// The native/USD rate the fallback chain resolves to: the oracle module's
/// latest value when one exists; otherwise the latest persisted
/// wrapped-native price parsed as a decimal, with a parse failure degrading
/// to zero; otherwise zero. Zero means "no rate available", never a valid
/// price.
pub open spec fn spec_rate(
    chainlink: Seq<StoreEntry<Decimal>>,
    weth: Seq<StoreEntry<Erc20Price>>,
) -> DecimalModel {
    match spec_get_last(chainlink, spec_chainlink_eth_price_key()) {
        Some(d) => d@,
        None => match spec_get_last(weth, spec_eth_usd_price_key()) {
            Some(p) => match parse_of(p.price_usd@) {
                Some(m) => m,
                None => spec_zero_decimal(),
            },
            None => spec_zero_decimal(),
        },
    }
}

/// Resolves the native/USD exchange rate through the fallback chain:
/// first the oracle store, then the persisted wrapped-native price, else
/// zero.
pub fn fetch_eth_price(
    chainlink_prices_store: &Store<Decimal>,
    weth_price_store: &Store<Erc20Price>,
) -> (r: Decimal)
    ensures
        r@ == spec_rate(chainlink_prices_store@, weth_price_store@),
{
    let key = StoreKey::chainlink_eth_price();
    match chainlink_prices_store.get_last(key.as_str()) {
        Some(eth_price) => eth_price.clone(),
        None => {
            let wkey = StoreKey::eth_usd_price_key();
            match weth_price_store.get_last(wkey.as_str()) {
                Some(weth_price) => {
                    match dec_parse(weth_price.price_usd.as_str()) {
                        Some(d) => d,
                        None => Decimal::zero(),
                    }
                },
                None => Decimal::zero(),
            }
        },
    }
}

/// Whether the resolved rate switches the wrapped-native rules on: it must
/// be nonzero, as the derivation rules ask. The only values additionally
/// set aside are those the arithmetic cannot take: a magnitude beyond what
/// multiplication and rendering handle, or a scale so close to the `i64`
/// extremes that adding the price ratio's scale would overflow — inputs on
/// which the backing crate's own scale addition would overflow as well.
pub open spec fn spec_rate_on(rate: DecimalModel) -> bool {
    &&& 1 <= rate.bytes.len() <= 999000
    &&& i64::MIN + 254 <= rate.scale <= i64::MAX - 404
    &&& !rate.is_zero()
}

fn rate_on(rate: &Decimal) -> (r: bool)
    ensures
        r == spec_rate_on(rate@),
{
    rate.bytes.len() >= 1 && rate.bytes.len() <= 999000 && rate.scale >= i64::MIN + 254
        && rate.scale <= i64::MAX - 404 && !rate.is_zero()
}

/// One derived record: `token` priced at `price_usd`.
pub open spec fn spec_price_record(
    token: TokenModel,
    price_usd: Seq<char>,
    number: u64,
    ordinal: u64,
) -> PriceModel {
    PriceModel { token, price_usd, block_number: number, ordinal }
}

/// The records derived from one log: for a reserves-synced event of a
/// tracked pair, each of the four rules contributes at most one record, in
/// rule order, all sharing the log's block number and ordinal. A rule whose
/// divisor-side reserve is zero is skipped, and the wrapped-native rules
/// are skipped when no usable nonzero rate resolved.
pub open spec fn spec_log_uniswap_prices(
    cfg: PricingConfig,
    number: u64,
    pairs: Seq<StoreEntry<PairCreated>>,
    rate: DecimalModel,
    log: LogRecord,
) -> Seq<PriceModel> {
    match log.event {
        Some(EventPayload::Sync(ev)) => {
            match spec_get_last(pairs, spec_pair_key(hex_of(log.address@))) {
                Some(pair) => {
                    let t0 = pair.spec_token0();
                    let t1 = pair.spec_token1();
                    let r0 = spec_scaled(ev.reserve0, t0.decimals);
                    let r1 = spec_scaled(ev.reserve1, t1.decimals);
                    (if cfg.spec_is_stable(t0.address@) && ev.reserve1 != 0 {
                        seq![
                            spec_price_record(
                                t1.model(),
                                render_of(div_of(r0, r1)),
                                number,
                                log.ordinal,
                            ),
                        ]
                    } else {
                        Seq::empty()
                    }) + (if cfg.spec_is_stable(t1.address@) && ev.reserve0 != 0 {
                        seq![
                            spec_price_record(
                                t0.model(),
                                render_of(div_of(r1, r0)),
                                number,
                                log.ordinal,
                            ),
                        ]
                    } else {
                        Seq::empty()
                    }) + (if cfg.spec_is_wrapped_native(t0.address@) && spec_rate_on(rate)
                        && ev.reserve1 != 0 {
                        seq![
                            spec_price_record(
                                t1.model(),
                                render_of(mul_of(div_of(r0, r1), rate)),
                                number,
                                log.ordinal,
                            ),
                        ]
                    } else {
                        Seq::empty()
                    }) + (if cfg.spec_is_wrapped_native(t1.address@) && spec_rate_on(rate)
                        && ev.reserve0 != 0 {
                        seq![
                            spec_price_record(
                                t0.model(),
                                render_of(mul_of(div_of(r1, r0), rate)),
                                number,
                                log.ordinal,
                            ),
                        ]
                    } else {
                        Seq::empty()
                    })
                },
                None => Seq::empty(),
            }
        },
        _ => Seq::empty(),
    }
}

/// All records derived from a block's logs, in block order.
pub open spec fn spec_uniswap_prices(
    cfg: PricingConfig,
    number: u64,
    pairs: Seq<StoreEntry<PairCreated>>,
    rate: DecimalModel,
    logs: Seq<LogRecord>,
) -> Seq<PriceModel>
    decreases logs.len(),
{
    if logs.len() == 0 {
        Seq::empty()
    } else {
        spec_uniswap_prices(cfg, number, pairs, rate, logs.drop_last()) + spec_log_uniswap_prices(
            cfg,
            number,
            pairs,
            rate,
            logs.last(),
        )
    }
}

/// Derives USD price records for every reserves-synced event of a tracked
/// pair in the block, using the four derivation rules and the rate
/// fallback chain.
pub fn map_uniswap_prices(
    cfg: &PricingConfig,
    blk: &Block,
    pairs_store: &Store<PairCreated>,
    weth_price_store: &Store<Erc20Price>,
    chainlink_prices_store: &Store<Decimal>,
) -> (r: Erc20Prices)
    requires
        forall|i: int| 0 <= i < pairs_store@.len() ==> (#[trigger] pairs_store@[i]).value.wf(),
    ensures
        r.items@.map_values(|p: Erc20Price| p.model()) == spec_uniswap_prices(
            *cfg,
            blk.number,
            pairs_store@,
            spec_rate(chainlink_prices_store@, weth_price_store@),
            blk.logs@,
        ),
        forall|k: int|
            0 <= k < r.items@.len() ==> (#[trigger] r.items@[k]).wf() && r.items@[k].source
                is Uniswap,
{
    let eth_price = fetch_eth_price(chainlink_prices_store, weth_price_store);
    let ghost rate = eth_price@;
    let rate_enabled = rate_on(&eth_price);
    let mut items: Vec<Erc20Price> = Vec::new();
    let n = blk.logs.len();
    proof {
        assert(blk.logs@.take(0) =~= Seq::<LogRecord>::empty());
        assert(items@.map_values(|p: Erc20Price| p.model()) =~= Seq::<PriceModel>::empty());
    }
    let mut i: usize = 0;
    while i < n
        invariant
            0 <= i <= n,
            n == blk.logs@.len(),
            forall|j: int| 0 <= j < pairs_store@.len() ==> (#[trigger] pairs_store@[j]).value.wf(),
            rate == spec_rate(chainlink_prices_store@, weth_price_store@),
            eth_price@ == rate,
            rate_enabled == spec_rate_on(rate),
            items@.map_values(|p: Erc20Price| p.model()) == spec_uniswap_prices(
                *cfg,
                blk.number,
                pairs_store@,
                rate,
                blk.logs@.take(i as int),
            ),
            forall|k: int|
                0 <= k < items@.len() ==> (#[trigger] items@[k]).wf() && items@[k].source
                    is Uniswap,
        decreases n - i,
    {
        let log = &blk.logs[i];
        proof {
            assert(blk.logs@.take(i as int + 1).drop_last() =~= blk.logs@.take(i as int));
            assert(blk.logs@.take(i as int + 1).last() == blk.logs@[i as int]);
        }
        let ghost log_target = spec_log_uniswap_prices(
            *cfg,
            blk.number,
            pairs_store@,
            rate,
            blk.logs@[i as int],
        );
        let ghost before_log = items@;
        match &log.event {
            Some(EventPayload::Sync(ev)) => {
                let key = StoreKey::pair_key(hex_encode(log.address.as_slice()).as_str());
                match pairs_store.get_last(key.as_str()) {
                    Some(pair) => {
                        proof {
                            lemma_get_last_in_store(pairs_store@, key@);
                            assert(pair.wf());
                        }
                        let reserve0 = scale_reserve(ev.reserve0, pair.token0_ref().decimals);
                        let reserve1 = scale_reserve(ev.reserve1, pair.token1_ref().decimals);
                        let ghost r0 = reserve0@;
                        let ghost r1 = reserve1@;
                        let ghost rule1 = if cfg.spec_is_stable(pair.spec_token0().address@)
                            && ev.reserve1 != 0 {
                            seq![
                                spec_price_record(
                                    pair.spec_token1().model(),
                                    render_of(div_of(r0, r1)),
                                    blk.number,
                                    log.ordinal,
                                ),
                            ]
                        } else {
                            Seq::<PriceModel>::empty()
                        };
                        let ghost rule2 = if cfg.spec_is_stable(pair.spec_token1().address@)
                            && ev.reserve0 != 0 {
                            seq![
                                spec_price_record(
                                    pair.spec_token0().model(),
                                    render_of(div_of(r1, r0)),
                                    blk.number,
                                    log.ordinal,
                                ),
                            ]
                        } else {
                            Seq::<PriceModel>::empty()
                        };
                        let ghost rule3 = if cfg.spec_is_wrapped_native(
                            pair.spec_token0().address@,
                        ) && spec_rate_on(rate) && ev.reserve1 != 0 {
                            seq![
                                spec_price_record(
                                    pair.spec_token1().model(),
                                    render_of(mul_of(div_of(r0, r1), rate)),
                                    blk.number,
                                    log.ordinal,
                                ),
                            ]
                        } else {
                            Seq::<PriceModel>::empty()
                        };
                        let ghost rule4 = if cfg.spec_is_wrapped_native(
                            pair.spec_token1().address@,
                        ) && spec_rate_on(rate) && ev.reserve0 != 0 {
                            seq![
                                spec_price_record(
                                    pair.spec_token0().model(),
                                    render_of(mul_of(div_of(r1, r0), rate)),
                                    blk.number,
                                    log.ordinal,
                                ),
                            ]
                        } else {
                            Seq::<PriceModel>::empty()
                        };
                        proof {
                            assert(log_target =~= rule1 + rule2 + rule3 + rule4);
                        }
                        if cfg.is_stable(pair.token0_ref().address.as_str()) && !reserve1.is_zero()
                        {
                            let token_price = dec_div(&reserve0, &reserve1);
                            let price = Erc20Price {
                                token: Some(pair.token1_ref().clone()),
                                price_usd: dec_render(&token_price),
                                block_number: blk.number,
                                ordinal: log.ordinal,
                                source: PriceSource::Uniswap,
                            };
                            proof {
                                assert(rule1 == seq![price.model()]);
                            }
                            items.push(price);
                        } else {
                            proof {
                                assert(rule1 =~= Seq::<PriceModel>::empty());
                            }
                        }
                        if cfg.is_stable(pair.token1_ref().address.as_str()) && !reserve0.is_zero()
                        {
                            let token_price = dec_div(&reserve1, &reserve0);
                            let price = Erc20Price {
                                token: Some(pair.token0_ref().clone()),
                                price_usd: dec_render(&token_price),
                                block_number: blk.number,
                                ordinal: log.ordinal,
                                source: PriceSource::Uniswap,
                            };
                            proof {
                                assert(rule2 == seq![price.model()]);
                            }
                            items.push(price);
                        } else {
                            proof {
                                assert(rule2 =~= Seq::<PriceModel>::empty());
                            }
                        }
                        if cfg.is_wrapped_native(pair.token0_ref().address.as_str()) && rate_enabled
                            && !reserve1.is_zero() {
                            let ratio = dec_div(&reserve0, &reserve1);
                            let token_price = dec_mul(&ratio, &eth_price);
                            let price = Erc20Price {
                                token: Some(pair.token1_ref().clone()),
                                price_usd: dec_render(&token_price),
                                block_number: blk.number,
                                ordinal: log.ordinal,
                                source: PriceSource::Uniswap,
                            };
                            proof {
                                assert(rule3 == seq![price.model()]);
                            }
                            items.push(price);
                        } else {
                            proof {
                                assert(rule3 =~= Seq::<PriceModel>::empty());
                            }
                        }
                        if cfg.is_wrapped_native(pair.token1_ref().address.as_str()) && rate_enabled
                            && !reserve0.is_zero() {
                            let ratio = dec_div(&reserve1, &reserve0);
                            let token_price = dec_mul(&ratio, &eth_price);
                            let price = Erc20Price {
                                token: Some(pair.token0_ref().clone()),
                                price_usd: dec_render(&token_price),
                                block_number: blk.number,
                                ordinal: log.ordinal,
                                source: PriceSource::Uniswap,
                            };
                            proof {
                                assert(rule4 == seq![price.model()]);
                            }
                            items.push(price);
                        } else {
                            proof {
                                assert(rule4 =~= Seq::<PriceModel>::empty());
                            }
                        }
                        proof {
                            assert(items@.map_values(|p: Erc20Price| p.model())
                                =~= before_log.map_values(|p: Erc20Price| p.model()) + log_target);
                        }
                    },
                    None => {
                        proof {
                            assert(log_target =~= Seq::<PriceModel>::empty());
                        }
                    },
                }
            },
            _ => {
                proof {
                    assert(log_target =~= Seq::<PriceModel>::empty());
                }
            },
        }
        proof {
            assert(items@.map_values(|p: Erc20Price| p.model()) =~= spec_uniswap_prices(
                *cfg,
                blk.number,
                pairs_store@,
                rate,
                blk.logs@.take(i as int + 1),
            ));
        }
        i = i + 1;
    }
    proof {
        assert(blk.logs@.take(n as int) =~= blk.logs@);
    }
    Erc20Prices { items }
}

/// The store history after persisting a block's price records: each record
/// is written under its token's address key and then under its token's
/// symbol key, last-write-wins, versioned by the triggering log's ordinal.
/// Symbol keys are shared by tokens with the same symbol, so a later
/// writer overwrites regardless of address (a documented limitation).
pub open spec fn spec_store_uniswap_prices(
    s: Seq<StoreEntry<Erc20Price>>,
    items: Seq<Erc20Price>,
) -> Seq<StoreEntry<Erc20Price>>
    decreases items.len(),
{
    if items.len() == 0 {
        s
    } else {
        spec_set(
            spec_set(
                spec_store_uniswap_prices(s, items.drop_last()),
                items.last().ordinal,
                spec_usd_price_by_address(items.last().spec_token().address@),
                items.last(),
            ),
            items.last().ordinal,
            spec_usd_price_by_symbol(items.last().spec_token().symbol@),
            items.last(),
        )
    }
}

/// Persists every derived price twice, versioned by the triggering log's
/// ordinal: under the token-address key and under the token-symbol key.
pub fn store_uniswap_prices(prices: &Erc20Prices, output: &mut Store<Erc20Price>)
    requires
        forall|k: int| 0 <= k < prices.items@.len() ==> (#[trigger] prices.items@[k]).wf(),
    ensures
        final(output)@ == spec_store_uniswap_prices(old(output)@, prices.items@),
{
    let n = prices.items.len();
    proof {
        assert(prices.items@.take(0) =~= Seq::<Erc20Price>::empty());
    }
    let mut i: usize = 0;
    while i < n
        invariant
            0 <= i <= n,
            n == prices.items@.len(),
            forall|k: int| 0 <= k < prices.items@.len() ==> (#[trigger] prices.items@[k]).wf(),
            output@ == spec_store_uniswap_prices(old(output)@, prices.items@.take(i as int)),
        decreases n - i,
    {
        let price = prices.items[i].clone();
        let price_again = prices.items[i].clone();
        let ordinal = price.ordinal;
        let address_key = StoreKey::usd_price_by_address(price.token_ref().address.as_str());
        let symbol_key = StoreKey::usd_price_by_symbol(price.token_ref().symbol.as_str());
        proof {
            assert(prices.items@.take(i as int + 1).drop_last() =~= prices.items@.take(i as int));
            assert(prices.items@.take(i as int + 1).last() == prices.items@[i as int]);
        }
        output.set(ordinal, address_key, price);
        output.set(ordinal, symbol_key, price_again);
        i = i + 1;
    }
    proof {
        assert(prices.items@.take(n as int) =~= prices.items@);
    }
}

/// Fallback ordering: an available oracle rate always wins; the persisted
/// wrapped-native price is consulted only when the oracle has none; and
/// with neither source available the rate resolves to zero, which switches
/// the wrapped-native rules off.
pub proof fn lemma_rate_fallback(
    chainlink: Seq<StoreEntry<Decimal>>,
    weth: Seq<StoreEntry<Erc20Price>>,
)
    ensures
        spec_get_last(chainlink, spec_chainlink_eth_price_key()) matches Some(d) ==> spec_rate(
            chainlink,
            weth,
        ) == d@,
        ({
            let stale = spec_get_last(weth, spec_eth_usd_price_key());
            spec_get_last(chainlink, spec_chainlink_eth_price_key()) is None && stale is Some
                && parse_of(stale->Some_0.price_usd@) is Some
        }) ==> spec_rate(chainlink, weth) == parse_of(
            spec_get_last(weth, spec_eth_usd_price_key())->Some_0.price_usd@,
        )->Some_0,
        spec_get_last(chainlink, spec_chainlink_eth_price_key()) is None && spec_get_last(
            weth,
            spec_eth_usd_price_key(),
        ) is None ==> spec_rate(chainlink, weth) == spec_zero_decimal() && !spec_rate_on(
            spec_rate(chainlink, weth),
        ),
{
    assert(spec_zero_decimal().is_zero()) by {
        assert(seq![0u8].drop_first() =~= Seq::<u8>::empty());
        assert(crate::decimal::nat_of_le_bytes(Seq::<u8>::empty()) == 0);
        assert(crate::decimal::nat_of_le_bytes(seq![0u8]) == 0);
    }
}

/// Price symmetry: a stablecoin/X pair yields the same price record for X
/// whichever side of the pair the stablecoin occupies; both orientations
/// render the quotient of the decimal-scaled stablecoin-side reserve by
/// the decimal-scaled X-side reserve.
pub proof fn lemma_price_symmetry(
    cfg: PricingConfig,
    number: u64,
    pairs_a: Seq<StoreEntry<PairCreated>>,
    pairs_b: Seq<StoreEntry<PairCreated>>,
    rate: DecimalModel,
    log_a: LogRecord,
    log_b: LogRecord,
    pair_a: PairCreated,
    pair_b: PairCreated,
    stable_reserve: u128,
    x_reserve: u128,
)
    requires
        // one orientation: the stablecoin is token0
        log_a.event == Some(
            EventPayload::Sync(SyncEvent { reserve0: stable_reserve, reserve1: x_reserve }),
        ),
        spec_get_last(pairs_a, spec_pair_key(hex_of(log_a.address@))) == Some(pair_a),
        // the other orientation: the same tokens swapped, reserves swapped
        log_b.event == Some(
            EventPayload::Sync(SyncEvent { reserve0: x_reserve, reserve1: stable_reserve }),
        ),
        spec_get_last(pairs_b, spec_pair_key(hex_of(log_b.address@))) == Some(pair_b),
        pair_b.spec_token0() == pair_a.spec_token1(),
        pair_b.spec_token1() == pair_a.spec_token0(),
        log_a.ordinal == log_b.ordinal,
        // the stablecoin side is a recognized stablecoin and nothing else
        // switches another rule on
        cfg.spec_is_stable(pair_a.spec_token0().address@),
        !cfg.spec_is_stable(pair_a.spec_token1().address@),
        !cfg.spec_is_wrapped_native(pair_a.spec_token0().address@),
        !cfg.spec_is_wrapped_native(pair_a.spec_token1().address@),
        x_reserve != 0,
    ensures
        spec_log_uniswap_prices(cfg, number, pairs_a, rate, log_a) == spec_log_uniswap_prices(
            cfg,
            number,
            pairs_b,
            rate,
            log_b,
        ),
        spec_log_uniswap_prices(cfg, number, pairs_a, rate, log_a) == seq![
            spec_price_record(
                pair_a.spec_token1().model(),
                render_of(
                    div_of(
                        spec_scaled(stable_reserve, pair_a.spec_token0().decimals),
                        spec_scaled(x_reserve, pair_a.spec_token1().decimals),
                    ),
                ),
                number,
                log_a.ordinal,
            ),
        ],
{
    let target = seq![
        spec_price_record(
            pair_a.spec_token1().model(),
            render_of(
                div_of(
                    spec_scaled(stable_reserve, pair_a.spec_token0().decimals),
                    spec_scaled(x_reserve, pair_a.spec_token1().decimals),
                ),
            ),
            number,
            log_a.ordinal,
        ),
    ];
    assert(spec_log_uniswap_prices(cfg, number, pairs_a, rate, log_a) =~= target);
    assert(spec_log_uniswap_prices(cfg, number, pairs_b, rate, log_b) =~= target);
}

/// Zero-reserve safety: a reserves-synced event both of whose reserves are
/// zero derives no record at all, whatever the pair's shape — every rule's
/// divisor side is zero, so every rule is skipped rather than dividing.
pub proof fn lemma_zero_reserves_no_prices(
    cfg: PricingConfig,
    number: u64,
    pairs: Seq<StoreEntry<PairCreated>>,
    rate: DecimalModel,
    log: LogRecord,
    ev: SyncEvent,
)
    requires
        log.event == Some(EventPayload::Sync(ev)),
        ev.reserve0 == 0,
        ev.reserve1 == 0,
    ensures
        spec_log_uniswap_prices(cfg, number, pairs, rate, log) == Seq::<PriceModel>::empty(),
{
    assert(spec_log_uniswap_prices(cfg, number, pairs, rate, log) =~= Seq::<PriceModel>::empty());
}

} // verus!
