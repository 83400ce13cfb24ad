//! Derivation of the wrapped-native token's USD price from pairs where it
//! trades directly against a recognized stablecoin.

use vstd::prelude::*;

use crate::block::{Block, EventPayload, LogRecord, SyncEvent};
use crate::constants::PricingConfig;
use crate::decimal::{dec_div, dec_render, div_of, render_of, scale_reserve, spec_scaled};
use crate::store::{spec_get_last, spec_set, lemma_get_last_in_store, Store, StoreEntry};
use crate::store_key_manager::{spec_eth_usd_price_key, spec_pair_key, StoreKey};
use crate::token::{Erc20Price, Erc20Prices, PairCreated, PriceModel, PriceSource};
use crate::util::{hex_encode, hex_of};

verus! {

/// The wrapped-native price record derived from one log, if any: the log
/// must be a reserves-synced event of a tracked pair in which exactly one
/// side is the wrapped-native token and the other a recognized stablecoin;
/// the price is the stablecoin-side reserve over the wrapped-native-side
/// reserve (both decimal-scaled), attributed to the wrapped-native token.
/// A zero wrapped-native-side reserve derives nothing.
pub open spec fn spec_log_weth_price(
    cfg: PricingConfig,
    number: u64,
    pairs: Seq<StoreEntry<PairCreated>>,
    log: LogRecord,
) -> Option<PriceModel> {
    match log.event {
        Some(EventPayload::Sync(ev)) => {
            match spec_get_last(pairs, spec_pair_key(hex_of(log.address@))) {
                Some(pair) => {
                    let t0 = pair.spec_token0();
                    let t1 = pair.spec_token1();
                    if cfg.spec_is_wrapped_native(t0.address@) && cfg.spec_is_stable(
                        t1.address@,
                    ) {
                        if ev.reserve0 != 0 {
                            Some(
                                PriceModel {
                                    token: t0.model(),
                                    price_usd: render_of(
                                        div_of(
                                            spec_scaled(ev.reserve1, t1.decimals),
                                            spec_scaled(ev.reserve0, t0.decimals),
                                        ),
                                    ),
                                    block_number: number,
                                    ordinal: log.ordinal,
                                },
                            )
                        } else {
                            None
                        }
                    } else if cfg.spec_is_wrapped_native(t1.address@) && cfg.spec_is_stable(
                        t0.address@,
                    ) {
                        if ev.reserve1 != 0 {
                            Some(
                                PriceModel {
                                    token: t1.model(),
                                    price_usd: render_of(
                                        div_of(
                                            spec_scaled(ev.reserve0, t0.decimals),
                                            spec_scaled(ev.reserve1, t1.decimals),
                                        ),
                                    ),
                                    block_number: number,
                                    ordinal: log.ordinal,
                                },
                            )
                        } else {
                            None
                        }
                    } else {
                        None
                    }
                },
                None => None,
            }
        },
        _ => None,
    }
}

/// All wrapped-native price records derived from a block's logs, in block
/// order.
pub open spec fn spec_weth_prices(
    cfg: PricingConfig,
    number: u64,
    pairs: Seq<StoreEntry<PairCreated>>,
    logs: Seq<LogRecord>,
) -> Seq<PriceModel>
    decreases logs.len(),
{
    if logs.len() == 0 {
        Seq::empty()
    } else {
        spec_weth_prices(cfg, number, pairs, logs.drop_last()) + match spec_log_weth_price(
            cfg,
            number,
            pairs,
            logs.last(),
        ) {
            Some(p) => seq![p],
            None => Seq::empty(),
        }
    }
}

/// Derives the wrapped-native token's USD price from every reserves-synced
/// event of a tracked stablecoin/wrapped-native pair in the block.
pub fn map_weth_prices(cfg: &PricingConfig, blk: &Block, pairs_store: &Store<PairCreated>) -> (r:
    Erc20Prices)
    requires
        forall|i: int| 0 <= i < pairs_store@.len() ==> (#[trigger] pairs_store@[i]).value.wf(),
    ensures
        r.items@.map_values(|p: Erc20Price| p.model()) == spec_weth_prices(
            *cfg,
            blk.number,
            pairs_store@,
            blk.logs@,
        ),
        forall|k: int|
            0 <= k < r.items@.len() ==> (#[trigger] r.items@[k]).wf() && r.items@[k].source
                is Uniswap,
{
    let mut items: Vec<Erc20Price> = Vec::new();
    let n = blk.logs.len();
    proof {
        assert(blk.logs@.take(0) =~= Seq::<LogRecord>::empty());
        assert(items@.map_values(|p: Erc20Price| p.model()) =~= Seq::<PriceModel>::empty());
    }
    let mut i: usize = 0;
    while i < n
        invariant
            0 <= i <= n,
            n == blk.logs@.len(),
            forall|j: int| 0 <= j < pairs_store@.len() ==> (#[trigger] pairs_store@[j]).value.wf(),
            items@.map_values(|p: Erc20Price| p.model()) == spec_weth_prices(
                *cfg,
                blk.number,
                pairs_store@,
                blk.logs@.take(i as int),
            ),
            forall|k: int|
                0 <= k < items@.len() ==> (#[trigger] items@[k]).wf() && items@[k].source
                    is Uniswap,
        decreases n - i,
    {
        let ghost old_out = items@;
        let log = &blk.logs[i];
        proof {
            assert(blk.logs@.take(i as int + 1).drop_last() =~= blk.logs@.take(i as int));
            assert(blk.logs@.take(i as int + 1).last() == blk.logs@[i as int]);
        }
        match &log.event {
            Some(EventPayload::Sync(ev)) => {
                let key = StoreKey::pair_key(hex_encode(log.address.as_slice()).as_str());
                match pairs_store.get_last(key.as_str()) {
                    Some(pair) => {
                        proof {
                            lemma_get_last_in_store(pairs_store@, key@);
                            assert(pair.wf());
                        }
                        let reserve0 = scale_reserve(ev.reserve0, pair.token0_ref().decimals);
                        let reserve1 = scale_reserve(ev.reserve1, pair.token1_ref().decimals);
                        if cfg.is_wrapped_native(pair.token0_ref().address.as_str())
                            && cfg.is_stable(pair.token1_ref().address.as_str()) {
                            if !reserve0.is_zero() {
                                let weth_price = dec_div(&reserve1, &reserve0);
                                let price = Erc20Price {
                                    token: Some(pair.token0_ref().clone()),
                                    price_usd: dec_render(&weth_price),
                                    block_number: blk.number,
                                    ordinal: log.ordinal,
                                    source: PriceSource::Uniswap,
                                };
                                proof {
                                    assert(spec_log_weth_price(
                                        *cfg,
                                        blk.number,
                                        pairs_store@,
                                        blk.logs@[i as int],
                                    ) == Some(price.model()));
                                }
                                items.push(price);
                                proof {
                                    assert(items@.map_values(|q: Erc20Price| q.model())
                                        =~= old_out.map_values(|q: Erc20Price| q.model()).push(
                                        items@.last().model(),
                                    ));
                                }
                            }
                        } else if cfg.is_wrapped_native(pair.token1_ref().address.as_str())
                            && cfg.is_stable(pair.token0_ref().address.as_str()) {
                            if !reserve1.is_zero() {
                                let weth_price = dec_div(&reserve0, &reserve1);
                                let price = Erc20Price {
                                    token: Some(pair.token1_ref().clone()),
                                    price_usd: dec_render(&weth_price),
                                    block_number: blk.number,
                                    ordinal: log.ordinal,
                                    source: PriceSource::Uniswap,
                                };
                                proof {
                                    assert(spec_log_weth_price(
                                        *cfg,
                                        blk.number,
                                        pairs_store@,
                                        blk.logs@[i as int],
                                    ) == Some(price.model()));
                                }
                                items.push(price);
                                proof {
                                    assert(items@.map_values(|q: Erc20Price| q.model())
                                        =~= old_out.map_values(|q: Erc20Price| q.model()).push(
                                        items@.last().model(),
                                    ));
                                }
                            }
                        }
                    },
                    None => {},
                }
            },
            _ => {},
        }
        proof {
            assert(items@.map_values(|p: Erc20Price| p.model()) =~= spec_weth_prices(
                *cfg,
                blk.number,
                pairs_store@,
                blk.logs@.take(i as int + 1),
            ));
        }
        i = i + 1;
    }
    proof {
        assert(blk.logs@.take(n as int) =~= blk.logs@);
    }
    Erc20Prices { items }
}

/// The store history after persisting a block's wrapped-native prices
/// under the fixed wrapped-native key, versioned by each record's ordinal.
pub open spec fn spec_store_weth_prices(
    s: Seq<StoreEntry<Erc20Price>>,
    items: Seq<Erc20Price>,
) -> Seq<StoreEntry<Erc20Price>>
    decreases items.len(),
{
    if items.len() == 0 {
        s
    } else {
        spec_set(
            spec_store_weth_prices(s, items.drop_last()),
            items.last().ordinal,
            spec_eth_usd_price_key(),
            items.last(),
        )
    }
}

/// Persists every derived wrapped-native price under the fixed
/// wrapped-native key, last-write-wins by the record's ordinal.
pub fn store_weth_prices(prices: &Erc20Prices, output: &mut Store<Erc20Price>)
    ensures
        final(output)@ == spec_store_weth_prices(old(output)@, prices.items@),
{
    let n = prices.items.len();
    proof {
        assert(prices.items@.take(0) =~= Seq::<Erc20Price>::empty());
    }
    let mut i: usize = 0;
    while i < n
        invariant
            0 <= i <= n,
            n == prices.items@.len(),
            output@ == spec_store_weth_prices(old(output)@, prices.items@.take(i as int)),
        decreases n - i,
    {
        let price = prices.items[i].clone();
        let ordinal = price.ordinal;
        proof {
            assert(prices.items@.take(i as int + 1).drop_last() =~= prices.items@.take(i as int));
            assert(prices.items@.take(i as int + 1).last() == prices.items@[i as int]);
        }
        output.set(ordinal, StoreKey::eth_usd_price_key(), price);
        i = i + 1;
    }
    proof {
        assert(prices.items@.take(n as int) =~= prices.items@);
    }
}

/// Zero-reserve safety for the wrapped-native deriver: a reserves event
/// whose wrapped-native-side reserve (the divisor) is zero derives no
/// price record, whatever the other side holds.
pub proof fn lemma_weth_zero_reserve(
    cfg: PricingConfig,
    number: u64,
    pairs: Seq<StoreEntry<PairCreated>>,
    log: LogRecord,
    ev: SyncEvent,
    pair: PairCreated,
)
    requires
        log.event == Some(EventPayload::Sync(ev)),
        spec_get_last(pairs, spec_pair_key(hex_of(log.address@))) == Some(pair),
        pair.wf(),
        cfg.spec_is_wrapped_native(pair.spec_token0().address@) ==> ev.reserve0 == 0,
        cfg.spec_is_wrapped_native(pair.spec_token1().address@) ==> ev.reserve1 == 0,
    ensures
        spec_log_weth_price(cfg, number, pairs, log) is None,
{
}

} // verus!
