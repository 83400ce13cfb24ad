//! Discovery and registration of trading pairs from factory pair-creation
//! events.

use vstd::prelude::*;

use crate::block::{Block, EventPayload, LogRecord};
use crate::constants::PricingConfig;
use crate::erc20::{get_erc20_token, spec_resolve_token, spec_resolves};
use crate::store::{
    contains_key, count_key, lemma_set_if_absent_idempotent, spec_get_last, spec_set_if_absent,
    Store, StoreEntry,
};
use crate::store_key_manager::{spec_pair_key, StoreKey};
use crate::token::{FactoryEvents, PairCreated, PairModel};
use crate::util::{bytes_eq, hex_encode, hex_of};

verus! {

/// The pair record derived from one log, if any: the log must be a
/// pair-creation event emitted by the tracked factory and both token
/// addresses must resolve; any log failing these checks contributes
/// nothing (a non-conformant pair is deliberately not tracked).
pub open spec fn spec_log_pair(
    cfg: PricingConfig,
    number: u64,
    time: u64,
    log: LogRecord,
) -> Option<PairModel> {
    match log.event {
        Some(EventPayload::PairCreated(ev)) => {
            if log.address@ == cfg.factory_address@ && spec_resolves(ev.token0_responses)
                && spec_resolves(ev.token1_responses) {
                Some(
                    PairModel {
                        token0: spec_resolve_token(ev.token0@, ev.token0_responses)->Some_0,
                        token1: spec_resolve_token(ev.token1@, ev.token1_responses)->Some_0,
                        pair_address: hex_of(ev.pair@),
                        factory: hex_of(log.address@),
                        tx_hash: log.tx_hash@,
                        block_index: log.block_index,
                        block_number: number,
                        block_time: time,
                        ordinal: log.ordinal,
                    },
                )
            } else {
                None
            }
        },
        _ => None,
    }
}

/// All pair records derived from a block's logs, in block order.
pub open spec fn spec_pair_events(
    cfg: PricingConfig,
    number: u64,
    time: u64,
    logs: Seq<LogRecord>,
) -> Seq<PairModel>
    decreases logs.len(),
{
    if logs.len() == 0 {
        Seq::empty()
    } else {
        spec_pair_events(cfg, number, time, logs.drop_last()) + match spec_log_pair(
            cfg,
            number,
            time,
            logs.last(),
        ) {
            Some(p) => seq![p],
            None => Seq::empty(),
        }
    }
}

/// Derives one pair record per pair-creation event of the tracked factory
/// whose two tokens both resolve, in block order. Events whose resolution
/// fails are silently dropped: no partial record is ever produced.
pub fn map_pair_created_events(cfg: &PricingConfig, blk: &Block) -> (r: FactoryEvents)
    ensures
        r.pair_createds@.map_values(|p: PairCreated| p.model()) == spec_pair_events(
            *cfg,
            blk.number,
            blk.timestamp,
            blk.logs@,
        ),
        forall|k: int| 0 <= k < r.pair_createds@.len() ==> (#[trigger] r.pair_createds@[k]).wf(),
{
    let mut pair_createds: Vec<PairCreated> = Vec::new();
    let n = blk.logs.len();
    proof {
        assert(blk.logs@.take(0) =~= Seq::<LogRecord>::empty());
        assert(pair_createds@.map_values(|p: PairCreated| p.model()) =~= Seq::<
            PairModel,
        >::empty());
    }
    let mut i: usize = 0;
    while i < n
        invariant
            0 <= i <= n,
            n == blk.logs@.len(),
            pair_createds@.map_values(|p: PairCreated| p.model()) == spec_pair_events(
                *cfg,
                blk.number,
                blk.timestamp,
                blk.logs@.take(i as int),
            ),
            forall|k: int|
                0 <= k < pair_createds@.len() ==> (#[trigger] pair_createds@[k]).wf(),
        decreases n - i,
    {
        let ghost prefix = blk.logs@.take(i as int);
        let ghost old_out = pair_createds@;
        let log = &blk.logs[i];
        proof {
            assert(blk.logs@.take(i as int + 1).drop_last() =~= prefix);
            assert(blk.logs@.take(i as int + 1).last() == blk.logs@[i as int]);
        }
        match &log.event {
            Some(EventPayload::PairCreated(ev)) => {
                if bytes_eq(log.address.as_slice(), cfg.factory_address.as_slice()) {
                    let token0 = get_erc20_token(ev.token0.as_slice(), &ev.token0_responses);
                    let token1 = get_erc20_token(ev.token1.as_slice(), &ev.token1_responses);
                    match (token0, token1) {
                        (Some(tok0), Some(tok1)) => {
                            let p = PairCreated {
                                token0: Some(tok0),
                                token1: Some(tok1),
                                pair_address: hex_encode(ev.pair.as_slice()),
                                factory: hex_encode(log.address.as_slice()),
                                tx_hash: log.tx_hash.clone(),
                                block_index: log.block_index,
                                block_number: blk.number,
                                block_time: blk.timestamp,
                                ordinal: log.ordinal,
                            };
                            proof {
                                let target = spec_log_pair(
                                    *cfg,
                                    blk.number,
                                    blk.timestamp,
                                    blk.logs@[i as int],
                                );
                                assert(target == Some(p.model()));
                            }
                            pair_createds.push(p);
                            proof {
                                assert(pair_createds@.map_values(|q: PairCreated| q.model())
                                    =~= old_out.map_values(|q: PairCreated| q.model()).push(
                                    pair_createds@.last().model(),
                                ));
                            }
                        },
                        _ => {
                            proof {
                                assert(spec_log_pair(
                                    *cfg,
                                    blk.number,
                                    blk.timestamp,
                                    blk.logs@[i as int],
                                ) is None);
                            }
                        },
                    }
                }
            },
            _ => {},
        }
        proof {
            assert(pair_createds@.map_values(|p: PairCreated| p.model()) =~= spec_pair_events(
                *cfg,
                blk.number,
                blk.timestamp,
                blk.logs@.take(i as int + 1),
            ));
        }
        i = i + 1;
    }
    proof {
        assert(blk.logs@.take(n as int) =~= blk.logs@);
    }
    FactoryEvents { pair_createds }
}

/// The store history after persisting a block's pair records in order,
/// write-once under each pair-address key.
pub open spec fn spec_store_pairs(
    s: Seq<StoreEntry<PairCreated>>,
    ps: Seq<PairCreated>,
) -> Seq<StoreEntry<PairCreated>>
    decreases ps.len(),
{
    if ps.len() == 0 {
        s
    } else {
        spec_set_if_absent(
            spec_store_pairs(s, ps.drop_last()),
            ps.last().ordinal,
            spec_pair_key(ps.last().pair_address@),
            ps.last(),
        )
    }
}

/// Persists each pair record exactly once, keyed by pair address and
/// versioned by the event's ordinal: the first-seen creation for a pair
/// address wins, and any duplicate creation event is ignored.
pub fn store_pair_created_events(events: &FactoryEvents, output: &mut Store<PairCreated>)
    ensures
        final(output)@ == spec_store_pairs(old(output)@, events.pair_createds@),
{
    let n = events.pair_createds.len();
    proof {
        assert(events.pair_createds@.take(0) =~= Seq::<PairCreated>::empty());
    }
    let mut i: usize = 0;
    while i < n
        invariant
            0 <= i <= n,
            n == events.pair_createds@.len(),
            output@ == spec_store_pairs(old(output)@, events.pair_createds@.take(i as int)),
        decreases n - i,
    {
        let event = events.pair_createds[i].clone();
        let ordinal = event.ordinal;
        let key = StoreKey::pair_key(event.pair_address.as_str());
        proof {
            assert(events.pair_createds@.take(i as int + 1).drop_last()
                =~= events.pair_createds@.take(i as int));
            assert(events.pair_createds@.take(i as int + 1).last()
                == events.pair_createds@[i as int]);
        }
        output.set_if_absent(ordinal, key, event);
        i = i + 1;
    }
    proof {
        assert(events.pair_createds@.take(n as int) =~= events.pair_createds@);
    }
}

/// The registry's invariant is maintained: persisting well-formed pair
/// records into a store whose values are all well formed leaves every
/// stored value well formed — the condition the price derivers state on
/// the pair store they read.
pub proof fn lemma_store_pairs_wf(s: Seq<StoreEntry<PairCreated>>, ps: Seq<PairCreated>)
    requires
        forall|i: int| 0 <= i < s.len() ==> (#[trigger] s[i]).value.wf(),
        forall|k: int| 0 <= k < ps.len() ==> (#[trigger] ps[k]).wf(),
    ensures
        forall|i: int|
            0 <= i < spec_store_pairs(s, ps).len() ==> (#[trigger] spec_store_pairs(s, ps)[i]).value.wf(),
    decreases ps.len(),
{
    if ps.len() == 0 {
    } else {
        lemma_store_pairs_wf(s, ps.drop_last());
        let prev = spec_store_pairs(s, ps.drop_last());
        let next = spec_store_pairs(s, ps);
        assert(ps.last().wf());
        assert forall|i: int| 0 <= i < next.len() implies (#[trigger] next[i]).value.wf() by {
            if !contains_key(prev, spec_pair_key(ps.last().pair_address@)) && i == next.len() - 1 {
                assert(next[i].value == ps.last());
            } else {
                assert(next[i] == prev[i]);
            }
        }
    }
}

/// Idempotent registration: persisting a block that carries the same
/// pair-creation record twice (a replayed event) writes it once. The
/// duplicate is a no-op, exactly one record exists under the pair-address
/// key, and a read returns the first record.
pub proof fn lemma_registration_idempotent(
    s: Seq<StoreEntry<PairCreated>>,
    p: PairCreated,
    q: PairCreated,
)
    requires
        q.pair_address@ == p.pair_address@,
        !contains_key(s, spec_pair_key(p.pair_address@)),
    ensures
        spec_store_pairs(s, seq![p, q]) == spec_store_pairs(s, seq![p]),
        spec_get_last(spec_store_pairs(s, seq![p, q]), spec_pair_key(p.pair_address@)) == Some(p),
        count_key(spec_store_pairs(s, seq![p, q]), spec_pair_key(p.pair_address@)) == 1,
{
    let k = spec_pair_key(p.pair_address@);
    assert(seq![p, q].drop_last() =~= seq![p]);
    assert(seq![p].drop_last() =~= Seq::<PairCreated>::empty());
    assert(spec_store_pairs(s, Seq::<PairCreated>::empty()) == s);
    lemma_set_if_absent_idempotent(s, p.ordinal, q.ordinal, k, p, q);
    assert(spec_store_pairs(s, seq![p]) == spec_set_if_absent(s, p.ordinal, k, p));
    assert(spec_store_pairs(s, seq![p, q]) == spec_set_if_absent(
        spec_set_if_absent(s, p.ordinal, k, p),
        q.ordinal,
        spec_pair_key(q.pair_address@),
        q,
    ));
}

} // verus!
