//! Record types flowing through the pipeline: resolved tokens, pair-creation
//! records, and derived price records.

use vstd::prelude::*;

verus! {

/// Mathematical model of a resolved token: the same fields, with strings
/// as character sequences.
pub ghost struct TokenModel {
    pub address: Seq<char>,
    pub name: Seq<char>,
    pub symbol: Seq<char>,
    pub decimals: u64,
}

/// Mathematical model of a pair record with both tokens resolved.
pub ghost struct PairModel {
    pub token0: TokenModel,
    pub token1: TokenModel,
    pub pair_address: Seq<char>,
    pub factory: Seq<char>,
    pub tx_hash: Seq<char>,
    pub block_index: u32,
    pub block_number: u64,
    pub block_time: u64,
    pub ordinal: u64,
}

/// Mathematical model of a price record.
pub ghost struct PriceModel {
    pub token: TokenModel,
    pub price_usd: Seq<char>,
    pub block_number: u64,
    pub ordinal: u64,
}

/// ERC20 metadata resolved for a contract address. Immutable once resolved.
pub struct Erc20Token {
    /// Lowercase hex address without a `0x` prefix.
    pub address: String,
    pub name: String,
    pub symbol: String,
    /// Decimal precision; validated to lie strictly between 0 and 255.
    pub decimals: u64,
}

impl Erc20Token {
    /// Validity of a resolved token: the decimals check performed at
    /// resolution time.
    pub open spec fn wf(&self) -> bool {
        0 < self.decimals < 255
    }

    pub open spec fn model(&self) -> TokenModel {
        TokenModel {
            address: self.address@,
            name: self.name@,
            symbol: self.symbol@,
            decimals: self.decimals,
        }
    }
}

impl Clone for Erc20Token {
    fn clone(&self) -> (r: Self)
        ensures
            r == *self,
    {
        Erc20Token {
            address: self.address.clone(),
            name: self.name.clone(),
            symbol: self.symbol.clone(),
            decimals: self.decimals,
        }
    }
}

/// A trading pair discovered from a factory pair-creation event.
///
/// A record is only ever built with both tokens resolved; the options mirror
/// the wire shape where either may be missing.
pub struct PairCreated {
    pub token0: Option<Erc20Token>,
    pub token1: Option<Erc20Token>,
    /// Lowercase hex address of the pair contract, the record's logical key.
    pub pair_address: String,
    /// Lowercase hex address of the factory that emitted the event.
    pub factory: String,
    pub tx_hash: String,
    pub block_index: u32,
    pub block_number: u64,
    /// Seconds part of the creation block's timestamp.
    pub block_time: u64,
    pub ordinal: u64,
}

impl PairCreated {
    /// A persisted pair always carries both resolved tokens, and their
    /// decimals passed resolution-time validation.
    pub open spec fn wf(&self) -> bool {
        &&& self.token0 is Some
        &&& self.token1 is Some
        &&& self.token0->Some_0.wf()
        &&& self.token1->Some_0.wf()
    }

    pub open spec fn spec_token0(&self) -> Erc20Token {
        self.token0->Some_0
    }

    pub open spec fn spec_token1(&self) -> Erc20Token {
        self.token1->Some_0
    }

    /// Model of a well-formed pair record.
    pub open spec fn model(&self) -> PairModel {
        PairModel {
            token0: self.spec_token0().model(),
            token1: self.spec_token1().model(),
            pair_address: self.pair_address@,
            factory: self.factory@,
            tx_hash: self.tx_hash@,
            block_index: self.block_index,
            block_number: self.block_number,
            block_time: self.block_time,
            ordinal: self.ordinal,
        }
    }

    pub fn token0_ref(&self) -> (r: &Erc20Token)
        requires
            self.token0 is Some,
        ensures
            *r == self.spec_token0(),
    {
        match &self.token0 {
            Some(t) => t,
            None => unreached(),
        }
    }

    pub fn token1_ref(&self) -> (r: &Erc20Token)
        requires
            self.token1 is Some,
        ensures
            *r == self.spec_token1(),
    {
        match &self.token1 {
            Some(t) => t,
            None => unreached(),
        }
    }
}

impl Clone for PairCreated {
    fn clone(&self) -> (r: Self)
        ensures
            r == *self,
    {
        let token0 = match &self.token0 {
            Some(t) => Some(t.clone()),
            None => None,
        };
        let token1 = match &self.token1 {
            Some(t) => Some(t.clone()),
            None => None,
        };
        proof {
            assert(token0 == self.token0);
            assert(token1 == self.token1);
        }
        PairCreated {
            token0,
            token1,
            pair_address: self.pair_address.clone(),
            factory: self.factory.clone(),
            tx_hash: self.tx_hash.clone(),
            block_index: self.block_index,
            block_number: self.block_number,
            block_time: self.block_time,
            ordinal: self.ordinal,
        }
    }
}

/// All pair-creation records derived from one block.
pub struct FactoryEvents {
    pub pair_createds: Vec<PairCreated>,
}

/// Where a price record came from.
pub enum PriceSource {
    Uniswap,
}

/// A derived USD price for one token, superseded by any later record written
/// under the same key.
pub struct Erc20Price {
    pub token: Option<Erc20Token>,
    /// Decimal string rendering of the USD price.
    pub price_usd: String,
    pub block_number: u64,
    pub ordinal: u64,
    pub source: PriceSource,
}

impl Erc20Price {
    pub open spec fn wf(&self) -> bool {
        self.token is Some
    }

    pub open spec fn spec_token(&self) -> Erc20Token {
        self.token->Some_0
    }

    /// Model of a well-formed price record.
    pub open spec fn model(&self) -> PriceModel {
        PriceModel {
            token: self.spec_token().model(),
            price_usd: self.price_usd@,
            block_number: self.block_number,
            ordinal: self.ordinal,
        }
    }

    pub fn token_ref(&self) -> (r: &Erc20Token)
        requires
            self.token is Some,
        ensures
            *r == self.spec_token(),
    {
        match &self.token {
            Some(t) => t,
            None => unreached(),
        }
    }
}

impl Clone for Erc20Price {
    fn clone(&self) -> (r: Self)
        ensures
            r == *self,
    {
        let token = match &self.token {
            Some(t) => Some(t.clone()),
            None => None,
        };
        proof {
            assert(token == self.token);
        }
        Erc20Price {
            token,
            price_usd: self.price_usd.clone(),
            block_number: self.block_number,
            ordinal: self.ordinal,
            source: match &self.source {
                PriceSource::Uniswap => PriceSource::Uniswap,
            },
        }
    }
}

/// All price records derived from one block.
pub struct Erc20Prices {
    pub items: Vec<Erc20Price>,
}

/// Readiness report of the warm-up probe.
pub struct Warmup {
    pub is_warm: bool,
}

} // verus!
