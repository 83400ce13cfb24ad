//! Namespaced keys for the ordinal-versioned key-value store.
//!
//! Keys are colon-delimited, case-sensitive strings; addresses are lowercase
//! hex without a `0x` prefix.

use vstd::prelude::*;
use vstd::string::StringExecFns;

verus! {

pub enum StoreKey {
    Pair(String),
    EthUsdPrice,
    UsdPriceByTokenAddress(String),
    UsdPriceByTokenSymbol(String),
    ChainlinkEthPrice,
}

/// The key under which a pair record for `pair_address` is stored.
pub open spec fn spec_pair_key(pair_address: Seq<char>) -> Seq<char> {
    "Pair:"@ + pair_address
}

/// The fixed key under which the wrapped-native USD price is stored.
pub open spec fn spec_eth_usd_price_key() -> Seq<char> {
    "UsdPriceByTokenSymbol:ETH"@
}

/// The key under which the latest USD price of the token at `token_address`
/// is stored.
pub open spec fn spec_usd_price_by_address(token_address: Seq<char>) -> Seq<char> {
    "UsdPriceByTokenAddress:"@ + token_address
}

/// The key under which the latest USD price of tokens with symbol
/// `token_symbol` is stored.
pub open spec fn spec_usd_price_by_symbol(token_symbol: Seq<char>) -> Seq<char> {
    "UsdPriceByTokenSymbol:"@ + token_symbol
}

/// The key under which the external oracle module stores the native/USD rate.
pub open spec fn spec_chainlink_eth_price_key() -> Seq<char> {
    "price_by_symbol:ETH:USD"@
}

impl StoreKey {
    /// The rendered key of this variant.
    pub open spec fn spec_key(&self) -> Seq<char> {
        match self {
            StoreKey::Pair(address) => spec_pair_key(address@),
            StoreKey::EthUsdPrice => spec_eth_usd_price_key(),
            StoreKey::UsdPriceByTokenAddress(token_address) => spec_usd_price_by_address(
                token_address@,
            ),
            StoreKey::UsdPriceByTokenSymbol(token_symbol) => spec_usd_price_by_symbol(
                token_symbol@,
            ),
            StoreKey::ChainlinkEthPrice => spec_chainlink_eth_price_key(),
        }
    }

    pub fn pair_key(pair_address: &str) -> (r: String)
        ensures
            r@ == spec_pair_key(pair_address@),
    {
        StoreKey::Pair(pair_address.to_owned()).to_key_string()
    }

    pub fn eth_usd_price_key() -> (r: String)
        ensures
            r@ == spec_eth_usd_price_key(),
    {
        StoreKey::EthUsdPrice.to_key_string()
    }

    pub fn usd_price_by_address(token_address: &str) -> (r: String)
        ensures
            r@ == spec_usd_price_by_address(token_address@),
    {
        StoreKey::UsdPriceByTokenAddress(token_address.to_owned()).to_key_string()
    }

    pub fn usd_price_by_symbol(token_symbol: &str) -> (r: String)
        ensures
            r@ == spec_usd_price_by_symbol(token_symbol@),
    {
        StoreKey::UsdPriceByTokenSymbol(token_symbol.to_owned()).to_key_string()
    }

    /// The key written by the imported oracle price module.
    pub fn chainlink_eth_price() -> (r: String)
        ensures
            r@ == spec_chainlink_eth_price_key(),
    {
        StoreKey::ChainlinkEthPrice.to_key_string()
    }

    pub fn to_key_string(&self) -> (r: String)
        ensures
            r@ == self.spec_key(),
    {
        match self {
            StoreKey::Pair(address) => "Pair:".to_owned().concat(address.as_str()),
            StoreKey::EthUsdPrice => "UsdPriceByTokenSymbol:ETH".to_owned(),
            StoreKey::UsdPriceByTokenAddress(token_address) => "UsdPriceByTokenAddress:".to_owned()
                .concat(token_address.as_str()),
            StoreKey::UsdPriceByTokenSymbol(token_symbol) => "UsdPriceByTokenSymbol:".to_owned()
                .concat(token_symbol.as_str()),
            StoreKey::ChainlinkEthPrice => "price_by_symbol:ETH:USD".to_owned(),
        }
    }
}

} // verus!
