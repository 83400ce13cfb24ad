//! Injected pipeline configuration: the tracked factory contract, the
//! wrapped-native token and the stablecoin allow-list.
//!
//! Representing these as a configuration value rather than compiled-in
//! literals lets the same pipeline serve other networks.

use vstd::prelude::*;

use crate::util::str_eq;

verus! {

/// Configuration handed to the pipeline at initialization.
///
/// Addresses are 20 raw bytes for the factory (compared against log
/// addresses) and lowercase hex strings without `0x` for the token
/// addresses (compared against resolved token records).
pub struct PricingConfig {
    /// Address of the factory contract whose pair-creation events are tracked.
    pub factory_address: Vec<u8>,
    /// Lowercase hex address of the wrapped-native token.
    pub wrapped_native_address: String,
    /// Lowercase hex addresses of tokens assumed pegged to one USD.
    pub stable_coins: Vec<String>,
}

impl PricingConfig {
    /// Whether `address` is in the stablecoin allow-list.
    pub open spec fn spec_is_stable(&self, address: Seq<char>) -> bool {
        exists|i: int| 0 <= i < self.stable_coins@.len() && self.stable_coins@[i]@ == address
    }

    /// Whether `address` is the wrapped-native token's address.
    pub open spec fn spec_is_wrapped_native(&self, address: Seq<char>) -> bool {
        self.wrapped_native_address@ == address
    }

    pub fn is_stable(&self, address: &str) -> (r: bool)
        ensures
            r == self.spec_is_stable(address@),
    {
        let mut i: usize = 0;
        while i < self.stable_coins.len()
            invariant
                0 <= i <= self.stable_coins@.len(),
                forall|j: int| 0 <= j < i ==> self.stable_coins@[j]@ != address@,
            decreases self.stable_coins@.len() - i,
        {
            if str_eq(self.stable_coins[i].as_str(), address) {
                return true;
            }
            i = i + 1;
        }
        false
    }

    pub fn is_wrapped_native(&self, address: &str) -> (r: bool)
        ensures
            r == self.spec_is_wrapped_native(address@),
    {
        str_eq(self.wrapped_native_address.as_str(), address)
    }
}

/// The Ethereum mainnet configuration used by the original deployment: the
/// canonical factory, wrapped ETH, and the USDT/USDC/BUSD/DAI stablecoins.
pub fn mainnet_config() -> (r: PricingConfig)
    ensures
        r.factory_address@ == seq![
            0x5cu8, 0x69, 0xbe, 0xe7, 0x01, 0xef, 0x81, 0x4a, 0x2b, 0x6a,
            0x3e, 0xdd, 0x4b, 0x16, 0x52, 0xcb, 0x9c, 0xc5, 0xaa, 0x6f,
        ],
        r.wrapped_native_address@ == "c02aaa39b223fe8d0a0e5c4f27ead9083c756cc2"@,
        r.stable_coins@.len() == 4,
        r.stable_coins@[0]@ == "dac17f958d2ee523a2206206994597c13d831ec7"@,
        r.stable_coins@[1]@ == "a0b86991c6218b36c1d19d4a2e9eb0ce3606eb48"@,
        r.stable_coins@[2]@ == "4fabb145d64652a948d72533023f6e7a623c7c53"@,
        r.stable_coins@[3]@ == "6b175474e89094c44da98b954eedeac495271d0f"@,
{
    let factory_address: Vec<u8> = vec![
        0x5cu8, 0x69, 0xbe, 0xe7, 0x01, 0xef, 0x81, 0x4a, 0x2b, 0x6a,
        0x3e, 0xdd, 0x4b, 0x16, 0x52, 0xcb, 0x9c, 0xc5, 0xaa, 0x6f,
    ];
    let wrapped_native_address = "c02aaa39b223fe8d0a0e5c4f27ead9083c756cc2".to_owned();
    let mut stable_coins: Vec<String> = Vec::new();
    stable_coins.push("dac17f958d2ee523a2206206994597c13d831ec7".to_owned());
    stable_coins.push("a0b86991c6218b36c1d19d4a2e9eb0ce3606eb48".to_owned());
    stable_coins.push("4fabb145d64652a948d72533023f6e7a623c7c53".to_owned());
    stable_coins.push("6b175474e89094c44da98b954eedeac495271d0f".to_owned());
    PricingConfig { factory_address, wrapped_native_address, stable_coins }
}

} // verus!
