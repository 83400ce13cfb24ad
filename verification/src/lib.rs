//! Incremental USD price derivation for ERC20 tokens traded on a
//! Uniswap-style exchange.
//!
//! The crate consumes a feed of decoded per-block events, discovers trading
//! pairs from factory creation events, extracts reserve updates from pair
//! contracts, and derives USD prices through a layered fallback of price
//! sources (direct stablecoin pairing, wrapped-native pairing combined with
//! an oracle rate), persisting everything in an ordinal-versioned key-value
//! store.

pub mod block;
pub mod constants;
pub mod decimal;
pub mod erc20;
pub mod pair_events;
pub mod store;
pub mod store_key_manager;
pub mod token;
pub mod uniswap_prices;
pub mod util;
pub mod warmup;
pub mod weth_prices;
