//! The decoded per-block input that the pipeline consumes.
//!
//! Signature matching and ABI-level decoding of raw logs, and the RPC calls
//! that fetch token metadata, happen in the surrounding feed; the pipeline
//! receives each log with its decode outcome (a closed tagged variant, absent
//! on signature mismatch) and, for pair-creation events, the raw metadata
//! responses for both token addresses.

use vstd::prelude::*;

verus! {

/// The raw responses of one batched metadata call for a single token
/// address. Strict ABI decoding happens in the feed; each field carries the
/// strict decode outcome together with the raw response bytes, so the
/// resolver can apply its raw-bytes fallback.
pub struct TokenMetadataResponses {
    /// Strict decode of the `name()` call, absent on ABI mismatch.
    pub name_decoded: Option<String>,
    /// Raw bytes of the `name()` response.
    pub name_raw: Vec<u8>,
    /// Strict decode of the `symbol()` call, absent on ABI mismatch.
    pub symbol_decoded: Option<String>,
    /// Raw bytes of the `symbol()` response.
    pub symbol_raw: Vec<u8>,
    /// Strict decode of the `decimals()` call, absent on ABI mismatch.
    pub decimals_decoded: Option<u64>,
}

/// A decoded factory pair-creation event.
pub struct PairCreatedEvent {
    /// 20-byte address of the first token.
    pub token0: Vec<u8>,
    /// 20-byte address of the second token.
    pub token1: Vec<u8>,
    /// 20-byte address of the new pair contract.
    pub pair: Vec<u8>,
    /// Metadata responses for `token0`; absent if the whole batched call
    /// failed.
    pub token0_responses: Option<TokenMetadataResponses>,
    /// Metadata responses for `token1`; absent if the whole batched call
    /// failed.
    pub token1_responses: Option<TokenMetadataResponses>,
}

/// A decoded pair-contract reserves-synced event. Raw reserves are the
/// on-chain unsigned values (at most 112 bits wide).
pub struct SyncEvent {
    pub reserve0: u128,
    pub reserve1: u128,
}

/// The decode outcome for one log.
pub enum EventPayload {
    PairCreated(PairCreatedEvent),
    Sync(SyncEvent),
}

/// One log of a block, with its decode outcome.
pub struct LogRecord {
    /// 20-byte address of the emitting contract.
    pub address: Vec<u8>,
    /// Hex-rendered hash of the enclosing transaction.
    pub tx_hash: String,
    /// Index of the log within the block.
    pub block_index: u32,
    /// Position of the event in the block's total write order.
    pub ordinal: u64,
    /// Decode outcome; absent when no tracked event signature matched.
    pub event: Option<EventPayload>,
}

/// One block's worth of logs, in block order (receipts flattened).
pub struct Block {
    pub number: u64,
    /// Seconds part of the block's timestamp.
    pub timestamp: u64,
    pub logs: Vec<LogRecord>,
}

} // verus!
