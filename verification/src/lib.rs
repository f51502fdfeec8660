//! A load-generation harness for a blockchain node's JSON-RPC endpoint:
//! nonce bookkeeping across many wallets, batched dispatch planning,
//! JSON-RPC request construction, response classification, and
//! throughput reporting.

pub mod crypto;
pub mod nonce;
pub mod numfmt;
pub mod plan;
pub mod results;
pub mod rpc;
pub mod wallets;
