//! Peer liveness and message envelopes for a gossip network: signed gossip
//! records, the ping/pong challenge with its trust cache, the wire protocol
//! and the construction of pull requests.
//!
//! Keys, digests and signatures are plain byte arrays; times are
//! milliseconds; socket addresses are an IPv6 address (IPv4 ones mapped) as a
//! 128-bit integer with a port. Signing, hashing, randomness and the
//! least-recently-used caches come from solana_sdk, rand, bincode and lru,
//! behind small trusted wrappers that each name the call they rely on.

pub mod contact_info;
pub mod crypto;
pub mod gossip_data;
pub mod lru_model;
pub mod ping_pong;
pub mod process_message;
pub mod protocol;
pub mod pull_request;
pub mod reader;
pub mod wire;
