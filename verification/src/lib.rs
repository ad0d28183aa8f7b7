//! AOXC core: identity, protocol, mempool, receipts and state primitives.

pub mod asset;
pub mod block;
pub mod crypto;
pub mod identity;
pub mod mempool;
pub mod native_token;
pub mod platform;
pub mod protocol;
pub mod receipts;
pub mod state;
pub mod text;
pub mod transaction;
pub mod version;
