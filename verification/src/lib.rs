//! Client-side pipeline for a certificate registry kept on a distributed
//! ledger: state addresses, signed transactions and batches, their wire
//! encoding, the submission request and the commit-status poller.

pub mod addressing;
pub mod dates;
pub mod digest;
pub mod error;
pub mod footprint;
pub mod hex;
pub mod input;
pub mod messages;
pub mod nonce;
pub mod submit;
pub mod transaction;
pub mod wire;
