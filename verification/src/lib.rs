//! Backfill reconciliation and archival pipeline for a chain's canonical
//! block range: scanning an archive index for already-archived block numbers,
//! computing the missing set, encoding and compressing blocks, and preparing
//! tagged uploads and persistent archive records.
pub mod arweave_gql;
pub mod arweave_upload;
pub mod backfill;
pub mod block;
pub mod codec;
pub mod constants;
pub mod errors;
pub mod gap;
pub mod numeric;
pub mod planetscale;
pub mod tags;
pub mod wvm_client;
