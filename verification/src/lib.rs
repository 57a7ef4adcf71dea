//! Assembly of a locally mined blockchain block.
//!
//! The crate turns the raw outputs of local transaction execution — a partial
//! header, signed transactions, their callers and transaction-scoped receipts,
//! uncle headers and optional withdrawals — into an immutable block whose
//! header roots, block hash and block-scoped receipts are all pinned down by
//! contracts.

pub mod block;
pub mod encoding;
pub mod hashing;
pub mod header;
pub mod receipt;
pub mod types;
