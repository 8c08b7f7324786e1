//! Brute-force search for program derived addresses whose base-58 text starts
//! with a chosen prefix.
//!
//! - `partition`: starting seeds of parallel workers.
//! - `preimage`: the fixed 62-byte buffer that is hashed.
//! - `primitives`: SHA-256, the curve test, base-58 and randomness.
//! - `address`: the canonical bump scan.
//! - `encoding`: prefix matching and the match log line.
//! - `search`: a worker's walk over its seeds, and progress totals.
//! - `cli`: the tool's commands and key parsing.
pub mod address;
pub mod cli;
pub mod encoding;
pub mod partition;
pub mod preimage;
pub mod primitives;
pub mod search;
