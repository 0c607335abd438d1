//! Relay-chain header synchronisation: the walk that captures headers with
//! their finality proofs, the length-prefixed log that the captured bundles
//! are kept in, the replay of such a log into a key/value store, and the
//! addresses under which a cache serves the bundles. Beside it stands what
//! the contract runtime's extension decides on its own: keys and
//! signatures, limits on HTTP queries, and log levels; and the commands
//! that the bridge hands to the lottery.

pub mod client;
pub mod error;
pub mod extension;
pub mod framing;
pub mod import;
pub mod lottery;
pub mod store;
pub mod sync;
pub mod trace;
pub mod types;
