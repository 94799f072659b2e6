//! A proof-of-existence claim registry: externally authenticated accounts
//! claim ownership of opaque byte strings, relinquish that ownership, or
//! transfer it to another account. For every claimed proof the registry
//! remembers exactly one owner and the block height at which ownership was
//! last established.

pub mod laws;
pub mod pallet;
pub mod store;
pub mod types;
