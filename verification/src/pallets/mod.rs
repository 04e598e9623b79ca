//! What the indexer records of the events of particular pallets.
pub mod collective;
pub mod session;
