//! Event indexing for Substrate chains: the keys under which events are
//! stored, the subscriptions that are told of new events, and the
//! bookkeeping of the batch indexer.
pub mod bytes;
pub mod keys;
pub mod records;
pub mod indexer;
pub mod hex;
pub mod scale;
pub mod pallets;
pub mod batch;
pub mod metadata;
