//! A verified record-keeping core: a durable key-value storage and
//! identity-allocation layer for a ledger of debts, escrows against debts,
//! crop-insurance policies, and insurance claims.
//!
//! The storage backend partitions one durable byte store into independent
//! logical regions; each entity table is an ordered map from a 64-bit id to
//! one record, serialized through a bounded codec, and a single persisted
//! counter mints ids that are unique across all entity kinds.

pub mod codec;
pub mod counter;
pub mod entities;
pub mod ledger;
pub mod storage;
pub mod table;
