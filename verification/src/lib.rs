//! A verified record-keeping backend for a dairy-farm operation.
//!
//! The crate is organised around a persistent entity store: five keyed
//! collections (farms, animals, milk records, expenses, feed records)
//! sharing one monotonically increasing identifier space, with
//! referential-integrity enforcement and aggregate financial queries.
//! Entities are persisted as canonical byte encodings in stable
//! collections; the codec and every store operation carry full
//! functional contracts.

pub mod codec;
pub mod entities;
pub mod laws;
pub mod stable;
pub mod store;

pub use entities::{Animal, Expense, Farm, FeedRecord, MilkRecord, StoreError};
pub use store::EntityStore;
