//! A document database planned as data: hierarchical references
//! (domain, table, index, row) read the store through small capabilities and
//! answer with lists of effects, which a sink applies in order.
//!
//! - `value`, `key`, `entity`: what is stored: rows, keys, records.
//! - `key_order`, `byte_order`, `key_codec`: the order of keys and the bytes
//!   that keep it.
//! - `reference`: the references, their planners, the effects and the
//!   capabilities.
//! - `indexing`: the entry that a row has in an index.
//! - `store`: what effects do to a store; `sink`: what the engine is asked
//!   to do for an effect.
//! - `consistency`, `rebuild`, `cascade`, `lifecycle`: what the planned
//!   effects achieve when they are applied.
//! - `memory`: a store in memory.

pub mod byte_order;
pub mod cascade;
pub mod consistency;
pub mod entity;
pub mod error;
pub mod indexing;
pub mod key;
pub mod key_codec;
pub mod key_order;
pub mod lifecycle;
pub mod lookup;
pub mod memory;
pub mod rebuild;
pub mod reference;
pub mod sink;
pub mod store;
pub mod value;
