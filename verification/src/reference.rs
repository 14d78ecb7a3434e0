//! References: stateless addresses of domains, tables, indexes and rows, with
//! the operations that read through capabilities and plan effects.

pub mod cf_name_maker;
pub mod column_value_reference;
pub mod domain_reference;
pub mod effect;
pub mod index_reference;
pub mod requests;
pub mod table_reference;
pub mod table_value_reference;
