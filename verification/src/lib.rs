//! Schema-driven marshalling and request building for a hash-key / sort-key
//! attribute store.
//!
//! A record is declared as a list of fields with role markers. From such a
//! declaration the crate derives a validated definition, converts values of
//! the record to and from the store's tagged wire values, builds the key maps,
//! key conditions and condition expressions that the store's requests take,
//! and describes the key schema that table creation needs.
//!
//! - `shape` classifies declared field types; `definition` builds and
//!   validates the definition of a root item or a nested record.
//! - `wire` and `value` hold what is stored and what is marshalled; `decimal`
//!   and `codec` convert between the two, and `marshal` does so for whole
//!   records.
//! - `key`, `query` and `put_item` are the staged builders of point lookups,
//!   range queries and conditional writes; `expression` is what they build.
//! - `item` describes the keys of a table; `table` makes the requests of a
//!   table and reads its answers; `tx` gathers the writes of a transaction.
//! - `driver` decides what is made for a declaration; `traits` is what a
//!   record type offers to be stored.
//!
//! Every function is total on the inputs that its contract admits: where a
//! value does not fit, the result says so.

pub mod codec;
pub mod decimal;
pub mod definition;
pub mod driver;
pub mod expression;
pub mod item;
pub mod key;
pub mod marshal;
pub mod put_item;
pub mod query;
pub mod shape;
pub mod table;
pub mod traits;
pub mod tx;
pub mod value;
pub mod wire;
