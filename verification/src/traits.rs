//! What a record type offers to be stored.

use crate::item::{AttributeDefinition, KeySchemaElement};
use crate::wire::WireMap;
use vstd::prelude::*;

verus! {

/// A record type that can stand inside another record: it converts to the
/// map of its attributes and back.
pub trait NestedItem: Sized {
    /// The record that a map of attributes stands for, if it stands for one.
    fn from_map(map: &WireMap) -> Option<Self>;

    /// The map of the record's attributes.
    fn into_map(self) -> WireMap;
}

/// A record type that a table stores: a nested item with keys.
pub trait Item: NestedItem {
    /// The key schema of the record type.
    fn key_schemas() -> Vec<KeySchemaElement>;

    /// The attribute definitions of the record type's keys.
    fn key_attribute_definitions() -> Vec<AttributeDefinition>;
}

} // verus!
