//! The table handle: the requests that it makes for the store, and what it
//! makes of the store's answers.

use crate::codec::{decode_fields, DecodeError};
use crate::definition::ItemDefinition;
use crate::expression::{Expression, ExpressionModel};
use crate::item::{
    attribute_definition_models, key_attribute_definitions_of, key_schema_models, key_schema_of,
    AttributeDefinition, KeySchemaElement,
};
use crate::key::{create_get_builder, key_of, key_option, sort_key_of, GetItem, GetItemHashKey};
use crate::marshal::{from_into_item_structure, ItemStructure};
use crate::put_item::{create_put_item_builder, expression_option, PutItem};
use crate::query::{create_query_builder, Query, QueryHashKey};
use crate::value::{value_models, Registry, Value, ValueModel};
use crate::wire::{EntryModel, WireMap};
use vstd::prelude::*;

verus! {

/// How a table is billed.
#[derive(Clone, Copy, Debug, PartialEq, Eq, Structural)]
pub enum BillingMode {
    /// By request.
    PayPerRequest,
}

/// The request to create a table.
#[derive(Debug, PartialEq, Eq)]
pub struct CreateTableRequest {
    pub table_name: String,
    pub key_schema: Vec<KeySchemaElement>,
    pub attribute_definitions: Vec<AttributeDefinition>,
    pub billing_mode: BillingMode,
}

/// The request to delete a table.
#[derive(Debug, PartialEq, Eq)]
pub struct DeleteTableRequest {
    pub table_name: String,
}

/// The request to look an item up by its key.
#[derive(Debug, PartialEq, Eq)]
pub struct GetItemRequest {
    pub table_name: String,
    pub key: WireMap,
}

/// The request to put an item, under a condition if one is given.
#[derive(Debug, PartialEq, Eq)]
pub struct PutItemRequest {
    pub table_name: String,
    pub item: WireMap,
    pub condition: Option<Expression>,
}

/// The request to query a table by a key condition.
#[derive(Debug, PartialEq, Eq)]
pub struct QueryRequest {
    pub table_name: String,
    pub key_condition: Expression,
}

/// The mathematical content of a request to put an item.
pub ghost struct PutItemModel {
    pub table_name: Seq<char>,
    pub item: Seq<EntryModel>,
    pub condition: Option<ExpressionModel>,
}

impl View for PutItemRequest {
    type V = PutItemModel;

    open spec fn view(&self) -> PutItemModel {
        PutItemModel {
            table_name: self.table_name@,
            item: self.item@,
            condition: expression_option(self.condition),
        }
    }
}

/// What the store says of a failed request, as far as the handle reads it.
#[derive(Clone, Copy, Debug, PartialEq, Eq, Structural)]
pub enum Failure {
    /// The table exists already.
    ResourceInUse,
    /// The table does not exist.
    ResourceNotFound,
    /// Anything else.
    Other,
}

/// The outcome of creating a table. That the table exists already counts as
/// success unless `err_if_exists` is set; every other failure is handed on
/// as it came.
pub fn settle_create<E>(err_if_exists: bool, outcome: Result<(), (Failure, E)>) -> (settled: Result<
    (),
    E,
>)
    ensures
        settled == match outcome {
            Ok(()) => Ok::<(), E>(()),
            Err((failure, e)) => if !err_if_exists && failure == Failure::ResourceInUse {
                Ok(())
            } else {
                Err(e)
            },
        },
{
    match outcome {
        Ok(()) => Ok(()),
        Err((failure, e)) => match failure {
            Failure::ResourceInUse => if err_if_exists {
                Err(e)
            } else {
                Ok(())
            },
            _ => Err(e),
        },
    }
}

/// The outcome of deleting a table. That the table does not exist counts as
/// success unless `err_if_not_exists` is set; every other failure is handed
/// on as it came.
pub fn settle_delete<E>(err_if_not_exists: bool, outcome: Result<(), (Failure, E)>) -> (settled:
    Result<(), E>)
    ensures
        settled == match outcome {
            Ok(()) => Ok::<(), E>(()),
            Err((failure, e)) => if !err_if_not_exists && failure == Failure::ResourceNotFound {
                Ok(())
            } else {
                Err(e)
            },
        },
{
    match outcome {
        Ok(()) => Ok(()),
        Err((failure, e)) => match failure {
            Failure::ResourceNotFound => if err_if_not_exists {
                Err(e)
            } else {
                Ok(())
            },
            _ => Err(e),
        },
    }
}

/// The handle of a table of items of one definition.
#[derive(Debug, PartialEq, Eq)]
pub struct Table {
    pub table_name: String,
    pub item: ItemDefinition,
    pub structure: ItemStructure,
}

/// Makes the handle of the table `table_name` of items of the definition.
pub fn create_table(table_name: String, item: ItemDefinition) -> (table: Table)
    ensures
        table.table_name@ == table_name@,
        table.item == item,
        table.structure@ == item@.all_attributes(),
{
    let structure = from_into_item_structure(&item);
    Table { table_name, item, structure }
}

/// The content of the outcome of reading one item.
pub open spec fn found_item(outcome: Result<Option<Vec<Value>>, DecodeError>) -> Result<
    Option<Seq<ValueModel>>,
    DecodeError,
> {
    match outcome {
        Ok(Some(fields)) => Ok(Some(value_models(fields@))),
        Ok(None) => Ok(None),
        Err(e) => Err(e),
    }
}

impl Table {
    /// The handle is that of an item whose keys are scalars.
    pub open spec fn well_formed(self) -> bool {
        self.item@.valid()
    }

    /// The request that creates the table: the item's key schema and key
    /// attribute definitions, billed by request.
    pub fn create(&self) -> (request: CreateTableRequest)
        requires
            self.well_formed(),
        ensures
            request.table_name@ == self.table_name@,
            key_schema_models(request.key_schema@) == key_schema_of(self.item@),
            attribute_definition_models(request.attribute_definitions@)
                == key_attribute_definitions_of(self.item@),
            request.billing_mode == BillingMode::PayPerRequest,
    {
        CreateTableRequest {
            table_name: self.table_name.clone(),
            key_schema: self.item.key_schemas(),
            attribute_definitions: self.item.key_attribute_definitions(),
            billing_mode: BillingMode::PayPerRequest,
        }
    }

    /// The request that deletes the table.
    pub fn delete(&self) -> (request: DeleteTableRequest)
        ensures
            request.table_name@ == self.table_name@,
    {
        DeleteTableRequest { table_name: self.table_name.clone() }
    }

    /// Starts the key of a point lookup.
    pub fn get(&self) -> (builder: GetItemHashKey)
        requires
            self.well_formed(),
        ensures
            builder.hash_key@ == key_of(self.item@.hash_key),
            key_option(builder.sort_key) == sort_key_of(self.item@),
    {
        create_get_builder(&self.item)
    }

    /// The request that looks an item up by its key.
    pub fn get_item(&self, key: GetItem) -> (request: GetItemRequest)
        ensures
            request.table_name@ == self.table_name@,
            request.key@ == key.key_map(),
    {
        GetItemRequest { table_name: self.table_name.clone(), key: key.into_key() }
    }

    /// What a point lookup found: the values of the item that the store
    /// returned, none where it returned no item, or the first reason why
    /// the returned map is no item.
    pub fn found(&self, item: Option<&WireMap>, registry: &Registry) -> (outcome: Result<
        Option<Vec<Value>>,
        DecodeError,
    >)
        ensures
            found_item(outcome) == match item {
                Some(map) => match decode_fields(
                    map@,
                    self.structure@,
                    registry@,
                    self.structure@.len(),
                ) {
                    Ok(fields) => Ok::<Option<Seq<ValueModel>>, DecodeError>(Some(fields)),
                    Err(e) => Err(e),
                },
                None => Ok(None),
            },
    {
        match item {
            Some(map) => match self.structure.from_map(map, registry) {
                Ok(fields) => Ok(Some(fields)),
                Err(e) => Err(e),
            },
            None => Ok(None),
        }
    }

    /// Starts a write.
    pub fn put(&self) -> (builder: PutItem)
        ensures
            builder.structure@ == self.item@.all_attributes(),
            builder.i is None,
            builder.condition is None,
    {
        create_put_item_builder(&self.item)
    }

    /// The request that puts the item of a write, with the condition only
    /// where one was set. The result is `None` exactly where no item was set.
    pub fn put_item(&self, put: PutItem) -> (request: Option<PutItemRequest>)
        ensures
            request is Some <==> put.i is Some,
            match request {
                Some(r) => r@ == PutItemModel {
                    table_name: self.table_name@,
                    item: put.i.unwrap()@,
                    condition: expression_option(put.condition),
                },
                None => true,
            },
    {
        match put.i {
            Some(item) => Some(
                PutItemRequest {
                    table_name: self.table_name.clone(),
                    item,
                    condition: put.condition,
                },
            ),
            None => None,
        }
    }

    /// Starts a query.
    pub fn query(&self) -> (builder: QueryHashKey)
        requires
            self.well_formed(),
        ensures
            builder.hash_key@ == key_of(self.item@.hash_key),
            key_option(builder.sort_key) == sort_key_of(self.item@),
    {
        create_query_builder(&self.item)
    }

    /// The request that runs a query.
    pub fn query_ext(&self, q: Query) -> (request: QueryRequest)
        ensures
            request.table_name@ == self.table_name@,
            request.key_condition@ == q@.parts(),
    {
        QueryRequest { table_name: self.table_name.clone(), key_condition: q.into_parts() }
    }
}

} // verus!
