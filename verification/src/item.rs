//! What table creation needs to know of a root item: the schema of its keys.

use crate::definition::{
    build_item, build_nested, is_marked, lemma_keys_are_marked, AttributeModel, DeclModel,
    DefinitionError, DefinitionModel, ItemAttribute, ItemDefinition, NestedItemDefinition,
    RecordDecl,
};
use crate::marshal::{from_into_item_structure, ItemStructure};
use crate::shape::{ScalarAttributeType, ShapeModel};
use vstd::prelude::*;

verus! {

/// The role of a key attribute in a table.
#[derive(Clone, Copy, Debug, PartialEq, Eq, Structural)]
pub enum KeyType {
    /// The hash key.
    Hash,
    /// The sort key.
    Range,
}

/// One element of a table's key schema: a key attribute and its role.
#[derive(Debug, PartialEq, Eq)]
pub struct KeySchemaElement {
    pub attribute_name: String,
    pub key_type: KeyType,
}

/// The attribute type of a key attribute.
#[derive(Debug, PartialEq, Eq)]
pub struct AttributeDefinition {
    pub attribute_name: String,
    pub attribute_type: ScalarAttributeType,
}

/// The mathematical content of a key schema element.
pub ghost struct KeySchemaModel {
    pub attribute_name: Seq<char>,
    pub key_type: KeyType,
}

/// The mathematical content of an attribute definition.
pub ghost struct AttributeDefinitionModel {
    pub attribute_name: Seq<char>,
    pub attribute_type: ScalarAttributeType,
}

impl View for KeySchemaElement {
    type V = KeySchemaModel;

    open spec fn view(&self) -> KeySchemaModel {
        KeySchemaModel { attribute_name: self.attribute_name@, key_type: self.key_type }
    }
}

impl View for AttributeDefinition {
    type V = AttributeDefinitionModel;

    open spec fn view(&self) -> AttributeDefinitionModel {
        AttributeDefinitionModel {
            attribute_name: self.attribute_name@,
            attribute_type: self.attribute_type,
        }
    }
}

/// The contents of a key schema.
pub open spec fn key_schema_models(schema: Seq<KeySchemaElement>) -> Seq<KeySchemaModel> {
    Seq::new(schema.len(), |i: int| schema[i]@)
}

/// The contents of a list of attribute definitions.
pub open spec fn attribute_definition_models(definitions: Seq<AttributeDefinition>) -> Seq<
    AttributeDefinitionModel,
> {
    Seq::new(definitions.len(), |i: int| definitions[i]@)
}

/// The attribute type of a key attribute: that of its scalar kind.
pub open spec fn key_attribute_type(attribute: AttributeModel) -> ScalarAttributeType {
    match attribute.shape() {
        ShapeModel::Scalar(kind) => kind.attribute_type(),
        _ => ScalarAttributeType::S,
    }
}

/// The key schema of an item: the hash key, then the sort key if there is
/// one, whatever the order of their declaration.
pub open spec fn key_schema_of(item: DefinitionModel) -> Seq<KeySchemaModel> {
    let hash = seq![
        KeySchemaModel { attribute_name: item.hash_key.attr_name, key_type: KeyType::Hash },
    ];
    match item.sort_key {
        Some(key) => hash.push(
            KeySchemaModel { attribute_name: key.attr_name, key_type: KeyType::Range },
        ),
        None => hash,
    }
}

/// The attribute definitions of the keys of an item: that of the hash key,
/// then that of the sort key if there is one.
pub open spec fn key_attribute_definitions_of(item: DefinitionModel) -> Seq<
    AttributeDefinitionModel,
> {
    let hash = seq![
        AttributeDefinitionModel {
            attribute_name: item.hash_key.attr_name,
            attribute_type: key_attribute_type(item.hash_key),
        },
    ];
    match item.sort_key {
        Some(key) => hash.push(
            AttributeDefinitionModel {
                attribute_name: key.attr_name,
                attribute_type: key_attribute_type(key),
            },
        ),
        None => hash,
    }
}

/// The attribute type of a key attribute.
fn attribute_type(attribute: &ItemAttribute) -> (kind: ScalarAttributeType)
    requires
        attribute@.is_scalar(),
    ensures
        kind == key_attribute_type(attribute@),
{
    match attribute.scalar_type() {
        Some(kind) => kind,
        None => ScalarAttributeType::S,
    }
}

impl ItemDefinition {
    /// The key schema of the item: the hash key, then the sort key if there
    /// is one.
    pub fn key_schemas(&self) -> (schema: Vec<KeySchemaElement>)
        ensures
            key_schema_models(schema@) == key_schema_of(self@),
    {
        let mut schema: Vec<KeySchemaElement> = Vec::new();
        schema.push(
            KeySchemaElement {
                attribute_name: self.hash_key.attr_name.clone(),
                key_type: KeyType::Hash,
            },
        );
        match &self.sort_key {
            Some(key) => {
                schema.push(
                    KeySchemaElement {
                        attribute_name: key.attr_name.clone(),
                        key_type: KeyType::Range,
                    },
                );
            },
            None => {},
        }
        proof {
            assert(key_schema_models(schema@) =~= key_schema_of(self@));
        }
        schema
    }

    /// The attribute definitions of the item's keys: that of the hash key,
    /// then that of the sort key if there is one.
    pub fn key_attribute_definitions(&self) -> (definitions: Vec<AttributeDefinition>)
        requires
            self@.valid(),
        ensures
            attribute_definition_models(definitions@) == key_attribute_definitions_of(self@),
    {
        let mut definitions: Vec<AttributeDefinition> = Vec::new();
        definitions.push(
            AttributeDefinition {
                attribute_name: self.hash_key.attr_name.clone(),
                attribute_type: attribute_type(&self.hash_key),
            },
        );
        match &self.sort_key {
            Some(key) => {
                definitions.push(
                    AttributeDefinition {
                        attribute_name: key.attr_name.clone(),
                        attribute_type: attribute_type(key),
                    },
                );
            },
            None => {},
        }
        proof {
            assert(attribute_definition_models(definitions@) =~= key_attribute_definitions_of(
                self@,
            ));
        }
        definitions
    }
}

/// What is made for a root item besides its definition: the structure by
/// which its values are marshalled, and the schema of its keys.
#[derive(Debug, PartialEq, Eq)]
pub struct ItemSchema {
    pub structure: ItemStructure,
    pub key_schemas: Vec<KeySchemaElement>,
    pub key_attribute_definitions: Vec<AttributeDefinition>,
}

/// The content of the outcome of `create_item`.
pub open spec fn created_item(
    outcome: Result<(ItemSchema, ItemDefinition), DefinitionError>,
) -> Result<DefinitionModel, DefinitionError> {
    match outcome {
        Ok((_, definition)) => Ok(definition@),
        Err(e) => Err(e),
    }
}

/// Makes the definition of the root item that `decl` declares, with its
/// marshalling structure and the schema of its keys, or reports the first
/// rule that the declaration breaks.
pub fn create_item(decl: &RecordDecl) -> (outcome: Result<
    (ItemSchema, ItemDefinition),
    DefinitionError,
>)
    ensures
        created_item(outcome) == build_item(decl@),
        match outcome {
            Ok((schema, definition)) => {
                &&& definition@.valid()
                &&& schema.structure@ == definition@.all_attributes()
                &&& key_schema_models(schema.key_schemas@) == key_schema_of(definition@)
                &&& attribute_definition_models(schema.key_attribute_definitions@)
                    == key_attribute_definitions_of(definition@)
            },
            Err(_) => true,
        },
{
    match ItemDefinition::new(decl) {
        Ok(definition) => {
            let schema = ItemSchema {
                structure: from_into_item_structure(&definition),
                key_schemas: definition.key_schemas(),
                key_attribute_definitions: definition.key_attribute_definitions(),
            };
            Ok((schema, definition))
        },
        Err(e) => Err(e),
    }
}

/// The content of the outcome of `create_nested_item`.
pub open spec fn created_nested(outcome: Result<ItemStructure, DefinitionError>) -> Result<
    Seq<AttributeModel>,
    DefinitionError,
> {
    match outcome {
        Ok(structure) => Ok(structure@),
        Err(e) => Err(e),
    }
}

/// Makes the marshalling structure of the nested record that `decl`
/// declares, or reports the first rule that the declaration breaks.
pub fn create_nested_item(decl: &RecordDecl) -> (outcome: Result<ItemStructure, DefinitionError>)
    ensures
        created_nested(outcome) == build_nested(decl@),
{
    match NestedItemDefinition::new(decl) {
        Ok(definition) => Ok(ItemStructure { attributes: definition.attributes }),
        Err(e) => Err(e),
    }
}

/// Order of the keys: the key schema and the key attribute definitions of
/// an item with a sort key list the hash key first and the sort key second.
pub proof fn lemma_key_order(item: DefinitionModel)
    requires
        item.sort_key is Some,
    ensures
        key_schema_of(item) == seq![
            KeySchemaModel { attribute_name: item.hash_key.attr_name, key_type: KeyType::Hash },
            KeySchemaModel {
                attribute_name: item.sort_key.unwrap().attr_name,
                key_type: KeyType::Range,
            },
        ],
        key_attribute_definitions_of(item).len() == 2,
        key_attribute_definitions_of(item)[0].attribute_name == item.hash_key.attr_name,
        key_attribute_definitions_of(item)[1].attribute_name == item.sort_key.unwrap().attr_name,
{
    assert(key_schema_of(item) =~= seq![
        KeySchemaModel { attribute_name: item.hash_key.attr_name, key_type: KeyType::Hash },
        KeySchemaModel {
            attribute_name: item.sort_key.unwrap().attr_name,
            key_type: KeyType::Range,
        },
    ]);
}

/// Order of the keys in a declaration: whatever the order in which the
/// fields are declared, the first element of the key schema is a field
/// marked as hash key, and the second, if there is one, a field marked as
/// sort key.
pub proof fn lemma_key_order_of_declaration(decl: DeclModel)
    requires
        build_item(decl) is Ok,
    ensures
        exists|i: int|
            0 <= i < decl.fields.len() && is_marked(#[trigger] decl.fields[i], "hash_key"@)
                && decl.fields[i].ident == build_item(decl).unwrap().hash_key.ident,
        build_item(decl).unwrap().sort_key is Some ==> exists|i: int|
            0 <= i < decl.fields.len() && is_marked(#[trigger] decl.fields[i], "sort_key"@)
                && decl.fields[i].ident == build_item(decl).unwrap().sort_key.unwrap().ident,
        key_schema_of(build_item(decl).unwrap())[0].key_type == KeyType::Hash,
        key_schema_of(build_item(decl).unwrap())[0].attribute_name == build_item(
            decl,
        ).unwrap().hash_key.attr_name,
{
    lemma_keys_are_marked(decl.fields, decl.fields.len());
}

} // verus!
