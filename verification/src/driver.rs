//! The driver: what is made for a declaration, and under which names.

use crate::definition::{
    build_item, build_nested, AttributeModel, DeclModel, DefinitionError, DefinitionModel,
    ItemDefinition, RecordDecl,
};
use crate::item::{
    attribute_definition_models, create_item, create_nested_item, key_attribute_definitions_of,
    key_schema_models, key_schema_of, ItemSchema,
};
use crate::marshal::ItemStructure;
use crate::shape::name_is;
use vstd::prelude::*;

verus! {

/// What a declaration asks for.
#[derive(Clone, Copy, Debug, PartialEq, Eq, Structural)]
pub enum Request {
    /// A root item.
    Item,
    /// A root item and the handle of its table.
    ItemWithTable,
    /// A nested record.
    NestedItem,
}

/// Whether one of the words is `word`.
pub open spec fn has_word(words: Seq<String>, word: Seq<char>) -> bool {
    exists|i: int| 0 <= i < words.len() && (#[trigger] words[i])@ == word
}

/// Whether every word is one of `item`, `table` and `nested_item`.
pub open spec fn known_words(words: Seq<String>) -> bool {
    forall|i: int|
        0 <= i < words.len() ==> (#[trigger] words[i])@ == "item"@ || words[i]@ == "table"@
            || words[i]@ == "nested_item"@
}

/// What the words on a declaration ask for: `item` a root item, `item` with
/// `table` also the handle of its table, `nested_item` a nested record. Any
/// other word, `table` without `item`, `nested_item` beside another word,
/// and no word at all ask for nothing.
pub open spec fn request_of(words: Seq<String>) -> Option<Request> {
    if !known_words(words) {
        None
    } else if has_word(words, "nested_item"@) {
        if has_word(words, "item"@) || has_word(words, "table"@) {
            None
        } else {
            Some(Request::NestedItem)
        }
    } else if has_word(words, "item"@) {
        if has_word(words, "table"@) {
            Some(Request::ItemWithTable)
        } else {
            Some(Request::Item)
        }
    } else {
        None
    }
}

/// What the words on a declaration ask for.
pub fn request(words: &Vec<String>) -> (asked: Option<Request>)
    ensures
        asked == request_of(words@),
{
    let mut item = false;
    let mut table = false;
    let mut nested_item = false;
    let mut i: usize = 0;
    while i < words.len()
        invariant
            i <= words@.len(),
            known_words(words@.take(i as int)),
            item == has_word(words@.take(i as int), "item"@),
            table == has_word(words@.take(i as int), "table"@),
            nested_item == has_word(words@.take(i as int), "nested_item"@),
        decreases words@.len() - i,
    {
        let ghost before = words@.take(i as int);
        let ghost after = words@.take(i + 1);
        proof {
            reveal_strlit("item");
            reveal_strlit("table");
            reveal_strlit("nested_item");
            assert("item"@.len() == 4 && "table"@.len() == 5 && "nested_item"@.len() == 11);
            assert(after[i as int] == words@[i as int]);
            assert forall|k: int| 0 <= k < i implies after[k] == before[k] by {}
        }
        let is_item = name_is(&words[i], "item");
        let is_table = name_is(&words[i], "table");
        let is_nested = name_is(&words[i], "nested_item");
        if !(is_item || is_table || is_nested) {
            proof {
                assert(words@[i as int]@ != "item"@);
            }
            return None;
        }
        proof {
            assert forall|word: Seq<char>|
                has_word(after, word) == (has_word(before, word) || words@[i as int]@
                    == word) by {
                if has_word(before, word) {
                    let k = choose|k: int| 0 <= k < before.len() && (#[trigger] before[k])@ == word;
                    assert(after[k]@ == word);
                }
                if words@[i as int]@ == word {
                    assert(after[i as int]@ == word);
                }
                if has_word(after, word) {
                    let k = choose|k: int| 0 <= k < after.len() && (#[trigger] after[k])@ == word;
                    if k < i {
                        assert(before[k]@ == word);
                    }
                }
            }
            assert forall|k: int| 0 <= k < after.len() implies (#[trigger] after[k])@ == "item"@
                || after[k]@ == "table"@ || after[k]@ == "nested_item"@ by {
                if k < i {
                    assert(before[k] == after[k]);
                }
            }
        }
        item = item || is_item;
        table = table || is_table;
        nested_item = nested_item || is_nested;
        i += 1;
    }
    proof {
        assert(words@.take(words@.len() as int) =~= words@);
    }
    if nested_item {
        if item || table {
            None
        } else {
            Some(Request::NestedItem)
        }
    } else if item {
        if table {
            Some(Request::ItemWithTable)
        } else {
            Some(Request::Item)
        }
    } else {
        None
    }
}

/// The names of the types that stand beside a root item `Car`: `CarTable`,
/// `CarQuery` and so on.
#[derive(Debug, PartialEq, Eq)]
pub struct TypeNames {
    pub table: String,
    pub query: String,
    pub query_hash_key: String,
    pub query_sort_key: String,
    pub get_item: String,
    pub get_item_hash_key: String,
    pub get_item_sort_key: String,
    pub put_item: String,
    pub put_item_condition: String,
}

/// A name followed by a word.
fn suffixed(item: &str, word: &str) -> (name: String)
    ensures
        name@ == item@ + word@,
{
    let mut name = String::from_str(item);
    name.append(word);
    name
}

impl TypeNames {
    /// Each name is the name of the item followed by the word of its type.
    pub open spec fn named_after(self, item: Seq<char>) -> bool {
        &&& self.table@ == item + "Table"@
        &&& self.query@ == item + "Query"@
        &&& self.query_hash_key@ == item + "QueryHashKey"@
        &&& self.query_sort_key@ == item + "QuerySortKey"@
        &&& self.get_item@ == item + "GetItem"@
        &&& self.get_item_hash_key@ == item + "GetItemHashKey"@
        &&& self.get_item_sort_key@ == item + "GetItemSortKey"@
        &&& self.put_item@ == item + "PutItem"@
        &&& self.put_item_condition@ == item + "PutItemCondition"@
    }
}

/// The names of the types that stand beside the root item `item`.
pub fn type_names(item: &str) -> (names: TypeNames)
    ensures
        names.named_after(item@),
{
    TypeNames {
        table: suffixed(item, "Table"),
        query: suffixed(item, "Query"),
        query_hash_key: suffixed(item, "QueryHashKey"),
        query_sort_key: suffixed(item, "QuerySortKey"),
        get_item: suffixed(item, "GetItem"),
        get_item_hash_key: suffixed(item, "GetItemHashKey"),
        get_item_sort_key: suffixed(item, "GetItemSortKey"),
        put_item: suffixed(item, "PutItem"),
        put_item_condition: suffixed(item, "PutItemCondition"),
    }
}

/// The name of the method that compares the field `field` in a condition:
/// `hp_eq` for the field `hp`.
pub fn eq_method_name(field: &str) -> (name: String)
    ensures
        name@ == field@ + "_eq"@,
{
    suffixed(field, "_eq")
}

/// What is made for a declaration.
#[derive(Debug, PartialEq, Eq)]
pub enum Generated {
    /// For a root item: its definition, its marshalling structure and the
    /// schema of its keys; with the names of the types of its table, where
    /// the handle of the table was asked for.
    Item { schema: ItemSchema, definition: ItemDefinition, table: Option<TypeNames> },
    /// For a nested record: its marshalling structure.
    NestedItem { structure: ItemStructure },
}

/// Makes what a declaration asks for, or reports the first rule that the
/// declaration breaks.
pub fn generate(decl: &RecordDecl, request: Request) -> (outcome: Result<
    Generated,
    DefinitionError,
>)
    ensures
        generated(outcome, decl@, request),
{
    match request {
        Request::NestedItem => match create_nested_item(decl) {
            Ok(structure) => Ok(Generated::NestedItem { structure }),
            Err(e) => Err(e),
        },
        Request::Item => match create_item(decl) {
            Ok((schema, definition)) => Ok(Generated::Item { schema, definition, table: None }),
            Err(e) => Err(e),
        },
        Request::ItemWithTable => match create_item(decl) {
            Ok((schema, definition)) => {
                let names = type_names(decl.name.as_str());
                Ok(Generated::Item { schema, definition, table: Some(names) })
            },
            Err(e) => Err(e),
        },
    }
}

/// What `generate` owes for a declaration and a request.
pub open spec fn generated(
    outcome: Result<Generated, DefinitionError>,
    decl: DeclModel,
    request: Request,
) -> bool {
    match outcome {
        Ok(Generated::Item { schema, definition, table }) => {
            &&& request != Request::NestedItem
            &&& build_item(decl) == Ok::<DefinitionModel, DefinitionError>(definition@)
            &&& definition@.valid()
            &&& schema.structure@ == definition@.all_attributes()
            &&& key_schema_models(schema.key_schemas@) == key_schema_of(definition@)
            &&& attribute_definition_models(schema.key_attribute_definitions@)
                == key_attribute_definitions_of(definition@)
            &&& table is Some <==> request == Request::ItemWithTable
            &&& table is Some ==> table.unwrap().named_after(decl.name)
        },
        Ok(Generated::NestedItem { structure }) => {
            &&& request == Request::NestedItem
            &&& build_nested(decl) == Ok::<Seq<AttributeModel>, DefinitionError>(structure@)
        },
        Err(e) => if request == Request::NestedItem {
            build_nested(decl) == Err::<Seq<AttributeModel>, DefinitionError>(e)
        } else {
            build_item(decl) == Err::<DefinitionModel, DefinitionError>(e)
        },
    }
}

/// Makes what the declaration of a root item needs.
pub fn item(decl: &RecordDecl) -> (outcome: Result<Generated, DefinitionError>)
    ensures
        generated(outcome, decl@, Request::Item),
{
    generate(decl, Request::Item)
}

/// Makes what the declaration of a nested record needs.
pub fn nested_item(decl: &RecordDecl) -> (outcome: Result<Generated, DefinitionError>)
    ensures
        generated(outcome, decl@, Request::NestedItem),
{
    generate(decl, Request::NestedItem)
}

/// Makes what the declaration of a root item with the handle of its table
/// needs.
pub fn table(decl: &RecordDecl) -> (outcome: Result<Generated, DefinitionError>)
    ensures
        generated(outcome, decl@, Request::ItemWithTable),
{
    generate(decl, Request::ItemWithTable)
}

} // verus!
