use aymond::definition::{
    build, strip_markers, DefinitionError, FieldDecl, ItemDefinition, Marker, RecordDecl,
    RecordDefinition,
};
use aymond::driver::{
    eq_method_name, generate, item, nested_item, request, table, type_names, Generated, Request,
};
use aymond::shape::DeclaredType;
use aymond::value::Value;
use aymond::wire::WireValue;

fn words(list: &[&str]) -> Vec<String> {
    list.iter().map(|word| word.to_string()).collect()
}

fn car() -> RecordDecl {
    RecordDecl::new(
        "Car",
        vec![
            FieldDecl::new(
                "make",
                DeclaredType::simple("String"),
                vec![Marker::plain("doc"), Marker::plain("hash_key"), Marker::plain("serde")],
            ),
            FieldDecl::new(
                "model",
                DeclaredType::simple("String"),
                vec![Marker::plain("sort_key")],
            ),
            FieldDecl::new(
                "hp",
                DeclaredType::simple("i16"),
                vec![Marker::renamed("attribute", "horsepower"), Marker::plain("doc")],
            ),
        ],
    )
}

#[test]
fn words_ask_for_an_item_a_table_or_a_nested_item() {
    assert_eq!(request(&words(&["item"])), Some(Request::Item));
    assert_eq!(request(&words(&["item", "table"])), Some(Request::ItemWithTable));
    assert_eq!(request(&words(&["table", "item"])), Some(Request::ItemWithTable));
    assert_eq!(request(&words(&["item", "item"])), Some(Request::Item));
    assert_eq!(request(&words(&["nested_item"])), Some(Request::NestedItem));
}

#[test]
fn other_words_ask_for_nothing() {
    assert_eq!(request(&words(&[])), None);
    assert_eq!(request(&words(&["table"])), None);
    assert_eq!(request(&words(&["nested_item", "table"])), None);
    assert_eq!(request(&words(&["nested_item", "item"])), None);
    assert_eq!(request(&words(&["item", "index"])), None);
    assert_eq!(request(&words(&["Item"])), None);
}

#[test]
fn types_beside_an_item_are_named_after_it() {
    let names = type_names("Car");
    assert_eq!(names.table, "CarTable");
    assert_eq!(names.query, "CarQuery");
    assert_eq!(names.query_hash_key, "CarQueryHashKey");
    assert_eq!(names.query_sort_key, "CarQuerySortKey");
    assert_eq!(names.get_item, "CarGetItem");
    assert_eq!(names.get_item_hash_key, "CarGetItemHashKey");
    assert_eq!(names.get_item_sort_key, "CarGetItemSortKey");
    assert_eq!(names.put_item, "CarPutItem");
    assert_eq!(names.put_item_condition, "CarPutItemCondition");
    assert_eq!(eq_method_name("hp"), "hp_eq");
}

#[test]
fn generate_makes_an_item_with_or_without_table() {
    match generate(&car(), Request::Item).unwrap() {
        Generated::Item { schema, definition, table } => {
            assert_eq!(definition, ItemDefinition::new(&car()).unwrap());
            assert_eq!(schema.structure.attributes.len(), 3);
            assert_eq!(table, None);
        }
        other => panic!("made {:?}", other),
    }
    match generate(&car(), Request::ItemWithTable).unwrap() {
        Generated::Item { table, .. } => assert_eq!(table, Some(type_names("Car"))),
        other => panic!("made {:?}", other),
    }
}

#[test]
fn generate_makes_a_nested_item() {
    let decl = RecordDecl::new(
        "Production",
        vec![FieldDecl::new("began", DeclaredType::simple("i32"), vec![])],
    );
    match generate(&decl, Request::NestedItem).unwrap() {
        Generated::NestedItem { structure } => {
            assert_eq!(structure.attributes.len(), 1);
            assert_eq!(structure.attributes[0].attr_name, "began");
        }
        other => panic!("made {:?}", other),
    }
}

#[test]
fn generate_reports_the_broken_rule_of_what_was_asked() {
    assert_eq!(generate(&car(), Request::NestedItem), Err(DefinitionError::KeyInNestedItem));
    let decl = RecordDecl::new(
        "Production",
        vec![FieldDecl::new("began", DeclaredType::simple("i32"), vec![])],
    );
    assert_eq!(generate(&decl, Request::Item), Err(DefinitionError::MissingHashKey));
    assert_eq!(generate(&decl, Request::ItemWithTable), Err(DefinitionError::MissingHashKey));
}

#[test]
fn build_makes_a_root_item_or_a_nested_record() {
    match build(&car(), false).unwrap() {
        RecordDefinition::Root(definition) => {
            assert_eq!(definition.hash_key.ident, "make");
            assert!(definition.is_valid());
        }
        other => panic!("built {:?}", other),
    }
    let decl = RecordDecl::new(
        "Production",
        vec![FieldDecl::new("began", DeclaredType::simple("i32"), vec![])],
    );
    match build(&decl, true).unwrap() {
        RecordDefinition::Nested(definition) => assert_eq!(definition.attributes.len(), 1),
        other => panic!("built {:?}", other),
    }
    assert_eq!(build(&car(), true), Err(DefinitionError::KeyInNestedItem));
    assert_eq!(build(&decl, false), Err(DefinitionError::MissingHashKey));
}

#[test]
fn a_definition_made_by_hand_may_be_invalid() {
    let mut definition = ItemDefinition::new(&car()).unwrap();
    assert!(definition.is_valid());
    definition.hash_key.ty = DeclaredType::generic("Vec", DeclaredType::simple("String"));
    assert!(!definition.is_valid());
    let mut definition = ItemDefinition::new(&car()).unwrap();
    definition.sort_key.as_mut().unwrap().ty = DeclaredType::simple("Production");
    assert!(!definition.is_valid());
}

#[test]
fn stripping_takes_the_role_markers_off_a_root_item() {
    let emitted = strip_markers(car(), false);
    assert_eq!(emitted.name, "Car");
    assert_eq!(emitted.fields.len(), 3);
    assert_eq!(emitted.fields[0].markers, vec![Marker::plain("doc"), Marker::plain("serde")]);
    assert_eq!(emitted.fields[1].markers, vec![]);
    assert_eq!(emitted.fields[2].markers, vec![Marker::plain("doc")]);
    assert_eq!(emitted.fields[2].ident, "hp");
    assert_eq!(emitted.fields[2].ty, DeclaredType::simple("i16"));
}

#[test]
fn stripping_takes_only_the_attribute_marker_off_a_nested_record() {
    let emitted = strip_markers(car(), true);
    assert_eq!(
        emitted.fields[0].markers,
        vec![Marker::plain("doc"), Marker::plain("hash_key"), Marker::plain("serde")]
    );
    assert_eq!(emitted.fields[1].markers, vec![Marker::plain("sort_key")]);
    assert_eq!(emitted.fields[2].markers, vec![Marker::plain("doc")]);
}

#[test]
fn key_boxer_encodes_scalar_attributes_only() {
    let decl = RecordDecl::new(
        "Car",
        vec![
            FieldDecl::new("make", DeclaredType::simple("String"), vec![Marker::plain("hash_key")]),
            FieldDecl::new("year", DeclaredType::simple("u16"), vec![Marker::plain("sort_key")]),
            FieldDecl::new(
                "variants",
                DeclaredType::generic("Vec", DeclaredType::simple("String")),
                vec![],
            ),
        ],
    );
    let item = ItemDefinition::new(&decl).unwrap();
    assert_eq!(
        item.hash_key.key_boxer_for(&Value::Text("Porsche".to_string())),
        Some(WireValue::S("Porsche".to_string()))
    );
    assert_eq!(
        item.sort_key.as_ref().unwrap().key_boxer_for(&Value::UInt(1964)),
        Some(WireValue::N("1964".to_string()))
    );
    assert_eq!(item.sort_key.as_ref().unwrap().key_boxer_for(&Value::Int(1964)), None);
    assert_eq!(item.other_attributes[0].key_boxer_for(&Value::List(vec![])), None);
}

#[test]
fn each_marker_has_its_entry_point() {
    assert_eq!(item(&car()), generate(&car(), Request::Item));
    assert_eq!(table(&car()), generate(&car(), Request::ItemWithTable));
    assert_eq!(nested_item(&car()), Err(DefinitionError::KeyInNestedItem));
}
