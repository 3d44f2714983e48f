use aymond::definition::{
    find_marker, rename, strips, DeclForm, DefinitionError, FieldDecl, ItemDefinition, Marker,
    MarkerOption, NestedItemDefinition, OptionValue, RecordDecl,
};
use aymond::shape::{DeclaredType, ScalarAttributeType, TypeShape};

fn string() -> DeclaredType {
    DeclaredType::simple("String")
}

fn car() -> RecordDecl {
    RecordDecl::new(
        "Car",
        vec![
            FieldDecl::new("hp", DeclaredType::simple("i16"), vec![]),
            FieldDecl::new("model", string(), vec![Marker::plain("sort_key")]),
            FieldDecl::new(
                "variants",
                DeclaredType::generic("Vec", string()),
                vec![Marker::plain("doc")],
            ),
            FieldDecl::new("make", string(), vec![Marker::plain("hash_key")]),
            FieldDecl::new("production", DeclaredType::simple("Production"), vec![]),
        ],
    )
}

#[test]
fn builds_keys_first_whatever_the_declaration_order() {
    let item = ItemDefinition::new(&car()).unwrap();
    assert_eq!(item.name, "Car");
    assert_eq!(item.hash_key.ident, "make");
    assert_eq!(item.sort_key.as_ref().unwrap().ident, "model");
    let others: Vec<&str> = item.other_attributes.iter().map(|a| a.ident.as_str()).collect();
    assert_eq!(others, vec!["hp", "variants", "production"]);
    let all: Vec<&str> = item.all_attributes().iter().map(|a| a.ident.as_str()).collect();
    assert_eq!(all, vec!["make", "model", "hp", "variants", "production"]);
}

#[test]
fn wire_name_defaults_to_the_field_name() {
    let item = ItemDefinition::new(&car()).unwrap();
    assert_eq!(item.hash_key.attr_name, "make");
    assert_eq!(item.other_attributes[0].attr_name, "hp");
}

#[test]
fn role_marker_renames_the_attribute() {
    let decl = RecordDecl::new(
        "Car",
        vec![
            FieldDecl::new("make", string(), vec![Marker::renamed("hash_key", "Make")]),
            FieldDecl::new("model", string(), vec![Marker::renamed("sort_key", "Model")]),
            FieldDecl::new(
                "count",
                DeclaredType::simple("i128"),
                vec![Marker::renamed("attribute", "Count")],
            ),
        ],
    );
    let item = ItemDefinition::new(&decl).unwrap();
    assert_eq!(item.hash_key.attr_name, "Make");
    assert_eq!(item.sort_key.unwrap().attr_name, "Model");
    assert_eq!(item.other_attributes[0].attr_name, "Count");
    assert_eq!(item.other_attributes[0].ident, "count");
}

#[test]
fn the_attribute_marker_renames_a_key_field() {
    let decl = RecordDecl::new(
        "T",
        vec![
            FieldDecl::new(
                "id",
                string(),
                vec![Marker::plain("hash_key"), Marker::renamed("attribute", "pk")],
            ),
            FieldDecl::new(
                "at",
                string(),
                vec![Marker::renamed("attribute", "sk"), Marker::plain("sort_key")],
            ),
            FieldDecl::new("n", DeclaredType::simple("i32"), vec![]),
        ],
    );
    let item = ItemDefinition::new(&decl).unwrap();
    assert_eq!(item.hash_key.ident, "id");
    assert_eq!(item.hash_key.attr_name, "pk");
    assert_eq!(item.sort_key.as_ref().unwrap().ident, "at");
    assert_eq!(item.sort_key.as_ref().unwrap().attr_name, "sk");
    assert_eq!(item.other_attributes[0].attr_name, "n");
    assert_eq!(item.key_schemas()[0].attribute_name, "pk");
    assert_eq!(item.key_schemas()[1].attribute_name, "sk");
}

#[test]
fn the_attribute_marker_names_the_attribute_before_the_role_marker() {
    let decl = RecordDecl::new(
        "Car",
        vec![
            FieldDecl::new(
                "make",
                string(),
                vec![Marker::renamed("attribute", "Brand"), Marker::renamed("hash_key", "Make")],
            ),
            FieldDecl::new(
                "model",
                string(),
                vec![Marker::renamed("sort_key", "Model"), Marker::plain("attribute")],
            ),
        ],
    );
    let item = ItemDefinition::new(&decl).unwrap();
    assert_eq!(item.hash_key.attr_name, "Brand");
    assert_eq!(item.sort_key.unwrap().attr_name, "Model");
}

#[test]
fn malformed_options_of_either_marker_are_rejected_on_a_key_field() {
    let number = |name: &str| Marker {
        name: name.to_string(),
        options: vec![MarkerOption { name: "name".to_string(), value: OptionValue::OtherLiteral }],
    };
    let call = |name: &str| Marker {
        name: name.to_string(),
        options: vec![MarkerOption { name: "name".to_string(), value: OptionValue::NotLiteral }],
    };
    let decl = RecordDecl::new(
        "Car",
        vec![FieldDecl::new(
            "make",
            string(),
            vec![Marker::renamed("hash_key", "Make"), number("attribute")],
        )],
    );
    assert_eq!(ItemDefinition::new(&decl), Err(DefinitionError::ExpectedString));
    let decl = RecordDecl::new(
        "Car",
        vec![FieldDecl::new(
            "make",
            string(),
            vec![Marker::renamed("attribute", "Make"), call("hash_key")],
        )],
    );
    assert_eq!(ItemDefinition::new(&decl), Err(DefinitionError::ExpectedLiteral));
    let decl = RecordDecl::new(
        "Car",
        vec![FieldDecl::new("make", string(), vec![number("attribute"), call("hash_key")])],
    );
    assert_eq!(ItemDefinition::new(&decl), Err(DefinitionError::ExpectedLiteral));
}

#[test]
fn two_hash_keys_are_rejected() {
    let decl = RecordDecl::new(
        "Car",
        vec![
            FieldDecl::new("make", string(), vec![Marker::plain("hash_key")]),
            FieldDecl::new("model", string(), vec![Marker::plain("hash_key")]),
        ],
    );
    assert_eq!(ItemDefinition::new(&decl), Err(DefinitionError::MultipleHashKeys));
}

#[test]
fn two_sort_keys_are_rejected() {
    let decl = RecordDecl::new(
        "Car",
        vec![
            FieldDecl::new("make", string(), vec![Marker::plain("hash_key")]),
            FieldDecl::new("model", string(), vec![Marker::plain("sort_key")]),
            FieldDecl::new("year", string(), vec![Marker::plain("sort_key")]),
        ],
    );
    assert_eq!(ItemDefinition::new(&decl), Err(DefinitionError::MultipleSortKeys));
}

#[test]
fn optional_hash_key_is_rejected() {
    let decl = RecordDecl::new(
        "Car",
        vec![FieldDecl::new(
            "make",
            DeclaredType::generic("Option", string()),
            vec![Marker::plain("hash_key")],
        )],
    );
    assert_eq!(ItemDefinition::new(&decl), Err(DefinitionError::HashKeyOptional));
}

#[test]
fn optional_sort_key_is_rejected() {
    let decl = RecordDecl::new(
        "Car",
        vec![
            FieldDecl::new("make", string(), vec![Marker::plain("hash_key")]),
            FieldDecl::new(
                "model",
                DeclaredType::generic("Option", string()),
                vec![Marker::plain("sort_key")],
            ),
        ],
    );
    assert_eq!(ItemDefinition::new(&decl), Err(DefinitionError::SortKeyOptional));
}

#[test]
fn missing_hash_key_is_rejected() {
    let decl = RecordDecl::new(
        "Car",
        vec![
            FieldDecl::new("make", string(), vec![]),
            FieldDecl::new("model", string(), vec![Marker::plain("sort_key")]),
        ],
    );
    assert_eq!(ItemDefinition::new(&decl), Err(DefinitionError::MissingHashKey));
    let empty = RecordDecl::new("Car", vec![]);
    assert_eq!(ItemDefinition::new(&empty), Err(DefinitionError::MissingHashKey));
}

#[test]
fn list_and_record_keys_are_rejected() {
    let list = RecordDecl::new(
        "Car",
        vec![FieldDecl::new(
            "make",
            DeclaredType::generic("Vec", string()),
            vec![Marker::plain("hash_key")],
        )],
    );
    assert_eq!(ItemDefinition::new(&list), Err(DefinitionError::HashKeyNotScalar));
    let record = RecordDecl::new(
        "Car",
        vec![
            FieldDecl::new("make", string(), vec![Marker::plain("hash_key")]),
            FieldDecl::new(
                "model",
                DeclaredType::simple("Production"),
                vec![Marker::plain("sort_key")],
            ),
        ],
    );
    assert_eq!(ItemDefinition::new(&record), Err(DefinitionError::SortKeyNotScalar));
}

#[test]
fn only_named_structs_are_supported() {
    let mut decl = car();
    decl.form = DeclForm::NotStruct;
    assert_eq!(ItemDefinition::new(&decl), Err(DefinitionError::OnlyStructs));
    assert_eq!(NestedItemDefinition::new(&decl), Err(DefinitionError::OnlyStructs));
    decl.form = DeclForm::OtherStruct;
    assert_eq!(ItemDefinition::new(&decl), Err(DefinitionError::OnlyNamedFields));
    assert_eq!(NestedItemDefinition::new(&decl), Err(DefinitionError::OnlyNamedFields));
}

#[test]
fn malformed_rename_options_are_rejected() {
    let number = Marker {
        name: "attribute".to_string(),
        options: vec![MarkerOption { name: "name".to_string(), value: OptionValue::OtherLiteral }],
    };
    let decl = RecordDecl::new(
        "Car",
        vec![
            FieldDecl::new("make", string(), vec![Marker::plain("hash_key")]),
            FieldDecl::new("hp", DeclaredType::simple("i16"), vec![number]),
        ],
    );
    assert_eq!(ItemDefinition::new(&decl), Err(DefinitionError::ExpectedString));
    let call = Marker {
        name: "hash_key".to_string(),
        options: vec![MarkerOption { name: "other".to_string(), value: OptionValue::NotLiteral }],
    };
    let decl = RecordDecl::new("Car", vec![FieldDecl::new("make", string(), vec![call])]);
    assert_eq!(ItemDefinition::new(&decl), Err(DefinitionError::ExpectedLiteral));
}

#[test]
fn the_first_broken_rule_is_reported() {
    let decl = RecordDecl::new(
        "Car",
        vec![
            FieldDecl::new(
                "model",
                DeclaredType::generic("Option", string()),
                vec![Marker::plain("sort_key")],
            ),
            FieldDecl::new("a", string(), vec![Marker::plain("hash_key")]),
            FieldDecl::new("b", string(), vec![Marker::plain("hash_key")]),
        ],
    );
    assert_eq!(ItemDefinition::new(&decl), Err(DefinitionError::SortKeyOptional));
}

#[test]
fn rename_takes_the_last_name_option() {
    let options = vec![
        MarkerOption { name: "name".to_string(), value: OptionValue::Text("a".to_string()) },
        MarkerOption { name: "other".to_string(), value: OptionValue::Text("x".to_string()) },
        MarkerOption { name: "name".to_string(), value: OptionValue::Text("b".to_string()) },
    ];
    assert_eq!(rename(&options), Ok(Some("b".to_string())));
    assert_eq!(rename(&vec![]), Ok(None));
    let other =
        vec![MarkerOption { name: "other".to_string(), value: OptionValue::Text("x".to_string()) }];
    assert_eq!(rename(&other), Ok(None));
}

#[test]
fn find_marker_returns_the_first_of_the_name() {
    let markers = vec![
        Marker::plain("doc"),
        Marker::renamed("attribute", "first"),
        Marker::renamed("attribute", "second"),
    ];
    assert_eq!(find_marker(&markers, "attribute"), Some(&markers[1]));
    assert_eq!(find_marker(&markers, "hash_key"), None);
}

#[test]
fn nested_record_keeps_declaration_order_and_renames() {
    let decl = RecordDecl::new(
        "Production",
        vec![
            FieldDecl::new("began", DeclaredType::simple("i32"), vec![]),
            FieldDecl::new(
                "units",
                DeclaredType::simple("i64"),
                vec![Marker::renamed("attribute", "units_produced")],
            ),
        ],
    );
    let nested = NestedItemDefinition::new(&decl).unwrap();
    assert_eq!(nested.attributes.len(), 2);
    assert_eq!(nested.attributes[0].attr_name, "began");
    assert_eq!(nested.attributes[1].ident, "units");
    assert_eq!(nested.attributes[1].attr_name, "units_produced");
}

#[test]
fn nested_record_with_a_key_marker_is_rejected() {
    let decl = RecordDecl::new(
        "Production",
        vec![FieldDecl::new("began", DeclaredType::simple("i32"), vec![Marker::plain("hash_key")])],
    );
    assert_eq!(NestedItemDefinition::new(&decl), Err(DefinitionError::KeyInNestedItem));
    let decl = RecordDecl::new(
        "Production",
        vec![FieldDecl::new("began", DeclaredType::simple("i32"), vec![Marker::plain("sort_key")])],
    );
    assert_eq!(NestedItemDefinition::new(&decl), Err(DefinitionError::KeyInNestedItem));
}

#[test]
fn role_markers_are_stripped() {
    assert!(strips(&"hash_key".to_string(), false));
    assert!(strips(&"sort_key".to_string(), false));
    assert!(strips(&"attribute".to_string(), false));
    assert!(!strips(&"doc".to_string(), false));
    assert!(strips(&"attribute".to_string(), true));
    assert!(!strips(&"hash_key".to_string(), true));
    assert!(!strips(&"sort_key".to_string(), true));
}

#[test]
fn attribute_reports_its_shape_and_scalar_type() {
    let item = ItemDefinition::new(&car()).unwrap();
    assert_eq!(item.hash_key.scalar_type(), Some(ScalarAttributeType::S));
    assert_eq!(item.other_attributes[0].scalar_type(), Some(ScalarAttributeType::N));
    assert_eq!(item.other_attributes[1].scalar_type(), None);
    assert_eq!(item.other_attributes[2].scalar_type(), None);
    assert_eq!(item.other_attributes[2].shape(), TypeShape::Record("Production".to_string()));
    assert!(!item.other_attributes[1].is_option());
    assert_eq!(item.other_attributes[1].type_paths(), vec!["Vec", "String"]);
    assert_eq!(item.other_attributes[1].ty_non_option(), &item.other_attributes[1].ty);
}

#[test]
fn every_error_has_its_message() {
    assert_eq!(DefinitionError::OnlyStructs.message(), "Only structs are supported");
    assert_eq!(DefinitionError::OnlyNamedFields.message(), "Only named fields are supported");
    assert_eq!(DefinitionError::MultipleHashKeys.message(), "Multiple attributes with #[hash_key]");
    assert_eq!(DefinitionError::MultipleSortKeys.message(), "Multiple attributes with #[sort_key]");
    assert_eq!(DefinitionError::ExpectedString.message(), "Expected value to be String");
    assert_eq!(DefinitionError::ExpectedLiteral.message(), "Expected value to be literal");
    assert_eq!(DefinitionError::HashKeyOptional.message(), "Hash key cannot be Option type");
    assert_eq!(DefinitionError::SortKeyOptional.message(), "Sort key cannot be Option type");
    assert_eq!(DefinitionError::MissingHashKey.message(), "#[hash_key] must be defined");
    assert_eq!(
        DefinitionError::HashKeyNotScalar.message(),
        "Hash key must be a string or an integer"
    );
    assert_eq!(
        DefinitionError::SortKeyNotScalar.message(),
        "Sort key must be a string or an integer"
    );
    assert_eq!(DefinitionError::KeyInNestedItem.message(), "A nested item cannot have a key");
}
