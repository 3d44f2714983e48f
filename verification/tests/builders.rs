use aymond::definition::{FieldDecl, ItemDefinition, Marker, RecordDecl};
use aymond::expression::{join, NameEntry};
use aymond::key::{create_get_builder, KeyAttribute};
use aymond::put_item::{create_condition_builder, create_put_item_builder, placeholder_text};
use aymond::query::{comparators, create_query_builder, Comparator};
use aymond::shape::{DeclaredType, IntKind, ScalarKind};
use aymond::value::{Registry, Value};
use aymond::wire::{WireEntry, WireValue};

fn s(text: &str) -> WireValue {
    WireValue::S(text.to_string())
}

fn n(text: &str) -> WireValue {
    WireValue::N(text.to_string())
}

fn text(value: &str) -> Value {
    Value::Text(value.to_string())
}

fn entry(name: &str, value: WireValue) -> WireEntry {
    WireEntry { name: name.to_string(), value }
}

fn name(placeholder: &str, name: &str) -> NameEntry {
    NameEntry { placeholder: placeholder.to_string(), name: name.to_string() }
}

fn car() -> ItemDefinition {
    let decl = RecordDecl::new(
        "Car",
        vec![
            FieldDecl::new("make", DeclaredType::simple("String"), vec![Marker::plain("hash_key")]),
            FieldDecl::new(
                "model",
                DeclaredType::simple("String"),
                vec![Marker::renamed("sort_key", "Model")],
            ),
            FieldDecl::new("hp", DeclaredType::simple("i16"), vec![]),
            FieldDecl::new(
                "colour",
                DeclaredType::generic("Option", DeclaredType::simple("String")),
                vec![],
            ),
        ],
    );
    ItemDefinition::new(&decl).unwrap()
}

fn cell() -> ItemDefinition {
    let decl = RecordDecl::new(
        "Cell",
        vec![
            FieldDecl::new("row", DeclaredType::simple("i32"), vec![Marker::plain("hash_key")]),
            FieldDecl::new("col", DeclaredType::simple("i32"), vec![Marker::plain("sort_key")]),
        ],
    );
    ItemDefinition::new(&decl).unwrap()
}

fn engine_car() -> ItemDefinition {
    let decl = RecordDecl::new(
        "Car",
        vec![
            FieldDecl::new("make", DeclaredType::simple("String"), vec![Marker::plain("hash_key")]),
            FieldDecl::new("hp", DeclaredType::simple("i16"), vec![]),
        ],
    );
    ItemDefinition::new(&decl).unwrap()
}

fn engine() -> ItemDefinition {
    let decl = RecordDecl::new(
        "Engine",
        vec![
            FieldDecl::new("serial", DeclaredType::simple("u64"), vec![Marker::plain("hash_key")]),
            FieldDecl::new("hp", DeclaredType::simple("i16"), vec![]),
        ],
    );
    ItemDefinition::new(&decl).unwrap()
}

#[test]
fn key_attribute_takes_name_and_kind() {
    let item = car();
    assert_eq!(
        KeyAttribute::of(&item.hash_key),
        KeyAttribute { name: "make".to_string(), kind: ScalarKind::Text }
    );
    assert_eq!(
        KeyAttribute::sort_key(&item),
        Some(KeyAttribute { name: "Model".to_string(), kind: ScalarKind::Text })
    );
    assert_eq!(KeyAttribute::sort_key(&engine()), None);
    assert_eq!(
        KeyAttribute::of(&engine().hash_key),
        KeyAttribute { name: "serial".to_string(), kind: ScalarKind::Int(IntKind::U64) }
    );
}

#[test]
fn get_key_holds_hash_and_sort_key_under_their_wire_names() {
    let key = create_get_builder(&car())
        .hash_key(&text("Porsche"))
        .unwrap()
        .sort_key(&text("911"))
        .unwrap()
        .into_key();
    assert_eq!(key.entries, vec![entry("make", s("Porsche")), entry("Model", s("911"))]);
}

#[test]
fn get_key_of_the_hash_key_alone() {
    let key = create_get_builder(&car()).hash_key(&text("Porsche")).unwrap().finish().into_key();
    assert_eq!(key.entries, vec![entry("make", s("Porsche"))]);
    let key = create_get_builder(&engine()).hash_key(&Value::UInt(7)).unwrap().finish().into_key();
    assert_eq!(key.entries, vec![entry("serial", n("7"))]);
}

#[test]
fn get_key_encodes_the_sort_key_by_its_own_kind() {
    let decl = RecordDecl::new(
        "Log",
        vec![
            FieldDecl::new("host", DeclaredType::simple("String"), vec![Marker::plain("hash_key")]),
            FieldDecl::new("line", DeclaredType::simple("u32"), vec![Marker::plain("sort_key")]),
        ],
    );
    let item = ItemDefinition::new(&decl).unwrap();
    let key = create_get_builder(&item)
        .hash_key(&text("a"))
        .unwrap()
        .sort_key(&Value::UInt(3))
        .unwrap()
        .into_key();
    assert_eq!(key.entries, vec![entry("host", s("a")), entry("line", n("3"))]);
}

#[test]
fn get_key_refuses_values_of_another_kind() {
    assert_eq!(create_get_builder(&car()).hash_key(&Value::Int(1)), None);
    assert_eq!(
        create_get_builder(&car()).hash_key(&text("Porsche")).unwrap().sort_key(&Value::Int(1)),
        None
    );
    assert_eq!(
        create_get_builder(&engine()).hash_key(&Value::UInt(1)).unwrap().sort_key(&text("x")),
        None
    );
    assert_eq!(create_get_builder(&cell()).hash_key(&Value::Int(1 << 31)), None);
}

#[test]
fn query_without_sort_key_asks_for_the_hash_key_alone() {
    let parts = create_query_builder(&engine())
        .hash_key(&Value::UInt(7))
        .unwrap()
        .finish()
        .unwrap()
        .into_parts();
    assert_eq!(parts.expression, "#hk = :hk");
    assert_eq!(parts.names, vec![name("#hk", "serial")]);
    assert_eq!(parts.values.entries, vec![entry(":hk", n("7"))]);
}

#[test]
fn query_with_sort_key_must_take_a_comparison() {
    assert_eq!(create_query_builder(&car()).hash_key(&text("Porsche")).unwrap().finish(), None);
    assert_eq!(
        create_query_builder(&engine()).hash_key(&Value::UInt(7)).unwrap().gt(&Value::UInt(1)),
        None
    );
}

#[test]
fn each_comparison_has_its_key_condition() {
    let stage = || create_query_builder(&car()).hash_key(&text("Porsche")).unwrap();
    let nine = text("9");
    assert_eq!(stage().gt(&nine).unwrap().qs, "#hk = :hk AND #sk > :b");
    assert_eq!(stage().ge(&nine).unwrap().qs, "#hk = :hk AND #sk >= :b");
    assert_eq!(stage().lt(&nine).unwrap().qs, "#hk = :hk AND #sk < :b");
    assert_eq!(stage().le(&nine).unwrap().qs, "#hk = :hk AND #sk <= :b");
    assert_eq!(stage().begins_with(&nine).unwrap().qs, "#hk = :hk AND begins_with(#sk, :b)");
    assert_eq!(
        stage().between(&nine, &text("99")).unwrap().qs,
        "#hk = :hk AND #sk BETWEEN :b AND :c"
    );
    assert_eq!(Comparator::Gt.template(), "#hk = :hk AND #sk > :b");
    assert_eq!(Comparator::Between.template(), "#hk = :hk AND #sk BETWEEN :b AND :c");
}

#[test]
fn comparison_binds_names_and_values() {
    let parts = create_query_builder(&car())
        .hash_key(&text("Porsche"))
        .unwrap()
        .gt(&text("9"))
        .unwrap()
        .into_parts();
    assert_eq!(parts.expression, "#hk = :hk AND #sk > :b");
    assert_eq!(parts.names, vec![name("#hk", "make"), name("#sk", "Model")]);
    assert_eq!(parts.values.entries, vec![entry(":hk", s("Porsche")), entry(":b", s("9"))]);
}

#[test]
fn between_binds_low_and_high() {
    let parts = create_query_builder(&car())
        .hash_key(&text("Porsche"))
        .unwrap()
        .between(&text("9"), &text("99"))
        .unwrap()
        .into_parts();
    assert!(parts.expression.contains("BETWEEN"));
    assert_eq!(
        parts.values.entries,
        vec![entry(":hk", s("Porsche")), entry(":b", s("9")), entry(":c", s("99"))]
    );
    assert_eq!(parts.values.get(":b"), Some(&s("9")));
    assert_eq!(parts.values.get(":c"), Some(&s("99")));
    let parts = create_query_builder(&cell())
        .hash_key(&Value::Int(10))
        .unwrap()
        .between(&Value::Int(-3), &Value::Int(14))
        .unwrap()
        .into_parts();
    assert_eq!(
        parts.values.entries,
        vec![entry(":hk", n("10")), entry(":b", n("-3")), entry(":c", n("14"))]
    );
}

#[test]
fn between_refuses_values_of_another_kind() {
    let stage = || create_query_builder(&cell()).hash_key(&Value::Int(10)).unwrap();
    assert_eq!(stage().between(&text("a"), &Value::Int(1)), None);
    assert_eq!(stage().between(&Value::Int(1), &text("a")), None);
    assert_eq!(stage().compare(Comparator::Between, &Value::Int(1)), None);
}

#[test]
fn begins_with_is_offered_on_string_sort_keys_only() {
    assert_eq!(
        create_query_builder(&cell()).hash_key(&Value::Int(10)).unwrap().begins_with(&text("1")),
        None
    );
    assert_eq!(
        create_query_builder(&cell())
            .hash_key(&Value::Int(10))
            .unwrap()
            .begins_with(&Value::Int(1)),
        None
    );
    assert_eq!(
        comparators(ScalarKind::Text),
        vec![
            Comparator::Gt,
            Comparator::Ge,
            Comparator::Lt,
            Comparator::Le,
            Comparator::Between,
            Comparator::BeginsWith
        ]
    );
    assert_eq!(
        comparators(ScalarKind::Int(IntKind::I32)),
        vec![Comparator::Gt, Comparator::Ge, Comparator::Lt, Comparator::Le, Comparator::Between]
    );
}

#[test]
fn comparison_methods_are_named_after_the_sort_key_field() {
    assert_eq!(Comparator::Gt.method_name("model"), "model_gt");
    assert_eq!(Comparator::Ge.method_name("model"), "model_ge");
    assert_eq!(Comparator::Lt.method_name("model"), "model_lt");
    assert_eq!(Comparator::Le.method_name("model"), "model_le");
    assert_eq!(Comparator::Between.method_name("col"), "col_between");
    assert_eq!(Comparator::BeginsWith.method_name("model"), "model_begins_with");
}

#[test]
fn condition_joins_fragments_in_call_order() {
    let registry = Registry::new();
    let parts = create_condition_builder(&car())
        .and()
        .eq("hp", &Value::Int(518), &registry)
        .unwrap()
        .or()
        .not()
        .paren_open()
        .eq("make", &text("Porsche"), &registry)
        .unwrap()
        .paren_close()
        .into_parts();
    assert_eq!(parts.expression, "AND #a = :a OR NOT ( #b = :b )");
    assert_eq!(parts.names, vec![name("#a", "hp"), name("#b", "make")]);
    assert_eq!(parts.values.entries, vec![entry(":a", n("518")), entry(":b", s("Porsche"))]);
}

#[test]
fn condition_of_two_fields_in_a_chain() {
    let registry = Registry::new();
    let parts = create_condition_builder(&engine_car())
        .and()
        .eq("make", &text("Porsche"), &registry)
        .unwrap()
        .or()
        .not()
        .paren_open()
        .eq("hp", &Value::Int(518), &registry)
        .unwrap()
        .paren_close()
        .into_parts();
    assert_eq!(parts.expression, "AND #a = :a OR NOT ( #b = :b )");
    assert_eq!(parts.names, vec![name("#a", "make"), name("#b", "hp")]);
    assert_eq!(parts.values.entries, vec![entry(":a", s("Porsche")), entry(":b", n("518"))]);
    let parts = create_condition_builder(&engine_car())
        .eq("hp", &Value::Int(1), &registry)
        .unwrap()
        .or()
        .eq("hp", &Value::Int(2), &registry)
        .unwrap()
        .into_parts();
    assert_eq!(parts.expression, "#a = :a OR #b = :b");
    assert_eq!(parts.names, vec![name("#a", "hp"), name("#b", "hp")]);
    assert_eq!(parts.values.entries, vec![entry(":a", n("1")), entry(":b", n("2"))]);
}

#[test]
fn placeholders_are_letters_and_then_numbered() {
    assert_eq!(placeholder_text(0), "a");
    assert_eq!(placeholder_text(1), "b");
    assert_eq!(placeholder_text(25), "z");
    assert_eq!(placeholder_text(26), "a26");
    assert_eq!(placeholder_text(100), "a100");
    let mut seen: Vec<String> = (0..300).map(placeholder_text).collect();
    seen.sort();
    seen.dedup();
    assert_eq!(seen.len(), 300);
}

#[test]
fn condition_names_the_attribute_by_its_wire_name() {
    let registry = Registry::new();
    let parts = create_condition_builder(&car())
        .eq("model", &text("911"), &registry)
        .unwrap()
        .into_parts();
    assert_eq!(parts.expression, "#a = :a");
    assert_eq!(parts.names, vec![name("#a", "Model")]);
}

#[test]
fn condition_has_an_entry_for_each_occurrence_of_a_field() {
    let registry = Registry::new();
    let parts = create_condition_builder(&car())
        .eq("hp", &Value::Int(1), &registry)
        .unwrap()
        .or()
        .eq("hp", &Value::Int(2), &registry)
        .unwrap()
        .into_parts();
    assert_eq!(parts.expression, "#a = :a OR #b = :b");
    assert_eq!(parts.names, vec![name("#a", "hp"), name("#b", "hp")]);
    assert_eq!(parts.values.entries, vec![entry(":a", n("1")), entry(":b", n("2"))]);
}

#[test]
fn condition_has_no_limit_of_comparisons() {
    let registry = Registry::new();
    let mut condition = create_condition_builder(&car());
    for i in 0..30 {
        condition = condition.eq("hp", &Value::Int(i), &registry).unwrap();
    }
    let parts = condition.into_parts();
    assert_eq!(parts.names.len(), 30);
    assert_eq!(parts.names[2], name("#c", "hp"));
    assert_eq!(parts.names[25], name("#z", "hp"));
    assert_eq!(parts.names[26], name("#a26", "hp"));
    assert_eq!(parts.values.get(":z"), Some(&n("25")));
    assert_eq!(parts.values.get(":a29"), Some(&n("29")));
    assert!(parts.expression.starts_with("#a = :a #b = :b #c = :c "));
    assert!(parts
        .expression
        .ends_with("#y = :y #z = :z #a26 = :a26 #a27 = :a27 #a28 = :a28 #a29 = :a29"));
    let mut keys: Vec<&str> = parts.values.entries.iter().map(|e| e.name.as_str()).collect();
    keys.sort();
    keys.dedup();
    assert_eq!(keys.len(), 30);
}

#[test]
fn condition_compares_an_optional_field_with_the_value_inside() {
    let registry = Registry::new();
    let parts = create_condition_builder(&car())
        .eq("colour", &text("Red"), &registry)
        .unwrap()
        .into_parts();
    assert_eq!(parts.values.entries, vec![entry(":a", s("Red"))]);
    assert_eq!(
        create_condition_builder(&car()).eq(
            "colour",
            &Value::Optional(Some(Box::new(text("Red")))),
            &registry
        ),
        None
    );
}

#[test]
fn condition_refuses_unknown_fields_and_values_of_another_shape() {
    let registry = Registry::new();
    assert_eq!(create_condition_builder(&car()).eq("wheels", &Value::Int(4), &registry), None);
    assert_eq!(create_condition_builder(&car()).eq("hp", &text("518"), &registry), None);
    assert_eq!(create_condition_builder(&car()).eq("Model", &text("911"), &registry), None);
}

#[test]
fn empty_condition_is_the_empty_expression() {
    let parts = create_condition_builder(&car()).into_parts();
    assert_eq!(parts.expression, "");
    assert!(parts.names.is_empty());
    assert_eq!(parts.values.len(), 0);
}

#[test]
fn join_puts_single_spaces_between_fragments() {
    assert_eq!(join(&vec![]), "");
    assert_eq!(join(&vec!["(".to_string()]), "(");
    assert_eq!(join(&vec!["a".to_string(), "".to_string(), "b".to_string()]), "a  b");
}

#[test]
fn put_builder_starts_empty_and_takes_item_and_condition() {
    let registry = Registry::new();
    let builder = create_put_item_builder(&engine());
    assert_eq!(builder.i, None);
    assert_eq!(builder.condition, None);
    let builder = builder.item(&vec![Value::UInt(7), Value::Int(518)], &registry).unwrap();
    assert_eq!(
        builder.i.as_ref().unwrap().entries,
        vec![entry("serial", n("7")), entry("hp", n("518"))]
    );
    let condition =
        create_condition_builder(&engine()).not().eq("hp", &Value::Int(0), &registry).unwrap();
    let builder = builder.condition(condition);
    assert_eq!(builder.condition.as_ref().unwrap().expression, "NOT #a = :a");
    assert!(builder.i.is_some());
}

#[test]
fn put_builder_refuses_values_that_are_no_item() {
    let registry = Registry::new();
    assert_eq!(create_put_item_builder(&engine()).item(&vec![Value::UInt(7)], &registry), None);
    assert_eq!(
        create_put_item_builder(&engine()).item(&vec![Value::Int(7), Value::Int(1)], &registry),
        None
    );
}

#[test]
fn key_takes_every_key_of_the_item() {
    let key = car().key(&text("Porsche"), Some(&text("911"))).unwrap();
    assert_eq!(key.entries, vec![entry("make", s("Porsche")), entry("Model", s("911"))]);
    assert_eq!(car().key(&text("Porsche"), None), None);
    assert_eq!(car().key(&text("Porsche"), Some(&Value::Int(911))), None);
    assert_eq!(car().key(&Value::Int(1), Some(&text("911"))), None);
    let key = engine().key(&Value::UInt(7), None).unwrap();
    assert_eq!(key.entries, vec![entry("serial", n("7"))]);
    assert_eq!(engine().key(&Value::UInt(7), Some(&Value::UInt(1))), None);
}
