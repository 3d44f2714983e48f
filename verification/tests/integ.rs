use aymond::definition::{
    DefinitionError, FieldDecl, ItemDefinition, Marker, NestedItemDefinition, RecordDecl,
};
use aymond::marshal::from_into_item_structure;
use aymond::shape::DeclaredType;
use aymond::table::{create_table, settle_create, settle_delete, Failure, Table};
use aymond::value::{Registry, Value};
use aymond::wire::{WireMap, WireValue};

fn text(value: &str) -> Value {
    Value::Text(value.to_string())
}

fn car_decl() -> RecordDecl {
    RecordDecl::new(
        "Car",
        vec![
            FieldDecl::new("make", DeclaredType::simple("String"), vec![Marker::plain("hash_key")]),
            FieldDecl::new(
                "model",
                DeclaredType::simple("String"),
                vec![Marker::plain("sort_key")],
            ),
            FieldDecl::new("hp", DeclaredType::simple("i16"), vec![]),
            FieldDecl::new(
                "variants",
                DeclaredType::generic("Vec", DeclaredType::simple("String")),
                vec![],
            ),
            FieldDecl::new("production", DeclaredType::simple("Production"), vec![]),
        ],
    )
}

fn production_decl() -> RecordDecl {
    RecordDecl::new(
        "Production",
        vec![
            FieldDecl::new("began", DeclaredType::simple("i32"), vec![]),
            FieldDecl::new(
                "units",
                DeclaredType::simple("i64"),
                vec![Marker::renamed("attribute", "units_produced")],
            ),
        ],
    )
}

fn car_registry() -> Registry {
    let mut registry = Registry::new();
    registry
        .register("Production".to_string(), NestedItemDefinition::new(&production_decl()).unwrap());
    registry
}

fn car_factory() -> Vec<Value> {
    vec![
        text("Porsche"),
        text("911"),
        Value::Int(518),
        Value::List(vec![text("Carrera"), text("Carrera S"), text("Carrera 4S"), text("GT3 RS")]),
        Value::Record(vec![Value::Int(1964), Value::Int(1_100_000)]),
    ]
}

fn small_car_decl() -> RecordDecl {
    RecordDecl::new(
        "Car",
        vec![
            FieldDecl::new("make", DeclaredType::simple("String"), vec![Marker::plain("hash_key")]),
            FieldDecl::new("hp", DeclaredType::simple("i16"), vec![]),
        ],
    )
}

fn cell_decl() -> RecordDecl {
    RecordDecl::new(
        "Cell",
        vec![
            FieldDecl::new("row", DeclaredType::simple("i32"), vec![Marker::plain("hash_key")]),
            FieldDecl::new("col", DeclaredType::simple("i32"), vec![Marker::plain("sort_key")]),
        ],
    )
}

fn open_table(name: &str, decl: &RecordDecl) -> Table {
    let table = create_table(name.to_string(), ItemDefinition::new(decl).unwrap());
    let missing: Result<(), (Failure, &str)> = Err((Failure::ResourceNotFound, "missing"));
    settle_delete(false, missing).expect("Failed to delete");
    let created: Result<(), (Failure, &str)> = Ok(());
    settle_create(false, created).expect("Failed to create");
    table
}

fn write(table: &Table, fields: &Vec<Value>, registry: &Registry) -> WireMap {
    let put = table.put().item(fields, registry).expect("Failed to write");
    table.put_item(put).expect("Failed to write").item
}

#[test]
fn basic() {
    let registry = car_registry();
    let table = open_table("basic", &car_decl());
    let stored = write(&table, &car_factory(), &registry);

    let key = table.get().hash_key(&text("Porsche")).unwrap().sort_key(&text("911")).unwrap();
    let request = table.get_item(key);
    assert!(request.key.get("make") == stored.get("make"));
    assert!(request.key.get("model") == stored.get("model"));
    let get = table.found(Some(&stored), &registry).unwrap();
    assert!(get.unwrap() == car_factory());

    let q = table.query().hash_key(&text("Porsche")).unwrap().gt(&text("9")).unwrap();
    let request = table.query_ext(q);
    assert!(request.key_condition.expression == "#hk = :hk AND #sk > :b");
    let query: Vec<Vec<Value>> =
        vec![&stored].into_iter().map(|e| table.found(Some(e), &registry).unwrap().unwrap()).collect();
    assert!(query == vec![car_factory()]);
}

#[test]
fn no_sort_key() {
    let registry = Registry::new();
    let table = open_table("no_sort_key", &small_car_decl());
    let it_factory = || vec![text("Porsche"), Value::Int(518)];
    let stored = write(&table, &it_factory(), &registry);

    let key = table.get().hash_key(&text("Porsche")).unwrap().finish();
    let request = table.get_item(key);
    assert!(request.key.len() == 1);
    let get = table.found(Some(&stored), &registry).unwrap();
    assert!(get.unwrap() == it_factory());

    let q = table.query().hash_key(&text("Porsche")).unwrap().finish().unwrap();
    let request = table.query_ext(q);
    assert!(request.key_condition.expression == "#hk = :hk");
    assert!(request.key_condition.values.get(":hk") == stored.get("make"));
}

#[test]
fn numeric_keys() {
    let registry = Registry::new();
    let table = open_table("numeric_keys", &cell_decl());
    let it_factory = || vec![Value::Int(10), Value::Int(14)];
    let stored = write(&table, &it_factory(), &registry);

    let key = table.get().hash_key(&Value::Int(10)).unwrap().sort_key(&Value::Int(14)).unwrap();
    let request = table.get_item(key);
    assert!(request.key.entries == stored.entries);
    let get = table.found(Some(&stored), &registry).unwrap();
    assert!(get.unwrap() == it_factory());

    let q = table.query().hash_key(&Value::Int(10)).unwrap().gt(&Value::Int(10)).unwrap();
    let request = table.query_ext(q);
    assert!(request.key_condition.values.get(":b") == Some(&WireValue::N("10".to_string())));
    assert!(request.key_condition.names.len() == 2);
}

#[test]
fn integ_compile() {
    let decl = RecordDecl::new(
        "Car",
        vec![
            FieldDecl::new("make", DeclaredType::simple("String"), vec![Marker::plain("hash_key")]),
            FieldDecl::new(
                "model",
                DeclaredType::generic("Option", DeclaredType::simple("String")),
                vec![Marker::plain("sort_key")],
            ),
        ],
    );
    assert_eq!(ItemDefinition::new(&decl), Err(DefinitionError::SortKeyOptional));
}

#[test]
fn basic_test() {
    let registry = car_registry();
    let table = open_table("basic", &car_decl());
    let stored = write(&table, &car_factory(), &registry);

    let get = table.found(Some(&stored), &registry).unwrap();
    assert_eq!(get.unwrap(), car_factory());

    let production = match stored.get("production").unwrap() {
        WireValue::M(map) => map,
        other => panic!("production is {:?}", other),
    };
    let units = match production.get("units_produced").unwrap() {
        WireValue::N(text) => text,
        other => panic!("units_produced is {:?}", other),
    };
    assert_eq!(units, "1100000");
    let get = table.found(Some(&stored), &registry).unwrap();
    assert_eq!(get.unwrap(), car_factory());

    let q = table.query().hash_key(&text("Porsche")).unwrap().gt(&text("9")).unwrap();
    let parts = table.query_ext(q).key_condition;
    assert_eq!(parts.values.get(":hk"), Some(&WireValue::S("Porsche".to_string())));
    assert_eq!(parts.values.get(":b"), Some(&WireValue::S("9".to_string())));
}

#[test]
fn no_sort_key_test() {
    let registry = Registry::new();
    let table = open_table("no_sort_key", &small_car_decl());
    let it_factory = || vec![text("Porsche"), Value::Int(518)];
    let stored = write(&table, &it_factory(), &registry);

    let get = table.found(Some(&stored), &registry).unwrap();
    assert_eq!(get.unwrap(), it_factory());
    let key = table.get().hash_key(&text("Porsche")).unwrap().finish().into_key();
    assert_eq!(key.get("make"), Some(&WireValue::S("Porsche".to_string())));
    let q = table.query().hash_key(&text("Porsche")).unwrap().finish().unwrap().into_parts();
    assert_eq!(q.names.len(), 1);
    assert_eq!(q.names[0].name, "make");
}

#[test]
fn no_table_test() {
    let item = ItemDefinition::new(&small_car_decl()).unwrap();
    let it = vec![text("Porsche"), Value::Int(518)];
    let map = from_into_item_structure(&item).into_map(&it, &Registry::new());
    assert!(map.is_some());
}

#[test]
fn numeric_keys_test() {
    let registry = Registry::new();
    let table = open_table("numeric_keys", &cell_decl());
    let it_factory = || vec![Value::Int(10), Value::Int(14)];
    let stored = write(&table, &it_factory(), &registry);
    assert_eq!(stored.get("row"), Some(&WireValue::N("10".to_string())));
    assert_eq!(stored.get("col"), Some(&WireValue::N("14".to_string())));

    let get = table.found(Some(&stored), &registry).unwrap();
    assert_eq!(get.unwrap(), it_factory());

    let q = table.query().hash_key(&Value::Int(10)).unwrap().gt(&Value::Int(10)).unwrap();
    assert_eq!(q.qs, "#hk = :hk AND #sk > :b");
    let query: Vec<Vec<Value>> =
        vec![table.found(Some(&stored), &registry).unwrap().unwrap()];
    assert_eq!(query, vec![it_factory()]);
}

#[test]
fn option_attribute_test() {
    let registry = Registry::new();
    let decl = RecordDecl::new(
        "Cell",
        vec![
            FieldDecl::new("row", DeclaredType::simple("i32"), vec![Marker::plain("hash_key")]),
            FieldDecl::new("col", DeclaredType::simple("i32"), vec![Marker::plain("sort_key")]),
            FieldDecl::new(
                "label",
                DeclaredType::generic("Option", DeclaredType::simple("String")),
                vec![],
            ),
        ],
    );
    let table = open_table("option_attribute", &decl);

    let it_factory = || vec![Value::Int(10), Value::Int(14), Value::Optional(None)];
    let stored = write(&table, &it_factory(), &registry);
    let get = table.found(Some(&stored), &registry).unwrap();
    assert_eq!(get.unwrap(), it_factory());

    let it_factory =
        || vec![Value::Int(10), Value::Int(14), Value::Optional(Some(Box::new(text("Red"))))];
    let stored = write(&table, &it_factory(), &registry);
    let get = table.found(Some(&stored), &registry).unwrap();
    assert_eq!(get.unwrap(), it_factory());
}

#[test]
fn main_compile() {
    assert!(ItemDefinition::new(&car_decl()).is_ok());
    assert!(NestedItemDefinition::new(&production_decl()).is_ok());
    let decl = RecordDecl::new(
        "Car",
        vec![
            FieldDecl::new("make", DeclaredType::simple("String"), vec![Marker::plain("hash_key")]),
            FieldDecl::new(
                "model",
                DeclaredType::generic("Option", DeclaredType::simple("String")),
                vec![Marker::plain("sort_key")],
            ),
        ],
    );
    assert!(ItemDefinition::new(&decl).is_err());
}
