use aymond::wire::{WireEntry, WireMap, WireValue};

fn s(text: &str) -> WireValue {
    WireValue::S(text.to_string())
}

#[test]
fn new_map_is_empty() {
    let map = WireMap::new();
    assert_eq!(map.len(), 0);
    assert_eq!(map.get("a"), None);
    assert!(!map.contains_key("a"));
}

#[test]
fn insert_appends_new_names_in_order() {
    let mut map = WireMap::new();
    map.insert("b".to_string(), s("1"));
    map.insert("a".to_string(), s("2"));
    assert_eq!(
        map.entries,
        vec![
            WireEntry { name: "b".to_string(), value: s("1") },
            WireEntry { name: "a".to_string(), value: s("2") },
        ]
    );
    assert_eq!(map.position("a"), Some(1));
    assert_eq!(map.position("c"), None);
}

#[test]
fn insert_replaces_the_entry_of_a_name_in_place() {
    let mut map = WireMap::new();
    map.insert("a".to_string(), s("1"));
    map.insert("b".to_string(), s("2"));
    map.insert("a".to_string(), s("3"));
    assert_eq!(map.len(), 2);
    assert_eq!(map.get("a"), Some(&s("3")));
    assert_eq!(map.get("b"), Some(&s("2")));
    assert_eq!(map.position("a"), Some(0));
}

#[test]
fn get_finds_the_first_entry_of_a_name() {
    let map = WireMap {
        entries: vec![
            WireEntry { name: "a".to_string(), value: s("1") },
            WireEntry { name: "a".to_string(), value: s("2") },
        ],
    };
    assert_eq!(map.get("a"), Some(&s("1")));
    assert!(map.contains_key("a"));
}

#[test]
fn clone_copies_nested_wire_values() {
    let mut inner = WireMap::new();
    inner.insert("began".to_string(), WireValue::N("1964".to_string()));
    let value = WireValue::L(vec![s("a"), WireValue::M(inner), WireValue::Other]);
    assert_eq!(value.clone(), value);
    let mut map = WireMap::new();
    map.insert("v".to_string(), value);
    assert_eq!(map.clone(), map);
}
